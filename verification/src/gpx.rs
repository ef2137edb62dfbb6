//! GPX tracks: reading the track points of a GPX document and finding the
//! point nearest to the time a photo was taken.
//!
//! Coordinates and elevations stay the text the document gives (text that
//! reads as a floating-point number); the caller turns them into numbers.
use vstd::prelude::*;
use vstd::string::*;
use quick_xml::events::Event;
use crate::text::{trimmed, trim_text, string_from_chars, is_space};

verus! {

// ============================================================================
// Instants
// ============================================================================

/// An instant in UTC: seconds since the Unix epoch and the nanoseconds
/// within that second (a leap second counts its nanoseconds past one
/// billion, as chrono does).
#[derive(Debug, Clone, Copy, PartialEq, Eq, Structural)]
pub struct GpxTime {
    pub secs: i64,
    pub nanos: u32,
}

/// `a` is earlier than `b`.
pub open spec fn time_lt(a: GpxTime, b: GpxTime) -> bool {
    a.secs < b.secs || (a.secs == b.secs && a.nanos < b.nanos)
}

/// Whether `a` is earlier than `b`.
pub fn time_before(a: GpxTime, b: GpxTime) -> (r: bool)
    ensures
        r == time_lt(a, b),
{
    a.secs < b.secs || (a.secs == b.secs && a.nanos < b.nanos)
}

/// What `chrono::DateTime::parse_from_rfc3339` reads from a text, as an
/// instant in UTC.
pub uninterp spec fn rfc3339_instant(s: Seq<char>) -> Option<GpxTime>;

/// What `chrono::NaiveDateTime::parse_from_str` reads from a text with a
/// format, taken as UTC.
pub uninterp spec fn naive_instant(s: Seq<char>, fmt: Seq<char>) -> Option<GpxTime>;

/// The whole seconds from `b` to `a`, `(a - b).num_seconds()` in chrono,
/// for instants chrono can hold.
pub uninterp spec fn seconds_between(a: GpxTime, b: GpxTime) -> Option<i64>;

// ============================================================================
// Calendar dates
// ============================================================================

/// The value of a decimal digit character.
pub open spec fn digit_at(s: Seq<char>, i: int) -> int {
    s[i] as int - '0' as int
}

/// The value of the two digits of `s` at `i`.
pub open spec fn two_digits_at(s: Seq<char>, i: int) -> int {
    digit_at(s, i) * 10 + digit_at(s, i + 1)
}

/// `s` has the shape of an EXIF date, `YYYY:MM:DD HH:MM:SS`.
pub open spec fn exif_date_shape(s: Seq<char>) -> bool {
    &&& s.len() == 19
    &&& forall|i: int| 0 <= i < 19 && i != 4 && i != 7 && i != 10 && i != 13 && i != 16
        ==> '0' <= #[trigger] s[i] <= '9'
    &&& s[4] == ':' && s[7] == ':' && s[10] == ' ' && s[13] == ':' && s[16] == ':'
}

/// The year, month, day, hour, minute and second of an EXIF date.
pub open spec fn date_year(s: Seq<char>) -> int {
    digit_at(s, 0) * 1000 + digit_at(s, 1) * 100 + two_digits_at(s, 2)
}

pub open spec fn date_month(s: Seq<char>) -> int {
    two_digits_at(s, 5)
}

pub open spec fn date_day(s: Seq<char>) -> int {
    two_digits_at(s, 8)
}

pub open spec fn date_hour(s: Seq<char>) -> int {
    two_digits_at(s, 11)
}

pub open spec fn date_minute(s: Seq<char>) -> int {
    two_digits_at(s, 14)
}

pub open spec fn date_second(s: Seq<char>) -> int {
    two_digits_at(s, 17)
}

/// A leap year of the Gregorian calendar.
pub open spec fn is_leap_year(y: int) -> bool {
    (y % 4 == 0 && y % 100 != 0) || y % 400 == 0
}

/// The number of days of month `m` (1 to 12) of year `y`.
pub open spec fn days_in_month(y: int, m: int) -> int {
    if m == 2 {
        if is_leap_year(y) { 29 } else { 28 }
    } else if m == 4 || m == 6 || m == 9 || m == 11 {
        30
    } else {
        31
    }
}

/// The days of year `y` before the first of month `m`.
pub open spec fn days_before_month(y: int, m: int) -> int {
    (if m == 1 { 0int } else if m == 2 { 31 } else if m == 3 { 59 } else if m == 4 { 90 } else if m == 5 { 120 }
    else if m == 6 { 151 } else if m == 7 { 181 } else if m == 8 { 212 } else if m == 9 { 243 } else if m == 10 {
        273
    } else if m == 11 { 304 } else { 334 }) + (if m > 2 && is_leap_year(y) { 1int } else { 0 })
}

/// The days from 1 January 1970 to a date of the Gregorian calendar.
pub open spec fn days_from_epoch(y: int, m: int, d: int) -> int {
    (y - 1) * 365 + (y - 1) / 4 - (y - 1) / 100 + (y - 1) / 400 + days_before_month(y, m) + d - 1 - 719162
}

/// An EXIF date of a real day and time, in the years 1000 to 9999.
pub open spec fn valid_exif_date(s: Seq<char>) -> bool {
    &&& exif_date_shape(s)
    &&& 1000 <= date_year(s)
    &&& 1 <= date_month(s) <= 12
    &&& 1 <= date_day(s) <= days_in_month(date_year(s), date_month(s))
    &&& date_hour(s) < 24 && date_minute(s) < 60 && date_second(s) < 60
}

/// The instant an EXIF date names, read as UTC: year, month, day, hour,
/// minute and second of the Gregorian calendar.
pub open spec fn calendar_instant(s: Seq<char>) -> GpxTime {
    GpxTime {
        secs: (days_from_epoch(date_year(s), date_month(s), date_day(s)) * 86400 + date_hour(s) * 3600
            + date_minute(s) * 60 + date_second(s)) as i64,
        nanos: 0,
    }
}

/// `chrono::DateTime::parse_from_rfc3339`: the instant an RFC 3339 text
/// names, converted to UTC. The parser is named, not stated.
#[verifier::external_body]
fn parse_rfc3339(s: &str) -> (r: Option<GpxTime>)
    ensures
        r == rfc3339_instant(s@),
{
    chrono::DateTime::parse_from_rfc3339(s).ok().map(
        |d| GpxTime { secs: d.timestamp(), nanos: d.timestamp_subsec_nanos() },
    )
}

/// `chrono::NaiveDateTime::parse_from_str`: the date and time a text holds
/// in the given format, taken as UTC (`and_utc`). The parser is named; for
/// the EXIF format `%Y:%m:%d %H:%M:%S` on a text of that exact shape naming
/// a real date and time, the result is stated: that instant of the
/// Gregorian calendar, with no fraction of a second.
#[verifier::external_body]
fn parse_naive(s: &str, fmt: &str) -> (r: Option<GpxTime>)
    ensures
        r == naive_instant(s@, fmt@),
        fmt@ == "%Y:%m:%d %H:%M:%S"@ && valid_exif_date(s@) ==> r == Some(calendar_instant(s@)),
{
    chrono::NaiveDateTime::parse_from_str(s, fmt).ok().map(|n| n.and_utc()).map(
        |d| GpxTime { secs: d.timestamp(), nanos: d.timestamp_subsec_nanos() },
    )
}

/// The nanoseconds from the Unix epoch to an instant.
pub open spec fn total_nanos(t: GpxTime) -> int {
    t.secs * 1_000_000_000 + t.nanos
}

/// The whole seconds from `b` to `a`, rounded toward zero.
pub open spec fn truncated_seconds(a: GpxTime, b: GpxTime) -> int {
    let e = total_nanos(a) - total_nanos(b);
    if e >= 0 {
        e / 1_000_000_000
    } else {
        -((-e) / 1_000_000_000)
    }
}

/// `(a - b).num_seconds()` on chrono's `DateTime<Utc>`: the whole seconds
/// between two instants, rounded toward zero (`TimeDelta::num_seconds`).
/// `None` where chrono cannot hold one of the instants
/// (`DateTime::from_timestamp`); the bounds of that range are not stated.
/// The value is stated for instants outside a leap second (fewer than a
/// billion nanoseconds), where chrono subtracts plainly.
#[verifier::external_body]
fn whole_seconds_between(a: GpxTime, b: GpxTime) -> (r: Option<i64>)
    ensures
        r == seconds_between(a, b),
        a.nanos < 1_000_000_000 && b.nanos < 1_000_000_000 ==> match r {
            Some(d) => d == truncated_seconds(a, b),
            None => true,
        },
{
    match (chrono::DateTime::from_timestamp(a.secs, a.nanos), chrono::DateTime::from_timestamp(b.secs, b.nanos)) {
        (Some(x), Some(y)) => Some((x - y).num_seconds()),
        _ => None,
    }
}

/// What `String::from_utf8_lossy` makes of bytes.
pub uninterp spec fn lossy_utf8(b: Seq<u8>) -> Seq<char>;

/// `String::from_utf8_lossy`: the text of the bytes, each invalid sequence
/// replaced by U+FFFD; valid UTF-8 decodes as is.
#[verifier::external_body]
fn lossy_text(b: &[u8]) -> (s: String)
    ensures
        s@ == lossy_utf8(b@),
        vstd::utf8::valid_utf8(b@) ==> s@ == vstd::utf8::decode_utf8(b@),
{
    String::from_utf8_lossy(b).into_owned()
}

// ============================================================================
// XML events
// ============================================================================

#[verifier::external_type_specification]
#[verifier::external_body]
#[verifier::reject_recursive_types(R)]
pub struct ExXmlReader<R>(quick_xml::Reader<R>);

/// An XML event, as the GPX reader uses it.
pub enum XmlEvent {
    /// An opening tag: its name and its attributes (name, raw value).
    Start { name: Vec<u8>, attributes: Vec<(Vec<u8>, Vec<u8>)> },
    /// A closing tag.
    End { name: Vec<u8> },
    /// Character data, unescaped, or the reason it could not be.
    Text(Result<String, String>),
    /// The end of the document.
    Eof,
    /// A syntax error, with the reader's message.
    Failed(String),
    /// Any other event (empty tags, comments, declarations).
    Other,
}

/// The mathematical value of an XML event.
pub enum XmlEventView {
    Start { name: Seq<u8>, attributes: Seq<(Seq<u8>, Seq<u8>)> },
    End { name: Seq<u8> },
    Text(Result<Seq<char>, Seq<char>>),
    Eof,
    Failed(Seq<char>),
    Other,
}

impl View for XmlEvent {
    type V = XmlEventView;

    open spec fn view(&self) -> XmlEventView {
        match self {
            XmlEvent::Start { name, attributes } => XmlEventView::Start {
                name: name@,
                attributes: attributes@.map_values(|a: (Vec<u8>, Vec<u8>)| (a.0@, a.1@)),
            },
            XmlEvent::End { name } => XmlEventView::End { name: name@ },
            XmlEvent::Text(r) => XmlEventView::Text(
                match r {
                    Ok(t) => Ok(t@),
                    Err(m) => Err(m@),
                },
            ),
            XmlEvent::Eof => XmlEventView::Eof,
            XmlEvent::Failed(m) => XmlEventView::Failed(m@),
            XmlEvent::Other => XmlEventView::Other,
        }
    }
}

/// An event after which the reader is not asked again: the end of the
/// document or an error.
pub open spec fn is_last_event(e: XmlEventView) -> bool {
    e is Eof || e is Failed
}

/// The events quick-xml's `Reader::read_event_into` returns, one per call,
/// for a document read with `Reader::from_str` and `trim_text(true)`, up to
/// and including the first end of document or error.
pub uninterp spec fn xml_events(source: Seq<char>) -> Seq<XmlEventView>;

#[verifier::external_type_specification]
#[verifier::external_body]
pub struct ExXmlEvent<'a>(quick_xml::events::Event<'a>);

/// The kind of an XML event, with the message of an error.
pub enum XmlKind {
    Start,
    End,
    Text,
    Eof,
    Failed(String),
    Other,
}

/// The kind of an event's view.
pub open spec fn kind_matches(k: XmlKind, e: XmlEventView) -> bool {
    match (k, e) {
        (XmlKind::Start, XmlEventView::Start { .. }) => true,
        (XmlKind::End, XmlEventView::End { .. }) => true,
        (XmlKind::Text, XmlEventView::Text(_)) => true,
        (XmlKind::Eof, XmlEventView::Eof) => true,
        (XmlKind::Failed(m), XmlEventView::Failed(n)) => m@ == n,
        (XmlKind::Other, XmlEventView::Other) => true,
        _ => false,
    }
}

/// A reader over a GPX document, the last event it read, and the number
/// of events it has handed out.
pub struct XmlCursor<'a> {
    reader: quick_xml::Reader<&'a [u8]>,
    buf: Vec<u8>,
    last: Option<quick_xml::events::Event<'static>>,
    source: Ghost<Seq<char>>,
    read: Ghost<nat>,
}

impl<'a> XmlCursor<'a> {
    /// The document being read.
    pub closed spec fn source(&self) -> Seq<char> {
        self.source@
    }

    /// How many events have been read.
    pub closed spec fn read(&self) -> nat {
        self.read@
    }

    /// The view of the last event read.
    pub open spec fn last_event(&self) -> XmlEventView {
        xml_events(self.source())[self.read() - 1]
    }
}

/// `quick_xml::Reader::from_str` with `trim_text(true)`. The reader's
/// events on a document are named (`xml_events`); the contract states that
/// they end with an end of document or an error and hold no earlier one.
#[verifier::external_body]
fn open_xml<'a>(content: &'a str) -> (c: XmlCursor<'a>)
    ensures
        c.source() == content@,
        c.read() == 0,
        xml_events(c.source()).len() > 0,
        is_last_event(xml_events(c.source()).last()),
        forall|i: int| 0 <= i < xml_events(c.source()).len() - 1 ==> !is_last_event(#[trigger] xml_events(c.source())[i]),
{
    let mut reader = quick_xml::Reader::from_str(content);
    reader.trim_text(true);
    XmlCursor { reader, buf: Vec::new(), last: None, source: Ghost(content@), read: Ghost(0) }
}

/// `quick_xml::Reader::read_event_into`: reads the next event, keeps it,
/// and returns its kind (an error with its message).
#[verifier::external_body]
fn advance(c: &mut XmlCursor) -> (k: XmlKind)
    requires
        old(c).read() < xml_events(old(c).source()).len(),
    ensures
        final(c).source() == old(c).source(),
        final(c).read() == old(c).read() + 1,
        kind_matches(k, xml_events(old(c).source())[old(c).read() as int]),
{
    c.buf.clear();
    c.read = Ghost(c.read@ + 1);
    let e = match c.reader.read_event_into(&mut c.buf) {
        Err(x) => return XmlKind::Failed(x.to_string()),
        Ok(e) => e.into_owned(),
    };
    let k = match &e {
        Event::Start(_) => XmlKind::Start,
        Event::End(_) => XmlKind::End,
        Event::Text(_) => XmlKind::Text,
        Event::Eof => XmlKind::Eof,
        _ => XmlKind::Other,
    };
    c.last = Some(e);
    k
}

/// `BytesStart::name` or `BytesEnd::name` of the last event, as bytes.
#[verifier::external_body]
fn event_name(c: &XmlCursor) -> (n: Vec<u8>)
    requires
        c.read() > 0,
        c.last_event() is Start || c.last_event() is End,
    ensures
        c.last_event() matches XmlEventView::Start { name, .. } ==> n@ == name,
        c.last_event() matches XmlEventView::End { name } ==> n@ == name,
{
    match &c.last {
        Some(Event::Start(s)) => s.name().as_ref().to_vec(),
        Some(Event::End(e)) => e.name().as_ref().to_vec(),
        _ => Vec::new(),
    }
}

/// `BytesStart::attributes` of the last event, those that parse, as their
/// names and raw values.
#[verifier::external_body]
fn event_attributes(c: &XmlCursor) -> (a: Vec<(Vec<u8>, Vec<u8>)>)
    requires
        c.read() > 0,
        c.last_event() is Start,
    ensures
        c.last_event() matches XmlEventView::Start { attributes, .. } ==> a@.map_values(
            |x: (Vec<u8>, Vec<u8>)| (x.0@, x.1@),
        ) == attributes,
{
    match &c.last {
        Some(Event::Start(s)) => s.attributes().flatten().map(
            |x| (x.key.as_ref().to_vec(), x.value.to_vec()),
        ).collect(),
        _ => Vec::new(),
    }
}

/// `BytesText::unescape` of the last event, or its error's message.
#[verifier::external_body]
fn event_text(c: &XmlCursor) -> (t: Result<String, String>)
    requires
        c.read() > 0,
        c.last_event() is Text,
    ensures
        c.last_event() matches XmlEventView::Text(r) ==> match (t, r) {
            (Ok(x), Ok(y)) => x@ == y,
            (Err(x), Err(y)) => x@ == y,
            _ => false,
        },
{
    match &c.last {
        Some(Event::Text(t)) => t.unescape().map(|u| u.into_owned()).map_err(|x| x.to_string()),
        _ => Ok(String::new()),
    }
}

/// The next event of the document.
fn next_event(c: &mut XmlCursor) -> (e: XmlEvent)
    requires
        old(c).read() < xml_events(old(c).source()).len(),
    ensures
        final(c).source() == old(c).source(),
        final(c).read() == old(c).read() + 1,
        e@ == xml_events(old(c).source())[old(c).read() as int],
{
    match advance(c) {
        XmlKind::Start => {
            let name = event_name(c);
            let attributes = event_attributes(c);
            XmlEvent::Start { name, attributes }
        },
        XmlKind::End => XmlEvent::End { name: event_name(c) },
        XmlKind::Text => XmlEvent::Text(event_text(c)),
        XmlKind::Eof => XmlEvent::Eof,
        XmlKind::Failed(m) => XmlEvent::Failed(m),
        XmlKind::Other => XmlEvent::Other,
    }
}

// ============================================================================
// Track points
// ============================================================================

/// A track point: when it was recorded, where (latitude and longitude as
/// the document writes them) and, if given, its elevation.
#[derive(Debug, Clone)]
pub struct GpxPoint {
    pub time: GpxTime,
    pub lat: String,
    pub lon: String,
    pub ele: Option<String>,
}

/// The mathematical value of a track point.
pub struct PointView {
    pub time: GpxTime,
    pub lat: Seq<char>,
    pub lon: Seq<char>,
    pub ele: Option<Seq<char>>,
}

/// The view of an optional text.
pub open spec fn opt_text(o: Option<String>) -> Option<Seq<char>> {
    match o {
        Some(s) => Some(s@),
        None => None,
    }
}

impl View for GpxPoint {
    type V = PointView;

    open spec fn view(&self) -> PointView {
        PointView { time: self.time, lat: self.lat@, lon: self.lon@, ele: opt_text(self.ele) }
    }
}

/// The views of a list of points.
pub open spec fn point_views(v: Seq<GpxPoint>) -> Seq<PointView> {
    v.map_values(|p: GpxPoint| p@)
}

/// A copy of a point.
fn copy_point(p: &GpxPoint) -> (q: GpxPoint)
    ensures
        q@ == p@,
{
    GpxPoint {
        time: p.time,
        lat: p.lat.clone(),
        lon: p.lon.clone(),
        ele: match &p.ele {
            Some(e) => Some(e.clone()),
            None => None,
        },
    }
}

/// Why a GPX document could not be read.
#[derive(Debug)]
pub struct GpxError {
    pub message: String,
}

// ============================================================================
// Reading a document
// ============================================================================

/// The bytes of an ASCII text.
pub open spec fn ascii_bytes(s: Seq<char>) -> Seq<u8> {
    s.map_values(|c: char| c as u8)
}

/// Whether the bytes spell the ASCII text `word`.
fn bytes_are(b: &Vec<u8>, word: &str) -> (r: bool)
    requires
        forall|k: int| 0 <= k < word@.len() ==> (#[trigger] word@[k] as u32) < 128,
    ensures
        r == (b@ == ascii_bytes(word@)),
{
    let n = word.unicode_len();
    if b.len() != n {
        return false;
    }
    let mut i: usize = 0;
    while i < n
        invariant
            n == word@.len(),
            n == b@.len(),
            i <= n,
            forall|k: int| 0 <= k < word@.len() ==> (#[trigger] word@[k] as u32) < 128,
            forall|k: int| 0 <= k < i ==> b@[k] == ascii_bytes(word@)[k],
        decreases n - i,
    {
        let c = word.get_char(i);
        if b[i] as u32 != c as u32 {
            assert(ascii_bytes(word@)[i as int] == c as u8);
            return false;
        }
        assert(ascii_bytes(word@)[i as int] == c as u8);
        i = i + 1;
    }
    assert(b@ =~= ascii_bytes(word@));
    true
}

/// The element names of track points, route points and waypoints.
pub open spec fn is_point_name(n: Seq<u8>) -> bool {
    n == ascii_bytes("trkpt"@) || n == ascii_bytes("wpt"@) || n == ascii_bytes("rtept"@)
}

/// The text of a coordinate attribute, when it reads as a number.
pub open spec fn coordinate(value: Seq<u8>) -> Option<Seq<char>> {
    let t = lossy_utf8(value);
    if crate::text::float_syntax(t) {
        Some(t)
    } else {
        None
    }
}

/// The value the attributes give `key`: the last attribute of that name
/// decides; `init` stands when there is none.
pub open spec fn attribute_value(attrs: Seq<(Seq<u8>, Seq<u8>)>, key: Seq<u8>, init: Option<Seq<char>>) -> Option<Seq<char>>
    decreases attrs.len(),
{
    if attrs.len() == 0 {
        init
    } else if attrs.last().0 == key {
        coordinate(attrs.last().1)
    } else {
        attribute_value(attrs.drop_last(), key, init)
    }
}

/// The instant a GPX `time` element gives: RFC 3339; then, without a
/// trailing `Z`, `%Y-%m-%dT%H:%M:%S` and the same with fractional seconds;
/// then those two formats on the whole text.
pub open spec fn gpx_time(s: Seq<char>) -> Option<GpxTime> {
    let f1 = "%Y-%m-%dT%H:%M:%S"@;
    let f2 = "%Y-%m-%dT%H:%M:%S%.f"@;
    if rfc3339_instant(s) is Some {
        rfc3339_instant(s)
    } else if s.len() > 0 && s.last() == 'Z' && naive_instant(s.drop_last(), f1) is Some {
        naive_instant(s.drop_last(), f1)
    } else if s.len() > 0 && s.last() == 'Z' && naive_instant(s.drop_last(), f2) is Some {
        naive_instant(s.drop_last(), f2)
    } else if naive_instant(s, f1) is Some {
        naive_instant(s, f1)
    } else {
        naive_instant(s, f2)
    }
}

/// What the reader has gathered so far.
#[verifier::ext_equal]
pub struct ScanState {
    pub points: Seq<PointView>,
    pub lat: Option<Seq<char>>,
    pub lon: Option<Seq<char>>,
    pub ele: Option<Seq<char>>,
    pub time: Option<GpxTime>,
    pub in_trkpt: bool,
    pub in_ele: bool,
    pub in_time: bool,
    pub text: Seq<char>,
}

/// Nothing read yet.
pub open spec fn scan_start() -> ScanState {
    ScanState {
        points: Seq::empty(),
        lat: None,
        lon: None,
        ele: None,
        time: None,
        in_trkpt: false,
        in_ele: false,
        in_time: false,
        text: Seq::empty(),
    }
}

/// An opening tag: a point starts afresh, its coordinates from its
/// attributes; inside a point, `ele` and `time` start collecting text.
pub open spec fn start_step(st: ScanState, name: Seq<u8>, attrs: Seq<(Seq<u8>, Seq<u8>)>) -> ScanState {
    if is_point_name(name) {
        ScanState {
            in_trkpt: true,
            lat: attribute_value(attrs, ascii_bytes("lat"@), None),
            lon: attribute_value(attrs, ascii_bytes("lon"@), None),
            ele: None,
            time: None,
            ..st
        }
    } else if name == ascii_bytes("ele"@) && st.in_trkpt {
        ScanState { in_ele: true, text: Seq::empty(), ..st }
    } else if name == ascii_bytes("time"@) && st.in_trkpt {
        ScanState { in_time: true, text: Seq::empty(), ..st }
    } else {
        st
    }
}

/// A closing tag: `ele` and `time` take the collected text; a point with
/// coordinates and a time is kept.
pub open spec fn end_step(st: ScanState, name: Seq<u8>) -> ScanState {
    if name == ascii_bytes("ele"@) && st.in_trkpt {
        let t = trimmed(st.text);
        ScanState { ele: if crate::text::float_syntax(t) { Some(t) } else { None }, in_ele: false, ..st }
    } else if name == ascii_bytes("time"@) && st.in_trkpt {
        ScanState { time: gpx_time(trimmed(st.text)), in_time: false, ..st }
    } else if is_point_name(name) {
        let points = match (st.lat, st.lon, st.time) {
            (Some(lat), Some(lon), Some(time)) => st.points.push(PointView { time, lat, lon, ele: st.ele }),
            _ => st.points,
        };
        ScanState { points, in_trkpt: false, ..st }
    } else {
        st
    }
}

/// One event; text is collected inside `ele` and `time`, where text that
/// cannot be unescaped is an error.
pub open spec fn step(st: ScanState, e: XmlEventView) -> Result<ScanState, Seq<char>> {
    match e {
        XmlEventView::Start { name, attributes } => Ok(start_step(st, name, attributes)),
        XmlEventView::End { name } => Ok(end_step(st, name)),
        XmlEventView::Text(r) => if st.in_ele || st.in_time {
            match r {
                Ok(t) => Ok(ScanState { text: st.text + t, ..st }),
                Err(m) => Err(m),
            }
        } else {
            Ok(st)
        },
        _ => Ok(st),
    }
}

/// Reading the events in order, up to the end of the document or an error.
pub open spec fn scan_events(st: ScanState, events: Seq<XmlEventView>) -> Result<ScanState, Seq<char>>
    decreases events.len(),
{
    if events.len() == 0 {
        Ok(st)
    } else {
        match events[0] {
            XmlEventView::Eof => Ok(st),
            XmlEventView::Failed(m) => Err("GPX 解析错误: "@ + m),
            e => match step(st, e) {
                Ok(next) => scan_events(next, events.drop_first()),
                Err(m) => Err(m),
            },
        }
    }
}

/// `x` placed after the points that are not later than it.
pub open spec fn insert_by_time(r: Seq<PointView>, x: PointView) -> Seq<PointView>
    decreases r.len(),
{
    if r.len() == 0 {
        seq![x]
    } else if time_lt(x.time, r[0].time) {
        seq![x] + r
    } else {
        seq![r[0]] + insert_by_time(r.drop_first(), x)
    }
}

/// The points sorted by time, points of the same time in their order
/// (a stable sort).
pub open spec fn sort_by_time(s: Seq<PointView>) -> Seq<PointView>
    decreases s.len(),
{
    if s.len() == 0 {
        s
    } else {
        insert_by_time(sort_by_time(s.drop_last()), s.last())
    }
}

/// No point comes before an earlier one.
pub open spec fn sorted_by_time(s: Seq<PointView>) -> bool {
    forall|i: int, j: int| 0 <= i < j < s.len() ==> !time_lt(#[trigger] s[j].time, #[trigger] s[i].time)
}

proof fn lemma_insert_by_time(r: Seq<PointView>, x: PointView)
    requires
        sorted_by_time(r),
    ensures
        sorted_by_time(insert_by_time(r, x)),
        insert_by_time(r, x).to_multiset() == r.to_multiset().insert(x),
        insert_by_time(r, x).len() == r.len() + 1,
        forall|i: int| 0 <= i < insert_by_time(r, x).len() ==> (#[trigger] insert_by_time(r, x)[i] == x
            || r.contains(insert_by_time(r, x)[i])),
    decreases r.len(),
{
    broadcast use vstd::seq_lib::group_to_multiset_ensures;
    let out = insert_by_time(r, x);
    if r.len() == 0 {
        assert(out =~= seq![x]);
        assert(seq![x] =~= Seq::<PointView>::empty().push(x));
        vstd::seq_lib::to_multiset_build(Seq::<PointView>::empty(), x);
    } else if time_lt(x.time, r[0].time) {
        assert(out =~= r.insert(0, x));
        vstd::seq_lib::to_multiset_insert(r, 0, x);
        assert forall|i: int, j: int| 0 <= i < j < out.len() implies !time_lt(#[trigger] out[j].time, #[trigger] out[i].time) by {
            if i > 0 {
                assert(out[i] == r[i - 1] && out[j] == r[j - 1]);
            } else {
                assert(out[j] == r[j - 1]);
                if j - 1 > 0 {
                    assert(!time_lt(r[j - 1].time, r[0].time));
                }
            }
        }
        assert forall|i: int| 0 <= i < out.len() implies (#[trigger] out[i] == x || r.contains(out[i])) by {
            if i > 0 {
                assert(out[i] == r[i - 1]);
            }
        }
    } else {
        let t = r.drop_first();
        assert(sorted_by_time(t)) by {
            assert forall|i: int, j: int| 0 <= i < j < t.len() implies !time_lt(#[trigger] t[j].time, #[trigger] t[i].time) by {
                assert(t[i] == r[i + 1] && t[j] == r[j + 1]);
            }
        }
        lemma_insert_by_time(t, x);
        let rest = insert_by_time(t, x);
        assert(out =~= seq![r[0]] + rest);
        assert forall|i: int| 0 <= i < out.len() implies (#[trigger] out[i] == x || r.contains(out[i])) by {
            if i == 0 {
                assert(r.contains(r[0]));
            } else {
                assert(out[i] == rest[i - 1]);
                if rest[i - 1] != x {
                    assert(t.contains(rest[i - 1]));
                    let k = choose|k: int| 0 <= k < t.len() && t[k] == rest[i - 1];
                    assert(r[k + 1] == t[k]);
                }
            }
        }
        assert forall|i: int, j: int| 0 <= i < j < out.len() implies !time_lt(#[trigger] out[j].time, #[trigger] out[i].time) by {
            if i == 0 {
                assert(out[j] == rest[j - 1]);
                if rest[j - 1] == x {
                } else {
                    assert(t.contains(rest[j - 1]));
                    let k = choose|k: int| 0 <= k < t.len() && t[k] == rest[j - 1];
                    assert(r[k + 1] == t[k]);
                }
            } else {
                assert(out[i] == rest[i - 1] && out[j] == rest[j - 1]);
            }
        }
        assert(seq![r[0]] + rest =~= rest.insert(0, r[0]));
        vstd::seq_lib::to_multiset_insert(rest, 0, r[0]);
        assert(r =~= t.insert(0, r[0]));
        vstd::seq_lib::to_multiset_insert(t, 0, r[0]);
        assert(out.to_multiset() =~= r.to_multiset().insert(x));
    }
}

/// The track comes out in time order and holds the same points: sorting
/// by time neither loses nor adds a point, and no point comes before an
/// earlier one.
pub proof fn law_track_in_time_order(s: Seq<PointView>)
    ensures
        sorted_by_time(sort_by_time(s)),
        sort_by_time(s).to_multiset() == s.to_multiset(),
    decreases s.len(),
{
    broadcast use vstd::seq_lib::group_to_multiset_ensures;
    if s.len() > 0 {
        law_track_in_time_order(s.drop_last());
        lemma_insert_by_time(sort_by_time(s.drop_last()), s.last());
        assert(s =~= s.drop_last().push(s.last()));
        vstd::seq_lib::to_multiset_build(s.drop_last(), s.last());
    }
}

/// The track points of a document's events, sorted by time, or the error
/// that stopped the reading.
pub open spec fn gpx_points(events: Seq<XmlEventView>) -> Result<Seq<PointView>, Seq<char>> {
    match scan_events(scan_start(), events) {
        Ok(st) => Ok(sort_by_time(st.points)),
        Err(m) => Err(m),
    }
}

proof fn lemma_insert_at(r: Seq<PointView>, x: PointView, p: int)
    requires
        0 <= p <= r.len(),
        forall|k: int| 0 <= k < p ==> !time_lt(x.time, #[trigger] r[k].time),
        p < r.len() ==> time_lt(x.time, r[p].time),
    ensures
        insert_by_time(r, x) == r.insert(p, x),
    decreases r.len(),
{
    if r.len() == 0 {
        assert(r.insert(p, x) =~= seq![x]);
    } else if p == 0 {
        assert(r.insert(p, x) =~= seq![x] + r);
    } else {
        let t = r.drop_first();
        assert forall|k: int| 0 <= k < p - 1 implies !time_lt(x.time, #[trigger] t[k].time) by {
            assert(t[k] == r[k + 1]);
        }
        lemma_insert_at(t, x, p - 1);
        assert(r.insert(p, x) =~= seq![r[0]] + t.insert(p - 1, x));
    }
}

/// The points sorted by time; points of the same time keep their order.
fn sort_points(v: Vec<GpxPoint>) -> (r: Vec<GpxPoint>)
    ensures
        point_views(r@) == sort_by_time(point_views(v@)),
{
    let ghost pv = point_views(v@);
    let mut r: Vec<GpxPoint> = Vec::new();
    let mut i: usize = 0;
    while i < v.len()
        invariant
            i <= v@.len(),
            pv == point_views(v@),
            point_views(r@) == sort_by_time(pv.take(i as int)),
        decreases v@.len() - i,
    {
        let x = &v[i];
        let ghost before = point_views(r@);
        let mut p: usize = 0;
        while p < r.len() && !time_before(x.time, r[p].time)
            invariant
                p <= r@.len(),
                before == point_views(r@),
                forall|k: int| 0 <= k < p ==> !time_lt(x.time, #[trigger] before[k].time),
            decreases r@.len() - p,
        {
            assert(before[p as int] == r@[p as int]@);
            p = p + 1;
        }
        proof {
            if p < r@.len() {
                assert(before[p as int] == r@[p as int]@);
            }
            lemma_insert_at(before, x@, p as int);
            assert(pv.take(i + 1).drop_last() =~= pv.take(i as int));
            assert(pv.take(i + 1).last() == x@);
        }
        r.insert(p, copy_point(x));
        assert(point_views(r@) =~= before.insert(p as int, x@));
        i = i + 1;
    }
    assert(pv.take(v@.len() as int) =~= pv);
    r
}

/// The exec state of the reader.
struct Scan {
    points: Vec<GpxPoint>,
    lat: Option<String>,
    lon: Option<String>,
    ele: Option<String>,
    time: Option<GpxTime>,
    in_trkpt: bool,
    in_ele: bool,
    in_time: bool,
    text: String,
}

impl Scan {
    spec fn view_state(&self) -> ScanState {
        ScanState {
            points: point_views(self.points@),
            lat: opt_text(self.lat),
            lon: opt_text(self.lon),
            ele: opt_text(self.ele),
            time: self.time,
            in_trkpt: self.in_trkpt,
            in_ele: self.in_ele,
            in_time: self.in_time,
            text: self.text@,
        }
    }
}

/// The coordinate text of an attribute value, when it reads as a number.
fn read_coordinate(value: &Vec<u8>) -> (r: Option<String>)
    ensures
        opt_text(r) == coordinate(value@),
{
    let t = lossy_text(value.as_slice());
    if crate::text::is_float_text(t.as_str()) {
        Some(t)
    } else {
        None
    }
}

/// The value the attributes give `key`.
fn read_attribute(attrs: &Vec<(Vec<u8>, Vec<u8>)>, key: &str) -> (r: Option<String>)
    requires
        forall|k: int| 0 <= k < key@.len() ==> (#[trigger] key@[k] as u32) < 128,
    ensures
        opt_text(r) == attribute_value(attrs@.map_values(|a: (Vec<u8>, Vec<u8>)| (a.0@, a.1@)), ascii_bytes(key@), None),
{
    let ghost av = attrs@.map_values(|a: (Vec<u8>, Vec<u8>)| (a.0@, a.1@));
    let mut r: Option<String> = None;
    let mut i: usize = 0;
    while i < attrs.len()
        invariant
            i <= attrs@.len(),
            av == attrs@.map_values(|a: (Vec<u8>, Vec<u8>)| (a.0@, a.1@)),
            forall|k: int| 0 <= k < key@.len() ==> (#[trigger] key@[k] as u32) < 128,
            opt_text(r) == attribute_value(av.take(i as int), ascii_bytes(key@), None),
        decreases attrs@.len() - i,
    {
        let a = &attrs[i];
        assert(av.take(i + 1).drop_last() =~= av.take(i as int));
        assert(av.take(i + 1).last() == (a.0@, a.1@));
        if bytes_are(&a.0, key) {
            r = read_coordinate(&a.1);
        }
        i = i + 1;
    }
    assert(av.take(attrs@.len() as int) =~= av);
    r
}

/// The instant a GPX `time` element gives.
fn parse_time(s: &str) -> (r: Option<GpxTime>)
    ensures
        r == gpx_time(s@),
{
    let f1 = "%Y-%m-%dT%H:%M:%S";
    let f2 = "%Y-%m-%dT%H:%M:%S%.f";
    if let Some(t) = parse_rfc3339(s) {
        return Some(t);
    }
    let n = s.unicode_len();
    if n > 0 && s.get_char(n - 1) == 'Z' {
        let stripped = s.substring_char(0, n - 1);
        assert(stripped@ =~= s@.drop_last());
        if let Some(t) = parse_naive(stripped, f1) {
            return Some(t);
        }
        if let Some(t) = parse_naive(stripped, f2) {
            return Some(t);
        }
    }
    if let Some(t) = parse_naive(s, f1) {
        return Some(t);
    }
    parse_naive(s, f2)
}

impl Scan {
    /// Applies one event that is neither the end nor an error.
    fn apply(&mut self, e: XmlEvent) -> (r: Result<(), String>)
        requires
            !(e@ is Eof),
            !(e@ is Failed),
        ensures
            match step(old(self).view_state(), e@) {
                Ok(next) => r is Ok && final(self).view_state() == next,
                Err(m) => r matches Err(msg) && msg@ == m,
            },
    {
        proof {
            reveal_strlit("trkpt");
            reveal_strlit("wpt");
            reveal_strlit("rtept");
            reveal_strlit("ele");
            reveal_strlit("time");
            reveal_strlit("lat");
            reveal_strlit("lon");
        }
        match e {
            XmlEvent::Start { name, attributes } => {
                if bytes_are(&name, "trkpt") || bytes_are(&name, "wpt") || bytes_are(&name, "rtept") {
                    self.in_trkpt = true;
                    self.lat = read_attribute(&attributes, "lat");
                    self.lon = read_attribute(&attributes, "lon");
                    self.ele = None;
                    self.time = None;
                } else if bytes_are(&name, "ele") && self.in_trkpt {
                    self.in_ele = true;
                    self.text = String::new();
                } else if bytes_are(&name, "time") && self.in_trkpt {
                    self.in_time = true;
                    self.text = String::new();
                }
                Ok(())
            },
            XmlEvent::End { name } => {
                if bytes_are(&name, "ele") && self.in_trkpt {
                    let t = string_from_chars(&trim_text(self.text.as_str()));
                    self.ele = if crate::text::is_float_text(t.as_str()) { Some(t) } else { None };
                    self.in_ele = false;
                } else if bytes_are(&name, "time") && self.in_trkpt {
                    let t = string_from_chars(&trim_text(self.text.as_str()));
                    self.time = parse_time(t.as_str());
                    self.in_time = false;
                } else if bytes_are(&name, "trkpt") || bytes_are(&name, "wpt") || bytes_are(&name, "rtept") {
                    match (&self.lat, &self.lon, self.time) {
                        (Some(lat), Some(lon), Some(time)) => {
                            let p = GpxPoint {
                                time,
                                lat: lat.clone(),
                                lon: lon.clone(),
                                ele: match &self.ele {
                                    Some(x) => Some(x.clone()),
                                    None => None,
                                },
                            };
                            let ghost before = point_views(self.points@);
                            self.points.push(p);
                            assert(point_views(self.points@) =~= before.push(p@));
                        },
                        _ => {},
                    }
                    self.in_trkpt = false;
                }
                Ok(())
            },
            XmlEvent::Text(r) => {
                if self.in_ele || self.in_time {
                    match r {
                        Ok(t) => {
                            self.text.append(t.as_str());
                            Ok(())
                        },
                        Err(m) => Err(m),
                    }
                } else {
                    Ok(())
                }
            },
            _ => Ok(()),
        }
    }
}

/// Reads GPX documents.
pub struct GpxParser;

impl GpxParser {
    /// The track points of a document given as its XML events: the points
    /// (`trkpt`, `wpt`, `rtept`) with a latitude, a longitude and a time,
    /// sorted by time (points of the same time in document order). Reading
    /// stops at the end of the document; a syntax error, or text that
    /// cannot be unescaped inside `ele` or `time`, is an error.
    pub fn parse_events(events: &Vec<XmlEvent>) -> (r: Result<Vec<GpxPoint>, GpxError>)
        ensures
            match gpx_points(events@.map_values(|e: XmlEvent| e@)) {
                Ok(points) => r matches Ok(v) && point_views(v@) == points,
                Err(m) => r matches Err(e) && e.message@ == m,
            },
    {
        let ghost ev = events@.map_values(|e: XmlEvent| e@);
        let mut scan = Scan {
            points: Vec::new(),
            lat: None,
            lon: None,
            ele: None,
            time: None,
            in_trkpt: false,
            in_ele: false,
            in_time: false,
            text: String::new(),
        };
        assert(scan.view_state() =~= scan_start());
        assert(ev.skip(0) =~= ev);
        let mut i: usize = 0;
        while i < events.len()
            invariant
                i <= events@.len(),
                ev == events@.map_values(|e: XmlEvent| e@),
                scan_events(scan_start(), ev) == scan_events(scan.view_state(), ev.skip(i as int)),
            ensures
                scan_events(scan_start(), ev) == Ok::<ScanState, Seq<char>>(scan.view_state()),
            decreases events@.len() - i,
        {
            let e = &events[i];
            assert(ev.skip(i as int)[0] == e@);
            assert(ev.skip(i + 1) =~= ev.skip(i as int).drop_first());
            match e {
                XmlEvent::Eof => {
                    break;
                },
                XmlEvent::Failed(m) => {
                    let mut msg = String::from_str("GPX 解析错误: ");
                    msg.append(m.as_str());
                    return Err(GpxError { message: msg });
                },
                _ => {},
            }
            let owned_event = copy_event(e);
            match scan.apply(owned_event) {
                Ok(()) => {},
                Err(m) => {
                    return Err(GpxError { message: m });
                },
            }
            i = i + 1;
        }
        proof {
            if i == events@.len() {
                assert(ev.skip(i as int).len() == 0);
            }
        }
        let points = sort_points(scan.points);
        Ok(points)
    }

    /// The track points of a GPX document (see `parse_events`), read with
    /// quick-xml.
    pub fn parse_str(content: &str) -> (r: Result<Vec<GpxPoint>, GpxError>)
        ensures
            match gpx_points(xml_events(content@)) {
                Ok(points) => r matches Ok(v) && point_views(v@) == points,
                Err(m) => r matches Err(e) && e.message@ == m,
            },
    {
        let mut cursor = open_xml(content);
        let ghost all = xml_events(content@);
        let mut events: Vec<XmlEvent> = Vec::new();
        loop
            invariant_except_break
                cursor.read() < all.len(),
            invariant
                cursor.source() == content@,
                all == xml_events(content@),
                all.len() > 0,
                is_last_event(all.last()),
                forall|i: int| 0 <= i < all.len() - 1 ==> !is_last_event(#[trigger] all[i]),
                cursor.read() <= all.len(),
                events@.map_values(|e: XmlEvent| e@) == all.take(cursor.read() as int),
            ensures
                events@.map_values(|e: XmlEvent| e@) == all,
            decreases all.len() - cursor.read(),
        {
            let ghost k = cursor.read();
            let e = next_event(&mut cursor);
            let last = match &e {
                XmlEvent::Eof => true,
                XmlEvent::Failed(_) => true,
                _ => false,
            };
            let ghost before = events@.map_values(|e: XmlEvent| e@);
            let ghost ev = e@;
            events.push(e);
            assert(events@.map_values(|e: XmlEvent| e@) =~= before.push(ev));
            assert(all.take(k as int + 1) =~= all.take(k as int).push(all[k as int]));
            if last {
                assert(k == all.len() - 1);
                assert(all.take(k as int + 1) =~= all);
                break;
            }
        }
        Self::parse_events(&events)
    }
}

/// A copy of an event.
fn copy_event(e: &XmlEvent) -> (c: XmlEvent)
    ensures
        c@ == e@,
{
    match e {
        XmlEvent::Start { name, attributes } => {
            let mut attrs: Vec<(Vec<u8>, Vec<u8>)> = Vec::new();
            let mut i: usize = 0;
            while i < attributes.len()
                invariant
                    i <= attributes@.len(),
                    attrs@.len() == i,
                    forall|k: int| 0 <= k < i ==> (#[trigger] attrs@[k]).0@ == attributes@[k].0@ && attrs@[k].1@
                        == attributes@[k].1@,
                decreases attributes@.len() - i,
            {
                let a = &attributes[i];
                attrs.push((a.0.clone(), a.1.clone()));
                i = i + 1;
            }
            let c = XmlEvent::Start { name: name.clone(), attributes: attrs };
            assert(attrs@.map_values(|a: (Vec<u8>, Vec<u8>)| (a.0@, a.1@)) =~= attributes@.map_values(
                |a: (Vec<u8>, Vec<u8>)| (a.0@, a.1@),
            ));
            c
        },
        XmlEvent::End { name } => XmlEvent::End { name: name.clone() },
        XmlEvent::Text(r) => XmlEvent::Text(
            match r {
                Ok(t) => Ok(t.clone()),
                Err(m) => Err(m.clone()),
            },
        ),
        XmlEvent::Eof => XmlEvent::Eof,
        XmlEvent::Failed(m) => XmlEvent::Failed(m.clone()),
        XmlEvent::Other => XmlEvent::Other,
    }
}

// ============================================================================
// Matching a photo to the track
// ============================================================================

/// `s` without its trailing NUL characters (`trim_end_matches('\0')`).
pub open spec fn without_trailing_nuls(s: Seq<char>) -> Seq<char>
    decreases s.len(),
{
    if s.len() > 0 && s.last() == '\0' {
        without_trailing_nuls(s.drop_last())
    } else {
        s
    }
}

/// The instant an EXIF date gives: `%Y:%m:%d %H:%M:%S`, the same with
/// fractional seconds, RFC 3339, then `%Y-%m-%d %H:%M:%S`; the text trimmed
/// and stripped of trailing NULs first.
pub open spec fn exif_time(s: Seq<char>) -> Option<GpxTime> {
    let t = without_trailing_nuls(trimmed(s));
    if naive_instant(t, "%Y:%m:%d %H:%M:%S"@) is Some {
        naive_instant(t, "%Y:%m:%d %H:%M:%S"@)
    } else if naive_instant(t, "%Y:%m:%d %H:%M:%S%.f"@) is Some {
        naive_instant(t, "%Y:%m:%d %H:%M:%S%.f"@)
    } else if rfc3339_instant(t) is Some {
        rfc3339_instant(t)
    } else {
        naive_instant(t, "%Y-%m-%d %H:%M:%S"@)
    }
}

/// The index of the first point not earlier than `t` (the number of
/// earlier points, when the points are sorted by time).
pub open spec fn first_not_before(points: Seq<PointView>, t: GpxTime) -> int
    decreases points.len(),
{
    if points.len() == 0 {
        0
    } else if !time_lt(points[0].time, t) {
        0
    } else {
        1 + first_not_before(points.drop_first(), t)
    }
}

/// The absolute value.
pub open spec fn abs(x: int) -> int {
    if x < 0 {
        -x
    } else {
        x
    }
}

/// The point nearest in time to `t` among the two around the place `t`
/// would take: the earlier one on a tie. Points whose distance chrono cannot
/// measure match nothing.
pub open spec fn nearest_index(points: Seq<PointView>, t: GpxTime) -> Option<int> {
    let idx = first_not_before(points, t);
    if points.len() == 0 {
        None
    } else if idx == 0 {
        Some(0)
    } else if idx >= points.len() {
        Some(points.len() - 1)
    } else {
        match (seconds_between(points[idx - 1].time, t), seconds_between(points[idx].time, t)) {
            (Some(a), Some(b)) => if abs(a as int) <= abs(b as int) {
                Some(idx - 1)
            } else {
                Some(idx)
            },
            _ => None,
        }
    }
}

/// The point matched to `t`: the nearest one, if it lies within five
/// minutes (300 whole seconds).
pub open spec fn matched_index(points: Seq<PointView>, t: GpxTime) -> Option<int> {
    match nearest_index(points, t) {
        Some(i) => match seconds_between(points[i].time, t) {
            Some(d) => if abs(d as int) > 300 {
                None
            } else {
                Some(i)
            },
            None => None,
        },
        None => None,
    }
}

proof fn lemma_first_not_before_bounded(points: Seq<PointView>, t: GpxTime)
    ensures
        0 <= first_not_before(points, t) <= points.len(),
    decreases points.len(),
{
    if points.len() > 0 && time_lt(points[0].time, t) {
        lemma_first_not_before_bounded(points.drop_first(), t);
    }
}

/// A photo is matched only to a track point within five minutes of the
/// time it was taken.
pub proof fn law_match_within_five_minutes(points: Seq<PointView>, t: GpxTime)
    ensures
        matched_index(points, t) matches Some(i) ==> {
            &&& 0 <= i < points.len()
            &&& seconds_between(points[i].time, t) matches Some(d) && -300 <= d <= 300
        },
{
    lemma_first_not_before_bounded(points, t);
}

/// Outside leap seconds, an instant is earlier than another exactly when
/// it has fewer nanoseconds since the epoch.
proof fn lemma_time_order(a: GpxTime, b: GpxTime)
    requires
        a.nanos < 1_000_000_000,
        b.nanos < 1_000_000_000,
    ensures
        time_lt(a, b) <==> total_nanos(a) < total_nanos(b),
{
    if a.secs < b.secs {
        assert(a.secs * 1_000_000_000 + 1_000_000_000 <= b.secs * 1_000_000_000) by (nonlinear_arith)
            requires a.secs < b.secs;
    } else if a.secs > b.secs {
        assert(b.secs * 1_000_000_000 + 1_000_000_000 <= a.secs * 1_000_000_000) by (nonlinear_arith)
            requires b.secs < a.secs;
    }
}

/// The size of the truncated seconds between `p` and `t` grows with the
/// distance in nanoseconds.
proof fn lemma_truncated_grows(p: GpxTime, q: GpxTime, t: GpxTime)
    requires
        (total_nanos(p) - total_nanos(t) >= 0 && total_nanos(q) - total_nanos(t) >= total_nanos(p) - total_nanos(t))
            || (total_nanos(p) - total_nanos(t) < 0 && total_nanos(q) - total_nanos(t) <= total_nanos(p) - total_nanos(t)),
    ensures
        abs(truncated_seconds(p, t)) <= abs(truncated_seconds(q, t)),
{
    let x = total_nanos(p) - total_nanos(t);
    let y = total_nanos(q) - total_nanos(t);
    if x >= 0 {
        vstd::arithmetic::div_mod::lemma_div_is_ordered(x, y, 1_000_000_000);
        vstd::arithmetic::div_mod::lemma_div_pos_is_pos(x, 1_000_000_000);
    } else {
        vstd::arithmetic::div_mod::lemma_div_is_ordered(-x, -y, 1_000_000_000);
        vstd::arithmetic::div_mod::lemma_div_pos_is_pos(-x, 1_000_000_000);
        vstd::arithmetic::div_mod::lemma_div_pos_is_pos(-y, 1_000_000_000);
    }
}

proof fn lemma_first_not_before_split(points: Seq<PointView>, t: GpxTime, j: int)
    requires
        sorted_by_time(points),
        0 <= j < points.len(),
    ensures
        j < first_not_before(points, t) ==> time_lt(points[j].time, t),
        j >= first_not_before(points, t) ==> !time_lt(points[j].time, t),
    decreases points.len(),
{
    if points.len() > 0 {
        lemma_first_not_before_bounded(points.drop_first(), t);
        if !time_lt(points[0].time, t) {
            assert(first_not_before(points, t) == 0);
            if j > 0 {
                assert(!time_lt(points[j].time, points[0].time));
            }
            assert(!time_lt(points[j].time, t));
        } else if j > 0 {
            assert(first_not_before(points, t) == 1 + first_not_before(points.drop_first(), t));
            let rest = points.drop_first();
            assert(sorted_by_time(rest)) by {
                assert forall|a: int, b: int| 0 <= a < b < rest.len() implies !time_lt(#[trigger] rest[b].time, #[trigger] rest[a].time) by {
                    assert(rest[a] == points[a + 1] && rest[b] == points[b + 1]);
                }
            }
            lemma_first_not_before_split(rest, t, j - 1);
            assert(rest[j - 1] == points[j]);
        }
    }
}

/// On a track in time order whose times, like the photo's, lie outside
/// leap seconds and within chrono's range (so that chrono measures each
/// distance as the truncated whole seconds, as `whole_seconds_between`
/// states), the point matched to a photo is
/// one nearest in whole seconds to the time it was taken (the earlier of
/// two equally near), and there is none exactly when no point lies within
/// five minutes.
pub proof fn law_match_is_nearest(points: Seq<PointView>, t: GpxTime)
    requires
        sorted_by_time(points),
        t.nanos < 1_000_000_000,
        forall|i: int| 0 <= i < points.len() ==> (#[trigger] points[i]).time.nanos < 1_000_000_000,
        forall|i: int| 0 <= i < points.len() ==> ((#[trigger] seconds_between(points[i].time, t)) matches Some(d)
            && d == truncated_seconds(points[i].time, t)),
    ensures
        matched_index(points, t) matches Some(i) ==> forall|j: int| 0 <= j < points.len()
            ==> abs(truncated_seconds(points[i].time, t)) <= abs(#[trigger] truncated_seconds(points[j].time, t)),
        matched_index(points, t) is None <==> forall|j: int| 0 <= j < points.len()
            ==> abs(#[trigger] truncated_seconds(points[j].time, t)) > 300,
{
    lemma_first_not_before_bounded(points, t);
    let n = points.len() as int;
    let idx = first_not_before(points, t);
    if n == 0 {
        return;
    }
    // The nearest index is the nearest of all points.
    if 0 < idx < n {
        assert(seconds_between(points[idx - 1].time, t) is Some);
        assert(seconds_between(points[idx].time, t) is Some);
    }
    assert(nearest_index(points, t) is Some);
    let c = nearest_index(points, t).unwrap();
    assert(0 <= c < n);
    assert(seconds_between(points[c].time, t) is Some);
    if idx >= 1 {
        assert(abs(truncated_seconds(points[c].time, t)) <= abs(truncated_seconds(points[idx - 1].time, t))) by {
            if idx < n {
                assert(seconds_between(points[idx - 1].time, t) is Some);
                assert(seconds_between(points[idx].time, t) is Some);
            }
        }
    }
    if idx < n {
        assert(abs(truncated_seconds(points[c].time, t)) <= abs(truncated_seconds(points[idx].time, t))) by {
            if idx >= 1 {
                assert(seconds_between(points[idx - 1].time, t) is Some);
                assert(seconds_between(points[idx].time, t) is Some);
            }
        }
    }
    assert forall|j: int| 0 <= j < n implies abs(truncated_seconds(points[c].time, t)) <= abs(
        #[trigger] truncated_seconds(points[j].time, t)) by {
        lemma_first_not_before_split(points, t, j);
        lemma_time_order(points[j].time, t);
        if j < idx {
            let k = idx - 1;
            lemma_first_not_before_split(points, t, k);
            lemma_time_order(points[k].time, t);
            if j < k {
                assert(!time_lt(points[k].time, points[j].time));
                lemma_time_order(points[k].time, points[j].time);
            }
            lemma_truncated_grows(points[k].time, points[j].time, t);
        } else {
            lemma_first_not_before_split(points, t, idx);
            lemma_time_order(points[idx].time, t);
            if j > idx {
                assert(!time_lt(points[j].time, points[idx].time));
                lemma_time_order(points[j].time, points[idx].time);
            }
            lemma_truncated_grows(points[idx].time, points[j].time, t);
        }
    }
    if matched_index(points, t) is None {
        assert(abs(truncated_seconds(points[c].time, t)) > 300);
    } else {
        assert(abs(truncated_seconds(points[c].time, t)) <= 300);
    }
}

/// The index of the first point not earlier than `t`.
fn find_first_not_before(points: &Vec<GpxPoint>, t: GpxTime) -> (i: usize)
    ensures
        i == first_not_before(point_views(points@), t),
{
    let ghost pv = point_views(points@);
    let mut i: usize = 0;
    assert(pv.skip(0) =~= pv);
    while i < points.len() && time_before(points[i].time, t)
        invariant
            i <= points@.len(),
            pv == point_views(points@),
            first_not_before(pv, t) == i + first_not_before(pv.skip(i as int), t),
        decreases points@.len() - i,
    {
        assert(pv.skip(i as int)[0] == points@[i as int]@);
        assert(pv.skip(i + 1) =~= pv.skip(i as int).drop_first());
        i = i + 1;
    }
    proof {
        if i < points@.len() {
            assert(pv.skip(i as int)[0] == points@[i as int]@);
        }
    }
    i
}

/// `|x|` without overflow.
fn abs_of(x: i64) -> (r: u64)
    ensures
        r == abs(x as int),
{
    if x < 0 {
        if x == i64::MIN {
            9223372036854775808u64
        } else {
            (-x) as u64
        }
    } else {
        x as u64
    }
}

/// An EXIF date has nothing to trim: it starts and ends with a digit.
proof fn lemma_exif_date_untrimmed(s: Seq<char>)
    requires
        exif_date_shape(s),
    ensures
        trimmed(s) == s,
        without_trailing_nuls(s) == s,
{
    assert('0' <= s[0] <= '9');
    assert('0' <= s[18] <= '9');
    assert(!is_space(s[0]));
    assert(!is_space(s.last()));
    assert(crate::text::trim_start_at(s) == 0);
    assert(crate::text::trim_end_at(s) == 19);
    assert(s.subrange(0, 19) =~= s);
}

/// The instant an EXIF date gives.
fn parse_exif_time(s: &str) -> (r: Option<GpxTime>)
    ensures
        r == exif_time(s@),
        valid_exif_date(s@) ==> r == Some(calendar_instant(s@)),
{
    proof {
        if valid_exif_date(s@) {
            lemma_exif_date_untrimmed(s@);
        }
    }
    let mut t = trim_text(s);
    while t.len() > 0 && t[t.len() - 1] == '\0'
        invariant
            without_trailing_nuls(trimmed(s@)) == without_trailing_nuls(t@),
        decreases t@.len(),
    {
        let ghost before = t@;
        t.pop();
        assert(t@ =~= before.drop_last());
    }
    let t = string_from_chars(&t);
    let t = t.as_str();
    if let Some(x) = parse_naive(t, "%Y:%m:%d %H:%M:%S") {
        return Some(x);
    }
    if let Some(x) = parse_naive(t, "%Y:%m:%d %H:%M:%S%.f") {
        return Some(x);
    }
    if let Some(x) = parse_rfc3339(t) {
        return Some(x);
    }
    parse_naive(t, "%Y-%m-%d %H:%M:%S")
}

impl GpxParser {
    /// The point matched to an instant: of the two points around the place
    /// the instant would take, the nearer (the earlier on a tie), if within
    /// five minutes.
    pub fn nearest_point(points: &Vec<GpxPoint>, t: GpxTime) -> (r: Option<GpxPoint>)
        ensures
            match matched_index(point_views(points@), t) {
                Some(i) => r matches Some(p) && p@ == point_views(points@)[i],
                None => r is None,
            },
    {
        let ghost pv = point_views(points@);
        if points.len() == 0 {
            return None;
        }
        let idx = find_first_not_before(points, t);
        let n = points.len();
        let chosen: usize = if idx == 0 {
            0
        } else if idx >= n {
            n - 1
        } else {
            match (whole_seconds_between(points[idx - 1].time, t), whole_seconds_between(points[idx].time, t)) {
                (Some(a), Some(b)) => if abs_of(a) <= abs_of(b) {
                    idx - 1
                } else {
                    idx
                },
                _ => {
                    return None;
                },
            }
        };
        assert(nearest_index(pv, t) == Some(chosen as int));
        let d = match whole_seconds_between(points[chosen].time, t) {
            Some(d) => d,
            None => {
                return None;
            },
        };
        if abs_of(d) > 300 {
            return None;
        }
        assert(pv[chosen as int] == points@[chosen as int]@);
        Some(copy_point(&points[chosen]))
    }

    /// The point matched to the time a photo was taken, given as EXIF
    /// writes it (`2024:01:01 12:00:00`) or in ISO form; `None` when the time
    /// cannot be read or no point is near enough.
    pub fn match_point(points: &Vec<GpxPoint>, photo_time: &str) -> (r: Option<GpxPoint>)
        ensures
            match exif_time(photo_time@) {
                Some(t) => match matched_index(point_views(points@), t) {
                    Some(i) => r matches Some(p) && p@ == point_views(points@)[i],
                    None => r is None,
                },
                None => r is None,
            },
            valid_exif_date(photo_time@) ==> match matched_index(point_views(points@), calendar_instant(photo_time@)) {
                Some(i) => r matches Some(p) && p@ == point_views(points@)[i],
                None => r is None,
            },
    {
        let t = parse_exif_time(photo_time)?;
        Self::nearest_point(points, t)
    }
}

/// A track to match photos against.
#[derive(Debug)]
pub struct GpxMatcher {
    points: Vec<GpxPoint>,
}

impl View for GpxMatcher {
    type V = Seq<PointView>;

    closed spec fn view(&self) -> Seq<PointView> {
        point_views(self.points@)
    }
}

impl GpxMatcher {
    /// A matcher over the given points, in their order.
    pub fn new(points: Vec<GpxPoint>) -> (m: GpxMatcher)
        ensures
            m@ == point_views(points@),
    {
        GpxMatcher { points }
    }

    /// The number of track points.
    pub fn point_count(&self) -> (n: usize)
        ensures
            n == self@.len(),
    {
        self.points.len()
    }

    /// The times of the first and the last point.
    pub fn time_range(&self) -> (r: Option<(GpxTime, GpxTime)>)
        ensures
            self@.len() == 0 ==> r is None,
            self@.len() > 0 ==> r == Some((self@[0].time, self@.last().time)),
    {
        if self.points.len() == 0 {
            return None;
        }
        assert(self@[0] == self.points@[0]@);
        assert(self@.last() == self.points@[self.points@.len() - 1]@);
        Some((self.points[0].time, self.points[self.points.len() - 1].time))
    }

    /// The point matched to the time a photo was taken (see
    /// `GpxParser::match_point`).
    pub fn match_point(&self, photo_time: &str) -> (r: Option<GpxPoint>)
        ensures
            match exif_time(photo_time@) {
                Some(t) => match matched_index(self@, t) {
                    Some(i) => r matches Some(p) && p@ == self@[i],
                    None => r is None,
                },
                None => r is None,
            },
            valid_exif_date(photo_time@) ==> match matched_index(self@, calendar_instant(photo_time@)) {
                Some(i) => r matches Some(p) && p@ == self@[i],
                None => r is None,
            },
    {
        GpxParser::match_point(&self.points, photo_time)
    }
}

} // verus!
