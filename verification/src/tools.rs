//! The tool windows: writing GPS positions from a GPX track, and checking
//! and repairing JPEG files.
use vstd::prelude::*;
use vstd::string::*;
use crate::model::{DisplayText, DisplayView, ExifMap, ExifTag, ExifValue, TagView, ValueView, EntryView,
    StatusLevel, display_of, insert_entry, has_key};
use crate::session::{AppState, UndoView, pushed_undo, previous_value, empty_value};
use crate::gpx::{GpxError, GpxMatcher, GpxParser, GpxPoint, GpxTime, PointView, exif_time, matched_index,
    gpx_points, xml_events, point_views};
use crate::exif::repair::{ExifHealth, RepairResult};
use crate::text::{decimal, signed_decimal, push_decimal, push_signed_decimal, push_str, string_from_chars};

verus! {

// ============================================================================
// GPS positions
// ============================================================================

/// An elevation as written to EXIF: below sea level or not, and its
/// magnitude in centimetres.
#[derive(Debug, Clone, Copy, PartialEq, Eq, Structural)]
pub struct Elevation {
    pub below_sea_level: bool,
    pub centimeters: u32,
}

/// A position to write: latitude and longitude as degrees, minutes and
/// seconds with their hemisphere letters, and the elevation if known.
#[derive(Debug, Clone, Copy)]
pub struct GpsFix {
    pub lat_dms: (u32, u32, u32),
    pub lat_ref: char,
    pub lon_dms: (u32, u32, u32),
    pub lon_ref: char,
    pub ele: Option<Elevation>,
}

/// The GPS tag with its number and display name.
pub open spec fn gps_tag(id: u16, name: Seq<char>) -> TagView {
    TagView { id: id, ifd: "GPS"@, name: name }
}

/// The display names of the GPS tags written, by number.
pub open spec fn gps_name(id: u16) -> Seq<char> {
    if id == 1 {
        "纬度方向"@
    } else if id == 2 {
        "纬度"@
    } else if id == 3 {
        "经度方向"@
    } else if id == 4 {
        "经度"@
    } else if id == 5 {
        "高度参考"@
    } else if id == 6 {
        "高度"@
    } else {
        "GPS时间"@
    }
}

/// A one-character text.
pub open spec fn char_text(c: char) -> Seq<char> {
    seq![c]
}

/// The whole seconds of arc of a position given in degrees, minutes and
/// seconds.
pub open spec fn arc_seconds(dms: (u32, u32, u32)) -> int {
    dms.0 * 3600 + dms.1 * 60 + dms.2
}

/// The fields a position sets, in order: latitude reference and value,
/// longitude reference and value (degrees + minutes / 60 + seconds / 3600,
/// as seconds of arc over 3600), then the elevation reference and value (in
/// hundredths of a metre) when known.
pub open spec fn fix_fields(f: GpsFix) -> Seq<EntryView> {
    seq![
        (gps_tag(1, gps_name(1)), ValueView::Ascii(char_text(f.lat_ref))),
        (gps_tag(2, gps_name(2)), ValueView::Rational(arc_seconds(f.lat_dms) as u32, 3600)),
        (gps_tag(3, gps_name(3)), ValueView::Ascii(char_text(f.lon_ref))),
        (gps_tag(4, gps_name(4)), ValueView::Rational(arc_seconds(f.lon_dms) as u32, 3600)),
    ] + match f.ele {
        Some(e) => seq![
            (gps_tag(5, gps_name(5)), ValueView::Byte(if e.below_sea_level { seq![1u8] } else { seq![0u8] })),
            (gps_tag(6, gps_name(6)), ValueView::Rational(e.centimeters, 100)),
        ],
        None => Seq::empty(),
    }
}

/// The table after setting each field in order.
pub open spec fn insert_all(s: Seq<EntryView>, fields: Seq<EntryView>) -> Seq<EntryView>
    decreases fields.len(),
{
    if fields.len() == 0 {
        s
    } else {
        insert_entry(insert_all(s, fields.drop_last()), fields.last())
    }
}

/// The seconds of arc of a position fit the 32 bits written.
pub open spec fn fix_fits(f: GpsFix) -> bool {
    arc_seconds(f.lat_dms) <= u32::MAX && arc_seconds(f.lon_dms) <= u32::MAX
}

/// The text of a character.
fn char_string(c: char) -> (s: String)
    ensures
        s@ == char_text(c),
{
    let mut v: Vec<char> = Vec::new();
    v.push(c);
    assert(v@ =~= seq![c]);
    string_from_chars(&v)
}

/// The fields a position sets.
fn fix_entries(f: &GpsFix) -> (v: Vec<(ExifTag, ExifValue)>)
    requires
        fix_fits(*f),
    ensures
        v@.map_values(|e: (ExifTag, ExifValue)| (e.0@, e.1@)) == fix_fields(*f),
{
    let mut v: Vec<(ExifTag, ExifValue)> = Vec::new();
    let lat: u64 = f.lat_dms.0 as u64 * 3600 + f.lat_dms.1 as u64 * 60 + f.lat_dms.2 as u64;
    let lon: u64 = f.lon_dms.0 as u64 * 3600 + f.lon_dms.1 as u64 * 60 + f.lon_dms.2 as u64;
    v.push((ExifTag::new(0x0001, "GPS", "纬度方向"), ExifValue::Ascii(char_string(f.lat_ref))));
    v.push((ExifTag::new(0x0002, "GPS", "纬度"), ExifValue::Rational(lat as u32, 3600)));
    v.push((ExifTag::new(0x0003, "GPS", "经度方向"), ExifValue::Ascii(char_string(f.lon_ref))));
    v.push((ExifTag::new(0x0004, "GPS", "经度"), ExifValue::Rational(lon as u32, 3600)));
    match f.ele {
        Some(e) => {
            let mut b: Vec<u8> = Vec::new();
            b.push(if e.below_sea_level { 1u8 } else { 0u8 });
            v.push((ExifTag::new(0x0005, "GPS", "高度参考"), ExifValue::Byte(b)));
            v.push((ExifTag::new(0x0006, "GPS", "高度"), ExifValue::Rational(e.centimeters, 100)));
            assert(v@.map_values(|e: (ExifTag, ExifValue)| (e.0@, e.1@)) =~= fix_fields(*f));
        },
        None => {
            assert(v@.map_values(|e: (ExifTag, ExifValue)| (e.0@, e.1@)) =~= fix_fields(*f));
        },
    }
    v
}

/// Sets the fields a position writes, in order.
pub fn add_fix(entries: &mut ExifMap, fix: &GpsFix)
    requires
        old(entries).wf(),
        fix_fits(*fix),
    ensures
        final(entries).wf(),
        final(entries)@ == insert_all(old(entries)@, fix_fields(*fix)),
{
    let fields = fix_entries(fix);
    let ghost fv = fields@.map_values(|e: (ExifTag, ExifValue)| (e.0@, e.1@));
    let mut i: usize = 0;
    while i < fields.len()
        invariant
            entries.wf(),
            i <= fields@.len(),
            fv == fields@.map_values(|e: (ExifTag, ExifValue)| (e.0@, e.1@)),
            entries@ == insert_all(old(entries)@, fv.take(i as int)),
        decreases fields@.len() - i,
    {
        let e = &fields[i];
        assert(fv.take(i + 1).drop_last() =~= fv.take(i as int));
        assert(fv.take(i + 1).last() == (e.0@, e.1@));
        entries.insert(e.0.duplicate(), e.1.duplicate());
        i = i + 1;
    }
    assert(fv.take(fields@.len() as int) =~= fv);
}

/// The shown value of the first field numbered 0x9003 (the time the photo
/// was taken).
pub open spec fn photo_time_of(s: Seq<EntryView>) -> Option<DisplayView>
    decreases s.len(),
{
    if s.len() == 0 {
        None
    } else if s[0].0.id == 0x9003 {
        Some(display_of(s[0].1))
    } else {
        photo_time_of(s.drop_first())
    }
}

/// The shown value of the first field numbered 0x9003.
fn photo_time(entries: &ExifMap) -> (r: Option<DisplayText>)
    ensures
        match photo_time_of(entries@) {
            Some(d) => r matches Some(x) && x@ == d,
            None => r is None,
        },
{
    let ghost s = entries@;
    let n = entries.len();
    let mut i: usize = 0;
    assert(s.skip(0) =~= s);
    while i < n
        invariant
            n == s.len(),
            s == entries@,
            i <= n,
            photo_time_of(s) == photo_time_of(s.skip(i as int)),
        decreases n - i,
    {
        let (tag, value) = entries.entry(i);
        assert(s.skip(i as int)[0] == s[i as int]);
        if tag.id == 0x9003 {
            return Some(value.to_display_string());
        }
        assert(s.skip(i + 1) =~= s.skip(i as int).drop_first());
        i = i + 1;
    }
    assert(s.skip(i as int).len() == 0);
    None
}

/// The track point for a photo taken at the shown time: shown text is
/// matched; a quotient shown with two decimals never reads as a date.
pub open spec fn point_for(points: Seq<PointView>, shown: DisplayView) -> Option<PointView> {
    match shown {
        DisplayView::Text(t) => match exif_time(t) {
            Some(instant) => match matched_index(points, instant) {
                Some(i) => Some(points[i]),
                None => None,
            },
            None => None,
        },
        DisplayView::TwoDecimals { .. } => None,
    }
}

/// Why GPS could not be written to the current image.
#[derive(Debug, Clone, Copy, PartialEq, Eq, Structural)]
pub enum GpsWriteError {
    /// No GPX file is loaded.
    NoTrack,
    /// No image is open.
    NoImage,
    /// The image has no time it was taken.
    NoPhotoTime,
    /// No track point lies within five minutes of that time.
    NoMatch,
}

impl GpsWriteError {
    /// The message shown for the error.
    pub fn message(&self) -> (s: &'static str)
        ensures
            *self == GpsWriteError::NoTrack ==> s@ == "未加载 GPX 文件"@,
            *self == GpsWriteError::NoImage ==> s@ == "没有打开文件"@,
            *self == GpsWriteError::NoPhotoTime ==> s@ == "当前图片没有拍摄时间"@,
            *self == GpsWriteError::NoMatch ==> s@ == "无法匹配 GPS 轨迹点（时间差 > 5分钟）"@,
    {
        match self {
            GpsWriteError::NoTrack => "未加载 GPX 文件",
            GpsWriteError::NoImage => "没有打开文件",
            GpsWriteError::NoPhotoTime => "当前图片没有拍摄时间",
            GpsWriteError::NoMatch => "无法匹配 GPS 轨迹点（时间差 > 5分钟）",
        }
    }
}

/// One photo's line in the preview: its file name, its shown time and the
/// track point it matches.
#[derive(Debug)]
pub struct GpxPreviewResult {
    pub file_name: String,
    pub photo_time: Option<DisplayText>,
    pub point: Option<GpxPoint>,
}

/// The chrono rendering `%Y-%m-%d %H:%M:%S` of an instant.
pub uninterp spec fn time_text(t: GpxTime) -> Seq<char>;

/// `DateTime::format("%Y-%m-%d %H:%M:%S")` in chrono, of an instant chrono
/// can hold (empty text otherwise). The rendering is named, not stated.
#[verifier::external_body]
fn format_time(t: GpxTime) -> (s: String)
    ensures
        s@ == time_text(t),
{
    chrono::DateTime::from_timestamp(t.secs, t.nanos).map(|d| d.format("%Y-%m-%d %H:%M:%S").to_string()).unwrap_or_default()
}

/// `name` is a run of characters of `path` that holds no `/` (empty
/// included).
pub open spec fn file_name_fits(name: Seq<char>, path: Seq<char>) -> bool {
    &&& !name.contains('/')
    &&& exists|i: int, j: int| 0 <= i <= j <= path.len() && name == path.subrange(i, j)
}

/// What follows the last `/` of a path (all of it when there is none).
pub open spec fn last_segment(p: Seq<char>) -> Seq<char>
    decreases p.len(),
{
    if p.len() == 0 {
        p
    } else if p.last() == '/' {
        Seq::empty()
    } else {
        last_segment(p.drop_last()).push(p.last())
    }
}

/// A path whose file name every platform reads the same way: `/` is its
/// only kind of separator (no `\`, no drive or prefix `:`, no leading
/// `//`), and it ends with a name that is neither `.` nor `..`.
pub open spec fn plain_path(p: Seq<char>) -> bool {
    &&& !p.contains('\\')
    &&& !p.contains(':')
    &&& !(p.len() >= 2 && p[0] == '/' && p[1] == '/')
    &&& last_segment(p).len() > 0
    &&& last_segment(p) != seq!['.']
    &&& last_segment(p) != seq!['.', '.']
}

/// `Path::file_name` of a path, as text (empty when there is none): the
/// final component. Every platform takes `/` as a separator, so the result
/// is a piece of the path without `/`, and for a plain path it is what
/// follows the last `/`. How other paths split (backslashes, drive and
/// network prefixes) depends on the platform and is not stated.
#[verifier::external_body]
fn file_name_text(path: &str) -> (s: String)
    ensures
        file_name_fits(s@, path@),
        plain_path(path@) ==> s@ == last_segment(path@),
{
    std::path::Path::new(path).file_name().unwrap_or_default().to_string_lossy().to_string()
}

/// The status text after loading a track.
pub open spec fn loaded_message(count: nat, range: Option<(GpxTime, GpxTime)>) -> Seq<char> {
    match range {
        Some((a, b)) => "已加载 GPX: "@ + decimal(count) + " 个轨迹点，时间范围 "@ + time_text(a) + " ~ "@
            + time_text(b),
        None => "已加载 GPX: "@ + decimal(count) + " 个轨迹点"@,
    }
}

/// The state of the GPX window.
#[derive(Debug)]
pub struct GpxWindowState {
    pub gpx_path: Option<String>,
    pub matcher: Option<GpxMatcher>,
    pub preview_results: Vec<GpxPreviewResult>,
    pub status_message: String,
    pub active: bool,
}

impl Default for GpxWindowState {
    /// The same state as `new`.
    fn default() -> (w: GpxWindowState)
        ensures
            w.gpx_path is None,
            w.matcher is None,
            w.preview_results@.len() == 0,
            w.status_message@.len() == 0,
            !w.active,
    {
        GpxWindowState::new()
    }
}

impl GpxWindowState {
    /// No track loaded, the window closed.
    pub fn new() -> (w: GpxWindowState)
        ensures
            w.gpx_path is None,
            w.matcher is None,
            w.preview_results@.len() == 0,
            w.status_message@.len() == 0,
            !w.active,
    {
        GpxWindowState {
            gpx_path: None,
            matcher: None,
            preview_results: Vec::new(),
            status_message: String::new(),
            active: false,
        }
    }

    /// Loads the track of a GPX document the caller has read from `path`;
    /// on a parse error nothing changes.
    pub fn load_gpx(&mut self, path: String, content: &str) -> (r: Result<(), GpxError>)
        ensures
            match gpx_points(xml_events(content@)) {
                Ok(points) => {
                    &&& r is Ok
                    &&& final(self).gpx_path == Some(path)
                    &&& final(self).matcher matches Some(m) && m@ == points
                    &&& final(self).status_message@ == loaded_message(
                        points.len(),
                        if points.len() > 0 {
                            Some((points[0].time, points.last().time))
                        } else {
                            None
                        },
                    )
                    &&& final(self).preview_results == old(self).preview_results
                    &&& final(self).active == old(self).active
                },
                Err(m) => r matches Err(e) && e.message@ == m && *final(self) == *old(self),
            },
    {
        let points = GpxParser::parse_str(content)?;
        let matcher = GpxMatcher::new(points);
        let count = matcher.point_count();
        let range = matcher.time_range();
        self.gpx_path = Some(path);
        let mut v: Vec<char> = Vec::new();
        push_str(&mut v, "已加载 GPX: ");
        push_decimal(&mut v, count as u64);
        match range {
            Some((a, b)) => {
                push_str(&mut v, " 个轨迹点，时间范围 ");
                push_str(&mut v, format_time(a).as_str());
                push_str(&mut v, " ~ ");
                push_str(&mut v, format_time(b).as_str());
            },
            None => {
                push_str(&mut v, " 个轨迹点");
            },
        }
        self.status_message = string_from_chars(&v);
        self.matcher = Some(matcher);
        Ok(())
    }

    /// The match of every image of the folder: for each file, its name, the
    /// shooting time its own table gives (`tables` holds the table of each
    /// file, in the order of the folder; an empty one for a file that could
    /// not be read) and the track point that time matches; empty without a
    /// track.
    pub fn preview_all(&mut self, app: &AppState, tables: &Vec<ExifMap>)
        requires
            tables@.len() == app.file_paths@.len(),
        ensures
            final(self).gpx_path == old(self).gpx_path,
            final(self).matcher == old(self).matcher,
            final(self).status_message == old(self).status_message,
            final(self).active == old(self).active,
            old(self).matcher is None ==> final(self).preview_results@.len() == 0,
            old(self).matcher matches Some(m) ==> {
                &&& final(self).preview_results@.len() == app.file_paths@.len()
                &&& forall|i: int| 0 <= i < app.file_paths@.len() ==> {
                    let r = #[trigger] final(self).preview_results@[i];
                    &&& file_name_fits(r.file_name@, app.file_paths@[i]@)
                    &&& plain_path(app.file_paths@[i]@) ==> r.file_name@ == last_segment(app.file_paths@[i]@)
                    &&& match photo_time_of(tables@[i]@) {
                        Some(d) => r.photo_time matches Some(x) && x@ == d,
                        None => r.photo_time is None,
                    }
                    &&& match photo_time_of(tables@[i]@) {
                        Some(d) => match point_for(m@, d) {
                            Some(p) => r.point matches Some(q) && q@ == p,
                            None => r.point is None,
                        },
                        None => r.point is None,
                    }
                }
            },
    {
        self.preview_results = Vec::new();
        let matcher = match &self.matcher {
            Some(m) => m,
            None => {
                return;
            },
        };
        let n = app.file_paths.len();
        let mut i: usize = 0;
        while i < n
            invariant
                n == app.file_paths@.len(),
                n == tables@.len(),
                i <= n,
                self.matcher == Some(*matcher),
                self.preview_results@.len() == i,
                self.gpx_path == old(self).gpx_path,
                self.status_message == old(self).status_message,
                self.active == old(self).active,
                forall|k: int| 0 <= k < i ==> {
                    let r = #[trigger] self.preview_results@[k];
                    &&& file_name_fits(r.file_name@, app.file_paths@[k]@)
                    &&& plain_path(app.file_paths@[k]@) ==> r.file_name@ == last_segment(app.file_paths@[k]@)
                    &&& match photo_time_of(tables@[k]@) {
                        Some(d) => r.photo_time matches Some(x) && x@ == d,
                        None => r.photo_time is None,
                    }
                    &&& match photo_time_of(tables@[k]@) {
                        Some(d) => match point_for(matcher@, d) {
                            Some(p) => r.point matches Some(q) && q@ == p,
                            None => r.point is None,
                        },
                        None => r.point is None,
                    }
                },
            decreases n - i,
        {
            let file_name = file_name_text(app.file_paths[i].as_str());
            let shown = photo_time(&tables[i]);
            let point = match &shown {
                Some(DisplayText::Text(t)) => matcher.match_point(t.as_str()),
                _ => None,
            };
            self.preview_results.push(GpxPreviewResult { file_name, photo_time: shown, point });
            i = i + 1;
        }
    }

    /// The point to write to the image that is open, with its path and the
    /// shown time it was matched on, or why there is none.
    pub fn match_current(&self, app: &AppState) -> (r: Result<(String, String, GpxPoint), GpsWriteError>)
        ensures
            self.matcher is None ==> r == Err::<(String, String, GpxPoint), GpsWriteError>(GpsWriteError::NoTrack),
            self.matcher matches Some(m) ==> {
                if app.current_index >= app.file_paths@.len() {
                    r == Err::<(String, String, GpxPoint), GpsWriteError>(GpsWriteError::NoImage)
                } else {
                    match photo_time_of(app.exif_entries@) {
                        None => r == Err::<(String, String, GpxPoint), GpsWriteError>(GpsWriteError::NoPhotoTime),
                        Some(d) => match point_for(m@, d) {
                            None => r == Err::<(String, String, GpxPoint), GpsWriteError>(GpsWriteError::NoMatch),
                            Some(p) => r matches Ok((path, time, q)) && path@ == app.file_paths@[app.current_index as int]@
                                && d == DisplayView::Text(time@) && q@ == p,
                        },
                    }
                }
            },
    {
        let matcher = match &self.matcher {
            Some(m) => m,
            None => {
                return Err(GpsWriteError::NoTrack);
            },
        };
        let path = match app.current_path() {
            Some(p) => p.clone(),
            None => {
                return Err(GpsWriteError::NoImage);
            },
        };
        let shown = match photo_time(&app.exif_entries) {
            Some(s) => s,
            None => {
                return Err(GpsWriteError::NoPhotoTime);
            },
        };
        match shown {
            DisplayText::Text(t) => match matcher.match_point(t.as_str()) {
                Some(p) => Ok((path, t, p)),
                None => Err(GpsWriteError::NoMatch),
            },
            DisplayText::TwoDecimals { .. } => Err(GpsWriteError::NoMatch),
        }
    }

    /// Writes a position into the table of the image that is open, with
    /// the time it was matched on, and records each of the seven GPS fields
    /// for undo (old value, or empty text, and new value).
    pub fn apply_fix(app: &mut AppState, fix: &GpsFix, photo_time: String)
        requires
            old(app).wf(),
            fix_fits(*fix),
        ensures
            final(app).wf(),
            final(app).exif_entries@ == insert_entry(
                insert_all(old(app).exif_entries@, fix_fields(*fix)),
                (gps_tag(7, gps_name(7)), ValueView::Ascii(photo_time@)),
            ),
            final(app).undo_view() == fix_undo(
                old(app).undo_view(),
                old(app).exif_entries@,
                final(app).exif_entries@,
                7,
            ),
            *final(app) == (AppState {
                exif_entries: final(app).exif_entries,
                undo_stack: final(app).undo_stack,
                ..*old(app)
            }),
    {
        let mut tags: Vec<ExifTag> = Vec::new();
        tags.push(ExifTag::new(0x0001, "GPS", "纬度方向"));
        tags.push(ExifTag::new(0x0002, "GPS", "纬度"));
        tags.push(ExifTag::new(0x0003, "GPS", "经度方向"));
        tags.push(ExifTag::new(0x0004, "GPS", "经度"));
        tags.push(ExifTag::new(0x0005, "GPS", "高度参考"));
        tags.push(ExifTag::new(0x0006, "GPS", "高度"));
        tags.push(ExifTag::new(0x0007, "GPS", "GPS时间"));
        let before = app.exif_entries.duplicate();
        add_fix(&mut app.exif_entries, fix);
        app.exif_entries.insert(ExifTag::new(0x0007, "GPS", "GPS时间"), ExifValue::Ascii(photo_time));
        let ghost start = *app;
        let ghost after = app.exif_entries@;
        let mut i: usize = 0;
        while i < 7
            invariant
                app.wf(),
                before.wf(),
                tags@.len() == 7,
                forall|k: int| 0 <= k < 7 ==> #[trigger] tags@[k]@ == gps_tag((k + 1) as u16, gps_name((k + 1) as u16)),
                i <= 7,
                app.exif_entries@ == after,
                app.undo_view() == fix_undo(start.undo_view(), before@, after, i as int),
                *app == (AppState { undo_stack: app.undo_stack, ..start }),
            decreases 7 - i,
        {
            let tag = &tags[i];
            let old_value = match before.get(tag) {
                Some(v) => v.duplicate(),
                None => ExifValue::empty_text(),
            };
            let new_value = match app.exif_entries.get(tag) {
                Some(v) => v.duplicate(),
                None => ExifValue::empty_text(),
            };
            app.push_undo(tag.duplicate(), old_value, new_value);
            i = i + 1;
        }
    }

    /// Records that the image with its new position was written: the table
    /// is now the file's, and the status names the position.
    pub fn fix_written(app: &mut AppState, lat: &str, lat_ref: char, lon: &str, lon_ref: char)
        requires
            old(app).wf(),
        ensures
            final(app).wf(),
            final(app).original_exif@ == old(app).exif_entries@,
            final(app).status_text() == Some("GPS 已写入: "@ + lat@ + "°"@ + char_text(lat_ref) + " "@ + lon@ + "°"@
                + char_text(lon_ref)),
            final(app).status_level() == Some(StatusLevel::Success),
            *final(app) == (AppState {
                original_exif: final(app).original_exif,
                status_message: final(app).status_message,
                ..*old(app)
            }),
    {
        app.original_exif = app.exif_entries.duplicate();
        let mut v: Vec<char> = Vec::new();
        push_str(&mut v, "GPS 已写入: ");
        push_str(&mut v, lat);
        push_str(&mut v, "°");
        v.push(lat_ref);
        push_str(&mut v, " ");
        push_str(&mut v, lon);
        push_str(&mut v, "°");
        v.push(lon_ref);
        proof {
            reveal_strlit("GPS 已写入: ");
        }
        app.set_status(string_from_chars(&v), StatusLevel::Success);
    }

    /// The point for one image of a batch, by the time its own table
    /// gives; `None` without a track, a time or a match.
    pub fn match_entries(&self, entries: &ExifMap) -> (r: Option<GpxPoint>)
        ensures
            self.matcher is None ==> r is None,
            self.matcher matches Some(m) ==> match photo_time_of(entries@) {
                Some(d) => match point_for(m@, d) {
                    Some(p) => r matches Some(q) && q@ == p,
                    None => r is None,
                },
                None => r is None,
            },
    {
        let matcher = match &self.matcher {
            Some(m) => m,
            None => {
                return None;
            },
        };
        match photo_time(entries) {
            Some(DisplayText::Text(t)) => matcher.match_point(t.as_str()),
            _ => None,
        }
    }
}

/// The undo records the GPS write adds for its first `k` fields: each
/// field's value before the write (or empty text) and after it (or empty
/// text).
pub open spec fn fix_undo(u: Seq<UndoView>, before: Seq<EntryView>, after: Seq<EntryView>, k: int) -> Seq<UndoView>
    decreases k,
{
    if k <= 0 {
        u
    } else {
        let t = gps_tag(k as u16, gps_name(k as u16));
        pushed_undo(fix_undo(u, before, after, k - 1), (t, previous_value(before, t), previous_value(after, t)))
    }
}

// ============================================================================
// Checking and repairing
// ============================================================================

/// The state of the repair window.
#[derive(Debug)]
pub struct RepairWindowState {
    pub health: Option<ExifHealth>,
    pub repair_log: Vec<String>,
    pub active: bool,
}

impl Default for RepairWindowState {
    /// The same state as `new`.
    fn default() -> (w: RepairWindowState)
        ensures
            w.health is None,
            w.repair_log@.len() == 0,
            !w.active,
    {
        RepairWindowState::new()
    }
}

impl RepairWindowState {
    /// Nothing checked, an empty log, the window closed.
    pub fn new() -> (w: RepairWindowState)
        ensures
            w.health is None,
            w.repair_log@.len() == 0,
            !w.active,
    {
        RepairWindowState { health: None, repair_log: Vec::new(), active: false }
    }

    /// Records a check: its result, or why the file could not be read.
    pub fn record_validation(&mut self, r: Result<ExifHealth, String>)
        ensures
            r matches Ok(h) ==> final(self).health == Some(h) && final(self).repair_log == old(self).repair_log,
            r matches Err(e) ==> final(self).health == old(self).health && crate::text::string_views(
                final(self).repair_log@,
            ) == crate::text::string_views(old(self).repair_log@).push("校验失败: "@ + e@),
            final(self).active == old(self).active,
    {
        match r {
            Ok(h) => {
                self.health = Some(h);
            },
            Err(e) => {
                let mut m = String::from_str("校验失败: ");
                m.append(e.as_str());
                let ghost before = crate::text::string_views(self.repair_log@);
                self.repair_log.push(m);
                assert(crate::text::string_views(self.repair_log@) =~= before.push("校验失败: "@ + e@));
            },
        }
    }

    /// Logs a repair: a summary line and one line per repair, or why it
    /// failed.
    pub fn record_repair(&mut self, r: &Result<RepairResult, String>)
        ensures
            final(self).health == old(self).health,
            final(self).active == old(self).active,
            r matches Ok(res) ==> crate::text::string_views(final(self).repair_log@) == crate::text::string_views(
                old(self).repair_log@,
            ).push("修复完成: "@ + decimal(res.repairs@.len()) + " 项修复，"@ + signed_decimal(res.bytes_saved as int)
                + " 字节变化"@) + crate::text::string_views(res.repairs@).map_values(|l: Seq<char>| "  • "@ + l),
            r matches Err(e) ==> crate::text::string_views(final(self).repair_log@) == crate::text::string_views(
                old(self).repair_log@,
            ).push("修复失败: "@ + e@),
    {
        match r {
            Ok(res) => {
                let mut v: Vec<char> = Vec::new();
                push_str(&mut v, "修复完成: ");
                push_decimal(&mut v, res.repairs.len() as u64);
                push_str(&mut v, " 项修复，");
                push_signed_decimal(&mut v, res.bytes_saved);
                push_str(&mut v, " 字节变化");
                let ghost start = crate::text::string_views(self.repair_log@);
                self.repair_log.push(string_from_chars(&v));
                let ghost head = crate::text::string_views(self.repair_log@);
                assert(head =~= start.push(v@));
                let ghost lines = crate::text::string_views(res.repairs@).map_values(|l: Seq<char>| "  • "@ + l);
                let mut i: usize = 0;
                while i < res.repairs.len()
                    invariant
                        i <= res.repairs@.len(),
                        lines == crate::text::string_views(res.repairs@).map_values(|l: Seq<char>| "  • "@ + l),
                        crate::text::string_views(self.repair_log@) == head + lines.take(i as int),
                        self.health == old(self).health,
                        self.active == old(self).active,
                    decreases res.repairs@.len() - i,
                {
                    let mut m = String::from_str("  • ");
                    m.append(res.repairs[i].as_str());
                    let ghost before = crate::text::string_views(self.repair_log@);
                    self.repair_log.push(m);
                    assert(crate::text::string_views(self.repair_log@) =~= before.push(lines[i as int]));
                    assert(lines.take(i + 1) =~= lines.take(i as int).push(lines[i as int]));
                    i = i + 1;
                }
                assert(lines.take(res.repairs@.len() as int) =~= lines);
            },
            Err(e) => {
                let mut m = String::from_str("修复失败: ");
                m.append(e.as_str());
                let ghost before = crate::text::string_views(self.repair_log@);
                self.repair_log.push(m);
                assert(crate::text::string_views(self.repair_log@) =~= before.push("修复失败: "@ + e@));
            },
        }
    }
}

} // verus!
