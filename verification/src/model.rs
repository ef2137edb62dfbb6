//! The data model: EXIF groups, tags, values, and the entry table.
use vstd::prelude::*;
use vstd::string::*;
use crate::text::{all_digits, digit_value, digits_value, is_digit, lemma_decimal_digits, chars_of, parse_signed, parse_signed_chars, parse_unsigned, parse_unsigned_chars, decimal, hex_list, push_decimal, push_hex_list, push_signed_decimal, signed_decimal, string_from_chars};

verus! {

// ============================================================================
// ExifGroup
// ============================================================================

/// The group an EXIF field is listed under.
#[derive(Debug, Clone, Copy, PartialEq, Eq, Structural, Hash, PartialOrd, Ord)]
pub enum ExifGroup {
    CameraInfo,
    Exposure,
    GPS,
    Lens,
    Thumbnail,
    Other,
}

/// The display label of a group.
pub open spec fn group_label(g: ExifGroup) -> Seq<char> {
    match g {
        ExifGroup::CameraInfo => "相机信息"@,
        ExifGroup::Exposure => "曝光参数"@,
        ExifGroup::GPS => "GPS"@,
        ExifGroup::Lens => "镜头信息"@,
        ExifGroup::Thumbnail => "缩略图"@,
        ExifGroup::Other => "其他"@,
    }
}

impl ExifGroup {
    /// The display label of the group.
    pub fn label(self) -> (s: &'static str)
        ensures
            s@ == group_label(self),
    {
        match self {
            ExifGroup::CameraInfo => "相机信息",
            ExifGroup::Exposure => "曝光参数",
            ExifGroup::GPS => "GPS",
            ExifGroup::Lens => "镜头信息",
            ExifGroup::Thumbnail => "缩略图",
            ExifGroup::Other => "其他",
        }
    }

    /// Whether the group starts expanded: all but thumbnail and other.
    pub fn default_expanded(self) -> (b: bool)
        ensures
            b == (self == ExifGroup::CameraInfo || self == ExifGroup::Exposure
                || self == ExifGroup::GPS || self == ExifGroup::Lens),
    {
        match self {
            ExifGroup::CameraInfo | ExifGroup::Exposure | ExifGroup::GPS | ExifGroup::Lens => true,
            _ => false,
        }
    }
}

// ============================================================================
// ExifTag
// ============================================================================

/// An EXIF tag: its number, the IFD it was read from, and its display name.
#[derive(Debug, Clone, PartialEq, Eq, Hash)]
pub struct ExifTag {
    pub id: u16,
    pub ifd: String,
    pub name: String,
}

/// The mathematical value of a tag.
pub struct TagView {
    pub id: u16,
    pub ifd: Seq<char>,
    pub name: Seq<char>,
}

impl View for ExifTag {
    type V = TagView;

    open spec fn view(&self) -> TagView {
        TagView { id: self.id, ifd: self.ifd@, name: self.name@ }
    }
}

impl ExifTag {
    pub fn new(id: u16, ifd: &str, name: &str) -> (t: ExifTag)
        ensures
            t@ == (TagView { id: id, ifd: ifd@, name: name@ }),
    {
        ExifTag { id, ifd: String::from_str(ifd), name: String::from_str(name) }
    }

    /// Tag equality: same number, IFD and name.
    pub fn same(&self, other: &ExifTag) -> (b: bool)
        ensures
            b == (self@ == other@),
    {
        self.id == other.id && self.ifd == other.ifd && self.name == other.name
    }

    /// A copy of the tag.
    pub fn duplicate(&self) -> (t: ExifTag)
        ensures
            t@ == self@,
    {
        ExifTag { id: self.id, ifd: self.ifd.clone(), name: self.name.clone() }
    }
}

// ============================================================================
// ExifValue
// ============================================================================

/// An EXIF value.
#[derive(Debug, Clone, PartialEq)]
pub enum ExifValue {
    Byte(Vec<u8>),
    Ascii(String),
    Short(u16),
    Long(u32),
    Rational(u32, u32),
    SRational(i32, i32),
    Undefined(Vec<u8>),
    Slice(Vec<u8>),
}

/// The mathematical value of an EXIF value.
pub enum ValueView {
    Byte(Seq<u8>),
    Ascii(Seq<char>),
    Short(u16),
    Long(u32),
    Rational(u32, u32),
    SRational(i32, i32),
    Undefined(Seq<u8>),
    Slice(Seq<u8>),
}

impl View for ExifValue {
    type V = ValueView;

    open spec fn view(&self) -> ValueView {
        match self {
            ExifValue::Byte(v) => ValueView::Byte(v@),
            ExifValue::Ascii(s) => ValueView::Ascii(s@),
            ExifValue::Short(x) => ValueView::Short(*x),
            ExifValue::Long(x) => ValueView::Long(*x),
            ExifValue::Rational(n, d) => ValueView::Rational(*n, *d),
            ExifValue::SRational(n, d) => ValueView::SRational(*n, *d),
            ExifValue::Undefined(v) => ValueView::Undefined(v@),
            ExifValue::Slice(v) => ValueView::Slice(v@),
        }
    }
}

/// Equality of two byte vectors.
pub fn bytes_equal(a: &Vec<u8>, b: &Vec<u8>) -> (r: bool)
    ensures
        r == (a@ == b@),
{
    if a.len() != b.len() {
        return false;
    }
    let mut i: usize = 0;
    while i < a.len()
        invariant
            a.len() == b.len(),
            i <= a.len(),
            forall|j: int| 0 <= j < i ==> a@[j] == b@[j],
        decreases a.len() - i,
    {
        if a[i] != b[i] {
            return false;
        }
        i = i + 1;
    }
    assert(a@ =~= b@);
    true
}

/// How a value is displayed: finished text, or a quotient to be written
/// with two decimals.
#[derive(Debug)]
pub enum DisplayText {
    /// Finished text.
    Text(String),
    /// `num / den` written with two decimal places (`{:.2}` of the quotient
    /// computed in binary floating point, which the caller renders).
    TwoDecimals { num: i64, den: i64 },
}

pub enum DisplayView {
    Text(Seq<char>),
    TwoDecimals { num: int, den: int },
}

impl View for DisplayText {
    type V = DisplayView;

    open spec fn view(&self) -> DisplayView {
        match self {
            DisplayText::Text(s) => DisplayView::Text(s@),
            DisplayText::TwoDecimals { num, den } => DisplayView::TwoDecimals {
                num: *num as int,
                den: *den as int,
            },
        }
    }
}

/// How a value is displayed.
pub open spec fn display_of(v: ValueView) -> DisplayView {
    match v {
        ValueView::Byte(b) => DisplayView::Text(hex_list(b)),
        ValueView::Ascii(s) => DisplayView::Text(s),
        ValueView::Short(x) => DisplayView::Text(decimal(x as nat)),
        ValueView::Long(x) => DisplayView::Text(decimal(x as nat)),
        ValueView::Rational(n, d) => if d == 0 {
            DisplayView::Text(decimal(n as nat) + seq!['/'] + decimal(d as nat))
        } else if d == 1 {
            DisplayView::Text(decimal(n as nat))
        } else if n % d == 0 {
            DisplayView::Text(decimal((n / d) as nat) + ".0"@)
        } else {
            DisplayView::TwoDecimals { num: n as int, den: d as int }
        },
        ValueView::SRational(n, d) => if d == 0 {
            DisplayView::Text(signed_decimal(n as int) + seq!['/'] + signed_decimal(d as int))
        } else if d == 1 {
            DisplayView::Text(signed_decimal(n as int))
        } else {
            DisplayView::TwoDecimals { num: n as int, den: d as int }
        },
        ValueView::Undefined(b) => DisplayView::Text(hex_list(b)),
        ValueView::Slice(b) => DisplayView::Text(hex_list(b)),
    }
}

impl ExifValue {
    /// A copy of the value.
    pub fn duplicate(&self) -> (v: ExifValue)
        ensures
            v@ == self@,
    {
        match self {
            ExifValue::Byte(b) => ExifValue::Byte(vstd::slice::slice_to_vec(b.as_slice())),
            ExifValue::Ascii(s) => ExifValue::Ascii(s.clone()),
            ExifValue::Short(x) => ExifValue::Short(*x),
            ExifValue::Long(x) => ExifValue::Long(*x),
            ExifValue::Rational(n, d) => ExifValue::Rational(*n, *d),
            ExifValue::SRational(n, d) => ExifValue::SRational(*n, *d),
            ExifValue::Undefined(b) => ExifValue::Undefined(vstd::slice::slice_to_vec(b.as_slice())),
            ExifValue::Slice(b) => ExifValue::Slice(vstd::slice::slice_to_vec(b.as_slice())),
        }
    }

    /// Value equality.
    pub fn same(&self, other: &ExifValue) -> (b: bool)
        ensures
            b == (self@ == other@),
    {
        match (self, other) {
            (ExifValue::Byte(a), ExifValue::Byte(b)) => bytes_equal(a, b),
            (ExifValue::Ascii(a), ExifValue::Ascii(b)) => *a == *b,
            (ExifValue::Short(a), ExifValue::Short(b)) => *a == *b,
            (ExifValue::Long(a), ExifValue::Long(b)) => *a == *b,
            (ExifValue::Rational(a, c), ExifValue::Rational(b, d)) => *a == *b && *c == *d,
            (ExifValue::SRational(a, c), ExifValue::SRational(b, d)) => *a == *b && *c == *d,
            (ExifValue::Undefined(a), ExifValue::Undefined(b)) => bytes_equal(a, b),
            (ExifValue::Slice(a), ExifValue::Slice(b)) => bytes_equal(a, b),
            _ => false,
        }
    }

    /// The empty text value, used as the "old" or "new" side of a field that
    /// was added or deleted.
    pub fn empty_text() -> (v: ExifValue)
        ensures
            v@ == ValueView::Ascii(Seq::empty()),
    {
        ExifValue::Ascii(String::new())
    }

    /// How the value is displayed: bytes as `[0A, FF]`, text as is,
    /// integers in decimal, a rational over one as its numerator, an exact
    /// quotient with `.0` (`300/100` as `3.0`), `n/0` for a
    /// zero denominator, and otherwise the quotient with two decimals.
    pub fn to_display_string(&self) -> (d: DisplayText)
        ensures
            d@ == display_of(self@),
    {
        match self {
            ExifValue::Byte(b) => DisplayText::Text(hex_string(b)),
            ExifValue::Ascii(s) => DisplayText::Text(s.clone()),
            ExifValue::Short(x) => DisplayText::Text(decimal_string(*x as u64)),
            ExifValue::Long(x) => DisplayText::Text(decimal_string(*x as u64)),
            ExifValue::Rational(n, d) => {
                if *d == 0 {
                    let mut out: Vec<char> = Vec::new();
                    push_decimal(&mut out, *n as u64);
                    out.push('/');
                    push_decimal(&mut out, *d as u64);
                    assert(out@ =~= decimal(*n as nat) + seq!['/'] + decimal(*d as nat));
                    DisplayText::Text(string_from_chars(&out))
                } else if *d == 1 {
                    DisplayText::Text(decimal_string(*n as u64))
                } else if *n % *d == 0 {
                    let mut out: Vec<char> = Vec::new();
                    push_decimal(&mut out, (*n / *d) as u64);
                    out.push('.');
                    out.push('0');
                    proof {
                        reveal_strlit(".0");
                    }
                    assert(out@ =~= decimal((*n / *d) as nat) + ".0"@);
                    DisplayText::Text(string_from_chars(&out))
                } else {
                    DisplayText::TwoDecimals { num: *n as i64, den: *d as i64 }
                }
            },
            ExifValue::SRational(n, d) => {
                if *d == 0 {
                    let mut out: Vec<char> = Vec::new();
                    push_signed_decimal(&mut out, *n as i64);
                    out.push('/');
                    push_signed_decimal(&mut out, *d as i64);
                    assert(out@ =~= signed_decimal(*n as int) + seq!['/'] + signed_decimal(*d as int));
                    DisplayText::Text(string_from_chars(&out))
                } else if *d == 1 {
                    let mut out: Vec<char> = Vec::new();
                    push_signed_decimal(&mut out, *n as i64);
                    assert(out@ =~= signed_decimal(*n as int));
                    DisplayText::Text(string_from_chars(&out))
                } else {
                    DisplayText::TwoDecimals { num: *n as i64, den: *d as i64 }
                }
            },
            ExifValue::Undefined(b) => DisplayText::Text(hex_string(b)),
            ExifValue::Slice(b) => DisplayText::Text(hex_string(b)),
        }
    }
}

/// `s` holds exactly one `/`, at index `k`.
pub open spec fn single_slash_at(s: Seq<char>, k: int) -> bool {
    &&& 0 <= k < s.len()
    &&& s[k] == '/'
    &&& forall|j: int| 0 <= j < s.len() && j != k ==> s[j] != '/'
}

/// `s` holds exactly one `.`, at index `k`.
pub open spec fn single_dot_at(s: Seq<char>, k: int) -> bool {
    &&& 0 <= k < s.len()
    &&& s[k] == '.'
    &&& forall|j: int| 0 <= j < s.len() && j != k ==> s[j] != '.'
}

/// Where the one `.` of a text is.
pub open spec fn dot_index(s: Seq<char>) -> int {
    choose|k: int| single_dot_at(s, k)
}

/// Ten to the power `k`.
pub open spec fn pow10(k: nat) -> nat
    decreases k,
{
    if k == 0 {
        1
    } else {
        10 * pow10((k - 1) as nat)
    }
}

/// The value a decimal number with a fractional part stands for: digits, a
/// point and at most nine digits, with an optional leading `-`, is the
/// fraction of the digits over the matching power of ten; a rational when
/// positive, a signed rational when negative, if it fits.
pub open spec fn decimal_fraction(s: Seq<char>) -> Option<ValueView> {
    if s.len() > 0 && s[0] == '-' {
        signed_fraction(true, s.drop_first())
    } else {
        signed_fraction(false, s)
    }
}

/// The value of `body`, digits, a point and at most nine digits, negated
/// when `neg`, as a fraction over a power of ten, if it fits.
pub open spec fn signed_fraction(neg: bool, body: Seq<char>) -> Option<ValueView> {
    if exists|k: int| single_dot_at(body, k) {
        let k = dot_index(body);
        let l = body.take(k);
        let r = body.skip(k + 1);
        if l.len() > 0 && r.len() > 0 && r.len() <= 9 && all_digits(l) && all_digits(r) {
            let v = digits_value(l + r);
            let d = pow10(r.len());
            if !neg && v <= u32::MAX {
                Some(ValueView::Rational(v as u32, d as u32))
            } else if neg && v <= 0x8000_0000 {
                Some(ValueView::SRational((-v) as i32, d as i32))
            } else {
                None
            }
        } else {
            None
        }
    } else {
        None
    }
}

/// The value that text entered by the user stands for: `a/b` with two
/// unsigned numbers is a rational, with two signed numbers a signed
/// rational; a decimal number such as `2.8` is a (signed) rational over a
/// power of ten; otherwise a number that fits 16 bits is a short, one that
/// fits 32 bits a long, and anything else text.
pub open spec fn value_from_text(s: Seq<char>) -> ValueView {
    let fraction = if exists|k: int| single_slash_at(s, k) {
        let k = choose|k: int| single_slash_at(s, k);
        let left = s.take(k);
        let right = s.skip(k + 1);
        match (parse_unsigned(left, u32::MAX as nat), parse_unsigned(right, u32::MAX as nat)) {
            (Some(n), Some(d)) => Some(ValueView::Rational(n as u32, d as u32)),
            _ => match (
                parse_signed(left, i32::MIN as int, i32::MAX as int),
                parse_signed(right, i32::MIN as int, i32::MAX as int),
            ) {
                (Some(n), Some(d)) => Some(ValueView::SRational(n as i32, d as i32)),
                _ => None,
            },
        }
    } else {
        None
    };
    match fraction {
        Some(v) => v,
        None => match decimal_fraction(s) {
            Some(v) => v,
            None => match parse_unsigned(s, u16::MAX as nat) {
                Some(v) => ValueView::Short(v as u16),
                None => match parse_unsigned(s, u32::MAX as nat) {
                    Some(v) => ValueView::Long(v as u32),
                    None => ValueView::Ascii(s),
                },
            },
        },
    }
}

/// Reading back the decimal rendering of `n`.
proof fn lemma_parse_decimal(n: nat, max: nat)
    ensures
        parse_unsigned(decimal(n), max) == (if n <= max { Some(n) } else { None::<nat> }),
        forall|i: int| 0 <= i < decimal(n).len() ==> #[trigger] decimal(n)[i] != '/' && decimal(n)[i] != '-',
        decimal(n)[0] != '+' && decimal(n)[0] != '-',
{
    lemma_decimal_digits(n);
    let d = decimal(n);
    assert(is_digit(d[0]));
    assert forall|i: int| 0 <= i < d.len() implies #[trigger] d[i] != '/' && d[i] != '-' by {
        assert(is_digit(d[i]));
    }
}

/// The text `a`, a slash, `b`, where neither part holds a slash.
proof fn lemma_fraction_text(a: Seq<char>, b: Seq<char>)
    requires
        forall|i: int| 0 <= i < a.len() ==> #[trigger] a[i] != '/',
        forall|i: int| 0 <= i < b.len() ==> #[trigger] b[i] != '/',
    ensures
        ({
            let s = a + seq!['/'] + b;
            &&& single_slash_at(s, a.len() as int)
            &&& (choose|k: int| single_slash_at(s, k)) == a.len()
            &&& s.take(a.len() as int) == a
            &&& s.skip(a.len() as int + 1) == b
        }),
{
    let s = a + seq!['/'] + b;
    assert forall|j: int| 0 <= j < s.len() && j != a.len() implies s[j] != '/' by {
        if j < a.len() {
            assert(s[j] == a[j]);
        } else {
            assert(s[j] == b[j - a.len() - 1]);
        }
    }
    assert(single_slash_at(s, a.len() as int));
    let k = choose|k: int| single_slash_at(s, k);
    assert(k == a.len());
    assert(s.take(a.len() as int) =~= a);
    assert(s.skip(a.len() as int + 1) =~= b);
}

/// Entering a displayed value again gives the same value back, for every
/// value whose display reads back unambiguously: 16-bit integers, 32-bit
/// integers beyond 16 bits, rationals over zero, negative signed rationals
/// over zero, and text that reads as no number or fraction.
pub proof fn law_display_round_trip(v: ValueView)
    requires
        match v {
            ValueView::Short(_) => true,
            ValueView::Long(x) => x > 0xFFFF,
            ValueView::Rational(_, d) => d == 0,
            ValueView::SRational(n, d) => d == 0 && n < 0,
            ValueView::Ascii(s) => value_from_text(s) == ValueView::Ascii(s),
            _ => false,
        },
    ensures
        display_of(v) matches DisplayView::Text(t) && value_from_text(t) == v,
{
    match v {
        ValueView::Short(x) => {
            lemma_parse_decimal(x as nat, u16::MAX as nat);
            let t = decimal(x as nat);
            assert(!exists|k: int| single_slash_at(t, k));
        },
        ValueView::Long(x) => {
            lemma_parse_decimal(x as nat, u16::MAX as nat);
            lemma_parse_decimal(x as nat, u32::MAX as nat);
            let t = decimal(x as nat);
            assert(!exists|k: int| single_slash_at(t, k));
        },
        ValueView::Rational(n, d) => {
            lemma_parse_decimal(n as nat, u32::MAX as nat);
            lemma_parse_decimal(0, u32::MAX as nat);
            lemma_fraction_text(decimal(n as nat), decimal(0));
        },
        ValueView::SRational(n, d) => {
            let m = (-(n as int)) as nat;
            lemma_parse_decimal(m, u32::MAX as nat);
            lemma_parse_decimal(0, u32::MAX as nat);
            lemma_parse_decimal(0, i32::MAX as nat);
            let left = signed_decimal(n as int);
            assert(left == seq!['-'] + decimal(m));
            assert forall|i: int| 0 <= i < left.len() implies #[trigger] left[i] != '/' by {
                if i > 0 {
                    assert(left[i] == decimal(m)[i - 1]);
                }
            }
            assert(signed_decimal(0) == decimal(0));
            lemma_fraction_text(left, decimal(0));
            assert(left[0] == '-');
            assert(!all_digits(left)) by {
                assert(!is_digit(left[0]));
            }
            assert(left.drop_first() =~= decimal(m));
        },
        _ => {},
    }
}

/// Finds the only `/` of `s`, if it holds exactly one.
fn find_single_slash(s: &Vec<char>) -> (r: Option<usize>)
    ensures
        match r {
            Some(k) => single_slash_at(s@, k as int),
            None => !exists|k: int| single_slash_at(s@, k),
        },
{
    let mut count: usize = 0;
    let mut pos: usize = 0;
    let mut first: usize = 0;
    let mut i: usize = 0;
    while i < s.len()
        invariant
            i <= s.len(),
            count <= 2,
            count == 0 ==> forall|j: int| 0 <= j < i ==> s@[j] != '/',
            count == 1 ==> pos < i && s@[pos as int] == '/' && forall|j: int|
                0 <= j < i && j != pos ==> s@[j] != '/',
            count == 2 ==> first < pos < i && s@[first as int] == '/' && s@[pos as int] == '/',
        decreases s.len() - i,
    {
        if s[i] == '/' {
            if count == 0 {
                count = 1;
                pos = i;
            } else if count == 1 {
                count = 2;
                first = pos;
                pos = i;
            }
        }
        i = i + 1;
    }
    if count == 1 {
        Some(pos)
    } else {
        proof {
            if count == 2 {
                assert forall|k: int| !single_slash_at(s@, k) by {
                    if single_slash_at(s@, k) {
                        if k == first as int {
                            assert(s@[pos as int] != '/');
                        } else {
                            assert(s@[first as int] != '/');
                        }
                    }
                }
            }
        }
        None
    }
}

fn sub_chars(s: &Vec<char>, from: usize, to: usize) -> (v: Vec<char>)
    requires
        from <= to <= s.len(),
    ensures
        v@ == s@.subrange(from as int, to as int),
{
    vstd::slice::slice_to_vec(vstd::slice::slice_subrange(s.as_slice(), from, to))
}

fn find_single_dot(s: &Vec<char>) -> (r: Option<usize>)
    ensures
        match r {
            Some(k) => single_dot_at(s@, k as int),
            None => !exists|k: int| single_dot_at(s@, k),
        },
{
    let mut count: usize = 0;
    let mut pos: usize = 0;
    let mut first: usize = 0;
    let mut i: usize = 0;
    while i < s.len()
        invariant
            i <= s.len(),
            count <= 2,
            count == 0 ==> forall|j: int| 0 <= j < i ==> s@[j] != '.',
            count == 1 ==> pos < i && s@[pos as int] == '.' && forall|j: int|
                0 <= j < i && j != pos ==> s@[j] != '.',
            count == 2 ==> first < pos < i && s@[first as int] == '.' && s@[pos as int] == '.',
        decreases s.len() - i,
    {
        if s[i] == '.' {
            if count == 0 {
                count = 1;
                pos = i;
            } else if count == 1 {
                count = 2;
                first = pos;
                pos = i;
            }
        }
        i = i + 1;
    }
    if count == 1 {
        Some(pos)
    } else {
        proof {
            if count == 2 {
                assert forall|k: int| !single_dot_at(s@, k) by {
                    if single_dot_at(s@, k) {
                        if k == first as int {
                            assert(s@[pos as int] != '.');
                        } else {
                            assert(s@[first as int] != '.');
                        }
                    }
                }
            }
        }
        None
    }
}

/// Ten to the power `k`, for `k` up to nine.
fn pow10_u32(k: usize) -> (p: u32)
    requires
        k <= 9,
    ensures
        p == pow10(k as nat),
        1 <= p <= 1_000_000_000,
{
    proof {
        reveal_with_fuel(pow10, 10);
    }
    match k {
        0 => 1,
        1 => 10,
        2 => 100,
        3 => 1_000,
        4 => 10_000,
        5 => 100_000,
        6 => 1_000_000,
        7 => 10_000_000,
        8 => 100_000_000,
        _ => 1_000_000_000,
    }
}

/// Whether every character of `s` is a digit.
fn only_digits(s: &Vec<char>) -> (b: bool)
    ensures
        b == all_digits(s@),
{
    let mut i: usize = 0;
    while i < s.len()
        invariant
            i <= s.len(),
            forall|j: int| 0 <= j < i ==> is_digit(#[trigger] s@[j]),
        decreases s.len() - i,
    {
        if !(s[i] >= '0' && s[i] <= '9') {
            return false;
        }
        i = i + 1;
    }
    true
}

/// Reads a decimal number with a fractional part.
fn read_decimal_fraction(chars: &Vec<char>) -> (r: Option<ExifValue>)
    ensures
        match r {
            Some(v) => decimal_fraction(chars@) == Some(v@),
            None => decimal_fraction(chars@) is None,
        },
{
    let ghost s = chars@;
    let neg = chars.len() > 0 && chars[0] == '-';
    let body = if neg { sub_chars(chars, 1, chars.len()) } else { sub_chars(chars, 0, chars.len()) };
    proof {
        if neg {
            assert(body@ =~= s.drop_first());
        } else {
            assert(body@ =~= s);
        }
    }
    let ghost b = body@;
    let k = match find_single_dot(&body) {
        Some(k) => k,
        None => {
            return None;
        },
    };
    proof {
        assert(single_dot_at(b, dot_index(b)));
        assert(dot_index(b) == k as int);
    }
    let l = sub_chars(&body, 0, k);
    let r = sub_chars(&body, k + 1, body.len());
    assert(l@ =~= b.take(k as int));
    assert(r@ =~= b.skip(k + 1));
    if l.len() == 0 || r.len() == 0 || r.len() > 9 || !only_digits(&l) || !only_digits(&r) {
        return None;
    }
    let mut lr = l.clone();
    let mut rr = r.clone();
    lr.append(&mut rr);
    assert(lr@ =~= l@ + r@);
    assert(lr@.len() > 0 && lr@[0] != '+') by {
        assert(lr@[0] == l@[0]);
        assert(is_digit(l@[0]));
    }
    assert(lr@ =~= lr@.skip(0));
    let d = pow10_u32(r.len());
    proof {
        assert(all_digits(lr@)) by {
            assert forall|i: int| 0 <= i < lr@.len() implies is_digit(#[trigger] lr@[i]) by {
                if i < l@.len() {
                    assert(lr@[i] == l@[i]);
                } else {
                    assert(lr@[i] == r@[i - l@.len()]);
                }
            }
        }
    }
    proof {
        assert(b.take(k as int) + b.skip(k + 1) == lr@);
        assert(single_dot_at(b, dot_index(b)));
        assert(decimal_fraction(s) == signed_fraction(neg, b));
        assert(exists|k2: int| single_dot_at(b, k2));
        assert(r@.len() == b.skip(k + 1).len());
    }
    if !neg {
        match crate::text::parse_unsigned_chars(&lr, 0xFFFF_FFFF) {
            Some(v) => Some(ExifValue::Rational(v as u32, d)),
            None => None,
        }
    } else {
        match crate::text::parse_unsigned_chars(&lr, 0x8000_0000) {
            Some(v) => {
                let n: i64 = -(v as i64);
                Some(ExifValue::SRational(n as i32, d as i32))
            },
            None => None,
        }
    }
}

impl ExifValue {
    /// The value that text entered by the user stands for.
    pub fn from_string(s: &str) -> (v: ExifValue)
        ensures
            v@ == value_from_text(s@),
    {
        let chars = chars_of(s);
        let ghost sv = s@;
        match find_single_slash(&chars) {
            Some(k) => {
                proof {
                    let k2 = choose|k2: int| single_slash_at(sv, k2);
                    assert(single_slash_at(sv, k2));
                    assert(k2 == k as int);
                }
                let left = sub_chars(&chars, 0, k);
                let right = sub_chars(&chars, k + 1, chars.len());
                assert(left@ =~= sv.take(k as int));
                assert(right@ =~= sv.skip(k + 1));
                match (parse_unsigned_chars(&left, 0xFFFF_FFFF), parse_unsigned_chars(&right, 0xFFFF_FFFF)) {
                    (Some(n), Some(d)) => {
                        return ExifValue::Rational(n as u32, d as u32);
                    },
                    _ => {},
                }
                match (
                    parse_signed_chars(&left, 0x8000_0000, 0x7FFF_FFFF),
                    parse_signed_chars(&right, 0x8000_0000, 0x7FFF_FFFF),
                ) {
                    (Some(n), Some(d)) => {
                        return ExifValue::SRational(n as i32, d as i32);
                    },
                    _ => {},
                }
            },
            None => {},
        }
        match read_decimal_fraction(&chars) {
            Some(v) => {
                return v;
            },
            None => {},
        }
        match parse_unsigned_chars(&chars, 0xFFFF) {
            Some(v) => {
                return ExifValue::Short(v as u16);
            },
            None => {},
        }
        match parse_unsigned_chars(&chars, 0xFFFF_FFFF) {
            Some(v) => {
                return ExifValue::Long(v as u32);
            },
            None => {},
        }
        ExifValue::Ascii(String::from_str(s))
    }
}

/// The decimal rendering of a number as a `String`.
pub fn decimal_string(n: u64) -> (s: String)
    ensures
        s@ == decimal(n as nat),
{
    let mut out: Vec<char> = Vec::new();
    push_decimal(&mut out, n);
    assert(out@ =~= decimal(n as nat));
    string_from_chars(&out)
}

/// A byte list rendered as `[0A, FF]`.
pub fn hex_string(b: &Vec<u8>) -> (s: String)
    ensures
        s@ == hex_list(b@),
{
    let mut out: Vec<char> = Vec::new();
    push_hex_list(&mut out, b.as_slice());
    string_from_chars(&out)
}

// ============================================================================
// ExtensionMismatch, StatusLevel
// ============================================================================

/// A file whose extension does not match the format its bytes show.
#[derive(Debug, Clone, PartialEq)]
pub struct ExtensionMismatch {
    pub actual_format: String,
    pub extension: String,
}

impl ExtensionMismatch {
    pub fn new(actual_format: String, extension: String) -> (m: ExtensionMismatch)
        ensures
            m.actual_format@ == actual_format@,
            m.extension@ == extension@,
    {
        ExtensionMismatch { actual_format, extension }
    }
}

/// The severity of a status message.
#[derive(Debug, Clone, Copy, PartialEq, Eq, Structural)]
pub enum StatusLevel {
    Info,
    Success,
    Warning,
    Error,
}

} // verus!

verus! {

// ============================================================================
// ExifMap: the table of EXIF fields of one image
// ============================================================================

/// One field of the table.
pub type EntryView = (TagView, ValueView);

/// `s` holds `t` as a key.
pub open spec fn has_key(s: Seq<EntryView>, t: TagView) -> bool {
    exists|i: int| 0 <= i < s.len() && s[i].0 == t
}

/// The index at which `s` holds `t`.
pub open spec fn index_of_key(s: Seq<EntryView>, t: TagView) -> int {
    choose|i: int| 0 <= i < s.len() && s[i].0 == t
}

/// No key occurs twice in `s`.
pub open spec fn distinct_keys(s: Seq<EntryView>) -> bool {
    forall|i: int, j: int| 0 <= i < s.len() && 0 <= j < s.len() && i != j ==> s[i].0 != s[j].0
}

/// The value that `s` holds for `t`.
pub open spec fn lookup(s: Seq<EntryView>, t: TagView) -> Option<ValueView> {
    if has_key(s, t) {
        Some(s[index_of_key(s, t)].1)
    } else {
        None
    }
}

/// The table after setting `e.0` to `e.1`: in place when the tag is
/// present, at the end otherwise.
pub open spec fn insert_entry(s: Seq<EntryView>, e: EntryView) -> Seq<EntryView> {
    if has_key(s, e.0) {
        s.update(index_of_key(s, e.0), e)
    } else {
        s.push(e)
    }
}

/// Two tables hold the same fields, whatever their order.
pub open spec fn same_entries(a: Seq<EntryView>, b: Seq<EntryView>) -> bool {
    forall|t: TagView| #[trigger] lookup(a, t) == lookup(b, t)
}

/// In a table with distinct keys, the key at index `i` is found at `i`.
pub proof fn lemma_lookup_at(s: Seq<EntryView>, i: int)
    requires
        distinct_keys(s),
        0 <= i < s.len(),
    ensures
        has_key(s, s[i].0),
        index_of_key(s, s[i].0) == i,
        lookup(s, s[i].0) == Some(s[i].1),
{
    assert(has_key(s, s[i].0));
    let k = index_of_key(s, s[i].0);
    assert(s[k].0 == s[i].0);
}

/// Setting a field of a table with distinct keys keeps the keys distinct,
/// gives the field its new value and leaves every other field as it was.
pub proof fn lemma_insert_lookup(s: Seq<EntryView>, e: EntryView, t: TagView)
    requires
        distinct_keys(s),
    ensures
        distinct_keys(insert_entry(s, e)),
        lookup(insert_entry(s, e), t) == (if t == e.0 {
            Some(e.1)
        } else {
            lookup(s, t)
        }),
{
    let s1 = insert_entry(s, e);
    let n = s.len();
    if has_key(s, e.0) {
        let i = index_of_key(s, e.0);
        assert(forall|a: int| 0 <= a < n ==> #[trigger] s1[a].0 == s[a].0);
        assert(distinct_keys(s1));
        lemma_lookup_at(s1, i);
        if t != e.0 && has_key(s, t) {
            let j = index_of_key(s, t);
            lemma_lookup_at(s, j);
            lemma_lookup_at(s1, j);
        }
        if t != e.0 && has_key(s1, t) {
            let j = index_of_key(s1, t);
            assert(s[j].0 == t);
        }
    } else {
        assert forall|a: int, b: int| 0 <= a < s1.len() && 0 <= b < s1.len() && a != b implies s1[a].0 != s1[b].0 by {
            if a < n && b < n {
            } else if a == n {
                assert(s[b].0 != e.0);
            } else {
                assert(s[a].0 != e.0);
            }
        }
        lemma_lookup_at(s1, n as int);
        if t != e.0 && has_key(s, t) {
            let j = index_of_key(s, t);
            lemma_lookup_at(s, j);
            lemma_lookup_at(s1, j);
        }
        if t != e.0 && has_key(s1, t) {
            let j = index_of_key(s1, t);
            assert(j < n);
            assert(s[j].0 == t);
        }
    }
}

proof fn lemma_digits_concat(a: Seq<char>, b: Seq<char>)
    ensures
        digits_value(a + b) == digits_value(a) * pow10(b.len()) + digits_value(b),
    decreases b.len(),
{
    if b.len() == 0 {
        assert(a + b =~= a);
        assert(pow10(0) == 1);
        assert(digits_value(b) == 0);
        assert(digits_value(a) * 1 == digits_value(a));
    } else {
        lemma_digits_concat(a, b.drop_last());
        assert((a + b).drop_last() =~= a + b.drop_last());
        assert((a + b).last() == b.last());
        assert(digits_value(a + b) == digits_value((a + b).drop_last()) * 10 + digit_value((a + b).last()));
        assert(digits_value(b) == digits_value(b.drop_last()) * 10 + digit_value(b.last()));
        let p = pow10(b.drop_last().len());
        assert(pow10(b.len()) == 10 * p);
        assert((digits_value(a) * p + digits_value(b.drop_last())) * 10 + digit_value(b.last())
            == digits_value(a) * (10 * p) + (digits_value(b.drop_last()) * 10 + digit_value(b.last())))
            by (nonlinear_arith);
    }
}

/// A quotient shown with decimals reads back as the rational of the same
/// decimal value: `3.0` (the display of `300/100`) as `30/10`, `2.80` (the
/// display of `28/10`) as `280/100`.
pub proof fn law_decimal_display_reads_back(q: nat, f: Seq<char>)
    requires
        all_digits(f),
        1 <= f.len() <= 9,
        q * pow10(f.len()) + digits_value(f) <= u32::MAX,
    ensures
        value_from_text(decimal(q) + "."@ + f) == ValueView::Rational(
            (q * pow10(f.len()) + digits_value(f)) as u32,
            pow10(f.len()) as u32,
        ),
{
    reveal_strlit(".");
    lemma_decimal_digits(q);
    let a = decimal(q);
    let t = a + "."@ + f;
    let k = a.len() as int;
    assert forall|j: int| 0 <= j < t.len() && j != k implies t[j] != '.' && t[j] != '/' by {
        if j < k {
            assert(t[j] == a[j]);
            assert(is_digit(a[j]));
        } else {
            assert(t[j] == f[j - k - 1]);
            assert(is_digit(f[j - k - 1]));
        }
    }
    assert(t[k] == '.');
    assert(!exists|i: int| single_slash_at(t, i));
    assert(single_dot_at(t, k));
    assert(dot_index(t) == k);
    assert(t.take(k) =~= a);
    assert(t.skip(k + 1) =~= f);
    assert(t[0] == a[0]);
    assert(is_digit(a[0]));
    lemma_digits_concat(a, f);
    assert(decimal_fraction(t) == signed_fraction(false, t));
}

/// The fields of one image, each tag at most once, in insertion order.
#[derive(Debug, Clone, PartialEq)]
pub struct ExifMap {
    items: Vec<(ExifTag, ExifValue)>,
}

impl View for ExifMap {
    type V = Seq<EntryView>;

    closed spec fn view(&self) -> Seq<EntryView> {
        self.items@.map_values(|e: (ExifTag, ExifValue)| (e.0@, e.1@))
    }
}

impl ExifMap {
    /// The table keeps each tag at most once.
    pub open spec fn wf(&self) -> bool {
        distinct_keys(self@)
    }

    /// An empty table.
    pub fn new() -> (m: ExifMap)
        ensures
            m@ == Seq::<EntryView>::empty(),
            m.wf(),
    {
        let m = ExifMap { items: Vec::new() };
        assert(m@ =~= Seq::<EntryView>::empty());
        m
    }

    /// The number of fields.
    pub fn len(&self) -> (n: usize)
        ensures
            n == self@.len(),
    {
        self.items.len()
    }

    /// Whether the table is empty.
    pub fn is_empty(&self) -> (b: bool)
        ensures
            b == (self@.len() == 0),
    {
        self.items.len() == 0
    }

    /// The field at index `i`.
    pub fn entry(&self, i: usize) -> (e: (&ExifTag, &ExifValue))
        requires
            i < self@.len(),
        ensures
            e.0@ == self@[i as int].0,
            e.1@ == self@[i as int].1,
    {
        let e = &self.items[i];
        (&e.0, &e.1)
    }

    /// The index of `tag` in the table.
    pub fn position(&self, tag: &ExifTag) -> (r: Option<usize>)
        ensures
            match r {
                Some(i) => i < self@.len() && self@[i as int].0 == tag@,
                None => !has_key(self@, tag@),
            },
    {
        let mut i: usize = 0;
        while i < self.items.len()
            invariant
                i <= self.items@.len(),
                self@.len() == self.items@.len(),
                forall|j: int| 0 <= j < i ==> self@[j].0 != tag@,
            decreases self.items@.len() - i,
        {
            if self.items[i].0.same(tag) {
                return Some(i);
            }
            i = i + 1;
        }
        None
    }

    /// Whether the table holds `tag`.
    pub fn contains_key(&self, tag: &ExifTag) -> (b: bool)
        ensures
            b == has_key(self@, tag@),
    {
        self.position(tag).is_some()
    }

    /// The value held for `tag`.
    pub fn get(&self, tag: &ExifTag) -> (r: Option<&ExifValue>)
        requires
            self.wf(),
        ensures
            match r {
                Some(v) => lookup(self@, tag@) == Some(v@),
                None => lookup(self@, tag@) is None,
            },
    {
        match self.position(tag) {
            Some(i) => {
                proof {
                    lemma_lookup_at(self@, i as int);
                }
                Some(&self.items[i].1)
            },
            None => None,
        }
    }

    /// Sets the value of `tag`: in place when the tag is present, at the
    /// end otherwise. Returns the value it replaced.
    pub fn insert(&mut self, tag: ExifTag, value: ExifValue) -> (old_value: Option<ExifValue>)
        requires
            old(self).wf(),
        ensures
            final(self).wf(),
            final(self)@ == insert_entry(old(self)@, (tag@, value@)),
            has_key(old(self)@, tag@) ==> {
                &&& final(self)@ == old(self)@.update(index_of_key(old(self)@, tag@), (tag@, value@))
                &&& old_value matches Some(v) && lookup(old(self)@, tag@) == Some(v@)
            },
            !has_key(old(self)@, tag@) ==> {
                &&& final(self)@ == old(self)@.push((tag@, value@))
                &&& old_value is None
            },
    {
        match self.position(&tag) {
            Some(i) => {
                proof {
                    lemma_lookup_at(self@, i as int);
                }
                let ghost before = self@;
                let ghost tv = tag@;
                let ghost vv = value@;
                let old_entry = self.items.remove(i);
                self.items.insert(i, (tag, value));
                proof {
                    assert(self@ =~= before.update(i as int, (tv, vv)));
                }
                Some(old_entry.1)
            },
            None => {
                let ghost before = self@;
                let ghost tv = tag@;
                let ghost vv = value@;
                self.items.push((tag, value));
                proof {
                    assert(self@ =~= before.push((tv, vv)));
                }
                None
            },
        }
    }

    /// Removes `tag`, keeping the order of the other fields. Returns the
    /// value it held.
    pub fn remove(&mut self, tag: &ExifTag) -> (old_value: Option<ExifValue>)
        requires
            old(self).wf(),
        ensures
            final(self).wf(),
            has_key(old(self)@, tag@) ==> {
                &&& final(self)@ == old(self)@.remove(index_of_key(old(self)@, tag@))
                &&& old_value matches Some(v) && lookup(old(self)@, tag@) == Some(v@)
            },
            !has_key(old(self)@, tag@) ==> {
                &&& final(self)@ == old(self)@
                &&& old_value is None
            },
    {
        match self.position(tag) {
            Some(i) => {
                proof {
                    lemma_lookup_at(self@, i as int);
                }
                let ghost before = self@;
                let e = self.items.remove(i);
                proof {
                    assert(self@ =~= before.remove(i as int));
                }
                Some(e.1)
            },
            None => None,
        }
    }

    /// Removes the field at index `i`, keeping the order of the others.
    pub fn remove_at(&mut self, i: usize) -> (e: (ExifTag, ExifValue))
        requires
            old(self).wf(),
            i < old(self)@.len(),
        ensures
            final(self).wf(),
            final(self)@ == old(self)@.remove(i as int),
            (e.0@, e.1@) == old(self)@[i as int],
    {
        let ghost before = self@;
        let e = self.items.remove(i);
        proof {
            assert(self@ =~= before.remove(i as int));
            assert forall|a: int, b: int| 0 <= a < self@.len() && 0 <= b < self@.len() && a != b implies self@[a].0
                != self@[b].0 by {
                let a2 = if a < i { a } else { a + 1 };
                let b2 = if b < i { b } else { b + 1 };
                assert(self@[a] == before[a2] && self@[b] == before[b2]);
            }
        }
        e
    }

    /// A copy of the table.
    pub fn duplicate(&self) -> (m: ExifMap)
        ensures
            m@ == self@,
    {
        let mut items: Vec<(ExifTag, ExifValue)> = Vec::new();
        let mut i: usize = 0;
        while i < self.items.len()
            invariant
                i <= self.items@.len(),
                items@.len() == i,
                forall|j: int| 0 <= j < i ==> (#[trigger] items@[j]).0@ == self.items@[j].0@
                    && items@[j].1@ == self.items@[j].1@,
            decreases self.items@.len() - i,
        {
            let e = &self.items[i];
            items.push((e.0.duplicate(), e.1.duplicate()));
            i = i + 1;
        }
        let m = ExifMap { items };
        assert(m@ =~= self@);
        m
    }

    /// Every field of `self` is held by `other` with the same value.
    fn all_within(&self, other: &ExifMap) -> (b: bool)
        requires
            self.wf(),
            other.wf(),
        ensures
            b == (forall|i: int| 0 <= i < self@.len() ==> lookup(other@, #[trigger] self@[i].0) == Some(self@[i].1)),
    {
        let mut i: usize = 0;
        while i < self.items.len()
            invariant
                self.wf(),
                other.wf(),
                i <= self@.len(),
                self@.len() == self.items@.len(),
                forall|j: int| 0 <= j < i ==> lookup(other@, #[trigger] self@[j].0) == Some(self@[j].1),
            decreases self.items@.len() - i,
        {
            let e = &self.items[i];
            assert(self@[i as int] == (e.0@, e.1@));
            match other.get(&e.0) {
                Some(v) => {
                    if !v.same(&e.1) {
                        assert(lookup(other@, self@[i as int].0) != Some(self@[i as int].1));
                        return false;
                    }
                },
                None => {
                    assert(lookup(other@, self@[i as int].0) != Some(self@[i as int].1));
                    return false;
                },
            }
            i = i + 1;
        }
        true
    }

    /// Whether both tables hold the same fields, whatever their order.
    pub fn same_fields(&self, other: &ExifMap) -> (b: bool)
        requires
            self.wf(),
            other.wf(),
        ensures
            b == same_entries(self@, other@),
    {
        let a = self.all_within(other);
        let b = other.all_within(self);
        let r = a && b;
        proof {
            if r {
                assert forall|t: TagView| #[trigger] lookup(self@, t) == lookup(other@, t) by {
                    if has_key(self@, t) {
                        lemma_lookup_at(self@, index_of_key(self@, t));
                    } else if has_key(other@, t) {
                        lemma_lookup_at(other@, index_of_key(other@, t));
                    }
                }
            } else {
                if !a {
                    let i = choose|i: int| 0 <= i < self@.len() && lookup(other@, #[trigger] self@[i].0) != Some(self@[i].1);
                    lemma_lookup_at(self@, i);
                    assert(lookup(self@, self@[i].0) != lookup(other@, self@[i].0));
                } else {
                    let i = choose|i: int| 0 <= i < other@.len() && lookup(self@, #[trigger] other@[i].0) != Some(other@[i].1);
                    lemma_lookup_at(other@, i);
                    assert(lookup(self@, other@[i].0) != lookup(other@, other@[i].0));
                }
            }
        }
        r
    }
}

} // verus!
