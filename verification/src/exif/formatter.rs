//! Friendlier display of common EXIF values.
use vstd::prelude::*;
use vstd::string::*;
use crate::model::{display_of, DisplayText, DisplayView, ExifValue, ValueView};
use crate::text::{decimal, push_decimal, push_str, string_from_chars};

verus! {

/// How a value is shown. Quotients are shown in binary floating point;
/// those parts are rendered by the caller.
#[derive(Debug)]
pub enum Formatted {
    /// Finished text.
    Text(String),
    /// `prefix`, the quotient `num / den` with `places` decimals, `suffix`.
    Fixed { prefix: String, num: i64, den: i64, places: u8, suffix: String },
    /// The degrees, minutes and rounded seconds of `num / den`: `D°M'S"`.
    GpsDms { num: u32, den: u32 },
    /// `D + M / 60 + S / 3600`, negated when `negative`, with six decimals,
    /// then `°` and the hemisphere letter.
    Coordinate { degrees: u32, minutes: u32, seconds: u32, negative: bool, reference: String },
}

/// The mathematical value of a formatted value.
pub enum FormattedView {
    Text(Seq<char>),
    Fixed { prefix: Seq<char>, num: int, den: int, places: u8, suffix: Seq<char> },
    GpsDms { num: u32, den: u32 },
    Coordinate { degrees: u32, minutes: u32, seconds: u32, negative: bool, reference: Seq<char> },
}

impl View for Formatted {
    type V = FormattedView;

    open spec fn view(&self) -> FormattedView {
        match self {
            Formatted::Text(s) => FormattedView::Text(s@),
            Formatted::Fixed { prefix, num, den, places, suffix } => FormattedView::Fixed {
                prefix: prefix@,
                num: *num as int,
                den: *den as int,
                places: *places,
                suffix: suffix@,
            },
            Formatted::GpsDms { num, den } => FormattedView::GpsDms { num: *num, den: *den },
            Formatted::Coordinate { degrees, minutes, seconds, negative, reference } => FormattedView::Coordinate {
                degrees: *degrees,
                minutes: *minutes,
                seconds: *seconds,
                negative: *negative,
                reference: reference@,
            },
        }
    }
}

/// A signed exposure bias `n / d` (with `d` not zero) is zero or positive,
/// and so is written with a `+`.
pub open spec fn bias_not_negative(n: i32, d: i32) -> bool {
    n == 0 || (n > 0) == (d > 0)
}

/// The plain display of a value.
pub open spec fn raw_formatted(v: ValueView) -> FormattedView {
    match display_of(v) {
        DisplayView::Text(s) => FormattedView::Text(s),
        DisplayView::TwoDecimals { num, den } => FormattedView::Fixed {
            prefix: seq![],
            num: num,
            den: den,
            places: 2,
            suffix: seq![],
        },
    }
}

/// How a value of a tag is shown: exposure time as `1/500s`, aperture as
/// `f/` and the f-number with one decimal, focal length in `mm`, exposure
/// bias in `EV` (signed or not), GPS latitude and
/// longitude in degrees, minutes and seconds, resolution in `DPI`; any
/// other tag, or a value that is not a rational, plainly.
pub open spec fn formatted_of(tag_id: u16, v: ValueView) -> FormattedView {
    if tag_id == 0x829A {
        match v {
            ValueView::Rational(n, d) => if d == 0 {
                FormattedView::Text("0s"@)
            } else if n == 1 {
                FormattedView::Text("1/"@ + decimal(d as nat) + "s"@)
            } else if n > d {
                FormattedView::Fixed { prefix: seq![], num: n as int, den: d as int, places: 1, suffix: "s"@ }
            } else {
                FormattedView::Text(decimal(n as nat) + "/"@ + decimal(d as nat) + "s"@)
            },
            _ => raw_formatted(v),
        }
    } else if tag_id == 0x829D {
        match v {
            ValueView::Rational(n, d) => if d == 0 {
                FormattedView::Text("f/0"@)
            } else {
                FormattedView::Fixed { prefix: "f/"@, num: n as int, den: d as int, places: 1, suffix: seq![] }
            },
            _ => raw_formatted(v),
        }
    } else if tag_id == 0x920A {
        match v {
            ValueView::Rational(n, d) => if d == 0 {
                FormattedView::Text("0mm"@)
            } else if n % d == 0 {
                FormattedView::Text(decimal((n / d) as nat) + "mm"@)
            } else {
                FormattedView::Fixed { prefix: seq![], num: n as int, den: d as int, places: 1, suffix: "mm"@ }
            },
            _ => raw_formatted(v),
        }
    } else if tag_id == 0x9204 {
        match v {
            ValueView::Rational(n, d) => if d == 0 {
                FormattedView::Text("0EV"@)
            } else {
                FormattedView::Fixed { prefix: "+"@, num: n as int, den: d as int, places: 1, suffix: "EV"@ }
            },
            ValueView::SRational(n, d) => if d == 0 {
                FormattedView::Text("0EV"@)
            } else {
                FormattedView::Fixed {
                    prefix: if bias_not_negative(n, d) { "+"@ } else { seq![] },
                    num: n as int,
                    den: d as int,
                    places: 1,
                    suffix: "EV"@,
                }
            },
            _ => raw_formatted(v),
        }
    } else if tag_id == 0x0002 || tag_id == 0x0004 {
        match v {
            ValueView::Rational(n, d) => if d == 0 {
                FormattedView::Text("0°"@)
            } else {
                FormattedView::GpsDms { num: n, den: d }
            },
            _ => raw_formatted(v),
        }
    } else if tag_id == 0x011A || tag_id == 0x011B {
        match v {
            ValueView::Rational(n, d) => if d == 0 {
                FormattedView::Text("0"@)
            } else {
                FormattedView::Fixed { prefix: seq![], num: n as int, den: d as int, places: 0, suffix: " DPI"@ }
            },
            _ => raw_formatted(v),
        }
    } else {
        raw_formatted(v)
    }
}

/// Whatever the tag, a rational shown as a quotient is shown with its own
/// value: the quotient handed over (`num / den`, over a denominator that is
/// not zero) equals the value `n / d`, for exposure times, apertures, focal
/// lengths, exposure biases, resolutions, GPS coordinates and the plain
/// display alike.
pub proof fn law_formatted_quotient_is_the_value(tag_id: u16, v: ValueView)
    ensures
        match (formatted_of(tag_id, v), v) {
            (FormattedView::Fixed { num, den, .. }, ValueView::Rational(n, d)) => den != 0 && num * d == den * n,
            (FormattedView::Fixed { num, den, .. }, ValueView::SRational(n, d)) => den != 0 && num * d == den * n,
            (FormattedView::GpsDms { num, den }, ValueView::Rational(n, d)) => den != 0 && num * d == den * n,
            _ => true,
        },
{
    match v {
        ValueView::Rational(n, d) => {
            assert(n * d == d * n) by (nonlinear_arith);
        },
        ValueView::SRational(n, d) => {
            assert(n * d == d * n) by (nonlinear_arith);
        },
        _ => {},
    }
}

/// The value formatter.
pub struct ExifFormatter;

fn text(s: &str) -> (r: Formatted)
    ensures
        r@ == FormattedView::Text(s@),
{
    Formatted::Text(String::from_str(s))
}

impl ExifFormatter {
    /// A coordinate given in degrees, minutes and seconds with its
    /// hemisphere (`N`, `S`, `E`, `W`): as decimal degrees, negative in the
    /// south and west.
    pub fn format_gps_dms(d: u32, m: u32, s: u32, ref_str: &str) -> (r: Formatted)
        ensures
            r@ == (FormattedView::Coordinate {
                degrees: d,
                minutes: m,
                seconds: s,
                negative: ref_str@ == "S"@ || ref_str@ == "W"@,
                reference: ref_str@,
            }),
    {
        proof {
            reveal_strlit("S");
            reveal_strlit("W");
        }
        let negative = crate::text::text_equal(ref_str, "S") || crate::text::text_equal(ref_str, "W");
        Formatted::Coordinate { degrees: d, minutes: m, seconds: s, negative, reference: String::from_str(ref_str) }
    }

    /// How a value of a tag is shown.
    pub fn format(tag_id: u16, value: &ExifValue) -> (r: Formatted)
        ensures
            r@ == formatted_of(tag_id, value@),
    {
        match tag_id {
            0x829A => Self::format_exposure_time(value),
            0x829D => Self::format_aperture(value),
            0x920A => Self::format_focal_length(value),
            0x9204 => Self::format_exposure_bias(value),
            0x0002 | 0x0004 => Self::format_gps_coord(value),
            0x011A | 0x011B => Self::format_resolution(value),
            _ => Self::raw(value),
        }
    }

    fn raw(value: &ExifValue) -> (r: Formatted)
        ensures
            r@ == raw_formatted(value@),
    {
        match value.to_display_string() {
            DisplayText::Text(s) => Formatted::Text(s),
            DisplayText::TwoDecimals { num, den } => Formatted::Fixed {
                prefix: String::new(),
                num,
                den,
                places: 2,
                suffix: String::new(),
            },
        }
    }

    fn format_exposure_time(value: &ExifValue) -> (r: Formatted)
        ensures
            r@ == formatted_of(0x829A, value@),
    {
        match value {
            ExifValue::Rational(n, d) => {
                if *d == 0 {
                    return text("0s");
                }
                let mut out: Vec<char> = Vec::new();
                if *n == 1 {
                    push_str(&mut out, "1/");
                    push_decimal(&mut out, *d as u64);
                    push_str(&mut out, "s");
                    assert(out@ =~= "1/"@ + decimal(*d as nat) + "s"@);
                    Formatted::Text(string_from_chars(&out))
                } else if *n > *d {
                    Formatted::Fixed { prefix: String::new(), num: *n as i64, den: *d as i64, places: 1, suffix: String::from_str("s") }
                } else {
                    push_decimal(&mut out, *n as u64);
                    push_str(&mut out, "/");
                    push_decimal(&mut out, *d as u64);
                    push_str(&mut out, "s");
                    assert(out@ =~= decimal(*n as nat) + "/"@ + decimal(*d as nat) + "s"@);
                    Formatted::Text(string_from_chars(&out))
                }
            },
            _ => Self::raw(value),
        }
    }

    fn format_aperture(value: &ExifValue) -> (r: Formatted)
        ensures
            r@ == formatted_of(0x829D, value@),
    {
        match value {
            ExifValue::Rational(n, d) => {
                if *d == 0 {
                    text("f/0")
                } else {
                    Formatted::Fixed { prefix: String::from_str("f/"), num: *n as i64, den: *d as i64, places: 1, suffix: String::new() }
                }
            },
            _ => Self::raw(value),
        }
    }

    fn format_focal_length(value: &ExifValue) -> (r: Formatted)
        ensures
            r@ == formatted_of(0x920A, value@),
    {
        match value {
            ExifValue::Rational(n, d) => {
                if *d == 0 {
                    text("0mm")
                } else if *n % *d == 0 {
                    let mut out: Vec<char> = Vec::new();
                    push_decimal(&mut out, (*n / *d) as u64);
                    push_str(&mut out, "mm");
                    assert(out@ =~= decimal((*n / *d) as nat) + "mm"@);
                    Formatted::Text(string_from_chars(&out))
                } else {
                    Formatted::Fixed { prefix: String::new(), num: *n as i64, den: *d as i64, places: 1, suffix: String::from_str("mm") }
                }
            },
            _ => Self::raw(value),
        }
    }

    fn format_exposure_bias(value: &ExifValue) -> (r: Formatted)
        ensures
            r@ == formatted_of(0x9204, value@),
    {
        match value {
            ExifValue::Rational(n, d) => {
                if *d == 0 {
                    text("0EV")
                } else {
                    Formatted::Fixed { prefix: String::from_str("+"), num: *n as i64, den: *d as i64, places: 1, suffix: String::from_str("EV") }
                }
            },
            ExifValue::SRational(n, d) => {
                if *d == 0 {
                    text("0EV")
                } else {
                    let prefix = if *n == 0 || (*n > 0) == (*d > 0) { String::from_str("+") } else { String::new() };
                    Formatted::Fixed { prefix, num: *n as i64, den: *d as i64, places: 1, suffix: String::from_str("EV") }
                }
            },
            _ => Self::raw(value),
        }
    }

    fn format_gps_coord(value: &ExifValue) -> (r: Formatted)
        ensures
            r@ == formatted_of(0x0002, value@),
    {
        match value {
            ExifValue::Rational(n, d) => {
                if *d == 0 {
                    text("0°")
                } else {
                    Formatted::GpsDms { num: *n, den: *d }
                }
            },
            _ => Self::raw(value),
        }
    }

    fn format_resolution(value: &ExifValue) -> (r: Formatted)
        ensures
            r@ == formatted_of(0x011A, value@),
    {
        match value {
            ExifValue::Rational(n, d) => {
                if *d == 0 {
                    text("0")
                } else {
                    Formatted::Fixed { prefix: String::new(), num: *n as i64, den: *d as i64, places: 0, suffix: String::from_str(" DPI") }
                }
            },
            _ => Self::raw(value),
        }
    }
}

} // verus!
