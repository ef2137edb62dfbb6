use photo_exit::model::{DisplayText, ExifGroup, ExifMap, ExifTag, ExifValue, ExtensionMismatch};
use photo_exit::exif::formatter::{ExifFormatter, Formatted};

fn text_of(d: DisplayText) -> String {
    match d {
        DisplayText::Text(s) => s,
        DisplayText::TwoDecimals { num, den } => panic!("not text: {}/{}", num, den),
    }
}

#[test]
fn group_labels_and_expansion() {
    assert_eq!(ExifGroup::CameraInfo.label(), "相机信息");
    assert_eq!(ExifGroup::GPS.label(), "GPS");
    assert_eq!(ExifGroup::Other.label(), "其他");
    assert!(ExifGroup::Lens.default_expanded());
    assert!(!ExifGroup::Thumbnail.default_expanded());
    assert!(!ExifGroup::Other.default_expanded());
}

#[test]
fn tag_new_keeps_parts() {
    let t = ExifTag::new(0x010F, "Primary", "制造商");
    assert_eq!(t.id, 0x010F);
    assert_eq!(t.ifd, "Primary");
    assert_eq!(t.name, "制造商");
}

#[test]
fn display_of_each_kind() {
    assert_eq!(text_of(ExifValue::Byte(vec![0x0A, 0xFF]).to_display_string()), "[0A, FF]");
    assert_eq!(text_of(ExifValue::Ascii("Canon".to_string()).to_display_string()), "Canon");
    assert_eq!(text_of(ExifValue::Short(100).to_display_string()), "100");
    assert_eq!(text_of(ExifValue::Long(70000).to_display_string()), "70000");
    assert_eq!(text_of(ExifValue::Rational(300, 100).to_display_string()), "3.0");
    assert_eq!(text_of(ExifValue::Rational(28, 1).to_display_string()), "28");
    assert_eq!(text_of(ExifValue::Rational(5, 0).to_display_string()), "5/0");
    assert_eq!(text_of(ExifValue::SRational(-3, 0).to_display_string()), "-3/0");
    assert_eq!(text_of(ExifValue::SRational(-7, 1).to_display_string()), "-7");
    match ExifValue::Rational(28, 10).to_display_string() {
        DisplayText::TwoDecimals { num, den } => {
            assert_eq!(num, 28);
            assert_eq!(den, 10);
        }
        _ => panic!("expected a quotient"),
    }
}

#[test]
fn from_string_kinds() {
    assert_eq!(ExifValue::from_string("28/10"), ExifValue::Rational(28, 10));
    assert_eq!(ExifValue::from_string("-1/3"), ExifValue::SRational(-1, 3));
    assert_eq!(ExifValue::from_string("100"), ExifValue::Short(100));
    assert_eq!(ExifValue::from_string("70000"), ExifValue::Long(70000));
    assert_eq!(ExifValue::from_string("5000000000"), ExifValue::Ascii("5000000000".to_string()));
    assert_eq!(ExifValue::from_string("Canon"), ExifValue::Ascii("Canon".to_string()));
    assert_eq!(ExifValue::from_string("1/2/3"), ExifValue::Ascii("1/2/3".to_string()));
    assert_eq!(ExifValue::from_string("+7"), ExifValue::Short(7));
}

#[test]
fn display_round_trip() {
    for v in [
        ExifValue::Short(65535),
        ExifValue::Long(65536),
        ExifValue::Rational(9, 0),
        ExifValue::SRational(-4, 0),
        ExifValue::Ascii("hello".to_string()),
    ] {
        let shown = text_of(v.to_display_string());
        assert_eq!(ExifValue::from_string(&shown), v);
    }
    // A long that fits 16 bits reads back as a short.
    assert_eq!(ExifValue::from_string(&text_of(ExifValue::Long(5).to_display_string())), ExifValue::Short(5));
}

#[test]
fn extension_mismatch_new() {
    let m = ExtensionMismatch::new("JPEG".to_string(), ".png".to_string());
    assert_eq!(m.actual_format, "JPEG");
    assert_eq!(m.extension, ".png");
}

#[test]
fn map_insert_get_remove() {
    let mut m = ExifMap::new();
    assert!(m.is_empty());
    let a = ExifTag::new(1, "GPS", "a");
    let b = ExifTag::new(2, "GPS", "b");
    assert!(m.insert(a.clone(), ExifValue::Short(1)).is_none());
    assert!(m.insert(b.clone(), ExifValue::Short(2)).is_none());
    assert_eq!(m.insert(a.clone(), ExifValue::Short(3)), Some(ExifValue::Short(1)));
    assert_eq!(m.len(), 2);
    assert_eq!(m.get(&a), Some(&ExifValue::Short(3)));
    let (first, _) = m.entry(0);
    assert_eq!(first, &a);
    assert_eq!(m.remove(&a), Some(ExifValue::Short(3)));
    assert_eq!(m.remove(&a), None);
    assert!(!m.contains_key(&a));
    assert!(m.contains_key(&b));
}

#[test]
fn map_same_fields_ignores_order() {
    let mut x = ExifMap::new();
    let mut y = ExifMap::new();
    x.insert(ExifTag::new(1, "A", "a"), ExifValue::Short(1));
    x.insert(ExifTag::new(2, "A", "b"), ExifValue::Short(2));
    y.insert(ExifTag::new(2, "A", "b"), ExifValue::Short(2));
    y.insert(ExifTag::new(1, "A", "a"), ExifValue::Short(1));
    assert!(x.same_fields(&y));
    y.insert(ExifTag::new(1, "A", "a"), ExifValue::Short(9));
    assert!(!x.same_fields(&y));
}

fn formatted_text(f: Formatted) -> String {
    match f {
        Formatted::Text(s) => s,
        other => panic!("not text: {:?}", other),
    }
}

#[test]
fn formatter_exact_cases() {
    assert_eq!(formatted_text(ExifFormatter::format(0x829A, &ExifValue::Rational(1, 500))), "1/500s");
    assert_eq!(formatted_text(ExifFormatter::format(0x829A, &ExifValue::Rational(3, 0))), "0s");
    assert_eq!(formatted_text(ExifFormatter::format(0x829A, &ExifValue::Rational(3, 10))), "3/10s");
    assert_eq!(formatted_text(ExifFormatter::format(0x829D, &ExifValue::Rational(3, 0))), "f/0");
    assert_eq!(formatted_text(ExifFormatter::format(0x920A, &ExifValue::Rational(3, 0))), "0mm");
    assert_eq!(formatted_text(ExifFormatter::format(0x9204, &ExifValue::Rational(3, 0))), "0EV");
    assert_eq!(formatted_text(ExifFormatter::format(0x0002, &ExifValue::Rational(3, 0))), "0°");
    assert_eq!(formatted_text(ExifFormatter::format(0x011A, &ExifValue::Rational(3, 0))), "0");
    assert_eq!(formatted_text(ExifFormatter::format(0x8827, &ExifValue::Short(400))), "400");
    match ExifFormatter::format(0x829D, &ExifValue::Rational(28, 10)) {
        Formatted::Fixed { prefix, num, den, places, suffix } => {
            assert_eq!((prefix.as_str(), num, den, places, suffix.as_str()), ("f/", 28, 10, 1, ""));
        }
        other => panic!("{:?}", other),
    }
    match ExifFormatter::format(0x9204, &ExifValue::SRational(-1, 3)) {
        Formatted::Fixed { prefix, num, den, places, suffix } => {
            assert_eq!((prefix.as_str(), num, den, places, suffix.as_str()), ("", -1, 3, 1, "EV"));
        }
        other => panic!("{:?}", other),
    }
    match ExifFormatter::format(0x9204, &ExifValue::SRational(2, 3)) {
        Formatted::Fixed { prefix, .. } => assert_eq!(prefix, "+"),
        other => panic!("{:?}", other),
    }
    assert_eq!(formatted_text(ExifFormatter::format(0x9204, &ExifValue::SRational(2, 0))), "0EV");
}

#[test]
fn formatter_gps_dms() {
    match ExifFormatter::format_gps_dms(31, 30, 0, "S") {
        Formatted::Coordinate { degrees, minutes, seconds, negative, reference } => {
            assert_eq!((degrees, minutes, seconds), (31, 30, 0));
            assert!(negative);
            assert_eq!(reference, "S");
        }
        other => panic!("{:?}", other),
    }
    match ExifFormatter::format_gps_dms(1, 2, 3, "N") {
        Formatted::Coordinate { negative, .. } => assert!(!negative),
        other => panic!("{:?}", other),
    }
}

#[test]
fn decimal_text_reads_back_as_rational() {
    assert_eq!(ExifValue::from_string("2.80"), ExifValue::Rational(280, 100));
    assert_eq!(ExifValue::from_string("2.8"), ExifValue::Rational(28, 10));
    assert_eq!(ExifValue::from_string("-0.33"), ExifValue::SRational(-33, 100));
    assert_eq!(ExifValue::from_string("1.2.3"), ExifValue::Ascii("1.2.3".to_string()));
    assert_eq!(ExifValue::from_string("1.0123456789"), ExifValue::Ascii("1.0123456789".to_string()));
    let shown = text_of(ExifValue::Rational(300, 100).to_display_string());
    assert_eq!(ExifValue::from_string(&shown), ExifValue::Rational(30, 10));
}
