use photo_exit::exif::reader::{ExifReader, TagContext};
use photo_exit::exif::repair::{ExifHealth, ExifRepairer, RepairError};
use photo_exit::exif::validator::{DetectError, ExifValidator, ImageFormatKind};
use photo_exit::exif::writer::{ExifWriter, StripError, WrittenFileError};
use photo_exit::model::{ExifMap, ExifTag, ExifValue};

/// A small JPEG: start-of-image, a 100-byte comment, end-of-image.
fn plain_jpeg() -> Vec<u8> {
    let mut v = vec![0xFF, 0xD8, 0xFF, 0xFE, 0x00, 102];
    v.extend(std::iter::repeat(b'x').take(100));
    v.extend([0xFF, 0xD9]);
    v
}

fn sample_table() -> ExifMap {
    let mut m = ExifMap::new();
    m.insert(ExifTag::new(0x010F, "Primary", "制造商"), ExifValue::Ascii("Canon".into()));
    m.insert(ExifTag::new(0x0112, "Primary", "方向"), ExifValue::Short(6));
    m
}

#[test]
fn write_then_read_back() {
    let entries = sample_table();
    assert!(ExifWriter::payload_fits(&entries));
    let out = ExifWriter::write(&plain_jpeg(), &entries);
    assert_eq!(&out[0..4], &[0xFF, 0xD8, 0xFF, 0xE1]);
    assert!(ExifWriter::validate_written_file(&out).is_ok());
    let read = ExifReader::read(&out).expect("exif");
    let mut make = None;
    let mut orientation = None;
    for i in 0..read.len() {
        let (t, v) = read.entry(i);
        if t.id == 0x010F {
            make = Some(v.clone());
            assert_eq!(t.ifd, "Primary");
        }
        if t.id == 0x0112 {
            orientation = Some(v.clone());
        }
    }
    assert_eq!(make, Some(ExifValue::Ascii("Canon".into())));
    // The entry's count is its byte length, so a SHORT comes back as two
    // values and reads as their bytes.
    assert_eq!(orientation, Some(ExifValue::Slice(vec![6, 0, 0, 0])));
}

#[test]
fn strip_removes_exif() {
    let out = ExifWriter::write(&plain_jpeg(), &sample_table());
    let stripped = ExifWriter::strip_exif(&out).expect("jpeg");
    assert_eq!(stripped, plain_jpeg());
    assert!(ExifReader::read(&stripped).is_err());
    let again = ExifWriter::strip_exif(&stripped).expect("jpeg");
    assert_eq!(again, stripped);
}

#[test]
fn strip_refuses_non_jpeg() {
    match ExifWriter::strip_exif(b"GIF89a") {
        Err(e) => {
            assert_eq!(e, StripError::NotJpeg);
            assert_eq!(e.message(), "仅支持 JPEG 格式");
        }
        Ok(_) => panic!("not a jpeg"),
    }
}

#[test]
fn merge_replaces_old_exif() {
    let once = ExifWriter::write(&plain_jpeg(), &sample_table());
    let mut other = ExifMap::new();
    other.insert(ExifTag::new(0x0131, "Primary", "软件"), ExifValue::Ascii("x".into()));
    let twice = ExifWriter::write(&once, &other);
    let read = ExifReader::read(&twice).expect("exif");
    for i in 0..read.len() {
        assert_ne!(read.entry(i).0.id, 0x010F);
    }
    assert_eq!(ExifWriter::merge_exif(b"not jpeg", b"Exif\0\0"), b"not jpeg".to_vec());
}

#[test]
fn value_bytes_little_endian() {
    assert_eq!(ExifWriter::value_to_bytes(&ExifValue::Short(0x0102)), (3, vec![0x02, 0x01]));
    assert_eq!(ExifWriter::value_to_bytes(&ExifValue::Ascii("ab".into())), (2, vec![b'a', b'b', 0]));
    assert_eq!(
        ExifWriter::value_to_bytes(&ExifValue::Rational(1, 2)),
        (5, vec![1, 0, 0, 0, 2, 0, 0, 0])
    );
}

#[test]
fn written_file_checks() {
    assert_eq!(ExifWriter::validate_written_file(&[]), Err(WrittenFileError::Empty));
    assert_eq!(ExifWriter::validate_written_file(&[0xFF, 0xD8]), Err(WrittenFileError::TooSmall));
    assert_eq!(ExifWriter::validate_written_file(&[0u8; 120]), Err(WrittenFileError::BadFormat));
    let mut png = vec![0x89, 0x50, 0x4E, 0x47];
    png.extend([0u8; 100]);
    assert_eq!(ExifWriter::validate_written_file(&png), Ok(()));
    assert_eq!(ExifWriter::tmp_path("/p/a.jpg"), "/p/a.jpg.tmp");
}

#[test]
fn format_detection() {
    let g = ExifValidator::detect_format(&plain_jpeg()).expect("known").expect("long enough");
    assert_eq!(g.kind, ImageFormatKind::Jpeg);
    assert_eq!(g.extensions, vec!["jpg".to_string(), "jpeg".to_string()]);
    assert!(matches!(ExifValidator::detect_format(b"hello there"), Err(DetectError::Unsupported)));
    assert!(matches!(ExifValidator::detect_format(b"x"), Ok(None)));
    let m = ExifValidator::check_extension(&plain_jpeg(), "png").expect("mismatch");
    assert_eq!(m.actual_format, "JPEG");
    assert_eq!(m.extension, ".png");
    assert!(ExifValidator::check_extension(&plain_jpeg(), "JPG").is_none());
    let none = ExifValidator::check_extension(&plain_jpeg(), "").expect("mismatch");
    assert_eq!(none.extension, "(无)");
    assert!(ExifValidator::check_extension(b"hello there", "png").is_none());
    assert_eq!(ExifValidator::format_name(ImageFormatKind::Png), "PNG");
    assert_eq!(ExifValidator::format_name(ImageFormatKind::Other), "Unknown");
}

#[test]
fn repair_trims_garbage() {
    let data = vec![0xFF, 0xD8, 0xFF, 0xD9, 0x00, 0x00];
    let (fixed, result) = ExifRepairer::repair(&data).expect("repairable");
    assert_eq!(fixed, vec![0xFF, 0xD8, 0xFF, 0xD9]);
    assert_eq!(result.bytes_saved, 2);
    assert_eq!(result.repairs[0], "移除尾部垃圾数据 (2 字节)");
    assert!(ExifRepairer::check_format(&fixed));
    assert!(ExifRepairer::check_markers(&fixed));
}

#[test]
fn repair_refuses_non_jpeg() {
    match ExifRepairer::repair(b"PNG data") {
        Err(e) => {
            assert_eq!(e, RepairError::NotJpeg);
            assert_eq!(e.message(), "仅支持 JPEG 格式的修复");
        }
        Ok(_) => panic!("not a jpeg"),
    }
}

#[test]
fn health_of_files() {
    let h = ExifRepairer::validate(&ExifWriter::write(&plain_jpeg(), &sample_table()));
    assert!(h.format_valid && h.jfif_valid && h.exif_valid);
    assert_eq!(h.score, ExifRepairer::calculate_score(&h));
    let bad = ExifRepairer::validate(b"nothing");
    assert!(!bad.format_valid);
    assert!(bad.score <= 50);
    let label = |score| ExifHealth { score, format_valid: true, jfif_valid: true, exif_valid: true, marker_valid: true }.status_label();
    assert_eq!(label(95), "✅ 良好");
    assert_eq!(label(70), "⚠️ 轻微损坏");
    assert_eq!(label(50), "⚠️ 损坏");
    assert_eq!(label(10), "❌ 严重损坏");
}

#[test]
fn reader_names() {
    assert_eq!(ExifReader::tag_name(TagContext::Tiff, 0x010F), "制造商");
    assert_eq!(ExifReader::tag_name(TagContext::Exif, 0x829D), "光圈值");
    assert_eq!(ExifReader::ifd_name(0), "Primary");
    assert_eq!(ExifReader::ifd_name(3), "GPS");
    assert_eq!(ExifReader::ifd_name(7), "IFD7");
    assert!(ExifReader::read(b"not an image").is_err());
}

#[test]
fn cleaning_and_health_of_short_or_other_files() {
    // An end-of-image marker too close to the end to hold a length ends the
    // walk before it is looked at.
    assert_eq!(ExifRepairer::clean_malformed_segments(&[0xFF, 0xD8, 0xFF, 0xD9]), vec![0xFF, 0xD8]);
    // The JPEG checks are run on JPEG files only.
    let mut png = vec![0x89, 0x50, 0x4E, 0x47];
    png.extend([0u8; 20]);
    let h = ExifRepairer::validate(&png);
    assert!(h.format_valid && !h.jfif_valid && !h.exif_valid && !h.marker_valid);
    assert_eq!(h.score, 50);
}
