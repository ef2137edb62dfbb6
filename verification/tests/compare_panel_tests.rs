use photo_exit::compare::{CompareState, DiffType};
use photo_exit::model::{ExifGroup, ExifMap, ExifTag, ExifValue};
use photo_exit::panel::{filter_entries, group_exif_entries, tag_to_group};

fn table(fields: &[(u16, &str, &str, ExifValue)]) -> ExifMap {
    let mut m = ExifMap::new();
    for (id, ifd, name, v) in fields {
        m.insert(ExifTag::new(*id, ifd, name), v.clone());
    }
    m
}

fn state() -> CompareState {
    let mut c = CompareState::new();
    c.left_entries = table(&[
        (0x0110, "Primary", "型号", ExifValue::Ascii("R5".into())),
        (0x010F, "Primary", "制造商", ExifValue::Ascii("Canon".into())),
        (0x8827, "ExifIFD", "ISO", ExifValue::Short(100)),
    ]);
    c.right_entries = table(&[
        (0x010F, "Primary", "制造商", ExifValue::Ascii("Canon".into())),
        (0x8827, "ExifIFD", "ISO", ExifValue::Short(200)),
        (0x0131, "Primary", "软件", ExifValue::Ascii("x".into())),
    ]);
    c
}

#[test]
fn all_tags_sorted_union() {
    let ids: Vec<u16> = state().all_tags().iter().map(|t| t.id).collect();
    assert_eq!(ids, vec![0x010F, 0x0110, 0x0131, 0x8827]);
}

#[test]
fn differences_by_kind() {
    let c = state();
    let d = c.differences();
    let kinds: Vec<(u16, DiffType)> = d.iter().map(|e| (e.tag.id, e.diff_type)).collect();
    assert_eq!(kinds, vec![(0x0110, DiffType::OnlyLeft), (0x0131, DiffType::OnlyRight), (0x8827, DiffType::Modified)]);
    assert_eq!(d[2].left, Some(ExifValue::Short(100)));
    assert_eq!(d[2].right, Some(ExifValue::Short(200)));
    assert_eq!(CompareState::count_type(&d, DiffType::Modified), 1);
    assert_eq!(CompareState::count_type(&d, DiffType::OnlyLeft), 1);
    assert_eq!(DiffType::Modified.label(), "修改");
    assert_eq!(DiffType::OnlyLeft.label(), "仅左侧");
    assert_eq!(DiffType::OnlyRight.label(), "仅右侧");
}

#[test]
fn rows_follow_the_filter() {
    let mut c = state();
    assert_eq!(c.rows().len(), 4);
    c.show_only_diff = true;
    let rows = c.rows();
    assert_eq!(rows.len(), 3);
    assert_eq!(rows[0].diff, Some(DiffType::OnlyLeft));
    assert!(rows[0].right.is_none());
}

#[test]
fn load_sides_from_bytes() {
    let mut c = CompareState::new();
    assert!(c.load_left("a.jpg".into(), b"not an image").is_err());
    assert!(c.left_path.is_none());
}

#[test]
fn groups_by_tag() {
    assert_eq!(tag_to_group(&ExifTag::new(1, "GPS", "x")), ExifGroup::GPS);
    assert_eq!(tag_to_group(&ExifTag::new(1, "Thumbnail", "x")), ExifGroup::Thumbnail);
    assert_eq!(tag_to_group(&ExifTag::new(0x829A, "ExifIFD", "x")), ExifGroup::Exposure);
    assert_eq!(tag_to_group(&ExifTag::new(0x8827, "ExifIFD", "ISO")), ExifGroup::Exposure);
    assert_eq!(tag_to_group(&ExifTag::new(0xA434, "ExifIFD", "x")), ExifGroup::Lens);
    assert_eq!(tag_to_group(&ExifTag::new(0x010F, "Primary", "x")), ExifGroup::CameraInfo);
    assert_eq!(tag_to_group(&ExifTag::new(0x9999, "Primary", "x")), ExifGroup::Other);
}

#[test]
fn grouped_in_panel_order() {
    let m = table(&[
        (0x9999, "Primary", "x", ExifValue::Short(1)),
        (2, "GPS", "纬度", ExifValue::Short(1)),
        (0x010F, "Primary", "Make", ExifValue::Short(1)),
        (0x0110, "Primary", "Model", ExifValue::Short(1)),
    ]);
    let g = group_exif_entries(&m);
    let order: Vec<(ExifGroup, usize)> = g.iter().map(|(k, v)| (*k, v.len())).collect();
    assert_eq!(order, vec![(ExifGroup::CameraInfo, 2), (ExifGroup::GPS, 1), (ExifGroup::Other, 1)]);
    let shown = filter_entries(&g[0].1, "MOD");
    assert_eq!(shown.len(), 1);
    assert_eq!(shown[0].0.name, "Model");
    assert_eq!(filter_entries(&g[0].1, "").len(), 2);
    assert_eq!(filter_entries(&g[0].1, "prim").len(), 2);
}

#[test]
fn diff_colors() {
    assert_eq!(DiffType::Modified.color(), (255, 165, 0));
    assert_eq!(DiffType::OnlyLeft.color(), (100, 149, 237));
    assert_eq!(DiffType::OnlyRight.color(), (100, 200, 100));
    let c = CompareState::default();
    assert!(c.left_path.is_none() && c.right_path.is_none());
    assert!(!c.show_only_diff && !c.active);
    assert!(c.differences().is_empty());
}

#[test]
fn load_both_sides_from_written_files() {
    let mut jpeg = vec![0xFF, 0xD8, 0xFF, 0xFE, 0x00, 102];
    jpeg.extend(std::iter::repeat(b'x').take(100));
    jpeg.extend([0xFF, 0xD9]);
    let a = photo_exit::exif::writer::ExifWriter::write(
        &jpeg,
        &table(&[(0x010F, "Primary", "制造商", ExifValue::Ascii("Canon".into()))]),
    );
    let b = photo_exit::exif::writer::ExifWriter::write(
        &jpeg,
        &table(&[(0x010F, "Primary", "制造商", ExifValue::Ascii("Nikon".into()))]),
    );
    let mut c = CompareState::new();
    assert!(c.load_left("a.jpg".into(), &a).is_ok());
    assert!(c.load_right("b.jpg".into(), &b).is_ok());
    assert_eq!(c.left_path.as_deref(), Some("a.jpg"));
    assert_eq!(c.right_path.as_deref(), Some("b.jpg"));
    let d = c.differences();
    assert_eq!(d.len(), 1);
    assert_eq!(d[0].diff_type, DiffType::Modified);
    assert_eq!(d[0].left, Some(ExifValue::Ascii("Canon".into())));
}

#[test]
fn compare_window_needs_an_image() {
    let mut c = CompareState::new();
    assert!(!c.has_images());
    c.left_path = Some("a.jpg".into());
    assert!(c.has_images());
}
