use photo_exit::model::{ExifMap, ExifTag, ExifValue, StatusLevel};
use photo_exit::session::{AppState, ClearMode, FileOps, FolderEntry, UNDO_LIMIT};

fn status(app: &AppState) -> (String, StatusLevel) {
    app.status_message.clone().expect("a status")
}

fn table(fields: &[(u16, &str, &str, ExifValue)]) -> ExifMap {
    let mut m = ExifMap::new();
    for (id, ifd, name, v) in fields {
        m.insert(ExifTag::new(*id, ifd, name), v.clone());
    }
    m
}

fn opened(fields: &[(u16, &str, &str, ExifValue)]) -> AppState {
    let mut app = AppState::new();
    FileOps::open_file(&mut app, "/photos/a.jpg", [640, 480], table(fields), None);
    app
}

#[test]
fn new_session_is_empty() {
    let app = AppState::new();
    assert!(app.file_paths.is_empty());
    assert!(app.exif_entries.is_empty());
    assert!(app.status_message.is_none());
    assert_eq!(app.expanded_groups.len(), 6);
    assert!(app.current_path().is_none());
}

#[test]
fn open_file_sets_table_and_status() {
    let app = opened(&[(0x010F, "Primary", "制造商", ExifValue::Ascii("Canon".into()))]);
    assert_eq!(app.exif_entries.len(), 1);
    assert_eq!(app.original_exif.len(), 1);
    assert_eq!(app.image_size, Some([640, 480]));
    assert_eq!(status(&app), ("已打开: /photos/a.jpg".to_string(), StatusLevel::Success));
    assert!(!app.has_unsaved_changes());
}

#[test]
fn edit_then_undo_restores() {
    let mut app = opened(&[(0x010F, "Primary", "制造商", ExifValue::Ascii("Canon".into()))]);
    let tag = ExifTag::new(0x010F, "Primary", "制造商");
    app.set_field(tag.clone(), ExifValue::Ascii("Nikon".into()));
    assert!(app.has_unsaved_changes());
    assert_eq!(app.undo_stack.len(), 1);
    assert!(app.undo());
    assert_eq!(app.exif_entries.get(&tag), Some(&ExifValue::Ascii("Canon".into())));
    assert!(!app.has_unsaved_changes());
    assert!(!app.undo());
}

#[test]
fn undo_of_new_field_leaves_empty_text() {
    let mut app = opened(&[]);
    let tag = ExifTag::new(0x9003, "ExifIFD", "拍摄时间");
    app.set_field(tag.clone(), ExifValue::Ascii("2024:01:01 12:00:00".into()));
    assert!(app.undo());
    assert_eq!(app.exif_entries.get(&tag), Some(&ExifValue::Ascii(String::new())));
}

#[test]
fn undo_stack_keeps_last_fifty() {
    let mut app = opened(&[]);
    let tag = ExifTag::new(1, "A", "a");
    for i in 0..60u16 {
        app.push_undo(tag.clone(), ExifValue::Short(i), ExifValue::Short(i + 1));
    }
    assert_eq!(app.undo_stack.len(), UNDO_LIMIT);
    assert_eq!(app.undo_stack[0].1, ExifValue::Short(10));
}

#[test]
fn changes_list_edits_additions_and_deletions() {
    let mut app = opened(&[
        (1, "A", "a", ExifValue::Short(1)),
        (2, "A", "b", ExifValue::Short(2)),
    ]);
    assert!(app.get_changes().is_empty());
    app.set_field(ExifTag::new(1, "A", "a"), ExifValue::Short(5));
    app.set_field(ExifTag::new(3, "A", "c"), ExifValue::Short(3));
    app.exif_entries.remove(&ExifTag::new(2, "A", "b"));
    let changes = app.get_changes();
    assert_eq!(changes.len(), 3);
    assert_eq!(changes[0], (ExifTag::new(1, "A", "a"), ExifValue::Short(1), ExifValue::Short(5)));
    assert_eq!(changes[1], (ExifTag::new(3, "A", "c"), ExifValue::Ascii(String::new()), ExifValue::Short(3)));
    assert_eq!(changes[2], (ExifTag::new(2, "A", "b"), ExifValue::Short(2), ExifValue::Ascii(String::new())));
}

#[test]
fn reset_drops_edits() {
    let mut app = opened(&[(1, "A", "a", ExifValue::Short(1))]);
    app.set_field(ExifTag::new(1, "A", "a"), ExifValue::Short(5));
    FileOps::reset_exif(&mut app);
    assert!(!app.has_unsaved_changes());
    assert!(app.get_changes().is_empty());
    assert!(app.undo_stack.is_empty());
    assert_eq!(status(&app), ("已重置为原始 EXIF".to_string(), StatusLevel::Info));
}

#[test]
fn save_asks_only_with_changes() {
    let mut app = opened(&[(1, "A", "a", ExifValue::Short(1))]);
    FileOps::save_exif(&mut app);
    assert!(!app.pending_save);
    assert_eq!(status(&app), ("没有需要保存的更改".to_string(), StatusLevel::Info));
    app.set_field(ExifTag::new(1, "A", "a"), ExifValue::Short(2));
    FileOps::save_exif(&mut app);
    assert!(app.pending_save);
    FileOps::do_save(&mut app);
    assert!(!app.has_unsaved_changes());
    assert_eq!(status(&app), ("保存成功".to_string(), StatusLevel::Success));
}

#[test]
fn clear_gps_keeps_other_fields() {
    let mut app = opened(&[
        (2, "GPS", "纬度", ExifValue::Rational(31, 1)),
        (0x010F, "Primary", "制造商", ExifValue::Ascii("Canon".into())),
        (4, "GPS", "经度", ExifValue::Rational(121, 1)),
    ]);
    FileOps::clear_exif(&mut app, ClearMode::GPS);
    assert_eq!(app.exif_entries.len(), 1);
    assert!(app.exif_entries.contains_key(&ExifTag::new(0x010F, "Primary", "制造商")));
    assert_eq!(app.undo_stack.len(), 2);
    assert_eq!(status(&app), ("已清除 GPS 字段".to_string(), StatusLevel::Success));
}

#[test]
fn clear_privacy_and_all() {
    let fields = [
        (0x8298, "Primary", "版权", ExifValue::Ascii("me".into())),
        (0xA435, "ExifIFD", "镜头序列号", ExifValue::Ascii("123".into())),
        (0x010F, "Primary", "制造商", ExifValue::Ascii("Canon".into())),
    ];
    let mut app = opened(&fields);
    FileOps::clear_exif(&mut app, ClearMode::Privacy);
    assert_eq!(app.exif_entries.len(), 1);
    assert_eq!(status(&app).0, "已清除隐私字段");
    let mut app = opened(&fields);
    FileOps::clear_exif(&mut app, ClearMode::All);
    assert!(app.exif_entries.is_empty());
    assert_eq!(app.undo_stack.len(), 3);
    assert_eq!(status(&app).0, "已清除所有 EXIF 字段");
}

#[test]
fn delete_selected_records_undo() {
    let mut app = opened(&[(1, "A", "a", ExifValue::Short(1)), (2, "A", "b", ExifValue::Short(2))]);
    app.set_selected(&ExifTag::new(1, "A", "a"), true);
    app.set_selected(&ExifTag::new(9, "A", "z"), true);
    FileOps::delete_selected(&mut app);
    assert!(app.selected_tags.is_empty());
    assert_eq!(app.exif_entries.len(), 1);
    assert_eq!(app.undo_stack.len(), 1);
    assert_eq!(status(&app).0, "已删除选中的字段");
}

#[test]
fn selection_toggles() {
    let mut app = opened(&[]);
    let t = ExifTag::new(1, "A", "a");
    app.set_selected(&t, true);
    app.set_selected(&t, true);
    assert_eq!(app.selected_tags.len(), 1);
    app.set_selected(&t, false);
    assert!(app.selected_tags.is_empty());
}

#[test]
fn privacy_risks_by_name() {
    let app = opened(&[
        (2, "GPS", "GPSLatitude", ExifValue::Short(1)),
        (0xA431, "ExifIFD", "BodySerialNumber", ExifValue::Short(1)),
        (0x010F, "Primary", "Make", ExifValue::Short(1)),
    ]);
    let risks = app.has_privacy_risk();
    assert_eq!(risks, vec!["GPS: GPSLatitude".to_string(), "序列号: BodySerialNumber".to_string()]);
}

#[test]
fn open_folder_filters_and_sorts() {
    let mut app = AppState::new();
    let listing = vec![
        FolderEntry { path: "/p/b.JPG".into(), extension: Some("JPG".into()) },
        FolderEntry { path: "/p/notes.txt".into(), extension: Some("txt".into()) },
        FolderEntry { path: "/p/a.png".into(), extension: Some("png".into()) },
        FolderEntry { path: "/p/README".into(), extension: None },
    ];
    let first = FileOps::open_folder(&mut app, "/p".into(), listing);
    assert_eq!(first, Some("/p/a.png".to_string()));
    assert_eq!(app.file_paths, vec!["/p/a.png".to_string(), "/p/b.JPG".to_string()]);
    assert_eq!(app.folder_path, Some("/p".to_string()));
}

#[test]
fn open_folder_without_images_warns() {
    let mut app = AppState::new();
    let listing = vec![FolderEntry { path: "/p/x.txt".into(), extension: Some("txt".into()) }];
    assert_eq!(FileOps::open_folder(&mut app, "/p".into(), listing), None);
    assert_eq!(status(&app), ("文件夹中没有支持的图片文件".to_string(), StatusLevel::Warning));
    assert!(app.folder_path.is_none());
}

#[test]
fn navigation_and_unsaved_guard() {
    let mut app = AppState::new();
    app.file_paths = vec!["/p/1.jpg".into(), "/p/2.jpg".into(), "/p/3.jpg".into()];
    assert_eq!(FileOps::prev_image(&mut app), None);
    assert_eq!(FileOps::next_image(&mut app), Some("/p/2.jpg".to_string()));
    assert_eq!(FileOps::next_image(&mut app), Some("/p/3.jpg".to_string()));
    assert_eq!(FileOps::next_image(&mut app), None);
    assert_eq!(FileOps::select_thumbnail(&mut app, 0), Some("/p/1.jpg".to_string()));
    assert_eq!(FileOps::select_thumbnail(&mut app, 7), None);
    app.set_field(ExifTag::new(1, "A", "a"), ExifValue::Short(1));
    assert_eq!(FileOps::next_image(&mut app), None);
    assert_eq!(app.current_index, 0);
    assert_eq!(status(&app), ("有未保存的更改，请先保存或重置".to_string(), StatusLevel::Warning));
}

#[test]
fn rename_name_from_exif() {
    let app0 = opened(&[
        (0x9003, "ExifIFD", "拍摄时间", ExifValue::Ascii("2024:01:02 13:14:15".into())),
        (0x8827, "ExifIFD", "ISO", ExifValue::Short(100)),
        (0x829D, "ExifIFD", "光圈值", ExifValue::Rational(28, 0)),
    ]);
    let mut app = app0;
    let shown = vec!["2024:01:02 13:14:15".to_string(), "100".to_string(), "28/0".to_string()];
    assert_eq!(FileOps::rename_by_exif(&mut app, &shown), Some("20240102_131415_ISO100_f28/0".to_string()));
    let mut empty = opened(&[(0x010F, "Primary", "制造商", ExifValue::Ascii("x".into()))]);
    assert_eq!(FileOps::rename_by_exif(&mut empty, &vec!["x".to_string()]), None);
    assert_eq!(status(&empty), ("无法从 EXIF 提取信息进行重命名".to_string(), StatusLevel::Warning));
}

#[test]
fn renamed_and_fixed_paths_follow() {
    let mut app = AppState::new();
    app.file_paths = vec!["/p/a.png".into(), "/p/b.jpg".into()];
    FileOps::fix_extension(&mut app, "/p/a.png", "/p/a.jpg".into(), [1, 1], ExifMap::new());
    assert_eq!(app.file_paths[0], "/p/a.jpg");
    assert!(app.extension_warning.is_none());
    assert_eq!(status(&app).0, "扩展名已修正");
    FileOps::renamed(&mut app, "/p/b.jpg", "/p/20240101.jpg".into(), [1, 1], ExifMap::new(), None);
    assert_eq!(app.file_paths[1], "/p/20240101.jpg");
    assert_eq!(status(&app).0, "文件已重命名");
    FileOps::rename_conflict(&mut app, "/p/x.jpg");
    assert_eq!(status(&app), ("目标文件 /p/x.jpg 已存在".to_string(), StatusLevel::Warning));
}

#[test]
fn copy_and_paste() {
    let mut app = opened(&[(1, "A", "a", ExifValue::Short(1)), (2, "A", "b", ExifValue::Short(2))]);
    app.paste_exif();
    assert_eq!(status(&app), ("剪贴板中没有 EXIF 数据".to_string(), StatusLevel::Warning));
    app.copy_exif();
    assert_eq!(status(&app), ("已复制 2 个 EXIF 字段".to_string(), StatusLevel::Success));
    FileOps::open_file(&mut app, "/p/b.jpg", [1, 1], ExifMap::new(), None);
    app.paste_exif();
    assert_eq!(app.exif_entries.len(), 2);
    assert_eq!(app.undo_stack.len(), 2);
    assert_eq!(status(&app).0, "已粘贴 2 个 EXIF 字段");
    let mut empty = opened(&[]);
    empty.copy_exif();
    assert_eq!(status(&empty).0, "没有 EXIF 数据可复制");
}

#[test]
fn add_tag_form() {
    let mut app = opened(&[]);
    app.start_add_tag(&ExifTag::new(1, "A", "a"));
    assert!(app.show_add_tag_popup);
    app.new_tag_id = " 0x9003 ".into();
    app.new_tag_ifd = "ExifIFD".into();
    app.new_tag_name = " 拍摄时间 ".into();
    app.new_tag_value = "2024:01:01 00:00:00".into();
    app.confirm_add_tag();
    assert!(!app.show_add_tag_popup);
    assert_eq!(
        app.exif_entries.get(&ExifTag::new(0x9003, "ExifIFD", "拍摄时间")),
        Some(&ExifValue::Ascii("2024:01:01 00:00:00".into()))
    );
    assert_eq!(status(&app), ("已新增字段: 拍摄时间 (ExifIFD)".to_string(), StatusLevel::Success));

    app.show_add_tag_popup = true;
    app.new_tag_id = "zz".into();
    app.confirm_add_tag();
    assert!(app.show_add_tag_popup);
    assert_eq!(status(&app).1, StatusLevel::Error);

    app.new_tag_value = "  ".into();
    app.confirm_add_tag();
    assert!(!app.show_add_tag_popup);
    assert_eq!(status(&app), ("请填写所有字段".to_string(), StatusLevel::Warning));
}

#[test]
fn quick_edit_fields() {
    let mut app = opened(&[(0x8827, "ExifIFD", "ISO", ExifValue::Short(100))]);
    match app.get_field_value(0x8827, "ExifIFD") {
        photo_exit::model::DisplayText::Text(s) => assert_eq!(s, "100"),
        _ => panic!(),
    }
    app.set_field_value(0x8827, "ExifIFD", "ISO", "");
    assert!(app.undo_stack.is_empty());
    app.set_field_value(0x8827, "ExifIFD", "ISO", "200");
    assert_eq!(app.exif_entries.get(&ExifTag::new(0x8827, "ExifIFD", "ISO")), Some(&ExifValue::Short(200)));
}

#[test]
fn row_edit_commit_and_cancel() {
    let mut app = opened(&[(1, "A", "a", ExifValue::Short(1))]);
    let t = ExifTag::new(1, "A", "a");
    app.begin_edit(&t);
    assert!(app.editing_tag.is_some());
    app.commit_edit(&t, &ExifValue::Short(1), "2");
    assert!(app.editing_tag.is_none());
    assert_eq!(app.exif_entries.get(&t), Some(&ExifValue::Short(2)));
    app.begin_edit(&t);
    app.cancel_edit();
    assert!(app.editing_tag.is_none());
    app.delete_field(&t);
    assert!(app.exif_entries.is_empty());
    assert!(AppState::is_privacy_field(&ExifTag::new(5, "GPS", "x")));
    assert!(!AppState::is_privacy_field(&ExifTag::new(5, "Primary", "x")));
}

#[test]
fn paste_sets_copied_fields_and_keeps_others() {
    let mut app = opened(&[(1, "A", "a", ExifValue::Short(1)), (2, "A", "b", ExifValue::Short(2))]);
    app.copy_exif();
    let mut target = ExifMap::new();
    target.insert(ExifTag::new(2, "A", "b"), ExifValue::Short(20));
    target.insert(ExifTag::new(3, "A", "c"), ExifValue::Short(30));
    FileOps::open_file(&mut app, "/p/b.jpg", [1, 1], target, None);
    app.paste_exif();
    assert_eq!(app.exif_entries.len(), 3);
    assert_eq!(app.exif_entries.get(&ExifTag::new(1, "A", "a")), Some(&ExifValue::Short(1)));
    assert_eq!(app.exif_entries.get(&ExifTag::new(2, "A", "b")), Some(&ExifValue::Short(2)));
    assert_eq!(app.exif_entries.get(&ExifTag::new(3, "A", "c")), Some(&ExifValue::Short(30)));
}

#[test]
fn rename_follows_the_documented_form() {
    let mut app = opened(&[
        (0x9003, "ExifIFD", "拍摄时间", ExifValue::Ascii("2024:01:01 12:00:00".into())),
        (0x8827, "ExifIFD", "ISO", ExifValue::Short(100)),
        (0x829D, "ExifIFD", "光圈值", ExifValue::Rational(28, 10)),
    ]);
    let shown = vec!["2024:01:01 12:00:00".to_string(), "100".to_string(), "2.80".to_string()];
    assert_eq!(FileOps::rename_by_exif(&mut app, &shown), Some("20240101_120000_ISO100_f2.8".to_string()));
    let mut short = opened(&[(0x9003, "ExifIFD", "拍摄时间", ExifValue::Ascii("2024-01-01".into()))]);
    assert_eq!(FileOps::rename_by_exif(&mut short, &vec!["2024-01-01".to_string()]), Some("20240101".to_string()));
}

#[test]
fn privacy_covers_gps_fields_and_serials() {
    let app = opened(&[(2, "GPS", "纬度", ExifValue::Rational(22, 1))]);
    assert_eq!(app.has_privacy_risk(), vec!["GPS: 纬度".to_string()]);
    let fields = [
        (0xA431, "ExifIFD", "机身序列号", ExifValue::Ascii("9".into())),
        (0x0201, "Thumbnail", "缩略图偏移", ExifValue::Long(70000)),
        (2, "GPS", "纬度", ExifValue::Rational(22, 1)),
        (0x010F, "Primary", "制造商", ExifValue::Ascii("Canon".into())),
    ];
    let mut app = opened(&fields);
    FileOps::clear_exif(&mut app, ClearMode::Privacy);
    assert_eq!(app.exif_entries.len(), 1);
    assert!(app.exif_entries.contains_key(&ExifTag::new(0x010F, "Primary", "制造商")));
    assert!(AppState::is_privacy_field(&ExifTag::new(0xA431, "ExifIFD", "x")));
}
