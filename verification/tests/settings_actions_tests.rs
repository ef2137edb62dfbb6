use photo_exit::actions::{classify_drop, DropKind, Effect, Shortcut};
use photo_exit::model::{ExifTag, ExifValue, StatusLevel};
use photo_exit::session::{AppState, FileOps};
use photo_exit::settings::Settings;

#[test]
fn recent_folders_dedupe_and_cap() {
    let mut s = Settings::new();
    assert!(s.auto_restore);
    for i in 0..12 {
        s.add_recent_folder(format!("/f{}", i));
    }
    assert_eq!(s.recent_folders.len(), 10);
    assert_eq!(s.recent_folders[0], "/f11");
    s.add_recent_folder("/f5".into());
    assert_eq!(s.recent_folders[0], "/f5");
    assert_eq!(s.recent_folders.len(), 10);
    assert_eq!(s.recent_folders.iter().filter(|p| p.as_str() == "/f5").count(), 1);
    s.add_recent_file("/a.jpg".into());
    s.add_recent_file("/b.jpg".into());
    s.add_recent_file("/a.jpg".into());
    assert_eq!(s.recent_files, vec!["/a.jpg".to_string(), "/b.jpg".to_string()]);
}

#[test]
fn valid_recent_by_flags() {
    let mut s = Settings::new();
    s.add_recent_file("/b".into());
    s.add_recent_file("/a".into());
    assert_eq!(s.valid_recent_files(&vec![false, true]), vec!["/b".to_string()]);
    assert_eq!(s.valid_recent_folders(&vec![]), Vec::<String>::new());
}

#[test]
fn remember_session_on_exit() {
    let mut s = Settings::new();
    let mut app = AppState::new();
    app.folder_path = Some("/p".into());
    app.file_paths = vec!["/p/1.jpg".into(), "/p/2.jpg".into()];
    app.current_index = 1;
    s.remember_session(&app);
    assert_eq!(s.last_folder, Some("/p".to_string()));
    assert_eq!(s.last_position, 1);
    assert_eq!(s.recent_folders, vec!["/p".to_string()]);
    assert_eq!(s.recent_files, vec!["/p/2.jpg".to_string()]);
}

#[test]
fn restore_position_bounds() {
    let mut app = AppState::new();
    app.file_paths = vec!["/p/1.jpg".into(), "/p/2.jpg".into()];
    assert_eq!(FileOps::restore_position(&mut app, 0), None);
    assert_eq!(FileOps::restore_position(&mut app, 2), None);
    assert_eq!(FileOps::restore_position(&mut app, 1), Some("/p/2.jpg".to_string()));
    assert_eq!(app.current_index, 1);
}

#[test]
fn shortcuts_act_on_session() {
    let mut app = AppState::new();
    app.file_paths = vec!["/p/1.jpg".into(), "/p/2.jpg".into()];
    match app.handle_shortcut(Shortcut::NextImage) {
        Effect::OpenImage(p) => assert_eq!(p, "/p/2.jpg"),
        other => panic!("{:?}", other),
    }
    assert!(matches!(app.handle_shortcut(Shortcut::NextImage), Effect::Nothing));
    assert!(matches!(app.handle_shortcut(Shortcut::OpenFolder), Effect::ChooseFolder));
    assert!(matches!(app.handle_shortcut(Shortcut::TogglePixelPerfect), Effect::ResetZoom));
    assert!(matches!(app.handle_shortcut(Shortcut::TogglePixelPerfect), Effect::Nothing));
    app.handle_shortcut(Shortcut::ToggleFullscreen);
    assert!(app.is_fullscreen);
    app.handle_shortcut(Shortcut::OpenCompare);
    assert!(app.compare_state.active);
    app.set_field(ExifTag::new(1, "A", "a"), ExifValue::Short(1));
    app.handle_shortcut(Shortcut::Undo);
    assert_eq!(app.status_message, Some(("已撤销".to_string(), StatusLevel::Info)));
    app.handle_shortcut(Shortcut::Save);
    assert!(app.pending_save);
}

#[test]
fn drops_by_kind() {
    assert_eq!(classify_drop(true, Some("jpg")), DropKind::Folder);
    assert_eq!(classify_drop(false, Some("JPEG")), DropKind::Image);
    assert_eq!(classify_drop(false, Some("GPX")), DropKind::Gpx);
    assert_eq!(classify_drop(false, Some("txt")), DropKind::Ignored);
    assert_eq!(classify_drop(false, None), DropKind::Ignored);
    let mut app = AppState::new();
    assert!(app.drop_opens_parent(DropKind::Image));
    app.report_drop(DropKind::Folder, "/p", None);
    assert_eq!(app.status_message, Some(("已打开文件夹: /p".to_string(), StatusLevel::Success)));
    app.report_drop(DropKind::Image, "/p/a.jpg", Some("boom"));
    assert_eq!(app.status_message, Some(("打开文件失败: boom".to_string(), StatusLevel::Error)));
    app.report_drop(DropKind::Gpx, "/t.gpx", None);
    assert_eq!(app.status_message, Some(("GPX 文件已加载".to_string(), StatusLevel::Success)));
    app.report_drop(DropKind::Ignored, "/x", None);
    assert_eq!(app.status_message, Some(("GPX 文件已加载".to_string(), StatusLevel::Success)));
}
