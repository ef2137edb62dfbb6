use photo_exit::exif::repair::{ExifHealth, RepairResult};
use photo_exit::model::{ExifMap, ExifTag, ExifValue};
use photo_exit::session::{AppState, FileOps};
use photo_exit::tools::{Elevation, GpsFix, GpsWriteError, GpxWindowState, RepairWindowState};

const TRACK: &str = r#"<gpx><trk><trkseg>
<trkpt lat="31.5" lon="121.25"><ele>-3.5</ele><time>2024-01-01T12:00:00Z</time></trkpt>
<trkpt lat="31.6" lon="121.35"><time>2024-01-01T12:10:00Z</time></trkpt>
</trkseg></trk></gpx>"#;

fn with_time(time: &str) -> AppState {
    let mut app = AppState::new();
    app.file_paths = vec!["/p/a.jpg".into()];
    let mut m = ExifMap::new();
    m.insert(ExifTag::new(0x9003, "ExifIFD", "拍摄时间"), ExifValue::Ascii(time.into()));
    FileOps::open_file(&mut app, "/p/a.jpg", [1, 1], m, None);
    app
}

#[test]
fn load_track_message() {
    let mut w = GpxWindowState::new();
    w.load_gpx("/t.gpx".into(), TRACK).expect("track");
    assert_eq!(w.status_message, "已加载 GPX: 2 个轨迹点，时间范围 2024-01-01 12:00:00 ~ 2024-01-01 12:10:00");
    assert_eq!(w.gpx_path, Some("/t.gpx".to_string()));
    let mut bad = GpxWindowState::new();
    assert!(bad.load_gpx("/x.gpx".into(), "<a></b>").is_err());
    assert!(bad.matcher.is_none());
}

#[test]
fn match_current_errors() {
    let w = GpxWindowState::new();
    assert_eq!(w.match_current(&with_time("2024:01:01 12:01:00")).unwrap_err(), GpsWriteError::NoTrack);
    let mut w = GpxWindowState::new();
    w.load_gpx("/t.gpx".into(), TRACK).unwrap();
    assert_eq!(w.match_current(&AppState::new()).unwrap_err(), GpsWriteError::NoImage);
    assert_eq!(w.match_current(&with_time("2023:01:01 00:00:00")).unwrap_err(), GpsWriteError::NoMatch);
    let (path, time, point) = w.match_current(&with_time("2024:01:01 12:01:00")).expect("match");
    assert_eq!(path, "/p/a.jpg");
    assert_eq!(time, "2024:01:01 12:01:00");
    assert_eq!(point.lat, "31.5");
    assert_eq!(point.ele, Some("-3.5".to_string()));
    assert_eq!(GpsWriteError::NoMatch.message(), "无法匹配 GPS 轨迹点（时间差 > 5分钟）");
}

#[test]
fn apply_fix_sets_gps_fields_with_undo() {
    let mut app = with_time("2024:01:01 12:01:00");
    let fix = GpsFix {
        lat_dms: (31, 30, 0),
        lat_ref: 'N',
        lon_dms: (121, 15, 0),
        lon_ref: 'E',
        ele: Some(Elevation { below_sea_level: true, centimeters: 350 }),
    };
    GpxWindowState::apply_fix(&mut app, &fix, "2024:01:01 12:01:00".into());
    let get = |id: u16, name: &str| app.exif_entries.get(&ExifTag::new(id, "GPS", name)).cloned();
    assert_eq!(get(1, "纬度方向"), Some(ExifValue::Ascii("N".into())));
    // 31°30'0" is 113400 seconds of arc; 121°15'0" is 436500.
    assert_eq!(get(2, "纬度"), Some(ExifValue::Rational(113_400, 3600)));
    assert_eq!(get(4, "经度"), Some(ExifValue::Rational(436_500, 3600)));
    assert_eq!(get(5, "高度参考"), Some(ExifValue::Byte(vec![1])));
    assert_eq!(get(6, "高度"), Some(ExifValue::Rational(350, 100)));
    assert_eq!(get(7, "GPS时间"), Some(ExifValue::Ascii("2024:01:01 12:01:00".into())));
    assert_eq!(app.undo_stack.len(), 7);
    GpxWindowState::fix_written(&mut app, "31.500000", 'N', "121.250000", 'E');
    assert!(!app.has_unsaved_changes());
    assert_eq!(app.status_message.clone().unwrap().0, "GPS 已写入: 31.500000°N 121.250000°E");
}

#[test]
fn preview_and_batch_matching() {
    let mut w = GpxWindowState::new();
    let mut app = with_time("2024:01:01 12:09:00");
    app.file_paths = vec!["/p/a.jpg".into(), "/p/b.jpg".into(), "/p/c.jpg".into()];
    let mut other = ExifMap::new();
    other.insert(ExifTag::new(0x9003, "ExifIFD", "拍摄时间"), ExifValue::Ascii("2024:01:01 12:01:00".into()));
    let tables = vec![app.exif_entries.clone(), other, ExifMap::new()];
    w.preview_all(&app, &tables);
    assert!(w.preview_results.is_empty());
    w.load_gpx("/t.gpx".into(), TRACK).unwrap();
    w.preview_all(&app, &tables);
    assert_eq!(w.preview_results.len(), 3);
    assert_eq!(w.preview_results[0].file_name, "a.jpg");
    assert_eq!(w.preview_results[0].point.as_ref().unwrap().lat, "31.6");
    assert_eq!(w.preview_results[1].file_name, "b.jpg");
    assert_eq!(w.preview_results[1].point.as_ref().unwrap().lat, "31.5");
    assert!(w.preview_results[2].photo_time.is_none() && w.preview_results[2].point.is_none());
    assert_eq!(w.match_entries(&app.exif_entries).unwrap().lat, "31.6");
    assert!(w.match_entries(&ExifMap::new()).is_none());
}

#[test]
fn repair_window_log() {
    let mut r = RepairWindowState::new();
    r.record_validation(Err("no such file".into()));
    assert_eq!(r.repair_log, vec!["校验失败: no such file".to_string()]);
    let h = ExifHealth { score: 100, format_valid: true, jfif_valid: true, exif_valid: true, marker_valid: true };
    r.record_validation(Ok(h));
    assert_eq!(r.health, Some(h));
    r.record_repair(&Ok(RepairResult { repairs: vec!["添加缺失的 EOI 标记".into()], bytes_saved: -2 }));
    assert_eq!(r.repair_log[1], "修复完成: 1 项修复，-2 字节变化");
    assert_eq!(r.repair_log[2], "  • 添加缺失的 EOI 标记");
    r.record_repair(&Err("仅支持 JPEG 格式的修复".into()));
    assert_eq!(r.repair_log[3], "修复失败: 仅支持 JPEG 格式的修复");
}

#[test]
fn window_defaults() {
    let g = GpxWindowState::default();
    assert!(g.gpx_path.is_none() && g.matcher.is_none());
    assert!(g.preview_results.is_empty() && g.status_message.is_empty() && !g.active);
    let r = RepairWindowState::default();
    assert!(r.health.is_none() && r.repair_log.is_empty() && !r.active);
}
