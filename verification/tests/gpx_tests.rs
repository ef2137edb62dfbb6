use photo_exit::gpx::{GpxMatcher, GpxParser, GpxPoint, GpxTime, XmlEvent};

const TRACK: &str = r#"<?xml version="1.0" encoding="UTF-8"?>
<gpx version="1.1">
  <trk><trkseg>
    <trkpt lat="31.2304" lon="121.4737"><ele> 10.5 </ele><time>2024-01-01T12:00:00Z</time></trkpt>
    <trkpt lat="31.2404" lon="121.4837"><time>2024-01-01T11:00:00Z</time></trkpt>
    <trkpt lat="north" lon="1"><time>2024-01-01T10:00:00Z</time></trkpt>
    <trkpt lat="1" lon="2"></trkpt>
  </trkseg></trk>
  <wpt lat="-5" lon="-6"><time>2024-01-01T13:00:00.5Z</time></wpt>
</gpx>"#;

const NOON: i64 = 1_704_110_400;

#[test]
fn parse_keeps_complete_points_in_time_order() {
    let points = GpxParser::parse_str(TRACK).expect("valid gpx");
    assert_eq!(points.len(), 3);
    assert_eq!(points[0].time, GpxTime { secs: NOON - 3600, nanos: 0 });
    assert_eq!(points[0].lat, "31.2404");
    assert_eq!(points[0].ele, None);
    assert_eq!(points[1].time, GpxTime { secs: NOON, nanos: 0 });
    assert_eq!(points[1].ele, Some("10.5".to_string()));
    assert_eq!(points[2].lat, "-5");
    assert_eq!(points[2].time, GpxTime { secs: NOON + 3600, nanos: 500_000_000 });
}

#[test]
fn parse_reports_syntax_errors() {
    let err = GpxParser::parse_str("<gpx><trkpt lat=\"1\" lon=\"2\"></gpx>").expect_err("mismatched tags");
    assert!(err.message.starts_with("GPX 解析错误: "));
}

#[test]
fn parse_events_directly() {
    let events = vec![
        XmlEvent::Start { name: b"trkpt".to_vec(), attributes: vec![(b"lat".to_vec(), b"1.5".to_vec()), (b"lon".to_vec(), b"2".to_vec())] },
        XmlEvent::Start { name: b"time".to_vec(), attributes: vec![] },
        XmlEvent::Text(Ok("2024-01-01T12:00:00Z".to_string())),
        XmlEvent::End { name: b"time".to_vec() },
        XmlEvent::End { name: b"trkpt".to_vec() },
        XmlEvent::Eof,
        XmlEvent::Failed("ignored after the end".to_string()),
    ];
    let points = GpxParser::parse_events(&events).expect("ok");
    assert_eq!(points.len(), 1);
    assert_eq!(points[0].lat, "1.5");
    assert_eq!(points[0].time.secs, NOON);

    let bad_text = vec![
        XmlEvent::Start { name: b"trkpt".to_vec(), attributes: vec![] },
        XmlEvent::Start { name: b"ele".to_vec(), attributes: vec![] },
        XmlEvent::Text(Err("bad entity".to_string())),
    ];
    assert_eq!(GpxParser::parse_events(&bad_text).expect_err("error").message, "bad entity");
}

fn point(secs: i64, lat: &str) -> GpxPoint {
    GpxPoint { time: GpxTime { secs, nanos: 0 }, lat: lat.to_string(), lon: "0".to_string(), ele: None }
}

#[test]
fn match_picks_nearest_within_five_minutes() {
    let points = vec![point(NOON - 600, "a"), point(NOON, "b"), point(NOON + 600, "c")];
    let m = GpxParser::match_point(&points, "2024:01:01 12:03:00").expect("near b");
    assert_eq!(m.lat, "b");
    let tie = GpxParser::match_point(&points, "2024:01:01 12:05:00").expect("tie");
    assert_eq!(tie.lat, "b");
    assert!(GpxParser::match_point(&points, "2024:01:01 12:15:01").is_none());
    assert!(GpxParser::match_point(&points, "not a date").is_none());
    assert_eq!(GpxParser::match_point(&points, " 2024-01-01 11:58:00\0\0").expect("iso").lat, "b");
    assert!(GpxParser::match_point(&Vec::new(), "2024:01:01 12:00:00").is_none());
}

#[test]
fn nearest_point_by_instant() {
    let points = vec![point(100, "a"), point(200, "b")];
    assert_eq!(GpxParser::nearest_point(&points, GpxTime { secs: 160, nanos: 0 }).unwrap().lat, "b");
    assert_eq!(GpxParser::nearest_point(&points, GpxTime { secs: 0, nanos: 0 }).unwrap().lat, "a");
    assert_eq!(GpxParser::nearest_point(&points, GpxTime { secs: 450, nanos: 0 }).unwrap().lat, "b");
    assert!(GpxParser::nearest_point(&points, GpxTime { secs: 501, nanos: 0 }).is_none());
}

#[test]
fn matcher_range_and_count() {
    let m = GpxMatcher::new(vec![point(NOON, "a"), point(NOON + 60, "b")]);
    assert_eq!(m.point_count(), 2);
    let (first, last) = m.time_range().expect("points");
    assert_eq!(first.secs, NOON);
    assert_eq!(last.secs, NOON + 60);
    assert!(GpxMatcher::new(vec![]).time_range().is_none());
    assert_eq!(m.match_point("2024:01:01 12:00:30").unwrap().lat, "a");
}
