use video_wallpaper::json::{Json, JsonNumber};
use video_wallpaper::monitors::{
    monitor_display_name, monitor_display_names, monitor_name_at, monitors_from_json,
    parse_monitors_json, target_monitor, MonitorInfo,
};

#[test]
fn parse_single_monitor() {
    let json = r#"[{
        "name": "HDMI-A-1",
        "description": "Samsung Odyssey",
        "width": 3840,
        "height": 2160
    }]"#;
    let monitors = parse_monitors_json(json);
    assert_eq!(monitors.len(), 1);
    assert_eq!(monitors[0].name, "HDMI-A-1");
    assert_eq!(monitors[0].description, "Samsung Odyssey");
    assert_eq!(monitors[0].width, 3840);
    assert_eq!(monitors[0].height, 2160);
}

#[test]
fn parse_multiple_monitors() {
    let json = r#"[
        {"name": "DP-1", "description": "", "width": 2560, "height": 1440},
        {"name": "HDMI-A-1", "description": "LG", "width": 1920, "height": 1080}
    ]"#;
    let monitors = parse_monitors_json(json);
    assert_eq!(monitors.len(), 2);
    assert_eq!(monitors[0].name, "DP-1");
    assert_eq!(monitors[1].name, "HDMI-A-1");
}

#[test]
fn parse_missing_description() {
    let json = r#"[{"name": "DP-1", "width": 1920, "height": 1080}]"#;
    let monitors = parse_monitors_json(json);
    assert_eq!(monitors.len(), 1);
    assert_eq!(monitors[0].description, "");
}

#[test]
fn parse_invalid_json() {
    assert!(parse_monitors_json("not json").is_empty());
}

#[test]
fn parse_empty_array() {
    assert!(parse_monitors_json("[]").is_empty());
}

#[test]
fn parse_skips_incomplete_monitors() {
    let json = r#"[
        {"name": "DP-1", "width": 1920},
        {"name": 7, "width": 1920, "height": 1080},
        {"name": "DP-2", "width": -1, "height": 1080},
        {"name": "DP-3", "description": 5, "width": 1280, "height": 1024},
        "DP-4"
    ]"#;
    let monitors = parse_monitors_json(json);
    assert_eq!(monitors.len(), 1);
    assert_eq!(monitors[0].name, "DP-3");
    assert_eq!(monitors[0].description, "");
}

#[test]
fn parse_truncates_large_sizes() {
    let json = r#"[{"name": "X", "width": 4294967297, "height": 5}]"#;
    let monitors = parse_monitors_json(json);
    assert_eq!(monitors[0].width, 1);
}

#[test]
fn parse_object_lists_nothing() {
    assert!(parse_monitors_json(r#"{"name": "DP-1", "width": 1, "height": 1}"#).is_empty());
    assert!(monitors_from_json(&None).is_empty());
    let doc = Json::Array(vec![Json::Object(vec![
        ("height".to_string(), Json::Number(JsonNumber::PosInt(2))),
        ("name".to_string(), Json::Str("A".into())),
        ("width".to_string(), Json::Number(JsonNumber::PosInt(1))),
    ])]);
    let ms = monitors_from_json(&Some(doc));
    assert_eq!(ms.len(), 1);
    assert_eq!((ms[0].name.as_str(), ms[0].width, ms[0].height), ("A", 1, 2));
}

fn mon(name: &str, description: &str, width: u32, height: u32) -> MonitorInfo {
    MonitorInfo { name: name.into(), description: description.into(), width, height }
}

#[test]
fn display_names() {
    assert_eq!(monitor_display_name(&mon("DP-1", "", 2560, 1440)), "DP-1 (2560x1440)");
    assert_eq!(monitor_display_name(&mon("HDMI-A-1", "LG", 1920, 1080)), "HDMI-A-1 \u{2014} LG");
    assert_eq!(monitor_display_name(&mon("X", "", 0, 4294967295)), "X (0x4294967295)");
    let names = monitor_display_names(&vec![mon("A", "", 1, 2), mon("B", "b", 3, 4)]);
    assert_eq!(names, vec!["A (1x2)".to_string(), "B \u{2014} b".to_string()]);
}

#[test]
fn selection() {
    let ms = vec![mon("DP-1", "", 1, 1), mon("HDMI-A-1", "", 1, 1)];
    assert_eq!(monitor_name_at(&ms, 1), Some("HDMI-A-1".to_string()));
    assert_eq!(monitor_name_at(&ms, 2), None);
    assert_eq!(target_monitor(&ms, Some("HDMI-A-1".into())), Some("HDMI-A-1".to_string()));
    assert_eq!(target_monitor(&ms, None), None);
    let one = vec![mon("DP-1", "", 1, 1)];
    assert_eq!(target_monitor(&one, Some("other".into())), Some("DP-1".to_string()));
    assert_eq!(target_monitor(&Vec::new(), Some("other".into())), None);
}
