use video_wallpaper::config::MonitorAssignments;
use video_wallpaper::util::default_video_folder;

#[test]
fn assignments_start_empty() {
    let a = MonitorAssignments::new();
    assert!(a.is_empty());
    assert_eq!(a.len(), 0);
    assert_eq!(a.get("DP-1"), None);
}

#[test]
fn assignment_read_after_write() {
    let mut a = MonitorAssignments::new();
    assert_eq!(a.insert("DP-1".into(), "/tmp/test.mp4".into()), None);
    assert_eq!(a.get("DP-1").unwrap(), "/tmp/test.mp4");
    assert_eq!(a.insert("HDMI-A-1".into(), "/v/b.mp4".into()), None);
    assert_eq!(a.len(), 2);
    // Replacing keeps one entry per monitor and hands back the old video.
    assert_eq!(a.insert("DP-1".into(), "/v/c.mp4".into()), Some("/tmp/test.mp4".to_string()));
    assert_eq!(a.len(), 2);
    assert_eq!(a.get("DP-1").unwrap(), "/v/c.mp4");
    assert_eq!(a.get("HDMI-A-1").unwrap(), "/v/b.mp4");
    assert!(!a.is_empty());
}

#[test]
fn assignment_entries() {
    let mut a = MonitorAssignments::new();
    a.insert("DP-1".into(), "/a.mp4".into());
    a.insert("DP-2".into(), "/b.mp4".into());
    a.insert("DP-1".into(), "/c.mp4".into());
    let mut e = a.entries();
    e.sort();
    assert_eq!(
        e,
        vec![("DP-1".to_string(), "/c.mp4".to_string()), ("DP-2".to_string(), "/b.mp4".to_string())]
    );
}

#[test]
fn default_video_folder_names_video_wallpapers() {
    assert!(default_video_folder().contains("VideoWallpapers"));
}
