use std::path::PathBuf;
use video_wallpaper::util::{
    cache_dir, cache_dir_under, caelestia_state_dir_under, config_dir_under, config_path,
    current_frame_path, default_video_folder_under, frames_dir, join_path, scheme_json_path,
    thumbnail_dir,
};

#[test]
fn join_follows_pathbuf() {
    for (base, part) in [
        ("/a", "b"),
        ("/a/", "b"),
        ("", "b"),
        ("/a", "/b"),
        ("a", ""),
        ("~/.cache", "video-wallpaper"),
        ("/", "x/y"),
    ] {
        let expected = PathBuf::from(base).join(part).to_string_lossy().into_owned();
        assert_eq!(join_path(base, part), expected, "{base} + {part}");
    }
}

#[test]
fn directories_under_given_bases() {
    assert_eq!(cache_dir_under(Some("/home/u/.cache".into())), "/home/u/.cache/video-wallpaper");
    assert_eq!(cache_dir_under(None), "~/.cache/video-wallpaper");
    assert_eq!(config_dir_under(Some("/etc/xdg/".into())), "/etc/xdg/video-wallpaper");
    assert_eq!(config_dir_under(None), "~/.config/video-wallpaper");
    assert_eq!(
        caelestia_state_dir_under(Some("/s".into()), Some("/home/u".into())),
        "/s/caelestia"
    );
    assert_eq!(caelestia_state_dir_under(None, Some("/home/u".into())), "/home/u/.local/state/caelestia");
    assert_eq!(caelestia_state_dir_under(None, None), "/tmp/.local/state/caelestia");
    assert_eq!(default_video_folder_under(Some("/home/u".into())), "/home/u/VideoWallpapers");
    assert_eq!(default_video_folder_under(None), "/tmp/VideoWallpapers");
}

#[test]
fn directories_of_this_user() {
    let cache = cache_dir();
    assert!(cache.ends_with("/video-wallpaper"));
    assert_eq!(thumbnail_dir(), format!("{cache}/thumbnails"));
    assert_eq!(frames_dir(), format!("{cache}/frames"));
    assert_eq!(current_frame_path(), format!("{cache}/frames/current_frame.png"));
    assert!(config_path().ends_with("video-wallpaper/config.toml"));
    assert!(scheme_json_path().ends_with("caelestia/scheme.json"));
}
