use std::hash::{BuildHasher, BuildHasherDefault};
use std::path::Path;
use video_wallpaper::thumbnails::{
    ensure_thumbnails, needs_generation, thumbnail_file_name, thumbnail_path_for,
    thumbnails_to_generate,
    thumbnail_path_in, ThumbnailState,
};
use video_wallpaper::video_scanner::VideoEntry;

#[test]
fn thumbnail_path_is_deterministic() {
    let p1 = thumbnail_path_for("/home/user/Videos/test.mp4");
    let p2 = thumbnail_path_for("/home/user/Videos/test.mp4");
    assert_eq!(p1, p2);
}

#[test]
fn thumbnail_path_differs_per_video() {
    let p1 = thumbnail_path_for("/a.mp4");
    let p2 = thumbnail_path_for("/b.mp4");
    assert_ne!(p1, p2);
}

#[test]
fn thumbnail_path_is_jpg() {
    let p = thumbnail_path_for("/test.mp4");
    assert_eq!(Path::new(&p).extension().unwrap(), "jpg");
}

#[test]
fn needs_generation_when_missing() {
    let video = VideoEntry {
        path: "/tmp/nonexistent_video_xyz.mp4".into(),
        file_name: "test".into(),
        modified: 1_700_000_000_000_000_000,
    };
    assert!(needs_generation(&video, &ThumbnailState::Missing));
}

#[test]
fn needs_generation_by_age() {
    let video = VideoEntry { path: "/v.mp4".into(), file_name: "v".into(), modified: 100 };
    assert!(needs_generation(&video, &ThumbnailState::Unreadable));
    assert!(needs_generation(&video, &ThumbnailState::Modified(99)));
    assert!(!needs_generation(&video, &ThumbnailState::Modified(100)));
    assert!(!needs_generation(&video, &ThumbnailState::Modified(101)));
}

#[test]
fn thumbnail_name_is_sixteen_hex_digits() {
    assert_eq!(thumbnail_file_name(0), "0000000000000000.jpg");
    assert_eq!(thumbnail_file_name(0xdead_beef), "00000000deadbeef.jpg");
    assert_eq!(thumbnail_file_name(u64::MAX), "ffffffffffffffff.jpg");
    assert_eq!(thumbnail_file_name(0x0123_4567_89ab_cdef), format!("{:016x}.jpg", 0x0123_4567_89ab_cdefu64));
}

#[test]
fn thumbnail_path_in_directory() {
    let p = thumbnail_path_in("/cache/video-wallpaper/thumbnails", "/v/a.mp4");
    assert!(p.starts_with("/cache/video-wallpaper/thumbnails/"));
    assert!(p.ends_with(".jpg"));
    assert_eq!(p.len(), "/cache/video-wallpaper/thumbnails/".len() + 20);
    // The name is the std DefaultHasher value of the path, in hex.
    let h = BuildHasherDefault::<std::collections::hash_map::DefaultHasher>::default().hash_one("/v/a.mp4");
    assert_eq!(p, format!("/cache/video-wallpaper/thumbnails/{h:016x}.jpg"));
}

#[test]
fn ensure_thumbnails_drops_failures() {
    let videos = vec![
        VideoEntry { path: "/a.mp4".into(), file_name: "a".into(), modified: 10 },
        VideoEntry { path: "/b.mp4".into(), file_name: "b".into(), modified: 20 },
        VideoEntry { path: "/c.mp4".into(), file_name: "c".into(), modified: 30 },
        VideoEntry { path: "/d.mp4".into(), file_name: "d".into(), modified: 40 },
    ];
    let states = vec![
        ThumbnailState::Modified(50),
        ThumbnailState::Missing,
        ThumbnailState::Modified(5),
        ThumbnailState::Unreadable,
    ];
    let needed = thumbnails_to_generate(&videos, &states);
    assert_eq!(needed, vec![false, true, true, true]);
    // Making b's thumbnail failed; c's and d's were made; a's was up to date.
    let made = vec![false, false, true, true];
    let kept = ensure_thumbnails(&videos, "/t", &states, &made);
    let paths: Vec<&str> = kept.iter().map(|(v, _)| v.path.as_str()).collect();
    assert_eq!(paths, vec!["/a.mp4", "/c.mp4", "/d.mp4"]);
    for (v, thumb) in &kept {
        assert_eq!(thumb, &thumbnail_path_in("/t", &v.path));
    }
    assert_eq!(kept[1].0.modified, 30);
}
