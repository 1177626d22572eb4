use video_wallpaper::video_scanner::{scan_folder, sort_videos, FolderEntry, VideoEntry};

fn file(dir: &str, name: &str, modified: i128) -> FolderEntry {
    FolderEntry {
        path: format!("{dir}/{name}"),
        name: name.into(),
        is_file: true,
        modified: Some(modified),
    }
}

fn names(v: &[VideoEntry]) -> Vec<&str> {
    v.iter().map(|e| e.file_name.as_str()).collect()
}

#[test]
fn scan_empty_folder() {
    let result = scan_folder(&Vec::new());
    assert!(result.is_empty());
}

#[test]
fn scan_filters_extensions() {
    let dir = "/tmp/vw_test_ext";
    let entries = vec![
        file(dir, "a.mp4", 1),
        file(dir, "b.mkv", 2),
        file(dir, "c.webm", 3),
        file(dir, "d.txt", 4),
        file(dir, "e.jpg", 5),
    ];
    let result = scan_folder(&entries);
    assert_eq!(result.len(), 3);
    let names = names(&result);
    assert!(names.contains(&"a"));
    assert!(names.contains(&"b"));
    assert!(names.contains(&"c"));
    assert_eq!(result[0].path, "/tmp/vw_test_ext/a.mp4");
    assert_eq!(result[2].modified, 3);
}

#[test]
fn scan_sorts_case_insensitive() {
    let dir = "/tmp/vw_test_sort";
    let entries = vec![file(dir, "Zebra.mp4", 1), file(dir, "alpha.mp4", 2), file(dir, "Beta.mp4", 3)];
    let result = scan_folder(&entries);
    assert_eq!(names(&result), vec!["alpha", "Beta", "Zebra"]);
}

#[test]
fn scan_nonexistent_folder() {
    // A folder that cannot be read lists no entries.
    let result = scan_folder(&Vec::new());
    assert!(result.is_empty());
}

#[test]
fn scan_extension_rules() {
    let dir = "/v";
    let mut dir_entry = file(dir, "clip.mp4", 1);
    dir_entry.is_file = false;
    let mut no_time = file(dir, "late.mp4", 1);
    no_time.modified = None;
    let entries = vec![
        file(dir, "UPPER.MP4", 1),
        file(dir, "archive.tar.webm", 2),
        file(dir, ".mp4", 3),
        file(dir, "mp4", 4),
        file(dir, "trailing.", 5),
        dir_entry,
        no_time,
        file(dir, "Mixed.MkV", 6),
    ];
    let result = scan_folder(&entries);
    assert_eq!(names(&result), vec!["archive.tar", "Mixed", "UPPER"]);
}

#[test]
fn sort_is_stable() {
    let v = |n: &str, m: i128| VideoEntry { path: format!("/{n}{m}"), file_name: n.into(), modified: m };
    let sorted = sort_videos(&vec![v("b", 1), v("A", 2), v("a", 3), v("B", 4), v("a", 5)]);
    let got: Vec<(String, i128)> = sorted.iter().map(|e| (e.file_name.clone(), e.modified)).collect();
    assert_eq!(
        got,
        vec![
            ("A".to_string(), 2),
            ("a".to_string(), 3),
            ("a".to_string(), 5),
            ("b".to_string(), 1),
            ("B".to_string(), 4)
        ]
    );
}

#[test]
fn sort_matches_std_sort_by() {
    let names_in = ["Éclair", "eclair", "zeta", "Zeta", "äpfel", "Apfel", "10", "9", "", "ß"];
    let videos: Vec<VideoEntry> = names_in
        .iter()
        .enumerate()
        .map(|(i, n)| VideoEntry { path: format!("/{i}"), file_name: n.to_string(), modified: i as i128 })
        .collect();
    let mut expected = videos.clone();
    expected.sort_by(|a, b| a.file_name.to_lowercase().cmp(&b.file_name.to_lowercase()));
    let got = sort_videos(&videos);
    let e: Vec<&str> = expected.iter().map(|v| v.path.as_str()).collect();
    let g: Vec<&str> = got.iter().map(|v| v.path.as_str()).collect();
    assert_eq!(g, e);
}
