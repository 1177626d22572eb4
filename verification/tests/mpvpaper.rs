use video_wallpaper::mpvpaper::{mpv_options, pids_to_kill, wallpapers_to_restore};

#[test]
fn mpv_option_string() {
    assert_eq!(
        mpv_options("vulkan", "nvdec", "0.5", true),
        "no-border --vo=gpu-next --gpu-api=vulkan --gpu-context=wayland --hwdec=nvdec --vd-lavc-dr=yes --panscan=0.5 --loop"
    );
    assert_eq!(
        mpv_options("opengl", "auto", "1", false),
        "no-border --vo=gpu-next --gpu-api=opengl --gpu-context=wayland --hwdec=auto --vd-lavc-dr=yes --panscan=1"
    );
}

#[test]
fn pids_of_matching_lines() {
    let out = "1234 mpvpaper -sf -o opts DP-1 /v/a.mp4\n\
               99 mpvpaper -sf -o opts HDMI-A-1 /v/b.mp4\r\n\
               x12 mpvpaper DP-1 broken\n\
               4294967296 mpvpaper DP-1 huge\n\
               777 mpvpaper DP-1\n";
    assert_eq!(pids_to_kill(out, "DP-1"), vec![1234, 777]);
    assert_eq!(pids_to_kill(out, "HDMI-A-1"), vec![99]);
    assert_eq!(pids_to_kill(out, "DP-3"), Vec::<u32>::new());
    assert_eq!(pids_to_kill("", "DP-1"), Vec::<u32>::new());
}

#[test]
fn restore_skips_missing_videos() {
    let saved = vec![
        ("DP-1".to_string(), "/a.mp4".to_string()),
        ("DP-2".to_string(), "/gone.mp4".to_string()),
        ("DP-3".to_string(), "/c.mp4".to_string()),
    ];
    let r = wallpapers_to_restore(&saved, &vec![true, false, true]);
    assert_eq!(r, vec![saved[0].clone(), saved[2].clone()]);
}

#[test]
fn pids_match_the_monitor_exactly() {
    let out = "1111 mpvpaper -sf -o no-border eDP-1 /v/a.mp4\n2222 mpvpaper -sf -o no-border DP-1 /v/b.mp4\n";
    assert_eq!(pids_to_kill(out, "DP-1"), vec![2222]);
    assert_eq!(pids_to_kill(out, "eDP-1"), vec![1111]);
    // The pid itself is not taken for a monitor name.
    assert_eq!(pids_to_kill("42 mpvpaper x", "42"), Vec::<u32>::new());
    assert_eq!(pids_to_kill("  7\tmpvpaper  DP-2  /v.mp4", "DP-2"), vec![7]);
}
