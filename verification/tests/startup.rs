use video_wallpaper::gpu::GpuVendor;
use video_wallpaper::startup::{
    hwdec_needs_detection, missing_commands, missing_dependencies_message, required_commands,
    resolve_hwdec,
};

#[test]
fn dependency_check() {
    assert_eq!(required_commands(), vec!["mpvpaper", "ffmpeg", "ffprobe", "hyprctl"]);
    let missing = missing_commands(&vec![true, false, true, false]);
    assert_eq!(missing, vec!["ffmpeg".to_string(), "hyprctl".to_string()]);
    assert_eq!(
        missing_dependencies_message(&missing),
        "Missing required dependencies:\n\nffmpeg, hyprctl"
    );
    assert!(missing_commands(&vec![true; 4]).is_empty());
    assert_eq!(
        missing_dependencies_message(&vec!["mpvpaper".into()]),
        "Missing required dependencies:\n\nmpvpaper"
    );
}

#[test]
fn hwdec_resolution() {
    assert!(hwdec_needs_detection("auto"));
    assert!(!hwdec_needs_detection("vaapi"));
    assert_eq!(resolve_hwdec("auto", GpuVendor::Nvidia), "nvdec");
    assert_eq!(resolve_hwdec("auto", GpuVendor::Unknown), "auto");
    assert_eq!(resolve_hwdec("no", GpuVendor::Nvidia), "no");
}
