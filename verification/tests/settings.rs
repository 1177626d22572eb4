use video_wallpaper::settings::{gpu_api_at, gpu_api_index, hwdec_at, hwdec_index};

#[test]
fn gpu_api_choices() {
    assert_eq!(gpu_api_index("opengl"), 1);
    assert_eq!(gpu_api_index("vulkan"), 0);
    assert_eq!(gpu_api_index("metal"), 0);
    assert_eq!(gpu_api_at(1), "opengl");
    assert_eq!(gpu_api_at(0), "vulkan");
    assert_eq!(gpu_api_at(5), "vulkan");
}

#[test]
fn hwdec_choices() {
    for (i, name) in ["auto", "nvdec", "vaapi", "no"].iter().enumerate() {
        assert_eq!(hwdec_index(name), i as u32);
        assert_eq!(hwdec_at(i as u32), *name);
    }
    assert_eq!(hwdec_index("cuda"), 0);
    assert_eq!(hwdec_at(9), "auto");
}
