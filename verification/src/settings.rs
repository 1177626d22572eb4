//! The choices of the mpvpaper settings page: which entry of each drop-down
//! stands for which setting.
use vstd::prelude::*;
use crate::text::str_eq;

verus! {

/// The entry of the GPU API drop-down ("vulkan", "opengl") that shows a
/// setting; anything but "opengl" shows as "vulkan".
pub open spec fn gpu_api_index_spec(api: Seq<char>) -> u32 {
    if api == "opengl"@ {
        1
    } else {
        0
    }
}

/// The setting that an entry of the GPU API drop-down stands for.
pub open spec fn gpu_api_at_spec(index: u32) -> Seq<char> {
    if index == 1 {
        "opengl"@
    } else {
        "vulkan"@
    }
}

pub fn gpu_api_index(api: &str) -> (r: u32)
    ensures
        r == gpu_api_index_spec(api@),
{
    if str_eq(api, "opengl") {
        1
    } else {
        0
    }
}

pub fn gpu_api_at(index: u32) -> (r: &'static str)
    ensures
        r@ == gpu_api_at_spec(index),
{
    if index == 1 {
        "opengl"
    } else {
        "vulkan"
    }
}

/// The entry of the hardware decoding drop-down ("auto", "nvdec", "vaapi",
/// "no") that shows a setting; anything unknown shows as "auto".
pub open spec fn hwdec_index_spec(hwdec: Seq<char>) -> u32 {
    if hwdec == "nvdec"@ {
        1
    } else if hwdec == "vaapi"@ {
        2
    } else if hwdec == "no"@ {
        3
    } else {
        0
    }
}

/// The setting that an entry of the hardware decoding drop-down stands for.
pub open spec fn hwdec_at_spec(index: u32) -> Seq<char> {
    if index == 1 {
        "nvdec"@
    } else if index == 2 {
        "vaapi"@
    } else if index == 3 {
        "no"@
    } else {
        "auto"@
    }
}

pub fn hwdec_index(hwdec: &str) -> (r: u32)
    ensures
        r == hwdec_index_spec(hwdec@),
{
    if str_eq(hwdec, "nvdec") {
        1
    } else if str_eq(hwdec, "vaapi") {
        2
    } else if str_eq(hwdec, "no") {
        3
    } else {
        0
    }
}

pub fn hwdec_at(index: u32) -> (r: &'static str)
    ensures
        r@ == hwdec_at_spec(index),
{
    if index == 1 {
        "nvdec"
    } else if index == 2 {
        "vaapi"
    } else if index == 3 {
        "no"
    } else {
        "auto"
    }
}

/// Choosing an entry and showing the setting it stands for comes back to
/// the same entry, for every entry of either drop-down.
pub proof fn settings_index_roundtrip(index: u32)
    ensures
        index < 2 ==> gpu_api_index_spec(gpu_api_at_spec(index)) == index,
        index < 4 ==> hwdec_index_spec(hwdec_at_spec(index)) == index,
{
    reveal_strlit("opengl");
    reveal_strlit("vulkan");
    reveal_strlit("nvdec");
    reveal_strlit("vaapi");
    reveal_strlit("no");
    reveal_strlit("auto");
    assert("vulkan"@ != "opengl"@) by {
        assert("vulkan"@[0] != "opengl"@[0]);
    }
    assert("auto"@ != "nvdec"@ && "auto"@ != "vaapi"@ && "auto"@ != "no"@) by {
        assert("auto"@[0] != "nvdec"@[0]);
        assert("auto"@[0] != "vaapi"@[0]);
        assert("auto"@[0] != "no"@[0]);
    }
    assert("vaapi"@ != "nvdec"@) by {
        assert("vaapi"@[0] != "nvdec"@[0]);
    }
    assert("no"@ != "nvdec"@ && "no"@ != "vaapi"@) by {
        assert("no"@.len() != "nvdec"@.len());
        assert("no"@.len() != "vaapi"@.len());
    }
}

/// Showing a known setting and choosing the entry shown keeps the setting.
pub proof fn settings_value_roundtrip(api: Seq<char>, hwdec: Seq<char>)
    ensures
        (api == "vulkan"@ || api == "opengl"@) ==> gpu_api_at_spec(gpu_api_index_spec(api))
            == api,
        (hwdec == "auto"@ || hwdec == "nvdec"@ || hwdec == "vaapi"@ || hwdec == "no"@)
            ==> hwdec_at_spec(hwdec_index_spec(hwdec)) == hwdec,
{
    settings_index_roundtrip(0);
}

} // verus!
