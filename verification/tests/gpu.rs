use video_wallpaper::gpu::{
    detect_gpu, needs_lspci, parse_lspci_output, vendor_from_lowercase_lspci,
    vendor_from_pci_devices, GpuVendor, PciDevice,
};

#[test]
fn hwdec_mapping() {
    assert_eq!(GpuVendor::Nvidia.hwdec(), "nvdec");
    assert_eq!(GpuVendor::Amd.hwdec(), "vaapi");
    assert_eq!(GpuVendor::Intel.hwdec(), "vaapi");
    assert_eq!(GpuVendor::Unknown.hwdec(), "auto");
}

#[test]
fn parse_lspci_nvidia() {
    let output = "01:00.0 VGA compatible controller: NVIDIA Corporation AD102 [GeForce RTX 4090] (rev a1)";
    assert_eq!(parse_lspci_output(output), Some(GpuVendor::Nvidia));
}

#[test]
fn parse_lspci_amd() {
    let output = "06:00.0 VGA compatible controller: Advanced Micro Devices, Inc. [AMD/ATI] Navi 21 [Radeon RX 6800]";
    assert_eq!(parse_lspci_output(output), Some(GpuVendor::Amd));
}

#[test]
fn parse_lspci_intel() {
    let output = "00:02.0 VGA compatible controller: Intel Corporation UHD Graphics 630";
    assert_eq!(parse_lspci_output(output), Some(GpuVendor::Intel));
}

#[test]
fn parse_lspci_3d_controller() {
    let output = "01:00.0 3D controller: NVIDIA Corporation TU104GL [Tesla T4] (rev a1)";
    assert_eq!(parse_lspci_output(output), Some(GpuVendor::Nvidia));
}

#[test]
fn parse_lspci_no_gpu() {
    let output = "00:1f.0 ISA bridge: Intel Corporation Device 7a87 (rev 11)";
    assert_eq!(parse_lspci_output(output), None);
}

#[test]
fn detect_gpu_returns_value() {
    // Nothing found in sysfs and lspci unavailable: still a vendor, whose
    // decoder can be asked for.
    let vendor = detect_gpu(&Vec::new(), &None);
    let _ = vendor.hwdec();
    assert_eq!(vendor, GpuVendor::Unknown);
}

#[test]
fn parse_lspci_first_display_line_decides() {
    let output = "00:1f.0 ISA bridge: Intel Corporation\r\n\
                  00:02.0 VGA compatible controller: Matrox G200\n\
                  01:00.0 3D controller: AMD Radeon\n\
                  02:00.0 VGA compatible controller: NVIDIA\n";
    assert_eq!(parse_lspci_output(output), Some(GpuVendor::Amd));
}

#[test]
fn parse_lspci_nvidia_before_intel_on_one_line() {
    assert_eq!(
        vendor_from_lowercase_lspci("vga: intel and nvidia"),
        Some(GpuVendor::Nvidia)
    );
    // Already lowercase text is taken as it is.
    assert_eq!(vendor_from_lowercase_lspci("VGA: NVIDIA"), None);
}

#[test]
fn parse_lspci_empty() {
    assert_eq!(parse_lspci_output(""), None);
    assert_eq!(parse_lspci_output("\n\n"), None);
}

fn dev(class: &str, vendor: Option<&str>) -> PciDevice {
    PciDevice { class: class.to_string(), vendor: vendor.map(|v| v.to_string()) }
}

#[test]
fn sysfs_vendor_ids() {
    assert_eq!(vendor_from_pci_devices(&vec![dev("0x030000\n", Some("0x10de\n"))]), Some(GpuVendor::Nvidia));
    assert_eq!(vendor_from_pci_devices(&vec![dev("0x030200", Some(" 0x1002 "))]), Some(GpuVendor::Amd));
    assert_eq!(vendor_from_pci_devices(&vec![dev("0x030000", Some("0x8086"))]), Some(GpuVendor::Intel));
    // Not a display controller.
    assert_eq!(vendor_from_pci_devices(&vec![dev("0x060400", Some("0x8086"))]), None);
    // Unknown vendor id, unreadable vendor file.
    assert_eq!(vendor_from_pci_devices(&vec![dev("0x030000", Some("0x1af4")), dev("0x030000", None)]), None);
}

#[test]
fn sysfs_first_known_device_decides() {
    let devices = vec![
        dev("0x060400", Some("0x10de")),
        dev("0x030000", Some("0x1af4")),
        dev("0x030000", Some("0x1002")),
        dev("0x030000", Some("0x10de")),
    ];
    assert_eq!(vendor_from_pci_devices(&devices), Some(GpuVendor::Amd));
}

#[test]
fn detect_prefers_sysfs_over_lspci() {
    let devices = vec![dev("0x030000", Some("0x8086"))];
    let lspci = Some("01:00.0 VGA compatible controller: NVIDIA".to_string());
    assert!(!needs_lspci(&devices));
    assert_eq!(detect_gpu(&devices, &lspci), GpuVendor::Intel);
    assert!(needs_lspci(&Vec::new()));
    assert_eq!(detect_gpu(&Vec::new(), &lspci), GpuVendor::Nvidia);
    assert_eq!(detect_gpu(&Vec::new(), &Some("nothing here".to_string())), GpuVendor::Unknown);
}

#[test]
fn parse_lspci_unknown_vendor_is_none() {
    let output = "03:00.0 VGA compatible controller: ASPEED Technology, Inc. ASPEED Graphics Family (rev 41)";
    assert_eq!(parse_lspci_output(output), None);
    assert_eq!(parse_lspci_output("00:02.0 VGA compatible controller: Matrox G200eR2"), None);
    // Vendor names count only as whole words.
    assert_eq!(parse_lspci_output("00:02.0 VGA controller: Nvidiaish Intellect Amdahl"), None);
    assert_eq!(parse_lspci_output("00:02.0 VGA controller: [ATI]"), Some(GpuVendor::Amd));
}

#[test]
fn other_lines_do_not_change_detection() {
    let extra = "00:1f.0 ISA bridge: Intel Corporation\r\n00:14.0 USB controller: AMD\n";
    let texts = [
        "01:00.0 VGA compatible controller: NVIDIA Corporation AD102",
        "00:02.0 VGA compatible controller: Intel Corporation UHD 630\r",
        "03:00.0 VGA compatible controller: ASPEED Graphics\n",
        "",
    ];
    assert_eq!(vendor_from_lowercase_lspci(&extra.to_lowercase()), None);
    for text in texts {
        let lower = text.to_lowercase();
        let extra = extra.to_lowercase();
        let alone = vendor_from_lowercase_lspci(&lower);
        assert_eq!(vendor_from_lowercase_lspci(&format!("{extra}\n{lower}")), alone);
        assert_eq!(vendor_from_lowercase_lspci(&format!("{lower}\n{extra}")), alone);
        assert_eq!(parse_lspci_output(&format!("{text}\n{extra}")), parse_lspci_output(text));
    }
}

#[test]
fn other_raw_lines_do_not_change_parsing() {
    let extra = "00:1F.0 ISA Bridge: INTEL Corporation\r\n00:14.0 USB Controller: AMD";
    let texts = [
        "01:00.0 VGA compatible controller: NVIDIA Corporation AD102",
        "00:02.0 3D Controller: Intel Corporation UHD 630\r",
        "03:00.0 VGA compatible controller: ASPEED Graphics\n",
        "\u{3a3}\u{3a3} 01:00.0 VGA: AMD",
        "",
    ];
    assert_eq!(parse_lspci_output(extra), None);
    for text in texts {
        let alone = parse_lspci_output(text);
        assert_eq!(parse_lspci_output(&format!("{extra}\n{text}")), alone);
        assert_eq!(parse_lspci_output(&format!("{text}\n{extra}")), alone);
    }
}

#[test]
fn parse_lspci_ignores_ascii_case() {
    let texts = [
        "01:00.0 VGA compatible controller: NVIDIA Corporation AD102",
        "00:02.0 vga compatible controller: intel corporation",
        "03:00.0 3d controller: Advanced Micro Devices, Inc. [AMD/ATI]",
        "00:1f.0 ISA bridge: Intel Corporation",
    ];
    let expected = [
        Some(GpuVendor::Nvidia),
        Some(GpuVendor::Intel),
        Some(GpuVendor::Amd),
        None,
    ];
    for (text, want) in texts.iter().zip(expected) {
        assert_eq!(parse_lspci_output(text), want);
        assert_eq!(parse_lspci_output(&text.to_ascii_uppercase()), want);
        assert_eq!(parse_lspci_output(&text.to_ascii_lowercase()), want);
    }
}
