use whichllm::hardware::amd::{amd_card, amd_gpus_from_adapters, estimate_amd_bandwidth, parse_rocm_smi};
use whichllm::hardware::apple::{apple_gpu, estimate_apple_bandwidth};
use whichllm::hardware::intel::{
    estimate_intel_bandwidth, estimate_intel_vram, intel_card, intel_gpus_from_adapters,
    intel_name_from_device_id, mac_vram_lines_in_range, macos_vram_in_range, parse_intel_macos,
    parse_macos_vram, parse_xe_smi, read_intel_name, read_intel_vram_mb,
};
use whichllm::hardware::memory::{ram_mb_from_meminfo, ram_mb_from_memsize};
use whichllm::hardware::nvidia::{estimate_bandwidth, parse_nvidia_smi};
use whichllm::hardware::types::{
    make_gpu, min_bandwidth, sums_within, total_vram, AdapterRow, CpuInfo, GpuInfo, GpuVendor,
    HardwareInfo, OsType,
};
use whichllm::hardware::{dedup_gpus_by_name, gpu_table, simulate_gpu, GPU_TABLE_LEN};

fn gpu(name: &str, vram: u64, bw: u64, vendor: GpuVendor) -> GpuInfo {
    make_gpu(name.to_string(), vram, bw, vendor)
}

#[test]
fn nvidia_bandwidth_by_model_number() {
    assert_eq!(estimate_bandwidth("NVIDIA GeForce RTX 4090"), 10080);
    assert_eq!(estimate_bandwidth("NVIDIA GeForce RTX 5090"), 17920);
    assert_eq!(estimate_bandwidth("NVIDIA GeForce RTX 3060"), 3600);
    assert_eq!(estimate_bandwidth("NVIDIA A100-SXM4-80GB"), 20390);
    assert_eq!(estimate_bandwidth("NVIDIA H100 PCIe"), 33520);
    assert_eq!(estimate_bandwidth("Tesla T4"), 5000);
}

#[test]
fn nvidia_smi_lines() {
    let out = "NVIDIA GeForce RTX 4090, 24564\nNVIDIA GeForce RTX 3060, 12288\n";
    let gpus = parse_nvidia_smi(out);
    assert_eq!(gpus.len(), 2);
    assert_eq!(gpus[0].name, "NVIDIA GeForce RTX 4090");
    assert_eq!(gpus[0].vram_mb, 24564);
    assert_eq!(gpus[0].bandwidth_tenths, 10080);
    assert_eq!(gpus[0].vendor, GpuVendor::Nvidia);
    assert_eq!(gpus[1].name, "NVIDIA GeForce RTX 3060");
    assert_eq!(gpus[1].vram_mb, 12288);
    assert_eq!(gpus[1].bandwidth_tenths, 3600);
}

#[test]
fn nvidia_smi_skips_bad_lines() {
    let out = "garbage\nTesla T4, [N/A]\nTesla T4 , 15360 \r\n";
    let gpus = parse_nvidia_smi(out);
    assert_eq!(gpus.len(), 1);
    assert_eq!(gpus[0].name, "Tesla T4");
    assert_eq!(gpus[0].vram_mb, 15360);
    assert_eq!(gpus[0].bandwidth_tenths, 5000);
    assert!(parse_nvidia_smi("").is_empty());
}

#[test]
fn apple_bandwidth_by_memory() {
    assert_eq!(estimate_apple_bandwidth(131072), 4000);
    assert_eq!(estimate_apple_bandwidth(65536), 4000);
    assert_eq!(estimate_apple_bandwidth(36864), 3000);
    assert_eq!(estimate_apple_bandwidth(18432), 2000);
    assert_eq!(estimate_apple_bandwidth(16384), 1000);
}

#[test]
fn apple_gpu_from_profiler() {
    let profiler = "Graphics/Displays:\n\n    Apple M2 Pro:\n\n      Chipset Model: Apple M2 Pro\n      Type: GPU\n";
    let g = apple_gpu(profiler, Some("34359738368\n")).unwrap();
    assert_eq!(g.name, "Apple M2 Pro");
    assert_eq!(g.vram_mb, 32768);
    assert_eq!(g.bandwidth_tenths, 2000);
    assert_eq!(g.vendor, GpuVendor::Apple);
}

#[test]
fn apple_gpu_without_chipset_or_memory() {
    let g = apple_gpu("nothing here", Some("17179869184")).unwrap();
    assert_eq!(g.name, "Apple Silicon");
    assert_eq!(g.vram_mb, 16384);
    assert_eq!(g.bandwidth_tenths, 1000);
    assert!(apple_gpu("Chipset Model: Apple M1", None).is_none());
    assert!(apple_gpu("Chipset Model: Apple M1", Some("zero")).is_none());
    assert!(apple_gpu("Chipset Model: Apple M1", Some("0")).is_none());
}

#[test]
fn meminfo_total() {
    let text = "MemFree:         1000 kB\nMemTotal:       32768000 kB\nSwapTotal: 0 kB\n";
    assert_eq!(ram_mb_from_meminfo(text), 32000);
    assert_eq!(ram_mb_from_meminfo("MemFree: 12 kB\n"), 0);
    assert_eq!(ram_mb_from_meminfo("MemTotal: lots\n"), 0);
}

#[test]
fn memsize_bytes() {
    assert_eq!(ram_mb_from_memsize(Some("17179869184\n")), 16384);
    assert_eq!(ram_mb_from_memsize(Some("x")), 0);
    assert_eq!(ram_mb_from_memsize(None), 0);
}

#[test]
fn amd_bandwidth_by_name() {
    assert_eq!(estimate_amd_bandwidth("AMD Radeon RX 7900 XTX"), 9600);
    assert_eq!(estimate_amd_bandwidth("AMD Radeon RX 7900 XT"), 8000);
    assert_eq!(estimate_amd_bandwidth("Radeon RX 6600"), 2240);
    assert_eq!(estimate_amd_bandwidth("AMD Instinct MI300X"), 53000);
    assert_eq!(estimate_amd_bandwidth("Radeon Pro W7900"), 4000);
}

#[test]
fn amd_sysfs_card() {
    let g = amd_card(
        "/sys/class/drm/card1",
        Some("0x1002\n"),
        Some("25753026560\n"),
        None,
        Some("AMD Radeon RX 7900 XTX\n"),
        None,
    )
    .unwrap();
    assert_eq!(g.name, "AMD Radeon RX 7900 XTX");
    assert_eq!(g.vram_mb, 24560);
    assert_eq!(g.bandwidth_tenths, 9600);
    assert_eq!(g.vendor, GpuVendor::Amd);
}

#[test]
fn amd_sysfs_card_fallbacks() {
    let g = amd_card("/sys/class/drm/card0", Some("0x1002"), None, Some("8589934592"), None, None)
        .unwrap();
    assert_eq!(g.name, "AMD GPU (card0)");
    assert_eq!(g.vram_mb, 8192);
    assert_eq!(g.bandwidth_tenths, 4000);
    assert!(amd_card("/sys/class/drm/card0", Some("0x10de"), None, None, None, None).is_none());
    assert!(amd_card("/sys/class/drm/card0", None, None, None, None, None).is_none());
}

#[test]
fn rocm_smi_output() {
    let out = "card0: Radeon RX 7900 XTX\nTotal: 24560\nGPU ID: 1\ncard1: Radeon RX 6600\nTotal: 8176\n";
    let gpus = parse_rocm_smi(out);
    assert_eq!(gpus.len(), 2);
    assert_eq!(gpus[0].name, "Radeon RX 7900 XTX");
    assert_eq!(gpus[0].vram_mb, 24560);
    assert_eq!(gpus[0].bandwidth_tenths, 9600);
    // The GPU still open at the end of the output keeps a bandwidth of zero.
    assert_eq!(gpus[1].name, "Radeon RX 6600");
    assert_eq!(gpus[1].vram_mb, 8176);
    assert_eq!(gpus[1].bandwidth_tenths, 0);
}

#[test]
fn rocm_smi_kib_figures() {
    let out = "card0: Radeon RX 6800\nTotal: 600000\nProduct Name: x\n";
    let gpus = parse_rocm_smi(out);
    assert_eq!(gpus.len(), 1);
    assert_eq!(gpus[0].vram_mb, 585);
    assert_eq!(gpus[0].bandwidth_tenths, 5120);
}

#[test]
fn amd_windows_adapters() {
    let rows = vec![
        AdapterRow { name: Some("AMD Radeon RX 6800 XT".to_string()), adapter_ram: Some(4293918720) },
        AdapterRow { name: None, adapter_ram: None },
    ];
    let gpus = amd_gpus_from_adapters(&rows);
    assert_eq!(gpus.len(), 2);
    assert_eq!(gpus[0].vram_mb, 4095);
    assert_eq!(gpus[0].bandwidth_tenths, 5120);
    assert_eq!(gpus[1].name, "AMD GPU");
    assert_eq!(gpus[1].vram_mb, 0);
    assert_eq!(gpus[1].bandwidth_tenths, 4000);
}

#[test]
fn intel_device_ids() {
    assert_eq!(intel_name_from_device_id("0x5690"), "Intel Arc A770");
    assert_eq!(intel_name_from_device_id("0x56A0"), "Intel Arc A750");
    assert_eq!(intel_name_from_device_id("0xE20B"), "Intel Arc B580");
    assert_eq!(intel_name_from_device_id("0x9A49"), "Intel Iris Xe");
    // Ids are compared exactly, case included.
    assert_eq!(intel_name_from_device_id("0xe20b"), "Intel GPU (0xe20b)");
    assert_eq!(intel_name_from_device_id("0x1234"), "Intel GPU (0x1234)");
}

#[test]
fn intel_vram_and_bandwidth_guesses() {
    assert_eq!(estimate_intel_vram("Intel Arc A770 Graphics"), 8192);
    assert_eq!(estimate_intel_vram("Intel(R) Arc(TM) A380"), 512);
    assert_eq!(estimate_intel_vram("INTEL ARC B580"), 12288);
    assert_eq!(estimate_intel_vram("Intel UHD Graphics 770"), 512);
    assert_eq!(estimate_intel_bandwidth("Intel Arc A750"), 5120);
    assert_eq!(estimate_intel_bandwidth("Intel Arc B570"), 2400);
    assert_eq!(estimate_intel_bandwidth("Intel Iris Xe Graphics"), 680);
    assert_eq!(estimate_intel_bandwidth("Intel UHD Graphics"), 500);
}

#[test]
fn intel_sysfs_card() {
    assert_eq!(read_intel_vram_mb(Some("17163091968\n")), 16368);
    assert_eq!(read_intel_vram_mb(Some("0")), 0);
    assert_eq!(read_intel_vram_mb(None), 0);
    assert_eq!(read_intel_name(Some("  Intel Arc A770 \n"), Some("0x56A0")), "Intel Arc A770");
    assert_eq!(read_intel_name(Some("   "), Some("0x5690\n")), "Intel Arc A770");
    assert_eq!(read_intel_name(None, None), "Intel GPU");
    let g = intel_card(Some("0x8086\n"), Some("17163091968"), None, Some("0xE20B")).unwrap();
    assert_eq!(g.name, "Intel Arc B580");
    assert_eq!(g.vram_mb, 16368);
    assert_eq!(g.bandwidth_tenths, 2720);
    assert_eq!(g.vendor, GpuVendor::Intel);
    assert!(intel_card(Some("0x1002"), None, None, None).is_none());
}

#[test]
fn xe_smi_output() {
    let out = "GPU Name: Intel Arc A770\nVRAM total: 16384 MiB\nDevice Name: N/A\n";
    let gpus = parse_xe_smi(out);
    assert_eq!(gpus.len(), 1);
    assert_eq!(gpus[0].name, "Intel Arc A770");
    assert_eq!(gpus[0].vram_mb, 16384);
    assert_eq!(gpus[0].bandwidth_tenths, 5120);
}

#[test]
fn intel_windows_adapters() {
    let rows = vec![
        AdapterRow { name: Some("Intel(R) UHD Graphics".to_string()), adapter_ram: None },
        AdapterRow { name: Some("Intel(R) Arc(TM) A770 Graphics".to_string()), adapter_ram: Some(2147483648) },
        AdapterRow { name: Some("Intel Arc B580".to_string()), adapter_ram: None },
    ];
    let gpus = intel_gpus_from_adapters(&rows);
    assert_eq!(gpus.len(), 2);
    assert_eq!(gpus[0].name, "Intel(R) Arc(TM) A770 Graphics");
    assert_eq!(gpus[0].vram_mb, 2048);
    assert_eq!(gpus[0].bandwidth_tenths, 500);
    assert_eq!(gpus[1].name, "Intel Arc B580");
    assert_eq!(gpus[1].vram_mb, 512);
    assert_eq!(gpus[1].bandwidth_tenths, 2720);
}

#[test]
fn macos_vram_values() {
    assert_eq!(parse_macos_vram("1536 MB"), Some(1536));
    assert_eq!(parse_macos_vram("8 GB"), Some(8192));
    assert_eq!(parse_macos_vram("8 gb"), Some(8192));
    assert_eq!(parse_macos_vram("1536"), None);
    assert_eq!(parse_macos_vram("lots MB"), None);
    assert!(macos_vram_in_range("8 GB"));
    assert!(!macos_vram_in_range("18446744073709551615 GB"));
    assert!(macos_vram_in_range("18446744073709551615 MB"));
}

#[test]
fn intel_macos_profiler() {
    let out = "    Intel Iris Plus Graphics:\n      Chipset Model: Intel Iris Plus Graphics\n      Vendor: Intel\n      VRAM (Dynamic, Max): 1536 MB\n";
    assert!(mac_vram_lines_in_range(out));
    let g = parse_intel_macos(out).unwrap();
    assert_eq!(g.name, "Intel Iris Plus Graphics");
    assert_eq!(g.vram_mb, 1536);
    assert_eq!(g.bandwidth_tenths, 500);
    assert_eq!(g.vendor, GpuVendor::Intel);
    assert!(parse_intel_macos("Chipset Model: Apple M1\n").is_none());
    assert!(!mac_vram_lines_in_range("VRAM: 18446744073709551615 GB\n"));
    assert!(mac_vram_lines_in_range("VRAM: 99999999999999999999 GB\n"));
}

#[test]
fn simulation_table() {
    let g = simulate_gpu("RTX 4090").unwrap();
    assert_eq!(g.name, "RTX 4090");
    assert_eq!(g.vram_mb, 24576);
    assert_eq!(g.bandwidth_tenths, 10080);
    assert_eq!(g.vendor, GpuVendor::Nvidia);
    let h = simulate_gpu("h100").unwrap();
    assert_eq!(h.name, "H100");
    assert_eq!(h.vram_mb, 81920);
    assert_eq!(h.bandwidth_tenths, 33520);
    let a = simulate_gpu("rx 7900 xtx").unwrap();
    assert_eq!(a.vendor, GpuVendor::Amd);
    let i = simulate_gpu("Arc A770").unwrap();
    assert_eq!(i.vendor, GpuVendor::Intel);
    assert!(simulate_gpu("Voodoo 2").is_none());
}

#[test]
fn simulation_prefers_exact_names() {
    let g = simulate_gpu("RX 7900 XT").unwrap();
    assert_eq!(g.name, "RX 7900 XT");
    assert_eq!(g.vram_mb, 20480);
    assert_eq!(g.bandwidth_tenths, 8000);
    assert_eq!(g.vendor, GpuVendor::Amd);
    let x = simulate_gpu("rx 7900 xtx").unwrap();
    assert_eq!(x.name, "RX 7900 XTX");
    let t = simulate_gpu("RTX 4060 Ti").unwrap();
    assert_eq!(t.name, "RTX 4060 Ti");
    assert_eq!(t.vram_mb, 16384);
    let n = simulate_gpu("rtx 4060").unwrap();
    assert_eq!(n.name, "RTX 4060");
    // Without an exact name, the first entry containing the request.
    let p = simulate_gpu("7900").unwrap();
    assert_eq!(p.name, "RX 7900 XTX");
    let pair = simulate_gpu("2x RX 7900 XT").unwrap();
    assert_eq!(pair.name, "2x RX 7900 XT");
    assert_eq!(pair.vram_mb, 40960);
    assert_eq!(pair.bandwidth_tenths, 8000);
}

#[test]
fn simulation_of_a_pair() {
    let g = simulate_gpu("2x RTX 4090").unwrap();
    assert_eq!(g.name, "2x RTX 4090");
    assert_eq!(g.vram_mb, 49152);
    // VRAM adds up; the pair runs at the bandwidth of one card.
    assert_eq!(g.bandwidth_tenths, 10080);
}

#[test]
fn simulation_table_entries() {
    assert_eq!(GPU_TABLE_LEN, 38);
    assert_eq!(gpu_table(0), ("RTX 5090", 32768, 17920));
    assert_eq!(gpu_table(11), ("A100 80GB", 81920, 20390));
    assert_eq!(gpu_table(37), ("Arc A380", 6144, 2880));
}

#[test]
fn dedup_keeps_first_of_each_name() {
    let gpus = vec![
        gpu("A", 1, 10, GpuVendor::Amd),
        gpu("B", 2, 20, GpuVendor::Intel),
        gpu("A", 3, 30, GpuVendor::Nvidia),
    ];
    let d = dedup_gpus_by_name(gpus);
    assert_eq!(d.len(), 2);
    assert_eq!(d[0].name, "A");
    assert_eq!(d[0].vram_mb, 1);
    assert_eq!(d[1].name, "B");
}

#[test]
fn totals_over_gpus() {
    let gpus = vec![gpu("A", 24576, 10080, GpuVendor::Nvidia), gpu("B", 8192, 2720, GpuVendor::Nvidia)];
    assert_eq!(total_vram(&gpus), 32768);
    assert_eq!(min_bandwidth(&gpus), 2720);
    assert_eq!(min_bandwidth(&vec![]), 0);
    let hw = HardwareInfo {
        gpus,
        cpu: CpuInfo { name: "cpu".to_string(), cores: 8 },
        ram_mb: 65536,
        os: OsType::Linux,
    };
    assert!(sums_within(&hw));
    let fast = HardwareInfo {
        gpus: vec![gpu("A", 1, u64::MAX, GpuVendor::Nvidia)],
        cpu: CpuInfo { name: "cpu".to_string(), cores: 8 },
        ram_mb: 1,
        os: OsType::Linux,
    };
    assert!(!sums_within(&fast));
    let big = HardwareInfo {
        gpus: vec![gpu("A", u64::MAX, 1, GpuVendor::Nvidia)],
        cpu: CpuInfo { name: "cpu".to_string(), cores: 8 },
        ram_mb: 1,
        os: OsType::Linux,
    };
    assert!(!sums_within(&big));
}
