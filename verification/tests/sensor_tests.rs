use flux::cpu::{
    amd_tctl_offset, brand_string, cpu_family, cpu_info, decode_for, gate_temp, intel_tjmax,
    needs_probe, read_amd17, read_intel, record_probe, refresh_cpu_temp_driver, reset,
    reading_decode, thermal_delta, vendor_string, CpuKind, DriverProbe, TempDecode,
};
use flux::gpu::{
    adapter_temp, after_discovery, best_clock_hz, init_attempts, make_version, result_name,
    version_parts, LibraryState, UsageSampler,
};
use flux::sensor::{
    drive_key, drive_model, drive_order, is_cpu_temp_label, is_gpu_temp_label, is_hwmon_cpu_label,
    memory_type_name, monitor_sensor, ram_info, shorten_cpu_name, wmi_u32, MonitorSensor, WmiNumber,
};
use flux::settings::SnapPosition;

const INTEL: (u32, u32, u32) = (0x756e_6547, 0x4965_6e69, 0x6c65_746e);
const AMD: (u32, u32, u32) = (0x6874_7541, 0x6974_6e65, 0x444d_4163);

#[test]
fn cpu_names_are_shortened() {
    assert_eq!(
        shorten_cpu_name("Intel(R) Core(TM) i7-9700K CPU @ 3.60GHz"),
        "Intel Core i7-9700K CPU @ 3.60GHz"
    );
    assert_eq!(shorten_cpu_name("AMD Ryzen 7 5800X 8-Core Processor            "), "AMD Ryzen 7 5800X");
    assert_eq!(shorten_cpu_name("  Apple   M2  "), "Apple M2");
    assert_eq!(shorten_cpu_name(""), "");
}

#[test]
fn memory_types_by_smbios_code() {
    assert_eq!(memory_type_name(20), "DDR");
    assert_eq!(memory_type_name(26), "DDR4");
    assert_eq!(memory_type_name(34), "DDR5");
    assert_eq!(memory_type_name(0), "");
    assert_eq!(ram_info(3200, 26), Some((3200, "DDR4".to_string())));
    assert_eq!(ram_info(0, 26), None);
    assert_eq!(wmi_u32(Some(WmiNumber::UI2(7))), 7);
    assert_eq!(wmi_u32(Some(WmiNumber::I4(-1))), u32::MAX);
    assert_eq!(wmi_u32(Some(WmiNumber::Other)), 0);
    assert_eq!(wmi_u32(None), 0);
}

#[test]
fn system_drive_comes_first() {
    let mounts = vec!["D:\\".to_string(), "C:\\".to_string(), "E:\\".to_string(), "C:\\mnt".to_string()];
    assert_eq!(drive_order(&mounts), vec![1, 3, 0, 2]);
    assert_eq!(drive_order(&vec![]), Vec::<usize>::new());
}

#[test]
fn drive_keys_and_models() {
    assert_eq!(drive_key("c:\\"), Some("C:".to_string()));
    assert_eq!(drive_key("\\\\"), None);
    assert_eq!(drive_model("  Samsung SSD 980  "), Some("Samsung SSD 980".to_string()));
    assert_eq!(drive_model("   "), None);
}

#[test]
fn sensor_labels() {
    assert!(is_cpu_temp_label("CPU Package"));
    assert!(is_cpu_temp_label("k10temp Tctl"));
    assert!(!is_cpu_temp_label("nvme Composite"));
    assert!(is_gpu_temp_label("amdgpu edge GPU"));
    assert!(!is_gpu_temp_label("acpitz"));
}

#[test]
fn cpu_vendors_and_families() {
    assert_eq!(vendor_string(INTEL.0, INTEL.1, INTEL.2), "GenuineIntel");
    assert_eq!(vendor_string(AMD.0, AMD.1, AMD.2), "AuthenticAMD");
    // Zen 3: base family 0xF + extended 0xA = 0x19.
    assert_eq!(cpu_family(0x00A0_0F00), 0x19);
    assert_eq!(cpu_family(0x0000_0600), 6);
    assert_eq!(cpu_info(AMD.0, AMD.1, AMD.2, 0x00A0_0F00), Some(CpuKind::Amd17));
    assert_eq!(cpu_info(AMD.0, AMD.1, AMD.2, 0x0060_0F00), None);
    assert_eq!(cpu_info(INTEL.0, INTEL.1, INTEL.2, 0x0000_0600), Some(CpuKind::Intel));
    assert_eq!(cpu_info(0, 0, 0, 0), None);
}

#[test]
fn brand_string_from_registers() {
    let text = b"AMD Ryzen 7 1700X Eight-Core Processor\0\0\0\0\0\0\0\0\0\0";
    let regs: Vec<u32> = text.chunks(4).map(|c| u32::from_le_bytes([c[0], c[1], c[2], c[3]])).collect();
    assert_eq!(regs.len(), 12);
    assert_eq!(brand_string(0x8000_0008, &regs), "AMD Ryzen 7 1700X Eight-Core Processor");
    assert_eq!(brand_string(0x8000_0001, &regs), "");
}

#[test]
fn tctl_offsets_by_brand() {
    assert_eq!(amd_tctl_offset("AMD Ryzen 7 1700X Eight-Core Processor"), -20);
    assert_eq!(amd_tctl_offset("AMD Ryzen Threadripper 1950X 16-Core Processor"), -27);
    assert_eq!(amd_tctl_offset("AMD Ryzen 7 2700X Eight-Core Processor"), -10);
    assert_eq!(amd_tctl_offset("AMD Ryzen 9 7950X 16-Core Processor"), 0);
    assert_eq!(decode_for(CpuKind::Amd17, "AMD Ryzen 7 1800X"), TempDecode::Amd17 { tctl_offset: -20 });
    assert_eq!(decode_for(CpuKind::Intel, "x"), TempDecode::Intel);
}

#[test]
fn amd_register_decode() {
    // 400 eighths = 50.0 degrees.
    assert_eq!(read_amd17(400 << 21, 0), 400);
    // Range-select bit: minus 49 degrees.
    assert_eq!(read_amd17((400 << 21) | 0x80000, 0), 8);
    assert_eq!(read_amd17((400 << 21) | 0x30000, 0), 8);
    assert_eq!(read_amd17((400 << 21) | 0x10000, 0), 400);
    assert_eq!(read_amd17(400 << 21, -20), 240);
}

#[test]
fn intel_register_decode() {
    assert_eq!(intel_tjmax(Some(0x0064_0000)), 100);
    assert_eq!(intel_tjmax(Some(0x005F_0000)), 95);
    assert_eq!(intel_tjmax(Some(0)), 100);
    assert_eq!(intel_tjmax(None), 100);
    assert_eq!(thermal_delta(Some(0x8828_0000)), Some(40));
    assert_eq!(thermal_delta(Some(0x0828_0000)), None);
    // Package reading preferred, core reading as the fallback.
    assert_eq!(read_intel(None, Some(0x8828_0000), Some(0x8810_0000)), Some(8 * 60));
    assert_eq!(read_intel(None, None, Some(0x8810_0000)), Some(8 * 84));
    assert_eq!(read_intel(None, Some(0x0828_0000), None), None);
}

#[test]
fn temperature_sanity_gate() {
    assert_eq!(gate_temp(0), Some(0));
    assert_eq!(gate_temp(1040), Some(1040));
    assert_eq!(gate_temp(1041), None);
    assert_eq!(gate_temp(-8), None);
}

#[test]
fn driver_probe_is_cached_until_reset() {
    let mut s = DriverProbe::NotProbed;
    assert!(needs_probe(&s));
    record_probe(&mut s, Some(TempDecode::Intel));
    assert!(!needs_probe(&s));
    reset(&mut s);
    assert!(needs_probe(&s));
    record_probe(&mut s, None);
    assert_eq!(s, DriverProbe::Unavailable);
    refresh_cpu_temp_driver(&mut s);
    assert_eq!(s, DriverProbe::NotProbed);
}

#[test]
fn igcl_versions_and_codes() {
    assert_eq!(make_version(1, 2), 0x0001_0002);
    assert_eq!(version_parts(0x0002_0007), (2, 7));
    assert_eq!(version_parts(make_version(513, 65535)), (513, 65535));
    assert_eq!(result_name(0x4000_0009), "UNSUPPORTED_VERSION");
    assert_eq!(result_name(0), "SUCCESS");
    assert_eq!(result_name(0x4000_0021), "UNKNOWN_APPLICATION_UID");
    assert_eq!(result_name(-1), "");
    let a = init_attempts();
    assert_eq!(a.len(), 10);
    assert_eq!(a[0], (0, 1, 1));
    assert_eq!(a[4], (0, 1, 0));
    assert_eq!(a[5], (1, 1, 1));
    assert!(matches!(after_discovery(false), LibraryState::Failed));
}

#[test]
fn engine_clock_and_temperature() {
    assert_eq!(best_clock_hz(&[None, Some(0), Some(1_200_000_000), Some(900)]), Some(1_200_000_000));
    assert_eq!(best_clock_hz(&[Some(0), None]), Some(0));
    assert_eq!(best_clock_hz(&[None, None]), None);
    assert_eq!(best_clock_hz(&[]), None);
    assert_eq!(adapter_temp(Some(455)), Some(455));
    assert_eq!(adapter_temp(Some(0)), None);
    assert_eq!(adapter_temp(None), None);
}

#[test]
fn usage_sampler_needs_a_baseline() {
    let mut s = UsageSampler::new();
    assert!(s.read(1_000, vec![10, 20]).is_none());
    let r = s.read(1_000_001_000, vec![5_000_010, 1_000_020]).unwrap();
    assert_eq!(r.busiest_100ns, 5_000_000);
    assert_eq!(r.elapsed_ns, 1_000_000_000);
    // A counter that went back counts as idle; a changed engine count has no reading.
    let r2 = s.read(2_000_001_000, vec![4, 1_000_030]).unwrap();
    assert_eq!(r2.busiest_100ns, 10);
    assert!(s.read(3_000_000_000, vec![1]).is_none());
    // No time passed: no reading.
    assert!(s.read(3_000_000_000, vec![2]).is_none());
}

#[test]
fn snap_tags() {
    assert_eq!(SnapPosition::from_tag("BottomLeft"), SnapPosition::BottomLeft);
    assert_eq!(SnapPosition::from_tag("LeftCenter"), SnapPosition::LeftCenter);
    assert_eq!(SnapPosition::from_tag("nowhere"), SnapPosition::TopRight);
}

#[test]
fn cpu_temperature_sensors_are_classified() {
    assert!(is_hwmon_cpu_label("Package id 0\n"));
    assert!(is_hwmon_cpu_label("Tctl"));
    assert!(is_hwmon_cpu_label("TDIE"));
    assert!(!is_hwmon_cpu_label("Core 0"));
    assert!(!is_hwmon_cpu_label("Composite"));
    assert_eq!(monitor_sensor("CPU Package"), MonitorSensor::Package);
    assert_eq!(monitor_sensor("CPU Core #3"), MonitorSensor::Core);
    assert_eq!(monitor_sensor("Core (Tctl/Tdie) CPU"), MonitorSensor::Core);
    assert_eq!(monitor_sensor("GPU Core"), MonitorSensor::Other);
    assert_eq!(monitor_sensor("CPU CCD1"), MonitorSensor::Other);
}

#[test]
fn probe_is_cached_until_reset() {
    let mut st = DriverProbe::NotProbed;
    assert_eq!(reading_decode(&mut st, None), None);
    assert_eq!(st, DriverProbe::Unavailable);
    // A later probe result is ignored until a reset.
    assert_eq!(reading_decode(&mut st, Some(TempDecode::Intel)), None);
    reset(&mut st);
    assert_eq!(reading_decode(&mut st, Some(TempDecode::Intel)), Some(TempDecode::Intel));
    assert_eq!(reading_decode(&mut st, None), Some(TempDecode::Intel));
}
