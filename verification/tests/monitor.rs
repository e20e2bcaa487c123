use pointify::monitor::{
    active_state_offset, contains, counter_delta, cpu_sensor, disk_counter_key,
    energy_unit_exponent, is_cpu_label, is_gpu_temp_key, is_gpu_temp_sensor, vram_reading, parse_dvfs_mhz, previous_counter,
    smc_key_code, smc_key_count, smc_key_name, smc_value_bytes, GpuMonitor, KeyInfo, KeyLookup,
    SmcKeyCache, SMC_FLOAT_TYPE,
};

fn strings(v: &[&str]) -> Vec<String> {
    v.iter().map(|x| x.to_string()).collect()
}

#[test]
fn previous_reading_or_current() {
    let history = vec![("eth0".to_string(), 100u64), ("eth0".to_string(), 50u64)];
    assert_eq!(previous_counter(&history, "eth0", 200), 100);
    assert_eq!(previous_counter(&history, "wlan0", 200), 200);
    assert_eq!(previous_counter(&Vec::new(), "x", 7), 7);
}

#[test]
fn counter_delta_saturates_on_reset() {
    assert_eq!(counter_delta(150, 100), 50);
    assert_eq!(counter_delta(100, 150), 0);
    assert_eq!(counter_delta(5, 5), 0);
}

#[test]
fn disk_counter_keys() {
    assert_eq!(disk_counter_key("sda", "/"), "sda:/");
}

#[test]
fn cpu_sensor_by_lowercased_label() {
    assert_eq!(cpu_sensor(&strings(&["acpitz", "nvme Composite", "k10temp Tctl"])), Some(2));
    assert_eq!(cpu_sensor(&strings(&["GPU", "CPU Die", "coretemp"])), Some(1));
    assert_eq!(cpu_sensor(&strings(&["Package id 0 CoreTemp"])), Some(0));
    assert_eq!(cpu_sensor(&strings(&["acpitz", "nvme"])), None);
    assert_eq!(cpu_sensor(&Vec::new()), None);
}

#[test]
fn cpu_labels() {
    for l in ["cpu", "x86_pkg_cpu", "coretemp", "k10temp", "zenpower", "soc_thermal"] {
        assert!(is_cpu_label(l), "{}", l);
    }
    assert!(!is_cpu_label("CPU"));
    assert!(!is_cpu_label("gpu"));
}

#[test]
fn substring_search() {
    assert!(contains("abcdef", "cde"));
    assert!(contains("abc", ""));
    assert!(!contains("ab", "abc"));
    assert!(!contains("abcdef", "ce"));
}

#[test]
fn dvfs_table_frequencies() {
    let table = [
        0x00, 0xCA, 0x9A, 0x3B, 1, 2, 3, 4, 0x80, 0x84, 0x1E, 0x00, 0, 0, 0, 0, 9,
    ];
    assert_eq!(parse_dvfs_mhz(&table), vec![1000, 2]);
    assert!(parse_dvfs_mhz(&[1, 2, 3]).is_empty());
}

#[test]
fn smc_key_codes_and_names() {
    assert_eq!(smc_key_code("#KEY"), Some(592135513));
    assert_eq!(smc_key_code("TG0P"), Some(1413951568));
    assert_eq!(smc_key_code("Tg0"), None);
    assert_eq!(smc_key_code("Tg0PX"), None);
    assert_eq!(smc_key_name(1416048720), "Tg0P");
    assert_eq!(smc_key_name(0xFF00_0000), "");
}

#[test]
fn smc_key_count_reads_big_endian() {
    assert_eq!(smc_key_count(&vec![0, 0, 1, 2, 9]), Some(258));
    assert_eq!(smc_key_count(&vec![0, 0, 1]), None);
}

#[test]
fn gpu_temperature_keys() {
    let float4 = KeyInfo { data_size: 4, data_type: SMC_FLOAT_TYPE, data_attributes: 0 };
    assert!(is_gpu_temp_key("Tg0P", float4));
    assert!(!is_gpu_temp_key("TC0P", float4));
    assert!(!is_gpu_temp_key("Tg0P", KeyInfo { data_size: 2, ..float4 }));
    assert!(!is_gpu_temp_key("Tg0P", KeyInfo { data_type: 0, ..float4 }));
}

#[test]
fn smc_value_prefix() {
    assert_eq!(smc_value_bytes(&[1, 2, 3, 4, 5], 2), vec![1, 2]);
    assert!(smc_value_bytes(&[1, 2], 0).is_empty());
}

#[test]
fn key_cache_remembers_infos() {
    let info = KeyInfo { data_size: 4, data_type: SMC_FLOAT_TYPE, data_attributes: 1 };
    let mut cache = SmcKeyCache::new();
    assert_eq!(cache.lookup("abc"), KeyLookup::NotAKey);
    assert_eq!(cache.lookup("Tg0P"), KeyLookup::Missing(1416048720));
    cache.remember(1416048720, info);
    assert_eq!(cache.lookup("Tg0P"), KeyLookup::Cached(info));
    assert_eq!(cache.lookup("TG0P"), KeyLookup::Missing(1413951568));
}

#[test]
fn active_performance_states() {
    assert_eq!(active_state_offset(&strings(&["IDLE", "OFF", "P1", "P2"])), 2);
    assert_eq!(active_state_offset(&strings(&["P1", "IDLE"])), 0);
    assert_eq!(active_state_offset(&strings(&["IDLE", "DOWN"])), 0);
    assert_eq!(active_state_offset(&Vec::new()), 0);
}

#[test]
fn energy_units() {
    assert_eq!(energy_unit_exponent("mJ"), Some(3));
    assert_eq!(energy_unit_exponent("uJ"), Some(6));
    assert_eq!(energy_unit_exponent("nJ"), Some(9));
    assert_eq!(energy_unit_exponent("J"), None);
}

#[test]
fn gpu_monitor_opens_without_panicking() {
    let m = GpuMonitor::new();
    if let Some(n) = &m.nvidia {
        assert!(n.device_count < 1024);
    }
}

#[test]
fn vram_reading_needs_both_figures_and_a_total() {
    assert_eq!(vram_reading(Some(8192), Some(2048)), Some((2048, 8192)));
    assert_eq!(vram_reading(Some(0), Some(0)), None);
    assert_eq!(vram_reading(None, Some(10)), None);
    assert_eq!(vram_reading(Some(10), None), None);
}

#[test]
fn gpu_temp_sensor_by_product_name() {
    assert!(is_gpu_temp_sensor("GPU MTR Temp Sensor1"));
    assert!(!is_gpu_temp_sensor("PMU tdie1"));
    assert!(!is_gpu_temp_sensor("GPU MTR Temp"));
}
