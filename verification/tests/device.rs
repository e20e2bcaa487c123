use pointify::device::{
    default_claude_refresh, default_cols, default_rows, default_voltage, erase_sector_count,
    firmware_version_label, heartbeat_stale, is_gauge_device, is_watched_device,
    is_listed_port, is_wch_bootloader, monotonic_reading, now_ms, pad_to_sector, select_firmware,
    truncate_millis, wall_reading, zero_on_deactivate, AssetRecord, HeartbeatWatch, MonotonicClock,
};

fn s(v: &str) -> Option<String> {
    Some(v.to_string())
}

#[test]
fn configuration_defaults() {
    assert_eq!(default_voltage(), "3");
    assert_eq!(default_claude_refresh(), 120);
    assert_eq!(default_rows(), 1);
    assert_eq!(default_cols(), 3);
}

#[test]
fn millis_truncate_to_64_bits() {
    assert_eq!(truncate_millis((1u128 << 64) + 5), 5);
    assert_eq!(truncate_millis(1234), 1234);
    let mut clock = MonotonicClock::new();
    let t1 = now_ms(&mut clock);
    assert!(t1 > 1_600_000_000_000);
    assert_eq!(clock.last_ms, t1);
}

#[test]
fn heartbeat_stale_after_a_minute() {
    assert!(heartbeat_stale(100_000, 39_999));
    assert!(!heartbeat_stale(100_000, 40_000));
    assert!(!heartbeat_stale(10, 20));
}

#[test]
fn usb_device_identification() {
    assert!(is_gauge_device(0x0200, 0x02DB));
    assert!(!is_gauge_device(0x0200, 0x02DC));
    assert!(is_wch_bootloader(0x4348, 0x55e0));
    assert!(is_wch_bootloader(0x1a86, 0x55e0));
    assert!(!is_wch_bootloader(0x4348, 0x55e1));
    assert!(is_watched_device(0x0200, 0x02DB));
    assert!(is_watched_device(0x1a86, 0x55e0));
    assert!(!is_watched_device(0x1234, 0x5678));
}

#[test]
fn firmware_version_from_bcd_release() {
    assert_eq!(firmware_version_label(0x0100), "v1.0");
    assert_eq!(firmware_version_label(0x0102), "v1.2");
    assert_eq!(firmware_version_label(0x1234), "v12.34");
    assert_eq!(firmware_version_label(0xFFFF), "v165.165");
}

#[test]
fn zeroing_on_switch_off_only() {
    assert!(zero_on_deactivate(true, false));
    assert!(!zero_on_deactivate(true, true));
    assert!(!zero_on_deactivate(false, false));
}

fn asset(name: Option<String>, url: Option<String>) -> AssetRecord {
    AssetRecord { name, browser_download_url: url }
}

#[test]
fn selects_first_firmware_asset() {
    let assets = Some(vec![
        asset(s("readme.md"), s("u0")),
        asset(None, s("u1")),
        asset(s("pointify-firmware-v1.3.elf"), s("https://x/fw.elf")),
        asset(s("pointify-firmware-v9.elf"), s("u3")),
    ]);
    let info = select_firmware(&s("v1.3"), &assets).unwrap();
    assert_eq!(info.version, "v1.3");
    assert_eq!(info.download_url, "https://x/fw.elf");
    assert_eq!(info.release_tag, "v1.3");
    let info = select_firmware(&None, &assets).unwrap();
    assert_eq!(info.release_tag, "");
}

#[test]
fn firmware_selection_errors() {
    assert_eq!(select_firmware(&s("t"), &None).unwrap_err(), "No assets in release");
    assert_eq!(
        select_firmware(&s("t"), &Some(vec![asset(s("other.bin"), s("u"))])).unwrap_err(),
        "No firmware asset found"
    );
    assert_eq!(
        select_firmware(&s("t"), &Some(vec![asset(s("pointify-firmware-x.elf"), None)]))
            .unwrap_err(),
        "No download URL"
    );
    assert_eq!(
        select_firmware(&s("t"), &Some(vec![asset(s("pointify-firmware-.elf"), s("u"))]))
            .unwrap()
            .version,
        ""
    );
}

#[test]
fn image_padded_to_whole_sectors() {
    let padded = pad_to_sector(vec![1u8; 1000]);
    assert_eq!(padded.len(), 1024);
    assert!(padded[..1000].iter().all(|&b| b == 1));
    assert!(padded[1000..].iter().all(|&b| b == 0));
    assert_eq!(pad_to_sector(vec![7u8; 2048]), vec![7u8; 2048]);
    assert!(pad_to_sector(Vec::new()).is_empty());
    assert_eq!(pad_to_sector(vec![1u8; 1025]).len(), 2048);
}

#[test]
fn erase_counts_one_extra_sector() {
    assert_eq!(erase_sector_count(0), 1);
    assert_eq!(erase_sector_count(1024), 2);
    assert_eq!(erase_sector_count(2048), 3);
}

#[test]
fn clock_never_goes_back() {
    assert_eq!(monotonic_reading(100, 50), 100);
    assert_eq!(monotonic_reading(100, 150), 150);
    let mut clock = MonotonicClock { last_ms: u64::MAX - 1 };
    assert_eq!(now_ms(&mut clock), u64::MAX - 1);
    let mut clock = MonotonicClock::new();
    let a = now_ms(&mut clock);
    let b = now_ms(&mut clock);
    assert!(b >= a);
}

#[test]
fn watchdog_reload_restarts_wait() {
    let mut w = HeartbeatWatch::new(1_000);
    assert!(!w.check(61_000));
    assert!(w.check(61_001));
    assert_eq!(w.last_heartbeat_ms, 61_001);
    assert!(!w.check(121_001));
    assert!(w.check(121_002));
    w.heartbeat(200_000);
    assert!(!w.check(250_000));
}

#[test]
fn listed_ports_are_gauge_boards() {
    assert!(is_listed_port(0x0200, 0x02DB, "/dev/ttyACM0", false));
    assert!(is_listed_port(0x0200, 0x02DB, "/dev/tty.usbmodem1", false));
    assert!(!is_listed_port(0x0200, 0x02DB, "/dev/tty.usbmodem1", true));
    assert!(is_listed_port(0x0200, 0x02DB, "/dev/cu.usbmodem1", true));
    assert!(!is_listed_port(0x1a86, 0x55e0, "/dev/cu.x", true));
}

#[test]
fn wall_reading_truncates_and_maps_missing_to_zero() {
    assert_eq!(wall_reading(Some(1_700_000_000_123)), 1_700_000_000_123);
    assert_eq!(wall_reading(Some((1u128 << 64) + 5)), 5);
    assert_eq!(wall_reading(None), 0);
}
