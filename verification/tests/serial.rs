use pointify::claude::TokenTotals;
use pointify::serial::{
    bucket_key, core_index, disk_label, find_name, is_percentage_metric, is_total, max_rule,
    metric_source, parse_usize, targets_due, tick_ms, token_count, unit_multiplier, upper_bound,
    wire_voltage, request_send_zeros, ClaudeBucket, MaxRule, MetricSource, SerialLoop, TokenField,
    UpperBound, WireVoltage, ZeroRequest,
};

#[test]
fn percentage_metrics() {
    for id in ["cpu_usage", "gpu_vram", "claude_7d_sonnet", "disk_usage", "claude_5h_reset"] {
        assert!(is_percentage_metric(id), "{}", id);
    }
    for id in ["net_rx", "cpu_temp", "claude_code_tokens", ""] {
        assert!(!is_percentage_metric(id), "{}", id);
    }
}

#[test]
fn unit_multipliers() {
    assert_eq!(unit_multiplier("KB/s"), 1024);
    assert_eq!(unit_multiplier("MB/s"), 1_048_576);
    assert_eq!(unit_multiplier("GB/s"), 1_073_741_824);
    assert_eq!(unit_multiplier("Kbps"), 125);
    assert_eq!(unit_multiplier("Mbps"), 125_000);
    assert_eq!(unit_multiplier("Gbps"), 125_000_000);
    assert_eq!(unit_multiplier("GHz"), 1000);
    assert_eq!(unit_multiplier("K"), 1000);
    assert_eq!(unit_multiplier("M"), 1_000_000);
    assert_eq!(unit_multiplier("W"), 1);
}

#[test]
fn full_scale_rules() {
    assert_eq!(max_rule("cpu_usage", &Some("MB/s".to_string())), MaxRule::Percent);
    assert_eq!(
        max_rule("net_rx", &Some("MB/s".to_string())),
        MaxRule::Configured { multiplier: 1_048_576 }
    );
    assert_eq!(max_rule("cpu_temp", &None), MaxRule::Configured { multiplier: 1 });
}

#[test]
fn overshoot_upper_bounds() {
    assert_eq!(upper_bound(false, "3"), UpperBound::FullScale);
    assert_eq!(upper_bound(false, "5"), UpperBound::FullScale);
    assert_eq!(upper_bound(true, "3"), UpperBound::ThreeVoltOvershoot);
    assert_eq!(upper_bound(true, "5"), UpperBound::Unbounded);
}

#[test]
fn wire_voltage_flags() {
    assert_eq!(wire_voltage("3", false), WireVoltage { five_volt: false, scale_down: false });
    assert_eq!(wire_voltage("3", true), WireVoltage { five_volt: true, scale_down: true });
    assert_eq!(wire_voltage("5", false), WireVoltage { five_volt: true, scale_down: false });
    assert_eq!(wire_voltage("5", true), WireVoltage { five_volt: true, scale_down: false });
}

#[test]
fn smoothing_ticks_at_most_every_100ms() {
    assert_eq!(tick_ms(true, 500), 100);
    assert_eq!(tick_ms(true, 50), 50);
    assert_eq!(tick_ms(false, 500), 500);
    assert!(targets_due(200, 200));
    assert!(!targets_due(199, 200));
}

#[test]
fn zeros_sent_once_after_deactivation() {
    let mut l = SerialLoop::new();
    assert!(!l.inactive_tick(false));
    l.active_tick();
    assert!(l.was_active);
    assert!(l.inactive_tick(false));
    assert!(!l.inactive_tick(false));
    assert!(l.inactive_tick(true));
}

#[test]
fn metric_sources() {
    assert_eq!(
        metric_source("claude_5h"),
        MetricSource::ClaudeUtilization(ClaudeBucket::FiveHour)
    );
    assert_eq!(
        metric_source("claude_5h_reset"),
        MetricSource::ClaudeReset { bucket: ClaudeBucket::FiveHour, window_minutes: 300 }
    );
    assert_eq!(
        metric_source("claude_7d_reset"),
        MetricSource::ClaudeReset { bucket: ClaudeBucket::SevenDay, window_minutes: 10080 }
    );
    assert_eq!(
        metric_source("claude_code_io_tokens"),
        MetricSource::ClaudeCodeTokens(TokenField::InputOutput)
    );
    assert_eq!(metric_source("claude_code_cost"), MetricSource::ClaudeCodeCost);
    assert_eq!(metric_source("net_rxtx"), MetricSource::NetRxTx);
    assert_eq!(metric_source("gpu_power"), MetricSource::GpuPower);
    assert_eq!(metric_source("bogus"), MetricSource::Unknown);
}

#[test]
fn bucket_keys() {
    assert_eq!(bucket_key(ClaudeBucket::FiveHour), "five_hour");
    assert_eq!(bucket_key(ClaudeBucket::SevenDay), "seven_day");
    assert_eq!(bucket_key(ClaudeBucket::SevenDaySonnet), "seven_day_sonnet");
}

#[test]
fn token_counts() {
    let t = TokenTotals {
        input_tokens: 1,
        output_tokens: 2,
        cache_creation_tokens: 3,
        cache_read_tokens: 4,
        total_tokens: 10,
    };
    assert_eq!(token_count(&t, TokenField::Total), 10);
    assert_eq!(token_count(&t, TokenField::InputOutput), 3);
    assert_eq!(token_count(&t, TokenField::Input), 1);
    assert_eq!(token_count(&t, TokenField::Output), 2);
    assert_eq!(token_count(&t, TokenField::CacheCreation), 3);
    assert_eq!(token_count(&t, TokenField::CacheRead), 4);
}

#[test]
fn parses_usize_like_from_str() {
    for text in ["0", "7", "+3", "007", "12345", "+0"] {
        assert_eq!(parse_usize(text), text.parse::<usize>().ok(), "{}", text);
    }
    for text in ["", "+", "-1", "12a", " 1", "1 ", "++1"] {
        assert_eq!(parse_usize(text), None, "{}", text);
    }
    let too_big = format!("{}0", usize::MAX);
    assert_eq!(parse_usize(&too_big), None);
    assert_eq!(parse_usize(&usize::MAX.to_string()), Some(usize::MAX));
}

#[test]
fn core_index_of_sub_index() {
    assert_eq!(core_index("Core 3"), Some(3));
    assert_eq!(core_index("Core 12"), Some(12));
    assert_eq!(core_index("Core"), None);
    assert_eq!(core_index("core 3"), None);
    assert_eq!(core_index("Core -1"), None);
    assert_eq!(core_index("Total"), None);
}

#[test]
fn disk_label_and_total() {
    assert_eq!(disk_label("sda1", "/"), "sda1 (/)");
    assert!(is_total("Total"));
    assert!(!is_total("total"));
}

#[test]
fn finds_first_matching_name() {
    let names = vec!["eth0".to_string(), "wlan0".to_string(), "eth0".to_string()];
    assert_eq!(find_name(&names, "wlan0"), Some(1));
    assert_eq!(find_name(&names, "eth0"), Some(0));
    assert_eq!(find_name(&names, "lo"), None);
}

#[test]
fn zero_request_is_taken_once() {
    let r = ZeroRequest::new();
    assert!(!r.take());
    request_send_zeros(&r);
    let shared = ZeroRequest(r.0.clone());
    assert!(shared.take());
    assert!(!r.take());
}
