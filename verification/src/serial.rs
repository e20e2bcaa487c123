//! Decisions of the serial gauge loop: which metric a gauge shows, how its
//! full scale is found, the wire voltage flag, and the loop's own state.
use vstd::prelude::*;
use crate::claude::TokenTotals;
use crate::text::{has_prefix, starts_with, str_eq};

verus! {

/// Metrics whose value is already a percentage (full scale 100).
pub open spec fn is_percentage_spec(id: Seq<char>) -> bool {
    ||| id == "cpu_usage"@
    ||| id == "cpu_core_usage"@
    ||| id == "mem_usage"@
    ||| id == "swap_usage"@
    ||| id == "gpu_util"@
    ||| id == "gpu_vram"@
    ||| id == "claude_5h"@
    ||| id == "claude_5h_reset"@
    ||| id == "claude_7d"@
    ||| id == "claude_7d_reset"@
    ||| id == "claude_7d_sonnet"@
    ||| id == "disk_usage"@
}

/// Whether a metric's value is a percentage.
pub fn is_percentage_metric(id: &str) -> (r: bool)
    ensures
        r == is_percentage_spec(id@),
{
    str_eq(id, "cpu_usage") || str_eq(id, "cpu_core_usage") || str_eq(id, "mem_usage") || str_eq(
        id,
        "swap_usage",
    ) || str_eq(id, "gpu_util") || str_eq(id, "gpu_vram") || str_eq(id, "claude_5h") || str_eq(
        id,
        "claude_5h_reset",
    ) || str_eq(id, "claude_7d") || str_eq(id, "claude_7d_reset") || str_eq(id, "claude_7d_sonnet")
        || str_eq(id, "disk_usage")
}

/// Base units per unit of a configured full scale.
pub open spec fn unit_multiplier_spec(unit: Seq<char>) -> u64 {
    if unit == "KB/s"@ {
        1024
    } else if unit == "MB/s"@ {
        1_048_576
    } else if unit == "GB/s"@ {
        1_073_741_824
    } else if unit == "Kbps"@ {
        125
    } else if unit == "Mbps"@ {
        125_000
    } else if unit == "Gbps"@ {
        125_000_000
    } else if unit == "GHz"@ {
        1000
    } else if unit == "K"@ {
        1000
    } else if unit == "M"@ {
        1_000_000
    } else {
        1
    }
}

/// How many base units (bytes per second, MHz, tokens) one unit of a
/// configured full scale stands for; 1 for an unknown unit.
pub fn unit_multiplier(unit: &str) -> (m: u64)
    ensures
        m == unit_multiplier_spec(unit@),
{
    if str_eq(unit, "KB/s") {
        1024
    } else if str_eq(unit, "MB/s") {
        1_048_576
    } else if str_eq(unit, "GB/s") {
        1_073_741_824
    } else if str_eq(unit, "Kbps") {
        125
    } else if str_eq(unit, "Mbps") {
        125_000
    } else if str_eq(unit, "Gbps") {
        125_000_000
    } else if str_eq(unit, "GHz") {
        1000
    } else if str_eq(unit, "K") {
        1000
    } else if str_eq(unit, "M") {
        1_000_000
    } else {
        1
    }
}

/// How a gauge's full scale is found.
#[derive(Clone, Copy, Debug, PartialEq, Eq, Structural)]
pub enum MaxRule {
    /// The metric is a percentage: full scale 100.
    Percent,
    /// The configured maximum times `multiplier` when it is positive, else 1.
    Configured { multiplier: u64 },
}

/// The full-scale rule of a gauge showing `metric_id` with the configured
/// unit `max_unit` (no unit counts as multiplier 1).
pub fn max_rule(metric_id: &str, max_unit: &Option<String>) -> (r: MaxRule)
    ensures
        r == if is_percentage_spec(metric_id@) {
            MaxRule::Percent
        } else {
            MaxRule::Configured {
                multiplier: match max_unit {
                    Some(u) => unit_multiplier_spec(u@),
                    None => 1,
                },
            }
        },
{
    if is_percentage_metric(metric_id) {
        MaxRule::Percent
    } else {
        let multiplier = match max_unit {
            Some(u) => unit_multiplier(u.as_str()),
            None => 1,
        };
        MaxRule::Configured { multiplier }
    }
}

/// The upper clamp of a gauge's fraction of full scale.
#[derive(Clone, Copy, Debug, PartialEq, Eq, Structural)]
pub enum UpperBound {
    /// Full scale (1.0).
    FullScale,
    /// Overshoot on 3 V gauges: 3.5/3 of full scale.
    ThreeVoltOvershoot,
    /// Overshoot on 5 V gauges: no upper clamp.
    Unbounded,
}

/// The upper clamp for the configured overshoot and gauge voltage.
pub fn upper_bound(overshoot: bool, voltage: &str) -> (r: UpperBound)
    ensures
        r == if !overshoot {
            UpperBound::FullScale
        } else if voltage@ == "3"@ {
            UpperBound::ThreeVoltOvershoot
        } else {
            UpperBound::Unbounded
        },
{
    if !overshoot {
        UpperBound::FullScale
    } else if str_eq(voltage, "3") {
        UpperBound::ThreeVoltOvershoot
    } else {
        UpperBound::Unbounded
    }
}

/// How levels go on the wire for a gauge voltage.
#[derive(Clone, Copy, Debug, PartialEq, Eq, Structural)]
pub struct WireVoltage {
    /// The voltage flag of every word.
    pub five_volt: bool,
    /// Levels are scaled by 3/5 before sending (3 V gauges in overshoot mode
    /// are sent as 5 V gauges, so the firmware skips its own 3/5 scaling).
    pub scale_down: bool,
}

/// The wire voltage flag and scaling: 3 V gauges in overshoot mode go out as
/// 5 V gauges with their levels scaled down here.
pub open spec fn wire_voltage_spec(voltage: Seq<char>, overshoot: bool) -> WireVoltage {
    WireVoltage {
        five_volt: voltage == "5"@ || (overshoot && voltage == "3"@),
        scale_down: overshoot && voltage == "3"@,
    }
}

/// The wire voltage flag and scaling for the configured gauge voltage.
pub fn wire_voltage(voltage: &str, overshoot: bool) -> (r: WireVoltage)
    ensures
        r == wire_voltage_spec(voltage@, overshoot),
{
    let overshoot_3v = overshoot && str_eq(voltage, "3");
    let five_volt = str_eq(voltage, "5") || overshoot_3v;
    WireVoltage { five_volt, scale_down: overshoot_3v }
}

/// Milliseconds between two sends: at most 100 when smoothing.
pub fn tick_ms(smooth: bool, interval_ms: u64) -> (r: u64)
    ensures
        r == if smooth && interval_ms > 100 { 100 } else { interval_ms },
{
    if smooth && interval_ms > 100 { 100 } else { interval_ms }
}

/// Whether the gauge targets are due for a refresh from fresh metrics.
pub fn targets_due(elapsed_ms: u128, interval_ms: u64) -> (r: bool)
    ensures
        r == (elapsed_ms >= interval_ms),
{
    elapsed_ms >= interval_ms as u128
}

/// What the loop does on a tick while the gauges are switched off.
#[derive(Clone, Copy, Debug, PartialEq, Eq, Structural)]
pub struct SerialLoop {
    /// The previous tick had the gauges switched on.
    pub was_active: bool,
}

/// Whether an inactive tick zeroes the gauges.
pub open spec fn sends_zeros(s: SerialLoop, zero_requested: bool) -> bool {
    s.was_active || zero_requested
}

/// The loop's state after an inactive tick.
pub open spec fn after_inactive_tick(s: SerialLoop) -> SerialLoop {
    SerialLoop { was_active: false }
}

/// Switching the gauges off zeroes them once: the first inactive tick after
/// an active one zeroes them, and the ticks after it zero them again only on
/// request.
pub proof fn law_zero_once(s: SerialLoop, zero_requested: bool)
    ensures
        sends_zeros(SerialLoop { was_active: true }, zero_requested),
        !sends_zeros(after_inactive_tick(s), false),
        sends_zeros(after_inactive_tick(s), true),
{
}

impl SerialLoop {
    pub fn new() -> (r: Self)
        ensures
            !r.was_active,
    {
        SerialLoop { was_active: false }
    }

    /// A tick with the gauges switched off: returns whether to zero the
    /// gauges now, which is when they were on at the previous tick or a
    /// zeroing was requested.
    pub fn inactive_tick(&mut self, zero_requested: bool) -> (send_zeros: bool)
        ensures
            send_zeros == sends_zeros(*old(self), zero_requested),
            *final(self) == after_inactive_tick(*old(self)),
    {
        let send = self.was_active || zero_requested;
        self.was_active = false;
        send
    }

    /// A tick with the gauges switched on.
    pub fn active_tick(&mut self)
        ensures
            final(self).was_active,
    {
        self.was_active = true;
    }
}

/// A request, shared between threads, that the serial loop zero the gauges
/// once (made when the gauges are switched off).
#[derive(Clone)]
pub struct ZeroRequest(pub std::sync::Arc<std::sync::atomic::AtomicBool>);

impl ZeroRequest {
    /// No request pending.
    pub fn new() -> (r: Self) {
        ZeroRequest(std::sync::Arc::new(std::sync::atomic::AtomicBool::new(false)))
    }

    /// Takes the pending request: whether one was made since the last take.
    pub fn take(&self) -> (requested: bool) {
        self.0.swap(false, std::sync::atomic::Ordering::Relaxed)
    }
}

/// Asks the serial loop to zero the gauges on its next tick with the gauges
/// switched off.
pub fn request_send_zeros(request: &ZeroRequest) {
    request.0.store(true, std::sync::atomic::Ordering::Relaxed);
}

/// A usage bucket of the chat service's usage API.
#[derive(Clone, Copy, Debug, PartialEq, Eq, Structural)]
pub enum ClaudeBucket {
    FiveHour,
    SevenDay,
    SevenDaySonnet,
}

/// A coding-agent token count.
#[derive(Clone, Copy, Debug, PartialEq, Eq, Structural)]
pub enum TokenField {
    Total,
    InputOutput,
    Input,
    Output,
    CacheCreation,
    CacheRead,
}

/// Where a gauge's value comes from.
#[derive(Clone, Copy, Debug, PartialEq, Eq, Structural)]
pub enum MetricSource {
    /// Utilization of a chat-service usage bucket.
    ClaudeUtilization(ClaudeBucket),
    /// Elapsed part of a chat-service usage window of `window_minutes`.
    ClaudeReset { bucket: ClaudeBucket, window_minutes: u64 },
    ClaudeCodeTokens(TokenField),
    ClaudeCodeCost,
    CpuUsage,
    CpuCoreUsage,
    CpuTemp,
    CpuCoreFreq,
    CpuPower,
    MemUsage,
    SwapUsage,
    NetRx,
    NetTx,
    NetRxTx,
    DiskUsage,
    DiskRead,
    DiskWrite,
    DiskRw,
    GpuUtil,
    GpuTemp,
    GpuVram,
    GpuClock,
    GpuPower,
    Unknown,
}

/// The source of a metric identifier.
pub open spec fn metric_source_spec(id: Seq<char>) -> MetricSource {
    if id == "claude_5h"@ {
        MetricSource::ClaudeUtilization(ClaudeBucket::FiveHour)
    } else if id == "claude_5h_reset"@ {
        MetricSource::ClaudeReset { bucket: ClaudeBucket::FiveHour, window_minutes: 300 }
    } else if id == "claude_7d"@ {
        MetricSource::ClaudeUtilization(ClaudeBucket::SevenDay)
    } else if id == "claude_7d_reset"@ {
        MetricSource::ClaudeReset { bucket: ClaudeBucket::SevenDay, window_minutes: 10080 }
    } else if id == "claude_7d_sonnet"@ {
        MetricSource::ClaudeUtilization(ClaudeBucket::SevenDaySonnet)
    } else if id == "claude_code_tokens"@ {
        MetricSource::ClaudeCodeTokens(TokenField::Total)
    } else if id == "claude_code_io_tokens"@ {
        MetricSource::ClaudeCodeTokens(TokenField::InputOutput)
    } else if id == "claude_code_input_tokens"@ {
        MetricSource::ClaudeCodeTokens(TokenField::Input)
    } else if id == "claude_code_output_tokens"@ {
        MetricSource::ClaudeCodeTokens(TokenField::Output)
    } else if id == "claude_code_cache_creation_tokens"@ {
        MetricSource::ClaudeCodeTokens(TokenField::CacheCreation)
    } else if id == "claude_code_cache_read_tokens"@ {
        MetricSource::ClaudeCodeTokens(TokenField::CacheRead)
    } else if id == "claude_code_cost"@ {
        MetricSource::ClaudeCodeCost
    } else {
        system_source_spec(id)
    }
}

pub open spec fn system_source_spec(id: Seq<char>) -> MetricSource {
    if id == "cpu_usage"@ {
        MetricSource::CpuUsage
    } else if id == "cpu_core_usage"@ {
        MetricSource::CpuCoreUsage
    } else if id == "cpu_temp"@ {
        MetricSource::CpuTemp
    } else if id == "cpu_core_freq"@ {
        MetricSource::CpuCoreFreq
    } else if id == "cpu_power"@ {
        MetricSource::CpuPower
    } else if id == "mem_usage"@ {
        MetricSource::MemUsage
    } else if id == "swap_usage"@ {
        MetricSource::SwapUsage
    } else if id == "net_rx"@ {
        MetricSource::NetRx
    } else if id == "net_tx"@ {
        MetricSource::NetTx
    } else if id == "net_rxtx"@ {
        MetricSource::NetRxTx
    } else if id == "disk_usage"@ {
        MetricSource::DiskUsage
    } else if id == "disk_read"@ {
        MetricSource::DiskRead
    } else if id == "disk_write"@ {
        MetricSource::DiskWrite
    } else if id == "disk_rw"@ {
        MetricSource::DiskRw
    } else if id == "gpu_util"@ {
        MetricSource::GpuUtil
    } else if id == "gpu_temp"@ {
        MetricSource::GpuTemp
    } else if id == "gpu_vram"@ {
        MetricSource::GpuVram
    } else if id == "gpu_clock"@ {
        MetricSource::GpuClock
    } else if id == "gpu_power"@ {
        MetricSource::GpuPower
    } else {
        MetricSource::Unknown
    }
}

fn system_source(id: &str) -> (r: MetricSource)
    ensures
        r == system_source_spec(id@),
{
    if str_eq(id, "cpu_usage") {
        MetricSource::CpuUsage
    } else if str_eq(id, "cpu_core_usage") {
        MetricSource::CpuCoreUsage
    } else if str_eq(id, "cpu_temp") {
        MetricSource::CpuTemp
    } else if str_eq(id, "cpu_core_freq") {
        MetricSource::CpuCoreFreq
    } else if str_eq(id, "cpu_power") {
        MetricSource::CpuPower
    } else if str_eq(id, "mem_usage") {
        MetricSource::MemUsage
    } else if str_eq(id, "swap_usage") {
        MetricSource::SwapUsage
    } else if str_eq(id, "net_rx") {
        MetricSource::NetRx
    } else if str_eq(id, "net_tx") {
        MetricSource::NetTx
    } else if str_eq(id, "net_rxtx") {
        MetricSource::NetRxTx
    } else if str_eq(id, "disk_usage") {
        MetricSource::DiskUsage
    } else if str_eq(id, "disk_read") {
        MetricSource::DiskRead
    } else if str_eq(id, "disk_write") {
        MetricSource::DiskWrite
    } else if str_eq(id, "disk_rw") {
        MetricSource::DiskRw
    } else if str_eq(id, "gpu_util") {
        MetricSource::GpuUtil
    } else if str_eq(id, "gpu_temp") {
        MetricSource::GpuTemp
    } else if str_eq(id, "gpu_vram") {
        MetricSource::GpuVram
    } else if str_eq(id, "gpu_clock") {
        MetricSource::GpuClock
    } else if str_eq(id, "gpu_power") {
        MetricSource::GpuPower
    } else {
        MetricSource::Unknown
    }
}

/// Where the value of metric `id` comes from.
pub fn metric_source(id: &str) -> (r: MetricSource)
    ensures
        r == metric_source_spec(id@),
{
    if str_eq(id, "claude_5h") {
        MetricSource::ClaudeUtilization(ClaudeBucket::FiveHour)
    } else if str_eq(id, "claude_5h_reset") {
        MetricSource::ClaudeReset { bucket: ClaudeBucket::FiveHour, window_minutes: 300 }
    } else if str_eq(id, "claude_7d") {
        MetricSource::ClaudeUtilization(ClaudeBucket::SevenDay)
    } else if str_eq(id, "claude_7d_reset") {
        MetricSource::ClaudeReset { bucket: ClaudeBucket::SevenDay, window_minutes: 10080 }
    } else if str_eq(id, "claude_7d_sonnet") {
        MetricSource::ClaudeUtilization(ClaudeBucket::SevenDaySonnet)
    } else if str_eq(id, "claude_code_tokens") {
        MetricSource::ClaudeCodeTokens(TokenField::Total)
    } else if str_eq(id, "claude_code_io_tokens") {
        MetricSource::ClaudeCodeTokens(TokenField::InputOutput)
    } else if str_eq(id, "claude_code_input_tokens") {
        MetricSource::ClaudeCodeTokens(TokenField::Input)
    } else if str_eq(id, "claude_code_output_tokens") {
        MetricSource::ClaudeCodeTokens(TokenField::Output)
    } else if str_eq(id, "claude_code_cache_creation_tokens") {
        MetricSource::ClaudeCodeTokens(TokenField::CacheCreation)
    } else if str_eq(id, "claude_code_cache_read_tokens") {
        MetricSource::ClaudeCodeTokens(TokenField::CacheRead)
    } else if str_eq(id, "claude_code_cost") {
        MetricSource::ClaudeCodeCost
    } else {
        system_source(id)
    }
}

/// Each coding-agent metric id reads the count it names: `claude_code_tokens`
/// the total, `claude_code_io_tokens` input plus output,
/// `claude_code_input_tokens`, `claude_code_output_tokens`,
/// `claude_code_cache_creation_tokens` and `claude_code_cache_read_tokens`
/// their own count, and `claude_code_cost` today's cost.
pub proof fn law_token_metrics(id: Seq<char>)
    ensures
        id == "claude_code_tokens"@ ==> metric_source_spec(id) == MetricSource::ClaudeCodeTokens(
            TokenField::Total,
        ),
        id == "claude_code_io_tokens"@ ==> metric_source_spec(id)
            == MetricSource::ClaudeCodeTokens(TokenField::InputOutput),
        id == "claude_code_input_tokens"@ ==> metric_source_spec(id)
            == MetricSource::ClaudeCodeTokens(TokenField::Input),
        id == "claude_code_output_tokens"@ ==> metric_source_spec(id)
            == MetricSource::ClaudeCodeTokens(TokenField::Output),
        id == "claude_code_cache_creation_tokens"@ ==> metric_source_spec(id)
            == MetricSource::ClaudeCodeTokens(TokenField::CacheCreation),
        id == "claude_code_cache_read_tokens"@ ==> metric_source_spec(id)
            == MetricSource::ClaudeCodeTokens(TokenField::CacheRead),
        id == "claude_code_cost"@ ==> metric_source_spec(id) == MetricSource::ClaudeCodeCost,
{
    reveal_strlit("claude_5h");
    reveal_strlit("claude_5h_reset");
    reveal_strlit("claude_7d");
    reveal_strlit("claude_7d_reset");
    reveal_strlit("claude_7d_sonnet");
    reveal_strlit("claude_code_tokens");
    reveal_strlit("claude_code_io_tokens");
    reveal_strlit("claude_code_input_tokens");
    reveal_strlit("claude_code_output_tokens");
    reveal_strlit("claude_code_cache_creation_tokens");
    reveal_strlit("claude_code_cache_read_tokens");
    reveal_strlit("claude_code_cost");
    assert("claude_5h"@.len() == 9);
    assert("claude_5h_reset"@.len() == 15);
    assert("claude_7d"@.len() == 9);
    assert("claude_7d_reset"@.len() == 15);
    assert("claude_7d_sonnet"@.len() == 16);
    assert("claude_code_tokens"@.len() == 18);
    assert("claude_code_io_tokens"@.len() == 21);
    assert("claude_code_input_tokens"@.len() == 24);
    assert("claude_code_output_tokens"@.len() == 25);
    assert("claude_code_cache_creation_tokens"@.len() == 33);
    assert("claude_code_cache_read_tokens"@.len() == 29);
    assert("claude_code_cost"@.len() == 16);
    assert("claude_code_cost"@[7] != "claude_7d_sonnet"@[7]);
}

/// The usage-API key of a bucket.
pub open spec fn bucket_key_spec(b: ClaudeBucket) -> Seq<char> {
    match b {
        ClaudeBucket::FiveHour => "five_hour"@,
        ClaudeBucket::SevenDay => "seven_day"@,
        ClaudeBucket::SevenDaySonnet => "seven_day_sonnet"@,
    }
}

/// The usage bucket a source reads, if it reads one.
pub open spec fn source_bucket(s: MetricSource) -> Option<ClaudeBucket> {
    match s {
        MetricSource::ClaudeUtilization(b) => Some(b),
        MetricSource::ClaudeReset { bucket, .. } => Some(bucket),
        _ => None,
    }
}

/// Each chat-usage metric reads the bucket its id names, by the bucket's
/// usage-API key: `claude_5h` and `claude_5h_reset` read `five_hour`,
/// `claude_7d` and `claude_7d_reset` read `seven_day`, `claude_7d_sonnet`
/// reads `seven_day_sonnet`; the `_reset` ids show the elapsed part of the
/// window (300 or 10080 minutes) and the others its utilization; no other id
/// reads a bucket.
pub proof fn law_usage_metric_buckets(id: Seq<char>)
    ensures
        source_bucket(metric_source_spec(id)) is Some <==> (id == "claude_5h"@ || id
            == "claude_5h_reset"@ || id == "claude_7d"@ || id == "claude_7d_reset"@ || id
            == "claude_7d_sonnet"@),
        id == "claude_5h"@ ==> metric_source_spec(id) is ClaudeUtilization && bucket_key_spec(
            source_bucket(metric_source_spec(id))->0,
        ) == "five_hour"@,
        id == "claude_5h_reset"@ ==> metric_source_spec(id) is ClaudeReset && bucket_key_spec(
            source_bucket(metric_source_spec(id))->0,
        ) == "five_hour"@ && metric_source_spec(id)->window_minutes == 300,
        id == "claude_7d"@ ==> metric_source_spec(id) is ClaudeUtilization && bucket_key_spec(
            source_bucket(metric_source_spec(id))->0,
        ) == "seven_day"@,
        id == "claude_7d_reset"@ ==> metric_source_spec(id) is ClaudeReset && bucket_key_spec(
            source_bucket(metric_source_spec(id))->0,
        ) == "seven_day"@ && metric_source_spec(id)->window_minutes == 10080,
        id == "claude_7d_sonnet"@ ==> metric_source_spec(id) is ClaudeUtilization
            && bucket_key_spec(source_bucket(metric_source_spec(id))->0) == "seven_day_sonnet"@,
{
    reveal_strlit("claude_5h");
    reveal_strlit("claude_5h_reset");
    reveal_strlit("claude_7d");
    reveal_strlit("claude_7d_reset");
    reveal_strlit("claude_7d_sonnet");
    reveal_strlit("five_hour");
    reveal_strlit("seven_day");
    reveal_strlit("seven_day_sonnet");
    assert("claude_7d"@[7] != "claude_5h"@[7]);
    assert("claude_7d_reset"@[7] != "claude_5h_reset"@[7]);
    assert("claude_7d"@ != "claude_5h"@);
    assert("claude_7d_reset"@ != "claude_5h_reset"@);
    assert("claude_7d_sonnet"@.len() != "claude_5h_reset"@.len());
    assert("claude_7d_sonnet"@.len() != "claude_7d_reset"@.len());
}

pub fn bucket_key(b: ClaudeBucket) -> (k: &'static str)
    ensures
        k@ == bucket_key_spec(b),
{
    match b {
        ClaudeBucket::FiveHour => "five_hour",
        ClaudeBucket::SevenDay => "seven_day",
        ClaudeBucket::SevenDaySonnet => "seven_day_sonnet",
    }
}

/// A coding-agent token count of today's totals; the input+output count is
/// their sum.
pub fn token_count(t: &TokenTotals, f: TokenField) -> (n: u64)
    requires
        f == TokenField::InputOutput ==> t.input_tokens + t.output_tokens <= u64::MAX,
    ensures
        n == match f {
            TokenField::Total => t.total_tokens as int,
            TokenField::InputOutput => t.input_tokens + t.output_tokens,
            TokenField::Input => t.input_tokens as int,
            TokenField::Output => t.output_tokens as int,
            TokenField::CacheCreation => t.cache_creation_tokens as int,
            TokenField::CacheRead => t.cache_read_tokens as int,
        },
{
    match f {
        TokenField::Total => t.total_tokens,
        TokenField::InputOutput => t.input_tokens + t.output_tokens,
        TokenField::Input => t.input_tokens,
        TokenField::Output => t.output_tokens,
        TokenField::CacheCreation => t.cache_creation_tokens,
        TokenField::CacheRead => t.cache_read_tokens,
    }
}

/// Whether a character is an ASCII digit.
pub open spec fn is_digit(c: char) -> bool {
    '0' <= c && c <= '9'
}

/// The value of a string of ASCII digits.
pub open spec fn digits_value(s: Seq<char>) -> int
    decreases s.len(),
{
    if s.len() == 0 {
        0
    } else {
        digits_value(s.drop_last()) * 10 + (s.last() as int - '0' as int)
    }
}

/// `s` without one leading `+`.
pub open spec fn unsigned_digits(s: Seq<char>) -> Seq<char> {
    if s.len() > 0 && s[0] == '+' {
        s.drop_first()
    } else {
        s
    }
}

/// Every character of `s` is an ASCII digit.
pub open spec fn all_digits(s: Seq<char>) -> bool {
    forall|i: int| 0 <= i < s.len() ==> is_digit(#[trigger] s[i])
}

/// `usize::from_str`: an optional `+`, then one or more ASCII digits whose
/// value fits in `usize`.
pub open spec fn parse_usize_spec(s: Seq<char>) -> Option<int> {
    let d = unsigned_digits(s);
    if d.len() > 0 && all_digits(d) && digits_value(d) <= usize::MAX {
        Some(digits_value(d))
    } else {
        None
    }
}

proof fn lemma_digits_value_nonneg(s: Seq<char>)
    requires
        forall|i: int| 0 <= i < s.len() ==> is_digit(#[trigger] s[i]),
    ensures
        digits_value(s) >= 0,
    decreases s.len(),
{
    if s.len() > 0 {
        lemma_digits_value_nonneg(s.drop_last());
    }
}

proof fn lemma_digits_value_grows(s: Seq<char>, i: int)
    requires
        0 <= i <= s.len(),
        forall|k: int| 0 <= k < s.len() ==> is_digit(#[trigger] s[k]),
    ensures
        digits_value(s.subrange(0, i)) <= digits_value(s),
    decreases s.len() - i,
{
    if i < s.len() {
        lemma_digits_value_grows(s, i + 1);
        assert(s.subrange(0, i + 1).drop_last() =~= s.subrange(0, i));
        lemma_digits_value_nonneg(s.subrange(0, i));
    } else {
        assert(s.subrange(0, i) =~= s);
    }
}

/// Parses a decimal `usize` as `usize::from_str` does.
pub fn parse_usize(s: &str) -> (r: Option<usize>)
    ensures
        r is None ==> parse_usize_spec(s@) is None,
        r matches Some(v) ==> parse_usize_spec(s@) == Some(v as int),
{
    let n = s.unicode_len();
    let start: usize = if n > 0 && s.get_char(0) == '+' { 1 } else { 0 };
    let ghost d = unsigned_digits(s@);
    assert(d =~= s@.subrange(start as int, n as int));
    if start >= n {
        return None;
    }
    let mut value: usize = 0;
    let mut i: usize = start;
    while i < n
        invariant
            n == s@.len(),
            start <= i <= n,
            d == s@.subrange(start as int, n as int),
            d == unsigned_digits(s@),
            forall|k: int| 0 <= k < i - start ==> is_digit(#[trigger] d[k]),
            value == digits_value(d.subrange(0, i - start)),
        decreases n - i,
    {
        let c = s.get_char(i);
        proof {
            assert(d[i - start] == c);
        }
        if !('0' <= c && c <= '9') {
            proof {
                let k = i - start;
                assert(0 <= k < d.len());
                assert(!is_digit(d[k]));
                assert(!all_digits(d));
            }
            return None;
        }
        let digit = (c as u32 - '0' as u32) as usize;
        proof {
            assert(d.subrange(0, i - start + 1).drop_last() =~= d.subrange(0, i - start));
            assert(d.subrange(0, i - start + 1).last() == c);
        }
        let next = match value.checked_mul(10) {
            Some(v10) => v10.checked_add(digit),
            None => None,
        };
        match next {
            Some(v) => {
                value = v;
            },
            None => {
                proof {
                    assert(value * 10 + digit > usize::MAX);
                    assert(digits_value(d.subrange(0, i - start + 1)) == value * 10 + digit);
                    if all_digits(d) {
                        lemma_digits_value_grows(d, i - start + 1);
                        assert(digits_value(d) > usize::MAX);
                    }
                }
                return None;
            },
        }
        i = i + 1;
    }
    assert(d.subrange(0, n - start) =~= d);
    Some(value)
}

/// The core index a sub-index names: `Core <n>` with `<n>` a `usize`.
pub open spec fn core_index_spec(sub_index: Seq<char>) -> Option<int> {
    if has_prefix(sub_index, "Core "@) {
        parse_usize_spec(sub_index.subrange(5, sub_index.len() as int))
    } else {
        None
    }
}

/// The core a sub-index such as `Core 3` names.
pub fn core_index(sub_index: &str) -> (r: Option<usize>)
    ensures
        r is None ==> core_index_spec(sub_index@) is None,
        r matches Some(v) ==> core_index_spec(sub_index@) == Some(v as int),
{
    proof {
        reveal_strlit("Core ");
    }
    if starts_with(sub_index, "Core ") {
        let n = sub_index.unicode_len();
        parse_usize(sub_index.substring_char(5, n))
    } else {
        None
    }
}

/// The label of a disk: `"{name} ({mount_point})"`.
pub fn disk_label(name: &str, mount_point: &str) -> (l: String)
    ensures
        l@ == name@ + " ("@ + mount_point@ + ")"@,
{
    let mut l = crate::text::owned(name);
    l.append(" (");
    l.append(mount_point);
    l.append(")");
    l
}

/// Whether a sub-index asks for the total over all interfaces or disks.
pub fn is_total(sub_index: &str) -> (r: bool)
    ensures
        r == (sub_index@ == "Total"@),
{
    str_eq(sub_index, "Total")
}

/// Index of the first name equal to `key`, if any.
pub open spec fn find_name_spec(names: Seq<Seq<char>>, key: Seq<char>) -> Option<int>
    decreases names.len(),
{
    if names.len() == 0 {
        None
    } else if names[0] == key {
        Some(0)
    } else {
        match find_name_spec(names.drop_first(), key) {
            Some(i) => Some(i + 1),
            None => None,
        }
    }
}

/// Index of the first of `names` equal to `key` (the interface, disk or GPU a
/// gauge follows).
pub fn find_name(names: &Vec<String>, key: &str) -> (r: Option<usize>)
    ensures
        r is None ==> find_name_spec(crate::claude::texts(names@), key@) is None,
        r matches Some(i) ==> i < names@.len() && find_name_spec(crate::claude::texts(names@), key@)
            == Some(i as int),
{
    let ghost v = crate::claude::texts(names@);
    assert(v.subrange(0, v.len() as int) =~= v);
    let mut i: usize = 0;
    while i < names.len()
        invariant
            v == crate::claude::texts(names@),
            i <= names@.len(),
            find_name_spec(v, key@) == match find_name_spec(v.subrange(i as int, v.len() as int), key@) {
                Some(j) => Some(j + i),
                None => None::<int>,
            },
        decreases names@.len() - i,
    {
        let ghost t = v.subrange(i as int, v.len() as int);
        assert(t[0] == v[i as int]);
        if str_eq(names[i].as_str(), key) {
            return Some(i);
        }
        assert(t.drop_first() =~= v.subrange(i + 1, v.len() as int));
        i = i + 1;
    }
    assert(v.subrange(v.len() as int, v.len() as int).len() == 0);
    None
}

} // verus!
