//! Hardware-monitor decisions: counter deltas, CPU temperature sensor
//! choice, the NVIDIA monitor handle, Apple GPU frequency tables and SMC key
//! handling.
use vstd::prelude::*;
use crate::text::{owned, str_eq};
use std::collections::HashMap;
use vstd::string::StringSliceAdditionalSpecFns;

verus! {

broadcast use vstd::std_specs::hash::group_hash_axioms;

/// Value of the first counter recorded under `name`, if any.
pub open spec fn previous_spec(history: Seq<(String, u64)>, name: Seq<char>) -> Option<u64>
    decreases history.len(),
{
    if history.len() == 0 {
        None
    } else if history[0].0@ == name {
        Some(history[0].1)
    } else {
        previous_spec(history.drop_first(), name)
    }
}

/// The previous reading of the counter `name`, or `current` when it was not
/// recorded (so the first delta is zero).
pub fn previous_counter(history: &Vec<(String, u64)>, name: &str, current: u64) -> (r: u64)
    ensures
        r == match previous_spec(history@, name@) {
            Some(v) => v,
            None => current,
        },
{
    let mut i: usize = 0;
    assert(history@.subrange(0, history@.len() as int) =~= history@);
    while i < history.len()
        invariant
            i <= history@.len(),
            previous_spec(history@, name@) == previous_spec(
                history@.subrange(i as int, history@.len() as int),
                name@,
            ),
        decreases history@.len() - i,
    {
        let ghost t = history@.subrange(i as int, history@.len() as int);
        assert(t[0] == history@[i as int]);
        if str_eq(history[i].0.as_str(), name) {
            return history[i].1;
        }
        assert(t.drop_first() =~= history@.subrange(i + 1, history@.len() as int));
        i = i + 1;
    }
    current
}

/// Growth of a monotone counter since the previous reading; 0 when it went
/// backwards (reset).
pub fn counter_delta(current: u64, previous: u64) -> (d: u64)
    ensures
        d == if current >= previous { current - previous } else { 0 },
{
    current.saturating_sub(previous)
}

/// The key under which a disk's I/O counters are remembered:
/// `"{name}:{mount_point}"`.
pub fn disk_counter_key(name: &str, mount_point: &str) -> (k: String)
    ensures
        k@ == name@ + ":"@ + mount_point@,
{
    let mut k = owned(name);
    k.append(":");
    k.append(mount_point);
    k
}

/// What `str::to_lowercase` (full Unicode lower-casing) gives for a text.
pub uninterp spec fn unicode_lowercase(s: Seq<char>) -> Seq<char>;

/// `str::to_lowercase`; the result is named `unicode_lowercase` of the text.
#[verifier::external_body]
fn to_lowercase(s: &str) -> (r: String)
    ensures
        r@ == unicode_lowercase(s@),
{
    s.to_lowercase()
}

/// Whether `pat` occurs in `s`.
pub open spec fn contains_text(s: Seq<char>, pat: Seq<char>) -> bool {
    exists|i: int| 0 <= i && i + pat.len() <= s.len() && #[trigger] s.subrange(i, i + pat.len()) == pat
}

/// `str::contains` for a text pattern.
pub fn contains(s: &str, pat: &str) -> (r: bool)
    ensures
        r == contains_text(s@, pat@),
{
    let n = s.unicode_len();
    let m = pat.unicode_len();
    if m > n {
        assert forall|i: int| 0 <= i && i + pat@.len() <= s@.len() implies #[trigger] s@.subrange(
            i,
            i + pat@.len(),
        ) != pat@ by {}
        return false;
    }
    if m == 0 {
        assert(s@.subrange(0int, 0int + pat@.len()) =~= pat@);
        return true;
    }
    let mut i: usize = 0;
    while i <= n - m
        invariant
            m >= 1,
            n == s@.len(),
            m == pat@.len(),
            m <= n,
            i <= n - m + 1,
            forall|k: int| 0 <= k < i ==> #[trigger] s@.subrange(k, k + m) != pat@,
        decreases n - m + 1 - i,
    {
        let mut j: usize = 0;
        let mut ok = true;
        while j < m
            invariant
                n == s@.len(),
                m == pat@.len(),
                i + m <= n,
                j <= m,
                ok ==> forall|k: int| 0 <= k < j ==> s@[i + k] == pat@[k],
                !ok ==> s@.subrange(i as int, i + m) != pat@,
            decreases m - j,
        {
            if ok && s.get_char(i + j) != pat.get_char(j) {
                assert(s@.subrange(i as int, i + m)[j as int] != pat@[j as int]);
                ok = false;
            }
            j = j + 1;
        }
        if ok {
            assert(s@.subrange(i as int, i + pat@.len()) =~= pat@);
            return true;
        }
        i = i + 1;
    }
    false
}

/// Labels of temperature sensors that measure the CPU.
pub open spec fn cpu_label_matches(lower: Seq<char>) -> bool {
    ||| contains_text(lower, "cpu"@)
    ||| contains_text(lower, "coretemp"@)
    ||| contains_text(lower, "k10temp"@)
    ||| contains_text(lower, "zenpower"@)
    ||| contains_text(lower, "soc_thermal"@)
}

/// Whether a lower-cased sensor label names a CPU sensor: it contains `cpu`,
/// `coretemp`, `k10temp`, `zenpower` or `soc_thermal`.
pub fn is_cpu_label(lower: &str) -> (r: bool)
    ensures
        r == cpu_label_matches(lower@),
{
    contains(lower, "cpu") || contains(lower, "coretemp") || contains(lower, "k10temp") || contains(
        lower,
        "zenpower",
    ) || contains(lower, "soc_thermal")
}

/// Index of the first sensor label that, lower-cased, names a CPU sensor.
pub open spec fn cpu_sensor_spec(labels: Seq<Seq<char>>) -> Option<int>
    decreases labels.len(),
{
    if labels.len() == 0 {
        None
    } else if cpu_label_matches(unicode_lowercase(labels[0])) {
        Some(0)
    } else {
        match cpu_sensor_spec(labels.drop_first()) {
            Some(i) => Some(i + 1),
            None => None,
        }
    }
}

/// The sensor to read the CPU temperature from: the first whose lower-cased
/// label contains `cpu`, `coretemp`, `k10temp`, `zenpower` or `soc_thermal`.
pub fn cpu_sensor(labels: &Vec<String>) -> (r: Option<usize>)
    ensures
        r is None ==> cpu_sensor_spec(crate::claude::texts(labels@)) is None,
        r matches Some(i) ==> i < labels@.len() && cpu_sensor_spec(crate::claude::texts(labels@))
            == Some(i as int),
{
    let ghost v = crate::claude::texts(labels@);
    assert(v.subrange(0, v.len() as int) =~= v);
    let mut i: usize = 0;
    while i < labels.len()
        invariant
            v == crate::claude::texts(labels@),
            i <= labels@.len(),
            cpu_sensor_spec(v) == match cpu_sensor_spec(v.subrange(i as int, v.len() as int)) {
                Some(j) => Some(j + i),
                None => None::<int>,
            },
        decreases labels@.len() - i,
    {
        let ghost t = v.subrange(i as int, v.len() as int);
        assert(t[0] == v[i as int]);
        let lower = to_lowercase(labels[i].as_str());
        if is_cpu_label(lower.as_str()) {
            return Some(i);
        }
        assert(t.drop_first() =~= v.subrange(i + 1, v.len() as int));
        i = i + 1;
    }
    assert(v.subrange(v.len() as int, v.len() as int).len() == 0);
    None
}

#[verifier::external_type_specification]
#[verifier::external_body]
pub struct ExNvml(nvml_wrapper::Nvml);

#[verifier::external_type_specification]
#[verifier::external_body]
pub struct ExNvmlError(nvml_wrapper::error::NvmlError);

/// Initialises the NVIDIA management library (`nvml_wrapper::Nvml::init`);
/// succeeds or fails depending on the machine.
#[verifier::external_body]
fn nvml_init() -> Result<nvml_wrapper::Nvml, nvml_wrapper::error::NvmlError> {
    nvml_wrapper::Nvml::init()
}

/// The number of NVIDIA devices (`nvml_wrapper::Nvml::device_count`); depends
/// on the machine.
#[verifier::external_body]
fn nvml_device_count(nvml: &nvml_wrapper::Nvml) -> Result<u32, nvml_wrapper::error::NvmlError> {
    nvml.device_count()
}

/// A handle on the NVIDIA management library and the number of devices it
/// reported.
pub struct NvidiaMonitor {
    pub nvml: nvml_wrapper::Nvml,
    pub device_count: u32,
}

impl NvidiaMonitor {
    /// Opens the library and counts the devices; `None` when either fails.
    pub fn try_new() -> (r: Option<Self>) {
        let nvml = match nvml_init() {
            Ok(n) => n,
            Err(_) => return None,
        };
        let device_count = match nvml_device_count(&nvml) {
            Ok(c) => c,
            Err(_) => return None,
        };
        Some(NvidiaMonitor { nvml, device_count })
    }
}

/// The GPU monitor: the NVIDIA library handle when one could be opened.
pub struct GpuMonitor {
    pub nvidia: Option<NvidiaMonitor>,
}

impl GpuMonitor {
    /// Tries to open the NVIDIA library; the monitor reports no GPU when that
    /// fails.
    pub fn new() -> (r: Self) {
        GpuMonitor { nvidia: NvidiaMonitor::try_new() }
    }
}

/// The supported frequencies, in MHz, of a voltage-state table: one
/// (frequency, voltage) pair of little-endian 32-bit words per 8 bytes, the
/// frequency in Hz; trailing bytes short of a pair are ignored.
pub open spec fn dvfs_mhz_spec(table: Seq<u8>) -> Seq<u32> {
    Seq::new(
        table.len() / 8,
        |i: int|
            ((table[8 * i] as int + 256 * table[8 * i + 1] as int + 65536 * table[8 * i + 2] as int
                + 16777216 * table[8 * i + 3] as int) / 1_000_000) as u32,
    )
}

/// Reads the frequencies out of a voltage-state table (see `dvfs_mhz_spec`).
pub fn parse_dvfs_mhz(table: &[u8]) -> (freqs: Vec<u32>)
    ensures
        freqs@ == dvfs_mhz_spec(table@),
{
    let n = table.len() / 8;
    assert(table@.len() == table.len());
    let mut freqs: Vec<u32> = Vec::new();
    let mut i: usize = 0;
    while i < n
        invariant
            n == table@.len() / 8,
            table@.len() <= usize::MAX,
            i <= n,
            freqs@.len() == i,
            forall|k: int| 0 <= k < i ==> freqs@[k] == #[trigger] dvfs_mhz_spec(table@)[k],
        decreases n - i,
    {
        let b0 = table[8 * i] as u32;
        let b1 = table[8 * i + 1] as u32;
        let b2 = table[8 * i + 2] as u32;
        let b3 = table[8 * i + 3] as u32;
        let hz: u32 = b0 + 256 * b1 + 65536 * b2 + 16777216 * b3;
        freqs.push(hz / 1_000_000);
        i = i + 1;
    }
    assert(freqs@ =~= dvfs_mhz_spec(table@));
    freqs
}

/// Whether a GPU performance state is an inactive one (`IDLE`, `DOWN`, `OFF`).
pub open spec fn is_inactive_state(name: Seq<char>) -> bool {
    name == "IDLE"@ || name == "DOWN"@ || name == "OFF"@
}

/// Index of the first active state among the residency state names, if any.
pub open spec fn first_active_spec(names: Seq<Seq<char>>) -> Option<int>
    decreases names.len(),
{
    if names.len() == 0 {
        None
    } else if !is_inactive_state(names[0]) {
        Some(0)
    } else {
        match first_active_spec(names.drop_first()) {
            Some(i) => Some(i + 1),
            None => None,
        }
    }
}

/// Where the active GPU performance states begin: the index of the first
/// state that is not `IDLE`, `DOWN` or `OFF`, or 0 when there is none.
pub fn active_state_offset(names: &Vec<String>) -> (r: usize)
    ensures
        r as int == match first_active_spec(crate::claude::texts(names@)) {
            Some(i) => i,
            None => 0,
        },
{
    let ghost v = crate::claude::texts(names@);
    assert(v.subrange(0, v.len() as int) =~= v);
    let mut i: usize = 0;
    while i < names.len()
        invariant
            v == crate::claude::texts(names@),
            i <= names@.len(),
            first_active_spec(v) == match first_active_spec(v.subrange(i as int, v.len() as int)) {
                Some(j) => Some(j + i),
                None => None::<int>,
            },
        decreases names@.len() - i,
    {
        let ghost t = v.subrange(i as int, v.len() as int);
        assert(t[0] == v[i as int]);
        let n = names[i].as_str();
        if !(str_eq(n, "IDLE") || str_eq(n, "DOWN") || str_eq(n, "OFF")) {
            return i;
        }
        assert(t.drop_first() =~= v.subrange(i + 1, v.len() as int));
        i = i + 1;
    }
    assert(v.subrange(v.len() as int, v.len() as int).len() == 0);
    0
}

/// The power of ten an energy counter's unit stands for, in joules: 3 for
/// millijoules, 6 for microjoules, 9 for nanojoules; `None` for another unit.
pub fn energy_unit_exponent(unit: &str) -> (r: Option<u32>)
    ensures
        r == if unit@ == "mJ"@ {
            Some(3u32)
        } else if unit@ == "uJ"@ {
            Some(6u32)
        } else if unit@ == "nJ"@ {
            Some(9u32)
        } else {
            None::<u32>
        },
{
    if str_eq(unit, "mJ") {
        Some(3)
    } else if str_eq(unit, "uJ") {
        Some(6)
    } else if str_eq(unit, "nJ") {
        Some(9)
    } else {
        None
    }
}

/// FourCC of the SMC's floating-point data type (`"flt "`).
pub const SMC_FLOAT_TYPE: u32 = 1718383648;

/// Size and type of an SMC key's value.
#[derive(Clone, Copy, Debug, PartialEq, Eq, Structural)]
pub struct KeyInfo {
    pub data_size: u32,
    pub data_type: u32,
    pub data_attributes: u8,
}

/// The big-endian numeric code of a 4-byte SMC key.
pub open spec fn key_code_spec(bytes: Seq<u8>) -> Option<u32> {
    if bytes.len() == 4 {
        Some(
            (bytes[0] as int * 16777216 + bytes[1] as int * 65536 + bytes[2] as int * 256
                + bytes[3] as int) as u32,
        )
    } else {
        None
    }
}

/// The numeric code of an SMC key: its UTF-8 bytes read big-endian; `None`
/// unless the key is exactly 4 bytes long.
pub fn smc_key_code(key: &str) -> (r: Option<u32>)
    ensures
        r == key_code_spec(key.spec_bytes()),
{
    let b = key.as_bytes();
    if b.len() != 4 {
        return None;
    }
    let code: u32 = (b[0] as u32) * 16777216 + (b[1] as u32) * 65536 + (b[2] as u32) * 256 + b[3] as u32;
    Some(code)
}

/// `str::from_utf8` (owned): the text of valid UTF-8 bytes, `None` otherwise.
#[verifier::external_body]
fn utf8_text(bytes: &[u8]) -> (r: Option<String>)
    ensures
        r is Some == vstd::utf8::valid_utf8(bytes@),
        r matches Some(s) ==> s@ == vstd::utf8::decode_utf8(bytes@),
{
    std::str::from_utf8(bytes).ok().map(|s| s.to_string())
}

/// The four big-endian bytes of a key code.
pub open spec fn code_bytes(code: u32) -> Seq<u8> {
    seq![
        (code as int / 16777216) as u8,
        ((code as int / 65536) % 256) as u8,
        ((code as int / 256) % 256) as u8,
        (code as int % 256) as u8,
    ]
}

/// The name of an SMC key code: its big-endian bytes as UTF-8, or the empty
/// text when they are not valid UTF-8.
pub fn smc_key_name(code: u32) -> (name: String)
    ensures
        name@ == if vstd::utf8::valid_utf8(code_bytes(code)) {
            vstd::utf8::decode_utf8(code_bytes(code))
        } else {
            Seq::empty()
        },
{
    let bytes: Vec<u8> = vec![
        (code >> 24u32) as u8,
        ((code >> 16u32) & 0xFF) as u8,
        ((code >> 8u32) & 0xFF) as u8,
        (code & 0xFF) as u8,
    ];
    assert((code >> 24u32) as u8 == (code as int / 16777216) as u8) by (bit_vector);
    assert(((code >> 16u32) & 0xFF) as u8 == ((code as int / 65536) % 256) as u8) by (bit_vector);
    assert(((code >> 8u32) & 0xFF) as u8 == ((code as int / 256) % 256) as u8) by (bit_vector);
    assert((code & 0xFF) as u8 == (code as int % 256) as u8) by (bit_vector);
    assert(bytes@ =~= code_bytes(code));
    match utf8_text(bytes.as_slice()) {
        Some(s) => s,
        None => String::new(),
    }
}

/// The key count stored in the SMC's `#KEY` value: its first four bytes read
/// big-endian; `None` when the value is shorter.
pub fn smc_key_count(value: &Vec<u8>) -> (r: Option<u32>)
    ensures
        r == if value@.len() >= 4 {
            Some(
                (value@[0] as int * 16777216 + value@[1] as int * 65536 + value@[2] as int * 256
                    + value@[3] as int) as u32,
            )
        } else {
            None::<u32>
        },
{
    if value.len() >= 4 {
        Some(
            (value[0] as u32) * 16777216 + (value[1] as u32) * 65536 + (value[2] as u32) * 256
                + value[3] as u32,
        )
    } else {
        None
    }
}

/// Whether an SMC key is a GPU temperature candidate: its name starts with
/// `Tg`, and its value is a 4-byte float.
pub fn is_gpu_temp_key(key: &str, info: KeyInfo) -> (r: bool)
    ensures
        r == (crate::text::has_prefix(key@, "Tg"@) && info.data_size == 4 && info.data_type
            == SMC_FLOAT_TYPE),
{
    crate::text::starts_with(key, "Tg") && info.data_size == 4 && info.data_type == SMC_FLOAT_TYPE
}

/// Whether an IOHID temperature service is a GPU sensor: its product name
/// starts with `GPU MTR Temp Sensor`.
pub fn is_gpu_temp_sensor(name: &str) -> (r: bool)
    ensures
        r == crate::text::has_prefix(name@, "GPU MTR Temp Sensor"@),
{
    crate::text::starts_with(name, "GPU MTR Temp Sensor")
}

/// The GPU memory figures a VRAM gauge reads, `(used, total)`: present only
/// when both are known and the total is not zero.
pub fn vram_reading(total: Option<u64>, used: Option<u64>) -> (r: Option<(u64, u64)>)
    ensures
        r == match (total, used) {
            (Some(t), Some(u)) => if t > 0 {
                Some((u, t))
            } else {
                None
            },
            _ => None,
        },
{
    match (total, used) {
        (Some(t), Some(u)) => if t > 0 {
            Some((u, t))
        } else {
            None
        },
        _ => None,
    }
}

/// The bytes of an SMC value of `data_size` bytes out of the 32-byte reply.
pub fn smc_value_bytes(reply: &[u8], data_size: u32) -> (r: Vec<u8>)
    requires
        data_size <= reply@.len(),
    ensures
        r@ == reply@.subrange(0, data_size as int),
{
    let n = data_size as usize;
    let mut r: Vec<u8> = Vec::new();
    let mut i: usize = 0;
    while i < n
        invariant
            n == data_size,
            n <= reply@.len(),
            i <= n,
            r@ == reply@.subrange(0, i as int),
        decreases n - i,
    {
        r.push(reply[i]);
        assert(reply@.subrange(0, i + 1) =~= reply@.subrange(0, i as int).push(reply@[i as int]));
        i = i + 1;
    }
    r
}

/// What looking up an SMC key in the cache of key infos found.
#[derive(Clone, Copy, Debug, PartialEq, Eq, Structural)]
pub enum KeyLookup {
    /// The key is not 4 bytes long.
    NotAKey,
    /// The key's info is cached.
    Cached(KeyInfo),
    /// The key's info must be read from the SMC under `code`.
    Missing(u32),
}

/// Cache of SMC key infos by key code.
pub struct SmcKeyCache {
    pub keys: HashMap<u32, KeyInfo>,
}

impl SmcKeyCache {
    pub fn new() -> (r: Self)
        ensures
            r.keys@ == Map::<u32, KeyInfo>::empty(),
    {
        SmcKeyCache { keys: HashMap::new() }
    }

    /// Looks a key up: not a key unless 4 bytes long; cached when its code
    /// was remembered; else missing under its code.
    pub fn lookup(&self, key: &str) -> (r: KeyLookup)
        ensures
            r == match key_code_spec(key.spec_bytes()) {
                None => KeyLookup::NotAKey,
                Some(c) => if self.keys@.contains_key(c) {
                    KeyLookup::Cached(self.keys@[c])
                } else {
                    KeyLookup::Missing(c)
                },
            },
    {
        match smc_key_code(key) {
            None => KeyLookup::NotAKey,
            Some(c) => match self.keys.get(&c) {
                Some(info) => KeyLookup::Cached(*info),
                None => KeyLookup::Missing(c),
            },
        }
    }

    /// Remembers the info read for a key code.
    pub fn remember(&mut self, code: u32, info: KeyInfo)
        ensures
            final(self).keys@ == old(self).keys@.insert(code, info),
    {
        self.keys.insert(code, info);
    }
}

/// Once a key's info is remembered, looking the key up finds it cached.
pub proof fn law_remember_then_lookup(keys: Map<u32, KeyInfo>, key_bytes: Seq<u8>, info: KeyInfo)
    requires
        key_code_spec(key_bytes) is Some,
    ensures
        ({
            let c = key_code_spec(key_bytes)->0;
            let after = keys.insert(c, info);
            after.contains_key(c) && after[c] == info
        }),
{
}

} // verus!
