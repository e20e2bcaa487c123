//! Application-level decisions: configuration defaults, the WebView
//! heartbeat watchdog, USB device identification, the firmware version label
//! and firmware release/flash preparation.
use vstd::prelude::*;
use crate::text::{decimal, decimal_spec, ends_with, has_prefix, has_suffix, owned, starts_with};

verus! {

/// Default gauge voltage of a saved configuration.
pub fn default_voltage() -> (v: String)
    ensures
        v@ == "3"@,
{
    owned("3")
}

/// Default refresh interval of the chat-service usage, in seconds, of a saved configuration.
pub fn default_claude_refresh() -> (r: u64)
    ensures
        r == 120,
{
    120
}

/// Default number of gauge rows of a saved configuration.
pub fn default_rows() -> (r: usize)
    ensures
        r == 1,
{
    1
}

/// Default number of gauge columns of a saved configuration.
pub fn default_cols() -> (r: usize)
    ensures
        r == 3,
{
    3
}

/// Milliseconds since the Unix epoch by the system clock, `None` when the
/// clock is before the epoch (`SystemTime::now().duration_since(UNIX_EPOCH)`,
/// as milliseconds). Depends on the clock.
#[verifier::external_body]
fn unix_time_millis() -> Option<u128> {
    std::time::SystemTime::now().duration_since(std::time::UNIX_EPOCH).ok().map(|d| d.as_millis())
}

/// A millisecond clock that never goes back: the highest reading it has given.
pub struct MonotonicClock {
    pub last_ms: u64,
}

impl MonotonicClock {
    /// A clock that has given no reading yet.
    pub fn new() -> (c: Self)
        ensures
            c.last_ms == 0,
    {
        MonotonicClock { last_ms: 0 }
    }
}

/// A reading held monotonic: the newer of the clock's last reading and the
/// fresh one.
pub fn monotonic_reading(last_ms: u64, fresh_ms: u64) -> (r: u64)
    ensures
        r == if fresh_ms > last_ms { fresh_ms } else { last_ms },
{
    if fresh_ms > last_ms { fresh_ms } else { last_ms }
}

/// Monotonic millisecond timestamp for heartbeat liveness checks: the wall
/// clock's milliseconds since the Unix epoch (truncated to 64 bits, 0 when
/// the clock reads before the epoch), never below an earlier reading of the
/// same `clock`.
pub fn now_ms(clock: &mut MonotonicClock) -> (r: u64)
    ensures
        r >= old(clock).last_ms,
        final(clock).last_ms == r,
{
    let wall = wall_reading(unix_time_millis());
    let r = monotonic_reading(clock.last_ms, wall);
    clock.last_ms = r;
    r
}

/// The wall clock's reading in milliseconds since the Unix epoch, truncated
/// to 64 bits; 0 when the clock read before the epoch (`None`).
pub fn wall_reading(ms: Option<u128>) -> (r: u64)
    ensures
        r as int == match ms {
            Some(m) => m as int % 0x1_0000_0000_0000_0000,
            None => 0,
        },
{
    match ms {
        Some(m) => truncate_millis(m),
        None => 0,
    }
}

/// A millisecond count truncated to 64 bits.
pub fn truncate_millis(ms: u128) -> (r: u64)
    ensures
        r as int == ms as int % 0x1_0000_0000_0000_0000,
{
    assert(ms as u64 as int == ms as int % 0x1_0000_0000_0000_0000) by (bit_vector);
    ms as u64
}

/// Milliseconds without a heartbeat after which the WebView is reloaded.
pub const HEARTBEAT_STALE_MS: u64 = 60_000;

/// The last heartbeat is more than a minute old at `now_ms` (a heartbeat
/// from the future counts as fresh).
pub open spec fn stale_spec(now_ms: u64, last_heartbeat_ms: u64) -> bool {
    now_ms > last_heartbeat_ms && now_ms - last_heartbeat_ms > HEARTBEAT_STALE_MS
}

/// Whether the WebView must be reloaded: the last heartbeat is more than a
/// minute old (a heartbeat from the future counts as fresh).
pub fn heartbeat_stale(now_ms: u64, last_heartbeat_ms: u64) -> (r: bool)
    ensures
        r == stale_spec(now_ms, last_heartbeat_ms),
{
    now_ms.saturating_sub(last_heartbeat_ms) > HEARTBEAT_STALE_MS
}

/// The watchdog's memory: when the user interface last reported it was alive
/// (or was last reloaded).
pub struct HeartbeatWatch {
    pub last_heartbeat_ms: u64,
}

impl HeartbeatWatch {
    /// A watchdog seeded at `now_ms`, so it does not fire before the page loads.
    pub fn new(now_ms: u64) -> (w: Self)
        ensures
            w.last_heartbeat_ms == now_ms,
    {
        HeartbeatWatch { last_heartbeat_ms: now_ms }
    }

    /// The user interface reported it is alive at `now_ms`.
    pub fn heartbeat(&mut self, now_ms: u64)
        ensures
            final(self).last_heartbeat_ms == now_ms,
    {
        self.last_heartbeat_ms = now_ms;
    }

    /// A watchdog check at `now_ms`: returns whether to reload, which is
    /// when the last heartbeat is more than a minute old; a reload restarts
    /// the wait from `now_ms`.
    pub fn check(&mut self, now_ms: u64) -> (reload: bool)
        ensures
            reload == stale_spec(now_ms, old(self).last_heartbeat_ms),
            final(self).last_heartbeat_ms == if reload {
                now_ms
            } else {
                old(self).last_heartbeat_ms
            },
    {
        let reload = heartbeat_stale(now_ms, self.last_heartbeat_ms);
        if reload {
            self.last_heartbeat_ms = now_ms;
        }
        reload
    }
}

/// The watchdog reloads only after more than a minute without a heartbeat,
/// and each reload restarts that wait: after a reload at `t1`, a check at
/// `t2` with no heartbeat between reloads again exactly when `t2` is more
/// than a minute after `t1`.
pub proof fn law_reload_restarts_wait(last: u64, t1: u64, t2: u64)
    ensures
        stale_spec(t1, last) ==> t1 - last > 60_000,
        stale_spec(t2, t1) == (t2 > t1 && t2 - t1 > 60_000),
{
}

/// USB vendor id of the gauge board.
pub const GAUGE_VID: u16 = 0x0200;
/// USB product id of the gauge board.
pub const GAUGE_PID: u16 = 0x02DB;
/// USB product id of the WCH bootloader (under either WCH vendor id).
pub const WCH_BOOTLOADER_PID: u16 = 0x55e0;

/// Whether a USB device is the gauge board.
pub fn is_gauge_device(vid: u16, pid: u16) -> (r: bool)
    ensures
        r == (vid == GAUGE_VID && pid == GAUGE_PID),
{
    vid == GAUGE_VID && pid == GAUGE_PID
}

/// Whether a USB device is the gauge board's WCH bootloader.
pub fn is_wch_bootloader(vid: u16, pid: u16) -> (r: bool)
    ensures
        r == ((vid == 0x4348 || vid == 0x1a86) && pid == WCH_BOOTLOADER_PID),
{
    (vid == 0x4348 || vid == 0x1a86) && pid == WCH_BOOTLOADER_PID
}

/// Whether a connected USB device should refresh the serial port list.
pub fn is_watched_device(vid: u16, pid: u16) -> (r: bool)
    ensures
        r == ((vid == GAUGE_VID && pid == GAUGE_PID) || ((vid == 0x4348 || vid == 0x1a86) && pid
            == WCH_BOOTLOADER_PID)),
{
    is_gauge_device(vid, pid) || is_wch_bootloader(vid, pid)
}

/// Whether a serial port is offered to the user: it belongs to the gauge
/// board, and on macOS it is not a `/dev/tty.*` node (the `/dev/cu.*` twin
/// flushes reliably on close).
pub fn is_listed_port(vid: u16, pid: u16, port_name: &str, on_macos: bool) -> (r: bool)
    ensures
        r == (vid == GAUGE_VID && pid == GAUGE_PID && !(on_macos && crate::monitor::contains_text(
            port_name@,
            "/dev/tty."@,
        ))),
{
    is_gauge_device(vid, pid) && !(on_macos && crate::monitor::contains(port_name, "/dev/tty."))
}

/// The two BCD digit pairs of a USB device release number, as numbers.
pub open spec fn bcd_pair(hi: int, lo: int) -> int {
    hi * 10 + lo
}

/// The firmware version label of a USB device release number: `v{major}.{minor}`
/// with major from the high byte's BCD digits and minor from the low byte's.
pub fn firmware_version_label(release: u16) -> (label: String)
    ensures
        label@ == "v"@ + decimal_spec(
            bcd_pair((release as int / 4096) % 16, (release as int / 256) % 16) as nat,
        ) + "."@ + decimal_spec(bcd_pair((release as int / 16) % 16, release as int % 16) as nat),
{
    let d3 = (release >> 12u16) & 0xF;
    let d2 = (release >> 8u16) & 0xF;
    let d1 = (release >> 4u16) & 0xF;
    let d0 = release & 0xF;
    assert(d3 as int == (release as int / 4096) % 16) by (bit_vector)
        requires d3 == (release >> 12u16) & 0xF;
    assert(d2 as int == (release as int / 256) % 16) by (bit_vector)
        requires d2 == (release >> 8u16) & 0xF;
    assert(d1 as int == (release as int / 16) % 16) by (bit_vector)
        requires d1 == (release >> 4u16) & 0xF;
    assert(d0 as int == release as int % 16) by (bit_vector)
        requires d0 == release & 0xF;
    let major: u128 = (d3 as u128) * 10 + d2 as u128;
    let minor: u128 = (d1 as u128) * 10 + d0 as u128;
    let mut label = owned("v");
    let ma = decimal(major);
    label.append(ma.as_str());
    label.append(".");
    let mi = decimal(minor);
    label.append(mi.as_str());
    label
}

/// Whether switching the gauges off asks the serial loop to zero them once.
pub fn zero_on_deactivate(was_active: bool, now_active: bool) -> (r: bool)
    ensures
        r == (was_active && !now_active),
{
    was_active && !now_active
}

/// A firmware release found for download.
#[derive(Clone, Debug)]
pub struct FirmwareInfo {
    pub version: String,
    pub download_url: String,
    pub release_tag: String,
}

/// The string fields of one release asset.
#[derive(Clone, Debug)]
pub struct AssetRecord {
    pub name: Option<String>,
    pub browser_download_url: Option<String>,
}

pub open spec fn firmware_prefix() -> Seq<char> {
    "pointify-firmware-"@
}

pub open spec fn firmware_suffix() -> Seq<char> {
    ".elf"@
}

/// The name of an asset, the empty text when it has none.
pub open spec fn asset_name(a: AssetRecord) -> Seq<char> {
    match a.name {
        Some(n) => n@,
        None => Seq::empty(),
    }
}

/// Whether an asset is a firmware image.
pub open spec fn is_firmware_asset(a: AssetRecord) -> bool {
    has_prefix(asset_name(a), firmware_prefix()) && has_suffix(asset_name(a), firmware_suffix())
}

/// Index of the first firmware image among the assets, if any.
pub open spec fn first_firmware(assets: Seq<AssetRecord>) -> Option<int>
    decreases assets.len(),
{
    if assets.len() == 0 {
        None
    } else if is_firmware_asset(assets[0]) {
        Some(0)
    } else {
        match first_firmware(assets.drop_first()) {
            Some(i) => Some(i + 1),
            None => None,
        }
    }
}

/// The outcome of reading a release: the first firmware image's version (its
/// name without prefix and suffix), its download address and the release tag
/// (empty when absent); an error when the release has no asset list, when the
/// first firmware image has no download address, or when there is no
/// firmware image.
pub open spec fn select_firmware_ok(
    tag: Option<String>,
    assets: Option<Vec<AssetRecord>>,
    r: Result<FirmwareInfo, String>,
) -> bool {
    match assets {
        None => r is Err && r->Err_0@ == "No assets in release"@,
        Some(list) => match first_firmware(list@) {
            None => r is Err && r->Err_0@ == "No firmware asset found"@,
            Some(i) => {
                let a = list@[i];
                let name = asset_name(a);
                match a.browser_download_url {
                    None => r is Err && r->Err_0@ == "No download URL"@,
                    Some(url) => r is Ok && r->Ok_0.version@ == name.subrange(
                        firmware_prefix().len() as int,
                        name.len() - firmware_suffix().len(),
                    ) && r->Ok_0.download_url@ == url@ && r->Ok_0.release_tag@ == match tag {
                        Some(t) => t@,
                        None => Seq::<char>::empty(),
                    },
                }
            },
        },
    }
}

/// Picks the firmware image of a release (see `select_firmware_ok`).
pub fn select_firmware(tag: &Option<String>, assets: &Option<Vec<AssetRecord>>) -> (r: Result<
    FirmwareInfo,
    String,
>)
    ensures
        select_firmware_ok(*tag, *assets, r),
{
    let release_tag = match tag {
        Some(t) => t.clone(),
        None => String::new(),
    };
    let list = match assets {
        None => return Err(owned("No assets in release")),
        Some(l) => l,
    };
    let mut i: usize = 0;
    assert(list@.subrange(0, list@.len() as int) =~= list@);
    while i < list.len()
        invariant
            i <= list@.len(),
            release_tag@ == match *tag {
                Some(t) => t@,
                None => Seq::<char>::empty(),
            },
            *assets == Some(*list),
            first_firmware(list@) == match first_firmware(list@.subrange(i as int, list@.len() as int)) {
                Some(j) => Some(j + i),
                None => None::<int>,
            },
        decreases list@.len() - i,
    {
        let ghost t = list@.subrange(i as int, list@.len() as int);
        assert(t[0] == list@[i as int]);
        let a = &list[i];
        let name: &str = match &a.name {
            Some(n) => n.as_str(),
            None => "",
        };
        proof {
            reveal_strlit("");
        }
        assert(name@ == asset_name(*a));
        if starts_with(name, "pointify-firmware-") && ends_with(name, ".elf") {
            proof {
                reveal_strlit("pointify-firmware-");
                reveal_strlit(".elf");
            }
            let n = name.unicode_len();
            proof {
                if n < 22 {
                    let pre = "pointify-firmware-"@;
                    let suf = ".elf"@;
                    assert(name@.subrange(0, 18)[17] == pre[17]);
                    assert(name@.subrange(n - 4, n as int)[17 - (n - 4)] == suf[17 - (n - 4)]);
                    assert(pre[17] == '-');
                    assert(suf[17 - (n - 4)] != '-');
                    assert(false);
                }
            }
            let version = owned(name.substring_char(18, n - 4));
            return match &a.browser_download_url {
                None => Err(owned("No download URL")),
                Some(url) => Ok(FirmwareInfo { version, download_url: url.clone(), release_tag }),
            };
        }
        assert(t.drop_first() =~= list@.subrange(i + 1, list@.len() as int));
        i = i + 1;
    }
    assert(list@.subrange(list@.len() as int, list@.len() as int).len() == 0);
    Err(owned("No firmware asset found"))
}

/// Flash sector size of the gauge board.
pub const SECTOR_SIZE: usize = 1024;

/// A firmware image zero-padded to a whole number of sectors.
pub fn pad_to_sector(image: Vec<u8>) -> (padded: Vec<u8>)
    requires
        image@.len() + SECTOR_SIZE <= usize::MAX,
    ensures
        padded@.len() % 1024 == 0,
        image@.len() <= padded@.len() < image@.len() + 1024,
        padded@.subrange(0, image@.len() as int) == image@,
        forall|k: int| image@.len() <= k < padded@.len() ==> padded@[k] == 0,
        image@.len() % 1024 == 0 ==> padded@ == image@,
{
    let mut padded = image;
    let ghost orig = padded@;
    let rem = padded.len() % SECTOR_SIZE;
    if rem != 0 {
        let target = padded.len() + (SECTOR_SIZE - rem);
        while padded.len() < target
            invariant
                orig.len() <= padded@.len() <= target,
                target == orig.len() + (1024 - orig.len() % 1024),
                padded@.subrange(0, orig.len() as int) == orig,
                forall|k: int| orig.len() <= k < padded@.len() ==> padded@[k] == 0,
            decreases target - padded@.len(),
        {
            let ghost before = padded@;
            padded.push(0);
            assert(padded@.subrange(0, orig.len() as int) =~= before.subrange(0, orig.len() as int));
        }
    } else {
        assert(padded@.subrange(0, orig.len() as int) =~= orig);
    }
    padded
}

/// Number of sectors erased before flashing an image of `len` bytes.
pub fn erase_sector_count(len: usize) -> (n: usize)
    ensures
        n == len / 1024 + 1,
{
    len / SECTOR_SIZE + 1
}

} // verus!
