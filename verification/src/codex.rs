//! Codex (ChatGPT) account data: plan labels, the accounts list, usage-window
//! selection and the identity shown to the user.
use vstd::prelude::*;
use crate::text::{ascii_lowercase, ascii_lowercase_spec, find_char, first_index_of, owned, str_eq};
use base64::Engine;

verus! {

/// Identity claims of the signed-in Codex user.
#[derive(Clone, Debug)]
pub struct CodexIdentity {
    pub email: Option<String>,
    pub name: Option<String>,
    pub plan_type: Option<String>,
}

impl Default for CodexIdentity {
    fn default() -> (r: Self)
        ensures
            r.email is None,
            r.name is None,
            r.plan_type is None,
    {
        CodexIdentity { email: None, name: None, plan_type: None }
    }
}

/// One account/workspace of the signed-in login.
#[derive(Clone, Debug)]
pub struct CodexAccount {
    pub id: String,
    /// Workspace name; `None` for the personal account.
    pub name: Option<String>,
    /// "workspace" or "personal".
    pub structure: Option<String>,
    /// "account-owner" or "standard-user".
    pub role: Option<String>,
    /// Human-readable plan label (already mapped by `plan_label`).
    pub plan: Option<String>,
    /// The account is the response's default account.
    pub is_default: bool,
    /// The account is the one the Codex CLI currently operates as.
    pub is_active: bool,
}

/// The string fields of one entry of the accounts payload, each present only
/// when the payload holds a string there.
#[derive(Clone, Debug)]
pub struct AccountEntry {
    pub id: Option<String>,
    pub name: Option<String>,
    pub structure: Option<String>,
    pub account_user_role: Option<String>,
    pub plan_type: Option<String>,
}

/// State of the background usage poll.
pub struct CodexStatus {
    /// When the poller last attempted a fetch (success or failure), in
    /// milliseconds of a monotonic clock.
    pub last_attempt: Option<u64>,
    /// Most recent fetch error, cleared on success.
    pub error: Option<String>,
}

impl Default for CodexStatus {
    fn default() -> (r: Self)
        ensures
            r.last_attempt is None,
            r.error is None,
    {
        CodexStatus { last_attempt: None, error: None }
    }
}

/// Which of the two usage windows of a payload.
#[derive(Clone, Copy, Debug, PartialEq, Eq, Structural)]
pub enum WindowSlot {
    Primary,
    Secondary,
}

/// Seconds in a day: windows at least this long are weekly windows.
pub const DAY_SECS: i64 = 86_400;

/// The label of a lower-cased plan type known to the Codex CLI.
pub open spec fn known_plan_label(lower: Seq<char>) -> Option<Seq<char>> {
    if lower == "guest"@ {
        Some("Guest"@)
    } else if lower == "free"@ {
        Some("Free"@)
    } else if lower == "go"@ {
        Some("Go"@)
    } else if lower == "plus"@ {
        Some("Plus"@)
    } else if lower == "pro"@ {
        Some("Pro"@)
    } else if lower == "prolite"@ {
        Some("Pro Lite"@)
    } else if lower == "free_workspace"@ {
        Some("Free Workspace"@)
    } else if lower == "team"@ {
        Some("Team"@)
    } else if lower == "self_serve_business_usage_based"@ {
        Some("Self Serve Business Usage Based"@)
    } else if lower == "business"@ {
        Some("Business"@)
    } else if lower == "enterprise_cbp_usage_based"@ {
        Some("Enterprise CBP Usage Based"@)
    } else if lower == "enterprise"@ || lower == "hc"@ {
        Some("Enterprise"@)
    } else if lower == "education"@ || lower == "edu"@ {
        Some("Edu"@)
    } else if lower == "quorum"@ {
        Some("Quorum"@)
    } else if lower == "k12"@ {
        Some("K12"@)
    } else {
        None
    }
}

/// The human-readable label of a raw plan type: matched without regard to
/// ASCII case, unknown values passed through unchanged.
pub open spec fn plan_label_spec(raw: Seq<char>) -> Seq<char> {
    match known_plan_label(ascii_lowercase_spec(raw)) {
        Some(label) => label,
        None => raw,
    }
}

fn known_label(lower: &str) -> (r: Option<&'static str>)
    ensures
        match known_plan_label(lower@) {
            Some(l) => r is Some && r->0@ == l,
            None => r is None,
        },
{
    if str_eq(lower, "guest") {
        Some("Guest")
    } else if str_eq(lower, "free") {
        Some("Free")
    } else if str_eq(lower, "go") {
        Some("Go")
    } else if str_eq(lower, "plus") {
        Some("Plus")
    } else if str_eq(lower, "pro") {
        Some("Pro")
    } else if str_eq(lower, "prolite") {
        Some("Pro Lite")
    } else if str_eq(lower, "free_workspace") {
        Some("Free Workspace")
    } else if str_eq(lower, "team") {
        Some("Team")
    } else if str_eq(lower, "self_serve_business_usage_based") {
        Some("Self Serve Business Usage Based")
    } else if str_eq(lower, "business") {
        Some("Business")
    } else if str_eq(lower, "enterprise_cbp_usage_based") {
        Some("Enterprise CBP Usage Based")
    } else if str_eq(lower, "enterprise") || str_eq(lower, "hc") {
        Some("Enterprise")
    } else if str_eq(lower, "education") || str_eq(lower, "edu") {
        Some("Edu")
    } else if str_eq(lower, "quorum") {
        Some("Quorum")
    } else if str_eq(lower, "k12") {
        Some("K12")
    } else {
        None
    }
}

/// Maps a raw plan type (JWT claim or usage payload) to its human-readable
/// label; unknown values pass through unchanged.
pub fn plan_label(raw: &str) -> (r: String)
    ensures
        r@ == plan_label_spec(raw@),
{
    let lower = ascii_lowercase(raw);
    match known_label(lower.as_str()) {
        Some(label) => owned(label),
        None => owned(raw),
    }
}

pub open spec fn same_text(a: Option<String>, b: String) -> bool {
    a is Some && a->0@ == b@
}

/// The optional string fields of an account carried over unchanged.
pub open spec fn opt_view(o: Option<String>) -> Option<Seq<char>> {
    match o {
        Some(s) => Some(s@),
        None => None,
    }
}

/// The account an entry with identifier `id` stands for.
pub open spec fn account_matches(
    a: CodexAccount,
    e: AccountEntry,
    default_id: Option<String>,
    active_id: Option<String>,
) -> bool {
    &&& e.id is Some
    &&& a.id@ == e.id->0@
    &&& opt_view(a.name) == opt_view(e.name)
    &&& opt_view(a.structure) == opt_view(e.structure)
    &&& opt_view(a.role) == opt_view(e.account_user_role)
    &&& opt_view(a.plan) == match e.plan_type {
        Some(p) => Some(plan_label_spec(p@)),
        None => None,
    }
    &&& a.is_default == same_text(default_id, e.id->0)
    &&& a.is_active == same_text(active_id, e.id->0)
}

/// The entries that carry an identifier, in order.
pub open spec fn entries_with_id(entries: Seq<AccountEntry>) -> Seq<AccountEntry>
    decreases entries.len(),
{
    if entries.len() == 0 {
        Seq::empty()
    } else {
        let rest = entries_with_id(entries.drop_last());
        if entries.last().id is Some {
            rest.push(entries.last())
        } else {
            rest
        }
    }
}

pub fn clone_opt(o: &Option<String>) -> (r: Option<String>)
    ensures
        opt_view(r) == opt_view(*o),
        r is Some == o is Some,
{
    match o {
        Some(s) => Some(s.clone()),
        None => None,
    }
}

fn opt_matches(o: &Option<String>, s: &str) -> (r: bool)
    ensures
        r == (o is Some && o->0@ == s@),
{
    match o {
        Some(x) => str_eq(x.as_str(), s),
        None => false,
    }
}

/// Turns the entries of an accounts payload into accounts: entries without an
/// identifier are skipped, the rest keep their order; plan types are mapped by
/// `plan_label`, and the default and active flags say whether the identifier
/// equals `default_id` and `active_id`.
pub fn parse_accounts(
    entries: &Vec<AccountEntry>,
    default_id: &Option<String>,
    active_id: &Option<String>,
) -> (accounts: Vec<CodexAccount>)
    ensures
        accounts@.len() == entries_with_id(entries@).len(),
        forall|i: int|
            0 <= i < accounts@.len() ==> account_matches(
                #[trigger] accounts@[i],
                entries_with_id(entries@)[i],
                *default_id,
                *active_id,
            ),
{
    let mut accounts: Vec<CodexAccount> = Vec::new();
    let mut i: usize = 0;
    while i < entries.len()
        invariant
            i <= entries@.len(),
            accounts@.len() == entries_with_id(entries@.subrange(0, i as int)).len(),
            forall|k: int|
                0 <= k < accounts@.len() ==> account_matches(
                    #[trigger] accounts@[k],
                    entries_with_id(entries@.subrange(0, i as int))[k],
                    *default_id,
                    *active_id,
                ),
        decreases entries@.len() - i,
    {
        let e = &entries[i];
        proof {
            assert(entries@.subrange(0, i + 1).drop_last() =~= entries@.subrange(0, i as int));
            assert(entries@.subrange(0, i + 1).last() == entries@[i as int]);
        }
        match &e.id {
            Some(id) => {
                let plan = match &e.plan_type {
                    Some(p) => Some(plan_label(p.as_str())),
                    None => None,
                };
                let a = CodexAccount {
                    id: id.clone(),
                    name: clone_opt(&e.name),
                    structure: clone_opt(&e.structure),
                    role: clone_opt(&e.account_user_role),
                    plan,
                    is_default: opt_matches(default_id, id.as_str()),
                    is_active: opt_matches(active_id, id.as_str()),
                };
                accounts.push(a);
            },
            None => {},
        }
        i = i + 1;
    }
    assert(entries@.subrange(0, entries@.len() as int) =~= entries@);
    accounts
}

/// The slot a usage payload's window for the requested bucket sits in.
///
/// `primary` and `secondary` say whether each window is present and, if so,
/// its reported length in seconds. A window whose length is reported belongs
/// to the weekly bucket when it lasts at least a day, else to the short bucket;
/// the first such window of the wanted bucket is chosen. Failing that, the
/// positional slot (secondary for weekly, primary for short) is chosen, but
/// only when its length is not reported.
pub open spec fn window_slot_spec(
    primary: Option<Option<i64>>,
    secondary: Option<Option<i64>>,
    want_weekly: bool,
) -> Option<WindowSlot> {
    if primary matches Some(Some(secs)) && (secs >= DAY_SECS) == want_weekly {
        Some(WindowSlot::Primary)
    } else if secondary matches Some(Some(secs)) && (secs >= DAY_SECS) == want_weekly {
        Some(WindowSlot::Secondary)
    } else if want_weekly {
        if secondary == Some(None::<i64>) {
            Some(WindowSlot::Secondary)
        } else {
            None
        }
    } else {
        if primary == Some(None::<i64>) {
            Some(WindowSlot::Primary)
        } else {
            None
        }
    }
}

/// Picks the usage window for a gauge bucket by its actual length, not its
/// slot (see `window_slot_spec`).
pub fn window_slot_for(
    primary: Option<Option<i64>>,
    secondary: Option<Option<i64>>,
    want_weekly: bool,
) -> (r: Option<WindowSlot>)
    ensures
        r == window_slot_spec(primary, secondary, want_weekly),
{
    if let Some(Some(secs)) = primary {
        if (secs >= DAY_SECS) == want_weekly {
            return Some(WindowSlot::Primary);
        }
    }
    if let Some(Some(secs)) = secondary {
        if (secs >= DAY_SECS) == want_weekly {
            return Some(WindowSlot::Secondary);
        }
    }
    let positional = if want_weekly { secondary } else { primary };
    match positional {
        Some(None) => if want_weekly {
            Some(WindowSlot::Secondary)
        } else {
            Some(WindowSlot::Primary)
        },
        _ => None,
    }
}

/// What the window choice guarantees, for every pair of slots and either
/// bucket:
/// - a chosen slot holds a window;
/// - a chosen window of known length belongs to the wanted bucket (weekly
///   exactly when it spans at least a day);
/// - a window of unknown length is chosen only from the positional slot of
///   the bucket: the secondary one for the weekly bucket, the primary one for
///   the short bucket;
/// - a known-length window of the wanted bucket is always found, the primary
///   slot's first;
/// - with no such window, the positional slot is chosen when its length is
///   unknown, and nothing otherwise.
/// So with two windows of unknown length the weekly and short gauges read
/// different slots.
pub proof fn law_window_choice(
    primary: Option<Option<i64>>,
    secondary: Option<Option<i64>>,
    want_weekly: bool,
)
    ensures
        ({
            let r = window_slot_spec(primary, secondary, want_weekly);
            let fits = |w: Option<Option<i64>>|
                w matches Some(Some(secs)) && (secs >= 86_400) == want_weekly;
            &&& r == Some(WindowSlot::Primary) ==> primary is Some
            &&& r == Some(WindowSlot::Secondary) ==> secondary is Some
            &&& r == Some(WindowSlot::Primary) ==> (primary matches Some(Some(secs)) ==> (secs
                >= 86_400) == want_weekly)
            &&& r == Some(WindowSlot::Secondary) ==> (secondary matches Some(Some(secs)) ==> (secs
                >= 86_400) == want_weekly)
            &&& (r == Some(WindowSlot::Primary) && primary == Some(None::<i64>)) ==> !want_weekly
            &&& (r == Some(WindowSlot::Secondary) && secondary == Some(None::<i64>)) ==> want_weekly
            &&& fits(primary) ==> r == Some(WindowSlot::Primary)
            &&& (!fits(primary) && fits(secondary)) ==> r == Some(WindowSlot::Secondary)
            &&& (!fits(primary) && !fits(secondary) && want_weekly) ==> r == (if secondary == Some(
                None::<i64>,
            ) {
                Some(WindowSlot::Secondary)
            } else {
                None
            })
            &&& (!fits(primary) && !fits(secondary) && !want_weekly) ==> r == (if primary == Some(
                None::<i64>,
            ) {
                Some(WindowSlot::Primary)
            } else {
                None
            })
        }),
        (primary == Some(None::<i64>) && secondary == Some(None::<i64>)) ==> window_slot_spec(
            primary,
            secondary,
            true,
        ) == Some(WindowSlot::Secondary) && window_slot_spec(primary, secondary, false) == Some(
            WindowSlot::Primary,
        ),
{
}

/// The identity to display: the server-reported plan (when a usage fetch has
/// reported one) replaces the token's plan claim, and the plan is then mapped
/// by `plan_label`.
pub fn resolve_identity(identity: CodexIdentity, server_plan: Option<String>) -> (r: CodexIdentity)
    ensures
        opt_view(r.email) == opt_view(identity.email),
        opt_view(r.name) == opt_view(identity.name),
        opt_view(r.plan_type) == match (if server_plan is Some {
            server_plan
        } else {
            identity.plan_type
        }) {
            Some(p) => Some(plan_label_spec(p@)),
            None => None,
        },
{
    let chosen = if server_plan.is_some() { server_plan } else { identity.plan_type };
    let plan_type = match chosen {
        Some(p) => Some(plan_label(p.as_str())),
        None => None,
    };
    CodexIdentity { email: identity.email, name: identity.name, plan_type }
}

/// The second `.`-separated segment of `token` (`token.split('.').nth(1)`).
pub open spec fn jwt_payload_spec(token: Seq<char>) -> Option<Seq<char>> {
    match first_index_of(token, '.') {
        None => None,
        Some(i) => {
            let rest = token.subrange(i + 1, token.len() as int);
            match first_index_of(rest, '.') {
                None => Some(rest),
                Some(j) => Some(rest.subrange(0, j)),
            }
        },
    }
}

/// The payload segment of a JSON web token (`token.split('.').nth(1)`).
pub fn jwt_payload_segment(token: &str) -> (r: Option<&str>)
    ensures
        match jwt_payload_spec(token@) {
            None => r is None,
            Some(seg) => r is Some && r->0@ == seg,
        },
{
    let n = token.unicode_len();
    match find_char(token, '.') {
        None => None,
        Some(i) => {
            let rest = token.substring_char(i + 1, n);
            assert(first_index_of(token@, '.') == Some(i as int));
            match find_char(rest, '.') {
                None => Some(rest),
                Some(j) => {
                    assert(first_index_of(rest@, '.') == Some(j as int));
                    Some(rest.substring_char(0, j))
                },
            }
        },
    }
}

/// What URL-safe, unpadded base64 decoding gives for `input`, or `None` when
/// `input` is not valid such base64.
pub uninterp spec fn base64_url_nopad_decode(input: Seq<char>) -> Option<Seq<u8>>;

/// Decodes `input` with `base64::engine::general_purpose::URL_SAFE_NO_PAD`;
/// the result is named `base64_url_nopad_decode` of the input's characters.
#[verifier::external_body]
fn decode_base64_url_nopad(input: &str) -> (r: Option<Vec<u8>>)
    ensures
        match base64_url_nopad_decode(input@) {
            Some(bytes) => r is Some && r->0@ == bytes,
            None => r is None,
        },
{
    base64::engine::general_purpose::URL_SAFE_NO_PAD.decode(input).ok()
}

/// The decoded claims bytes of a JSON web token: its payload segment, base64
/// decoded (URL-safe alphabet, no padding). `None` when the token has no
/// payload segment or the segment is not valid base64.
pub fn jwt_claims_bytes(token: &str) -> (r: Option<Vec<u8>>)
    ensures
        match jwt_payload_spec(token@) {
            None => r is None,
            Some(seg) => match base64_url_nopad_decode(seg) {
                Some(bytes) => r is Some && r->0@ == bytes,
                None => r is None,
            },
        },
{
    match jwt_payload_segment(token) {
        None => None,
        Some(seg) => decode_base64_url_nopad(seg),
    }
}


impl CodexStatus {
    /// The credentials changed: retry immediately and forget the last error.
    pub fn reset(&mut self)
        ensures
            final(self).last_attempt is None,
            final(self).error is None,
    {
        self.last_attempt = None;
        self.error = None;
    }

    /// Starts a poll tick at `now_ms`: returns whether a fetch is due (never
    /// attempted, or the effective interval for `configured_ttl_secs` has
    /// passed since the last attempt, whether that one succeeded or failed);
    /// when it is, the attempt is recorded as made now.
    pub fn begin_attempt(&mut self, now_ms: u64, configured_ttl_secs: u64) -> (due: bool)
        ensures
            due == attempt_due(old(self).last_attempt, now_ms, configured_ttl_secs),
            final(self).last_attempt == if due {
                Some(now_ms)
            } else {
                old(self).last_attempt
            },
            final(self).error == old(self).error,
    {
        let due = match self.last_attempt {
            None => true,
            Some(t) => crate::claude::stale(t, now_ms, configured_ttl_secs),
        };
        if due {
            self.last_attempt = Some(now_ms);
        }
        due
    }

    /// A fetch succeeded: the error is cleared.
    pub fn record_success(&mut self)
        ensures
            final(self).error is None,
            final(self).last_attempt == old(self).last_attempt,
    {
        self.error = None;
    }

    /// A fetch failed with `error`.
    pub fn record_failure(&mut self, error: String)
        ensures
            final(self).error == Some(error),
            final(self).last_attempt == old(self).last_attempt,
    {
        self.error = Some(error);
    }
}

/// Whether a fetch is due at `now_ms` after the last attempt `last`.
pub open spec fn attempt_due(last: Option<u64>, now_ms: u64, configured_ttl_secs: u64) -> bool {
    match last {
        None => true,
        Some(t) => crate::claude::stale_at(t, now_ms, configured_ttl_secs),
    }
}

/// Fetch attempts are spaced: once an attempt is recorded at `t1`, the next
/// one is due only at a time `t2` at least the effective interval
/// (`max(ttl, 10)` seconds) later, whether the first succeeded or failed.
pub proof fn law_attempt_spacing(t1: u64, t2: u64, configured_ttl_secs: u64)
    requires
        attempt_due(Some(t1), t2, configured_ttl_secs),
    ensures
        t2 - t1 >= (if configured_ttl_secs < 10 { 10 } else { configured_ttl_secs }) * 1000,
{
}

/// Whether a poll error is logged: only when it differs from the last one
/// logged.
pub fn should_log_error(last_logged: &Option<String>, error: &str) -> (r: bool)
    ensures
        r == !(last_logged is Some && last_logged->0@ == error@),
{
    match last_logged {
        Some(l) => !str_eq(l.as_str(), error),
        None => true,
    }
}

} // verus!
