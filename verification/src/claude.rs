//! Chat-service account data: cache keys, request cookies, plan inference, the
//! decisions of the usage poller and today's coding-agent token totals.
use vstd::prelude::*;
use crate::codex::{clone_opt, opt_view};
use crate::credentials::{copy_orgs, ClaudeAccount, ClaudeOrg, OrgView};
use crate::text::{decimal, decimal_spec, digit_char, has_prefix, owned, push_char, starts_with, str_eq};

verus! {

/// Refresh interval, in seconds, shared by the usage pollers.
#[derive(Clone)]
pub struct ClaudeTtl(pub std::sync::Arc<std::sync::atomic::AtomicU64>);

/// Shortest refresh interval the pollers honour, in seconds.
pub const MIN_TTL_SECS: u64 = 10;

/// The refresh interval used for a configured one: never below `MIN_TTL_SECS`.
pub open spec fn effective_ttl_spec(configured_secs: u64) -> u64 {
    if configured_secs < MIN_TTL_SECS { MIN_TTL_SECS } else { configured_secs }
}

/// Whether a value fetched at `fetched_ms` is due for refresh at `now_ms`
/// (milliseconds of one monotonic clock): it is once the effective interval
/// for `configured_ttl_secs` has fully passed.
pub open spec fn stale_at(fetched_ms: u64, now_ms: u64, configured_ttl_secs: u64) -> bool {
    now_ms >= fetched_ms + effective_ttl_spec(configured_ttl_secs) * 1000
}

/// Whether a value fetched at `fetched_ms` is due for refresh at `now_ms`
/// (see `stale_at`).
pub fn stale(fetched_ms: u64, now_ms: u64, configured_ttl_secs: u64) -> (r: bool)
    ensures
        r == stale_at(fetched_ms, now_ms, configured_ttl_secs),
{
    let ttl = effective_ttl(configured_ttl_secs);
    now_ms as u128 >= fetched_ms as u128 + ttl as u128 * 1000
}

/// The refresh interval actually used for a configured one: never below
/// `MIN_TTL_SECS`.
pub fn effective_ttl(configured_secs: u64) -> (r: u64)
    ensures
        r == effective_ttl_spec(configured_secs),
{
    if configured_secs < MIN_TTL_SECS { MIN_TTL_SECS } else { configured_secs }
}

impl ClaudeTtl {
    /// The configured interval as the pollers use it (at least
    /// `MIN_TTL_SECS`). The configured value can change at any time.
    pub fn current_secs(&self) -> (r: u64)
        ensures
            r >= MIN_TTL_SECS,
    {
        let configured = self.0.load(std::sync::atomic::Ordering::Relaxed);
        effective_ttl(configured)
    }
}

/// The usage-cache key of an (account, organization) pair.
pub open spec fn cache_key_spec(account_id: Seq<char>, org_id: Seq<char>) -> Seq<char> {
    account_id + ":"@ + org_id
}

/// Every pair of an account lies under the account's key prefix
/// `"{account_id}:"`, so forgetting the account
/// (`UsageCache::forget_account`) forgets each of its pairs.
pub proof fn law_account_keys_share_prefix(account_id: Seq<char>, org_id: Seq<char>)
    ensures
        has_prefix(cache_key_spec(account_id, org_id), account_id + ":"@),
{
    let p = account_id + ":"@;
    assert(cache_key_spec(account_id, org_id).subrange(0, p.len() as int) =~= p);
}

/// The usage-cache key of an (account, organization) pair:
/// `"{account_id}:{org_id}"`.
pub fn cache_key(account_id: &str, org_id: &str) -> (k: String)
    ensures
        k@ == cache_key_spec(account_id@, org_id@),
{
    let mut k = owned(account_id);
    k.append(":");
    k.append(org_id);
    k
}

/// The cookie header of the chat service's web requests.
pub fn build_cookie(session_key: &str, cf_clearance: &str) -> (c: String)
    ensures
        c@ == "sessionKey="@ + session_key@ + "; cf_clearance="@ + cf_clearance@,
{
    let mut c = owned("sessionKey=");
    c.append(session_key);
    c.append("; cf_clearance=");
    c.append(cf_clearance);
    c
}

/// One organization of the chat service that the signed-in user belongs to.
#[derive(Clone, Debug)]
pub struct OrgMembership {
    pub uuid: String,
    pub name: String,
    pub plan: Option<String>,
}

/// Identity and chat organizations of a login to the chat service.
#[derive(Clone, Debug)]
pub struct AccountInfo {
    pub email: Option<String>,
    pub display_name: Option<String>,
    pub memberships: Vec<OrgMembership>,
}

/// The organization part of one membership entry of the account payload:
/// string fields present only when the payload holds a string there, and the
/// string entries of its `capabilities` array (empty when it has none).
#[derive(Clone, Debug)]
pub struct OrganizationRecord {
    pub uuid: Option<String>,
    pub name: Option<String>,
    pub capabilities: Vec<String>,
}

/// One membership entry of the account payload.
#[derive(Clone, Debug)]
pub struct MembershipRecord {
    pub organization: Option<OrganizationRecord>,
    pub seat_tier: Option<String>,
}

/// The account payload's identity fields and membership entries.
#[derive(Clone, Debug)]
pub struct AccountRecordPayload {
    pub email_address: Option<String>,
    pub display_name: Option<String>,
    pub full_name: Option<String>,
    pub memberships: Vec<MembershipRecord>,
}

/// The text of each string, in order.
pub open spec fn texts(strings: Seq<String>) -> Seq<Seq<char>> {
    strings.map_values(|c: String| c@)
}

/// The plan label inferred from a membership: "Team Premium" for a
/// `team_tier_1` seat, "Pro" when the organization has the Pro
/// capability, "Free" when it has only `chat` and no seat; otherwise none.
pub open spec fn infer_plan_spec(caps: Seq<Seq<char>>, seat_tier: Option<Seq<char>>) -> Option<Seq<char>> {
    if seat_tier == Some("team_tier_1"@) {
        Some("Team Premium"@)
    } else if caps.contains("claude_pro"@) {
        Some("Pro"@)
    } else if seat_tier is None && caps.len() == 1 && caps[0] == "chat"@ {
        Some("Free"@)
    } else {
        None
    }
}

fn contains_text(caps: &Vec<String>, text: &str) -> (r: bool)
    ensures
        r == texts(caps@).contains(text@),
{
    let mut i: usize = 0;
    while i < caps.len()
        invariant
            i <= caps@.len(),
            forall|k: int| 0 <= k < i ==> caps@[k]@ != text@,
        decreases caps@.len() - i,
    {
        if str_eq(caps[i].as_str(), text) {
            assert(texts(caps@)[i as int] == text@);
            return true;
        }
        i = i + 1;
    }
    assert forall|k: int| 0 <= k < texts(caps@).len() implies texts(caps@)[k] != text@ by {
        assert(caps@[k]@ != text@);
    }
    false
}

/// Infers the plan of a membership from its organization's capabilities and
/// its seat tier (see `infer_plan_spec`).
pub fn infer_plan(capabilities: &Vec<String>, seat_tier: &Option<String>) -> (r: Option<String>)
    ensures
        opt_view(r) == infer_plan_spec(texts(capabilities@), opt_view(*seat_tier)),
{
    let team = match seat_tier {
        Some(t) => str_eq(t.as_str(), "team_tier_1"),
        None => false,
    };
    if team {
        return Some(owned("Team Premium"));
    }
    if contains_text(capabilities, "claude_pro") {
        return Some(owned("Pro"));
    }
    if seat_tier.is_none() && capabilities.len() == 1 && str_eq(capabilities[0].as_str(), "chat") {
        return Some(owned("Free"));
    }
    None
}

/// The organization a membership entry contributes, if any: entries without
/// an organization, without the `chat` capability or without a uuid are
/// dropped; a missing name becomes empty.
pub open spec fn membership_of(m: MembershipRecord) -> Option<OrgView> {
    match m.organization {
        None => None,
        Some(org) => if !texts(org.capabilities@).contains("chat"@) {
            None
        } else {
            match org.uuid {
                None => None,
                Some(u) => Some(
                    OrgView {
                        uuid: u@,
                        name: match org.name {
                            Some(n) => n@,
                            None => Seq::empty(),
                        },
                        plan: infer_plan_spec(texts(org.capabilities@), opt_view(m.seat_tier)),
                    },
                ),
            }
        },
    }
}

/// The organizations of a list of membership entries, in order.
pub open spec fn memberships_of(ms: Seq<MembershipRecord>) -> Seq<OrgView>
    decreases ms.len(),
{
    if ms.len() == 0 {
        Seq::empty()
    } else {
        let rest = memberships_of(ms.drop_last());
        match membership_of(ms.last()) {
            Some(o) => rest.push(o),
            None => rest,
        }
    }
}

impl View for OrgMembership {
    type V = OrgView;

    open spec fn view(&self) -> OrgView {
        OrgView { uuid: self.uuid@, name: self.name@, plan: opt_view(self.plan) }
    }
}

fn membership_from(m: &MembershipRecord) -> (r: Option<OrgMembership>)
    ensures
        match membership_of(*m) {
            None => r is None,
            Some(o) => r is Some && r->0@ == o,
        },
{
    match &m.organization {
        None => None,
        Some(org) => {
            if !contains_text(&org.capabilities, "chat") {
                return None;
            }
            match &org.uuid {
                None => None,
                Some(u) => Some(
                    OrgMembership {
                        uuid: u.clone(),
                        name: match &org.name {
                            Some(n) => n.clone(),
                            None => String::new(),
                        },
                        plan: infer_plan(&org.capabilities, &m.seat_tier),
                    },
                ),
            }
        },
    }
}

/// Reads identity and chat organizations out of an account payload: the
/// display name falls back to the full name; memberships are kept as
/// `memberships_of` says.
pub fn account_info_from(payload: &AccountRecordPayload) -> (info: AccountInfo)
    ensures
        opt_view(info.email) == opt_view(payload.email_address),
        opt_view(info.display_name) == if payload.display_name is Some {
            opt_view(payload.display_name)
        } else {
            opt_view(payload.full_name)
        },
        info.memberships@.map_values(|m: OrgMembership| m@) == memberships_of(payload.memberships@),
{
    let ms = &payload.memberships;
    let mut memberships: Vec<OrgMembership> = Vec::new();
    let mut i: usize = 0;
    while i < ms.len()
        invariant
            i <= ms@.len(),
            memberships@.map_values(|m: OrgMembership| m@) == memberships_of(ms@.subrange(0, i as int)),
        decreases ms@.len() - i,
    {
        proof {
            assert(ms@.subrange(0, i + 1).drop_last() =~= ms@.subrange(0, i as int));
        }
        match membership_from(&ms[i]) {
            Some(o) => memberships.push(o),
            None => {},
        }
        proof {
            assert(memberships@.map_values(|m: OrgMembership| m@) =~= memberships_of(
                ms@.subrange(0, i + 1),
            ));
        }
        i = i + 1;
    }
    assert(ms@.subrange(0, ms@.len() as int) =~= ms@);
    let display_name = if payload.display_name.is_some() {
        clone_opt(&payload.display_name)
    } else {
        clone_opt(&payload.full_name)
    };
    AccountInfo { email: clone_opt(&payload.email_address), display_name, memberships }
}

/// The account has both a session key and a clearance cookie.
pub open spec fn has_credentials_spec(a: ClaudeAccount) -> bool {
    a.session_key@.len() > 0 && a.cf_clearance@.len() > 0
}

/// Whether an account has both a session key and a clearance cookie.
pub fn has_credentials(a: &ClaudeAccount) -> (r: bool)
    ensures
        r == has_credentials_spec(*a),
{
    a.session_key.as_str().unicode_len() != 0 && a.cf_clearance.as_str().unicode_len() != 0
}

/// Whether the poller must (re)load an account's identity: on a forced
/// refresh, or when its email, display name or organizations are missing, or
/// an organization has no name.
pub fn needs_identity(a: &ClaudeAccount, force: bool) -> (r: bool)
    ensures
        r == (force || a.email is None || a.display_name is None || a.orgs@.len() == 0 || exists|k: int|
            0 <= k < a.orgs@.len() && a.orgs@[k].name@.len() == 0),
{
    if force || a.email.is_none() || a.display_name.is_none() || a.orgs.len() == 0 {
        return true;
    }
    let mut i: usize = 0;
    while i < a.orgs.len()
        invariant
            i <= a.orgs@.len(),
            forall|k: int| 0 <= k < i ==> a.orgs@[k].name@.len() != 0,
        decreases a.orgs@.len() - i,
    {
        if a.orgs[i].name.as_str().unicode_len() == 0 {
            return true;
        }
        i = i + 1;
    }
    false
}

/// Copies identity and organizations from an account payload onto an account.
pub fn apply_account_info(a: &mut ClaudeAccount, info: &AccountInfo)
    ensures
        final(a)@.id == old(a)@.id,
        final(a)@.session_key == old(a)@.session_key,
        final(a)@.cf_clearance == old(a)@.cf_clearance,
        final(a)@.email == opt_view(info.email),
        final(a)@.display_name == opt_view(info.display_name),
        final(a)@.orgs == info.memberships@.map_values(|m: OrgMembership| m@),
{
    a.email = clone_opt(&info.email);
    a.display_name = clone_opt(&info.display_name);
    let mut orgs: Vec<ClaudeOrg> = Vec::new();
    let mut i: usize = 0;
    while i < info.memberships.len()
        invariant
            i <= info.memberships@.len(),
            orgs@.len() == i,
            forall|k: int| 0 <= k < i ==> (#[trigger] orgs@[k])@ == info.memberships@[k]@,
        decreases info.memberships@.len() - i,
    {
        let m = &info.memberships[i];
        orgs.push(ClaudeOrg { uuid: m.uuid.clone(), name: m.name.clone(), plan: clone_opt(&m.plan) });
        i = i + 1;
    }
    a.orgs = orgs;
    assert(a@.orgs =~= info.memberships@.map_values(|m: OrgMembership| m@));
}

/// The cache keys of every (account, organization) pair, account by account.
pub open spec fn live_keys_spec(accounts: Seq<ClaudeAccount>) -> Seq<Seq<char>>
    decreases accounts.len(),
{
    if accounts.len() == 0 {
        Seq::empty()
    } else {
        let a = accounts.last();
        live_keys_spec(accounts.drop_last()) + a.orgs@.map_values(
            |o: ClaudeOrg| cache_key_spec(a.id@, o.uuid@),
        )
    }
}

/// The usage-cache keys still in use: one per (account, organization) pair.
pub fn live_cache_keys(accounts: &Vec<ClaudeAccount>) -> (keys: Vec<String>)
    ensures
        texts(keys@) == live_keys_spec(accounts@),
{
    let mut keys: Vec<String> = Vec::new();
    let mut i: usize = 0;
    while i < accounts.len()
        invariant
            i <= accounts@.len(),
            texts(keys@) == live_keys_spec(accounts@.subrange(0, i as int)),
        decreases accounts@.len() - i,
    {
        let a = &accounts[i];
        let ghost before = texts(keys@);
        let mut j: usize = 0;
        while j < a.orgs.len()
            invariant
                j <= a.orgs@.len(),
                keys@.len() == before.len() + j,
                forall|k: int| 0 <= k < before.len() ==> (#[trigger] keys@[k])@ == before[k],
                forall|k: int|
                    0 <= k < j ==> (#[trigger] keys@[before.len() + k])@ == cache_key_spec(
                        a.id@,
                        a.orgs@[k].uuid@,
                    ),
            decreases a.orgs@.len() - j,
        {
            keys.push(cache_key(a.id.as_str(), a.orgs[j].uuid.as_str()));
            j = j + 1;
        }
        proof {
            assert(accounts@.subrange(0, i + 1).drop_last() =~= accounts@.subrange(0, i as int));
            assert(accounts@.subrange(0, i + 1).last() == accounts@[i as int]);
            let mapped = a.orgs@.map_values(|o: ClaudeOrg| cache_key_spec(a.id@, o.uuid@));
            assert forall|k: int| 0 <= k < keys@.len() implies #[trigger] texts(keys@)[k] == (before
                + mapped)[k] by {
                if k >= before.len() {
                    let m = k - before.len();
                    assert(keys@[before.len() + m]@ == cache_key_spec(a.id@, a.orgs@[m].uuid@));
                }
            }
            assert(texts(keys@) =~= before + a.orgs@.map_values(
                |o: ClaudeOrg| cache_key_spec(a.id@, o.uuid@),
            ));
        }
        i = i + 1;
    }
    assert(accounts@.subrange(0, accounts@.len() as int) =~= accounts@);
    keys
}

/// Whether `key` is one of `keys`.
pub fn is_live_key(keys: &Vec<String>, key: &str) -> (r: bool)
    ensures
        r == texts(keys@).contains(key@),
{
    let mut i: usize = 0;
    while i < keys.len()
        invariant
            i <= keys@.len(),
            forall|k: int| 0 <= k < i ==> keys@[k]@ != key@,
        decreases keys@.len() - i,
    {
        if str_eq(keys[i].as_str(), key) {
            assert(texts(keys@)[i as int] == key@);
            return true;
        }
        i = i + 1;
    }
    assert forall|k: int| 0 <= k < keys@.len() implies texts(keys@)[k] != key@ by {
        assert(keys@[k]@ != key@);
    }
    false
}

/// Position of the first cache entry under key `k`, if any.
pub open spec fn entry_index<V>(s: Seq<(String, u64, V)>, k: Seq<char>) -> Option<int>
    decreases s.len(),
{
    if s.len() == 0 {
        None
    } else if s[0].0@ == k {
        Some(0)
    } else {
        match entry_index(s.drop_first(), k) {
            Some(i) => Some(i + 1),
            None => None,
        }
    }
}

/// The fetch time and data cached under key `k`, if any.
pub open spec fn entry_of<V>(s: Seq<(String, u64, V)>, k: Seq<char>) -> Option<(u64, V)> {
    match entry_index(s, k) {
        Some(i) => Some((s[i].1, s[i].2)),
        None => None,
    }
}

proof fn lemma_entry_index<V>(s: Seq<(String, u64, V)>, k: Seq<char>)
    ensures
        match entry_index(s, k) {
            Some(j) => 0 <= j < s.len() && s[j].0@ == k && forall|l: int| 0 <= l < j ==> s[l].0@ != k,
            None => forall|l: int| 0 <= l < s.len() ==> s[l].0@ != k,
        },
    decreases s.len(),
{
    if s.len() > 0 && s[0].0@ != k {
        lemma_entry_index(s.drop_first(), k);
        assert forall|l: int| 0 < l < s.len() implies s[l] == s.drop_first()[l - 1] by {}
    }
}

proof fn lemma_entry_index_at<V>(s: Seq<(String, u64, V)>, k: Seq<char>, j: int)
    requires
        0 <= j < s.len(),
        s[j].0@ == k,
        forall|l: int| 0 <= l < j ==> s[l].0@ != k,
    ensures
        entry_index(s, k) == Some(j),
{
    lemma_entry_index(s, k);
    match entry_index(s, k) {
        Some(i) => {
            if i < j {
                assert(s[i].0@ != k);
            } else if i > j {
                assert(s[j].0@ != k);
            }
        },
        None => {
            assert(s[j].0@ != k);
        },
    }
}

proof fn lemma_entry_index_none<V>(s: Seq<(String, u64, V)>, k: Seq<char>)
    requires
        forall|l: int| 0 <= l < s.len() ==> s[l].0@ != k,
    ensures
        entry_index(s, k) is None,
{
    lemma_entry_index(s, k);
    if let Some(j) = entry_index(s, k) {
        assert(s[j].0@ != k);
    }
}

/// Appending an entry leaves every earlier key's first entry where it was.
proof fn lemma_entry_push<V>(s: Seq<(String, u64, V)>, e: (String, u64, V), k: Seq<char>)
    ensures
        entry_of(s.push(e), k) == match entry_of(s, k) {
            Some(x) => Some(x),
            None => if e.0@ == k {
                Some((e.1, e.2))
            } else {
                None
            },
        },
{
    let t = s.push(e);
    lemma_entry_index(s, k);
    match entry_index(s, k) {
        Some(j) => {
            lemma_entry_index_at(t, k, j);
        },
        None => {
            if e.0@ == k {
                lemma_entry_index_at(t, k, s.len() as int);
            } else {
                assert forall|l: int| 0 <= l < t.len() implies t[l].0@ != k by {
                    if l < s.len() {
                        assert(t[l] == s[l]);
                    }
                }
                lemma_entry_index_none(t, k);
            }
        },
    }
}

/// Replacing an entry by one with the same key leaves every key's first
/// entry at the same position.
proof fn lemma_entry_update<V>(s: Seq<(String, u64, V)>, i: int, e: (String, u64, V), k: Seq<char>)
    requires
        0 <= i < s.len(),
        e.0@ == s[i].0@,
    ensures
        entry_index(s.update(i, e), k) == entry_index(s, k),
{
    let t = s.update(i, e);
    lemma_entry_index(s, k);
    match entry_index(s, k) {
        Some(j) => {
            assert forall|l: int| 0 <= l < j implies t[l].0@ != k by {
                if l == i {
                    assert(s[i].0@ != k);
                } else {
                    assert(t[l] == s[l]);
                }
            }
            if j == i {
                lemma_entry_index_at(t, k, j);
            } else {
                assert(t[j] == s[j]);
                lemma_entry_index_at(t, k, j);
            }
        },
        None => {
            assert forall|l: int| 0 <= l < t.len() implies t[l].0@ != k by {
                if l != i {
                    assert(t[l] == s[l]);
                }
            }
            lemma_entry_index_none(t, k);
        },
    }
}

/// The entries whose key is one of `live`, in order.
pub open spec fn live_entries<V>(s: Seq<(String, u64, V)>, live: Seq<Seq<char>>) -> Seq<(String, u64, V)>
    decreases s.len(),
{
    if s.len() == 0 {
        Seq::empty()
    } else {
        let rest = live_entries(s.drop_last(), live);
        if live.contains(s.last().0@) {
            rest.push(s.last())
        } else {
            rest
        }
    }
}

proof fn lemma_live_entries<V>(s: Seq<(String, u64, V)>, live: Seq<Seq<char>>, k: Seq<char>)
    ensures
        entry_of(live_entries(s, live), k) == if live.contains(k) {
            entry_of(s, k)
        } else {
            None
        },
    decreases s.len(),
{
    if s.len() == 0 {
    } else {
        let init = s.drop_last();
        lemma_live_entries(init, live, k);
        assert(init.push(s.last()) =~= s);
        lemma_entry_push(init, s.last(), k);
        if live.contains(s.last().0@) {
            lemma_entry_push(live_entries(init, live), s.last(), k);
        }
    }
}

/// The entries whose key is not `key`, in order.
pub open spec fn entries_without<V>(s: Seq<(String, u64, V)>, key: Seq<char>) -> Seq<(String, u64, V)>
    decreases s.len(),
{
    if s.len() == 0 {
        Seq::empty()
    } else {
        let rest = entries_without(s.drop_last(), key);
        if s.last().0@ == key {
            rest
        } else {
            rest.push(s.last())
        }
    }
}

proof fn lemma_entries_without<V>(s: Seq<(String, u64, V)>, key: Seq<char>, k: Seq<char>)
    ensures
        entry_of(entries_without(s, key), k) == if k == key {
            None
        } else {
            entry_of(s, k)
        },
    decreases s.len(),
{
    if s.len() == 0 {
    } else {
        let init = s.drop_last();
        lemma_entries_without(init, key, k);
        assert(init.push(s.last()) =~= s);
        lemma_entry_push(init, s.last(), k);
        if s.last().0@ != key {
            lemma_entry_push(entries_without(init, key), s.last(), k);
        }
    }
}

/// The entries whose key does not begin with `prefix`, in order.
pub open spec fn entries_outside<V>(s: Seq<(String, u64, V)>, prefix: Seq<char>) -> Seq<(String, u64, V)>
    decreases s.len(),
{
    if s.len() == 0 {
        Seq::empty()
    } else {
        let rest = entries_outside(s.drop_last(), prefix);
        if has_prefix(s.last().0@, prefix) {
            rest
        } else {
            rest.push(s.last())
        }
    }
}

proof fn lemma_entries_outside<V>(s: Seq<(String, u64, V)>, prefix: Seq<char>, k: Seq<char>)
    ensures
        entry_of(entries_outside(s, prefix), k) == if has_prefix(k, prefix) {
            None
        } else {
            entry_of(s, k)
        },
    decreases s.len(),
{
    if s.len() == 0 {
    } else {
        let init = s.drop_last();
        lemma_entries_outside(init, prefix, k);
        assert(init.push(s.last()) =~= s);
        lemma_entry_push(init, s.last(), k);
        if !has_prefix(s.last().0@, prefix) {
            lemma_entry_push(entries_outside(init, prefix), s.last(), k);
        }
    }
}

/// The entry under `k` after a fetch of the pair under `key` made at
/// `now_ms`: a success replaces that pair's entry; a failure changes nothing.
pub open spec fn recorded_entry<V, E>(
    before: Option<(u64, V)>,
    k: Seq<char>,
    key: Seq<char>,
    now_ms: u64,
    outcome: Result<V, E>,
) -> Option<(u64, V)> {
    match outcome {
        Ok(d) => if k == key {
            Some((now_ms, d))
        } else {
            before
        },
        Err(_) => before,
    }
}

/// Every key cached in `s` is one of `live`.
pub open spec fn keys_within<V>(s: Seq<(String, u64, V)>, live: Seq<Seq<char>>) -> bool {
    forall|k: Seq<char>| #[trigger] entry_of(s, k) is Some ==> live.contains(k)
}

/// The usage fetched per (account, organization) pair: each entry holds the
/// pair's cache key, the time of the fetch (milliseconds of a monotonic
/// clock) and the fetched data. The first entry under a key is the one that
/// counts.
pub struct UsageCache<V> {
    pub entries: Vec<(String, u64, V)>,
}

impl<V> UsageCache<V> {
    /// No pair fetched yet.
    pub fn new() -> (c: Self)
        ensures
            c.entries@.len() == 0,
    {
        UsageCache { entries: Vec::new() }
    }

    fn index_of(&self, key: &str) -> (r: Option<usize>)
        ensures
            r is None ==> entry_index(self.entries@, key@) is None,
            r matches Some(i) ==> i < self.entries@.len() && entry_index(self.entries@, key@) == Some(
                i as int,
            ),
    {
        let mut i: usize = 0;
        while i < self.entries.len()
            invariant
                i <= self.entries@.len(),
                forall|l: int| 0 <= l < i ==> self.entries@[l].0@ != key@,
            decreases self.entries@.len() - i,
        {
            if str_eq(self.entries[i].0.as_str(), key) {
                proof {
                    lemma_entry_index_at(self.entries@, key@, i as int);
                }
                return Some(i);
            }
            i = i + 1;
        }
        proof {
            lemma_entry_index_none(self.entries@, key@);
        }
        None
    }

    /// When the pair under `key` was last fetched, if ever.
    pub fn fetched_at(&self, key: &str) -> (r: Option<u64>)
        ensures
            r == match entry_of(self.entries@, key@) {
                Some(x) => Some(x.0),
                None => None::<u64>,
            },
    {
        match self.index_of(key) {
            Some(i) => Some(self.entries[i].1),
            None => None,
        }
    }

    /// The data last fetched for the pair under `key`, if any.
    pub fn data(&self, key: &str) -> (r: Option<&V>)
        ensures
            match entry_of(self.entries@, key@) {
                Some(x) => r is Some && *r->0 == x.1,
                None => r is None,
            },
    {
        match self.index_of(key) {
            Some(i) => Some(&self.entries[i].2),
            None => None,
        }
    }

    /// Whether the pair under `key` is due for a fetch at `now_ms`: it is
    /// when it was never fetched or its data is at least the effective
    /// interval old.
    pub fn due(&self, key: &str, now_ms: u64, configured_ttl_secs: u64) -> (r: bool)
        ensures
            r == match entry_of(self.entries@, key@) {
                None => true,
                Some(x) => stale_at(x.0, now_ms, configured_ttl_secs),
            },
    {
        match self.fetched_at(key) {
            None => true,
            Some(t) => stale(t, now_ms, configured_ttl_secs),
        }
    }

    /// Drops the entries of pairs whose key is not one of `live`.
    pub fn retain_live(&mut self, live: &Vec<String>)
        ensures
            forall|k: Seq<char>|
                #[trigger] entry_of(final(self).entries@, k) == if texts(live@).contains(k) {
                    entry_of(old(self).entries@, k)
                } else {
                    None
                },
    {
        let ghost live_v = texts(live@);
        let mut kept: Vec<(String, u64, V)> = Vec::new();
        let mut old_entries: Vec<(String, u64, V)> = Vec::new();
        std::mem::swap(&mut old_entries, &mut self.entries);
        let ghost orig = old_entries@;
        let mut rest = old_entries;
        let mut n: usize = 0;
        assert(orig.len() == rest.len());
        while rest.len() > 0
            invariant
                orig.len() <= usize::MAX,
                n + rest@.len() == orig.len(),
                rest@ == orig.subrange(n as int, orig.len() as int),
                kept@ == live_entries(orig.subrange(0, n as int), live_v),
                live_v == texts(live@),
            decreases rest@.len(),
        {
            let e = rest.remove(0);
            proof {
                assert(e == orig[n as int]);
                assert(orig.subrange(0, n + 1).drop_last() =~= orig.subrange(0, n as int));
                assert(orig.subrange(0, n + 1).last() == orig[n as int]);
                assert(rest@ =~= orig.subrange(n + 1, orig.len() as int));
            }
            let keep = is_live_key(live, e.0.as_str());
            if keep {
                kept.push(e);
            }
            n = n + 1;
        }
        proof {
            assert(orig.subrange(0, orig.len() as int) =~= orig);
            assert forall|k: Seq<char>| #[trigger] entry_of(kept@, k) == if live_v.contains(k) {
                entry_of(orig, k)
            } else {
                None
            } by {
                lemma_live_entries(orig, live_v, k);
            }
        }
        self.entries = kept;
    }

    /// Forgets the pair under `key`, so it is fetched again on the next round.
    pub fn forget(&mut self, key: &str)
        ensures
            forall|k: Seq<char>|
                #[trigger] entry_of(final(self).entries@, k) == if k == key@ {
                    None
                } else {
                    entry_of(old(self).entries@, k)
                },
    {
        let mut kept: Vec<(String, u64, V)> = Vec::new();
        let mut old_entries: Vec<(String, u64, V)> = Vec::new();
        std::mem::swap(&mut old_entries, &mut self.entries);
        let ghost orig = old_entries@;
        let mut rest = old_entries;
        let mut n: usize = 0;
        assert(orig.len() == rest.len());
        while rest.len() > 0
            invariant
                orig.len() <= usize::MAX,
                n + rest@.len() == orig.len(),
                rest@ == orig.subrange(n as int, orig.len() as int),
                kept@ == entries_without(orig.subrange(0, n as int), key@),
            decreases rest@.len(),
        {
            let e = rest.remove(0);
            proof {
                assert(e == orig[n as int]);
                assert(orig.subrange(0, n + 1).drop_last() =~= orig.subrange(0, n as int));
                assert(orig.subrange(0, n + 1).last() == orig[n as int]);
                assert(rest@ =~= orig.subrange(n + 1, orig.len() as int));
            }
            if !str_eq(e.0.as_str(), key) {
                kept.push(e);
            }
            n = n + 1;
        }
        proof {
            assert(orig.subrange(0, orig.len() as int) =~= orig);
            assert forall|k: Seq<char>| #[trigger] entry_of(kept@, k) == if k == key@ {
                None
            } else {
                entry_of(orig, k)
            } by {
                lemma_entries_without(orig, key@, k);
            }
        }
        self.entries = kept;
    }

    /// Forgets every pair of the account `account_id` (every key that begins
    /// with `"{account_id}:"`), so they are all fetched again on the next round.
    pub fn forget_account(&mut self, account_id: &str)
        ensures
            forall|k: Seq<char>|
                #[trigger] entry_of(final(self).entries@, k) == if has_prefix(
                    k,
                    account_id@ + ":"@,
                ) {
                    None
                } else {
                    entry_of(old(self).entries@, k)
                },
    {
        let mut prefix = owned(account_id);
        prefix.append(":");
        let ghost p = prefix@;
        let mut kept: Vec<(String, u64, V)> = Vec::new();
        let mut old_entries: Vec<(String, u64, V)> = Vec::new();
        std::mem::swap(&mut old_entries, &mut self.entries);
        let ghost orig = old_entries@;
        let mut rest = old_entries;
        let mut n: usize = 0;
        assert(orig.len() == rest.len());
        while rest.len() > 0
            invariant
                orig.len() <= usize::MAX,
                n + rest@.len() == orig.len(),
                rest@ == orig.subrange(n as int, orig.len() as int),
                kept@ == entries_outside(orig.subrange(0, n as int), p),
                prefix@ == p,
            decreases rest@.len(),
        {
            let e = rest.remove(0);
            proof {
                assert(e == orig[n as int]);
                assert(orig.subrange(0, n + 1).drop_last() =~= orig.subrange(0, n as int));
                assert(orig.subrange(0, n + 1).last() == orig[n as int]);
                assert(rest@ =~= orig.subrange(n + 1, orig.len() as int));
            }
            if !starts_with(e.0.as_str(), prefix.as_str()) {
                kept.push(e);
            }
            n = n + 1;
        }
        proof {
            assert(orig.subrange(0, orig.len() as int) =~= orig);
            assert forall|k: Seq<char>| #[trigger] entry_of(kept@, k) == if has_prefix(k, p) {
                None
            } else {
                entry_of(orig, k)
            } by {
                lemma_entries_outside(orig, p, k);
            }
        }
        self.entries = kept;
    }

    /// Records a fetch of the pair under `key` made at `now_ms`: a success
    /// replaces the pair's entry (fetch time and data); a failure leaves the
    /// cache as it was.
    pub fn record<E>(&mut self, key: String, now_ms: u64, outcome: Result<V, E>)
        ensures
            forall|k: Seq<char>|
                #[trigger] entry_of(final(self).entries@, k) == recorded_entry(
                    entry_of(old(self).entries@, k),
                    k,
                    key@,
                    now_ms,
                    outcome,
                ),
    {
        let data = match outcome {
            Ok(d) => d,
            Err(_) => return,
        };
        let ghost s = self.entries@;
        let ghost kv = key@;
        match self.index_of(key.as_str()) {
            Some(i) => {
                let ghost e = (key, now_ms, data);
                proof {
                    lemma_entry_index(s, kv);
                }
                self.entries.set(i, (key, now_ms, data));
                proof {
                    assert(self.entries@ == s.update(i as int, e));
                    assert forall|k: Seq<char>| #[trigger] entry_of(self.entries@, k) == (if k == kv {
                        Some((now_ms, e.2))
                    } else {
                        entry_of(s, k)
                    }) by {
                        lemma_entry_update(s, i as int, e, k);
                        if k != kv {
                            lemma_entry_index(s, k);
                            if let Some(j) = entry_index(s, k) {
                                assert(j != i);
                            }
                        }
                    }
                }
            },
            None => {
                let ghost e = (key, now_ms, data);
                self.entries.push((key, now_ms, data));
                proof {
                    assert forall|k: Seq<char>| #[trigger] entry_of(self.entries@, k) == (if k == kv {
                        Some((now_ms, e.2))
                    } else {
                        entry_of(s, k)
                    }) by {
                        lemma_entry_push(s, e, k);
                    }
                }
            },
        }
    }
}

/// The (account, organization) positions whose usage the poller fetches:
/// accounts with credentials, organizations with a non-empty uuid, in order.
pub open spec fn fetch_targets_spec(accounts: Seq<ClaudeAccount>) -> Seq<(int, int)>
    decreases accounts.len(),
{
    if accounts.len() == 0 {
        Seq::empty()
    } else {
        let i = accounts.len() - 1;
        let a = accounts[i];
        let rest = fetch_targets_spec(accounts.drop_last());
        if has_credentials_spec(a) {
            rest + org_targets(a.orgs@, i)
        } else {
            rest
        }
    }
}

/// The positions of the organizations with a non-empty uuid, paired with `i`.
pub open spec fn org_targets(orgs: Seq<ClaudeOrg>, i: int) -> Seq<(int, int)>
    decreases orgs.len(),
{
    if orgs.len() == 0 {
        Seq::empty()
    } else {
        let j = orgs.len() - 1;
        let rest = org_targets(orgs.drop_last(), i);
        if orgs[j].uuid@.len() > 0 {
            rest.push((i, j))
        } else {
            rest
        }
    }
}

/// The (account, organization) positions whose usage the poller fetches (see
/// `fetch_targets_spec`).
pub fn fetch_targets(accounts: &Vec<ClaudeAccount>) -> (t: Vec<(usize, usize)>)
    ensures
        t@.map_values(|p: (usize, usize)| (p.0 as int, p.1 as int)) == fetch_targets_spec(accounts@),
{
    let mut t: Vec<(usize, usize)> = Vec::new();
    let mut i: usize = 0;
    while i < accounts.len()
        invariant
            i <= accounts@.len(),
            t@.map_values(|p: (usize, usize)| (p.0 as int, p.1 as int)) == fetch_targets_spec(
                accounts@.subrange(0, i as int),
            ),
        decreases accounts@.len() - i,
    {
        let a = &accounts[i];
        let ghost before = t@.map_values(|p: (usize, usize)| (p.0 as int, p.1 as int));
        if has_credentials(a) {
            let mut j: usize = 0;
            while j < a.orgs.len()
                invariant
                    j <= a.orgs@.len(),
                    t@.map_values(|p: (usize, usize)| (p.0 as int, p.1 as int)) == before + org_targets(
                        a.orgs@.subrange(0, j as int),
                        i as int,
                    ),
                decreases a.orgs@.len() - j,
            {
                proof {
                    assert(a.orgs@.subrange(0, j + 1).drop_last() =~= a.orgs@.subrange(0, j as int));
                }
                assert(a.orgs@.subrange(0, j + 1)[j as int] == a.orgs@[j as int]);
                if a.orgs[j].uuid.as_str().unicode_len() != 0 {
                    let ghost tb = t@;
                    t.push((i, j));
                    assert(t@ =~= tb.push((i, j)));
                    assert(t@.map_values(|p: (usize, usize)| (p.0 as int, p.1 as int)) =~= tb.map_values(
                        |p: (usize, usize)| (p.0 as int, p.1 as int),
                    ).push((i as int, j as int)));
                }
                proof {
                    assert(t@.map_values(|p: (usize, usize)| (p.0 as int, p.1 as int)) =~= before
                        + org_targets(a.orgs@.subrange(0, j + 1), i as int));
                }
                j = j + 1;
            }
            assert(a.orgs@.subrange(0, a.orgs@.len() as int) =~= a.orgs@);
        }
        proof {
            assert(accounts@.subrange(0, i + 1).drop_last() =~= accounts@.subrange(0, i as int));
            assert(accounts@.subrange(0, i + 1)[i as int] == accounts@[i as int]);
        }
        i = i + 1;
    }
    assert(accounts@.subrange(0, accounts@.len() as int) =~= accounts@);
    t
}

/// One round of the usage poller over an account snapshot: the pairs to
/// fetch, in order, with their cache keys, and how far the round has got.
pub struct PollRound {
    pub targets: Vec<(usize, usize)>,
    pub keys: Vec<String>,
    pub next: usize,
}

impl PollRound {
    /// The round is over `accounts`: its pairs are `fetch_targets_spec` of
    /// them, each with its cache key, which is a live key.
    pub open spec fn wf(&self, accounts: Seq<ClaudeAccount>) -> bool {
        &&& self.targets@.map_values(|p: (usize, usize)| (p.0 as int, p.1 as int))
            == fetch_targets_spec(accounts)
        &&& self.keys@.len() == self.targets@.len()
        &&& self.next <= self.targets@.len()
        &&& forall|k: int|
            0 <= k < self.targets@.len() ==> (#[trigger] self.targets@[k]).0 < accounts.len()
                && self.targets@[k].1 < accounts[self.targets@[k].0 as int].orgs@.len()
        &&& forall|k: int|
            0 <= k < self.keys@.len() ==> (#[trigger] self.keys@[k])@ == cache_key_spec(
                accounts[self.targets@[k].0 as int].id@,
                accounts[self.targets@[k].0 as int].orgs@[self.targets@[k].1 as int].uuid@,
            ) && live_keys_spec(accounts).contains(self.keys@[k]@)
    }

    /// Starts a round: drops the cached usage of pairs that no longer exist
    /// and lines up the pairs to fetch (accounts with credentials,
    /// organizations with a uuid, in order).
    pub fn start<V>(cache: &mut UsageCache<V>, accounts: &Vec<ClaudeAccount>) -> (r: PollRound)
        ensures
            r.wf(accounts@),
            r.next == 0,
            forall|k: Seq<char>|
                #[trigger] entry_of(final(cache).entries@, k) == if live_keys_spec(
                    accounts@,
                ).contains(k) {
                    entry_of(old(cache).entries@, k)
                } else {
                    None
                },
            keys_within(final(cache).entries@, live_keys_spec(accounts@)),
    {
        let live = live_cache_keys(accounts);
        cache.retain_live(&live);
        let targets = fetch_targets(accounts);
        proof {
            law_fetch_targets_are_live(accounts@);
        }
        let mut keys: Vec<String> = Vec::new();
        let mut k: usize = 0;
        while k < targets.len()
            invariant
                targets@.map_values(|p: (usize, usize)| (p.0 as int, p.1 as int))
                    == fetch_targets_spec(accounts@),
                k <= targets@.len(),
                keys@.len() == k,
                forall|m: int|
                    0 <= m < fetch_targets_spec(accounts@).len() ==> {
                        let t = #[trigger] fetch_targets_spec(accounts@)[m];
                        &&& 0 <= t.0 < accounts@.len()
                        &&& 0 <= t.1 < accounts@[t.0].orgs@.len()
                        &&& live_keys_spec(accounts@).contains(
                            cache_key_spec(accounts@[t.0].id@, accounts@[t.0].orgs@[t.1].uuid@),
                        )
                    },
                forall|m: int|
                    0 <= m < k ==> (#[trigger] keys@[m])@ == cache_key_spec(
                        accounts@[targets@[m].0 as int].id@,
                        accounts@[targets@[m].0 as int].orgs@[targets@[m].1 as int].uuid@,
                    ) && live_keys_spec(accounts@).contains(keys@[m]@),
            decreases targets@.len() - k,
        {
            let t = targets[k];
            proof {
                assert(targets@.map_values(|p: (usize, usize)| (p.0 as int, p.1 as int))[k as int] == (
                t.0 as int, t.1 as int));
                let mt = fetch_targets_spec(accounts@)[k as int];
                assert(mt == (t.0 as int, t.1 as int));
            }
            let a = &accounts[t.0];
            let ghost before = keys@;
            keys.push(cache_key(a.id.as_str(), a.orgs[t.1].uuid.as_str()));
            proof {
                assert forall|m: int| 0 <= m < k implies keys@[m] == before[m] by {}
            }
            k = k + 1;
        }
        proof {
            assert forall|m: int| 0 <= m < targets@.len() implies (#[trigger] targets@[m]).0
                < accounts@.len() && targets@[m].1 < accounts@[targets@[m].0 as int].orgs@.len() by {
                assert(targets@.map_values(|p: (usize, usize)| (p.0 as int, p.1 as int))[m] == (
                targets@[m].0 as int, targets@[m].1 as int));
                let mt = fetch_targets_spec(accounts@)[m];
                assert(mt == (targets@[m].0 as int, targets@[m].1 as int));
            }
            assert forall|k: Seq<char>| #[trigger] entry_of(cache.entries@, k) is Some implies live_keys_spec(
                accounts@,
            ).contains(k) by {}
        }
        PollRound { targets, keys, next: 0 }
    }

    /// The next pair of the round to fetch at `now_ms`: pairs whose cached
    /// usage is still fresh (fetched less than the effective interval for
    /// `configured_ttl_secs` ago) are skipped; the pair returned is due, and
    /// comes with its position in `accounts` and its (live) cache key.
    /// `None` when the round is over.
    pub fn next_fetch<V>(
        &mut self,
        cache: &UsageCache<V>,
        accounts: &Vec<ClaudeAccount>,
        now_ms: u64,
        configured_ttl_secs: u64,
    ) -> (r: Option<(usize, usize, String)>)
        requires
            old(self).wf(accounts@),
        ensures
            final(self).wf(accounts@),
            final(self).targets@ == old(self).targets@,
            final(self).keys@ == old(self).keys@,
            old(self).next <= final(self).next,
            forall|m: int|
                old(self).next <= m < final(self).next - (if r is Some { 1int } else { 0int })
                    ==> !(match entry_of(cache.entries@, #[trigger] old(self).keys@[m]@) {
                    None => true,
                    Some(x) => stale_at(x.0, now_ms, configured_ttl_secs),
                }),
            match r {
                None => final(self).next == final(self).targets@.len(),
                Some(f) => {
                    let m = final(self).next - 1;
                    &&& old(self).next <= m
                    &&& (f.0, f.1) == final(self).targets@[m]
                    &&& f.2@ == final(self).keys@[m]@
                    &&& live_keys_spec(accounts@).contains(f.2@)
                    &&& match entry_of(cache.entries@, f.2@) {
                        None => true,
                        Some(x) => stale_at(x.0, now_ms, configured_ttl_secs),
                    }
                },
            },
    {
        let ghost start = self.next;
        while self.next < self.targets.len()
            invariant
                self.wf(accounts@),
                self.targets@ == old(self).targets@,
                self.keys@ == old(self).keys@,
                start == old(self).next,
                start <= self.next,
                forall|m: int|
                    start <= m < self.next ==> !(match entry_of(
                        cache.entries@,
                        #[trigger] old(self).keys@[m]@,
                    ) {
                        None => true,
                        Some(x) => stale_at(x.0, now_ms, configured_ttl_secs),
                    }),
            decreases self.targets@.len() - self.next,
        {
            let n = self.next;
            let due = cache.due(self.keys[n].as_str(), now_ms, configured_ttl_secs);
            self.next = n + 1;
            if due {
                let t = self.targets[n];
                return Some((t.0, t.1, self.keys[n].clone()));
            }
        }
        None
    }
}

/// Among the first `n` fetches of a round (cache keys and outcomes), the
/// last successful one of the pair under `k`, if any.
pub open spec fn last_success<V, E>(
    k: Seq<char>,
    keys: Seq<Seq<char>>,
    outcomes: Seq<Result<V, E>>,
    n: int,
) -> Option<int>
    decreases n,
{
    if n <= 0 {
        None
    } else if keys[n - 1] == k && outcomes[n - 1] is Ok {
        Some(n - 1)
    } else {
        last_success(k, keys, outcomes, n - 1)
    }
}

proof fn lemma_round_entries<V, E>(
    caches: Seq<Seq<(String, u64, V)>>,
    keys: Seq<Seq<char>>,
    times: Seq<u64>,
    outcomes: Seq<Result<V, E>>,
    k: Seq<char>,
    n: int,
)
    requires
        0 <= n < caches.len(),
        caches.len() == keys.len() + 1,
        times.len() == keys.len(),
        outcomes.len() == keys.len(),
        forall|j: int, q: Seq<char>|
            0 <= j < keys.len() ==> #[trigger] entry_of(caches[j + 1], q) == recorded_entry(
                entry_of(caches[j], q),
                q,
                keys[j],
                times[j],
                outcomes[j],
            ),
    ensures
        entry_of(caches[n], k) == match last_success(k, keys, outcomes, n) {
            Some(j) => Some((times[j], outcomes[j]->Ok_0)),
            None => entry_of(caches[0], k),
        },
    decreases n,
{
    if n > 0 {
        lemma_round_entries(caches, keys, times, outcomes, k, n - 1);
        assert(entry_of(caches[(n - 1) + 1], k) == recorded_entry(
            entry_of(caches[n - 1], k),
            k,
            keys[n - 1],
            times[n - 1],
            outcomes[n - 1],
        ));
    }
}

/// A poll round's effect on the cache: when the round starts from a cache
/// pruned to the live keys and records, one after the other, fetches of live
/// pairs (`keys[j]`, made at `times[j]`, with `outcomes[j]`), the cache
/// afterwards holds only live pairs, and each pair holds the data of its last
/// successful fetch of the round, or what it held before the round when no
/// fetch of it succeeded.
pub proof fn law_poll_round<V, E>(
    caches: Seq<Seq<(String, u64, V)>>,
    keys: Seq<Seq<char>>,
    times: Seq<u64>,
    outcomes: Seq<Result<V, E>>,
    live: Seq<Seq<char>>,
)
    requires
        caches.len() == keys.len() + 1,
        times.len() == keys.len(),
        outcomes.len() == keys.len(),
        keys_within(caches[0], live),
        forall|j: int| 0 <= j < keys.len() ==> live.contains(#[trigger] keys[j]),
        forall|j: int, q: Seq<char>|
            0 <= j < keys.len() ==> #[trigger] entry_of(caches[j + 1], q) == recorded_entry(
                entry_of(caches[j], q),
                q,
                keys[j],
                times[j],
                outcomes[j],
            ),
    ensures
        keys_within(caches.last(), live),
        forall|k: Seq<char>|
            #[trigger] entry_of(caches.last(), k) == match last_success(
                k,
                keys,
                outcomes,
                keys.len() as int,
            ) {
                Some(j) => Some((times[j], outcomes[j]->Ok_0)),
                None => entry_of(caches[0], k),
            },
{
    let n = keys.len() as int;
    assert forall|k: Seq<char>| #[trigger] entry_of(caches.last(), k) == match last_success(
        k,
        keys,
        outcomes,
        n,
    ) {
        Some(j) => Some((times[j], outcomes[j]->Ok_0)),
        None => entry_of(caches[0], k),
    } by {
        lemma_round_entries(caches, keys, times, outcomes, k, n);
    }
    assert forall|k: Seq<char>| #[trigger] entry_of(caches.last(), k) is Some implies live.contains(
        k,
    ) by {
        lemma_last_success(k, keys, outcomes, n);
        if let Some(j) = last_success(k, keys, outcomes, n) {
            assert(live.contains(keys[j]));
        } else {
            assert(entry_of(caches[0], k) is Some);
        }
    }
}

proof fn lemma_last_success<V, E>(k: Seq<char>, keys: Seq<Seq<char>>, outcomes: Seq<Result<V, E>>, n: int)
    ensures
        last_success(k, keys, outcomes, n) matches Some(j) ==> 0 <= j < n && keys[j] == k
            && outcomes[j] is Ok,
    decreases n,
{
    if n > 0 {
        lemma_last_success(k, keys, outcomes, n - 1);
    }
}

proof fn lemma_org_targets(orgs: Seq<ClaudeOrg>, i: int)
    ensures
        forall|k: int|
            0 <= k < org_targets(orgs, i).len() ==> (#[trigger] org_targets(orgs, i)[k]).0 == i && 0
                <= org_targets(orgs, i)[k].1 < orgs.len(),
    decreases orgs.len(),
{
    if orgs.len() > 0 {
        lemma_org_targets(orgs.drop_last(), i);
        let rest = org_targets(orgs.drop_last(), i);
        assert forall|k: int| 0 <= k < org_targets(orgs, i).len() implies (#[trigger] org_targets(
            orgs,
            i,
        )[k]).0 == i && 0 <= org_targets(orgs, i)[k].1 < orgs.len() by {
            if k < rest.len() {
                assert(org_targets(orgs, i)[k] == rest[k]);
            }
        }
    }
}

/// Every pair the poller fetches is a live pair: its cache key is among the
/// keys the cache is pruned to, so a round never caches data under a key it
/// then drops.
pub proof fn law_fetch_targets_are_live(accounts: Seq<ClaudeAccount>)
    ensures
        forall|k: int|
            0 <= k < fetch_targets_spec(accounts).len() ==> {
                let t = #[trigger] fetch_targets_spec(accounts)[k];
                &&& 0 <= t.0 < accounts.len()
                &&& 0 <= t.1 < accounts[t.0].orgs@.len()
                &&& live_keys_spec(accounts).contains(
                    cache_key_spec(accounts[t.0].id@, accounts[t.0].orgs@[t.1].uuid@),
                )
            },
    decreases accounts.len(),
{
    if accounts.len() > 0 {
        let init = accounts.drop_last();
        let n = accounts.len() - 1;
        let a = accounts[n];
        law_fetch_targets_are_live(init);
        lemma_org_targets(a.orgs@, n);
        let rest = fetch_targets_spec(init);
        let live_init = live_keys_spec(init);
        let mapped = a.orgs@.map_values(|o: ClaudeOrg| cache_key_spec(a.id@, o.uuid@));
        assert(live_keys_spec(accounts) == live_init + mapped);
        assert forall|k: int| 0 <= k < fetch_targets_spec(accounts).len() implies {
            let t = #[trigger] fetch_targets_spec(accounts)[k];
            &&& 0 <= t.0 < accounts.len()
            &&& 0 <= t.1 < accounts[t.0].orgs@.len()
            &&& live_keys_spec(accounts).contains(
                cache_key_spec(accounts[t.0].id@, accounts[t.0].orgs@[t.1].uuid@),
            )
        } by {
            let t = fetch_targets_spec(accounts)[k];
            if k < rest.len() {
                assert(t == rest[k]);
                assert(accounts[t.0] == init[t.0]);
                let key = cache_key_spec(init[t.0].id@, init[t.0].orgs@[t.1].uuid@);
                let w = choose|w: int| 0 <= w < live_init.len() && live_init[w] == key;
                assert((live_init + mapped)[w] == key);
            } else {
                let ot = org_targets(a.orgs@, n);
                assert(t == ot[k - rest.len()]);
                assert(mapped[t.1] == cache_key_spec(a.id@, a.orgs@[t.1].uuid@));
                assert((live_init + mapped)[live_init.len() + t.1] == mapped[t.1]);
            }
        }
    }
}

/// Token counts of one coding-agent usage record.
#[derive(Clone, Copy, Debug, PartialEq, Eq, Structural)]
pub struct TokenUsage {
    pub input_tokens: u64,
    pub output_tokens: u64,
    pub cache_creation_input_tokens: u64,
    pub cache_read_input_tokens: u64,
}

/// One line of a coding-agent session log, as far as the token totals need it.
#[derive(Clone, Debug)]
pub struct UsageLine {
    /// The line's timestamp falls on today's local date.
    pub is_today: bool,
    /// The line carries a message.
    pub has_message: bool,
    /// The message's identifier, when it has one.
    pub message_id: Option<String>,
    /// The message's token usage, when it has one.
    pub usage: Option<TokenUsage>,
}

/// Today's coding-agent token totals.
#[derive(Clone, Copy, Debug, PartialEq, Eq, Structural)]
pub struct TokenTotals {
    pub input_tokens: u64,
    pub output_tokens: u64,
    pub cache_creation_tokens: u64,
    pub cache_read_tokens: u64,
    pub total_tokens: u64,
}

/// Running state of the tally: the four sums and the message identifiers seen.
pub struct TallyState {
    pub input: int,
    pub output: int,
    pub creation: int,
    pub read: int,
    pub seen: Seq<Seq<char>>,
}

/// Whether a line counts: it is from today and is not a repeat of a message
/// identifier already seen today.
pub open spec fn line_counts(l: UsageLine, seen: Seq<Seq<char>>) -> bool {
    l.is_today && !(l.has_message && l.message_id is Some && seen.contains(l.message_id->0@))
}

/// The tally after reading the lines in order.
pub open spec fn tally_spec(lines: Seq<UsageLine>) -> TallyState
    decreases lines.len(),
{
    if lines.len() == 0 {
        TallyState { input: 0, output: 0, creation: 0, read: 0, seen: Seq::empty() }
    } else {
        let st = tally_spec(lines.drop_last());
        let l = lines.last();
        if !line_counts(l, st.seen) || !l.has_message {
            st
        } else {
            let seen = match l.message_id {
                Some(id) => st.seen.push(id@),
                None => st.seen,
            };
            match l.usage {
                Some(u) => TallyState {
                    input: st.input + u.input_tokens,
                    output: st.output + u.output_tokens,
                    creation: st.creation + u.cache_creation_input_tokens,
                    read: st.read + u.cache_read_input_tokens,
                    seen,
                },
                None => TallyState { seen, ..st },
            }
        }
    }
}

/// Which lines count, in order (their cost is summed by the caller).
pub open spec fn counted_spec(lines: Seq<UsageLine>) -> Seq<bool> {
    Seq::new(lines.len(), |i: int| line_counts(lines[i], tally_spec(lines.subrange(0, i)).seen))
}

/// The sums only grow along the lines.
proof fn lemma_tally_monotone(lines: Seq<UsageLine>, i: int)
    requires
        0 <= i <= lines.len(),
    ensures
        0 <= tally_spec(lines.subrange(0, i)).input <= tally_spec(lines).input,
        0 <= tally_spec(lines.subrange(0, i)).output <= tally_spec(lines).output,
        0 <= tally_spec(lines.subrange(0, i)).creation <= tally_spec(lines).creation,
        0 <= tally_spec(lines.subrange(0, i)).read <= tally_spec(lines).read,
    decreases lines.len() - i,
{
    if i < lines.len() {
        lemma_tally_monotone(lines, i + 1);
        assert(lines.subrange(0, i + 1).drop_last() =~= lines.subrange(0, i));
        lemma_tally_nonneg(lines.subrange(0, i));
    } else {
        assert(lines.subrange(0, i) =~= lines);
        lemma_tally_nonneg(lines);
    }
}

proof fn lemma_tally_nonneg(lines: Seq<UsageLine>)
    ensures
        tally_spec(lines).input >= 0,
        tally_spec(lines).output >= 0,
        tally_spec(lines).creation >= 0,
        tally_spec(lines).read >= 0,
    decreases lines.len(),
{
    if lines.len() > 0 {
        lemma_tally_nonneg(lines.drop_last());
    }
}

/// Each message is counted once a day: a line repeating a message identifier
/// already counted today leaves the tally unchanged, and so does a line from
/// another day.
pub proof fn law_repeat_message_not_counted(lines: Seq<UsageLine>, l: UsageLine)
    requires
        !l.is_today || (l.has_message && l.message_id is Some && tally_spec(lines).seen.contains(
            l.message_id->0@,
        )),
    ensures
        tally_spec(lines.push(l)) == tally_spec(lines),
{
    assert(lines.push(l).drop_last() =~= lines);
}

/// The totals fit: each sum and their grand total are at most `u64::MAX`.
pub open spec fn totals_fit(lines: Seq<UsageLine>) -> bool {
    let st = tally_spec(lines);
    st.input + st.output + st.creation + st.read <= u64::MAX
}

fn seen_contains(seen: &Vec<String>, id: &str) -> (r: bool)
    ensures
        r == texts(seen@).contains(id@),
{
    let mut i: usize = 0;
    while i < seen.len()
        invariant
            i <= seen@.len(),
            forall|k: int| 0 <= k < i ==> seen@[k]@ != id@,
        decreases seen@.len() - i,
    {
        if str_eq(seen[i].as_str(), id) {
            assert(texts(seen@)[i as int] == id@);
            return true;
        }
        i = i + 1;
    }
    assert forall|k: int| 0 <= k < seen@.len() implies texts(seen@)[k] != id@ by {
        assert(seen@[k]@ != id@);
    }
    false
}

/// Sums today's token counts over the log lines, counting a message
/// identifier only the first time it appears today; also says which lines
/// count (see `line_counts`), so the caller can sum their cost. `None` when
/// the sums or their total exceed `u64::MAX`.
pub fn tally_usage(lines: &Vec<UsageLine>) -> (r: Option<(TokenTotals, Vec<bool>)>)
    ensures
        match r {
            None => !totals_fit(lines@),
            Some(p) => {
                &&& totals_fit(lines@)
                &&& p.0.input_tokens == tally_spec(lines@).input
                &&& p.0.output_tokens == tally_spec(lines@).output
                &&& p.0.cache_creation_tokens == tally_spec(lines@).creation
                &&& p.0.cache_read_tokens == tally_spec(lines@).read
                &&& p.0.total_tokens == tally_spec(lines@).input + tally_spec(lines@).output
                    + tally_spec(lines@).creation + tally_spec(lines@).read
                &&& p.1@ == counted_spec(lines@)
            },
        },
{
    let mut input: u64 = 0;
    let mut output: u64 = 0;
    let mut creation: u64 = 0;
    let mut read: u64 = 0;
    let mut seen: Vec<String> = Vec::new();
    let mut counted: Vec<bool> = Vec::new();
    let mut i: usize = 0;
    proof {
        lemma_tally_nonneg(lines@);
    }
    while i < lines.len()
        invariant
            i <= lines@.len(),
            ({
                let st = tally_spec(lines@.subrange(0, i as int));
                &&& input == st.input
                &&& output == st.output
                &&& creation == st.creation
                &&& read == st.read
                &&& texts(seen@) == st.seen
            }),
            counted@.len() == i,
            forall|k: int| 0 <= k < i ==> counted@[k] == #[trigger] counted_spec(lines@)[k],
        decreases lines@.len() - i,
    {
        let ghost prefix = lines@.subrange(0, i as int);
        let ghost st = tally_spec(prefix);
        proof {
            assert(lines@.subrange(0, i + 1).drop_last() =~= prefix);
            assert(lines@.subrange(0, i + 1).last() == lines@[i as int]);
            lemma_tally_monotone(lines@, i + 1);
            lemma_tally_nonneg(lines@);
        }
        let l = &lines[i];
        let repeat = match &l.message_id {
            Some(id) => l.has_message && seen_contains(&seen, id.as_str()),
            None => false,
        };
        proof {
            if let Some(id) = lines@[i as int].message_id {
                assert(texts(seen@).contains(id@) == st.seen.contains(id@));
            }
        }
        let counts = l.is_today && !repeat;
        assert(counts == line_counts(lines@[i as int], st.seen));
        counted.push(counts);
        if counts && l.has_message {
            match &l.message_id {
                Some(id) => {
                    let ghost before = texts(seen@);
                    seen.push(id.clone());
                    assert(texts(seen@) =~= before.push(id@));
                },
                None => {},
            }
            match l.usage {
                Some(u) => {
                    let sums = (
                        input.checked_add(u.input_tokens),
                        output.checked_add(u.output_tokens),
                        creation.checked_add(u.cache_creation_input_tokens),
                        read.checked_add(u.cache_read_input_tokens),
                    );
                    match sums {
                        (Some(a), Some(b), Some(c), Some(d)) => {
                            input = a;
                            output = b;
                            creation = c;
                            read = d;
                        },
                        _ => {
                            return None;
                        },
                    }
                },
                None => {},
            }
        }
        i = i + 1;
    }
    proof {
        assert(lines@.subrange(0, lines@.len() as int) =~= lines@);
    }
    let total = match input.checked_add(output) {
        Some(a) => match a.checked_add(creation) {
            Some(b) => b.checked_add(read),
            None => None,
        },
        None => None,
    };
    match total {
        None => None,
        Some(total_tokens) => {
            let totals = TokenTotals {
                input_tokens: input,
                output_tokens: output,
                cache_creation_tokens: creation,
                cache_read_tokens: read,
                total_tokens,
            };
            assert(counted@ =~= counted_spec(lines@));
            Some((totals, counted))
        },
    }
}

/// The instant an RFC 3339 timestamp names, as whole seconds since the Unix
/// epoch and the sub-second nanoseconds, or `None` when the text is not such
/// a timestamp.
pub uninterp spec fn rfc3339_instant(text: Seq<char>) -> Option<(i64, u32)>;

/// Parses an RFC 3339 timestamp with `chrono::DateTime::parse_from_rfc3339`
/// and reads its Unix seconds and sub-second nanoseconds; the result is named
/// `rfc3339_instant` of the text.
/// Its four-digit year and an offset within 23:59 of UTC keep the instant
/// between `EARLIEST_RFC3339_SECS` and `LATEST_RFC3339_SECS`, and a leap second
/// keeps the nanoseconds below two seconds' worth; only a leap second (the
/// 59th second of a minute, as offsets are whole minutes) carries a second's
/// worth or more.
#[verifier::external_body]
fn parse_rfc3339(text: &str) -> (r: Option<(i64, u32)>)
    ensures
        r == rfc3339_instant(text@),
        r matches Some(x) ==> EARLIEST_RFC3339_SECS <= x.0 <= LATEST_RFC3339_SECS && x.1
            < 2_000_000_000 && (x.1 < 1_000_000_000 || x.0 % 60 == 59),
{
    match chrono::DateTime::parse_from_rfc3339(text) {
        Ok(dt) => Some((dt.timestamp(), dt.timestamp_subsec_nanos())),
        Err(_) => None,
    }
}

/// Unix seconds of `0000-01-01T00:00:00+23:59`, the earliest RFC 3339 instant.
pub const EARLIEST_RFC3339_SECS: i64 = -62_167_305_540;

/// Unix seconds of `9999-12-31T23:59:59-23:59`, the latest RFC 3339 instant.
pub const LATEST_RFC3339_SECS: i64 = 253_402_387_139;

pub const NANOS_PER_SEC: i128 = 1_000_000_000;

/// Whole seconds from `now` to `then` (each as Unix seconds and sub-second
/// nanoseconds), truncated toward zero.
pub open spec fn whole_seconds_between(then: (i64, u32), now: (i64, u32)) -> int {
    let diff = (then.0 - now.0) * 1_000_000_000 + then.1 - now.1;
    if diff >= 0 {
        diff / 1_000_000_000
    } else {
        -((-diff) / 1_000_000_000)
    }
}

/// Whole seconds (truncated toward zero) from the instant `now` to the
/// instant `then`, each given as Unix seconds and sub-second nanoseconds.
pub fn seconds_between(then_secs: i64, then_nanos: u32, now_secs: i64, now_nanos: u32) -> (r: i128)
    ensures
        r == whole_seconds_between((then_secs, then_nanos), (now_secs, now_nanos)),
{
    let diff: i128 = (then_secs as i128 - now_secs as i128) * NANOS_PER_SEC + then_nanos as i128
        - now_nanos as i128;
    if diff >= 0 {
        diff / NANOS_PER_SEC
    } else {
        let neg: i128 = -diff;
        -(neg / NANOS_PER_SEC)
    }
}

/// Whole seconds (truncated toward zero) from the instant `now` until the
/// RFC 3339 timestamp `resets_at`; `None` when `resets_at` is not one.
pub fn seconds_until(resets_at: &str, now_secs: i64, now_nanos: u32) -> (r: Option<i128>)
    ensures
        match rfc3339_instant(resets_at@) {
            None => r is None,
            Some(then) => r == Some(whole_seconds_between(then, (now_secs, now_nanos)) as i128),
        },
{
    match parse_rfc3339(resets_at) {
        None => None,
        Some((secs, nanos)) => Some(seconds_between(secs, nanos, now_secs, now_nanos)),
    }
}

/// The local calendar date `(year, month, day)` of the instant `secs` Unix
/// seconds and `nanos` nanoseconds, by the machine's time zone:
/// `chrono::DateTime::from_timestamp`, then `with_timezone(&chrono::Local)`
/// and `date_naive()`. `None` only when the nanoseconds hold a leap second
/// outside the 59th second of a minute. Which date comes back depends on the
/// time zone configured on the machine; as chrono's offsets stay within a day
/// of UTC, it is stated only that the date is valid and that the instant lies
/// within a day of that date (`within_a_day_of`).
#[verifier::external_body]
fn local_date_of_instant(secs: i64, nanos: u32) -> (d: Option<(i32, u32, u32)>)
    requires
        EARLIEST_RFC3339_SECS <= secs <= LATEST_RFC3339_SECS,
        nanos < 2_000_000_000,
    ensures
        (nanos < 1_000_000_000 || secs % 60 == 59) ==> d is Some,
        d matches Some(x) ==> 1 <= x.1 <= 12 && 1 <= x.2 <= 31 && within_a_day_of(x, secs as int),
{
    chrono::DateTime::from_timestamp(secs, nanos).map(
        |dt| {
            let l = dt.with_timezone(&chrono::Local).date_naive();
            (chrono::Datelike::year(&l), chrono::Datelike::month(&l), chrono::Datelike::day(&l))
        },
    )
}

/// Days from 1970-01-01 to the date `(y, m, d)` of the proleptic Gregorian
/// calendar (negative before it).
pub open spec fn days_from_civil(y: int, m: int, d: int) -> int {
    let y2 = if m <= 2 { y - 1 } else { y };
    let era = y2 / 400;
    let yoe = y2 - era * 400;
    let mp = if m > 2 { m - 3 } else { m + 9 };
    let doy = (153 * mp + 2) / 5 + d - 1;
    let doe = yoe * 365 + yoe / 4 - yoe / 100 + doy;
    era * 146097 + doe - 719468
}

/// The instant `secs` (Unix seconds) lies within a day of the calendar date
/// `d`: after the start of the day before it and before the end of the day
/// after it, as it must for `d` to be its date in some time zone.
pub open spec fn within_a_day_of(d: (i32, u32, u32), secs: int) -> bool {
    let midnight = days_from_civil(d.0 as int, d.1 as int, d.2 as int) * 86400;
    midnight - 86400 < secs < midnight + 172800
}

/// `digits` left-padded with '0' to at least `width` characters.
pub open spec fn zero_pad(digits: Seq<char>, width: nat) -> Seq<char> {
    if digits.len() >= width {
        digits
    } else {
        Seq::new((width - digits.len()) as nat, |i: int| '0') + digits
    }
}

/// A year as chrono's `%Y` writes it: four zero-padded digits for the years
/// 0 to 9999, otherwise a sign and at least four digits.
pub open spec fn year_text(y: i32) -> Seq<char> {
    if 0 <= y <= 9999 {
        zero_pad(decimal_spec(y as nat), 4)
    } else if y < 0 {
        seq!['-'] + zero_pad(decimal_spec((-y) as nat), 4)
    } else {
        seq!['+'] + zero_pad(decimal_spec(y as nat), 4)
    }
}

/// A month or a day as two decimal digits.
pub open spec fn two_digits(v: u32) -> Seq<char> {
    seq![digit_char((v / 10) as nat), digit_char((v % 10) as nat)]
}

/// A calendar date `(year, month, day)` written `%Y-%m-%d`.
pub open spec fn date_text_spec(d: (i32, u32, u32)) -> Seq<char> {
    year_text(d.0) + seq!['-'] + two_digits(d.1) + seq!['-'] + two_digits(d.2)
}

/// Appends the decimal digits of `n`, left-padded with '0' to `width`.
fn push_zero_padded(out: &mut String, n: u128, width: usize)
    ensures
        final(out)@ == old(out)@ + zero_pad(decimal_spec(n as nat), width as nat),
{
    let digits = decimal(n);
    let len = digits.as_str().unicode_len();
    let ghost start = out@;
    let mut k = len;
    while k < width
        invariant
            len == decimal_spec(n as nat).len(),
            len <= k <= width || (k == len && len >= width),
            out@ == start + Seq::new((k - len) as nat, |i: int| '0'),
        decreases width - k,
    {
        push_char(out, '0');
        assert(out@ =~= start + Seq::new((k + 1 - len) as nat, |i: int| '0'));
        k = k + 1;
    }
    out.append(digits.as_str());
    if len >= width {
        assert(out@ =~= start + decimal_spec(n as nat));
    } else {
        assert(out@ =~= start + zero_pad(decimal_spec(n as nat), width as nat));
    }
}

/// Appends a month or a day as two decimal digits.
fn push_two_digits(out: &mut String, v: u32)
    requires
        v < 100,
    ensures
        final(out)@ == old(out)@ + two_digits(v),
{
    let tens = (48u8 + (v / 10) as u8) as char;
    let ones = (48u8 + (v % 10) as u8) as char;
    assert(tens == digit_char((v / 10) as nat));
    assert(ones == digit_char((v % 10) as nat));
    let ghost start = out@;
    push_char(out, tens);
    push_char(out, ones);
    assert(out@ =~= start + two_digits(v));
}

/// A calendar date written `%Y-%m-%d`, as chrono formats it.
pub fn date_text(d: (i32, u32, u32)) -> (r: String)
    requires
        1 <= d.1 <= 12,
        1 <= d.2 <= 31,
    ensures
        r@ == date_text_spec(d),
{
    let mut out = String::new();
    let y = d.0;
    if 0 <= y && y <= 9999 {
        push_zero_padded(&mut out, y as u128, 4);
    } else if y < 0 {
        push_char(&mut out, '-');
        let mag: i64 = -(y as i64);
        push_zero_padded(&mut out, mag as u128, 4);
    } else {
        push_char(&mut out, '+');
        push_zero_padded(&mut out, y as u128, 4);
    }
    let ghost after_year = out@;
    assert(after_year =~= year_text(y));
    push_char(&mut out, '-');
    push_two_digits(&mut out, d.1);
    push_char(&mut out, '-');
    push_two_digits(&mut out, d.2);
    assert(out@ =~= date_text_spec(d));
    out
}

/// Whether a log line's timestamp falls on `today`, given the local date of
/// its instant when it has one: then the two dates are compared; otherwise
/// the timestamp must begin with today's `%Y-%m-%d`.
pub fn today_match(local: Option<(i32, u32, u32)>, timestamp: &str, today: (i32, u32, u32)) -> (r:
    bool)
    requires
        1 <= today.1 <= 12,
        1 <= today.2 <= 31,
    ensures
        r == match local {
            Some(d) => d == today,
            None => has_prefix(timestamp@, date_text_spec(today)),
        },
{
    match local {
        Some(d) => d.0 == today.0 && d.1 == today.1 && d.2 == today.2,
        None => {
            let t = date_text(today);
            starts_with(timestamp, t.as_str())
        },
    }
}

/// Whether a log line's timestamp falls on the local date `today`: an
/// RFC 3339 timestamp is compared by the local date of its instant; any
/// other text counts when it begins with today's `%Y-%m-%d`. The local date
/// of an instant depends on the machine's time zone, so the result is stated
/// exactly for timestamps that are not RFC 3339 only; of the others it is
/// stated that an instant more than a day away from today is never today.
pub fn is_today(timestamp: &str, today: (i32, u32, u32)) -> (r: bool)
    requires
        1 <= today.1 <= 12,
        1 <= today.2 <= 31,
    ensures
        rfc3339_instant(timestamp@) is None ==> r == has_prefix(
            timestamp@,
            date_text_spec(today),
        ),
        rfc3339_instant(timestamp@) matches Some(i) && !within_a_day_of(today, i.0 as int) ==> !r,
{
    let local = match parse_rfc3339(timestamp) {
        Some((secs, nanos)) => local_date_of_instant(secs, nanos),
        None => None,
    };
    today_match(local, timestamp, today)
}

/// Whether the calendar date `a` comes before `b`.
pub open spec fn date_before_spec(a: (i32, u32, u32), b: (i32, u32, u32)) -> bool {
    a.0 < b.0 || (a.0 == b.0 && (a.1 < b.1 || (a.1 == b.1 && a.2 < b.2)))
}

/// Whether the calendar date `a` comes before `b` (a log last written before
/// today holds no line of today).
pub fn date_before(a: (i32, u32, u32), b: (i32, u32, u32)) -> (r: bool)
    ensures
        r == date_before_spec(a, b),
{
    a.0 < b.0 || (a.0 == b.0 && (a.1 < b.1 || (a.1 == b.1 && a.2 < b.2)))
}

} // verus!
