//! What the gateway remembers between requests for routing: which account
//! answered a response or a session, which account and model pairs are
//! cooling down, and how each account has fared.
use vstd::prelude::*;
use crate::collection::{
    clamp_i64, CodexLocalAccessCollection, CodexLocalAccessImageGenerationStatus, SESSION_AFFINITY_TTL_MAX_MS,
    SESSION_AFFINITY_TTL_MIN_MS,
};
use crate::text::{chars_of, concat_str, lit, seq_eq, starts_with, starts_with_exec, string_of, trim, trim_vec};

verus! {

broadcast use vstd::string::group_string_axioms;

pub const RESPONSE_AFFINITY_TTL_MS: i64 = 24 * 60 * 60 * 1000;

pub const DEFAULT_SESSION_AFFINITY_TTL_MS: i64 = 60 * 60 * 1000;

pub const MAX_RESPONSE_AFFINITY_BINDINGS: usize = 4096;

// ---------------------------------------------------------------------------
// Keyed lists
// ---------------------------------------------------------------------------

/// The first position of a key in a list of keyed values.
pub open spec fn key_index<W>(s: Seq<(Seq<char>, W)>, key: Seq<char>) -> Option<int>
    decreases s.len(),
{
    if s.len() == 0 {
        None
    } else if s[0].0 == key {
        Some(0)
    } else {
        match key_index(s.drop_first(), key) {
            Some(i) => Some(i + 1),
            None => None,
        }
    }
}

pub proof fn lemma_key_index<W>(s: Seq<(Seq<char>, W)>, key: Seq<char>)
    ensures
        match key_index(s, key) {
            Some(i) => 0 <= i < s.len() && s[i].0 == key && forall|j: int| 0 <= j < i ==> (#[trigger] s[j]).0 != key,
            None => forall|j: int| 0 <= j < s.len() ==> (#[trigger] s[j]).0 != key,
        },
    decreases s.len(),
{
    if s.len() > 0 && s[0].0 != key {
        lemma_key_index(s.drop_first(), key);
        assert forall|j: int| 0 < j < s.len() implies s[j] == s.drop_first()[j - 1] by {}
    }
}

/// The value of a key.
pub open spec fn key_get<W>(s: Seq<(Seq<char>, W)>, key: Seq<char>) -> Option<W> {
    match key_index(s, key) {
        Some(i) => Some(s[i].1),
        None => None,
    }
}

/// A key set to a value: in place where it is, else at the end.
pub open spec fn key_put<W>(s: Seq<(Seq<char>, W)>, key: Seq<char>, w: W) -> Seq<(Seq<char>, W)> {
    match key_index(s, key) {
        Some(i) => s.update(i, (key, w)),
        None => s.push((key, w)),
    }
}

/// A key removed.
pub open spec fn key_del<W>(s: Seq<(Seq<char>, W)>, key: Seq<char>) -> Seq<(Seq<char>, W)> {
    match key_index(s, key) {
        Some(i) => s.remove(i),
        None => s,
    }
}

/// No key occurs twice.
pub open spec fn keys_unique<W>(s: Seq<(Seq<char>, W)>) -> bool {
    forall|i: int, j: int| 0 <= i < j < s.len() ==> (#[trigger] s[i]).0 != (#[trigger] s[j]).0
}

// ---------------------------------------------------------------------------
// Affinity
// ---------------------------------------------------------------------------

/// The account that answered a response or a session, and when.
#[derive(Debug, Clone)]
pub struct ResponseAffinityBinding {
    pub account_id: String,
    pub updated_at_ms: i64,
}

pub type BindingView = (Seq<char>, i64);

pub open spec fn bindings_view(s: Seq<(String, ResponseAffinityBinding)>) -> Seq<(Seq<char>, BindingView)> {
    s.map_values(|p: (String, ResponseAffinityBinding)| (p.0@, (p.1.account_id@, p.1.updated_at_ms)))
}

/// `a - b`, saturating.
pub open spec fn sat_sub(a: i64, b: i64) -> i64 {
    if a - b < i64::MIN {
        i64::MIN
    } else if a - b > i64::MAX {
        i64::MAX
    } else {
        (a - b) as i64
    }
}

fn sat_sub_exec(a: i64, b: i64) -> (r: i64)
    ensures
        r == sat_sub(a, b),
{
    if b >= 0 {
        if a < i64::MIN + b {
            i64::MIN
        } else {
            a - b
        }
    } else {
        if a > i64::MAX + b {
            i64::MAX
        } else {
            a - b
        }
    }
}

/// How long a session is remembered: the collection's setting, between one
/// minute and one day, or an hour without a collection.
pub open spec fn session_ttl(collection: Option<CodexLocalAccessCollection>) -> i64 {
    match collection {
        Some(c) => clamp_i64(c.session_affinity_ttl_ms, SESSION_AFFINITY_TTL_MIN_MS, SESSION_AFFINITY_TTL_MAX_MS),
        None => DEFAULT_SESSION_AFFINITY_TTL_MS,
    }
}

/// How long a binding is remembered: the session time for session keys, a
/// day for responses.
pub open spec fn binding_ttl(key: Seq<char>, session: i64) -> i64 {
    if starts_with(key, "session:"@) {
        session
    } else {
        RESPONSE_AFFINITY_TTL_MS
    }
}

/// A binding still remembered at `now`.
pub open spec fn binding_fresh(e: (Seq<char>, BindingView), session: i64, now: i64) -> bool {
    sat_sub(now, e.1.1) <= binding_ttl(e.0, session)
}

/// The bindings still remembered, in order.
pub open spec fn fresh_bindings(s: Seq<(Seq<char>, BindingView)>, session: i64, now: i64) -> Seq<(Seq<char>, BindingView)>
    decreases s.len(),
{
    if s.len() == 0 {
        Seq::empty()
    } else {
        let before = fresh_bindings(s.drop_last(), session, now);
        if binding_fresh(s.last(), session, now) {
            before.push(s.last())
        } else {
            before
        }
    }
}

/// The position of the oldest binding (the first of the oldest).
pub open spec fn oldest_index(s: Seq<(Seq<char>, BindingView)>) -> int
    decreases s.len(),
{
    if s.len() <= 1 {
        0
    } else {
        let m = oldest_index(s.drop_last());
        if s.last().1.1 < s[m].1.1 {
            s.len() - 1
        } else {
            m
        }
    }
}

pub proof fn lemma_oldest_index(s: Seq<(Seq<char>, BindingView)>)
    requires
        s.len() > 0,
    ensures
        0 <= oldest_index(s) < s.len(),
        forall|j: int| 0 <= j < s.len() ==> s[oldest_index(s)].1.1 <= (#[trigger] s[j]).1.1,
    decreases s.len(),
{
    if s.len() > 1 {
        lemma_oldest_index(s.drop_last());
        assert forall|j: int| 0 <= j < s.len() - 1 implies s[j] == s.drop_last()[j] by {}
    }
}

/// The bindings with the `k` oldest removed, one at a time.
pub open spec fn evict_oldest(s: Seq<(Seq<char>, BindingView)>, k: nat) -> Seq<(Seq<char>, BindingView)>
    decreases k,
{
    if k == 0 || s.len() == 0 {
        s
    } else {
        evict_oldest(s.remove(oldest_index(s)), (k - 1) as nat)
    }
}

/// The bindings after pruning at `now`: those still remembered, and of
/// those, when more than the limit remain, the newest up to the limit.
pub open spec fn pruned_bindings(s: Seq<(Seq<char>, BindingView)>, session: i64, now: i64) -> Seq<(Seq<char>, BindingView)> {
    let f = fresh_bindings(s, session, now);
    if f.len() > MAX_RESPONSE_AFFINITY_BINDINGS {
        evict_oldest(f, (f.len() - MAX_RESPONSE_AFFINITY_BINDINGS) as nat)
    } else {
        f
    }
}

fn session_ttl_exec(collection: Option<&CodexLocalAccessCollection>) -> (r: i64)
    ensures
        r == session_ttl(
            match collection {
                Some(c) => Some(*c),
                None => None,
            },
        ),
{
    match collection {
        Some(c) => {
            let t = c.session_affinity_ttl_ms;
            if t < SESSION_AFFINITY_TTL_MIN_MS {
                SESSION_AFFINITY_TTL_MIN_MS
            } else if t > SESSION_AFFINITY_TTL_MAX_MS {
                SESSION_AFFINITY_TTL_MAX_MS
            } else {
                t
            }
        },
        None => DEFAULT_SESSION_AFFINITY_TTL_MS,
    }
}

fn keep_fresh_bindings(v: &mut Vec<(String, ResponseAffinityBinding)>, session: i64, now: i64)
    ensures
        bindings_view(final(v)@) == fresh_bindings(bindings_view(old(v)@), session, now),
{
    let ghost orig = bindings_view(v@);
    let mut src: Vec<(String, ResponseAffinityBinding)> = Vec::new();
    std::mem::swap(&mut src, v);
    let ghost all = src@;
    let total: usize = src.len();
    let mut kept: Vec<(String, ResponseAffinityBinding)> = Vec::new();
    let mut i: usize = 0;
    let session_prefix = chars_of("session:");
    proof {
        assert(bindings_view(all).take(0) =~= Seq::<(Seq<char>, BindingView)>::empty());
        assert(bindings_view(kept@) =~= Seq::<(Seq<char>, BindingView)>::empty());
    }
    while src.len() > 0
        invariant
            i + src@.len() == all.len(),
            all.len() == total,
            src@ == all.skip(i as int),
            orig == bindings_view(all),
            session_prefix@ == "session:"@,
            bindings_view(kept@) == fresh_bindings(bindings_view(all).take(i as int), session, now),
        decreases src@.len(),
    {
        let ghost before_src = src@;
        let (key, binding) = src.remove(0);
        proof {
            assert(before_src[0] == all[i as int]);
            assert(src@ =~= all.skip(i as int + 1));
            assert(bindings_view(all).take(i as int + 1).drop_last() =~= bindings_view(all).take(i as int));
            assert(bindings_view(all).take(i as int + 1).last() == (key@, (binding.account_id@, binding.updated_at_ms)));
        }
        let ttl = if starts_with_exec(&chars_of(key.as_str()), &session_prefix) {
            session
        } else {
            RESPONSE_AFFINITY_TTL_MS
        };
        if sat_sub_exec(now, binding.updated_at_ms) <= ttl {
            let ghost before = kept@;
            kept.push((key, binding));
            proof {
                assert(bindings_view(kept@) =~= bindings_view(before).push(bindings_view(kept@).last()));
            }
        }
        i = i + 1;
    }
    proof {
        assert(bindings_view(all).take(i as int) =~= bindings_view(all));
    }
    *v = kept;
}

fn oldest_binding(v: &Vec<(String, ResponseAffinityBinding)>) -> (r: usize)
    requires
        v@.len() > 0,
    ensures
        r == oldest_index(bindings_view(v@)),
{
    let ghost s = bindings_view(v@);
    let mut best: usize = 0;
    let mut i: usize = 1;
    proof {
        assert(s.take(1).len() == 1);
    }
    while i < v.len()
        invariant
            1 <= i <= v@.len(),
            s == bindings_view(v@),
            best < i,
            best == oldest_index(s.take(i as int)),
        decreases v@.len() - i,
    {
        proof {
            let t = s.take(i as int + 1);
            assert(t.drop_last() =~= s.take(i as int));
            assert(t.last() == s[i as int]);
            assert(s.take(i as int)[best as int] == s[best as int]);
        }
        if v[i].1.updated_at_ms < v[best].1.updated_at_ms {
            best = i;
        }
        i = i + 1;
    }
    proof {
        assert(s.take(v@.len() as int) =~= s);
    }
    best
}

fn evict_bindings(v: &mut Vec<(String, ResponseAffinityBinding)>, k: usize)
    ensures
        bindings_view(final(v)@) == evict_oldest(bindings_view(old(v)@), k as nat),
{
    let mut left: usize = k;
    while left > 0 && v.len() > 0
        invariant
            evict_oldest(bindings_view(v@), left as nat) == evict_oldest(bindings_view(old(v)@), k as nat),
        decreases left,
    {
        let m = oldest_binding(v);
        proof {
            lemma_oldest_index(bindings_view(v@));
        }
        let ghost before = v@;
        v.remove(m);
        proof {
            assert(bindings_view(v@) =~= bindings_view(before).remove(m as int));
        }
        left = left - 1;
    }
}

/// Forgets affinity bindings that have outlived their time at `now` (a
/// session's time is the collection's setting, a response's a day) and, past
/// the limit, the oldest ones; forgets cooldowns that have ended.
pub fn prune_runtime_routing_state(
    state: &mut GatewayRoutingState,
    collection: Option<&CodexLocalAccessCollection>,
    now: i64,
)
    ensures
        bindings_view(final(state).response_affinity@) == pruned_bindings(
            bindings_view(old(state).response_affinity@),
            session_ttl(
                match collection {
                    Some(c) => Some(*c),
                    None => None,
                },
            ),
            now,
        ),
        cooldowns_view(final(state).model_cooldowns@) == live_cooldowns(
            cooldowns_view(old(state).model_cooldowns@),
            now,
        ),
        final(state).account_health == old(state).account_health,
{
    let session = session_ttl_exec(collection);
    keep_fresh_bindings(&mut state.response_affinity, session, now);
    keep_live_cooldowns(&mut state.model_cooldowns, now);
    let n = state.response_affinity.len();
    if n > MAX_RESPONSE_AFFINITY_BINDINGS {
        evict_bindings(&mut state.response_affinity, n - MAX_RESPONSE_AFFINITY_BINDINGS);
    }
}

// ---------------------------------------------------------------------------
// Cooldowns
// ---------------------------------------------------------------------------

/// A pause on one account for one model.
#[derive(Debug, Clone)]
pub struct AccountModelCooldown {
    pub model_key: String,
    pub next_retry_at_ms: i64,
    pub reason: String,
}

pub type CooldownView = (Seq<char>, i64, Seq<char>);

pub open spec fn cooldowns_view(s: Seq<(String, AccountModelCooldown)>) -> Seq<(Seq<char>, CooldownView)> {
    s.map_values(|p: (String, AccountModelCooldown)| (p.0@, (p.1.model_key@, p.1.next_retry_at_ms, p.1.reason@)))
}

/// The cooldowns that have not ended at `now`, in order.
pub open spec fn live_cooldowns(s: Seq<(Seq<char>, CooldownView)>, now: i64) -> Seq<(Seq<char>, CooldownView)>
    decreases s.len(),
{
    if s.len() == 0 {
        Seq::empty()
    } else {
        let before = live_cooldowns(s.drop_last(), now);
        if s.last().1.1 > now {
            before.push(s.last())
        } else {
            before
        }
    }
}

fn keep_live_cooldowns(v: &mut Vec<(String, AccountModelCooldown)>, now: i64)
    ensures
        cooldowns_view(final(v)@) == live_cooldowns(cooldowns_view(old(v)@), now),
{
    let mut src: Vec<(String, AccountModelCooldown)> = Vec::new();
    std::mem::swap(&mut src, v);
    let ghost all = src@;
    let total: usize = src.len();
    let mut kept: Vec<(String, AccountModelCooldown)> = Vec::new();
    let mut i: usize = 0;
    proof {
        assert(cooldowns_view(all).take(0) =~= Seq::<(Seq<char>, CooldownView)>::empty());
        assert(cooldowns_view(kept@) =~= Seq::<(Seq<char>, CooldownView)>::empty());
    }
    while src.len() > 0
        invariant
            i + src@.len() == all.len(),
            all.len() == total,
            src@ == all.skip(i as int),
            all == old(v)@,
            cooldowns_view(kept@) == live_cooldowns(cooldowns_view(all).take(i as int), now),
        decreases src@.len(),
    {
        let ghost before_src = src@;
        let (key, cooldown) = src.remove(0);
        proof {
            assert(before_src[0] == all[i as int]);
            assert(src@ =~= all.skip(i as int + 1));
            assert(cooldowns_view(all).take(i as int + 1).drop_last() =~= cooldowns_view(all).take(i as int));
        }
        if cooldown.next_retry_at_ms > now {
            let ghost before = kept@;
            kept.push((key, cooldown));
            proof {
                assert(cooldowns_view(kept@) =~= cooldowns_view(before).push(cooldowns_view(kept@).last()));
            }
        }
        i = i + 1;
    }
    proof {
        assert(cooldowns_view(all).take(i as int) =~= cooldowns_view(all));
    }
    *v = kept;
}

// ---------------------------------------------------------------------------
// The state
// ---------------------------------------------------------------------------

/// How an account has fared.
#[derive(Debug, Clone)]
pub struct RuntimeAccountHealth {
    pub email: String,
    pub consecutive_failures: u32,
    pub last_success_at: Option<i64>,
    pub last_failure_at: Option<i64>,
    pub last_failure_status: Option<u16>,
    pub last_failure_category: Option<String>,
    pub last_failure_message: Option<String>,
    pub image_generation_status: CodexLocalAccessImageGenerationStatus,
    pub image_generation_checked_at: Option<i64>,
}

/// What the gateway remembers for routing: bindings by response or session
/// key, cooldowns by account and model key, health by account id.
#[derive(Debug, Clone)]
pub struct GatewayRoutingState {
    pub response_affinity: Vec<(String, ResponseAffinityBinding)>,
    pub model_cooldowns: Vec<(String, AccountModelCooldown)>,
    pub account_health: Vec<(String, RuntimeAccountHealth)>,
}


/// What a state holds: its bindings, cooldowns and health, as values.
pub open spec fn state_bindings(st: GatewayRoutingState) -> Seq<(Seq<char>, BindingView)> {
    bindings_view(st.response_affinity@)
}

pub open spec fn state_cooldowns(st: GatewayRoutingState) -> Seq<(Seq<char>, CooldownView)> {
    cooldowns_view(st.model_cooldowns@)
}

/// A state after pruning at `now`.
pub open spec fn pruned_state(st: GatewayRoutingState, collection: Option<CodexLocalAccessCollection>, now: i64) -> (
    Seq<(Seq<char>, BindingView)>,
    Seq<(Seq<char>, CooldownView)>,
) {
    (pruned_bindings(state_bindings(st), session_ttl(collection), now), live_cooldowns(state_cooldowns(st), now))
}

pub open spec fn opt_collection(c: Option<&CodexLocalAccessCollection>) -> Option<CodexLocalAccessCollection> {
    match c {
        Some(x) => Some(*x),
        None => None,
    }
}

// ---------------------------------------------------------------------------
// Cooldown operations
// ---------------------------------------------------------------------------

/// The key of an account and model pair: both trimmed, joined by the unit
/// separator; none when either is blank.
pub open spec fn cooldown_key(account_id: Seq<char>, model_key: Seq<char>) -> Option<Seq<char>> {
    if trim(account_id).len() == 0 || trim(model_key).len() == 0 {
        None
    } else {
        Some(trim(account_id) + seq!['\u{1f}'] + trim(model_key))
    }
}

/// The key of an account and model pair.
pub fn build_cooldown_key(account_id: &str, model_key: &str) -> (r: Option<String>)
    ensures
        crate::text::opt_string_text(r) == cooldown_key(account_id@, model_key@),
{
    let a = trim_vec(&chars_of(account_id));
    let m = trim_vec(&chars_of(model_key));
    if a.len() == 0 || m.len() == 0 {
        return None;
    }
    let mut sep: Vec<char> = Vec::new();
    sep.push('\u{1f}');
    let k = crate::text::concat_vec(&crate::text::concat_vec(&a, &sep), &m);
    proof {
        assert(sep@ =~= seq!['\u{1f}']);
    }
    Some(string_of(&k))
}

fn find_cooldown(v: &Vec<(String, AccountModelCooldown)>, key: &str) -> (r: Option<usize>)
    ensures
        match r {
            Some(i) => i < v@.len() && key_index(cooldowns_view(v@), key@) == Some(i as int),
            None => key_index(cooldowns_view(v@), key@) is None,
        },
{
    let k = chars_of(key);
    let ghost s = cooldowns_view(v@);
    let mut i: usize = 0;
    proof {
        assert(s.skip(0) =~= s);
    }
    while i < v.len()
        invariant
            i <= v@.len(),
            k@ == key@,
            s == cooldowns_view(v@),
            key_index(s, key@) == match key_index(s.skip(i as int), key@) {
                Some(j) => Some(j + i),
                None => None::<int>,
            },
        decreases v@.len() - i,
    {
        proof {
            assert(s.skip(i as int)[0] == s[i as int]);
            assert(s.skip(i as int).drop_first() =~= s.skip(i as int + 1));
        }
        if seq_eq(&chars_of(v[i].0.as_str()), &k) {
            return Some(i);
        }
        i = i + 1;
    }
    None
}

/// `a + b`, saturating.
pub open spec fn sat_add(a: i64, b: i64) -> i64 {
    if a + b > i64::MAX {
        i64::MAX
    } else if a + b < i64::MIN {
        i64::MIN
    } else {
        (a + b) as i64
    }
}

/// The cooldown that a pause of `retry_after_ms` from `now` sets: its model
/// and reason trimmed, its end `now` plus the pause (saturating; a pause
/// beyond `i64::MAX` milliseconds counts as `i64::MAX`).
pub open spec fn cooldown_for(model_key: Seq<char>, retry_after_ms: u64, reason: Seq<char>, now: i64) -> CooldownView {
    (
        trim(model_key),
        sat_add(
            now,
            if retry_after_ms > i64::MAX {
                i64::MAX
            } else {
                retry_after_ms as i64
            },
        ),
        trim(reason),
    )
}

/// Pauses an account for a model: with a key and a pause, the state is
/// pruned at `now` and the cooldown set; otherwise nothing changes.
pub fn set_model_cooldown(
    state: &mut GatewayRoutingState,
    collection: Option<&CodexLocalAccessCollection>,
    account_id: &str,
    model_key: &str,
    retry_after_ms: u64,
    reason: &str,
    now: i64,
)
    ensures
        match cooldown_key(account_id@, model_key@) {
            Some(k) if retry_after_ms > 0 => {
                let p = pruned_state(*old(state), opt_collection(collection), now);
                &&& state_bindings(*final(state)) == p.0
                &&& state_cooldowns(*final(state)) == key_put(p.1, k, cooldown_for(model_key@, retry_after_ms, reason@, now))
            },
            _ => *final(state) == *old(state),
        },
        final(state).account_health == old(state).account_health,
{
    let key = match build_cooldown_key(account_id, model_key) {
        Some(k) => k,
        None => return,
    };
    if retry_after_ms == 0 {
        return;
    }
    let pause: i64 = if retry_after_ms > i64::MAX as u64 {
        i64::MAX
    } else {
        retry_after_ms as i64
    };
    let next = if now > i64::MAX - pause {
        i64::MAX
    } else {
        now + pause
    };
    prune_runtime_routing_state(state, collection, now);
    let cooldown = AccountModelCooldown {
        model_key: string_of(&trim_vec(&chars_of(model_key))),
        next_retry_at_ms: next,
        reason: string_of(&trim_vec(&chars_of(reason))),
    };
    let ghost before = state.model_cooldowns@;
    match find_cooldown(&state.model_cooldowns, key.as_str()) {
        Some(i) => {
            state.model_cooldowns.set(i, (key, cooldown));
            proof {
                assert(cooldowns_view(state.model_cooldowns@) =~= cooldowns_view(before).update(
                    i as int,
                    cooldowns_view(state.model_cooldowns@)[i as int],
                ));
            }
        },
        None => {
            state.model_cooldowns.push((key, cooldown));
            proof {
                assert(cooldowns_view(state.model_cooldowns@) =~= cooldowns_view(before).push(
                    cooldowns_view(state.model_cooldowns@).last(),
                ));
            }
        },
    }
}

/// Ends an account's pause for a model: with a key, the state is pruned at
/// `now` and the cooldown removed; otherwise nothing changes.
pub fn clear_model_cooldown(
    state: &mut GatewayRoutingState,
    collection: Option<&CodexLocalAccessCollection>,
    account_id: &str,
    model_key: &str,
    now: i64,
)
    ensures
        match cooldown_key(account_id@, model_key@) {
            Some(k) => {
                let p = pruned_state(*old(state), opt_collection(collection), now);
                &&& state_bindings(*final(state)) == p.0
                &&& state_cooldowns(*final(state)) == key_del(p.1, k)
            },
            None => *final(state) == *old(state),
        },
        final(state).account_health == old(state).account_health,
{
    let key = match build_cooldown_key(account_id, model_key) {
        Some(k) => k,
        None => return,
    };
    prune_runtime_routing_state(state, collection, now);
    let ghost before = state.model_cooldowns@;
    match find_cooldown(&state.model_cooldowns, key.as_str()) {
        Some(i) => {
            state.model_cooldowns.remove(i);
            proof {
                assert(cooldowns_view(state.model_cooldowns@) =~= cooldowns_view(before).remove(i as int));
            }
        },
        None => {},
    }
}

/// How long an account still pauses for a model at `now`, in milliseconds:
/// with a key, after pruning, the time left of its cooldown when some is
/// left; none otherwise.
pub fn get_model_cooldown_wait(
    state: &mut GatewayRoutingState,
    collection: Option<&CodexLocalAccessCollection>,
    account_id: &str,
    model_key: &str,
    now: i64,
) -> (r: Option<u64>)
    ensures
        match cooldown_key(account_id@, model_key@) {
            Some(k) => {
                let p = pruned_state(*old(state), opt_collection(collection), now);
                &&& state_bindings(*final(state)) == p.0
                &&& state_cooldowns(*final(state)) == p.1
                &&& r == match key_get(p.1, k) {
                    Some(c) => if sat_sub(c.1, now) > 0 {
                        Some(sat_sub(c.1, now) as u64)
                    } else {
                        None
                    },
                    None => None,
                }
            },
            None => *final(state) == *old(state) && r is None,
        },
        final(state).account_health == old(state).account_health,
{
    let key = match build_cooldown_key(account_id, model_key) {
        Some(k) => k,
        None => return None,
    };
    prune_runtime_routing_state(state, collection, now);
    match find_cooldown(&state.model_cooldowns, key.as_str()) {
        Some(i) => {
            let wait = sat_sub_exec(state.model_cooldowns[i].1.next_retry_at_ms, now);
            if wait <= 0 {
                None
            } else {
                Some(wait as u64)
            }
        },
        None => None,
    }
}

/// A wait as shown to users: whole seconds (at least one) and `秒`.
pub open spec fn retry_after_text(wait_ms: u64) -> Seq<char> {
    crate::errors::decimal_text(if wait_ms / 1000 < 1 {
        1nat
    } else {
        (wait_ms / 1000) as nat
    }) + " 秒"@
}

/// A wait as shown to users.
pub fn format_retry_after_duration(wait_ms: u64) -> (r: String)
    ensures
        r@ == retry_after_text(wait_ms),
{
    let seconds = if wait_ms / 1000 < 1 {
        1
    } else {
        wait_ms / 1000
    };
    concat_str(crate::errors::decimal_string(seconds).as_str(), " 秒")
}

/// Why no account can serve now: all are cooling down, for the model when
/// one is named; with the wait.
pub open spec fn cooldown_unavailable_message(model_key: Seq<char>, wait_ms: u64) -> Seq<char> {
    if trim(model_key).len() == 0 {
        "当前 API 服务账号均在冷却中，请 "@ + retry_after_text(wait_ms) + " 后重试"@
    } else {
        "模型 "@ + model_key + " 的可用账号均在冷却中，请 "@ + retry_after_text(wait_ms) + " 后重试"@
    }
}

/// Why no account can serve now.
pub fn build_cooldown_unavailable_message(model_key: &str, wait_ms: u64) -> (r: String)
    ensures
        r@ == cooldown_unavailable_message(model_key@, wait_ms),
{
    let wait = format_retry_after_duration(wait_ms);
    if trim_vec(&chars_of(model_key)).len() == 0 {
        concat_str(concat_str("当前 API 服务账号均在冷却中，请 ", wait.as_str()).as_str(), " 后重试")
    } else {
        let a = concat_str("模型 ", model_key);
        let b = concat_str(a.as_str(), " 的可用账号均在冷却中，请 ");
        concat_str(concat_str(b.as_str(), wait.as_str()).as_str(), " 后重试")
    }
}

// ---------------------------------------------------------------------------
// Affinity operations
// ---------------------------------------------------------------------------

fn find_binding(v: &Vec<(String, ResponseAffinityBinding)>, key: &str) -> (r: Option<usize>)
    ensures
        match r {
            Some(i) => i < v@.len() && key_index(bindings_view(v@), key@) == Some(i as int),
            None => key_index(bindings_view(v@), key@) is None,
        },
{
    let k = chars_of(key);
    let ghost s = bindings_view(v@);
    let mut i: usize = 0;
    proof {
        assert(s.skip(0) =~= s);
    }
    while i < v.len()
        invariant
            i <= v@.len(),
            k@ == key@,
            s == bindings_view(v@),
            key_index(s, key@) == match key_index(s.skip(i as int), key@) {
                Some(j) => Some(j + i),
                None => None::<int>,
            },
        decreases v@.len() - i,
    {
        proof {
            assert(s.skip(i as int)[0] == s[i as int]);
            assert(s.skip(i as int).drop_first() =~= s.skip(i as int + 1));
        }
        if seq_eq(&chars_of(v[i].0.as_str()), &k) {
            return Some(i);
        }
        i = i + 1;
    }
    None
}

/// The account that answered a response before, after pruning at `now`.
pub fn resolve_affinity_account(
    state: &mut GatewayRoutingState,
    collection: Option<&CodexLocalAccessCollection>,
    previous_response_id: &str,
    now: i64,
) -> (r: Option<String>)
    ensures
        ({
            let p = pruned_state(*old(state), opt_collection(collection), now);
            &&& state_bindings(*final(state)) == p.0
            &&& state_cooldowns(*final(state)) == p.1
            &&& crate::text::opt_string_text(r) == match key_get(p.0, previous_response_id@) {
                Some(b) => Some(b.0),
                None => None::<Seq<char>>,
            }
        }),
        final(state).account_health == old(state).account_health,
{
    prune_runtime_routing_state(state, collection, now);
    match find_binding(&state.response_affinity, previous_response_id) {
        Some(i) => Some(crate::text::copy_string(&state.response_affinity[i].1.account_id)),
        None => None,
    }
}

/// Remembers which account answered a response or session: with both
/// (trimmed) given, the state is pruned at `now`, the binding set, and the
/// state pruned again; otherwise nothing changes.
pub fn bind_response_affinity(
    state: &mut GatewayRoutingState,
    collection: Option<&CodexLocalAccessCollection>,
    response_id: &str,
    account_id: &str,
    now: i64,
)
    ensures
        if trim(response_id@).len() == 0 || trim(account_id@).len() == 0 {
            *final(state) == *old(state)
        } else {
            let p = pruned_state(*old(state), opt_collection(collection), now);
            let session = session_ttl(opt_collection(collection));
            &&& state_bindings(*final(state)) == pruned_bindings(
                key_put(p.0, trim(response_id@), (trim(account_id@), now)),
                session,
                now,
            )
            &&& state_cooldowns(*final(state)) == live_cooldowns(p.1, now)
        },
        final(state).account_health == old(state).account_health,
{
    let rid = trim_vec(&chars_of(response_id));
    let aid = trim_vec(&chars_of(account_id));
    if rid.len() == 0 || aid.len() == 0 {
        return;
    }
    prune_runtime_routing_state(state, collection, now);
    let key = string_of(&rid);
    let binding = ResponseAffinityBinding { account_id: string_of(&aid), updated_at_ms: now };
    let ghost before = state.response_affinity@;
    match find_binding(&state.response_affinity, key.as_str()) {
        Some(i) => {
            state.response_affinity.set(i, (key, binding));
            proof {
                assert(bindings_view(state.response_affinity@) =~= bindings_view(before).update(
                    i as int,
                    bindings_view(state.response_affinity@)[i as int],
                ));
            }
        },
        None => {
            state.response_affinity.push((key, binding));
            proof {
                assert(bindings_view(state.response_affinity@) =~= bindings_view(before).push(
                    bindings_view(state.response_affinity@).last(),
                ));
            }
        },
    }
    prune_runtime_routing_state(state, collection, now);
}


// ---------------------------------------------------------------------------
// Account health
// ---------------------------------------------------------------------------

/// An account's record as values: email, consecutive failures, last success,
/// last failure (time, status, category, message), image capability and
/// when it was checked.
pub type HealthView = (
    Seq<char>,
    u32,
    Option<i64>,
    Option<i64>,
    Option<u16>,
    Option<Seq<char>>,
    Option<Seq<char>>,
    CodexLocalAccessImageGenerationStatus,
    Option<i64>,
);

pub open spec fn health_view(h: RuntimeAccountHealth) -> HealthView {
    (
        h.email@,
        h.consecutive_failures,
        h.last_success_at,
        h.last_failure_at,
        h.last_failure_status,
        crate::text::opt_string_text(h.last_failure_category),
        crate::text::opt_string_text(h.last_failure_message),
        h.image_generation_status,
        h.image_generation_checked_at,
    )
}

pub open spec fn healths_view(s: Seq<(String, RuntimeAccountHealth)>) -> Seq<(Seq<char>, HealthView)> {
    s.map_values(|p: (String, RuntimeAccountHealth)| (p.0@, health_view(p.1)))
}

/// The record of an account never seen: nothing known.
pub open spec fn fresh_health() -> HealthView {
    (Seq::empty(), 0, None, None, None, None, None, CodexLocalAccessImageGenerationStatus::Unknown, None)
}

/// An account's record, or a fresh one.
pub open spec fn health_or_fresh(s: Seq<(Seq<char>, HealthView)>, id: Seq<char>) -> HealthView {
    match key_get(s, id) {
        Some(h) => h,
        None => fresh_health(),
    }
}

fn new_health() -> (r: RuntimeAccountHealth)
    ensures
        health_view(r) == fresh_health(),
{
    RuntimeAccountHealth {
        email: String::new(),
        consecutive_failures: 0,
        last_success_at: None,
        last_failure_at: None,
        last_failure_status: None,
        last_failure_category: None,
        last_failure_message: None,
        image_generation_status: CodexLocalAccessImageGenerationStatus::Unknown,
        image_generation_checked_at: None,
    }
}

fn copy_health(h: &RuntimeAccountHealth) -> (r: RuntimeAccountHealth)
    ensures
        health_view(r) == health_view(*h),
{
    RuntimeAccountHealth {
        email: crate::text::copy_string(&h.email),
        consecutive_failures: h.consecutive_failures,
        last_success_at: h.last_success_at,
        last_failure_at: h.last_failure_at,
        last_failure_status: h.last_failure_status,
        last_failure_category: crate::text::copy_opt_string(&h.last_failure_category),
        last_failure_message: crate::text::copy_opt_string(&h.last_failure_message),
        image_generation_status: h.image_generation_status,
        image_generation_checked_at: h.image_generation_checked_at,
    }
}

fn find_health(v: &Vec<(String, RuntimeAccountHealth)>, key: &str) -> (r: Option<usize>)
    ensures
        match r {
            Some(i) => i < v@.len() && key_index(healths_view(v@), key@) == Some(i as int),
            None => key_index(healths_view(v@), key@) is None,
        },
{
    let k = chars_of(key);
    let ghost s = healths_view(v@);
    let mut i: usize = 0;
    proof {
        assert(s.skip(0) =~= s);
    }
    while i < v.len()
        invariant
            i <= v@.len(),
            k@ == key@,
            s == healths_view(v@),
            key_index(s, key@) == match key_index(s.skip(i as int), key@) {
                Some(j) => Some(j + i),
                None => None::<int>,
            },
        decreases v@.len() - i,
    {
        proof {
            assert(s.skip(i as int)[0] == s[i as int]);
            assert(s.skip(i as int).drop_first() =~= s.skip(i as int + 1));
        }
        if seq_eq(&chars_of(v[i].0.as_str()), &k) {
            return Some(i);
        }
        i = i + 1;
    }
    None
}

fn put_health(v: &mut Vec<(String, RuntimeAccountHealth)>, key: &str, h: RuntimeAccountHealth)
    ensures
        healths_view(final(v)@) == key_put(healths_view(old(v)@), key@, health_view(h)),
{
    let ghost hv = health_view(h);
    let ghost before = v@;
    match find_health(v, key) {
        Some(i) => {
            v.set(i, (lit(key), h));
            proof {
                assert(healths_view(v@) =~= healths_view(before).update(i as int, (key@, hv)));
            }
        },
        None => {
            v.push((lit(key), h));
            proof {
                assert(healths_view(v@) =~= healths_view(before).push((key@, hv)));
            }
        },
    }
}

fn health_of(v: &Vec<(String, RuntimeAccountHealth)>, key: &str) -> (r: RuntimeAccountHealth)
    ensures
        health_view(r) == health_or_fresh(healths_view(v@), key@),
{
    match find_health(v, key) {
        Some(i) => copy_health(&v[i].1),
        None => new_health(),
    }
}

/// The record after a success at `now`: the email noted, no failures in a
/// row, the success time, and for an image request the capability confirmed.
pub open spec fn after_success(h: HealthView, email: Seq<char>, image: bool, now: i64) -> HealthView {
    (
        email,
        0,
        Some(now),
        h.3,
        h.4,
        h.5,
        h.6,
        if image {
            CodexLocalAccessImageGenerationStatus::Available
        } else {
            h.7
        },
        if image {
            Some(now)
        } else {
            h.8
        },
    )
}

/// Records a success of an account at `now`.
pub fn mark_account_success(
    state: &mut GatewayRoutingState,
    account_id: &str,
    email: &str,
    request_kind: crate::http::CodexLocalAccessRequestKind,
    now: i64,
)
    ensures
        healths_view(final(state).account_health@) == key_put(
            healths_view(old(state).account_health@),
            account_id@,
            after_success(
                health_or_fresh(healths_view(old(state).account_health@), account_id@),
                email@,
                request_kind == crate::http::CodexLocalAccessRequestKind::ImageGeneration || request_kind
                    == crate::http::CodexLocalAccessRequestKind::ImageEdit,
                now,
            ),
        ),
        final(state).response_affinity == old(state).response_affinity,
        final(state).model_cooldowns == old(state).model_cooldowns,
{
    let mut h = health_of(&state.account_health, account_id);
    h.email = lit(email);
    h.consecutive_failures = 0;
    h.last_success_at = Some(now);
    if crate::usage_log::request_kind_is_image(request_kind) {
        h.image_generation_status = CodexLocalAccessImageGenerationStatus::Available;
        h.image_generation_checked_at = Some(now);
    }
    put_health(&mut state.account_health, account_id, h);
}

/// The record after a failure at `now`: the email noted, one more failure in
/// a row (saturating), the failure's time, status, category and trimmed
/// message (none when blank); a category `image_generation_not_enabled`
/// marks the capability missing, and an image request on an account of
/// unknown capability notes the check.
pub open spec fn after_failure(
    h: HealthView,
    email: Seq<char>,
    status: Option<u16>,
    category: Option<Seq<char>>,
    message: Seq<char>,
    image: bool,
    now: i64,
) -> HealthView {
    let missing = category == Some("image_generation_not_enabled"@);
    (
        email,
        if h.1 == u32::MAX {
            u32::MAX
        } else {
            (h.1 + 1) as u32
        },
        h.2,
        Some(now),
        status,
        category,
        if trim(message).len() > 0 {
            Some(trim(message))
        } else {
            None
        },
        if missing {
            CodexLocalAccessImageGenerationStatus::Unavailable
        } else {
            h.7
        },
        if missing || (image && h.7 == CodexLocalAccessImageGenerationStatus::Unknown) {
            Some(now)
        } else {
            h.8
        },
    )
}

/// Records a failure of an account at `now`.
pub fn mark_account_failure(
    state: &mut GatewayRoutingState,
    account_id: &str,
    email: &str,
    status: Option<u16>,
    category: Option<&str>,
    message: &str,
    request_kind: crate::http::CodexLocalAccessRequestKind,
    now: i64,
)
    ensures
        healths_view(final(state).account_health@) == key_put(
            healths_view(old(state).account_health@),
            account_id@,
            after_failure(
                health_or_fresh(healths_view(old(state).account_health@), account_id@),
                email@,
                status,
                match category {
                    Some(c) => Some(c@),
                    None => None,
                },
                message@,
                request_kind == crate::http::CodexLocalAccessRequestKind::ImageGeneration || request_kind
                    == crate::http::CodexLocalAccessRequestKind::ImageEdit,
                now,
            ),
        ),
        final(state).response_affinity == old(state).response_affinity,
        final(state).model_cooldowns == old(state).model_cooldowns,
{
    let mut h = health_of(&state.account_health, account_id);
    h.email = lit(email);
    h.consecutive_failures = h.consecutive_failures.saturating_add(1);
    h.last_failure_at = Some(now);
    h.last_failure_status = status;
    h.last_failure_category = match category {
        Some(c) => Some(lit(c)),
        None => None,
    };
    let m = trim_vec(&chars_of(message));
    h.last_failure_message = if m.len() > 0 {
        Some(string_of(&m))
    } else {
        None
    };
    let missing = match category {
        Some(c) => seq_eq(&chars_of(c), &chars_of("image_generation_not_enabled")),
        None => false,
    };
    if missing {
        h.image_generation_status = CodexLocalAccessImageGenerationStatus::Unavailable;
        h.image_generation_checked_at = Some(now);
    } else if crate::usage_log::request_kind_is_image(request_kind) && h.image_generation_status
        == CodexLocalAccessImageGenerationStatus::Unknown {
        h.image_generation_checked_at = Some(now);
    }
    put_health(&mut state.account_health, account_id, h);
}


// ---------------------------------------------------------------------------
// The health report
// ---------------------------------------------------------------------------

/// A pause an account is under, as reported.
#[derive(Debug, Clone)]
pub struct CodexLocalAccessAccountCooldown {
    pub model_id: String,
    pub next_retry_at: i64,
    pub remaining_ms: i64,
    pub reason: String,
}

/// How an account of the collection stands, as reported.
#[derive(Debug, Clone)]
pub struct CodexLocalAccessAccountHealth {
    pub account_id: String,
    pub email: String,
    pub available: bool,
    pub consecutive_failures: u32,
    pub last_success_at: Option<i64>,
    pub last_failure_at: Option<i64>,
    pub last_failure_status: Option<u16>,
    pub last_failure_category: Option<String>,
    pub last_failure_message: Option<String>,
    pub image_generation_status: CodexLocalAccessImageGenerationStatus,
    pub image_generation_checked_at: Option<i64>,
    pub cooldowns: Vec<CodexLocalAccessAccountCooldown>,
}

pub type ReportedCooldown = (Seq<char>, i64, i64, Seq<char>);

pub open spec fn reported_cooldowns(v: Seq<CodexLocalAccessAccountCooldown>) -> Seq<ReportedCooldown> {
    v.map_values(|c: CodexLocalAccessAccountCooldown| (c.model_id@, c.next_retry_at, c.remaining_ms, c.reason@))
}

/// The pauses of one account at `now`, in order: the cooldowns whose key
/// begins with its id and the separator, with the time left (never below zero).
pub open spec fn account_cooldowns(s: Seq<(Seq<char>, CooldownView)>, id: Seq<char>, now: i64) -> Seq<ReportedCooldown>
    decreases s.len(),
{
    if s.len() == 0 {
        Seq::empty()
    } else {
        let before = account_cooldowns(s.drop_last(), id, now);
        let c = s.last();
        if starts_with(c.0, id + seq!['\u{1f}']) {
            before.push(
                (
                    c.1.0,
                    c.1.1,
                    if sat_sub(c.1.1, now) > 0 {
                        sat_sub(c.1.1, now)
                    } else {
                        0
                    },
                    c.1.2,
                ),
            )
        } else {
            before
        }
    }
}

/// The email the statistics hold for an account (the last entry with its id).
pub open spec fn stats_email(accounts: Seq<crate::stats::CodexLocalAccessAccountStats>, id: Seq<char>) -> Option<Seq<char>>
    decreases accounts.len(),
{
    if accounts.len() == 0 {
        None
    } else if accounts.last().account_id@ == id {
        Some(accounts.last().email@)
    } else {
        stats_email(accounts.drop_last(), id)
    }
}

/// How an account stands, as the report gives it at `now`: its record (or
/// nothing known), its email (the record's unless blank, else the
/// statistics', else empty), available when it has no pause and fewer than
/// three failures in a row, and its image capability (disabled when the
/// collection disables image generation).
pub open spec fn reported_health(
    a: CodexLocalAccessAccountHealth,
    id: Seq<char>,
    healths: Seq<(Seq<char>, HealthView)>,
    cooldowns: Seq<(Seq<char>, CooldownView)>,
    accounts: Seq<crate::stats::CodexLocalAccessAccountStats>,
    images_disabled: bool,
    now: i64,
) -> bool {
    let h = key_get(healths, id);
    let pauses = account_cooldowns(cooldowns, id, now);
    &&& a.account_id@ == id
    &&& a.email@ == match h {
        Some(x) if trim(x.0).len() > 0 => x.0,
        _ => match stats_email(accounts, id) {
            Some(e) => e,
            None => Seq::empty(),
        },
    }
    &&& reported_cooldowns(a.cooldowns@) == pauses
    &&& a.available == (pauses.len() == 0 && match h {
        Some(x) => x.1 < 3,
        None => true,
    })
    &&& a.consecutive_failures == match h {
        Some(x) => x.1,
        None => 0,
    }
    &&& a.last_success_at == match h {
        Some(x) => x.2,
        None => None,
    }
    &&& a.last_failure_at == match h {
        Some(x) => x.3,
        None => None,
    }
    &&& a.last_failure_status == match h {
        Some(x) => x.4,
        None => None,
    }
    &&& crate::text::opt_string_text(a.last_failure_category) == match h {
        Some(x) => x.5,
        None => None,
    }
    &&& crate::text::opt_string_text(a.last_failure_message) == match h {
        Some(x) => x.6,
        None => None,
    }
    &&& a.image_generation_status == if images_disabled {
        CodexLocalAccessImageGenerationStatus::Disabled
    } else {
        match h {
            Some(x) => x.7,
            None => CodexLocalAccessImageGenerationStatus::Unknown,
        }
    }
    &&& a.image_generation_checked_at == match h {
        Some(x) => x.8,
        None => None,
    }
}

fn cooldowns_of_account(v: &Vec<(String, AccountModelCooldown)>, id: &str, now: i64) -> (r: Vec<
    CodexLocalAccessAccountCooldown,
>)
    ensures
        reported_cooldowns(r@) == account_cooldowns(cooldowns_view(v@), id@, now),
{
    let mut prefix = chars_of(id);
    prefix.push('\u{1f}');
    let ghost s = cooldowns_view(v@);
    let mut out: Vec<CodexLocalAccessAccountCooldown> = Vec::new();
    let mut i: usize = 0;
    proof {
        assert(prefix@ =~= id@ + seq!['\u{1f}']);
        assert(s.take(0) =~= Seq::<(Seq<char>, CooldownView)>::empty());
        assert(reported_cooldowns(out@) =~= Seq::<ReportedCooldown>::empty());
    }
    while i < v.len()
        invariant
            i <= v@.len(),
            s == cooldowns_view(v@),
            prefix@ == id@ + seq!['\u{1f}'],
            reported_cooldowns(out@) == account_cooldowns(s.take(i as int), id@, now),
        decreases v@.len() - i,
    {
        proof {
            assert(s.take(i as int + 1).drop_last() =~= s.take(i as int));
            assert(s.take(i as int + 1).last() == s[i as int]);
        }
        let (key, c) = (&v[i].0, &v[i].1);
        if starts_with_exec(&chars_of(key.as_str()), &prefix) {
            let left = sat_sub_exec(c.next_retry_at_ms, now);
            let ghost before = out@;
            out.push(
                CodexLocalAccessAccountCooldown {
                    model_id: crate::text::copy_string(&c.model_key),
                    next_retry_at: c.next_retry_at_ms,
                    remaining_ms: if left > 0 {
                        left
                    } else {
                        0
                    },
                    reason: crate::text::copy_string(&c.reason),
                },
            );
            proof {
                assert(reported_cooldowns(out@) =~= reported_cooldowns(before).push(reported_cooldowns(out@).last()));
            }
        }
        i = i + 1;
    }
    proof {
        assert(s.take(v@.len() as int) =~= s);
    }
    out
}

fn stats_email_exec(accounts: &Vec<crate::stats::CodexLocalAccessAccountStats>, id: &str) -> (r: Option<String>)
    ensures
        crate::text::opt_string_text(r) == stats_email(accounts@, id@),
{
    let k = chars_of(id);
    let mut j: usize = accounts.len();
    proof {
        assert(accounts@.take(j as int) =~= accounts@);
    }
    while j > 0
        invariant
            j <= accounts@.len(),
            k@ == id@,
            stats_email(accounts@, id@) == stats_email(accounts@.take(j as int), id@),
        decreases j,
    {
        proof {
            assert(accounts@.take(j as int).drop_last() =~= accounts@.take(j - 1));
            assert(accounts@.take(j as int).last() == accounts@[j - 1]);
        }
        if seq_eq(&chars_of(accounts[j - 1].account_id.as_str()), &k) {
            return Some(crate::text::copy_string(&accounts[j - 1].email));
        }
        j = j - 1;
    }
    None
}

fn account_health_entry(
    state: &GatewayRoutingState,
    id: &String,
    stats_accounts: &Vec<crate::stats::CodexLocalAccessAccountStats>,
    images_disabled: bool,
    now: i64,
) -> (r: CodexLocalAccessAccountHealth)
    ensures
        reported_health(
            r,
            id@,
            healths_view(state.account_health@),
            cooldowns_view(state.model_cooldowns@),
            stats_accounts@,
            images_disabled,
            now,
        ),
{
    let found = find_health(&state.account_health, id.as_str());
    let cooldowns = cooldowns_of_account(&state.model_cooldowns, id.as_str(), now);
    let email = match found {
        Some(i) if trim_vec(&chars_of(state.account_health[i].1.email.as_str())).len() > 0 => crate::text::copy_string(
            &state.account_health[i].1.email,
        ),
        _ => match stats_email_exec(stats_accounts, id.as_str()) {
            Some(e) => e,
            None => String::new(),
        },
    };
    let no_pauses = cooldowns.len() == 0;
    match found {
        Some(i) => {
            let h = &state.account_health[i].1;
            CodexLocalAccessAccountHealth {
                account_id: crate::text::copy_string(id),
                email,
                available: no_pauses && h.consecutive_failures < 3,
                consecutive_failures: h.consecutive_failures,
                last_success_at: h.last_success_at,
                last_failure_at: h.last_failure_at,
                last_failure_status: h.last_failure_status,
                last_failure_category: crate::text::copy_opt_string(&h.last_failure_category),
                last_failure_message: crate::text::copy_opt_string(&h.last_failure_message),
                image_generation_status: if images_disabled {
                    CodexLocalAccessImageGenerationStatus::Disabled
                } else {
                    h.image_generation_status
                },
                image_generation_checked_at: h.image_generation_checked_at,
                cooldowns,
            }
        },
        None => CodexLocalAccessAccountHealth {
            account_id: crate::text::copy_string(id),
            email,
            available: no_pauses,
            consecutive_failures: 0,
            last_success_at: None,
            last_failure_at: None,
            last_failure_status: None,
            last_failure_category: None,
            last_failure_message: None,
            image_generation_status: if images_disabled {
                CodexLocalAccessImageGenerationStatus::Disabled
            } else {
                CodexLocalAccessImageGenerationStatus::Unknown
            },
            image_generation_checked_at: None,
            cooldowns,
        },
    }
}

/// How each account of the collection stands at `now`, in the collection's
/// order; nothing without a collection.
pub fn build_account_health_snapshot(
    state: &GatewayRoutingState,
    collection: Option<&CodexLocalAccessCollection>,
    stats_accounts: &Vec<crate::stats::CodexLocalAccessAccountStats>,
    now: i64,
) -> (r: Vec<CodexLocalAccessAccountHealth>)
    ensures
        match collection {
            None => r@.len() == 0,
            Some(c) => r@.len() == c.account_ids@.len() && forall|i: int|
                0 <= i < r@.len() ==> reported_health(
                    #[trigger] r@[i],
                    c.account_ids@[i]@,
                    healths_view(state.account_health@),
                    cooldowns_view(state.model_cooldowns@),
                    stats_accounts@,
                    c.image_generation_mode == crate::collection::CodexLocalAccessImageGenerationMode::Disabled,
                    now,
                ),
        },
{
    let c = match collection {
        Some(c) => c,
        None => return Vec::new(),
    };
    let images_disabled = match c.image_generation_mode {
        crate::collection::CodexLocalAccessImageGenerationMode::Disabled => true,
        _ => false,
    };
    let mut out: Vec<CodexLocalAccessAccountHealth> = Vec::new();
    let mut i: usize = 0;
    while i < c.account_ids.len()
        invariant
            i <= c.account_ids@.len(),
            out@.len() == i,
            images_disabled == (c.image_generation_mode == crate::collection::CodexLocalAccessImageGenerationMode::Disabled),
            forall|k: int|
                0 <= k < i ==> reported_health(
                    #[trigger] out@[k],
                    c.account_ids@[k]@,
                    healths_view(state.account_health@),
                    cooldowns_view(state.model_cooldowns@),
                    stats_accounts@,
                    images_disabled,
                    now,
                ),
        decreases c.account_ids@.len() - i,
    {
        let entry = account_health_entry(state, &c.account_ids[i], stats_accounts, images_disabled, now);
        out.push(entry);
        i = i + 1;
    }
    out
}


// ---------------------------------------------------------------------------
// Laws of pruning
// ---------------------------------------------------------------------------

/// All bindings are still remembered at `now`.
pub open spec fn all_fresh(s: Seq<(Seq<char>, BindingView)>, session: i64, now: i64) -> bool {
    forall|i: int| 0 <= i < s.len() ==> binding_fresh(#[trigger] s[i], session, now)
}

pub proof fn lemma_fresh_bindings(s: Seq<(Seq<char>, BindingView)>, session: i64, now: i64)
    ensures
        all_fresh(fresh_bindings(s, session, now), session, now),
        fresh_bindings(s, session, now).len() <= s.len(),
        all_fresh(s, session, now) ==> fresh_bindings(s, session, now) == s,
    decreases s.len(),
{
    if s.len() > 0 {
        lemma_fresh_bindings(s.drop_last(), session, now);
        if all_fresh(s, session, now) {
            assert(all_fresh(s.drop_last(), session, now)) by {
                assert forall|i: int| 0 <= i < s.drop_last().len() implies binding_fresh(
                    #[trigger] s.drop_last()[i],
                    session,
                    now,
                ) by {
                    assert(s.drop_last()[i] == s[i]);
                }
            }
            assert(binding_fresh(s[s.len() - 1], session, now));
            assert(s.drop_last().push(s.last()) =~= s);
        }
    }
}

pub proof fn lemma_evict_oldest(s: Seq<(Seq<char>, BindingView)>, k: nat, session: i64, now: i64)
    requires
        k <= s.len(),
    ensures
        evict_oldest(s, k).len() == s.len() - k,
        all_fresh(s, session, now) ==> all_fresh(evict_oldest(s, k), session, now),
    decreases k,
{
    if k > 0 && s.len() > 0 {
        lemma_oldest_index(s);
        let t = s.remove(oldest_index(s));
        if all_fresh(s, session, now) {
            assert forall|i: int| 0 <= i < t.len() implies binding_fresh(#[trigger] t[i], session, now) by {
                if i < oldest_index(s) {
                    assert(t[i] == s[i]);
                } else {
                    assert(t[i] == s[i + 1]);
                }
            }
        }
        lemma_evict_oldest(t, (k - 1) as nat, session, now);
    }
}

/// After pruning, every binding left is still within its time, and no more
/// than the limit are left.
pub proof fn lemma_pruned_bindings_bounded(s: Seq<(Seq<char>, BindingView)>, session: i64, now: i64)
    ensures
        all_fresh(pruned_bindings(s, session, now), session, now),
        pruned_bindings(s, session, now).len() <= MAX_RESPONSE_AFFINITY_BINDINGS,
{
    let f = fresh_bindings(s, session, now);
    lemma_fresh_bindings(s, session, now);
    if f.len() > MAX_RESPONSE_AFFINITY_BINDINGS {
        lemma_evict_oldest(f, (f.len() - MAX_RESPONSE_AFFINITY_BINDINGS) as nat, session, now);
    }
}

/// Pruning twice at the same time is pruning once.
pub proof fn lemma_prune_idempotent(s: Seq<(Seq<char>, BindingView)>, session: i64, now: i64)
    ensures
        pruned_bindings(pruned_bindings(s, session, now), session, now) == pruned_bindings(s, session, now),
{
    let p = pruned_bindings(s, session, now);
    lemma_pruned_bindings_bounded(s, session, now);
    lemma_fresh_bindings(p, session, now);
}

/// The cooldowns left at `now` have not ended, and pruning them again at the
/// same time changes nothing.
pub proof fn lemma_live_cooldowns(s: Seq<(Seq<char>, CooldownView)>, now: i64)
    ensures
        forall|i: int| 0 <= i < live_cooldowns(s, now).len() ==> (#[trigger] live_cooldowns(s, now)[i]).1.1 > now,
        live_cooldowns(live_cooldowns(s, now), now) == live_cooldowns(s, now),
    decreases s.len(),
{
    if s.len() > 0 {
        lemma_live_cooldowns(s.drop_last(), now);
        let b = live_cooldowns(s.drop_last(), now);
        if s.last().1.1 > now {
            let c = b.push(s.last());
            assert(c.drop_last() =~= b);
            assert forall|i: int| 0 <= i < c.len() implies (#[trigger] c[i]).1.1 > now by {
                if i < b.len() {
                    assert(c[i] == b[i]);
                }
            }
        }
    }
}


// ---------------------------------------------------------------------------
// Laws of cooldowns
// ---------------------------------------------------------------------------

pub proof fn lemma_key_get_unique<W>(s: Seq<(Seq<char>, W)>, i: int)
    requires
        keys_unique(s),
        0 <= i < s.len(),
    ensures
        key_get(s, s[i].0) == Some(s[i].1),
{
    lemma_key_index(s, s[i].0);
    match key_index(s, s[i].0) {
        Some(j) => {
            if j < i {
                assert(s[j].0 == s[i].0);
            }
        },
        None => {
            assert(s[i].0 == s[i].0);
        },
    }
}

/// Setting a key keeps keys unique, and the key then holds the value.
pub proof fn lemma_key_put<W>(s: Seq<(Seq<char>, W)>, key: Seq<char>, w: W)
    requires
        keys_unique(s),
    ensures
        keys_unique(key_put(s, key, w)),
        key_get(key_put(s, key, w), key) == Some(w),
{
    lemma_key_index(s, key);
    let t = key_put(s, key, w);
    match key_index(s, key) {
        Some(i) => {
            assert forall|a: int, b: int| 0 <= a < b < t.len() implies (#[trigger] t[a]).0 != (#[trigger] t[b]).0 by {
                assert(t[a].0 == s[a].0 && t[b].0 == s[b].0);
            }
            lemma_key_get_unique(t, i);
        },
        None => {
            assert forall|a: int, b: int| 0 <= a < b < t.len() implies (#[trigger] t[a]).0 != (#[trigger] t[b]).0 by {
                if b == s.len() {
                    assert(s[a].0 != key);
                } else {
                    assert(t[a] == s[a] && t[b] == s[b]);
                }
            }
            lemma_key_get_unique(t, s.len() as int);
        },
    }
}

/// The cooldowns left are some of those before, keys stay unique, and one
/// that has not ended is left.
pub proof fn lemma_live_cooldowns_keep(s: Seq<(Seq<char>, CooldownView)>, now: i64)
    ensures
        forall|j: int| 0 <= j < live_cooldowns(s, now).len() ==> s.contains(#[trigger] live_cooldowns(s, now)[j]),
        keys_unique(s) ==> keys_unique(live_cooldowns(s, now)),
        forall|i: int| 0 <= i < s.len() && (#[trigger] s[i]).1.1 > now ==> live_cooldowns(s, now).contains(s[i]),
    decreases s.len(),
{
    if s.len() > 0 {
        let d = s.drop_last();
        lemma_live_cooldowns_keep(d, now);
        let b = live_cooldowns(d, now);
        let r = live_cooldowns(s, now);
        assert forall|j: int| 0 <= j < r.len() implies s.contains(#[trigger] r[j]) by {
            if j < b.len() {
                assert(r[j] == b[j]);
                let k = choose|k: int| 0 <= k < d.len() && d[k] == b[j];
                assert(s[k] == d[k]);
            } else {
                assert(r[j] == s[s.len() - 1]);
            }
        }
        if keys_unique(s) {
            assert(keys_unique(d)) by {
                assert forall|a: int, c: int| 0 <= a < c < d.len() implies (#[trigger] d[a]).0 != (#[trigger] d[c]).0 by {
                    assert(d[a] == s[a] && d[c] == s[c]);
                }
            }
            assert forall|a: int, c: int| 0 <= a < c < r.len() implies (#[trigger] r[a]).0 != (#[trigger] r[c]).0 by {
                if c < b.len() {
                    assert(r[a] == b[a] && r[c] == b[c]);
                } else {
                    assert(r[a] == b[a]);
                    let k = choose|k: int| 0 <= k < d.len() && d[k] == b[a];
                    assert(s[k] == d[k]);
                    assert(r[c] == s[s.len() - 1]);
                }
            }
        }
        assert forall|i: int| 0 <= i < s.len() && (#[trigger] s[i]).1.1 > now implies r.contains(s[i]) by {
            if i < d.len() {
                assert(d[i] == s[i]);
                assert(b.contains(d[i]));
                let k = choose|k: int| 0 <= k < b.len() && b[k] == d[i];
                assert(r[k] == b[k]);
            } else {
                assert(r[r.len() - 1] == s[i]);
            }
        }
    }
}

/// A pause once set is reported until it ends: when the keys of the
/// cooldowns are unique, after a pair is paused, asking at any time before
/// the pause ends finds that pause.
pub proof fn lemma_cooldown_reported_until_it_ends(
    s: Seq<(Seq<char>, CooldownView)>,
    key: Seq<char>,
    c: CooldownView,
    later: i64,
)
    requires
        keys_unique(s),
        c.1 > later,
    ensures
        key_get(live_cooldowns(key_put(s, key, c), later), key) == Some(c),
{
    let t = key_put(s, key, c);
    lemma_key_put(s, key, c);
    lemma_key_index(t, key);
    let i = key_index(t, key)->0;
    lemma_live_cooldowns_keep(t, later);
    let l = live_cooldowns(t, later);
    assert(t[i] == (key, c));
    assert(l.contains(t[i]));
    let j = choose|j: int| 0 <= j < l.len() && l[j] == t[i];
    lemma_key_get_unique(l, j);
}

} // verus!
