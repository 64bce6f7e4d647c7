//! Account ordering for the local API gateway: round robin with affinity,
//! plan/quota/expiry strategies and weighted custom priorities.
use vstd::prelude::*;
use vstd::arithmetic::div_mod::{
    lemma_add_mod_noop, lemma_small_mod, lemma_mod_sub_multiples_vanish, lemma_fundamental_div_mod,
    lemma_mod_multiples_vanish, lemma_mod_pos_bound,
};
use crate::text::{
    texts, opt_text, opt_string_text, trim, lower, contains, chars_of, string_of, trim_vec,
    lower_vec, contains_str, contains_string, copy_string, copy_strings, seq_eq, all_digits,
    decimal_value,
    all_digits_exec, parse_decimal,
};
use crate::account::{CodexAccount, CodexQuota};
use crate::clock::{rfc3339_millis, parse_rfc3339_millis};

verus! {

// ---------------------------------------------------------------------------
// Round robin order with an affinity account in front
// ---------------------------------------------------------------------------

/// `ids` read from position `start` onwards, wrapping around.
pub open spec fn rotation(ids: Seq<Seq<char>>, start: int) -> Seq<Seq<char>> {
    Seq::new(ids.len(), |k: int| ids[(start + k) % (ids.len() as int)])
}

/// `acc` extended by the elements of `xs` that it does not hold yet, in order.
pub open spec fn push_new(acc: Seq<Seq<char>>, xs: Seq<Seq<char>>) -> Seq<Seq<char>>
    decreases xs.len(),
{
    if xs.len() == 0 {
        acc
    } else {
        let p = push_new(acc, xs.drop_last());
        if p.contains(xs.last()) {
            p
        } else {
            p.push(xs.last())
        }
    }
}

/// No element occurs twice.
pub open spec fn no_dup(s: Seq<Seq<char>>) -> bool {
    forall|i: int, j: int| 0 <= i < j < s.len() ==> s[i] != s[j]
}

/// The order in which accounts are tried: the preferred account first when it
/// is one of `ids`, then `ids` round robin from `start`, each account once.
pub open spec fn ordered_account_ids(ids: Seq<Seq<char>>, start: int, preferred: Option<Seq<char>>) -> Seq<Seq<char>> {
    if ids.len() == 0 {
        Seq::empty()
    } else {
        let init = match preferred {
            Some(p) => if ids.contains(p) { seq![p] } else { Seq::empty() },
            None => Seq::empty(),
        };
        push_new(init, rotation(ids, start))
    }
}

pub proof fn lemma_push_new_props(acc: Seq<Seq<char>>, xs: Seq<Seq<char>>)
    requires
        no_dup(acc),
    ensures
        no_dup(push_new(acc, xs)),
        forall|x: Seq<char>| #[trigger] push_new(acc, xs).contains(x) <==> (acc.contains(x) || xs.contains(x)),
        push_new(acc, xs).take(acc.len() as int) == acc,
        acc.len() <= push_new(acc, xs).len(),
    decreases xs.len(),
{
    if xs.len() > 0 {
        let ys = xs.drop_last();
        lemma_push_new_props(acc, ys);
        let p = push_new(acc, ys);
        assert forall|x: Seq<char>| #[trigger] push_new(acc, xs).contains(x) <==> (acc.contains(x) || xs.contains(x)) by {
            if xs.contains(x) && !ys.contains(x) {
                assert(x == xs.last()) by {
                    let k = choose|k: int| 0 <= k < xs.len() && xs[k] == x;
                    if k < xs.len() - 1 {
                        assert(ys[k] == x);
                    }
                }
            }
            if ys.contains(x) {
                let k = choose|k: int| 0 <= k < ys.len() && ys[k] == x;
                assert(xs[k] == x);
            }
            if !p.contains(xs.last()) {
                if p.push(xs.last()).contains(x) && x != xs.last() {
                    let k = choose|k: int| 0 <= k < p.len() + 1 && p.push(xs.last())[k] == x;
                    assert(p[k] == x);
                }
                if p.contains(x) {
                    let k = choose|k: int| 0 <= k < p.len() && p[k] == x;
                    assert(p.push(xs.last())[k] == x);
                }
                assert(p.push(xs.last())[p.len() as int] == xs.last());
            }
        }
        if !p.contains(xs.last()) {
            assert(p.push(xs.last()).take(acc.len() as int) =~= p.take(acc.len() as int));
        }
    } else {
        assert(acc.take(acc.len() as int) =~= acc);
    }
}

pub proof fn lemma_rotation_index(start: int, n: int, base: int, offset: int, idx: int)
    requires
        n > 0,
        start >= 0,
        base == start % n,
        0 <= offset < n,
        idx == if base + offset < n { base + offset } else { base + offset - n },
    ensures
        idx == (start + offset) % n,
{
    lemma_mod_pos_bound(start, n);
    lemma_add_mod_noop(start, offset, n);
    lemma_small_mod(offset as nat, n as nat);
    if base + offset < n {
        lemma_small_mod((base + offset) as nat, n as nat);
    } else {
        lemma_mod_sub_multiples_vanish(base + offset, n);
        lemma_small_mod((base + offset - n) as nat, n as nat);
    }
}

pub proof fn lemma_rotation_hits(start: int, n: int, k: int) -> (m: int)
    requires
        n > 0,
        start >= 0,
        0 <= k < n,
    ensures
        0 <= m < n,
        (start + m) % n == k,
{
    let b = start % n;
    let q = start / n;
    lemma_fundamental_div_mod(start, n);
    lemma_mod_pos_bound(start, n);
    let m = if k >= b { k - b } else { k - b + n };
    if k >= b {
        assert(start + m == n * q + k);
        lemma_mod_multiples_vanish(q, k, n);
    } else {
        assert(start + m == n * (q + 1) + k) by (nonlinear_arith)
            requires start == n * q + b, m == k - b + n;
        lemma_mod_multiples_vanish(q + 1, k, n);
    }
    lemma_small_mod(k as nat, n as nat);
    m
}

/// The account order always holds each account of `ids` exactly once, and
/// nothing else.
pub proof fn lemma_ordered_account_ids_is_permutation_of_set(
    ids: Seq<Seq<char>>,
    start: int,
    preferred: Option<Seq<char>>,
)
    requires
        ids.len() > 0,
        start >= 0,
    ensures
        no_dup(ordered_account_ids(ids, start, preferred)),
        forall|x: Seq<char>| #[trigger] ordered_account_ids(ids, start, preferred).contains(x) <==> ids.contains(x),
{
    let n = ids.len() as int;
    let init = match preferred {
        Some(p) => if ids.contains(p) { seq![p] } else { Seq::<Seq<char>>::empty() },
        None => Seq::<Seq<char>>::empty(),
    };
    let rot = rotation(ids, start);
    lemma_push_new_props(init, rot);
    assert forall|x: Seq<char>| rot.contains(x) <==> ids.contains(x) by {
        if ids.contains(x) {
            let k = choose|k: int| 0 <= k < n && ids[k] == x;
            let m = lemma_rotation_hits(start, n, k);
            assert(rot[m] == x);
        }
        if rot.contains(x) {
            let m = choose|m: int| 0 <= m < n && rot[m] == x;
            lemma_mod_pos_bound(start + m, n);
        }
    }
    assert forall|x: Seq<char>| init.contains(x) implies ids.contains(x) by {
        assert(init[0] == x);
    }
}

/// The account order for one request: the preferred (affinity) account first
/// when it is configured, then the accounts round robin from `start`.
pub fn build_ordered_account_ids(
    account_ids: &Vec<String>,
    start: usize,
    preferred_account_id: Option<&str>,
) -> (r: Vec<String>)
    ensures
        texts(r@) == ordered_account_ids(texts(account_ids@), start as int, opt_text(preferred_account_id)),
{
    let ghost ids = texts(account_ids@);
    if account_ids.len() == 0 {
        return Vec::new();
    }
    let n = account_ids.len();
    let mut ordered: Vec<String> = Vec::new();
    let ghost init: Seq<Seq<char>> = Seq::empty();
    if let Some(preferred) = preferred_account_id {
        let p = chars_of(preferred);
        if contains_string(account_ids, &p) {
            ordered.push(string_of(&p));
            proof {
                init = seq![preferred@];
                assert(texts(ordered@) =~= init);
            }
        }
    }
    proof {
        assert(texts(ordered@) =~= init);
        assert(init == match opt_text(preferred_account_id) {
            Some(p) => if ids.contains(p) { seq![p] } else { Seq::<Seq<char>>::empty() },
            None => Seq::<Seq<char>>::empty(),
        });
    }
    let ghost rot = rotation(ids, start as int);
    let base = start % n;
    let mut offset: usize = 0;
    while offset < n
        invariant
            n == account_ids.len() > 0,
            base == start % n,
            offset <= n,
            ids == texts(account_ids@),
            rot == rotation(ids, start as int),
            texts(ordered@) == push_new(init, rot.take(offset as int)),
        decreases n - offset,
    {
        let idx = if offset < n - base { base + offset } else { offset - (n - base) };
        proof {
            lemma_mod_pos_bound(start as int, n as int);
            lemma_rotation_index(start as int, n as int, base as int, offset as int, idx as int);
            assert(rot.take(offset as int + 1).drop_last() =~= rot.take(offset as int));
            assert(rot.take(offset as int + 1).last() == ids[idx as int]);
        }
        let candidate = chars_of(account_ids[idx].as_str());
        if !contains_string(&ordered, &candidate) {
            ordered.push(string_of(&candidate));
            proof {
                assert(texts(ordered@) =~= texts(ordered@.drop_last()).push(candidate@));
            }
        }
        offset = offset + 1;
    }
    proof {
        assert(rot.take(n as int) =~= rot);
    }
    ordered
}

/// `xs` without the elements equal to `p`.
pub open spec fn remove_all(xs: Seq<Seq<char>>, p: Seq<char>) -> Seq<Seq<char>>
    decreases xs.len(),
{
    if xs.len() == 0 {
        xs
    } else {
        let rest = remove_all(xs.drop_last(), p);
        if xs.last() == p {
            rest
        } else {
            rest.push(xs.last())
        }
    }
}

/// `ids` with the (trimmed) preferred account moved to the front.
pub open spec fn pinned_to_front(ids: Seq<Seq<char>>, preferred: Option<Seq<char>>) -> Seq<Seq<char>> {
    match preferred {
        None => ids,
        Some(raw) => {
            let p = trim(raw);
            if p.len() == 0 {
                ids
            } else if ids.contains(p) {
                seq![p] + remove_all(ids, p)
            } else {
                remove_all(ids, p)
            }
        }
    }
}

/// Moves the preferred account, when it is one of the accounts, to the front.
pub fn pin_account_to_front(account_ids: Vec<String>, preferred_account_id: Option<&str>) -> (r: Vec<String>)
    ensures
        texts(r@) == pinned_to_front(texts(account_ids@), opt_text(preferred_account_id)),
{
    let preferred = match preferred_account_id {
        None => return account_ids,
        Some(p) => p,
    };
    let p = trim_vec(&chars_of(preferred));
    if p.len() == 0 {
        return account_ids;
    }
    let ghost ids = texts(account_ids@);
    let mut ordered: Vec<String> = Vec::new();
    let present = contains_string(&account_ids, &p);
    if present {
        ordered.push(string_of(&p));
    }
    let ghost head: Seq<Seq<char>> = if present { seq![p@] } else { Seq::empty() };
    proof {
        assert(texts(ordered@) =~= head);
    }
    let mut i: usize = 0;
    while i < account_ids.len()
        invariant
            i <= account_ids.len(),
            ids == texts(account_ids@),
            texts(ordered@) == head + remove_all(ids.take(i as int), p@),
        decreases account_ids.len() - i,
    {
        proof {
            assert(ids.take(i as int + 1).drop_last() =~= ids.take(i as int));
        }
        let item = chars_of(account_ids[i].as_str());
        if !seq_eq(&item, &p) {
            ordered.push(copy_string(&account_ids[i]));
            proof {
                assert(texts(ordered@) =~= texts(ordered@.drop_last()).push(item@));
                assert(head + remove_all(ids.take(i as int), p@).push(item@) =~= (head + remove_all(ids.take(i as int), p@)).push(item@));
            }
        }
        i = i + 1;
    }
    proof {
        assert(ids.take(account_ids.len() as int) =~= ids);
    }
    ordered
}

// ---------------------------------------------------------------------------
// Plans
// ---------------------------------------------------------------------------

/// The plan family a raw plan type names.
pub open spec fn plan_key(plan_type: Option<Seq<char>>) -> Seq<char> {
    let n = match plan_type {
        Some(s) => lower(trim(s)),
        None => Seq::empty(),
    };
    if n.len() == 0 {
        "free"@
    } else if contains(n, "enterprise"@) {
        "enterprise"@
    } else if contains(n, "health"@) {
        "health"@
    } else if contains(n, "gov"@) {
        "gov"@
    } else if contains(n, "teacher"@) {
        "teachers"@
    } else if contains(n, "business"@) {
        "business"@
    } else if contains(n, "team"@) {
        "team"@
    } else if contains(n, "edu"@) {
        "edu"@
    } else if contains(n, "go"@) {
        "go"@
    } else if contains(n, "plus"@) {
        "plus"@
    } else if contains(n, "pro"@) {
        "pro"@
    } else if contains(n, "free"@) {
        "free"@
    } else {
        n
    }
}

/// Normalizes a raw plan type to its plan family.
pub fn normalize_plan_key(plan_type: Option<&str>) -> (r: String)
    ensures
        r@ == plan_key(opt_text(plan_type)),
{
    let n = match plan_type {
        Some(s) => lower_vec(&trim_vec(&chars_of(s))),
        None => Vec::new(),
    };
    proof {
        assert(n@ == match opt_text(plan_type) {
            Some(s) => lower(trim(s)),
            None => Seq::<char>::empty(),
        });
    }
    if n.len() == 0 {
        "free".to_string()
    } else if contains_str(&n, "enterprise") {
        "enterprise".to_string()
    } else if contains_str(&n, "health") {
        "health".to_string()
    } else if contains_str(&n, "gov") {
        "gov".to_string()
    } else if contains_str(&n, "teacher") {
        "teachers".to_string()
    } else if contains_str(&n, "business") {
        "business".to_string()
    } else if contains_str(&n, "team") {
        "team".to_string()
    } else if contains_str(&n, "edu") {
        "edu".to_string()
    } else if contains_str(&n, "go") {
        "go".to_string()
    } else if contains_str(&n, "plus") {
        "plus".to_string()
    } else if contains_str(&n, "pro") {
        "pro".to_string()
    } else if contains_str(&n, "free") {
        "free".to_string()
    } else {
        string_of(&n)
    }
}

} // verus!

verus! {

/// `_` and spaces replaced by `-`.
pub open spec fn dashify(s: Seq<char>) -> Seq<char> {
    s.map_values(|c: char| if c == '_' || c == ' ' { '-' } else { c })
}

/// The Pro tier that an auth file names, if any.
pub open spec fn auth_file_plan(plan_type: Option<Seq<char>>) -> Option<Seq<char>> {
    match plan_type {
        None => None,
        Some(s) => {
            let n = dashify(lower(trim(s)));
            if n == "prolite"@ || n == "pro-lite"@ {
                Some("prolite"@)
            } else if n == "promax"@ || n == "pro-max"@ {
                Some("promax"@)
            } else {
                None
            }
        },
    }
}

fn dashify_vec(v: &Vec<char>) -> (r: Vec<char>)
    ensures
        r@ == dashify(v@),
{
    let mut r: Vec<char> = Vec::new();
    let mut i: usize = 0;
    while i < v.len()
        invariant
            i <= v.len(),
            r@ == dashify(v@.take(i as int)),
        decreases v.len() - i,
    {
        let c = v[i];
        r.push(if c == '_' || c == ' ' { '-' } else { c });
        proof {
            assert(dashify(v@.take(i as int + 1)) =~= dashify(v@.take(i as int)).push(
                if c == '_' || c == ' ' { '-' } else { c },
            ));
        }
        i = i + 1;
    }
    proof {
        assert(v@.take(v.len() as int) =~= v@);
    }
    r
}

/// Reads the Pro tier (`prolite` or `promax`) out of a raw plan type.
pub fn normalize_auth_file_plan_type(plan_type: Option<&str>) -> (r: Option<&'static str>)
    ensures
        opt_text(r) == auth_file_plan(opt_text(plan_type)),
{
    let s = match plan_type {
        None => return None,
        Some(s) => s,
    };
    let n = dashify_vec(&lower_vec(&trim_vec(&chars_of(s))));
    if seq_eq(&n, &chars_of("prolite")) || seq_eq(&n, &chars_of("pro-lite")) {
        Some("prolite")
    } else if seq_eq(&n, &chars_of("promax")) || seq_eq(&n, &chars_of("pro-max")) {
        Some("promax")
    } else {
        None
    }
}

/// The rank of a plan in the current rate card; `None` for unknown plans.
pub open spec fn plan_rank(plan_type: Option<Seq<char>>, auth_file_plan_type: Option<Seq<char>>) -> Option<i32> {
    let key = plan_key(plan_type);
    let tier = match auth_file_plan(auth_file_plan_type) {
        Some(t) => Some(t),
        None => auth_file_plan(plan_type),
    };
    if key == "enterprise"@ || key == "edu"@ || key == "health"@ || key == "gov"@ || key
        == "teachers"@ {
        Some(700)
    } else if key == "pro"@ {
        if tier == Some("promax"@) {
            Some(600)
        } else {
            Some(500)
        }
    } else if key == "business"@ || key == "team"@ || key == "plus"@ {
        Some(300)
    } else if key == "go"@ {
        Some(200)
    } else if key == "free"@ {
        Some(100)
    } else {
        None
    }
}

/// The rate-card rank of an account's plan.
pub fn resolve_plan_rank(account: &CodexAccount) -> (r: Option<i32>)
    ensures
        r == plan_rank(opt_string_text(account.plan_type), opt_string_text(account.auth_file_plan_type)),
{
    let plan = match &account.plan_type {
        Some(s) => Some(s.as_str()),
        None => None,
    };
    let auth_file = match &account.auth_file_plan_type {
        Some(s) => Some(s.as_str()),
        None => None,
    };
    let key = chars_of(normalize_plan_key(plan).as_str());
    let tier = match normalize_auth_file_plan_type(auth_file) {
        Some(t) => Some(t),
        None => normalize_auth_file_plan_type(plan),
    };
    proof {
        assert(opt_text(plan) == opt_string_text(account.plan_type));
        assert(opt_text(auth_file) == opt_string_text(account.auth_file_plan_type));
    }
    if seq_eq(&key, &chars_of("enterprise")) || seq_eq(&key, &chars_of("edu")) || seq_eq(
        &key,
        &chars_of("health"),
    ) || seq_eq(&key, &chars_of("gov")) || seq_eq(&key, &chars_of("teachers")) {
        Some(700)
    } else if seq_eq(&key, &chars_of("pro")) {
        let is_max = match tier {
            Some(t) => seq_eq(&chars_of(t), &chars_of("promax")),
            None => false,
        };
        if is_max {
            Some(600)
        } else {
            Some(500)
        }
    } else if seq_eq(&key, &chars_of("business")) || seq_eq(&key, &chars_of("team")) || seq_eq(
        &key,
        &chars_of("plus"),
    ) {
        Some(300)
    } else if seq_eq(&key, &chars_of("go")) {
        Some(200)
    } else if seq_eq(&key, &chars_of("free")) {
        Some(100)
    } else {
        None
    }
}

/// A percentage clamped to 0..=100.
pub open spec fn clamp_percent(x: i32) -> i32 {
    if x < 0 {
        0
    } else if x > 100 {
        100
    } else {
        x
    }
}

/// The lowest remaining percentage over the quota windows that are present.
pub open spec fn remaining_quota(quota: Option<CodexQuota>) -> Option<i32> {
    match quota {
        None => None,
        Some(q) => {
            let hourly = q.hourly_window_present != Some(false);
            let weekly = q.weekly_window_present != Some(false);
            let h = clamp_percent(q.hourly_percentage);
            let w = clamp_percent(q.weekly_percentage);
            if hourly && weekly {
                Some(if h <= w { h } else { w })
            } else if hourly {
                Some(h)
            } else if weekly {
                Some(w)
            } else {
                None
            }
        },
    }
}

fn clamp_percent_exec(x: i32) -> (r: i32)
    ensures
        r == clamp_percent(x),
{
    if x < 0 {
        0
    } else if x > 100 {
        100
    } else {
        x
    }
}

/// The lowest remaining quota percentage of an account, over its windows.
pub fn resolve_remaining_quota(account: &CodexAccount) -> (r: Option<i32>)
    ensures
        r == remaining_quota(account.quota),
{
    let q = match &account.quota {
        None => return None,
        Some(q) => q,
    };
    let hourly = match q.hourly_window_present {
        Some(b) => b,
        None => true,
    };
    let weekly = match q.weekly_window_present {
        Some(b) => b,
        None => true,
    };
    let h = clamp_percent_exec(q.hourly_percentage);
    let w = clamp_percent_exec(q.weekly_percentage);
    if hourly && weekly {
        Some(if h <= w { h } else { w })
    } else if hourly {
        Some(h)
    } else if weekly {
        Some(w)
    } else {
        None
    }
}

/// When the subscription ends, in milliseconds: a number (seconds below 10^12,
/// else milliseconds) or an RFC 3339 timestamp.
pub open spec fn subscription_expiry_ms(raw: Option<Seq<char>>) -> Option<i64> {
    match raw {
        None => None,
        Some(s) => {
            let t = trim(s);
            if t.len() == 0 {
                None
            } else if all_digits(t) {
                if decimal_value(t) > i64::MAX {
                    None
                } else if decimal_value(t) < 1_000_000_000_000 {
                    Some((decimal_value(t) * 1000) as i64)
                } else {
                    Some(decimal_value(t) as i64)
                }
            } else {
                rfc3339_millis(t)
            }
        },
    }
}

/// The subscription expiry of an account in milliseconds since the epoch.
pub fn resolve_subscription_expiry_ms(account: &CodexAccount) -> (r: Option<i64>)
    ensures
        r == subscription_expiry_ms(opt_string_text(account.subscription_active_until)),
{
    let raw = match &account.subscription_active_until {
        None => return None,
        Some(s) => s,
    };
    let t = trim_vec(&chars_of(raw.as_str()));
    if t.len() == 0 {
        return None;
    }
    if all_digits_exec(&t) {
        match parse_decimal(&t, 0x7fff_ffff_ffff_ffff) {
            None => None,
            Some(v) => {
                if v < 1_000_000_000_000 {
                    Some((v * 1000) as i64)
                } else {
                    Some(v as i64)
                }
            },
        }
    } else {
        let text = string_of(&t);
        parse_rfc3339_millis(text.as_str())
    }
}

} // verus!

verus! {

/// How the gateway orders the accounts of the pool.
#[derive(Debug, Clone, Copy, PartialEq, Eq, Structural)]
pub enum CodexLocalAccessRoutingStrategy {
    Auto,
    QuotaHighFirst,
    QuotaLowFirst,
    PlanHighFirst,
    PlanLowFirst,
    ExpirySoonFirst,
    Custom,
}

/// What the ordering strategies read of one account.
#[derive(Debug, Clone)]
pub struct RoutingCandidate {
    pub account_id: String,
    pub plan_rank: Option<i32>,
    pub remaining_quota: Option<i32>,
    pub subscription_expiry_ms: Option<i64>,
}

/// The account at a position, when one is known there.
pub open spec fn account_at(accounts: Seq<Option<CodexAccount>>, i: int) -> Option<CodexAccount> {
    if 0 <= i < accounts.len() {
        accounts[i]
    } else {
        None
    }
}

/// The candidate that describes an account id and what is known of the account.
pub open spec fn candidate_for(id: Seq<char>, account: Option<CodexAccount>) -> CandidateView {
    match account {
        None => (id, None, None, None),
        Some(a) => (
            id,
            plan_rank(opt_string_text(a.plan_type), opt_string_text(a.auth_file_plan_type)),
            remaining_quota(a.quota),
            subscription_expiry_ms(opt_string_text(a.subscription_active_until)),
        ),
    }
}

/// What an ordering reads of a candidate: account id, plan rank, remaining
/// quota and subscription expiry.
pub type CandidateView = (Seq<char>, Option<i32>, Option<i32>, Option<i64>);

/// The fields of a candidate.
pub open spec fn candidate_view(c: RoutingCandidate) -> CandidateView {
    (c.account_id@, c.plan_rank, c.remaining_quota, c.subscription_expiry_ms)
}

/// Builds the ordering candidates of `ordered_account_ids`, the account of
/// position `i` being `accounts[i]` (or unknown).
pub fn build_routing_candidates(
    ordered_account_ids: &Vec<String>,
    accounts: &Vec<Option<CodexAccount>>,
) -> (r: Vec<RoutingCandidate>)
    ensures
        r.len() == ordered_account_ids.len(),
        forall|i: int| 0 <= i < r.len() ==> candidate_view(#[trigger] r@[i]) == candidate_for(
            ordered_account_ids@[i]@,
            account_at(accounts@, i),
        ),
{
    let mut r: Vec<RoutingCandidate> = Vec::new();
    let mut i: usize = 0;
    while i < ordered_account_ids.len()
        invariant
            i <= ordered_account_ids.len(),
            r.len() == i,
            forall|k: int| 0 <= k < i ==> candidate_view(#[trigger] r@[k]) == candidate_for(
                ordered_account_ids@[k]@,
                account_at(accounts@, k),
            ),
        decreases ordered_account_ids.len() - i,
    {
        let id = copy_string(&ordered_account_ids[i]);
        let candidate = if i < accounts.len() {
            match &accounts[i] {
                Some(a) => RoutingCandidate {
                    account_id: id,
                    plan_rank: resolve_plan_rank(a),
                    remaining_quota: resolve_remaining_quota(a),
                    subscription_expiry_ms: resolve_subscription_expiry_ms(a),
                },
                None => RoutingCandidate {
                    account_id: id,
                    plan_rank: None,
                    remaining_quota: None,
                    subscription_expiry_ms: None,
                },
            }
        } else {
            RoutingCandidate {
                account_id: id,
                plan_rank: None,
                remaining_quota: None,
                subscription_expiry_ms: None,
            }
        };
        r.push(candidate);
        i = i + 1;
    }
    r
}

/// -1, 0 or 1 as `a` is below, equal to or above `b`.
pub open spec fn compare_int(a: int, b: int) -> int {
    if a < b {
        -1
    } else if a > b {
        1
    } else {
        0
    }
}

/// Known values first, larger first.
pub open spec fn compare_known_desc(a: Option<i32>, b: Option<i32>) -> int {
    match (a, b) {
        (Some(l), Some(r)) => compare_int(r as int, l as int),
        (Some(_), None) => -1,
        (None, Some(_)) => 1,
        (None, None) => 0,
    }
}

/// Known values first, smaller first.
pub open spec fn compare_known_asc(a: Option<i32>, b: Option<i32>) -> int {
    match (a, b) {
        (Some(l), Some(r)) => compare_int(l as int, r as int),
        (Some(_), None) => -1,
        (None, Some(_)) => 1,
        (None, None) => 0,
    }
}

/// Known timestamps first, earlier first.
pub open spec fn compare_known_asc64(a: Option<i64>, b: Option<i64>) -> int {
    match (a, b) {
        (Some(l), Some(r)) => compare_int(l as int, r as int),
        (Some(_), None) => -1,
        (None, Some(_)) => 1,
        (None, None) => 0,
    }
}

/// Lexicographic combination of two comparisons.
pub open spec fn then_order(a: int, b: int) -> int {
    if a != 0 {
        a
    } else {
        b
    }
}

/// The position of the last occurrence of `x` in `ids`, or `usize::MAX`.
pub open spec fn last_index(ids: Seq<Seq<char>>, x: Seq<char>) -> int
    decreases ids.len(),
{
    if ids.len() == 0 {
        usize::MAX as int
    } else if ids.last() == x {
        ids.len() - 1
    } else {
        last_index(ids.drop_last(), x)
    }
}

/// How a strategy orders two candidates, before the tie-break.
pub open spec fn strategy_order(l: CandidateView, r: CandidateView, strategy: CodexLocalAccessRoutingStrategy) -> int {
    match strategy {
        CodexLocalAccessRoutingStrategy::Auto => then_order(
            compare_known_desc(l.1, r.1),
            compare_known_desc(l.2, r.2),
        ),
        CodexLocalAccessRoutingStrategy::QuotaHighFirst => then_order(
            compare_known_desc(l.2, r.2),
            compare_known_desc(l.1, r.1),
        ),
        CodexLocalAccessRoutingStrategy::QuotaLowFirst => then_order(
            compare_known_asc(l.2, r.2),
            compare_known_desc(l.1, r.1),
        ),
        CodexLocalAccessRoutingStrategy::PlanHighFirst => then_order(
            compare_known_desc(l.1, r.1),
            compare_known_desc(l.2, r.2),
        ),
        CodexLocalAccessRoutingStrategy::PlanLowFirst => then_order(
            compare_known_asc(l.1, r.1),
            compare_known_desc(l.2, r.2),
        ),
        CodexLocalAccessRoutingStrategy::ExpirySoonFirst => then_order(
            then_order(
                compare_known_asc64(l.3, r.3),
                compare_known_desc(l.1, r.1),
            ),
            compare_known_desc(l.2, r.2),
        ),
        CodexLocalAccessRoutingStrategy::Custom => 0,
    }
}

/// The full candidate order: the strategy, then the original position.
pub open spec fn candidate_order(
    l: CandidateView,
    r: CandidateView,
    strategy: CodexLocalAccessRoutingStrategy,
    ids: Seq<Seq<char>>,
) -> int {
    then_order(strategy_order(l, r, strategy), compare_int(last_index(ids, l.0), last_index(ids, r.0)))
}

/// The number of an `Ordering`.
pub open spec fn ordering_value(o: std::cmp::Ordering) -> int {
    match o {
        std::cmp::Ordering::Less => -1,
        std::cmp::Ordering::Equal => 0,
        std::cmp::Ordering::Greater => 1,
    }
}

fn compare_i64(a: i64, b: i64) -> (r: i8)
    ensures
        r as int == compare_int(a as int, b as int),
{
    if a < b {
        -1
    } else if a > b {
        1
    } else {
        0
    }
}

fn compare_known_desc_exec(a: Option<i32>, b: Option<i32>) -> (r: i8)
    ensures
        r as int == compare_known_desc(a, b),
{
    match (a, b) {
        (Some(l), Some(r)) => compare_i64(r as i64, l as i64),
        (Some(_), None) => -1,
        (None, Some(_)) => 1,
        (None, None) => 0,
    }
}

fn compare_known_asc_exec(a: Option<i32>, b: Option<i32>) -> (r: i8)
    ensures
        r as int == compare_known_asc(a, b),
{
    match (a, b) {
        (Some(l), Some(r)) => compare_i64(l as i64, r as i64),
        (Some(_), None) => -1,
        (None, Some(_)) => 1,
        (None, None) => 0,
    }
}

fn compare_known_asc64_exec(a: Option<i64>, b: Option<i64>) -> (r: i8)
    ensures
        r as int == compare_known_asc64(a, b),
{
    match (a, b) {
        (Some(l), Some(r)) => compare_i64(l, r),
        (Some(_), None) => -1,
        (None, Some(_)) => 1,
        (None, None) => 0,
    }
}

/// The position of the last account in `ids` with the text `x`, or `usize::MAX`.
pub fn last_index_exec(ids: &Vec<String>, x: &Vec<char>) -> (r: usize)
    ensures
        r as int == last_index(texts(ids@), x@),
{
    let ghost t = texts(ids@);
    let mut i = ids.len();
    proof {
        assert(t.take(i as int) =~= t);
    }
    while i > 0
        invariant
            i <= ids.len(),
            t == texts(ids@),
            last_index(t, x@) == last_index(t.take(i as int), x@),
        decreases i,
    {
        proof {
            assert(t.take(i as int).drop_last() =~= t.take(i as int - 1));
            assert(t.take(i as int).last() == ids@[i - 1]@);
        }
        if seq_eq(&chars_of(ids[i - 1].as_str()), x) {
            return i - 1;
        }
        i = i - 1;
    }
    proof {
        assert(t.take(0) =~= Seq::<Seq<char>>::empty());
    }
    usize::MAX
}

fn strategy_order_exec(
    l: &RoutingCandidate,
    r: &RoutingCandidate,
    strategy: CodexLocalAccessRoutingStrategy,
) -> (c: i8)
    ensures
        c as int == strategy_order(candidate_view(*l), candidate_view(*r), strategy),
{
    match strategy {
        CodexLocalAccessRoutingStrategy::Auto => {
            let a = compare_known_desc_exec(l.plan_rank, r.plan_rank);
            if a != 0 { a } else { compare_known_desc_exec(l.remaining_quota, r.remaining_quota) }
        },
        CodexLocalAccessRoutingStrategy::QuotaHighFirst => {
            let a = compare_known_desc_exec(l.remaining_quota, r.remaining_quota);
            if a != 0 { a } else { compare_known_desc_exec(l.plan_rank, r.plan_rank) }
        },
        CodexLocalAccessRoutingStrategy::QuotaLowFirst => {
            let a = compare_known_asc_exec(l.remaining_quota, r.remaining_quota);
            if a != 0 { a } else { compare_known_desc_exec(l.plan_rank, r.plan_rank) }
        },
        CodexLocalAccessRoutingStrategy::PlanHighFirst => {
            let a = compare_known_desc_exec(l.plan_rank, r.plan_rank);
            if a != 0 { a } else { compare_known_desc_exec(l.remaining_quota, r.remaining_quota) }
        },
        CodexLocalAccessRoutingStrategy::PlanLowFirst => {
            let a = compare_known_asc_exec(l.plan_rank, r.plan_rank);
            if a != 0 { a } else { compare_known_desc_exec(l.remaining_quota, r.remaining_quota) }
        },
        CodexLocalAccessRoutingStrategy::ExpirySoonFirst => {
            let a = compare_known_asc64_exec(l.subscription_expiry_ms, r.subscription_expiry_ms);
            if a != 0 {
                a
            } else {
                let b = compare_known_desc_exec(l.plan_rank, r.plan_rank);
                if b != 0 { b } else { compare_known_desc_exec(l.remaining_quota, r.remaining_quota) }
            }
        },
        CodexLocalAccessRoutingStrategy::Custom => 0,
    }
}

fn candidate_order_exec(
    l: &RoutingCandidate,
    r: &RoutingCandidate,
    strategy: CodexLocalAccessRoutingStrategy,
    account_ids: &Vec<String>,
) -> (c: i8)
    ensures
        c as int == candidate_order(candidate_view(*l), candidate_view(*r), strategy, texts(account_ids@)),
{
    let a = strategy_order_exec(l, r, strategy);
    if a != 0 {
        return a;
    }
    let li = last_index_exec(account_ids, &chars_of(l.account_id.as_str()));
    let ri = last_index_exec(account_ids, &chars_of(r.account_id.as_str()));
    if li < ri {
        -1
    } else if li > ri {
        1
    } else {
        0
    }
}

/// Compares two candidates under a strategy, ties broken by their (last)
/// position in `account_ids`.
pub fn compare_routing_candidates(
    left: &RoutingCandidate,
    right: &RoutingCandidate,
    strategy: CodexLocalAccessRoutingStrategy,
    account_ids: &Vec<String>,
) -> (r: std::cmp::Ordering)
    ensures
        ordering_value(r) == candidate_order(candidate_view(*left), candidate_view(*right), strategy, texts(account_ids@)),
{
    let c = candidate_order_exec(left, right, strategy, account_ids);
    if c < 0 {
        std::cmp::Ordering::Less
    } else if c > 0 {
        std::cmp::Ordering::Greater
    } else {
        std::cmp::Ordering::Equal
    }
}

/// Stable insertion of `x` into `s`: after every element not above it.
pub open spec fn insert_candidate(
    x: CandidateView,
    s: Seq<CandidateView>,
    strategy: CodexLocalAccessRoutingStrategy,
    ids: Seq<Seq<char>>,
) -> Seq<CandidateView>
    decreases s.len(),
{
    if s.len() == 0 {
        seq![x]
    } else if candidate_order(s.last(), x, strategy, ids) > 0 {
        insert_candidate(x, s.drop_last(), strategy, ids).push(s.last())
    } else {
        s.push(x)
    }
}

/// The candidates in the stable order that the strategy defines.
pub open spec fn sort_candidates(
    s: Seq<CandidateView>,
    strategy: CodexLocalAccessRoutingStrategy,
    ids: Seq<Seq<char>>,
) -> Seq<CandidateView>
    decreases s.len(),
{
    if s.len() == 0 {
        s
    } else {
        insert_candidate(s.last(), sort_candidates(s.drop_last(), strategy, ids), strategy, ids)
    }
}

pub proof fn lemma_insert_candidate_at(
    x: CandidateView,
    s: Seq<CandidateView>,
    strategy: CodexLocalAccessRoutingStrategy,
    ids: Seq<Seq<char>>,
    p: int,
)
    requires
        0 <= p <= s.len(),
        forall|k: int| p <= k < s.len() ==> candidate_order(#[trigger] s[k], x, strategy, ids) > 0,
        p == 0 || candidate_order(s[p - 1], x, strategy, ids) <= 0,
    ensures
        insert_candidate(x, s, strategy, ids) == s.insert(p, x),
    decreases s.len(),
{
    if s.len() == 0 {
        assert(s.insert(0, x) =~= seq![x]);
    } else if p == s.len() {
        assert(s.insert(p, x) =~= s.push(x));
    } else {
        assert(candidate_order(s[s.len() - 1], x, strategy, ids) > 0);
        let t = s.drop_last();
        assert forall|k: int| p <= k < t.len() implies candidate_order(#[trigger] t[k], x, strategy, ids) > 0 by {
            assert(t[k] == s[k]);
        }
        if p > 0 {
            assert(t[p - 1] == s[p - 1]);
        }
        lemma_insert_candidate_at(x, t, strategy, ids, p);
        assert(t.insert(p, x).push(s.last()) =~= s.insert(p, x));
    }
}

/// The views of candidates.
pub open spec fn candidate_views(s: Seq<RoutingCandidate>) -> Seq<CandidateView> {
    s.map_values(|c: RoutingCandidate| candidate_view(c))
}

fn insert_candidate_exec(
    sorted: &mut Vec<RoutingCandidate>,
    x: RoutingCandidate,
    strategy: CodexLocalAccessRoutingStrategy,
    account_ids: &Vec<String>,
)
    ensures
        candidate_views(final(sorted)@) == insert_candidate(candidate_view(x), candidate_views(old(sorted)@), strategy, texts(account_ids@)),
{
    let ghost vs = candidate_views(sorted@);
    let mut p = sorted.len();
    while p > 0 && candidate_order_exec(&sorted[p - 1], &x, strategy, account_ids) > 0
        invariant
            p <= sorted.len(),
            vs == candidate_views(sorted@),
            forall|k: int| p <= k < sorted.len() ==> candidate_order(#[trigger] vs[k], candidate_view(x), strategy, texts(account_ids@)) > 0,
        decreases p,
    {
        p = p - 1;
    }
    proof {
        lemma_insert_candidate_at(candidate_view(x), vs, strategy, texts(account_ids@), p as int);
    }
    sorted.insert(p, x);
    proof {
        assert(candidate_views(sorted@) =~= vs.insert(p as int, candidate_view(x)));
    }
}

/// The account ids of candidates, in order.
pub open spec fn candidate_ids(s: Seq<CandidateView>) -> Seq<Seq<char>> {
    s.map_values(|c: CandidateView| c.0)
}

/// Candidates sorted by a strategy (stably), as account ids.
pub fn sort_routing_candidates(
    candidates: Vec<RoutingCandidate>,
    strategy: CodexLocalAccessRoutingStrategy,
    account_ids: &Vec<String>,
) -> (r: Vec<String>)
    ensures
        texts(r@) == candidate_ids(sort_candidates(candidate_views(candidates@), strategy, texts(account_ids@))),
{
    let ghost ids = texts(account_ids@);
    let ghost input = candidate_views(candidates@);
    let mut sorted: Vec<RoutingCandidate> = Vec::new();
    let mut rest = candidates;
    let mut i: usize = 0;
    let n = rest.len();
    while i < n
        invariant
            i <= n == input.len(),
            ids == texts(account_ids@),
            rest.len() == n - i,
            forall|k: int| 0 <= k < rest.len() ==> candidate_view(#[trigger] rest@[k]) == input[i + k],
            candidate_views(sorted@) == sort_candidates(input.take(i as int), strategy, ids),
        decreases n - i,
    {
        proof {
            assert(input.take(i as int + 1).drop_last() =~= input.take(i as int));
            assert(input.take(i as int + 1).last() == input[i as int]);
        }
        let ghost before = rest@;
        let x = rest.remove(0);
        proof {
            assert(candidate_view(x) == input[i as int]);
            assert forall|k: int| 0 <= k < rest.len() implies candidate_view(#[trigger] rest@[k]) == input[i + 1 + k] by {
                assert(rest@[k] == before[k + 1]);
            }
        }
        insert_candidate_exec(&mut sorted, x, strategy, account_ids);
        i = i + 1;
    }
    proof {
        assert(input.take(n as int) =~= input);
    }
    let mut r: Vec<String> = Vec::new();
    let mut k: usize = 0;
    while k < sorted.len()
        invariant
            k <= sorted.len(),
            texts(r@) == candidate_ids(candidate_views(sorted@)).take(k as int),
        decreases sorted.len() - k,
    {
        r.push(copy_string(&sorted[k].account_id));
        proof {
            assert(texts(r@) =~= texts(r@.drop_last()).push(sorted@[k as int].account_id@));
            assert(candidate_ids(candidate_views(sorted@)).take(k as int + 1) =~= candidate_ids(candidate_views(sorted@)).take(k as int).push(sorted@[k as int].account_id@));
        }
        k = k + 1;
    }
    proof {
        assert(candidate_ids(candidate_views(sorted@)).take(sorted.len() as int) =~= candidate_ids(candidate_views(sorted@)));
    }
    r
}

/// Whether `a` may stand before `b` by the strategy's main key: known
/// values before unknown ones; then, with both known, the larger remaining
/// quota or plan first for the "high" strategies (and `Auto`), the smaller
/// for the "low" ones, the earlier expiry for `ExpirySoonFirst`. A custom
/// order places nothing by key.
pub open spec fn key_allows(a: CandidateView, b: CandidateView, strategy: CodexLocalAccessRoutingStrategy) -> bool {
    match strategy {
        CodexLocalAccessRoutingStrategy::QuotaHighFirst => (b.2 is Some ==> a.2 is Some) && (a.2 is Some && b.2 is Some
            ==> a.2->0 >= b.2->0),
        CodexLocalAccessRoutingStrategy::QuotaLowFirst => (b.2 is Some ==> a.2 is Some) && (a.2 is Some && b.2 is Some
            ==> a.2->0 <= b.2->0),
        CodexLocalAccessRoutingStrategy::PlanHighFirst | CodexLocalAccessRoutingStrategy::Auto => (b.1 is Some
            ==> a.1 is Some) && (a.1 is Some && b.1 is Some ==> a.1->0 >= b.1->0),
        CodexLocalAccessRoutingStrategy::PlanLowFirst => (b.1 is Some ==> a.1 is Some) && (a.1 is Some && b.1 is Some
            ==> a.1->0 <= b.1->0),
        CodexLocalAccessRoutingStrategy::ExpirySoonFirst => (b.3 is Some ==> a.3 is Some) && (a.3 is Some && b.3 is Some
            ==> a.3->0 <= b.3->0),
        CodexLocalAccessRoutingStrategy::Custom => true,
    }
}

/// Swapping two candidates reverses their comparison.
pub proof fn lemma_candidate_order_antisymmetric(
    l: CandidateView,
    r: CandidateView,
    strategy: CodexLocalAccessRoutingStrategy,
    ids: Seq<Seq<char>>,
)
    ensures
        candidate_order(l, r, strategy, ids) == -candidate_order(r, l, strategy, ids),
{
}

/// How a strategy compares two candidates by its main key: one strictly
/// ahead by that key (known against unknown, or larger or smaller as the
/// strategy asks) comes first, whatever their positions.
pub proof fn lemma_strategy_main_key(
    l: CandidateView,
    r: CandidateView,
    strategy: CodexLocalAccessRoutingStrategy,
    ids: Seq<Seq<char>>,
)
    ensures
        strategy == CodexLocalAccessRoutingStrategy::QuotaHighFirst && l.2 is Some && (r.2 is None || l.2->0
            > r.2->0) ==> candidate_order(l, r, strategy, ids) < 0,
        strategy == CodexLocalAccessRoutingStrategy::QuotaLowFirst && l.2 is Some && (r.2 is None || l.2->0
            < r.2->0) ==> candidate_order(l, r, strategy, ids) < 0,
        (strategy == CodexLocalAccessRoutingStrategy::PlanHighFirst || strategy
            == CodexLocalAccessRoutingStrategy::Auto) && l.1 is Some && (r.1 is None || l.1->0 > r.1->0)
            ==> candidate_order(l, r, strategy, ids) < 0,
        strategy == CodexLocalAccessRoutingStrategy::PlanLowFirst && l.1 is Some && (r.1 is None || l.1->0
            < r.1->0) ==> candidate_order(l, r, strategy, ids) < 0,
        strategy == CodexLocalAccessRoutingStrategy::ExpirySoonFirst && l.3 is Some && (r.3 is None || l.3->0
            < r.3->0) ==> candidate_order(l, r, strategy, ids) < 0,
        strategy == CodexLocalAccessRoutingStrategy::Custom ==> candidate_order(l, r, strategy, ids) == compare_int(
            last_index(ids, l.0),
            last_index(ids, r.0),
        ),
        candidate_order(l, r, strategy, ids) <= 0 ==> key_allows(l, r, strategy),
{
}

/// How ties on a strategy's main key are broken: by the larger plan rank
/// for the quota strategies and for expiry, by the larger remaining quota
/// for the plan strategies and `Auto` (and then for expiry), known values
/// first; and candidates equal on every key the strategy reads keep the
/// order of their positions among the account ids.
pub proof fn lemma_strategy_tie_breaks(
    l: CandidateView,
    r: CandidateView,
    strategy: CodexLocalAccessRoutingStrategy,
    ids: Seq<Seq<char>>,
)
    ensures
        (strategy == CodexLocalAccessRoutingStrategy::QuotaHighFirst || strategy
            == CodexLocalAccessRoutingStrategy::QuotaLowFirst) && l.2 == r.2 && l.1 is Some && (r.1 is None || l.1->0
            > r.1->0) ==> candidate_order(l, r, strategy, ids) < 0,
        (strategy == CodexLocalAccessRoutingStrategy::PlanHighFirst || strategy
            == CodexLocalAccessRoutingStrategy::PlanLowFirst || strategy == CodexLocalAccessRoutingStrategy::Auto)
            && l.1 == r.1 && l.2 is Some && (r.2 is None || l.2->0 > r.2->0) ==> candidate_order(l, r, strategy, ids)
            < 0,
        strategy == CodexLocalAccessRoutingStrategy::ExpirySoonFirst && l.3 == r.3 && l.1 is Some && (r.1 is None
            || l.1->0 > r.1->0) ==> candidate_order(l, r, strategy, ids) < 0,
        strategy == CodexLocalAccessRoutingStrategy::ExpirySoonFirst && l.3 == r.3 && l.1 == r.1 && l.2 is Some && (
        r.2 is None || l.2->0 > r.2->0) ==> candidate_order(l, r, strategy, ids) < 0,
        l.1 == r.1 && l.2 == r.2 && l.3 == r.3 ==> candidate_order(l, r, strategy, ids) == compare_int(
            last_index(ids, l.0),
            last_index(ids, r.0),
        ),
{
}

proof fn lemma_insert_candidate_multiset(
    x: CandidateView,
    s: Seq<CandidateView>,
    strategy: CodexLocalAccessRoutingStrategy,
    ids: Seq<Seq<char>>,
)
    ensures
        insert_candidate(x, s, strategy, ids).to_multiset() == s.to_multiset().insert(x),
    decreases s.len(),
{
    broadcast use vstd::seq_lib::group_to_multiset_ensures;

    if s.len() == 0 {
        assert(seq![x] =~= Seq::<CandidateView>::empty().push(x));
    } else if candidate_order(s.last(), x, strategy, ids) > 0 {
        lemma_insert_candidate_multiset(x, s.drop_last(), strategy, ids);
        assert(s =~= s.drop_last().push(s.last()));
        assert(s.to_multiset() =~= s.drop_last().to_multiset().insert(s.last()));
        assert(s.drop_last().to_multiset().insert(x).insert(s.last()) =~= s.drop_last().to_multiset().insert(
            s.last(),
        ).insert(x));
    }
}

/// Sorting keeps the candidates: the sorted list holds each candidate as
/// many times as it was given.
pub proof fn lemma_sorted_candidates_permutation(
    s: Seq<CandidateView>,
    strategy: CodexLocalAccessRoutingStrategy,
    ids: Seq<Seq<char>>,
)
    ensures
        sort_candidates(s, strategy, ids).to_multiset() == s.to_multiset(),
    decreases s.len(),
{
    broadcast use vstd::seq_lib::group_to_multiset_ensures;

    if s.len() > 0 {
        lemma_sorted_candidates_permutation(s.drop_last(), strategy, ids);
        lemma_insert_candidate_multiset(s.last(), sort_candidates(s.drop_last(), strategy, ids), strategy, ids);
        assert(s =~= s.drop_last().push(s.last()));
        assert(s.to_multiset() =~= s.drop_last().to_multiset().insert(s.last()));
    }
}

/// Adjacent candidates are in order.
pub open spec fn candidates_in_order(
    s: Seq<CandidateView>,
    strategy: CodexLocalAccessRoutingStrategy,
    ids: Seq<Seq<char>>,
) -> bool {
    forall|k: int| 0 <= k < s.len() - 1 ==> candidate_order(#[trigger] s[k], s[k + 1], strategy, ids) <= 0
}

proof fn lemma_insert_candidate_shape(
    x: CandidateView,
    s: Seq<CandidateView>,
    strategy: CodexLocalAccessRoutingStrategy,
    ids: Seq<Seq<char>>,
)
    ensures
        insert_candidate(x, s, strategy, ids).len() == s.len() + 1,
        s.len() > 0 && candidate_order(s.last(), x, strategy, ids) > 0 ==> insert_candidate(x, s, strategy, ids).last()
            == s.last(),
        !(s.len() > 0 && candidate_order(s.last(), x, strategy, ids) > 0) ==> insert_candidate(x, s, strategy, ids).last()
            == x,
    decreases s.len(),
{
    if s.len() > 0 && candidate_order(s.last(), x, strategy, ids) > 0 {
        lemma_insert_candidate_shape(x, s.drop_last(), strategy, ids);
    }
}

proof fn lemma_insert_candidate_in_order(
    x: CandidateView,
    s: Seq<CandidateView>,
    strategy: CodexLocalAccessRoutingStrategy,
    ids: Seq<Seq<char>>,
)
    requires
        candidates_in_order(s, strategy, ids),
    ensures
        candidates_in_order(insert_candidate(x, s, strategy, ids), strategy, ids),
    decreases s.len(),
{
    let out = insert_candidate(x, s, strategy, ids);
    lemma_insert_candidate_shape(x, s, strategy, ids);
    if s.len() == 0 {
    } else if candidate_order(s.last(), x, strategy, ids) > 0 {
        let t = s.drop_last();
        assert forall|k: int| 0 <= k < t.len() - 1 implies candidate_order(#[trigger] t[k], t[k + 1], strategy, ids)
            <= 0 by {
            assert(t[k] == s[k] && t[k + 1] == s[k + 1]);
        }
        lemma_insert_candidate_in_order(x, t, strategy, ids);
        let inner = insert_candidate(x, t, strategy, ids);
        lemma_insert_candidate_shape(x, t, strategy, ids);
        lemma_candidate_order_antisymmetric(s.last(), x, strategy, ids);
        if t.len() > 0 && candidate_order(t.last(), x, strategy, ids) > 0 {
            assert(candidate_order(s[s.len() - 2], s[s.len() - 1], strategy, ids) <= 0);
        }
        assert(out == inner.push(s.last()));
        assert forall|k: int| 0 <= k < out.len() - 1 implies candidate_order(#[trigger] out[k], out[k + 1], strategy, ids)
            <= 0 by {
            if k < inner.len() - 1 {
                assert(out[k] == inner[k] && out[k + 1] == inner[k + 1]);
            } else {
                assert(out[k] == inner.last() && out[k + 1] == s.last());
            }
        }
    } else {
        assert(out == s.push(x));
        assert forall|k: int| 0 <= k < out.len() - 1 implies candidate_order(#[trigger] out[k], out[k + 1], strategy, ids)
            <= 0 by {
            if k < s.len() - 1 {
                assert(out[k] == s[k] && out[k + 1] == s[k + 1]);
            } else {
                assert(out[k] == s.last() && out[k + 1] == x);
            }
        }
    }
}

/// The order a strategy gives its candidates: each stands no later than the
/// next by the full comparison, so in particular by the strategy's main key
/// (for `QuotaHighFirst`, known remaining quotas never increase along the
/// list, and unknown ones come last).
pub proof fn lemma_sorted_candidates_in_order(
    s: Seq<CandidateView>,
    strategy: CodexLocalAccessRoutingStrategy,
    ids: Seq<Seq<char>>,
)
    ensures
        candidates_in_order(sort_candidates(s, strategy, ids), strategy, ids),
        forall|k: int|
            0 <= k < sort_candidates(s, strategy, ids).len() - 1 ==> key_allows(
                #[trigger] sort_candidates(s, strategy, ids)[k],
                sort_candidates(s, strategy, ids)[k + 1],
                strategy,
            ),
    decreases s.len(),
{
    if s.len() > 0 {
        lemma_sorted_candidates_in_order(s.drop_last(), strategy, ids);
        lemma_insert_candidate_in_order(s.last(), sort_candidates(s.drop_last(), strategy, ids), strategy, ids);
    }
    let out = sort_candidates(s, strategy, ids);
    assert forall|k: int| 0 <= k < out.len() - 1 implies key_allows(#[trigger] out[k], out[k + 1], strategy) by {
        lemma_strategy_main_key(out[k], out[k + 1], strategy, ids);
    }
}

} // verus!

verus! {

/// The lowest and highest custom priority, and the lightest and heaviest weight.
pub const CUSTOM_ROUTING_PRIORITY_MIN: i32 = 0;
pub const CUSTOM_ROUTING_PRIORITY_MAX: i32 = 100;
pub const CUSTOM_ROUTING_WEIGHT_MIN: u32 = 1;
pub const CUSTOM_ROUTING_WEIGHT_MAX: u32 = 100;

/// A user rule for the custom strategy: higher priority first, weight for the
/// share of first picks among equal priorities.
#[derive(Debug, Clone, PartialEq, Eq)]
pub struct CodexLocalAccessCustomRoutingRule {
    pub account_id: String,
    pub priority: i32,
    pub weight: u32,
}

pub open spec fn clamp_priority(p: i32) -> i32 {
    if p < CUSTOM_ROUTING_PRIORITY_MIN {
        CUSTOM_ROUTING_PRIORITY_MIN
    } else if p > CUSTOM_ROUTING_PRIORITY_MAX {
        CUSTOM_ROUTING_PRIORITY_MAX
    } else {
        p
    }
}

pub open spec fn clamp_weight(w: u32) -> u32 {
    if w < CUSTOM_ROUTING_WEIGHT_MIN {
        CUSTOM_ROUTING_WEIGHT_MIN
    } else if w > CUSTOM_ROUTING_WEIGHT_MAX {
        CUSTOM_ROUTING_WEIGHT_MAX
    } else {
        w
    }
}

/// The fields of a rule.
pub open spec fn rule_view(r: CodexLocalAccessCustomRoutingRule) -> (Seq<char>, i32, u32) {
    (r.account_id@, r.priority, r.weight)
}

/// A rule with a trimmed account id and clamped priority and weight; `None`
/// for an empty account id.
pub open spec fn normalized_rule(r: (Seq<char>, i32, u32)) -> Option<(Seq<char>, i32, u32)> {
    let id = trim(r.0);
    if id.len() == 0 {
        None
    } else {
        Some((id, clamp_priority(r.1), clamp_weight(r.2)))
    }
}

fn clamp_priority_exec(p: i32) -> (r: i32)
    ensures
        r == clamp_priority(p),
{
    if p < CUSTOM_ROUTING_PRIORITY_MIN {
        CUSTOM_ROUTING_PRIORITY_MIN
    } else if p > CUSTOM_ROUTING_PRIORITY_MAX {
        CUSTOM_ROUTING_PRIORITY_MAX
    } else {
        p
    }
}

fn clamp_weight_exec(w: u32) -> (r: u32)
    ensures
        r == clamp_weight(w),
{
    if w < CUSTOM_ROUTING_WEIGHT_MIN {
        CUSTOM_ROUTING_WEIGHT_MIN
    } else if w > CUSTOM_ROUTING_WEIGHT_MAX {
        CUSTOM_ROUTING_WEIGHT_MAX
    } else {
        w
    }
}

/// Trims the account id and clamps priority and weight of one rule.
pub fn normalize_custom_routing_rule(rule: CodexLocalAccessCustomRoutingRule) -> (r: Option<
    CodexLocalAccessCustomRoutingRule,
>)
    ensures
        match r {
            Some(x) => normalized_rule(rule_view(rule)) == Some(rule_view(x)),
            None => normalized_rule(rule_view(rule)) is None,
        },
{
    let id = trim_vec(&chars_of(rule.account_id.as_str()));
    if id.len() == 0 {
        return None;
    }
    Some(
        CodexLocalAccessCustomRoutingRule {
            account_id: string_of(&id),
            priority: clamp_priority_exec(rule.priority),
            weight: clamp_weight_exec(rule.weight),
        },
    )
}

/// The normalized rules, kept when their account is one of `ids` and its
/// first rule; in order.
pub open spec fn normalized_rules(rules: Seq<(Seq<char>, i32, u32)>, ids: Seq<Seq<char>>) -> Seq<(Seq<char>, i32, u32)>
    decreases rules.len(),
{
    if rules.len() == 0 {
        Seq::empty()
    } else {
        let prev = normalized_rules(rules.drop_last(), ids);
        match normalized_rule(rules.last()) {
            None => prev,
            Some(r) => if ids.contains(r.0) && !prev.map_values(|x: (Seq<char>, i32, u32)| x.0).contains(r.0) {
                prev.push(r)
            } else {
                prev
            },
        }
    }
}

/// Rules normalized and reduced to the collection's accounts, one per account.
pub fn normalize_custom_routing_rules(
    rules: Vec<CodexLocalAccessCustomRoutingRule>,
    account_ids: &Vec<String>,
) -> (r: Vec<CodexLocalAccessCustomRoutingRule>)
    ensures
        r@.map_values(|x: CodexLocalAccessCustomRoutingRule| rule_view(x)) == normalized_rules(
            rules@.map_values(|x: CodexLocalAccessCustomRoutingRule| rule_view(x)),
            texts(account_ids@),
        ),
{
    let ghost input = rules@.map_values(|x: CodexLocalAccessCustomRoutingRule| rule_view(x));
    let ghost ids = texts(account_ids@);
    let mut normalized: Vec<CodexLocalAccessCustomRoutingRule> = Vec::new();
    let mut seen: Vec<String> = Vec::new();
    let mut rest = rules;
    let n = rest.len();
    let mut i: usize = 0;
    while i < n
        invariant
            i <= n == input.len(),
            rest.len() == n - i,
            forall|k: int| 0 <= k < rest.len() ==> rule_view(#[trigger] rest@[k]) == input[i + k],
            input == rules@.map_values(|x: CodexLocalAccessCustomRoutingRule| rule_view(x)),
            ids == texts(account_ids@),
            normalized@.map_values(|x: CodexLocalAccessCustomRoutingRule| rule_view(x)) == normalized_rules(input.take(i as int), ids),
            texts(seen@) == normalized_rules(input.take(i as int), ids).map_values(|x: (Seq<char>, i32, u32)| x.0),
        decreases n - i,
    {
        proof {
            assert(input.take(i as int + 1).drop_last() =~= input.take(i as int));
            assert(input.take(i as int + 1).last() == input[i as int]);
        }
        let ghost before = rest@;
        let rule = rest.remove(0);
        proof {
            assert forall|k: int| 0 <= k < rest.len() implies rule_view(#[trigger] rest@[k]) == input[i + 1 + k] by {
                assert(rest@[k] == before[k + 1]);
            }
        }
        proof {
            assert(rule_view(rule) == input[i as int]);
        }
        let prev_len = normalized.len();
        match normalize_custom_routing_rule(rule) {
            None => {},
            Some(r) => {
                let id = chars_of(r.account_id.as_str());
                if contains_string(account_ids, &id) && !contains_string(&seen, &id) {
                    let ghost seen_before = seen@;
                    seen.push(copy_string(&r.account_id));
                    normalized.push(r);
                    proof {
                        let prev = normalized_rules(input.take(i as int), ids);
                        assert(normalized@.map_values(|x: CodexLocalAccessCustomRoutingRule| rule_view(x)) =~= prev.push(rule_view(r)));
                        assert(texts(seen@) =~= texts(seen_before).push(r.account_id@));
                        assert(prev.push(rule_view(r)).map_values(|x: (Seq<char>, i32, u32)| x.0) =~= prev.map_values(|x: (Seq<char>, i32, u32)| x.0).push(r.account_id@));
                    }
                }
            },
        }
        i = i + 1;
    }
    proof {
        assert(input.take(n as int) =~= input);
    }
    normalized
}

/// The clamped priority and weight of the last rule for an account.
pub open spec fn rule_lookup(rules: Seq<(Seq<char>, i32, u32)>, id: Seq<char>) -> Option<(i32, u32)>
    decreases rules.len(),
{
    if rules.len() == 0 {
        None
    } else if rules.last().0 == id {
        Some((clamp_priority(rules.last().1), clamp_weight(rules.last().2)))
    } else {
        rule_lookup(rules.drop_last(), id)
    }
}

/// The priority of an account under the rules (lowest when it has none).
pub open spec fn priority_of(rules: Seq<(Seq<char>, i32, u32)>, id: Seq<char>) -> int {
    match rule_lookup(rules, id) {
        Some(x) => x.0 as int,
        None => CUSTOM_ROUTING_PRIORITY_MIN as int,
    }
}

/// The weight of an account under the rules (lightest when it has none).
pub open spec fn weight_of(rules: Seq<(Seq<char>, i32, u32)>, id: Seq<char>) -> int {
    match rule_lookup(rules, id) {
        Some(x) => x.1 as int,
        None => CUSTOM_ROUTING_WEIGHT_MIN as int,
    }
}

pub proof fn lemma_rule_lookup_bounds(rules: Seq<(Seq<char>, i32, u32)>, id: Seq<char>)
    ensures
        1 <= weight_of(rules, id) <= 100,
        0 <= priority_of(rules, id) <= 100,
    decreases rules.len(),
{
    if rules.len() > 0 && rules.last().0 != id {
        lemma_rule_lookup_bounds(rules.drop_last(), id);
    }
}

/// Rules as views.
pub open spec fn rule_views(rules: Seq<CodexLocalAccessCustomRoutingRule>) -> Seq<(Seq<char>, i32, u32)> {
    rules.map_values(|x: CodexLocalAccessCustomRoutingRule| rule_view(x))
}

fn custom_rule_lookup(rules: &Vec<CodexLocalAccessCustomRoutingRule>, id: &Vec<char>) -> (r: (i32, u32))
    ensures
        r.0 as int == priority_of(rule_views(rules@), id@),
        r.1 as int == weight_of(rule_views(rules@), id@),
{
    let ghost rv = rule_views(rules@);
    let mut i = rules.len();
    proof {
        assert(rv.take(i as int) =~= rv);
    }
    while i > 0
        invariant
            i <= rules.len(),
            rv == rule_views(rules@),
            rule_lookup(rv, id@) == rule_lookup(rv.take(i as int), id@),
        decreases i,
    {
        proof {
            assert(rv.take(i as int).drop_last() =~= rv.take(i as int - 1));
            assert(rv.take(i as int).last() == rule_view(rules@[i - 1]));
        }
        if seq_eq(&chars_of(rules[i - 1].account_id.as_str()), id) {
            return (clamp_priority_exec(rules[i - 1].priority), clamp_weight_exec(rules[i - 1].weight));
        }
        i = i - 1;
    }
    (CUSTOM_ROUTING_PRIORITY_MIN, CUSTOM_ROUTING_WEIGHT_MIN)
}

/// The sum of the weights of a group.
pub open spec fn total_weight(group: Seq<Seq<char>>, rules: Seq<(Seq<char>, i32, u32)>) -> int
    decreases group.len(),
{
    if group.len() == 0 {
        0
    } else {
        total_weight(group.drop_last(), rules) + weight_of(rules, group.last())
    }
}

/// The member whose share of the weight holds `slot`, counting from the front.
pub open spec fn weighted_pick(group: Seq<Seq<char>>, rules: Seq<(Seq<char>, i32, u32)>, slot: int) -> Option<int>
    decreases group.len(),
{
    if group.len() == 0 {
        None
    } else if slot < weight_of(rules, group[0]) {
        Some(0)
    } else {
        match weighted_pick(group.drop_first(), rules, slot - weight_of(rules, group[0])) {
            Some(i) => Some(i + 1),
            None => None,
        }
    }
}

/// A priority group in weighted round robin: the member picked by
/// `start` modulo the total weight first, then the rest of the group in order.
pub open spec fn weighted_group(group: Seq<Seq<char>>, rules: Seq<(Seq<char>, i32, u32)>, start: int) -> Seq<Seq<char>> {
    if group.len() <= 1 {
        group
    } else {
        let total = if total_weight(group, rules) > usize::MAX { usize::MAX as int } else { total_weight(group, rules) };
        if total == 0 {
            group
        } else {
            let first = match weighted_pick(group, rules, start % total) {
                Some(i) => i,
                None => 0,
            };
            rotation(group, first)
        }
    }
}

pub proof fn lemma_total_weight_nonneg(group: Seq<Seq<char>>, rules: Seq<(Seq<char>, i32, u32)>)
    ensures
        total_weight(group, rules) >= group.len(),
    decreases group.len(),
{
    if group.len() > 0 {
        lemma_total_weight_nonneg(group.drop_last(), rules);
        lemma_rule_lookup_bounds(rules, group.last());
    }
}

pub proof fn lemma_weighted_pick_step(
    group: Seq<Seq<char>>,
    rules: Seq<(Seq<char>, i32, u32)>,
    slot: int,
    i: int,
    rem: int,
)
    requires
        0 <= i < group.len(),
        weighted_pick(group, rules, slot) == match weighted_pick(group.skip(i), rules, rem) {
            Some(k) => Some(k + i),
            None => None::<int>,
        },
        rem >= weight_of(rules, group[i]),
    ensures
        weighted_pick(group, rules, slot) == match weighted_pick(group.skip(i + 1), rules, rem - weight_of(rules, group[i])) {
            Some(k) => Some(k + i + 1),
            None => None::<int>,
        },
{
    let t = group.skip(i);
    assert(t[0] == group[i]);
    assert(t.drop_first() =~= group.skip(i + 1));
}

fn weighted_group_order(
    group: &Vec<String>,
    rules: &Vec<CodexLocalAccessCustomRoutingRule>,
    start: usize,
) -> (r: Vec<String>)
    ensures
        texts(r@) == weighted_group(texts(group@), rule_views(rules@), start as int),
{
    let ghost g = texts(group@);
    let ghost rv = rule_views(rules@);
    if group.len() <= 1 {
        return copy_strings(group);
    }
    let mut total: usize = 0;
    let mut i: usize = 0;
    while i < group.len()
        invariant
            i <= group.len(),
            g == texts(group@),
            rv == rule_views(rules@),
            total as int == if total_weight(g.take(i as int), rv) > usize::MAX { usize::MAX as int } else { total_weight(g.take(i as int), rv) },
        decreases group.len() - i,
    {
        let (_, w) = custom_rule_lookup(rules, &chars_of(group[i].as_str()));
        proof {
            assert(g.take(i as int + 1).drop_last() =~= g.take(i as int));
            assert(g.take(i as int + 1).last() == g[i as int]);
            lemma_rule_lookup_bounds(rv, g[i as int]);
            lemma_total_weight_nonneg(g.take(i as int), rv);
        }
        total = total.saturating_add(w as usize);
        i = i + 1;
    }
    proof {
        assert(g.take(group.len() as int) =~= g);
    }
    if total == 0 {
        return copy_strings(group);
    }
    let mut slot = start % total;
    let mut first_index: usize = 0;
    let mut found = false;
    let mut j: usize = 0;
    let ghost slot0 = slot as int;
    proof {
        assert(g.skip(0) =~= g);
    }
    while j < group.len() && !found
        invariant
            j <= group.len(),
            g == texts(group@),
            rv == rule_views(rules@),
            group.len() > 1,
            found ==> first_index < group.len() && weighted_pick(g, rv, slot0) == Some(first_index as int),
            !found ==> first_index == 0 && weighted_pick(g, rv, slot0) == match weighted_pick(g.skip(j as int), rv, slot as int) {
                Some(k) => Some(k + j),
                None => None::<int>,
            },
        decreases group.len() - j, if found { 0int } else { 1int },
    {
        let (_, w) = custom_rule_lookup(rules, &chars_of(group[j].as_str()));
        proof {
            assert(g.skip(j as int)[0] == g[j as int]);
        }
        if slot < w as usize {
            first_index = j;
            found = true;
        } else {
            proof {
                lemma_weighted_pick_step(g, rv, slot0, j as int, slot as int);
            }
            slot = slot - w as usize;
            j = j + 1;
        }
    }
    proof {
        if !found {
            assert(g.skip(j as int).len() == 0);
        }
    }
    let n = group.len();
    let mut r: Vec<String> = Vec::new();
    let mut offset: usize = 0;
    let ghost rot = rotation(g, first_index as int);
    proof {
        assert(first_index as int == match weighted_pick(g, rv, slot0) { Some(k) => k, None => 0 });
    }
    while offset < n
        invariant
            n == group.len() > 1,
            first_index < n,
            offset <= n,
            g == texts(group@),
            rot == rotation(g, first_index as int),
            texts(r@) == rot.take(offset as int),
        decreases n - offset,
    {
        let idx = if offset < n - first_index { first_index + offset } else { offset - (n - first_index) };
        proof {
            lemma_small_mod(first_index as nat, n as nat);
            lemma_rotation_index(first_index as int, n as int, first_index as int, offset as int, idx as int);
        }
        r.push(copy_string(&group[idx]));
        proof {
            assert(rot[offset as int] == g[idx as int]);
            assert(texts(r@) =~= texts(r@.drop_last()).push(g[idx as int]));
            assert(rot.take(offset as int + 1) =~= rot.take(offset as int).push(rot[offset as int]));
        }
        offset = offset + 1;
    }
    proof {
        assert(rot.take(n as int) =~= rot);
    }
    r
}

} // verus!

verus! {

/// The accounts of `ids` whose custom priority is `p`, in order.
pub open spec fn priority_group(ids: Seq<Seq<char>>, rules: Seq<(Seq<char>, i32, u32)>, p: int) -> Seq<Seq<char>>
    decreases ids.len(),
{
    if ids.len() == 0 {
        ids
    } else {
        let rest = priority_group(ids.drop_last(), rules, p);
        if priority_of(rules, ids.last()) == p {
            rest.push(ids.last())
        } else {
            rest
        }
    }
}

/// The weighted priority groups from priority 100 down to `p + 1`.
pub open spec fn custom_order_above(ids: Seq<Seq<char>>, rules: Seq<(Seq<char>, i32, u32)>, start: int, p: int) -> Seq<Seq<char>>
    decreases 100 - p,
{
    if p >= 100 {
        Seq::empty()
    } else {
        custom_order_above(ids, rules, start, p + 1) + weighted_group(priority_group(ids, rules, p + 1), rules, start)
    }
}

/// The custom order: priority groups from highest to lowest, each in
/// weighted round robin from `start`.
pub open spec fn custom_order(ids: Seq<Seq<char>>, rules: Seq<(Seq<char>, i32, u32)>, start: int) -> Seq<Seq<char>> {
    custom_order_above(ids, rules, start, -1)
}

fn priority_group_exec(
    account_ids: &Vec<String>,
    rules: &Vec<CodexLocalAccessCustomRoutingRule>,
    p: i32,
) -> (r: Vec<String>)
    ensures
        texts(r@) == priority_group(texts(account_ids@), rule_views(rules@), p as int),
{
    let ghost ids = texts(account_ids@);
    let mut r: Vec<String> = Vec::new();
    let mut i: usize = 0;
    while i < account_ids.len()
        invariant
            i <= account_ids.len(),
            ids == texts(account_ids@),
            texts(r@) == priority_group(ids.take(i as int), rule_views(rules@), p as int),
        decreases account_ids.len() - i,
    {
        proof {
            assert(ids.take(i as int + 1).drop_last() =~= ids.take(i as int));
            assert(ids.take(i as int + 1).last() == ids[i as int]);
        }
        let (priority, _) = custom_rule_lookup(rules, &chars_of(account_ids[i].as_str()));
        if priority == p {
            r.push(copy_string(&account_ids[i]));
            proof {
                assert(texts(r@) =~= texts(r@.drop_last()).push(ids[i as int]));
            }
        }
        i = i + 1;
    }
    proof {
        assert(ids.take(account_ids.len() as int) =~= ids);
    }
    r
}

fn append_strings(target: &mut Vec<String>, items: Vec<String>)
    ensures
        texts(final(target)@) == texts(old(target)@) + texts(items@),
{
    let ghost base = texts(target@);
    let mut i: usize = 0;
    while i < items.len()
        invariant
            i <= items.len(),
            texts(target@) == base + texts(items@).take(i as int),
        decreases items.len() - i,
    {
        target.push(copy_string(&items[i]));
        proof {
            assert(texts(target@) =~= texts(target@.drop_last()).push(items@[i as int]@));
            assert(base + texts(items@).take(i as int + 1) =~= (base + texts(items@).take(i as int)).push(items@[i as int]@));
        }
        i = i + 1;
    }
    proof {
        assert(texts(items@).take(items.len() as int) =~= texts(items@));
    }
}

/// The custom strategy: accounts by descending priority, each priority group
/// in weighted round robin from `start`.
pub fn apply_custom_routing_strategy(
    account_ids: &Vec<String>,
    rules: &Vec<CodexLocalAccessCustomRoutingRule>,
    start: usize,
) -> (r: Vec<String>)
    ensures
        texts(r@) == custom_order(texts(account_ids@), rule_views(rules@), start as int),
{
    let ghost ids = texts(account_ids@);
    let ghost rv = rule_views(rules@);
    let mut ordered: Vec<String> = Vec::new();
    let mut p: i32 = CUSTOM_ROUTING_PRIORITY_MAX;
    while p >= CUSTOM_ROUTING_PRIORITY_MIN
        invariant
            -1 <= p <= 100,
            ids == texts(account_ids@),
            rv == rule_views(rules@),
            texts(ordered@) == custom_order_above(ids, rv, start as int, p as int),
        decreases p + 1,
    {
        let group = priority_group_exec(account_ids, rules, p);
        let weighted = weighted_group_order(&group, rules, start);
        append_strings(&mut ordered, weighted);
        p = p - 1;
    }
    ordered
}

/// The order in which the gateway tries accounts under a strategy; the
/// account of `account_ids[i]` is `accounts[i]` when known.
pub open spec fn routing_order(
    ids: Seq<Seq<char>>,
    strategy: CodexLocalAccessRoutingStrategy,
    rules: Seq<(Seq<char>, i32, u32)>,
    start: int,
    accounts: Seq<Option<CodexAccount>>,
) -> Seq<Seq<char>> {
    if strategy == CodexLocalAccessRoutingStrategy::Custom {
        custom_order(ids, rules, start)
    } else {
        candidate_ids(
            sort_candidates(
                Seq::new(ids.len(), |i: int| candidate_for(ids[i], account_at(accounts, i))),
                strategy,
                ids,
            ),
        )
    }
}

/// Orders the accounts of the pool by the configured strategy.
pub fn apply_routing_strategy(
    account_ids: &Vec<String>,
    strategy: CodexLocalAccessRoutingStrategy,
    custom_rules: &Vec<CodexLocalAccessCustomRoutingRule>,
    start: usize,
    accounts: &Vec<Option<CodexAccount>>,
) -> (r: Vec<String>)
    ensures
        texts(r@) == routing_order(texts(account_ids@), strategy, rule_views(custom_rules@), start as int, accounts@),
{
    if strategy == CodexLocalAccessRoutingStrategy::Custom {
        return apply_custom_routing_strategy(account_ids, custom_rules, start);
    }
    let candidates = build_routing_candidates(account_ids, accounts);
    proof {
        let ids = texts(account_ids@);
        assert(candidate_views(candidates@) =~= Seq::new(ids.len(), |i: int| candidate_for(ids[i], account_at(accounts@, i))));
    }
    sort_routing_candidates(candidates, strategy, account_ids)
}

} // verus!
