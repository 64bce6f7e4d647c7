//! Usage statistics of the gateway: counters per request, and their totals
//! per account, per model and per client key, over time windows.
use vstd::prelude::*;
use crate::http::CodexLocalAccessRequestKind;
use crate::usage::UsageCapture;
use crate::text::{trim, chars_of, string_of, trim_vec, str_eq, copy_string};

verus! {

broadcast use vstd::string::group_string_axioms;

/// Counters of requests and tokens.
#[derive(Debug, Clone, Copy, PartialEq, Eq, Structural)]
pub struct CodexLocalAccessUsageStats {
    pub request_count: u64,
    pub success_count: u64,
    pub failure_count: u64,
    pub total_latency_ms: u64,
    pub text_request_count: u64,
    pub image_request_count: u64,
    pub image_generation_request_count: u64,
    pub image_edit_request_count: u64,
    pub image_generation_capability_failure_count: u64,
    pub input_tokens: u64,
    pub output_tokens: u64,
    pub total_tokens: u64,
    pub cached_tokens: u64,
    pub reasoning_tokens: u64,
}

impl Default for CodexLocalAccessUsageStats {
    fn default() -> (r: CodexLocalAccessUsageStats)
        ensures
            r == zero_stats(),
    {
        CodexLocalAccessUsageStats {
            request_count: 0,
            success_count: 0,
            failure_count: 0,
            total_latency_ms: 0,
            text_request_count: 0,
            image_request_count: 0,
            image_generation_request_count: 0,
            image_edit_request_count: 0,
            image_generation_capability_failure_count: 0,
            input_tokens: 0,
            output_tokens: 0,
            total_tokens: 0,
            cached_tokens: 0,
            reasoning_tokens: 0,
        }
    }
}

/// All counters at zero.
pub open spec fn zero_stats() -> CodexLocalAccessUsageStats {
    CodexLocalAccessUsageStats {
        request_count: 0,
        success_count: 0,
        failure_count: 0,
        total_latency_ms: 0,
        text_request_count: 0,
        image_request_count: 0,
        image_generation_request_count: 0,
        image_edit_request_count: 0,
        image_generation_capability_failure_count: 0,
        input_tokens: 0,
        output_tokens: 0,
        total_tokens: 0,
        cached_tokens: 0,
        reasoning_tokens: 0,
    }
}

/// `a + b`, saturating at `u64::MAX`.
pub open spec fn sat(a: u64, b: u64) -> u64 {
    if a + b > u64::MAX {
        u64::MAX
    } else {
        (a + b) as u64
    }
}

/// The failure category counts as an image capability failure.
pub open spec fn capability_failure(category: Option<Seq<char>>) -> bool {
    match category {
        Some(c) => trim(c) == "image_generation_not_enabled"@ || trim(c) == "image_generation_disabled"@,
        None => false,
    }
}

/// The counters after one more request (all additions saturate): one more
/// request, success or failure, its latency, its kind, an image capability
/// failure when the category says so, and its tokens.
pub open spec fn counted(
    s: CodexLocalAccessUsageStats,
    kind: CodexLocalAccessRequestKind,
    success: bool,
    category: Option<Seq<char>>,
    latency_ms: u64,
    usage: Option<UsageCapture>,
) -> CodexLocalAccessUsageStats {
    let image_gen = kind == CodexLocalAccessRequestKind::ImageGeneration;
    let image_edit = kind == CodexLocalAccessRequestKind::ImageEdit;
    CodexLocalAccessUsageStats {
        request_count: sat(s.request_count, 1),
        success_count: if success {
            sat(s.success_count, 1)
        } else {
            s.success_count
        },
        failure_count: if success {
            s.failure_count
        } else {
            sat(s.failure_count, 1)
        },
        total_latency_ms: sat(s.total_latency_ms, latency_ms),
        text_request_count: if kind == CodexLocalAccessRequestKind::Text {
            sat(s.text_request_count, 1)
        } else {
            s.text_request_count
        },
        image_request_count: if image_gen || image_edit {
            sat(s.image_request_count, 1)
        } else {
            s.image_request_count
        },
        image_generation_request_count: if image_gen {
            sat(s.image_generation_request_count, 1)
        } else {
            s.image_generation_request_count
        },
        image_edit_request_count: if image_edit {
            sat(s.image_edit_request_count, 1)
        } else {
            s.image_edit_request_count
        },
        image_generation_capability_failure_count: if capability_failure(category) {
            sat(s.image_generation_capability_failure_count, 1)
        } else {
            s.image_generation_capability_failure_count
        },
        input_tokens: match usage {
            Some(u) => sat(s.input_tokens, u.input_tokens),
            None => s.input_tokens,
        },
        output_tokens: match usage {
            Some(u) => sat(s.output_tokens, u.output_tokens),
            None => s.output_tokens,
        },
        total_tokens: match usage {
            Some(u) => sat(s.total_tokens, u.total_tokens),
            None => s.total_tokens,
        },
        cached_tokens: match usage {
            Some(u) => sat(s.cached_tokens, u.cached_tokens),
            None => s.cached_tokens,
        },
        reasoning_tokens: match usage {
            Some(u) => sat(s.reasoning_tokens, u.reasoning_tokens),
            None => s.reasoning_tokens,
        },
    }
}

/// The text of an optional string slice.
pub open spec fn opt_str(o: Option<&str>) -> Option<Seq<char>> {
    match o {
        Some(s) => Some(s@),
        None => None,
    }
}

/// What a counter holds after `b` is added to `a`: their sum, or the largest
/// value when the sum does not fit.
pub open spec fn adds_up_to(a: u64, b: u64) -> int {
    if a as int + b as int <= u64::MAX as int {
        a as int + b as int
    } else {
        u64::MAX as int
    }
}

/// What counting a request does to each counter: every token counter grows
/// by the same counter of the request's usage (input by input, output by
/// output, and so on), saturating, and is left alone without usage; the
/// request count grows by one, the latency by the request's latency; exactly
/// one of the success and failure counts grows.
pub proof fn lemma_counted_fields(
    s: CodexLocalAccessUsageStats,
    kind: CodexLocalAccessRequestKind,
    success: bool,
    category: Option<Seq<char>>,
    latency_ms: u64,
    usage: Option<UsageCapture>,
)
    ensures
        ({
            let c = counted(s, kind, success, category, latency_ms, usage);
            &&& usage matches Some(u) ==> {
                &&& c.input_tokens == adds_up_to(s.input_tokens, u.input_tokens)
                &&& c.output_tokens == adds_up_to(s.output_tokens, u.output_tokens)
                &&& c.total_tokens == adds_up_to(s.total_tokens, u.total_tokens)
                &&& c.cached_tokens == adds_up_to(s.cached_tokens, u.cached_tokens)
                &&& c.reasoning_tokens == adds_up_to(s.reasoning_tokens, u.reasoning_tokens)
            }
            &&& usage is None ==> {
                &&& c.input_tokens == s.input_tokens
                &&& c.output_tokens == s.output_tokens
                &&& c.total_tokens == s.total_tokens
                &&& c.cached_tokens == s.cached_tokens
                &&& c.reasoning_tokens == s.reasoning_tokens
            }
            &&& c.request_count == adds_up_to(s.request_count, 1)
            &&& c.total_latency_ms == adds_up_to(s.total_latency_ms, latency_ms)
            &&& success ==> c.success_count == adds_up_to(s.success_count, 1) && c.failure_count == s.failure_count
            &&& !success ==> c.failure_count == adds_up_to(s.failure_count, 1) && c.success_count == s.success_count
            &&& kind == CodexLocalAccessRequestKind::Text ==> c.text_request_count == adds_up_to(s.text_request_count, 1)
                && c.image_request_count == s.image_request_count
            &&& kind == CodexLocalAccessRequestKind::ImageGeneration ==> c.image_request_count == adds_up_to(
                s.image_request_count,
                1,
            ) && c.image_generation_request_count == adds_up_to(s.image_generation_request_count, 1)
                && c.image_edit_request_count == s.image_edit_request_count
            &&& kind == CodexLocalAccessRequestKind::ImageEdit ==> c.image_request_count == adds_up_to(
                s.image_request_count,
                1,
            ) && c.image_edit_request_count == adds_up_to(s.image_edit_request_count, 1)
                && c.image_generation_request_count == s.image_generation_request_count
        }),
{
}

/// Counts one more request.
pub fn apply_usage_stats(
    target: &mut CodexLocalAccessUsageStats,
    request_kind: CodexLocalAccessRequestKind,
    success: bool,
    error_category: Option<&str>,
    latency_ms: u64,
    usage: Option<&UsageCapture>,
)
    ensures
        *final(target) == counted(
            *old(target),
            request_kind,
            success,
            opt_str(error_category),
            latency_ms,
            match usage {
                Some(u) => Some(*u),
                None => None,
            },
        ),
        usage matches Some(u) ==> {
            &&& final(target).input_tokens == adds_up_to(old(target).input_tokens, u.input_tokens)
            &&& final(target).output_tokens == adds_up_to(old(target).output_tokens, u.output_tokens)
            &&& final(target).total_tokens == adds_up_to(old(target).total_tokens, u.total_tokens)
            &&& final(target).cached_tokens == adds_up_to(old(target).cached_tokens, u.cached_tokens)
            &&& final(target).reasoning_tokens == adds_up_to(old(target).reasoning_tokens, u.reasoning_tokens)
        },
        usage is None ==> {
            &&& final(target).input_tokens == old(target).input_tokens
            &&& final(target).output_tokens == old(target).output_tokens
            &&& final(target).total_tokens == old(target).total_tokens
            &&& final(target).cached_tokens == old(target).cached_tokens
            &&& final(target).reasoning_tokens == old(target).reasoning_tokens
        },
        final(target).request_count == adds_up_to(old(target).request_count, 1),
        final(target).total_latency_ms == adds_up_to(old(target).total_latency_ms, latency_ms),
{
    proof {
        lemma_counted_fields(*old(target), request_kind, success, opt_str(error_category), latency_ms, match usage {
            Some(u) => Some(*u),
            None => None,
        });
    }
    target.request_count = target.request_count.saturating_add(1);
    if success {
        target.success_count = target.success_count.saturating_add(1);
    } else {
        target.failure_count = target.failure_count.saturating_add(1);
    }
    target.total_latency_ms = target.total_latency_ms.saturating_add(latency_ms);
    match request_kind {
        CodexLocalAccessRequestKind::Text => {
            target.text_request_count = target.text_request_count.saturating_add(1);
        },
        CodexLocalAccessRequestKind::ImageGeneration => {
            target.image_request_count = target.image_request_count.saturating_add(1);
            target.image_generation_request_count = target.image_generation_request_count.saturating_add(1);
        },
        CodexLocalAccessRequestKind::ImageEdit => {
            target.image_request_count = target.image_request_count.saturating_add(1);
            target.image_edit_request_count = target.image_edit_request_count.saturating_add(1);
        },
        CodexLocalAccessRequestKind::Other => {},
    }
    let capability = match error_category {
        Some(c) => {
            let t = trim_vec(&chars_of(c));
            crate::text::seq_eq(&t, &chars_of("image_generation_not_enabled")) || crate::text::seq_eq(
                &t,
                &chars_of("image_generation_disabled"),
            )
        },
        None => false,
    };
    if capability {
        target.image_generation_capability_failure_count = target.image_generation_capability_failure_count.saturating_add(1);
    }
    match usage {
        Some(u) => {
            target.input_tokens = target.input_tokens.saturating_add(u.input_tokens);
            target.output_tokens = target.output_tokens.saturating_add(u.output_tokens);
            target.total_tokens = target.total_tokens.saturating_add(u.total_tokens);
            target.cached_tokens = target.cached_tokens.saturating_add(u.cached_tokens);
            target.reasoning_tokens = target.reasoning_tokens.saturating_add(u.reasoning_tokens);
        },
        None => {},
    }
}

/// Every request is a success or a failure: counting one more keeps the
/// request count the sum of the success and failure counts, while the
/// counters stay below their limit.
pub proof fn lemma_counted_keeps_outcome_sum(
    s: CodexLocalAccessUsageStats,
    kind: CodexLocalAccessRequestKind,
    success: bool,
    category: Option<Seq<char>>,
    latency_ms: u64,
    usage: Option<UsageCapture>,
)
    requires
        s.request_count == s.success_count + s.failure_count,
        s.request_count < u64::MAX,
    ensures
        ({
            let t = counted(s, kind, success, category, latency_ms, usage);
            t.request_count == t.success_count + t.failure_count && t.request_count == s.request_count + 1
        }),
{
}

/// Every image request is an image generation or an image edit: counting
/// one more keeps the image count the sum of the two, while the counters
/// stay below their limit.
pub proof fn lemma_counted_keeps_image_sum(
    s: CodexLocalAccessUsageStats,
    kind: CodexLocalAccessRequestKind,
    success: bool,
    category: Option<Seq<char>>,
    latency_ms: u64,
    usage: Option<UsageCapture>,
)
    requires
        s.image_request_count == s.image_generation_request_count + s.image_edit_request_count,
        s.image_request_count < u64::MAX,
    ensures
        ({
            let t = counted(s, kind, success, category, latency_ms, usage);
            t.image_request_count == t.image_generation_request_count + t.image_edit_request_count
        }),
{
}

/// The totals of one account.
#[derive(Debug, Clone)]
pub struct CodexLocalAccessAccountStats {
    pub account_id: String,
    pub email: String,
    pub usage: CodexLocalAccessUsageStats,
    pub updated_at: i64,
}

/// The totals of one client key.
#[derive(Debug, Clone)]
pub struct CodexLocalAccessApiKeyStats {
    pub api_key_id: String,
    pub label: String,
    pub usage: CodexLocalAccessUsageStats,
    pub updated_at: i64,
}

/// The totals of one model.
#[derive(Debug, Clone)]
pub struct CodexLocalAccessModelStats {
    pub model_id: String,
    pub usage: CodexLocalAccessUsageStats,
    pub updated_at: i64,
}

/// The trimmed text, when it is not blank.
pub open spec fn nonblank(o: Option<Seq<char>>) -> Option<Seq<char>> {
    match o {
        Some(s) => if trim(s).len() > 0 {
            Some(trim(s))
        } else {
            None
        },
        None => None,
    }
}

/// An entry (by key, name, counters, time) as values.
pub type EntryView = (Seq<char>, Seq<char>, CodexLocalAccessUsageStats, i64);

/// The account entries as values.
pub open spec fn account_views(v: Seq<CodexLocalAccessAccountStats>) -> Seq<EntryView> {
    v.map_values(|a: CodexLocalAccessAccountStats| (a.account_id@, a.email@, a.usage, a.updated_at))
}

/// The client key entries as values.
pub open spec fn api_key_views(v: Seq<CodexLocalAccessApiKeyStats>) -> Seq<EntryView> {
    v.map_values(|a: CodexLocalAccessApiKeyStats| (a.api_key_id@, a.label@, a.usage, a.updated_at))
}

/// The model entries as values (with no name).
pub open spec fn model_views(v: Seq<CodexLocalAccessModelStats>) -> Seq<EntryView> {
    v.map_values(|a: CodexLocalAccessModelStats| (a.model_id@, Seq::<char>::empty(), a.usage, a.updated_at))
}

/// The first entry with the given key.
pub open spec fn entry_index(entries: Seq<EntryView>, key: Seq<char>) -> Option<int> {
    if exists|i: int| 0 <= i < entries.len() && #[trigger] entries[i].0 == key {
        Some(
            choose|i: int|
                0 <= i < entries.len() && #[trigger] entries[i].0 == key && forall|j: int|
                    0 <= j < i ==> #[trigger] entries[j].0 != key,
        )
    } else {
        None
    }
}

/// Counting a request against the entry with a key (trimmed; nothing when
/// blank): the first such entry gets the counts, the new time, and the name
/// when one is given; without one, a new entry is added at the end. With
/// `keep_name`, the name is never set (model entries have none).
pub open spec fn upserted(
    entries: Seq<EntryView>,
    key: Option<Seq<char>>,
    name: Option<Seq<char>>,
    keep_name: bool,
    kind: CodexLocalAccessRequestKind,
    success: bool,
    category: Option<Seq<char>>,
    latency_ms: u64,
    usage: Option<UsageCapture>,
    updated_at: i64,
) -> Seq<EntryView> {
    match nonblank(key) {
        None => entries,
        Some(k) => {
            let given = match nonblank(name) {
                Some(n) => n,
                None => Seq::empty(),
            };
            match entry_index(entries, k) {
                Some(i) => entries.update(
                    i,
                    (
                        k,
                        if keep_name || given.len() == 0 {
                            entries[i].1
                        } else {
                            given
                        },
                        counted(entries[i].2, kind, success, category, latency_ms, usage),
                        updated_at,
                    ),
                ),
                None => entries.push(
                    (
                        k,
                        if keep_name {
                            Seq::empty()
                        } else {
                            given
                        },
                        counted(zero_stats(), kind, success, category, latency_ms, usage),
                        updated_at,
                    ),
                ),
            }
        },
    }
}

fn nonblank_exec(o: Option<&str>) -> (r: Option<String>)
    ensures
        match r {
            Some(s) => nonblank(opt_str(o)) == Some(s@),
            None => nonblank(opt_str(o)) is None,
        },
{
    match o {
        Some(s) => {
            let t = trim_vec(&chars_of(s));
            if t.len() > 0 {
                Some(string_of(&t))
            } else {
                None
            }
        },
        None => None,
    }
}

proof fn lemma_first_entry(entries: Seq<EntryView>, key: Seq<char>, i: int)
    requires
        0 <= i < entries.len(),
        entries[i].0 == key,
        forall|j: int| 0 <= j < i ==> #[trigger] entries[j].0 != key,
    ensures
        entry_index(entries, key) == Some(i),
{
    let c = choose|c: int|
        0 <= c < entries.len() && #[trigger] entries[c].0 == key && forall|j: int|
            0 <= j < c ==> #[trigger] entries[j].0 != key;
    if c < i {
        assert(entries[c].0 != key);
    }
    if c > i {
        assert(entries[i].0 != key);
    }
}

proof fn lemma_first_exists(entries: Seq<EntryView>, key: Seq<char>, k: int)
    requires
        0 <= k < entries.len(),
        entries[k].0 == key,
    ensures
        exists|i: int|
            0 <= i < entries.len() && #[trigger] entries[i].0 == key && forall|j: int|
                0 <= j < i ==> #[trigger] entries[j].0 != key,
    decreases k,
{
    if exists|j: int| 0 <= j < k && #[trigger] entries[j].0 == key {
        let j = choose|j: int| 0 <= j < k && #[trigger] entries[j].0 == key;
        lemma_first_exists(entries, key, j);
    } else {
        assert(forall|j: int| 0 <= j < k ==> #[trigger] entries[j].0 != key);
    }
}

/// The entry with a key, when there is one, is the first with it.
proof fn lemma_entry_index_found(entries: Seq<EntryView>, key: Seq<char>)
    ensures
        entry_index(entries, key) matches Some(i) ==> 0 <= i < entries.len() && entries[i].0 == key,
        entry_index(entries, key) is None ==> forall|j: int| 0 <= j < entries.len() ==> #[trigger] entries[j].0 != key,
{
    if exists|i: int| 0 <= i < entries.len() && #[trigger] entries[i].0 == key {
        let k = choose|i: int| 0 <= i < entries.len() && #[trigger] entries[i].0 == key;
        lemma_first_exists(entries, key, k);
    }
}

/// Counting a request against the entry with a key: the entry of the
/// (trimmed) key ends up with one more request and with each token count of
/// the request's usage added to its own (starting from zero for a new key),
/// its time set to the request's; every other entry is left as it was. A
/// blank key changes nothing.
pub proof fn lemma_upserted_counts(
    entries: Seq<EntryView>,
    key: Option<Seq<char>>,
    name: Option<Seq<char>>,
    keep_name: bool,
    kind: CodexLocalAccessRequestKind,
    success: bool,
    category: Option<Seq<char>>,
    latency_ms: u64,
    usage: Option<UsageCapture>,
    updated_at: i64,
)
    ensures
        nonblank(key) is None ==> upserted(entries, key, name, keep_name, kind, success, category, latency_ms, usage, updated_at)
            == entries,
        nonblank(key) matches Some(k) ==> ({
            let r = upserted(entries, key, name, keep_name, kind, success, category, latency_ms, usage, updated_at);
            let found = entry_index(entries, k);
            let at = match found {
                Some(i) => i,
                None => entries.len() as int,
            };
            let before = match found {
                Some(i) => entries[i].2,
                None => zero_stats(),
            };
            &&& r.len() == if found is Some { entries.len() } else { entries.len() + 1 }
            &&& 0 <= at < r.len()
            &&& r[at].0 == k
            &&& r[at].3 == updated_at
            &&& r[at].2.request_count == adds_up_to(before.request_count, 1)
            &&& usage matches Some(u) ==> {
                &&& r[at].2.input_tokens == adds_up_to(before.input_tokens, u.input_tokens)
                &&& r[at].2.output_tokens == adds_up_to(before.output_tokens, u.output_tokens)
                &&& r[at].2.total_tokens == adds_up_to(before.total_tokens, u.total_tokens)
                &&& r[at].2.cached_tokens == adds_up_to(before.cached_tokens, u.cached_tokens)
                &&& r[at].2.reasoning_tokens == adds_up_to(before.reasoning_tokens, u.reasoning_tokens)
            }
            &&& forall|j: int| 0 <= j < entries.len() && j != at ==> #[trigger] r[j] == entries[j]
        }),
{
    if let Some(k) = nonblank(key) {
        lemma_entry_index_found(entries, k);
        let before = match entry_index(entries, k) {
            Some(i) => entries[i].2,
            None => zero_stats(),
        };
        lemma_counted_fields(before, kind, success, category, latency_ms, usage);
    }
}

/// Counts a request against an account.
pub fn upsert_account_usage_stats(
    accounts: &mut Vec<CodexLocalAccessAccountStats>,
    account_id: Option<&str>,
    account_email: Option<&str>,
    request_kind: CodexLocalAccessRequestKind,
    success: bool,
    error_category: Option<&str>,
    latency_ms: u64,
    usage: Option<&UsageCapture>,
    updated_at: i64,
)
    ensures
        account_views(final(accounts)@) == upserted(
            account_views(old(accounts)@),
            opt_str(account_id),
            opt_str(account_email),
            false,
            request_kind,
            success,
            opt_str(error_category),
            latency_ms,
            match usage {
                Some(u) => Some(*u),
                None => None,
            },
            updated_at,
        ),
{
    let id = match nonblank_exec(account_id) {
        Some(id) => id,
        None => return,
    };
    let email = match nonblank_exec(account_email) {
        Some(e) => e,
        None => String::new(),
    };
    let ghost before = account_views(accounts@);
    let mut i: usize = 0;
    while i < accounts.len()
        invariant
            i <= accounts@.len(),
            accounts@ == old(accounts)@,
            before == account_views(old(accounts)@),
            nonblank(opt_str(account_id)) == Some(id@),
            email@ == match nonblank(opt_str(account_email)) {
                Some(e) => e,
                None => Seq::<char>::empty(),
            },
            forall|j: int| 0 <= j < i ==> #[trigger] before[j].0 != id@,
        decreases accounts@.len() - i,
    {
        if str_eq(accounts[i].account_id.as_str(), id.as_str()) {
            proof {
                lemma_first_entry(before, id@, i as int);
            }
            let ghost orig = accounts@[i as int];
            let mut entry = accounts.remove(i);
            if chars_of(email.as_str()).len() > 0 {
                entry.email = email;
            }
            entry.updated_at = updated_at;
            apply_usage_stats(&mut entry.usage, request_kind, success, error_category, latency_ms, usage);
            let ghost placed = entry;
            accounts.insert(i, entry);
            proof {
                assert(accounts@ =~= old(accounts)@.update(i as int, placed));
                assert(account_views(accounts@) =~= before.update(i as int, account_views(accounts@)[i as int]));
                assert(entry_index(before, id@) == Some(i as int));
                assert(before[i as int].0 == id@);
                assert(nonblank(opt_str(account_id)) == Some(id@));
                assert(account_views(accounts@)[i as int].0 == id@);
                assert(account_views(accounts@)[i as int].2 == counted(before[i as int].2, request_kind, success, opt_str(error_category), latency_ms, match usage {
                        Some(u) => Some(*u),
                        None => None,
                    }));
                assert(account_views(accounts@)[i as int].3 == updated_at);
                assert(account_views(accounts@) =~= upserted(
                    before,
                    opt_str(account_id),
                    opt_str(account_email),
                    false,
                    request_kind,
                    success,
                    opt_str(error_category),
                    latency_ms,
                    match usage {
                        Some(u) => Some(*u),
                        None => None,
                    },
                    updated_at,
                ));
            }
            return;
        }
        i = i + 1;
    }
    let mut stats = CodexLocalAccessUsageStats::default();
    apply_usage_stats(&mut stats, request_kind, success, error_category, latency_ms, usage);
    accounts.push(CodexLocalAccessAccountStats { account_id: id, email, usage: stats, updated_at });
    proof {
        assert(account_views(accounts@) =~= before.push(account_views(accounts@).last()));
    }
}

/// Counts a request against a client key.
pub fn upsert_api_key_usage_stats(
    api_keys: &mut Vec<CodexLocalAccessApiKeyStats>,
    api_key_id: Option<&str>,
    api_key_label: Option<&str>,
    request_kind: CodexLocalAccessRequestKind,
    success: bool,
    error_category: Option<&str>,
    latency_ms: u64,
    usage: Option<&UsageCapture>,
    updated_at: i64,
)
    ensures
        api_key_views(final(api_keys)@) == upserted(
            api_key_views(old(api_keys)@),
            opt_str(api_key_id),
            opt_str(api_key_label),
            false,
            request_kind,
            success,
            opt_str(error_category),
            latency_ms,
            match usage {
                Some(u) => Some(*u),
                None => None,
            },
            updated_at,
        ),
{
    let id = match nonblank_exec(api_key_id) {
        Some(id) => id,
        None => return,
    };
    let label = match nonblank_exec(api_key_label) {
        Some(e) => e,
        None => String::new(),
    };
    let ghost before = api_key_views(api_keys@);
    let mut i: usize = 0;
    while i < api_keys.len()
        invariant
            i <= api_keys@.len(),
            api_keys@ == old(api_keys)@,
            before == api_key_views(old(api_keys)@),
            nonblank(opt_str(api_key_id)) == Some(id@),
            label@ == match nonblank(opt_str(api_key_label)) {
                Some(e) => e,
                None => Seq::<char>::empty(),
            },
            forall|j: int| 0 <= j < i ==> #[trigger] before[j].0 != id@,
        decreases api_keys@.len() - i,
    {
        if str_eq(api_keys[i].api_key_id.as_str(), id.as_str()) {
            proof {
                lemma_first_entry(before, id@, i as int);
            }
            let ghost orig = api_keys@[i as int];
            let mut entry = api_keys.remove(i);
            if chars_of(label.as_str()).len() > 0 {
                entry.label = label;
            }
            entry.updated_at = updated_at;
            apply_usage_stats(&mut entry.usage, request_kind, success, error_category, latency_ms, usage);
            let ghost placed = entry;
            api_keys.insert(i, entry);
            proof {
                assert(api_keys@ =~= old(api_keys)@.update(i as int, placed));
                assert(api_key_views(api_keys@) =~= before.update(i as int, api_key_views(api_keys@)[i as int]));
                assert(api_key_views(api_keys@) =~= upserted(
                    before,
                    opt_str(api_key_id),
                    opt_str(api_key_label),
                    false,
                    request_kind,
                    success,
                    opt_str(error_category),
                    latency_ms,
                    match usage {
                        Some(u) => Some(*u),
                        None => None,
                    },
                    updated_at,
                ));
            }
            return;
        }
        i = i + 1;
    }
    let mut stats = CodexLocalAccessUsageStats::default();
    apply_usage_stats(&mut stats, request_kind, success, error_category, latency_ms, usage);
    api_keys.push(CodexLocalAccessApiKeyStats { api_key_id: id, label, usage: stats, updated_at });
    proof {
        assert(api_key_views(api_keys@) =~= before.push(api_key_views(api_keys@).last()));
    }
}

/// Counts a request against a model.
pub fn upsert_model_usage_stats(
    models: &mut Vec<CodexLocalAccessModelStats>,
    model_id: Option<&str>,
    request_kind: CodexLocalAccessRequestKind,
    success: bool,
    error_category: Option<&str>,
    latency_ms: u64,
    usage: Option<&UsageCapture>,
    updated_at: i64,
)
    ensures
        model_views(final(models)@) == upserted(
            model_views(old(models)@),
            opt_str(model_id),
            None,
            true,
            request_kind,
            success,
            opt_str(error_category),
            latency_ms,
            match usage {
                Some(u) => Some(*u),
                None => None,
            },
            updated_at,
        ),
{
    let id = match nonblank_exec(model_id) {
        Some(id) => id,
        None => return,
    };
    let ghost before = model_views(models@);
    let mut i: usize = 0;
    while i < models.len()
        invariant
            i <= models@.len(),
            models@ == old(models)@,
            before == model_views(old(models)@),
            nonblank(opt_str(model_id)) == Some(id@),
            forall|j: int| 0 <= j < i ==> #[trigger] before[j].0 != id@,
        decreases models@.len() - i,
    {
        if str_eq(models[i].model_id.as_str(), id.as_str()) {
            proof {
                lemma_first_entry(before, id@, i as int);
            }
            let ghost orig = models@[i as int];
            let mut entry = models.remove(i);
            entry.updated_at = updated_at;
            apply_usage_stats(&mut entry.usage, request_kind, success, error_category, latency_ms, usage);
            let ghost placed = entry;
            models.insert(i, entry);
            proof {
                assert(models@ =~= old(models)@.update(i as int, placed));
                assert(model_views(models@) =~= before.update(i as int, model_views(models@)[i as int]));
                assert(model_views(models@) =~= upserted(
                    before,
                    opt_str(model_id),
                    None,
                    true,
                    request_kind,
                    success,
                    opt_str(error_category),
                    latency_ms,
                    match usage {
                        Some(u) => Some(*u),
                        None => None,
                    },
                    updated_at,
                ));
            }
            return;
        }
        i = i + 1;
    }
    let mut stats = CodexLocalAccessUsageStats::default();
    apply_usage_stats(&mut stats, request_kind, success, error_category, latency_ms, usage);
    models.push(CodexLocalAccessModelStats { model_id: id, usage: stats, updated_at });
    proof {
        assert(model_views(models@) =~= before.push(model_views(models@).last()));
    }
}

/// One recorded request.
#[derive(Debug, Clone)]
pub struct CodexLocalAccessUsageEvent {
    pub timestamp: i64,
    pub account_id: String,
    pub email: String,
    pub api_key_id: String,
    pub api_key_label: String,
    pub model_id: String,
    pub request_kind: CodexLocalAccessRequestKind,
    pub success: bool,
    pub error_category: String,
    pub latency_ms: u64,
    pub input_tokens: u64,
    pub output_tokens: u64,
    pub total_tokens: u64,
    pub cached_tokens: u64,
    pub reasoning_tokens: u64,
}

/// The totals over a time window.
#[derive(Debug, Clone)]
pub struct CodexLocalAccessStatsWindow {
    pub since: i64,
    pub updated_at: i64,
    pub totals: CodexLocalAccessUsageStats,
    pub accounts: Vec<CodexLocalAccessAccountStats>,
    pub models: Vec<CodexLocalAccessModelStats>,
    pub api_keys: Vec<CodexLocalAccessApiKeyStats>,
}

/// A window with nothing counted yet.
pub fn empty_stats_window(since: i64, updated_at: i64) -> (r: CodexLocalAccessStatsWindow)
    ensures
        r.since == since,
        r.updated_at == updated_at,
        r.totals == zero_stats(),
        r.accounts@.len() == 0,
        r.models@.len() == 0,
        r.api_keys@.len() == 0,
{
    CodexLocalAccessStatsWindow {
        since,
        updated_at,
        totals: CodexLocalAccessUsageStats::default(),
        accounts: Vec::new(),
        models: Vec::new(),
        api_keys: Vec::new(),
    }
}

/// The token counts an event carries.
pub open spec fn event_usage(e: CodexLocalAccessUsageEvent) -> UsageCapture {
    UsageCapture {
        input_tokens: e.input_tokens,
        output_tokens: e.output_tokens,
        total_tokens: e.total_tokens,
        cached_tokens: e.cached_tokens,
        reasoning_tokens: e.reasoning_tokens,
    }
}

/// Counts an event in a window: in its totals, against its account, its
/// model and its client key; the window's time becomes the later of the two.
pub fn apply_usage_event_to_window(window: &mut CodexLocalAccessStatsWindow, event: &CodexLocalAccessUsageEvent)
    ensures
        final(window).since == old(window).since,
        final(window).totals == counted(
            old(window).totals,
            event.request_kind,
            event.success,
            Some(event.error_category@),
            event.latency_ms,
            Some(event_usage(*event)),
        ),
        account_views(final(window).accounts@) == upserted(
            account_views(old(window).accounts@),
            Some(event.account_id@),
            Some(event.email@),
            false,
            event.request_kind,
            event.success,
            Some(event.error_category@),
            event.latency_ms,
            Some(event_usage(*event)),
            event.timestamp,
        ),
        model_views(final(window).models@) == upserted(
            model_views(old(window).models@),
            Some(event.model_id@),
            None,
            true,
            event.request_kind,
            event.success,
            Some(event.error_category@),
            event.latency_ms,
            Some(event_usage(*event)),
            event.timestamp,
        ),
        api_key_views(final(window).api_keys@) == upserted(
            api_key_views(old(window).api_keys@),
            Some(event.api_key_id@),
            Some(event.api_key_label@),
            false,
            event.request_kind,
            event.success,
            Some(event.error_category@),
            event.latency_ms,
            Some(event_usage(*event)),
            event.timestamp,
        ),
        final(window).updated_at == if old(window).updated_at >= event.timestamp {
            old(window).updated_at
        } else {
            event.timestamp
        },
{
    let usage = UsageCapture {
        input_tokens: event.input_tokens,
        output_tokens: event.output_tokens,
        total_tokens: event.total_tokens,
        cached_tokens: event.cached_tokens,
        reasoning_tokens: event.reasoning_tokens,
    };
    let category = Some(event.error_category.as_str());
    apply_usage_stats(
        &mut window.totals,
        event.request_kind,
        event.success,
        category,
        event.latency_ms,
        Some(&usage),
    );
    upsert_account_usage_stats(
        &mut window.accounts,
        Some(event.account_id.as_str()),
        Some(event.email.as_str()),
        event.request_kind,
        event.success,
        category,
        event.latency_ms,
        Some(&usage),
        event.timestamp,
    );
    upsert_model_usage_stats(
        &mut window.models,
        Some(event.model_id.as_str()),
        event.request_kind,
        event.success,
        category,
        event.latency_ms,
        Some(&usage),
        event.timestamp,
    );
    upsert_api_key_usage_stats(
        &mut window.api_keys,
        Some(event.api_key_id.as_str()),
        Some(event.api_key_label.as_str()),
        event.request_kind,
        event.success,
        category,
        event.latency_ms,
        Some(&usage),
        event.timestamp,
    );
    if event.timestamp > window.updated_at {
        window.updated_at = event.timestamp;
    }
}

} // verus!
