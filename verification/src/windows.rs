//! The order in which usage totals are listed, the recent events kept, and
//! the daily, weekly and monthly windows recomputed from them.
use vstd::prelude::*;
use crate::http::CodexLocalAccessRequestKind;
use crate::stats::{
    account_views, api_key_views, apply_usage_event_to_window, apply_usage_stats, counted, empty_stats_window,
    entry_index, event_usage, model_views, nonblank, opt_str, upsert_account_usage_stats,
    upsert_api_key_usage_stats, upsert_model_usage_stats, upserted, zero_stats, CodexLocalAccessAccountStats,
    CodexLocalAccessApiKeyStats, CodexLocalAccessModelStats, CodexLocalAccessStatsWindow,
    CodexLocalAccessUsageEvent, CodexLocalAccessUsageStats, EntryView,
};
use crate::usage::UsageCapture;
use crate::clock::now_ms;
use crate::text::{chars_of, string_of, trim, trim_vec};
use vstd::multiset::Multiset;

verus! {

broadcast use vstd::multiset::group_multiset_axioms, vstd::seq_lib::group_to_multiset_ensures;

// ---------------------------------------------------------------------------
// Text order
// ---------------------------------------------------------------------------

/// Lexicographic order of texts by code point, which is the order `str`
/// compares in (UTF-8 preserves it).
pub open spec fn text_le(a: Seq<char>, b: Seq<char>) -> bool
    decreases a.len(),
{
    if a.len() == 0 {
        true
    } else if b.len() == 0 {
        false
    } else if (a[0] as u32) != (b[0] as u32) {
        (a[0] as u32) < (b[0] as u32)
    } else {
        text_le(a.drop_first(), b.drop_first())
    }
}

pub proof fn lemma_text_le_total(a: Seq<char>, b: Seq<char>)
    ensures
        text_le(a, b) || text_le(b, a),
    decreases a.len(),
{
    if a.len() > 0 && b.len() > 0 && (a[0] as u32) == (b[0] as u32) {
        lemma_text_le_total(a.drop_first(), b.drop_first());
    }
}

pub proof fn lemma_text_le_transitive(a: Seq<char>, b: Seq<char>, c: Seq<char>)
    requires
        text_le(a, b),
        text_le(b, c),
    ensures
        text_le(a, c),
    decreases a.len(),
{
    if a.len() > 0 && b.len() > 0 && c.len() > 0 && (a[0] as u32) == (b[0] as u32) && (b[0] as u32)
        == (c[0] as u32) {
        lemma_text_le_transitive(a.drop_first(), b.drop_first(), c.drop_first());
    }
}

pub proof fn lemma_text_le_antisymmetric(a: Seq<char>, b: Seq<char>)
    requires
        text_le(a, b),
        text_le(b, a),
    ensures
        a == b,
    decreases a.len(),
{
    if a.len() > 0 && b.len() > 0 {
        vstd::utf8::char_u32_cast(a[0], a[0] as u32);
        vstd::utf8::char_u32_cast(b[0], b[0] as u32);
        lemma_text_le_antisymmetric(a.drop_first(), b.drop_first());
        assert(a =~= seq![a[0]] + a.drop_first());
        assert(b =~= seq![b[0]] + b.drop_first());
    }
}

pub(crate) fn text_le_exec(a: &Vec<char>, b: &Vec<char>) -> (r: bool)
    ensures
        r == text_le(a@, b@),
{
    let mut i: usize = 0;
    proof {
        assert(a@.skip(0) =~= a@);
        assert(b@.skip(0) =~= b@);
    }
    while i < a.len() && i < b.len() && (a[i] as u32) == (b[i] as u32)
        invariant
            i <= a@.len(),
            i <= b@.len(),
            text_le(a@, b@) == text_le(a@.skip(i as int), b@.skip(i as int)),
        decreases a@.len() - i,
    {
        proof {
            assert(a@.skip(i as int).drop_first() =~= a@.skip(i as int + 1));
            assert(b@.skip(i as int).drop_first() =~= b@.skip(i as int + 1));
        }
        i = i + 1;
    }
    if i == a.len() {
        true
    } else if i == b.len() {
        false
    } else {
        (a[i] as u32) < (b[i] as u32)
    }
}

// ---------------------------------------------------------------------------
// The order of usage totals
// ---------------------------------------------------------------------------

/// `a` is listed no later than `b`: more requests first, then the more
/// recently updated, then by key.
pub open spec fn entry_le(a: EntryView, b: EntryView) -> bool {
    ||| a.2.request_count > b.2.request_count
    ||| a.2.request_count == b.2.request_count && a.3 > b.3
    ||| a.2.request_count == b.2.request_count && a.3 == b.3 && text_le(a.0, b.0)
}

pub proof fn lemma_entry_le_total(a: EntryView, b: EntryView)
    ensures
        entry_le(a, b) || entry_le(b, a),
{
    lemma_text_le_total(a.0, b.0);
}

pub proof fn lemma_entry_le_transitive(a: EntryView, b: EntryView, c: EntryView)
    requires
        entry_le(a, b),
        entry_le(b, c),
    ensures
        entry_le(a, c),
{
    if a.2.request_count == b.2.request_count && b.2.request_count == c.2.request_count && a.3 == b.3
        && b.3 == c.3 {
        lemma_text_le_transitive(a.0, b.0, c.0);
    }
}

/// A list of usage totals: each entry seen as its key, name, counters and time.
pub trait UsageEntry: Sized {
    spec fn entry(&self) -> EntryView;

    fn entry_count(&self) -> (r: u64)
        ensures
            r == self.entry().2.request_count,
    ;

    fn entry_time(&self) -> (r: i64)
        ensures
            r == self.entry().3,
    ;

    fn entry_key(&self) -> (r: Vec<char>)
        ensures
            r@ == self.entry().0,
    ;
}

impl UsageEntry for CodexLocalAccessAccountStats {
    open spec fn entry(&self) -> EntryView {
        (self.account_id@, self.email@, self.usage, self.updated_at)
    }

    fn entry_count(&self) -> (r: u64) {
        self.usage.request_count
    }

    fn entry_time(&self) -> (r: i64) {
        self.updated_at
    }

    fn entry_key(&self) -> (r: Vec<char>) {
        chars_of(self.account_id.as_str())
    }
}

impl UsageEntry for CodexLocalAccessModelStats {
    open spec fn entry(&self) -> EntryView {
        (self.model_id@, Seq::<char>::empty(), self.usage, self.updated_at)
    }

    fn entry_count(&self) -> (r: u64) {
        self.usage.request_count
    }

    fn entry_time(&self) -> (r: i64) {
        self.updated_at
    }

    fn entry_key(&self) -> (r: Vec<char>) {
        chars_of(self.model_id.as_str())
    }
}

impl UsageEntry for CodexLocalAccessApiKeyStats {
    open spec fn entry(&self) -> EntryView {
        (self.api_key_id@, self.label@, self.usage, self.updated_at)
    }

    fn entry_count(&self) -> (r: u64) {
        self.usage.request_count
    }

    fn entry_time(&self) -> (r: i64) {
        self.updated_at
    }

    fn entry_key(&self) -> (r: Vec<char>) {
        chars_of(self.api_key_id.as_str())
    }
}

/// The entries of a list, as values.
pub open spec fn entries_of<T: UsageEntry>(v: Seq<T>) -> Seq<EntryView> {
    v.map_values(|t: T| t.entry())
}

/// Entries listed in order.
pub open spec fn views_sorted(s: Seq<EntryView>) -> bool {
    forall|i: int, j: int| 0 <= i < j < s.len() ==> entry_le(#[trigger] s[i], #[trigger] s[j])
}

/// The entries are listed in order.
pub open spec fn entries_sorted<T: UsageEntry>(v: Seq<T>) -> bool {
    views_sorted(entries_of(v))
}

fn entry_le_exec<T: UsageEntry>(a: &T, b: &T) -> (r: bool)
    ensures
        r == entry_le(a.entry(), b.entry()),
{
    let (ac, bc) = (a.entry_count(), b.entry_count());
    if ac != bc {
        return ac > bc;
    }
    let (at, bt) = (a.entry_time(), b.entry_time());
    if at != bt {
        return at > bt;
    }
    text_le_exec(&a.entry_key(), &b.entry_key())
}

/// Lists usage totals in order, each entry placed after those before it that
/// do not come later: the same entries, sorted.
pub fn sort_usage_entries<T: UsageEntry>(v: &mut Vec<T>)
    ensures
        entries_sorted(final(v)@),
        final(v)@.to_multiset() == old(v)@.to_multiset(),
        entries_of(final(v)@).to_multiset() == entries_of(old(v)@).to_multiset(),
{
    let ghost orig = v@;
    let mut src: Vec<T> = Vec::new();
    std::mem::swap(&mut src, v);
    proof {
        assert(v@.to_multiset() =~= Multiset::<T>::empty());
        assert(entries_of(v@).to_multiset() =~= Multiset::<EntryView>::empty());
        assert(v@.to_multiset().add(src@.to_multiset()) =~= orig.to_multiset());
        assert(entries_of(v@).to_multiset().add(entries_of(src@).to_multiset()) =~= entries_of(orig).to_multiset());
    }
    while src.len() > 0
        invariant
            entries_sorted(v@),
            v@.to_multiset().add(src@.to_multiset()) == orig.to_multiset(),
            entries_of(v@).to_multiset().add(entries_of(src@).to_multiset()) == entries_of(orig).to_multiset(),
        decreases src@.len(),
    {
        let ghost before_src = src@;
        let x = src.remove(0);
        let mut p: usize = 0;
        while p < v.len() && entry_le_exec(&v[p], &x)
            invariant
                p <= v@.len(),
                forall|k: int| 0 <= k < p ==> entry_le(#[trigger] v@[k].entry(), x.entry()),
            decreases v@.len() - p,
        {
            p = p + 1;
        }
        let ghost w0 = v@;
        v.insert(p, x);
        proof {
            let w = v@;
            let e0 = entries_of(w0);
            let e = entries_of(w);
            assert(w =~= w0.insert(p as int, x));
            assert(e =~= e0.insert(p as int, x.entry()));
            assert forall|i: int, j: int| 0 <= i < j < e.len() implies entry_le(#[trigger] e[i], #[trigger] e[j]) by {
                if j < p {
                    assert(e[i] == e0[i] && e[j] == e0[j]);
                } else if j == p {
                    assert(e[i] == e0[i] && e0[i] == w0[i].entry());
                } else if i < p {
                    assert(e[i] == e0[i] && e[j] == e0[j - 1]);
                } else if i == p {
                    assert(e[j] == e0[j - 1]);
                    assert(e0[p as int] == w0[p as int].entry());
                    assert(!entry_le(e0[p as int], x.entry()));
                    lemma_entry_le_total(e0[p as int], x.entry());
                    if j - 1 > p {
                        assert(entry_le(e0[p as int], e0[j - 1]));
                        lemma_entry_le_transitive(x.entry(), e0[p as int], e0[j - 1]);
                    }
                } else {
                    assert(e[i] == e0[i - 1] && e[j] == e0[j - 1]);
                }
            }
            assert(before_src.remove(0).to_multiset() =~= before_src.to_multiset().remove(x));
            assert(before_src.to_multiset().contains(x));
            assert(v@.to_multiset().add(src@.to_multiset()) =~= orig.to_multiset());
            let es = entries_of(before_src);
            assert(entries_of(src@) =~= es.remove(0));
            assert(es.remove(0).to_multiset() =~= es.to_multiset().remove(x.entry()));
            assert(es[0] == x.entry());
            assert(es.to_multiset().contains(x.entry()));
            assert(entries_of(v@).to_multiset().add(entries_of(src@).to_multiset()) =~= entries_of(
                orig,
            ).to_multiset());
        }
    }
    proof {
        assert(src@.to_multiset() =~= Multiset::<T>::empty());
        assert(entries_of(src@).to_multiset() =~= Multiset::<EntryView>::empty());
        assert(v@.to_multiset() =~= orig.to_multiset());
        assert(entries_of(v@).to_multiset() =~= entries_of(orig).to_multiset());
    }
}

/// Listing is determined by the entries: two ordered lists of the same
/// entries, no two of which share a key, are the same list.
pub proof fn lemma_sorted_entries_unique(x: Seq<EntryView>, y: Seq<EntryView>)
    requires
        views_sorted(x),
        views_sorted(y),
        x.to_multiset() == y.to_multiset(),
        forall|i: int, j: int| 0 <= i < j < x.len() ==> (#[trigger] x[i]).0 != (#[trigger] x[j]).0,
    ensures
        x == y,
    decreases x.len(),
{
    if x.len() == 0 || y.len() == 0 {
        assert(x.to_multiset().len() == x.len());
        assert(y.to_multiset().len() == y.len());
        assert(x =~= y);
    } else {
        assert(x.to_multiset().contains(y[0]));
        assert(y.to_multiset().contains(x[0]));
        let i = choose|i: int| 0 <= i < x.len() && x[i] == y[0];
        let k = choose|k: int| 0 <= k < y.len() && y[k] == x[0];
        if i != 0 {
            assert(entry_le(x[0], x[i]));
            if k != 0 {
                assert(entry_le(y[0], y[k]));
            }
            lemma_text_le_antisymmetric(x[0].0, x[i].0);
            assert(false);
        }
        assert(x[0] == y[0]);
        assert(x.drop_first() =~= x.remove(0));
        assert(y.drop_first() =~= y.remove(0));
        assert(x.remove(0).to_multiset() == x.to_multiset().remove(x[0]));
        assert(y.remove(0).to_multiset() == y.to_multiset().remove(y[0]));
        assert forall|a: int, b: int| 0 <= a < b < x.drop_first().len() implies (
        #[trigger] x.drop_first()[a]).0 != (#[trigger] x.drop_first()[b]).0 by {
            assert(x.drop_first()[a] == x[a + 1] && x.drop_first()[b] == x[b + 1]);
        }
        assert forall|a: int, b: int| 0 <= a < b < x.drop_first().len() implies entry_le(
            #[trigger] x.drop_first()[a],
            #[trigger] x.drop_first()[b],
        ) by {
            assert(x.drop_first()[a] == x[a + 1] && x.drop_first()[b] == x[b + 1]);
        }
        assert forall|a: int, b: int| 0 <= a < b < y.drop_first().len() implies entry_le(
            #[trigger] y.drop_first()[a],
            #[trigger] y.drop_first()[b],
        ) by {
            assert(y.drop_first()[a] == y[a + 1] && y.drop_first()[b] == y[b + 1]);
        }
        lemma_sorted_entries_unique(x.drop_first(), y.drop_first());
        assert(x =~= seq![x[0]] + x.drop_first());
        assert(y =~= seq![y[0]] + y.drop_first());
    }
}

/// Lists account totals in order: most requests first, then the most
/// recently updated, then by account id.
pub fn sort_usage_accounts(accounts: &mut Vec<CodexLocalAccessAccountStats>)
    ensures
        entries_sorted(final(accounts)@),
        final(accounts)@.to_multiset() == old(accounts)@.to_multiset(),
        entries_of(final(accounts)@).to_multiset() == entries_of(old(accounts)@).to_multiset(),
{
    sort_usage_entries(accounts);
}

/// Lists model totals in order: most requests first, then the most recently
/// updated, then by model id.
pub fn sort_usage_models(models: &mut Vec<CodexLocalAccessModelStats>)
    ensures
        entries_sorted(final(models)@),
        final(models)@.to_multiset() == old(models)@.to_multiset(),
        entries_of(final(models)@).to_multiset() == entries_of(old(models)@).to_multiset(),
{
    sort_usage_entries(models);
}

/// Lists client key totals in order: most requests first, then the most
/// recently updated, then by key id.
pub fn sort_usage_api_keys(api_keys: &mut Vec<CodexLocalAccessApiKeyStats>)
    ensures
        entries_sorted(final(api_keys)@),
        final(api_keys)@.to_multiset() == old(api_keys)@.to_multiset(),
        entries_of(final(api_keys)@).to_multiset() == entries_of(old(api_keys)@).to_multiset(),
{
    sort_usage_entries(api_keys);
}

// ---------------------------------------------------------------------------
// Recent events
// ---------------------------------------------------------------------------

/// An event is kept when it has a time and lies in the month window.
pub open spec fn kept_event(e: CodexLocalAccessUsageEvent, month_since: i64) -> bool {
    e.timestamp > 0 && e.timestamp >= month_since
}

/// The events kept, in order.
pub open spec fn kept_events(s: Seq<CodexLocalAccessUsageEvent>, month_since: i64) -> Seq<
    CodexLocalAccessUsageEvent,
>
    decreases s.len(),
{
    if s.len() == 0 {
        Seq::empty()
    } else if kept_event(s[0], month_since) {
        seq![s[0]] + kept_events(s.drop_first(), month_since)
    } else {
        kept_events(s.drop_first(), month_since)
    }
}

/// The events are in time order.
pub open spec fn events_in_time_order(v: Seq<CodexLocalAccessUsageEvent>) -> bool {
    forall|i: int, j: int| 0 <= i < j < v.len() ==> (#[trigger] v[i]).timestamp <= (#[trigger] v[j]).timestamp
}

/// Keeps the events of the month window that have a time, in time order
/// (events of the same time keep their order).
pub fn trim_recent_events(events: &mut Vec<CodexLocalAccessUsageEvent>, month_since: i64)
    ensures
        final(events)@.to_multiset() == kept_events(old(events)@, month_since).to_multiset(),
        events_in_time_order(final(events)@),
{
    let ghost orig = events@;
    let mut src: Vec<CodexLocalAccessUsageEvent> = Vec::new();
    std::mem::swap(&mut src, events);
    proof {
        assert(events@.to_multiset() =~= Multiset::<CodexLocalAccessUsageEvent>::empty());
        assert(events@.to_multiset().add(kept_events(src@, month_since).to_multiset()) =~= kept_events(
            orig,
            month_since,
        ).to_multiset());
    }
    while src.len() > 0
        invariant
            events_in_time_order(events@),
            events@.to_multiset().add(kept_events(src@, month_since).to_multiset()) == kept_events(
                orig,
                month_since,
            ).to_multiset(),
        decreases src@.len(),
    {
        let ghost before_src = src@;
        let x = src.remove(0);
        proof {
            assert(before_src.drop_first() =~= src@);
            assert(before_src[0] == x);
        }
        if x.timestamp > 0 && x.timestamp >= month_since {
            let mut p: usize = 0;
            while p < events.len() && events[p].timestamp <= x.timestamp
                invariant
                    p <= events@.len(),
                    forall|k: int| 0 <= k < p ==> (#[trigger] events@[k]).timestamp <= x.timestamp,
                decreases events@.len() - p,
            {
                p = p + 1;
            }
            let ghost w0 = events@;
            events.insert(p, x);
            proof {
                let w = events@;
                assert(w =~= w0.insert(p as int, x));
                assert forall|i: int, j: int| 0 <= i < j < w.len() implies (#[trigger] w[i]).timestamp
                    <= (#[trigger] w[j]).timestamp by {
                    if j < p {
                        assert(w[i] == w0[i] && w[j] == w0[j]);
                    } else if j == p {
                        assert(w[i] == w0[i]);
                    } else if i < p {
                        assert(w[i] == w0[i] && w[j] == w0[j - 1]);
                    } else if i == p {
                        assert(w[j] == w0[j - 1]);
                        if j - 1 > p {
                            assert(w0[p as int].timestamp <= w0[j - 1].timestamp);
                        }
                    } else {
                        assert(w[i] == w0[i - 1] && w[j] == w0[j - 1]);
                    }
                }
                assert(kept_events(before_src, month_since) == seq![x] + kept_events(src@, month_since));
                vstd::seq_lib::lemma_multiset_commutative(seq![x], kept_events(src@, month_since));
                assert(seq![x].to_multiset() =~= Multiset::<CodexLocalAccessUsageEvent>::empty().insert(x)) by {
                    assert(seq![x] =~= Seq::<CodexLocalAccessUsageEvent>::empty().push(x));
                }
                assert(events@.to_multiset().add(kept_events(src@, month_since).to_multiset())
                    =~= kept_events(orig, month_since).to_multiset());
            }
        } else {
            proof {
                assert(kept_events(before_src, month_since) == kept_events(src@, month_since));
            }
        }
    }
    proof {
        assert(kept_events(src@, month_since) =~= Seq::<CodexLocalAccessUsageEvent>::empty());
        assert(events@.to_multiset() =~= kept_events(orig, month_since).to_multiset());
    }
}


// ---------------------------------------------------------------------------
// Keys stay distinct
// ---------------------------------------------------------------------------

/// No two entries share a key.
pub open spec fn keys_distinct(s: Seq<EntryView>) -> bool {
    forall|i: int, j: int| 0 <= i < j < s.len() ==> (#[trigger] s[i]).0 != (#[trigger] s[j]).0
}

/// Counting a request against a key never lists a key twice.
pub proof fn lemma_upserted_keeps_keys_distinct(
    entries: Seq<EntryView>,
    key: Option<Seq<char>>,
    name: Option<Seq<char>>,
    keep_name: bool,
    kind: CodexLocalAccessRequestKind,
    success: bool,
    category: Option<Seq<char>>,
    latency_ms: u64,
    usage: Option<UsageCapture>,
    updated_at: i64,
)
    requires
        keys_distinct(entries),
    ensures
        keys_distinct(
            upserted(entries, key, name, keep_name, kind, success, category, latency_ms, usage, updated_at),
        ),
{
    let r = upserted(entries, key, name, keep_name, kind, success, category, latency_ms, usage, updated_at);
    match nonblank(key) {
        None => {},
        Some(k) => {
            match entry_index(entries, k) {
                Some(i) => {
                    assert(0 <= i < entries.len() && entries[i].0 == k);
                    assert forall|a: int, b: int| 0 <= a < b < r.len() implies (#[trigger] r[a]).0 != (
                    #[trigger] r[b]).0 by {
                        assert(r[a].0 == entries[a].0);
                        assert(r[b].0 == entries[b].0);
                    }
                },
                None => {
                    assert forall|a: int, b: int| 0 <= a < b < r.len() implies (#[trigger] r[a]).0 != (
                    #[trigger] r[b]).0 by {
                        if b == entries.len() {
                            assert(entries[a].0 != k);
                        } else {
                            assert(r[a] == entries[a] && r[b] == entries[b]);
                        }
                    }
                },
            }
        },
    }
}

// ---------------------------------------------------------------------------
// Time windows
// ---------------------------------------------------------------------------

pub const DAY_WINDOW_MS: i64 = 24 * 60 * 60 * 1000;

pub const WEEK_WINDOW_MS: i64 = 7 * DAY_WINDOW_MS;

pub const MONTH_WINDOW_MS: i64 = 30 * DAY_WINDOW_MS;

/// The start of a window of the given length that ends now (saturating).
pub open spec fn window_start(now: i64, length: i64) -> i64 {
    if now - length < i64::MIN {
        i64::MIN
    } else {
        (now - length) as i64
    }
}

fn window_start_exec(now: i64, length: i64) -> (r: i64)
    requires
        length >= 0,
    ensures
        r == window_start(now, length),
{
    if now < i64::MIN + length {
        i64::MIN
    } else {
        now - length
    }
}

/// A window as values: its start, its time, its totals, and its account,
/// model and client key entries.
pub type WindowView = (i64, i64, CodexLocalAccessUsageStats, Seq<EntryView>, Seq<EntryView>, Seq<EntryView>);

pub open spec fn window_view(w: CodexLocalAccessStatsWindow) -> WindowView {
    (w.since, w.updated_at, w.totals, account_views(w.accounts@), model_views(w.models@), api_key_views(w.api_keys@))
}

/// A window with one more event counted (what `apply_usage_event_to_window` does).
pub open spec fn window_with(w: WindowView, e: CodexLocalAccessUsageEvent) -> WindowView {
    let cat = Some(e.error_category@);
    let u = Some(event_usage(e));
    (
        w.0,
        if w.1 >= e.timestamp {
            w.1
        } else {
            e.timestamp
        },
        counted(w.2, e.request_kind, e.success, cat, e.latency_ms, u),
        upserted(w.3, Some(e.account_id@), Some(e.email@), false, e.request_kind, e.success, cat, e.latency_ms, u, e.timestamp),
        upserted(w.4, Some(e.model_id@), None, true, e.request_kind, e.success, cat, e.latency_ms, u, e.timestamp),
        upserted(w.5, Some(e.api_key_id@), Some(e.api_key_label@), false, e.request_kind, e.success, cat, e.latency_ms, u, e.timestamp),
    )
}

/// Counting an event in a window: the window's totals gain one request and
/// each of the event's token counts (input into input, output into output,
/// and so on, saturating); its time becomes the later of its own and the
/// event's; its start stays.
pub proof fn lemma_window_with_counts(w: WindowView, e: CodexLocalAccessUsageEvent)
    ensures
        ({
            let r = window_with(w, e);
            &&& r.0 == w.0
            &&& r.1 == if w.1 >= e.timestamp { w.1 } else { e.timestamp }
            &&& r.2.request_count == crate::stats::adds_up_to(w.2.request_count, 1)
            &&& r.2.input_tokens == crate::stats::adds_up_to(w.2.input_tokens, e.input_tokens)
            &&& r.2.output_tokens == crate::stats::adds_up_to(w.2.output_tokens, e.output_tokens)
            &&& r.2.total_tokens == crate::stats::adds_up_to(w.2.total_tokens, e.total_tokens)
            &&& r.2.cached_tokens == crate::stats::adds_up_to(w.2.cached_tokens, e.cached_tokens)
            &&& r.2.reasoning_tokens == crate::stats::adds_up_to(w.2.reasoning_tokens, e.reasoning_tokens)
            &&& r.2.total_latency_ms == crate::stats::adds_up_to(w.2.total_latency_ms, e.latency_ms)
        }),
{
    crate::stats::lemma_counted_fields(
        w.2,
        e.request_kind,
        e.success,
        Some(e.error_category@),
        e.latency_ms,
        Some(event_usage(e)),
    );
}

/// The window starting at `since` over a list of events: an empty window
/// with the given time, then each event at or after the start counted, in
/// order.
pub open spec fn window_of(events: Seq<CodexLocalAccessUsageEvent>, since: i64, updated_at: i64) -> WindowView
    decreases events.len(),
{
    if events.len() == 0 {
        (since, updated_at, zero_stats(), Seq::empty(), Seq::empty(), Seq::empty())
    } else {
        let w = window_of(events.drop_last(), since, updated_at);
        if events.last().timestamp >= since {
            window_with(w, events.last())
        } else {
            w
        }
    }
}

/// A window holds what a window view says, its lists in order.
pub open spec fn window_matches(win: CodexLocalAccessStatsWindow, w: WindowView) -> bool {
    &&& win.since == w.0
    &&& win.updated_at == w.1
    &&& win.totals == w.2
    &&& entries_sorted(win.accounts@)
    &&& entries_of(win.accounts@).to_multiset() == w.3.to_multiset()
    &&& entries_sorted(win.models@)
    &&& entries_of(win.models@).to_multiset() == w.4.to_multiset()
    &&& entries_sorted(win.api_keys@)
    &&& entries_of(win.api_keys@).to_multiset() == w.5.to_multiset()
}

/// The usage statistics of the gateway: totals since it started, per
/// account, model and client key, the day, week and month windows, and the
/// recent events they are computed from.
#[derive(Debug, Clone)]
pub struct CodexLocalAccessStats {
    pub since: i64,
    pub updated_at: i64,
    pub totals: CodexLocalAccessUsageStats,
    pub accounts: Vec<CodexLocalAccessAccountStats>,
    pub models: Vec<CodexLocalAccessModelStats>,
    pub api_keys: Vec<CodexLocalAccessApiKeyStats>,
    pub daily: CodexLocalAccessStatsWindow,
    pub weekly: CodexLocalAccessStatsWindow,
    pub monthly: CodexLocalAccessStatsWindow,
    pub events: Vec<CodexLocalAccessUsageEvent>,
}

proof fn lemma_views_are_entries(w: CodexLocalAccessStatsWindow)
    ensures
        entries_of(w.accounts@) == account_views(w.accounts@),
        entries_of(w.models@) == model_views(w.models@),
        entries_of(w.api_keys@) == api_key_views(w.api_keys@),
{
    assert(entries_of(w.accounts@) =~= account_views(w.accounts@));
    assert(entries_of(w.models@) =~= model_views(w.models@));
    assert(entries_of(w.api_keys@) =~= api_key_views(w.api_keys@));
}

fn count_in_window(win: &mut CodexLocalAccessStatsWindow, event: &CodexLocalAccessUsageEvent)
    ensures
        window_view(*final(win)) == (if event.timestamp >= old(win).since {
            window_with(window_view(*old(win)), *event)
        } else {
            window_view(*old(win))
        }),
{
    if event.timestamp >= win.since {
        apply_usage_event_to_window(win, event);
    }
}

fn sort_window(win: &mut CodexLocalAccessStatsWindow)
    ensures
        window_matches(*final(win), window_view(*old(win))),
{
    proof {
        lemma_views_are_entries(*win);
    }
    sort_usage_accounts(&mut win.accounts);
    sort_usage_models(&mut win.models);
    sort_usage_api_keys(&mut win.api_keys);
}

/// The window of the given length ending at `now`, over a list of events,
/// its time the later of `updated_at` and its start.
pub open spec fn window_at(events: Seq<CodexLocalAccessUsageEvent>, now: i64, length: i64, updated_at: i64) -> WindowView {
    let since = window_start(now, length);
    window_of(
        events,
        since,
        if updated_at >= since {
            updated_at
        } else {
            since
        },
    )
}

/// Statistics whose recent events are `events` trimmed to the month before
/// `now` and put in time order, and whose day, week and month windows count
/// them.
pub open spec fn windows_recomputed(
    events: Seq<CodexLocalAccessUsageEvent>,
    updated_at: i64,
    after: CodexLocalAccessStats,
    now: i64,
) -> bool {
    &&& after.events@.to_multiset() == kept_events(events, window_start(now, MONTH_WINDOW_MS)).to_multiset()
    &&& events_in_time_order(after.events@)
    &&& window_matches(after.daily, window_at(after.events@, now, DAY_WINDOW_MS, updated_at))
    &&& window_matches(after.weekly, window_at(after.events@, now, WEEK_WINDOW_MS, updated_at))
    &&& window_matches(after.monthly, window_at(after.events@, now, MONTH_WINDOW_MS, updated_at))
}

/// Recomputes the day, week and month windows at time `now`: the recent
/// events are trimmed to the month and put in time order, and each window
/// (starting one day, seven days or thirty days before `now`, its time the
/// later of the statistics' time and its start) counts the events at or
/// after its start, its lists ordered. Everything else is kept.
pub fn recompute_time_windows(stats: &mut CodexLocalAccessStats, now: i64)
    ensures
        final(stats).since == old(stats).since,
        final(stats).updated_at == old(stats).updated_at,
        final(stats).totals == old(stats).totals,
        final(stats).accounts == old(stats).accounts,
        final(stats).models == old(stats).models,
        final(stats).api_keys == old(stats).api_keys,
        windows_recomputed(old(stats).events@, old(stats).updated_at, *final(stats), now),
{
    let day_since = window_start_exec(now, DAY_WINDOW_MS);
    let week_since = window_start_exec(now, WEEK_WINDOW_MS);
    let month_since = window_start_exec(now, MONTH_WINDOW_MS);
    trim_recent_events(&mut stats.events, month_since);
    let updated = stats.updated_at;
    let mut daily = empty_stats_window(day_since, if updated >= day_since { updated } else { day_since });
    let mut weekly = empty_stats_window(week_since, if updated >= week_since { updated } else { week_since });
    let mut monthly = empty_stats_window(
        month_since,
        if updated >= month_since {
            updated
        } else {
            month_since
        },
    );
    let ghost evs = stats.events@;
    proof {
        assert(evs.take(0) =~= Seq::<CodexLocalAccessUsageEvent>::empty());
        assert(account_views(daily.accounts@) =~= Seq::<EntryView>::empty());
        assert(model_views(daily.models@) =~= Seq::<EntryView>::empty());
        assert(api_key_views(daily.api_keys@) =~= Seq::<EntryView>::empty());
        assert(account_views(weekly.accounts@) =~= Seq::<EntryView>::empty());
        assert(model_views(weekly.models@) =~= Seq::<EntryView>::empty());
        assert(api_key_views(weekly.api_keys@) =~= Seq::<EntryView>::empty());
        assert(account_views(monthly.accounts@) =~= Seq::<EntryView>::empty());
        assert(model_views(monthly.models@) =~= Seq::<EntryView>::empty());
        assert(api_key_views(monthly.api_keys@) =~= Seq::<EntryView>::empty());
    }
    let ghost du = daily.updated_at;
    let ghost wu = weekly.updated_at;
    let ghost mu = monthly.updated_at;
    let mut i: usize = 0;
    while i < stats.events.len()
        invariant
            i <= stats.events@.len(),
            evs == stats.events@,
            daily.since == day_since,
            weekly.since == week_since,
            monthly.since == month_since,
            window_view(daily) == window_of(evs.take(i as int), day_since, du),
            window_view(weekly) == window_of(evs.take(i as int), week_since, wu),
            window_view(monthly) == window_of(evs.take(i as int), month_since, mu),
        decreases stats.events@.len() - i,
    {
        let event = &stats.events[i];
        proof {
            assert(evs.take(i as int + 1).drop_last() =~= evs.take(i as int));
            assert(evs.take(i as int + 1).last() == *event);
        }
        count_in_window(&mut monthly, event);
        count_in_window(&mut weekly, event);
        count_in_window(&mut daily, event);
        i = i + 1;
    }
    proof {
        assert(evs.take(evs.len() as int) =~= evs);
    }
    sort_window(&mut daily);
    sort_window(&mut weekly);
    sort_window(&mut monthly);
    stats.daily = daily;
    stats.weekly = weekly;
    stats.monthly = monthly;
}


/// Statistics brought into shape at time `now`: a missing start becomes
/// `now`, a missing time becomes the start, the lists are ordered, and the
/// windows are recomputed.
pub open spec fn normalized_at(before: CodexLocalAccessStats, after: CodexLocalAccessStats, now: i64) -> bool {
    &&& after.since == (if before.since <= 0 {
        now
    } else {
        before.since
    })
    &&& after.updated_at == (if before.updated_at <= 0 {
        after.since
    } else {
        before.updated_at
    })
    &&& after.totals == before.totals
    &&& entries_sorted(after.accounts@)
    &&& after.accounts@.to_multiset() == before.accounts@.to_multiset()
    &&& entries_sorted(after.models@)
    &&& after.models@.to_multiset() == before.models@.to_multiset()
    &&& entries_sorted(after.api_keys@)
    &&& after.api_keys@.to_multiset() == before.api_keys@.to_multiset()
    &&& windows_recomputed(before.events@, after.updated_at, after, now)
}

/// Brings loaded statistics into shape at time `now`.
pub fn normalize_stats_at(stats: &mut CodexLocalAccessStats, now: i64)
    ensures
        normalized_at(*old(stats), *final(stats), now),
{
    if stats.since <= 0 {
        stats.since = now;
    }
    if stats.updated_at <= 0 {
        stats.updated_at = stats.since;
    }
    sort_usage_accounts(&mut stats.accounts);
    sort_usage_models(&mut stats.models);
    sort_usage_api_keys(&mut stats.api_keys);
    recompute_time_windows(stats, now);
}

/// Brings loaded statistics into shape at the current time.
pub fn normalize_stats(stats: &mut CodexLocalAccessStats)
    ensures
        exists|now: i64| normalized_at(*old(stats), *final(stats), now),
{
    let now = now_ms();
    normalize_stats_at(stats, now);
}

/// Statistics with nothing counted, started at `now`: every window ends at
/// `now` and is empty.
pub open spec fn empty_at(r: CodexLocalAccessStats, now: i64) -> bool {
    &&& r.since == now
    &&& r.updated_at == now
    &&& r.totals == zero_stats()
    &&& r.accounts@.len() == 0 && r.models@.len() == 0 && r.api_keys@.len() == 0
    &&& r.events@.len() == 0
    &&& window_view(r.daily) == window_of(Seq::empty(), window_start(now, DAY_WINDOW_MS), now)
    &&& window_view(r.weekly) == window_of(Seq::empty(), window_start(now, WEEK_WINDOW_MS), now)
    &&& window_view(r.monthly) == window_of(Seq::empty(), window_start(now, MONTH_WINDOW_MS), now)
}

/// Statistics with nothing counted, started at `now`.
pub fn empty_stats_snapshot_at(now: i64) -> (r: CodexLocalAccessStats)
    ensures
        empty_at(r, now),
{
    let r = CodexLocalAccessStats {
        since: now,
        updated_at: now,
        totals: CodexLocalAccessUsageStats::default(),
        accounts: Vec::new(),
        models: Vec::new(),
        api_keys: Vec::new(),
        daily: empty_stats_window(window_start_exec(now, DAY_WINDOW_MS), now),
        weekly: empty_stats_window(window_start_exec(now, WEEK_WINDOW_MS), now),
        monthly: empty_stats_window(window_start_exec(now, MONTH_WINDOW_MS), now),
        events: Vec::new(),
    };
    proof {
        assert(account_views(r.daily.accounts@) =~= Seq::<EntryView>::empty());
        assert(model_views(r.daily.models@) =~= Seq::<EntryView>::empty());
        assert(api_key_views(r.daily.api_keys@) =~= Seq::<EntryView>::empty());
        assert(account_views(r.weekly.accounts@) =~= Seq::<EntryView>::empty());
        assert(model_views(r.weekly.models@) =~= Seq::<EntryView>::empty());
        assert(api_key_views(r.weekly.api_keys@) =~= Seq::<EntryView>::empty());
        assert(account_views(r.monthly.accounts@) =~= Seq::<EntryView>::empty());
        assert(model_views(r.monthly.models@) =~= Seq::<EntryView>::empty());
        assert(api_key_views(r.monthly.api_keys@) =~= Seq::<EntryView>::empty());
    }
    r
}

/// Statistics with nothing counted, started now: everything is stated
/// relative to the start, which is the clock's time.
pub fn empty_stats_snapshot() -> (r: CodexLocalAccessStats)
    ensures
        empty_at(r, r.since),
{
    empty_stats_snapshot_at(now_ms())
}


// ---------------------------------------------------------------------------
// Recording a request
// ---------------------------------------------------------------------------

/// Optional text, trimmed; empty when missing.
pub open spec fn trimmed_or_empty(o: Option<Seq<char>>) -> Seq<char> {
    match o {
        Some(t) => trim(t),
        None => Seq::empty(),
    }
}

/// The event recorded for a request at `now`: its texts trimmed (empty when
/// missing), its token counts (zero without usage).
pub open spec fn recorded_event(
    e: CodexLocalAccessUsageEvent,
    now: i64,
    account_id: Option<Seq<char>>,
    account_email: Option<Seq<char>>,
    api_key_id: Option<Seq<char>>,
    api_key_label: Option<Seq<char>>,
    model_id: Option<Seq<char>>,
    kind: CodexLocalAccessRequestKind,
    success: bool,
    error_category: Option<Seq<char>>,
    latency_ms: u64,
    usage: Option<UsageCapture>,
) -> bool {
    &&& e.timestamp == now
    &&& e.account_id@ == trimmed_or_empty(account_id)
    &&& e.email@ == trimmed_or_empty(account_email)
    &&& e.api_key_id@ == trimmed_or_empty(api_key_id)
    &&& e.api_key_label@ == trimmed_or_empty(api_key_label)
    &&& e.model_id@ == trimmed_or_empty(model_id)
    &&& e.request_kind == kind
    &&& e.success == success
    &&& e.error_category@ == trimmed_or_empty(error_category)
    &&& e.latency_ms == latency_ms
    &&& match usage {
        Some(u) => event_usage(e) == u,
        None => event_usage(e) == UsageCapture {
            input_tokens: 0,
            output_tokens: 0,
            total_tokens: 0,
            cached_tokens: 0,
            reasoning_tokens: 0,
        },
    }
}

fn trimmed_text(o: Option<&str>) -> (r: String)
    ensures
        r@ == trimmed_or_empty(opt_str(o)),
{
    match o {
        Some(t) => string_of(&trim_vec(&chars_of(t))),
        None => String::new(),
    }
}

fn copy_event(e: &CodexLocalAccessUsageEvent) -> (r: CodexLocalAccessUsageEvent)
    ensures
        r.timestamp == e.timestamp,
        r.account_id@ == e.account_id@,
        r.email@ == e.email@,
        r.api_key_id@ == e.api_key_id@,
        r.api_key_label@ == e.api_key_label@,
        r.model_id@ == e.model_id@,
        r.request_kind == e.request_kind,
        r.success == e.success,
        r.error_category@ == e.error_category@,
        r.latency_ms == e.latency_ms,
        event_usage(r) == event_usage(*e),
{
    CodexLocalAccessUsageEvent {
        timestamp: e.timestamp,
        account_id: crate::text::copy_string(&e.account_id),
        email: crate::text::copy_string(&e.email),
        api_key_id: crate::text::copy_string(&e.api_key_id),
        api_key_label: crate::text::copy_string(&e.api_key_label),
        model_id: crate::text::copy_string(&e.model_id),
        request_kind: e.request_kind,
        success: e.success,
        error_category: crate::text::copy_string(&e.error_category),
        latency_ms: e.latency_ms,
        input_tokens: e.input_tokens,
        output_tokens: e.output_tokens,
        total_tokens: e.total_tokens,
        cached_tokens: e.cached_tokens,
        reasoning_tokens: e.reasoning_tokens,
    }
}

/// Appends the event of a request at `now` to the recent events, and gives
/// a copy of it back.
pub fn append_usage_event(
    events: &mut Vec<CodexLocalAccessUsageEvent>,
    now: i64,
    account_id: Option<&str>,
    account_email: Option<&str>,
    api_key_id: Option<&str>,
    api_key_label: Option<&str>,
    model_id: Option<&str>,
    request_kind: CodexLocalAccessRequestKind,
    success: bool,
    error_category: Option<&str>,
    latency_ms: u64,
    usage: Option<&UsageCapture>,
) -> (r: CodexLocalAccessUsageEvent)
    ensures
        final(events)@.len() == old(events)@.len() + 1,
        final(events)@.drop_last() == old(events)@,
        recorded_event(
            final(events)@.last(),
            now,
            opt_str(account_id),
            opt_str(account_email),
            opt_str(api_key_id),
            opt_str(api_key_label),
            opt_str(model_id),
            request_kind,
            success,
            opt_str(error_category),
            latency_ms,
            match usage {
                Some(u) => Some(*u),
                None => None,
            },
        ),
        recorded_event(
            r,
            now,
            opt_str(account_id),
            opt_str(account_email),
            opt_str(api_key_id),
            opt_str(api_key_label),
            opt_str(model_id),
            request_kind,
            success,
            opt_str(error_category),
            latency_ms,
            match usage {
                Some(u) => Some(*u),
                None => None,
            },
        ),
        usage matches Some(u) ==> r.input_tokens == u.input_tokens && r.output_tokens == u.output_tokens
            && r.total_tokens == u.total_tokens && r.cached_tokens == u.cached_tokens && r.reasoning_tokens
            == u.reasoning_tokens,
        usage is None ==> r.input_tokens == 0 && r.output_tokens == 0 && r.total_tokens == 0 && r.cached_tokens == 0
            && r.reasoning_tokens == 0,
{
    let (input, output, total, cached, reasoning) = match usage {
        Some(u) => (u.input_tokens, u.output_tokens, u.total_tokens, u.cached_tokens, u.reasoning_tokens),
        None => (0, 0, 0, 0, 0),
    };
    let event = CodexLocalAccessUsageEvent {
        timestamp: now,
        account_id: trimmed_text(account_id),
        email: trimmed_text(account_email),
        api_key_id: trimmed_text(api_key_id),
        api_key_label: trimmed_text(api_key_label),
        model_id: trimmed_text(model_id),
        request_kind,
        success,
        error_category: trimmed_text(error_category),
        latency_ms,
        input_tokens: input,
        output_tokens: output,
        total_tokens: total,
        cached_tokens: cached,
        reasoning_tokens: reasoning,
    };
    let copy = copy_event(&event);
    let ghost before = events@;
    events.push(event);
    proof {
        assert(events@.drop_last() =~= before);
    }
    copy
}

/// The statistics with one request counted at `now`, before they are
/// brought into shape: the start set if missing, the time `now`, the totals
/// and the account, model and client key entries counted, and the event
/// appended.
pub open spec fn counted_into(
    before: CodexLocalAccessStats,
    mid: CodexLocalAccessStats,
    now: i64,
    account_id: Option<Seq<char>>,
    account_email: Option<Seq<char>>,
    api_key_id: Option<Seq<char>>,
    api_key_label: Option<Seq<char>>,
    model_id: Option<Seq<char>>,
    kind: CodexLocalAccessRequestKind,
    success: bool,
    error_category: Option<Seq<char>>,
    latency_ms: u64,
    usage: Option<UsageCapture>,
) -> bool {
    &&& mid.since == (if before.since <= 0 {
        now
    } else {
        before.since
    })
    &&& mid.updated_at == now
    &&& mid.totals == counted(before.totals, kind, success, error_category, latency_ms, usage)
    &&& account_views(mid.accounts@) == upserted(
        account_views(before.accounts@),
        account_id,
        account_email,
        false,
        kind,
        success,
        error_category,
        latency_ms,
        usage,
        now,
    )
    &&& model_views(mid.models@) == upserted(
        model_views(before.models@),
        model_id,
        None,
        true,
        kind,
        success,
        error_category,
        latency_ms,
        usage,
        now,
    )
    &&& api_key_views(mid.api_keys@) == upserted(
        api_key_views(before.api_keys@),
        api_key_id,
        api_key_label,
        false,
        kind,
        success,
        error_category,
        latency_ms,
        usage,
        now,
    )
    &&& mid.events@.len() == before.events@.len() + 1
    &&& mid.events@.drop_last() == before.events@
    &&& recorded_event(
        mid.events@.last(),
        now,
        account_id,
        account_email,
        api_key_id,
        api_key_label,
        model_id,
        kind,
        success,
        error_category,
        latency_ms,
        usage,
    )
}

/// Counts a request at `now` and brings the statistics into shape at
/// `normalize_now`; gives back the event recorded, to be stored in the
/// request log.
pub fn record_request_stats_at(
    stats: &mut CodexLocalAccessStats,
    now: i64,
    normalize_now: i64,
    account_id: Option<&str>,
    account_email: Option<&str>,
    api_key_id: Option<&str>,
    api_key_label: Option<&str>,
    model_id: Option<&str>,
    request_kind: CodexLocalAccessRequestKind,
    success: bool,
    error_category: Option<&str>,
    latency_ms: u64,
    usage: Option<UsageCapture>,
) -> (r: CodexLocalAccessUsageEvent)
    ensures
        exists|mid: CodexLocalAccessStats|
            #[trigger] counted_into(
                *old(stats),
                mid,
                now,
                opt_str(account_id),
                opt_str(account_email),
                opt_str(api_key_id),
                opt_str(api_key_label),
                opt_str(model_id),
                request_kind,
                success,
                opt_str(error_category),
                latency_ms,
                usage,
            ) && normalized_at(mid, *final(stats), normalize_now),
        recorded_event(
            r,
            now,
            opt_str(account_id),
            opt_str(account_email),
            opt_str(api_key_id),
            opt_str(api_key_label),
            opt_str(model_id),
            request_kind,
            success,
            opt_str(error_category),
            latency_ms,
            usage,
        ),
{
    let usage_ref = match &usage {
        Some(u) => Some(u),
        None => None,
    };
    if stats.since <= 0 {
        stats.since = now;
    }
    stats.updated_at = now;
    apply_usage_stats(&mut stats.totals, request_kind, success, error_category, latency_ms, usage_ref);
    upsert_account_usage_stats(
        &mut stats.accounts,
        account_id,
        account_email,
        request_kind,
        success,
        error_category,
        latency_ms,
        usage_ref,
        now,
    );
    upsert_model_usage_stats(&mut stats.models, model_id, request_kind, success, error_category, latency_ms, usage_ref, now);
    upsert_api_key_usage_stats(
        &mut stats.api_keys,
        api_key_id,
        api_key_label,
        request_kind,
        success,
        error_category,
        latency_ms,
        usage_ref,
        now,
    );
    let event = append_usage_event(
        &mut stats.events,
        now,
        account_id,
        account_email,
        api_key_id,
        api_key_label,
        model_id,
        request_kind,
        success,
        error_category,
        latency_ms,
        usage_ref,
    );
    let ghost mid = *stats;
    normalize_stats_at(stats, normalize_now);
    proof {
        assert(counted_into(
            *old(stats),
            mid,
            now,
            opt_str(account_id),
            opt_str(account_email),
            opt_str(api_key_id),
            opt_str(api_key_label),
            opt_str(model_id),
            request_kind,
            success,
            opt_str(error_category),
            latency_ms,
            usage,
        ));
    }
    event
}

/// Counts a request now and brings the statistics into shape; the clock is
/// read for each step, so the contract holds for some pair of times.
pub fn record_request_stats(
    stats: &mut CodexLocalAccessStats,
    account_id: Option<&str>,
    account_email: Option<&str>,
    api_key_id: Option<&str>,
    api_key_label: Option<&str>,
    model_id: Option<&str>,
    request_kind: CodexLocalAccessRequestKind,
    success: bool,
    error_category: Option<&str>,
    latency_ms: u64,
    usage: Option<UsageCapture>,
) -> (r: CodexLocalAccessUsageEvent)
    ensures
        exists|now: i64, mid: CodexLocalAccessStats, later: i64|
            #[trigger] counted_into(
                *old(stats),
                mid,
                now,
                opt_str(account_id),
                opt_str(account_email),
                opt_str(api_key_id),
                opt_str(api_key_label),
                opt_str(model_id),
                request_kind,
                success,
                opt_str(error_category),
                latency_ms,
                usage,
            ) && #[trigger] normalized_at(mid, *final(stats), later) && recorded_event(
                r,
                now,
                opt_str(account_id),
                opt_str(account_email),
                opt_str(api_key_id),
                opt_str(api_key_label),
                opt_str(model_id),
                request_kind,
                success,
                opt_str(error_category),
                latency_ms,
                usage,
            ),
{
    let now = now_ms();
    let later = now_ms();
    record_request_stats_at(
        stats,
        now,
        later,
        account_id,
        account_email,
        api_key_id,
        api_key_label,
        model_id,
        request_kind,
        success,
        error_category,
        latency_ms,
        usage,
    )
}


/// Two events with the same fields.
pub open spec fn same_event(a: CodexLocalAccessUsageEvent, b: CodexLocalAccessUsageEvent) -> bool {
    &&& a.timestamp == b.timestamp
    &&& a.account_id@ == b.account_id@
    &&& a.email@ == b.email@
    &&& a.api_key_id@ == b.api_key_id@
    &&& a.api_key_label@ == b.api_key_label@
    &&& a.model_id@ == b.model_id@
    &&& a.request_kind == b.request_kind
    &&& a.success == b.success
    &&& a.error_category@ == b.error_category@
    &&& a.latency_ms == b.latency_ms
    &&& event_usage(a) == event_usage(b)
}

pub const STATE_RECENT_USAGE_EVENT_LIMIT: usize = 100;

/// The recent events shown with the state: the last hundred, newest first.
pub fn recent_usage_events(events: &Vec<CodexLocalAccessUsageEvent>) -> (r: Vec<CodexLocalAccessUsageEvent>)
    ensures
        r@.len() == if events@.len() < STATE_RECENT_USAGE_EVENT_LIMIT {
            events@.len()
        } else {
            STATE_RECENT_USAGE_EVENT_LIMIT as nat
        },
        forall|i: int| 0 <= i < r@.len() ==> same_event(#[trigger] r@[i], events@[events@.len() - 1 - i]),
{
    let n = events.len();
    let mut out: Vec<CodexLocalAccessUsageEvent> = Vec::new();
    let mut i: usize = 0;
    while i < n && i < STATE_RECENT_USAGE_EVENT_LIMIT
        invariant
            n == events@.len(),
            i <= n,
            i <= STATE_RECENT_USAGE_EVENT_LIMIT,
            out@.len() == i,
            forall|k: int| 0 <= k < i ==> same_event(#[trigger] out@[k], events@[n - 1 - k]),
        decreases n - i,
    {
        let e = copy_event(&events[n - 1 - i]);
        out.push(e);
        i = i + 1;
    }
    out
}

} // verus!
