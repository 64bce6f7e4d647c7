//! The request log of the gateway: how an event is keyed and stored, and how
//! a page of the log is asked for.
use vstd::prelude::*;
use crate::chat_payload::{signed_decimal, signed_decimal_string};
use crate::digest::{hex_encode, hex_lower};
use crate::errors::{decimal_string, decimal_text};
use crate::http::CodexLocalAccessRequestKind;
use crate::stats::CodexLocalAccessUsageEvent;
use crate::text::{chars_of, concat_str, lit, seq_eq, string_of, trim, trim_vec};
use crate::windows::{window_start, DAY_WINDOW_MS, MONTH_WINDOW_MS, WEEK_WINDOW_MS};

verus! {

broadcast use vstd::string::group_string_axioms;

// ---------------------------------------------------------------------------
// Stored values
// ---------------------------------------------------------------------------

/// How a request kind is stored.
pub open spec fn request_kind_text(kind: CodexLocalAccessRequestKind) -> Seq<char> {
    match kind {
        CodexLocalAccessRequestKind::Text => "text"@,
        CodexLocalAccessRequestKind::ImageGeneration => "image_generation"@,
        CodexLocalAccessRequestKind::ImageEdit => "image_edit"@,
        CodexLocalAccessRequestKind::Other => "other"@,
    }
}

/// How a request kind is stored.
pub fn request_kind_to_db_value(request_kind: CodexLocalAccessRequestKind) -> (r: &'static str)
    ensures
        r@ == request_kind_text(request_kind),
{
    match request_kind {
        CodexLocalAccessRequestKind::Text => "text",
        CodexLocalAccessRequestKind::ImageGeneration => "image_generation",
        CodexLocalAccessRequestKind::ImageEdit => "image_edit",
        CodexLocalAccessRequestKind::Other => "other",
    }
}

/// The request kind that stored text names, once trimmed; anything else is
/// `Other`.
pub open spec fn request_kind_of_text(value: Seq<char>) -> CodexLocalAccessRequestKind {
    let t = trim(value);
    if t == "text"@ {
        CodexLocalAccessRequestKind::Text
    } else if t == "image_generation"@ {
        CodexLocalAccessRequestKind::ImageGeneration
    } else if t == "image_edit"@ {
        CodexLocalAccessRequestKind::ImageEdit
    } else {
        CodexLocalAccessRequestKind::Other
    }
}

/// The request kind that stored text names.
pub fn request_kind_from_db_value(value: &str) -> (r: CodexLocalAccessRequestKind)
    ensures
        r == request_kind_of_text(value@),
{
    let t = trim_vec(&chars_of(value));
    if seq_eq(&t, &chars_of("text")) {
        CodexLocalAccessRequestKind::Text
    } else if seq_eq(&t, &chars_of("image_generation")) {
        CodexLocalAccessRequestKind::ImageGeneration
    } else if seq_eq(&t, &chars_of("image_edit")) {
        CodexLocalAccessRequestKind::ImageEdit
    } else {
        CodexLocalAccessRequestKind::Other
    }
}

/// The request kind that the sidecar reports.
pub fn parse_sidecar_request_kind(value: &str) -> (r: CodexLocalAccessRequestKind)
    ensures
        r == request_kind_of_text(value@),
{
    request_kind_from_db_value(value)
}

/// A stored kind reads back as the kind it stores.
pub proof fn lemma_request_kind_round_trip(kind: CodexLocalAccessRequestKind)
    ensures
        request_kind_of_text(request_kind_text(kind)) == kind,
{
    reveal_strlit("text");
    reveal_strlit("image_generation");
    reveal_strlit("image_edit");
    reveal_strlit("other");
    let s = request_kind_text(kind);
    crate::text::lemma_trim_start_at(s, 0);
    assert(s.skip(0) =~= s);
    crate::text::lemma_trim_end_at(s, s.len() as int);
    assert(s.take(s.len() as int) =~= s);
}

/// How a flag is stored: 1 or 0.
pub fn bool_to_db_value(value: bool) -> (r: i64)
    ensures
        r == (if value {
            1i64
        } else {
            0i64
        }),
{
    if value {
        1
    } else {
        0
    }
}

/// Whether a request asks for an image.
pub fn request_kind_is_image(request_kind: CodexLocalAccessRequestKind) -> (r: bool)
    ensures
        r == (request_kind == CodexLocalAccessRequestKind::ImageGeneration || request_kind
            == CodexLocalAccessRequestKind::ImageEdit),
{
    match request_kind {
        CodexLocalAccessRequestKind::ImageGeneration | CodexLocalAccessRequestKind::ImageEdit => true,
        _ => false,
    }
}

/// A token count the sidecar reports, negative ones read as zero.
pub fn usage_i64_to_u64(value: i64) -> (r: u64)
    ensures
        r == (if value < 0 {
            0
        } else {
            value
        }),
{
    if value < 0 {
        0
    } else {
        value as u64
    }
}

// ---------------------------------------------------------------------------
// The key of an event
// ---------------------------------------------------------------------------

pub const FNV_OFFSET: u64 = 0xcbf29ce484222325;

pub const FNV_PRIME: u64 = 0x100000001b3;

/// One byte folded into a hash: xor, then multiply (wrapping).
pub open spec fn fnv_mix(h: u64, b: u8) -> u64 {
    vstd::wrapping::u64_specs::wrapping_mul(h ^ (b as u64), FNV_PRIME)
}

/// Bytes folded into a hash, first to last.
pub open spec fn fnv_bytes(h: u64, bytes: Seq<u8>) -> u64
    decreases bytes.len(),
{
    if bytes.len() == 0 {
        h
    } else {
        fnv_mix(fnv_bytes(h, bytes.drop_last()), bytes.last())
    }
}

/// A text folded into a hash: its UTF-8 bytes, then a separator 0xff.
pub open spec fn fnv_text(h: u64, text: Seq<char>) -> u64 {
    fnv_mix(fnv_bytes(h, vstd::utf8::encode_utf8(text)), 0xff)
}

/// Texts folded into a hash, first to last.
pub open spec fn fnv_texts(h: u64, texts: Seq<Seq<char>>) -> u64
    decreases texts.len(),
{
    if texts.len() == 0 {
        h
    } else {
        fnv_text(fnv_texts(h, texts.drop_last()), texts.last())
    }
}

/// What identifies an event: its time, account, email, client key and label,
/// model, kind, outcome, category, latency and token counts, as text.
pub open spec fn event_key_texts(e: CodexLocalAccessUsageEvent) -> Seq<Seq<char>> {
    seq![
        signed_decimal(e.timestamp as int),
        e.account_id@,
        e.email@,
        e.api_key_id@,
        e.api_key_label@,
        e.model_id@,
        request_kind_text(e.request_kind),
        if e.success {
            "1"@
        } else {
            "0"@
        },
        e.error_category@,
        decimal_text(e.latency_ms as nat),
        decimal_text(e.input_tokens as nat),
        decimal_text(e.output_tokens as nat),
        decimal_text(e.total_tokens as nat),
        decimal_text(e.cached_tokens as nat),
        decimal_text(e.reasoning_tokens as nat),
    ]
}

/// The eight bytes of a number, most significant first.
pub open spec fn u64_be_bytes(h: u64) -> Seq<u8> {
    seq![
        ((h >> 56u64) & 0xff) as u8,
        ((h >> 48u64) & 0xff) as u8,
        ((h >> 40u64) & 0xff) as u8,
        ((h >> 32u64) & 0xff) as u8,
        ((h >> 24u64) & 0xff) as u8,
        ((h >> 16u64) & 0xff) as u8,
        ((h >> 8u64) & 0xff) as u8,
        (h & 0xff) as u8,
    ]
}

/// The key of an event: the 64-bit FNV-1a hash of its texts, each followed
/// by a 0xff separator, as sixteen lowercase hexadecimal digits.
pub open spec fn event_key(e: CodexLocalAccessUsageEvent) -> Seq<char> {
    hex_lower(u64_be_bytes(fnv_texts(FNV_OFFSET, event_key_texts(e))))
}

fn feed(h: u64, text: &str) -> (r: u64)
    ensures
        r == fnv_text(h, text@),
{
    let bytes = text.as_bytes();
    let mut acc: u64 = h;
    let mut i: usize = 0;
    proof {
        assert(bytes@.take(0) =~= Seq::<u8>::empty());
    }
    while i < bytes.len()
        invariant
            i <= bytes@.len(),
            bytes@ == vstd::utf8::encode_utf8(text@),
            acc == fnv_bytes(h, bytes@.take(i as int)),
        decreases bytes@.len() - i,
    {
        proof {
            assert(bytes@.take(i as int + 1).drop_last() =~= bytes@.take(i as int));
        }
        acc = (acc ^ (bytes[i] as u64)).wrapping_mul(FNV_PRIME);
        i = i + 1;
    }
    proof {
        assert(bytes@.take(bytes@.len() as int) =~= bytes@);
    }
    (acc ^ 0xffu64).wrapping_mul(FNV_PRIME)
}

/// The key under which an event is stored in the request log.
pub fn local_access_log_event_key(event: &CodexLocalAccessUsageEvent) -> (r: String)
    ensures
        r@ == event_key(*event),
{
    let mut parts: Vec<String> = Vec::new();
    parts.push(signed_decimal_string(event.timestamp));
    parts.push(lit(event.account_id.as_str()));
    parts.push(lit(event.email.as_str()));
    parts.push(lit(event.api_key_id.as_str()));
    parts.push(lit(event.api_key_label.as_str()));
    parts.push(lit(event.model_id.as_str()));
    parts.push(lit(request_kind_to_db_value(event.request_kind)));
    parts.push(
        lit(
            if event.success {
                "1"
            } else {
                "0"
            },
        ),
    );
    parts.push(lit(event.error_category.as_str()));
    parts.push(decimal_string(event.latency_ms));
    parts.push(decimal_string(event.input_tokens));
    parts.push(decimal_string(event.output_tokens));
    parts.push(decimal_string(event.total_tokens));
    parts.push(decimal_string(event.cached_tokens));
    parts.push(decimal_string(event.reasoning_tokens));
    let ghost texts = event_key_texts(*event);
    proof {
        assert(crate::text::texts(parts@) =~= texts);
    }
    let mut h = FNV_OFFSET;
    let mut i: usize = 0;
    proof {
        assert(texts.take(0) =~= Seq::<Seq<char>>::empty());
    }
    while i < parts.len()
        invariant
            i <= parts@.len(),
            crate::text::texts(parts@) == texts,
            h == fnv_texts(FNV_OFFSET, texts.take(i as int)),
        decreases parts@.len() - i,
    {
        proof {
            assert(texts.take(i as int + 1).drop_last() =~= texts.take(i as int));
            assert(texts.take(i as int + 1).last() == parts@[i as int]@);
        }
        h = feed(h, parts[i].as_str());
        i = i + 1;
    }
    proof {
        assert(texts.take(parts@.len() as int) =~= texts);
    }
    let bytes: Vec<u8> = vec![
        ((h >> 56u64) & 0xff) as u8,
        ((h >> 48u64) & 0xff) as u8,
        ((h >> 40u64) & 0xff) as u8,
        ((h >> 32u64) & 0xff) as u8,
        ((h >> 24u64) & 0xff) as u8,
        ((h >> 16u64) & 0xff) as u8,
        ((h >> 8u64) & 0xff) as u8,
        (h & 0xff) as u8,
    ];
    proof {
        assert(bytes@ =~= u64_be_bytes(h));
    }
    hex_encode(&bytes)
}


// ---------------------------------------------------------------------------
// Asking for a page of the log
// ---------------------------------------------------------------------------

/// The start of a named statistics range ending at `now`: `daily`, `weekly`
/// or `monthly` (trimmed); none for anything else.
pub open spec fn range_since(now: i64, range: Option<Seq<char>>) -> Option<i64> {
    match range {
        Some(r) => if trim(r) == "daily"@ {
            Some(window_start(now, DAY_WINDOW_MS))
        } else if trim(r) == "weekly"@ {
            Some(window_start(now, WEEK_WINDOW_MS))
        } else if trim(r) == "monthly"@ {
            Some(window_start(now, MONTH_WINDOW_MS))
        } else {
            None
        },
        None => None,
    }
}

fn window_start_at(now: i64, length: i64) -> (r: i64)
    requires
        length >= 0,
    ensures
        r == window_start(now, length),
{
    if now < i64::MIN + length {
        i64::MIN
    } else {
        now - length
    }
}

/// The start of a named statistics range ending at `now`.
pub fn stats_range_since_at(stats_range: Option<&str>, now: i64) -> (r: Option<i64>)
    ensures
        r == range_since(
            now,
            match stats_range {
                Some(x) => Some(x@),
                None => None,
            },
        ),
{
    match stats_range {
        Some(x) => {
            let t = trim_vec(&chars_of(x));
            if seq_eq(&t, &chars_of("daily")) {
                Some(window_start_at(now, DAY_WINDOW_MS))
            } else if seq_eq(&t, &chars_of("weekly")) {
                Some(window_start_at(now, WEEK_WINDOW_MS))
            } else if seq_eq(&t, &chars_of("monthly")) {
                Some(window_start_at(now, MONTH_WINDOW_MS))
            } else {
                None
            }
        },
        None => None,
    }
}

/// The text of a range name, if one is given.
pub open spec fn range_text(stats_range: Option<&str>) -> Option<Seq<char>> {
    match stats_range {
        Some(x) => Some(x@),
        None => None,
    }
}

/// The start of a named statistics range ending now: whatever the clock
/// reads, a range is named exactly when a start comes back.
pub fn stats_range_since(stats_range: Option<&str>) -> (r: Option<i64>)
    ensures
        exists|now: i64| r == #[trigger] range_since(now, range_text(stats_range)),
        r is Some <==> range_since(
            0,
            match stats_range {
                Some(x) => Some(x@),
                None => None,
            },
        ) is Some,
{
    let now = crate::clock::now_ms();
    let r = stats_range_since_at(stats_range, now);
    assert(r == range_since(now, range_text(stats_range)));
    r
}

/// A filter text, trimmed, unless missing or blank.
pub open spec fn log_filter(value: Option<Seq<char>>) -> Option<Seq<char>> {
    match value {
        Some(v) => if trim(v).len() > 0 {
            Some(trim(v))
        } else {
            None
        },
        None => None,
    }
}

/// A filter text, trimmed, unless missing or blank.
pub fn normalize_log_filter(value: Option<String>) -> (r: Option<String>)
    ensures
        crate::text::opt_string_text(r) == log_filter(crate::text::opt_string_text(value)),
{
    match value {
        Some(v) => {
            let t = trim_vec(&chars_of(v.as_str()));
            if t.len() > 0 {
                Some(string_of(&t))
            } else {
                None
            }
        },
        None => None,
    }
}

/// A value bound to a placeholder of the log query.
#[derive(Debug)]
pub enum SqlParam {
    Integer(i64),
    Text(String),
}

/// A bound value as a value.
pub enum ParamView {
    Integer(i64),
    Text(Seq<char>),
}

pub open spec fn param_view(p: SqlParam) -> ParamView {
    match p {
        SqlParam::Integer(i) => ParamView::Integer(i),
        SqlParam::Text(t) => ParamView::Text(t@),
    }
}

pub open spec fn params_view(v: Seq<SqlParam>) -> Seq<ParamView> {
    v.map_values(|p: SqlParam| param_view(p))
}

/// The pattern that matches a text anywhere: the text between `%` signs.
pub open spec fn like_pattern(v: Seq<char>) -> Seq<char> {
    "%"@ + v + "%"@
}

/// A condition of the log query: its clause and the values it binds.
pub type Condition = (Seq<char>, Seq<ParamView>);

/// A `LIKE` condition on a filter, when there is one: the clause and the
/// pattern, bound `binds` times.
pub open spec fn like_condition(clause: Seq<char>, value: Option<Seq<char>>, binds: nat) -> Seq<Condition> {
    match log_filter(value) {
        Some(v) => seq![(clause, Seq::new(binds, |i: int| ParamView::Text(like_pattern(v))))],
        None => Seq::empty(),
    }
}

/// The conditions of a log query, in order: the time range, the model, the
/// account (id or email), the client key (id or label), the kind, the
/// outcome and the error category, each when asked for.
pub open spec fn log_conditions(
    now: i64,
    range: Option<Seq<char>>,
    model: Option<Seq<char>>,
    account: Option<Seq<char>>,
    api_key: Option<Seq<char>>,
    kind: Option<CodexLocalAccessRequestKind>,
    success: Option<bool>,
    category: Option<Seq<char>>,
) -> Seq<Condition> {
    let c_range = match range_since(now, range) {
        Some(s) => seq![("timestamp >= ?"@, seq![ParamView::Integer(s)])],
        None => Seq::empty(),
    };
    let c_kind = match kind {
        Some(k) => seq![("request_kind = ?"@, seq![ParamView::Text(request_kind_text(k))])],
        None => Seq::empty(),
    };
    let c_success = match success {
        Some(b) => seq![("success = ?"@, seq![ParamView::Integer(if b { 1i64 } else { 0i64 })])],
        None => Seq::empty(),
    };
    c_range + like_condition("model_id LIKE ?"@, model, 1) + like_condition(
        "(account_id LIKE ? OR email LIKE ?)"@,
        account,
        2,
    ) + like_condition("(api_key_id LIKE ? OR api_key_label LIKE ?)"@, api_key, 2) + c_kind + c_success
        + like_condition("error_category LIKE ?"@, category, 1)
}

/// Texts joined with a separator between neighbours.
pub open spec fn joined_with(parts: Seq<Seq<char>>, sep: Seq<char>) -> Seq<char>
    decreases parts.len(),
{
    if parts.len() == 0 {
        Seq::empty()
    } else if parts.len() == 1 {
        parts[0]
    } else {
        joined_with(parts.drop_last(), sep) + sep + parts.last()
    }
}

/// The `WHERE` part of the query: nothing without conditions, else ` WHERE `
/// and the clauses joined with ` AND `.
pub open spec fn where_sql(conds: Seq<Condition>) -> Seq<char> {
    if conds.len() == 0 {
        Seq::empty()
    } else {
        " WHERE "@ + joined_with(conds.map_values(|c: Condition| c.0), " AND "@)
    }
}

/// The values the conditions bind, in order.
pub open spec fn bound_params(conds: Seq<Condition>) -> Seq<ParamView>
    decreases conds.len(),
{
    if conds.len() == 0 {
        Seq::empty()
    } else {
        bound_params(conds.drop_last()) + conds.last().1
    }
}

/// The values bound by two lists of conditions, one after the other.
pub proof fn lemma_bound_params_concat(a: Seq<Condition>, b: Seq<Condition>)
    ensures
        bound_params(a + b) == bound_params(a) + bound_params(b),
    decreases b.len(),
{
    if b.len() == 0 {
        assert(a + b =~= a);
        assert(bound_params(a) + bound_params(b) =~= bound_params(a));
    } else {
        lemma_bound_params_concat(a, b.drop_last());
        assert((a + b).drop_last() =~= a + b.drop_last());
        assert((a + b).last() == b.last());
        assert(bound_params(a + b) =~= bound_params(a) + bound_params(b));
    }
}

fn push_condition(clauses: &mut Vec<String>, params: &mut Vec<SqlParam>, clause: &str, values: Vec<SqlParam>)
    ensures
        crate::text::texts(final(clauses)@) == crate::text::texts(old(clauses)@).push(clause@),
        params_view(final(params)@) == params_view(old(params)@) + params_view(values@),
{
    let ghost before_p = params@;
    clauses.push(lit(clause));
    let mut values = values;
    let ghost vals = values@;
    let mut moved: Vec<SqlParam> = Vec::new();
    std::mem::swap(&mut moved, &mut values);
    params.append(&mut moved);
    proof {
        assert(crate::text::texts(clauses@) =~= crate::text::texts(old(clauses)@).push(clause@));
        assert(params_view(params@) =~= params_view(before_p) + params_view(vals));
    }
}

fn like_values(value: &String, binds: usize) -> (r: Vec<SqlParam>)
    ensures
        params_view(r@) == Seq::new(binds as nat, |i: int| ParamView::Text(like_pattern(value@))),
{
    let mut out: Vec<SqlParam> = Vec::new();
    let mut i: usize = 0;
    while i < binds
        invariant
            i <= binds,
            params_view(out@) == Seq::new(i as nat, |k: int| ParamView::Text(like_pattern(value@))),
        decreases binds - i,
    {
        let pattern = concat_str(concat_str("%", value.as_str()).as_str(), "%");
        let ghost before = out@;
        out.push(SqlParam::Text(pattern));
        proof {
            assert(pattern@ =~= like_pattern(value@));
            assert(params_view(out@) =~= params_view(before).push(ParamView::Text(like_pattern(value@))));
            assert(params_view(out@) =~= Seq::new((i + 1) as nat, |k: int| ParamView::Text(like_pattern(value@))));
        }
        i = i + 1;
    }
    out
}

/// Adds a `LIKE` condition on a filter, when there is one: its clause, and
/// the pattern bound to its placeholder.
pub fn push_like_filter(
    clauses: &mut Vec<String>,
    params: &mut Vec<SqlParam>,
    clause: &str,
    value: Option<String>,
)
    ensures
        crate::text::texts(final(clauses)@) == crate::text::texts(old(clauses)@) + like_condition(
            clause@,
            crate::text::opt_string_text(value),
            1,
        ).map_values(|c: Condition| c.0),
        params_view(final(params)@) == params_view(old(params)@) + bound_params(
            like_condition(clause@, crate::text::opt_string_text(value), 1),
        ),
{
    let ghost added = like_condition(clause@, crate::text::opt_string_text(value), 1);
    match normalize_log_filter(value) {
        Some(v) => {
            let values = like_values(&v, 1);
            push_condition(clauses, params, clause, values);
            proof {
                assert(added.map_values(|c: Condition| c.0) =~= seq![clause@]);
                assert(bound_params(added.drop_last()) =~= Seq::<ParamView>::empty());
                assert(bound_params(added) =~= params_view(values@));
                assert(crate::text::texts(clauses@) =~= crate::text::texts(old(clauses)@) + added.map_values(
                    |c: Condition| c.0,
                ));
            }
        },
        None => {
            proof {
                assert(added.map_values(|c: Condition| c.0) =~= Seq::<Seq<char>>::empty());
                assert(bound_params(added) =~= Seq::<ParamView>::empty());
                assert(crate::text::texts(clauses@) =~= crate::text::texts(old(clauses)@) + added.map_values(
                    |c: Condition| c.0,
                ));
                assert(params_view(params@) =~= params_view(old(params)@) + bound_params(added));
            }
        },
    }
}


fn join_clauses(clauses: &Vec<String>) -> (r: String)
    ensures
        r@ == joined_with(crate::text::texts(clauses@), " AND "@),
{
    let ghost ts = crate::text::texts(clauses@);
    let mut out = lit("");
    let mut i: usize = 0;
    proof {
        reveal_strlit("");
        assert(ts.take(0) =~= Seq::<Seq<char>>::empty());
    }
    while i < clauses.len()
        invariant
            i <= clauses@.len(),
            ts == crate::text::texts(clauses@),
            out@ == joined_with(ts.take(i as int), " AND "@),
        decreases clauses@.len() - i,
    {
        proof {
            assert(ts.take(i as int + 1).drop_last() =~= ts.take(i as int));
            assert(ts.take(i as int + 1).last() == clauses@[i as int]@);
        }
        if i == 0 {
            out = lit(clauses[i].as_str());
        } else {
            out = concat_str(concat_str(out.as_str(), " AND ").as_str(), clauses[i].as_str());
        }
        i = i + 1;
    }
    proof {
        assert(ts.take(clauses@.len() as int) =~= ts);
    }
    out
}

/// The condition on the time range, when one is named.
pub open spec fn range_condition(now: i64, range: Option<Seq<char>>) -> Seq<Condition> {
    match range_since(now, range) {
        Some(s) => seq![("timestamp >= ?"@, seq![ParamView::Integer(s)])],
        None => Seq::empty(),
    }
}

/// The condition on the request kind, when one is asked for.
pub open spec fn kind_condition(kind: Option<CodexLocalAccessRequestKind>) -> Seq<Condition> {
    match kind {
        Some(k) => seq![("request_kind = ?"@, seq![ParamView::Text(request_kind_text(k))])],
        None => Seq::empty(),
    }
}

/// The condition on the outcome, when one is asked for.
pub open spec fn success_condition(success: Option<bool>) -> Seq<Condition> {
    match success {
        Some(b) => seq![("success = ?"@, seq![ParamView::Integer(if b { 1i64 } else { 0i64 })])],
        None => Seq::empty(),
    }
}

/// Clauses and values that stand for a list of conditions.
pub open spec fn holds_conditions(clauses: Seq<String>, params: Seq<SqlParam>, conds: Seq<Condition>) -> bool {
    crate::text::texts(clauses) == conds.map_values(|c: Condition| c.0) && params_view(params) == bound_params(conds)
}

proof fn lemma_append_conditions(
    clauses0: Seq<String>,
    params0: Seq<SqlParam>,
    clauses1: Seq<String>,
    params1: Seq<SqlParam>,
    done: Seq<Condition>,
    added: Seq<Condition>,
)
    requires
        holds_conditions(clauses0, params0, done),
        crate::text::texts(clauses1) == crate::text::texts(clauses0) + added.map_values(|c: Condition| c.0),
        params_view(params1) == params_view(params0) + bound_params(added),
    ensures
        holds_conditions(clauses1, params1, done + added),
{
    lemma_bound_params_concat(done, added);
    assert((done + added).map_values(|c: Condition| c.0) =~= done.map_values(|c: Condition| c.0)
        + added.map_values(|c: Condition| c.0));
}

fn push_single(clauses: &mut Vec<String>, params: &mut Vec<SqlParam>, clause: &str, value: SqlParam)
    ensures
        crate::text::texts(final(clauses)@) == crate::text::texts(old(clauses)@) + seq![(
            clause@,
            seq![param_view(value)],
        )].map_values(|c: Condition| c.0),
        params_view(final(params)@) == params_view(old(params)@) + bound_params(
            seq![(clause@, seq![param_view(value)])],
        ),
{
    let ghost pv = param_view(value);
    let mut v: Vec<SqlParam> = Vec::new();
    v.push(value);
    push_condition(clauses, params, clause, v);
    proof {
        let added = seq![(clause@, seq![pv])];
        assert(added.map_values(|c: Condition| c.0) =~= seq![clause@]);
        assert(bound_params(added.drop_last()) =~= Seq::<ParamView>::empty());
        assert(bound_params(added) =~= seq![pv]);
        assert(params_view(v@) =~= seq![pv]);
        assert(crate::text::texts(clauses@) =~= crate::text::texts(old(clauses)@) + added.map_values(
            |c: Condition| c.0,
        ));
    }
}

fn push_range(clauses: &mut Vec<String>, params: &mut Vec<SqlParam>, stats_range: Option<&str>, now: i64)
    ensures
        crate::text::texts(final(clauses)@) == crate::text::texts(old(clauses)@) + range_condition(
            now,
            match stats_range {
                Some(x) => Some(x@),
                None => None,
            },
        ).map_values(|c: Condition| c.0),
        params_view(final(params)@) == params_view(old(params)@) + bound_params(
            range_condition(
                now,
                match stats_range {
                    Some(x) => Some(x@),
                    None => None,
                },
            ),
        ),
{
    match stats_range_since_at(stats_range, now) {
        Some(since) => push_single(clauses, params, "timestamp >= ?", SqlParam::Integer(since)),
        None => {
            proof {
                assert(crate::text::texts(clauses@) =~= crate::text::texts(clauses@) + Seq::<Seq<char>>::empty());
                assert(params_view(params@) =~= params_view(params@) + Seq::<ParamView>::empty());
            }
        },
    }
}

fn push_kind(clauses: &mut Vec<String>, params: &mut Vec<SqlParam>, request_kind: Option<CodexLocalAccessRequestKind>)
    ensures
        crate::text::texts(final(clauses)@) == crate::text::texts(old(clauses)@) + kind_condition(request_kind).map_values(
            |c: Condition| c.0,
        ),
        params_view(final(params)@) == params_view(old(params)@) + bound_params(kind_condition(request_kind)),
{
    match request_kind {
        Some(k) => push_single(clauses, params, "request_kind = ?", SqlParam::Text(lit(request_kind_to_db_value(k)))),
        None => {
            proof {
                assert(crate::text::texts(clauses@) =~= crate::text::texts(clauses@) + Seq::<Seq<char>>::empty());
                assert(params_view(params@) =~= params_view(params@) + Seq::<ParamView>::empty());
            }
        },
    }
}

fn push_success(clauses: &mut Vec<String>, params: &mut Vec<SqlParam>, success: Option<bool>)
    ensures
        crate::text::texts(final(clauses)@) == crate::text::texts(old(clauses)@) + success_condition(success).map_values(
            |c: Condition| c.0,
        ),
        params_view(final(params)@) == params_view(old(params)@) + bound_params(success_condition(success)),
{
    match success {
        Some(b) => push_single(clauses, params, "success = ?", SqlParam::Integer(bool_to_db_value(b))),
        None => {
            proof {
                assert(crate::text::texts(clauses@) =~= crate::text::texts(clauses@) + Seq::<Seq<char>>::empty());
                assert(params_view(params@) =~= params_view(params@) + Seq::<ParamView>::empty());
            }
        },
    }
}

/// A `LIKE` condition on two columns: the clause, and the pattern bound to
/// both placeholders.
fn push_like_twice(clauses: &mut Vec<String>, params: &mut Vec<SqlParam>, clause: &str, value: Option<String>)
    ensures
        crate::text::texts(final(clauses)@) == crate::text::texts(old(clauses)@) + like_condition(
            clause@,
            crate::text::opt_string_text(value),
            2,
        ).map_values(|c: Condition| c.0),
        params_view(final(params)@) == params_view(old(params)@) + bound_params(
            like_condition(clause@, crate::text::opt_string_text(value), 2),
        ),
{
    let ghost v0 = crate::text::opt_string_text(value);
    let twice = normalize_log_filter(crate::text::copy_opt_string(&value));
    push_like_filter(clauses, params, clause, value);
    let ghost one = like_condition(clause@, v0, 1);
    let ghost two = like_condition(clause@, v0, 2);
    match twice {
        Some(v) => {
            let ghost mid = params@;
            params.push(SqlParam::Text(concat_str(concat_str("%", v.as_str()).as_str(), "%")));
            proof {
                assert(bound_params(one.drop_last()) =~= Seq::<ParamView>::empty());
                assert(bound_params(two.drop_last()) =~= Seq::<ParamView>::empty());
                assert(params_view(params@) =~= params_view(mid).push(ParamView::Text(like_pattern(v@))));
                assert(params_view(params@) =~= params_view(old(params)@) + bound_params(two));
                assert(one.map_values(|c: Condition| c.0) =~= two.map_values(|c: Condition| c.0));
            }
        },
        None => {
            proof {
                assert(two =~= one);
            }
        },
    }
}

/// The `WHERE` part of a log query and the values it binds, for the filters
/// asked for, at time `now`.
pub fn build_usage_log_query_at(
    now: i64,
    stats_range: Option<&str>,
    model_query: Option<String>,
    account_query: Option<String>,
    api_key_query: Option<String>,
    request_kind: Option<CodexLocalAccessRequestKind>,
    success: Option<bool>,
    error_category: Option<String>,
) -> (r: (String, Vec<SqlParam>))
    ensures
        ({
            let conds = log_conditions(
                now,
                match stats_range {
                    Some(x) => Some(x@),
                    None => None,
                },
                crate::text::opt_string_text(model_query),
                crate::text::opt_string_text(account_query),
                crate::text::opt_string_text(api_key_query),
                request_kind,
                success,
                crate::text::opt_string_text(error_category),
            );
            r.0@ == where_sql(conds) && params_view(r.1@) == bound_params(conds)
        }),
{
    let ghost range_v = match stats_range {
        Some(x) => Some(x@),
        None => None,
    };
    let ghost model_v = crate::text::opt_string_text(model_query);
    let ghost account_v = crate::text::opt_string_text(account_query);
    let ghost key_v = crate::text::opt_string_text(api_key_query);
    let ghost category_v = crate::text::opt_string_text(error_category);
    let mut clauses: Vec<String> = Vec::new();
    let mut params: Vec<SqlParam> = Vec::new();
    proof {
        assert(holds_conditions(clauses@, params@, Seq::empty())) by {
            assert(crate::text::texts(clauses@) =~= Seq::<Condition>::empty().map_values(|c: Condition| c.0));
            assert(params_view(params@) =~= Seq::<ParamView>::empty());
        }
    }
    let ghost c0 = clauses@;
    let ghost p0 = params@;
    push_range(&mut clauses, &mut params, stats_range, now);
    let ghost d1 = Seq::<Condition>::empty() + range_condition(now, range_v);
    proof {
        lemma_append_conditions(c0, p0, clauses@, params@, Seq::empty(), range_condition(now, range_v));
    }
    let ghost c1 = clauses@;
    let ghost p1 = params@;
    push_like_filter(&mut clauses, &mut params, "model_id LIKE ?", model_query);
    let ghost d2 = d1 + like_condition("model_id LIKE ?"@, model_v, 1);
    proof {
        lemma_append_conditions(c1, p1, clauses@, params@, d1, like_condition("model_id LIKE ?"@, model_v, 1));
    }
    let ghost c2 = clauses@;
    let ghost p2 = params@;
    push_like_twice(&mut clauses, &mut params, "(account_id LIKE ? OR email LIKE ?)", account_query);
    let ghost d3 = d2 + like_condition("(account_id LIKE ? OR email LIKE ?)"@, account_v, 2);
    proof {
        lemma_append_conditions(
            c2,
            p2,
            clauses@,
            params@,
            d2,
            like_condition("(account_id LIKE ? OR email LIKE ?)"@, account_v, 2),
        );
    }
    let ghost c3 = clauses@;
    let ghost p3 = params@;
    push_like_twice(&mut clauses, &mut params, "(api_key_id LIKE ? OR api_key_label LIKE ?)", api_key_query);
    let ghost d4 = d3 + like_condition("(api_key_id LIKE ? OR api_key_label LIKE ?)"@, key_v, 2);
    proof {
        lemma_append_conditions(
            c3,
            p3,
            clauses@,
            params@,
            d3,
            like_condition("(api_key_id LIKE ? OR api_key_label LIKE ?)"@, key_v, 2),
        );
    }
    let ghost c4 = clauses@;
    let ghost p4 = params@;
    push_kind(&mut clauses, &mut params, request_kind);
    let ghost d5 = d4 + kind_condition(request_kind);
    proof {
        lemma_append_conditions(c4, p4, clauses@, params@, d4, kind_condition(request_kind));
    }
    let ghost c5 = clauses@;
    let ghost p5 = params@;
    push_success(&mut clauses, &mut params, success);
    let ghost d6 = d5 + success_condition(success);
    proof {
        lemma_append_conditions(c5, p5, clauses@, params@, d5, success_condition(success));
    }
    let ghost c6 = clauses@;
    let ghost p6 = params@;
    push_like_filter(&mut clauses, &mut params, "error_category LIKE ?", error_category);
    let ghost d7 = d6 + like_condition("error_category LIKE ?"@, category_v, 1);
    proof {
        lemma_append_conditions(c6, p6, clauses@, params@, d6, like_condition("error_category LIKE ?"@, category_v, 1));
        assert(d7 =~= log_conditions(now, range_v, model_v, account_v, key_v, request_kind, success, category_v));
    }
    let where_text = if clauses.len() == 0 {
        proof {
            reveal_strlit("");
            assert(holds_conditions(clauses@, params@, d7));
            assert(crate::text::texts(clauses@).len() == clauses@.len());
            assert(d7.map_values(|c: Condition| c.0).len() == d7.len());
            assert(d7.len() == 0);
        }
        lit("")
    } else {
        concat_str(" WHERE ", join_clauses(&clauses).as_str())
    };
    (where_text, params)
}

// ---------------------------------------------------------------------------
// Pages
// ---------------------------------------------------------------------------

/// One page of the request log.
#[derive(Debug)]
pub struct CodexLocalAccessUsageEventPage {
    pub events: Vec<CodexLocalAccessUsageEvent>,
    pub total: u64,
    pub page: u32,
    pub page_size: u32,
    pub total_pages: u32,
}

/// The page size asked for, between 1 and 200.
pub open spec fn page_size_of(page_size: u32) -> u32 {
    if page_size < 1 {
        1
    } else if page_size > 200 {
        200
    } else {
        page_size
    }
}

/// An empty page: the page asked for (at least the first), its size
/// between 1 and 200, one page in all.
pub fn empty_usage_event_page(page: u32, page_size: u32) -> (r: CodexLocalAccessUsageEventPage)
    ensures
        r.events@.len() == 0,
        r.total == 0,
        r.page == (if page < 1 {
            1
        } else {
            page
        }),
        r.page_size == page_size_of(page_size),
        r.total_pages == 1,
{
    CodexLocalAccessUsageEventPage {
        events: Vec::new(),
        total: 0,
        page: if page < 1 {
            1
        } else {
            page
        },
        page_size: if page_size < 1 {
            1
        } else if page_size > 200 {
            200
        } else {
            page_size
        },
        total_pages: 1,
    }
}

/// The pages that `total` rows fill at a page size: at least one, at most
/// `u32::MAX`.
pub open spec fn total_pages_of(total: u64, size: u32) -> u32 {
    let pages = (total + size - 1) / (size as int);
    if pages < 1 {
        1
    } else if pages > u32::MAX {
        u32::MAX
    } else {
        pages as u32
    }
}

/// How a page is read from the log: the page size (between 1 and 200), the
/// number of pages, the page (at least the first, at most the last), and the
/// number of rows before it.
pub fn usage_log_paging(total: u64, page: u32, page_size: u32) -> (r: (u32, u32, u32, i64))
    requires
        total <= i64::MAX,
    ensures
        r.0 == page_size_of(page_size),
        r.1 == total_pages_of(total, r.0),
        r.2 == (if page < 1 {
            1
        } else if page > r.1 {
            r.1
        } else {
            page
        }),
        r.3 == (r.2 - 1) * r.0,
{
    let size: u32 = if page_size < 1 {
        1
    } else if page_size > 200 {
        200
    } else {
        page_size
    };
    let asked: u32 = if page < 1 {
        1
    } else {
        page
    };
    let pages64: u64 = (total + size as u64 - 1) / (size as u64);
    let total_pages: u32 = if pages64 < 1 {
        1
    } else if pages64 > u32::MAX as u64 {
        u32::MAX
    } else {
        pages64 as u32
    };
    let current = if asked > total_pages {
        total_pages
    } else {
        asked
    };
    proof {
        assert((current - 1) * size <= u32::MAX * 200) by (nonlinear_arith)
            requires
                1 <= current <= u32::MAX,
                1 <= size <= 200,
        ;
    }
    let offset: i64 = ((current - 1) as u64 * size as u64) as i64;
    (size, total_pages, current, offset)
}

/// The statement that counts the logged requests a `WHERE` part selects.
pub open spec fn count_sql(where_part: Seq<char>) -> Seq<char> {
    "SELECT COUNT(*) FROM request_logs"@ + where_part
}

/// The statement that counts the logged requests a `WHERE` part selects.
pub fn usage_log_count_sql(where_part: &str) -> (r: String)
    ensures
        r@ == count_sql(where_part@),
{
    concat_str("SELECT COUNT(*) FROM request_logs", where_part)
}

/// The statement that lists one page of the logged requests a `WHERE` part
/// selects: their columns, newest first (by time, then by row id), the page
/// size and offset bound last.
pub open spec fn list_sql(where_part: Seq<char>) -> Seq<char> {
    "\n        SELECT\n            timestamp,\n            account_id,\n            email,\n            api_key_id,\n            api_key_label,\n            model_id,\n            request_kind,\n            success,\n            error_category,\n            latency_ms,\n            input_tokens,\n            output_tokens,\n            total_tokens,\n            cached_tokens,\n            reasoning_tokens\n        FROM request_logs"@ + where_part + "\n        ORDER BY timestamp DESC, id DESC\n        LIMIT ? OFFSET ?\n        "@
}

/// The statement that lists one page of the logged requests.
pub fn usage_log_list_sql(where_part: &str) -> (r: String)
    ensures
        r@ == list_sql(where_part@),
{
    let with_where = concat_str(
        "\n        SELECT\n            timestamp,\n            account_id,\n            email,\n            api_key_id,\n            api_key_label,\n            model_id,\n            request_kind,\n            success,\n            error_category,\n            latency_ms,\n            input_tokens,\n            output_tokens,\n            total_tokens,\n            cached_tokens,\n            reasoning_tokens\n        FROM request_logs",
        where_part,
    );
    concat_str(with_where.as_str(), "\n        ORDER BY timestamp DESC, id DESC\n        LIMIT ? OFFSET ?\n        ")
}

/// The values the page listing binds: the filters' values, then the page
/// size and the offset.
pub fn usage_log_list_params(params: Vec<SqlParam>, page_size: u32, offset: i64) -> (r: Vec<SqlParam>)
    ensures
        params_view(r@) == params_view(params@) + seq![ParamView::Integer(page_size as i64), ParamView::Integer(offset)],
{
    let mut out = params;
    let ghost before = out@;
    out.push(SqlParam::Integer(page_size as i64));
    out.push(SqlParam::Integer(offset));
    proof {
        assert(params_view(out@) =~= params_view(before) + seq![ParamView::Integer(page_size as i64), ParamView::Integer(offset)]);
    }
    out
}

} // verus!
