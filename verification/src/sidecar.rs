//! The files that launch the sidecar service: its configuration, the manifest
//! of keys, accounts and models it serves, and one authentication file per
//! OAuth account.
use vstd::prelude::*;
use crate::json::{
    JsonValue, JsonNumber, JsonView, NumberView, json_view, items_view, entries_view, push_entry,
    push_item, json_text, json_pretty_text, json_to_string_pretty,
};
use crate::text::{
    lit, copy_string, trim, trim_str, chars_of, texts, opt_string_text, concat_str, string_of,
};
use crate::errors::{decimal_text, decimal_string};
use crate::chat_payload::{signed_decimal, signed_decimal_string, i64_number};
use crate::account::{CodexAccount, CodexAuthMode};
use crate::collection::{
    CodexLocalAccessCollection, CodexLocalAccessApiKey, CodexLocalAccessScope,
    CodexLocalAccessImageGenerationMode, default_label, default_local_api_key_label,
};
use crate::models::CodexLocalAccessModelAlias;
use crate::routing::{
    CodexLocalAccessRoutingStrategy, CodexLocalAccessCustomRoutingRule, plan_rank, remaining_quota,
    subscription_expiry_ms, resolve_plan_rank, resolve_remaining_quota,
    resolve_subscription_expiry_ms,
};
use crate::upstream::{eligible, is_local_access_eligible_account};
use crate::cursor_oauth::{new_uuid_v4, is_uuid_v4_text};

verus! {

broadcast use vstd::string::group_string_axioms;

// ---------------------------------------------------------------------------
// Values
// ---------------------------------------------------------------------------

/// A text as a JSON value.
pub open spec fn jtext(s: Seq<char>) -> JsonView {
    JsonView::Str(s)
}

/// An unsigned number as a JSON value.
pub open spec fn juint(u: u64) -> JsonView {
    JsonView::Number(NumberView::PosInt(u))
}

/// Texts as a JSON array.
pub open spec fn jtexts(s: Seq<Seq<char>>) -> JsonView {
    JsonView::Array(s.map_values(|t: Seq<char>| JsonView::Str(t)))
}

/// An optional text as a JSON value: `null` when absent.
pub open spec fn jopt_text(o: Option<Seq<char>>) -> JsonView {
    match o {
        Some(t) => JsonView::Str(t),
        None => JsonView::Null,
    }
}

/// An optional number as a JSON value: `null` when absent.
pub open spec fn jopt_i64(o: Option<i64>) -> JsonView {
    match o {
        Some(i) => i64_number(i),
        None => JsonView::Null,
    }
}

fn text_json(s: &str) -> (r: JsonValue)
    ensures
        json_view(r) == jtext(s@),
{
    JsonValue::String(lit(s))
}

fn uint_json(u: u64) -> (r: JsonValue)
    ensures
        json_view(r) == juint(u),
{
    JsonValue::Number(JsonNumber::PosInt(u))
}

fn i64_json(i: i64) -> (r: JsonValue)
    ensures
        json_view(r) == i64_number(i),
{
    if i >= 0 {
        JsonValue::Number(JsonNumber::PosInt(i as u64))
    } else {
        JsonValue::Number(JsonNumber::NegInt(i))
    }
}

fn opt_text_json(o: &Option<String>) -> (r: JsonValue)
    ensures
        json_view(r) == jopt_text(opt_string_text(*o)),
{
    match o {
        Some(s) => JsonValue::String(copy_string(s)),
        None => JsonValue::Null,
    }
}

fn opt_i64_json(o: Option<i64>) -> (r: JsonValue)
    ensures
        json_view(r) == jopt_i64(o),
{
    match o {
        Some(i) => i64_json(i),
        None => JsonValue::Null,
    }
}

fn texts_json(v: &Vec<String>) -> (r: JsonValue)
    ensures
        json_view(r) == jtexts(texts(v@)),
{
    let mut items: Vec<JsonValue> = Vec::new();
    let n: usize = v.len();
    let mut i: usize = 0;
    while i < n
        invariant
            n == v@.len(),
            i <= n,
            items_view(items@) == texts(v@.take(i as int)).map_values(|t: Seq<char>| JsonView::Str(t)),
        decreases n - i,
    {
        push_item(&mut items, JsonValue::String(copy_string(&v[i])));
        assert(texts(v@.take(i + 1)).map_values(|t: Seq<char>| JsonView::Str(t)) =~= texts(
            v@.take(i as int),
        ).map_values(|t: Seq<char>| JsonView::Str(t)).push(JsonView::Str(v@[i as int]@)));
        i = i + 1;
    }
    assert(v@.take(n as int) =~= v@);
    JsonValue::Array(items)
}

// ---------------------------------------------------------------------------
// Small values
// ---------------------------------------------------------------------------

/// A duration in milliseconds as the sidecar reads it: at least one, with
/// `ms` after it.
pub open spec fn duration_text(value_ms: i64) -> Seq<char> {
    decimal_text((if value_ms < 1 {
        1
    } else {
        value_ms
    }) as nat) + "ms"@
}

/// A duration in milliseconds as the sidecar reads it.
pub fn sidecar_duration_ms(value_ms: i64) -> (r: String)
    ensures
        r@ == duration_text(value_ms),
{
    let v: u64 = if value_ms < 1 {
        1
    } else {
        value_ms as u64
    };
    concat_str(decimal_string(v).as_str(), "ms")
}

/// The sidecar's image switch: `false` when image generation is enabled,
/// `true` when disabled, `"chat"` when only the Images API may use it.
pub open spec fn image_switch(mode: CodexLocalAccessImageGenerationMode) -> JsonView {
    match mode {
        CodexLocalAccessImageGenerationMode::Enabled => JsonView::Bool(false),
        CodexLocalAccessImageGenerationMode::Disabled => JsonView::Bool(true),
        CodexLocalAccessImageGenerationMode::ImagesOnly => JsonView::Str("chat"@),
    }
}

/// The sidecar's image switch for a mode.
pub fn sidecar_disable_image_generation_value(mode: CodexLocalAccessImageGenerationMode) -> (r:
    JsonValue)
    ensures
        json_view(r) == image_switch(mode),
{
    match mode {
        CodexLocalAccessImageGenerationMode::Enabled => JsonValue::Bool(false),
        CodexLocalAccessImageGenerationMode::Disabled => JsonValue::Bool(true),
        CodexLocalAccessImageGenerationMode::ImagesOnly => text_json("chat"),
    }
}

/// The name the sidecar gives a routing strategy.
pub open spec fn strategy_name(strategy: CodexLocalAccessRoutingStrategy) -> Seq<char> {
    match strategy {
        CodexLocalAccessRoutingStrategy::Auto => "auto"@,
        CodexLocalAccessRoutingStrategy::QuotaHighFirst => "quota_high_first"@,
        CodexLocalAccessRoutingStrategy::QuotaLowFirst => "quota_low_first"@,
        CodexLocalAccessRoutingStrategy::PlanHighFirst => "plan_high_first"@,
        CodexLocalAccessRoutingStrategy::PlanLowFirst => "plan_low_first"@,
        CodexLocalAccessRoutingStrategy::ExpirySoonFirst => "expiry_soon_first"@,
        CodexLocalAccessRoutingStrategy::Custom => "custom"@,
    }
}

/// The name the sidecar gives a routing strategy.
pub fn sidecar_routing_strategy_value(strategy: CodexLocalAccessRoutingStrategy) -> (r: String)
    ensures
        r@ == strategy_name(strategy),
{
    match strategy {
        CodexLocalAccessRoutingStrategy::Auto => lit("auto"),
        CodexLocalAccessRoutingStrategy::QuotaHighFirst => lit("quota_high_first"),
        CodexLocalAccessRoutingStrategy::QuotaLowFirst => lit("quota_low_first"),
        CodexLocalAccessRoutingStrategy::PlanHighFirst => lit("plan_high_first"),
        CodexLocalAccessRoutingStrategy::PlanLowFirst => lit("plan_low_first"),
        CodexLocalAccessRoutingStrategy::ExpirySoonFirst => lit("expiry_soon_first"),
        CodexLocalAccessRoutingStrategy::Custom => lit("custom"),
    }
}

/// The address the gateway listens on for an access scope.
pub open spec fn bind_host(scope: CodexLocalAccessScope) -> Seq<char> {
    match scope {
        CodexLocalAccessScope::Localhost => "127.0.0.1"@,
        CodexLocalAccessScope::Lan => "0.0.0.0"@,
    }
}

/// The address the gateway listens on for a collection.
pub fn bind_host_for_collection(collection: &CodexLocalAccessCollection) -> (r: String)
    ensures
        r@ == bind_host(collection.access_scope),
{
    match collection.access_scope {
        CodexLocalAccessScope::Localhost => lit("127.0.0.1"),
        CodexLocalAccessScope::Lan => lit("0.0.0.0"),
    }
}

/// Whether a character may stand in an authentication file's name.
pub open spec fn file_name_char(c: char) -> bool {
    ('a' <= c <= 'z') || ('A' <= c <= 'Z') || ('0' <= c <= '9') || c == '-' || c == '_' || c == '.'
}

/// An account id made safe for a file name: each other character becomes
/// `_`.
pub open spec fn safe_file_stem(id: Seq<char>) -> Seq<char> {
    id.map_values(|c: char| if file_name_char(c) { c } else { '_' })
}

/// Whether a stem holds something besides `_`.
pub open spec fn stem_has_content(stem: Seq<char>) -> bool {
    exists|i: int| 0 <= i < stem.len() && #[trigger] stem[i] != '_'
}

/// The authentication file name of an account: its trimmed id made safe,
/// with `.json` after it; where nothing but `_` is left, `fallback` stands
/// for the stem.
pub open spec fn auth_file_name(account_id: Seq<char>, fallback: Seq<char>) -> Seq<char> {
    let stem = safe_file_stem(trim(account_id));
    if stem_has_content(stem) {
        stem + ".json"@
    } else {
        fallback + ".json"@
    }
}

/// The authentication file name of an account, with `fallback` as the stem
/// where the id leaves nothing but `_`.
pub fn sidecar_auth_file_name_with(account_id: &str, fallback: &str) -> (r: String)
    ensures
        r@ == auth_file_name(account_id@, fallback@),
{
    let t = chars_of(trim_str(account_id).as_str());
    let n: usize = t.len();
    let mut stem: Vec<char> = Vec::new();
    let mut content = false;
    let mut i: usize = 0;
    while i < n
        invariant
            n == t@.len(),
            i <= n,
            stem@ == safe_file_stem(t@.take(i as int)),
            content == exists|j: int| 0 <= j < i && #[trigger] stem@[j] != '_',
        decreases n - i,
    {
        let c = t[i];
        let ok = ('a' <= c && c <= 'z') || ('A' <= c && c <= 'Z') || ('0' <= c && c <= '9') || c
            == '-' || c == '_' || c == '.';
        let d = if ok {
            c
        } else {
            '_'
        };
        let ghost prev = stem@;
        stem.push(d);
        assert(safe_file_stem(t@.take(i + 1)) =~= safe_file_stem(t@.take(i as int)).push(d));
        assert(forall|j: int| 0 <= j < i ==> stem@[j] == prev[j]);
        if d != '_' {
            content = true;
            assert(stem@[i as int] != '_');
        } else {
            assert(stem@[i as int] == '_');
        }
        i = i + 1;
    }
    assert(t@.take(n as int) =~= t@);
    if content {
        concat_str(string_of(&stem).as_str(), ".json")
    } else {
        concat_str(fallback, ".json")
    }
}

/// The key entries of the manifest: the collection's own key as `legacy`
/// (when it is not blank), then each enabled key that is not blank.
pub open spec fn manifest_keys(collection: CodexLocalAccessCollection) -> Seq<JsonView> {
    let legacy = if trim(collection.api_key@).len() > 0 {
        seq![legacy_key_value(trim(collection.api_key@))]
    } else {
        Seq::empty()
    };
    legacy + listed_keys(collection.api_keys@)
}

/// The manifest entry of the collection's own key.
pub open spec fn legacy_key_value(key: Seq<char>) -> JsonView {
    JsonView::Object(
        seq![
            ("id"@, jtext("legacy"@)),
            ("label"@, jtext(default_label())),
            ("key"@, jtext(key)),
            ("enabled"@, JsonView::Bool(true)),
            ("allowedModels"@, JsonView::Array(Seq::empty())),
            ("excludedModels"@, JsonView::Array(Seq::empty())),
        ],
    )
}

/// The manifest entry of a listed key.
pub open spec fn listed_key_value(k: CodexLocalAccessApiKey) -> JsonView {
    JsonView::Object(
        seq![
            ("id"@, jtext(k.id@)),
            ("label"@, jtext(k.label@)),
            ("key"@, jtext(trim(k.key@))),
            ("modelPrefix"@, jopt_text(opt_string_text(k.model_prefix))),
            ("allowedModels"@, jtexts(texts(k.allowed_models@))),
            ("excludedModels"@, jtexts(texts(k.excluded_models@))),
            ("enabled"@, JsonView::Bool(k.enabled)),
        ],
    )
}

/// The manifest entries of the enabled keys that are not blank, in order.
pub open spec fn listed_keys(keys: Seq<CodexLocalAccessApiKey>) -> Seq<JsonView>
    decreases keys.len(),
{
    if keys.len() == 0 {
        Seq::empty()
    } else {
        let k = keys.last();
        let rest = listed_keys(keys.drop_last());
        if k.enabled && trim(k.key@).len() > 0 {
            rest.push(listed_key_value(k))
        } else {
            rest
        }
    }
}

fn listed_key_json(k: &CodexLocalAccessApiKey) -> (r: JsonValue)
    ensures
        json_view(r) == listed_key_value(*k),
{
    let mut o: Vec<(String, JsonValue)> = Vec::new();
    push_entry(&mut o, "id", JsonValue::String(copy_string(&k.id)));
    push_entry(&mut o, "label", JsonValue::String(copy_string(&k.label)));
    push_entry(&mut o, "key", JsonValue::String(trim_str(k.key.as_str())));
    push_entry(&mut o, "modelPrefix", opt_text_json(&k.model_prefix));
    push_entry(&mut o, "allowedModels", texts_json(&k.allowed_models));
    push_entry(&mut o, "excludedModels", texts_json(&k.excluded_models));
    push_entry(&mut o, "enabled", JsonValue::Bool(k.enabled));
    proof {
        if let JsonView::Object(e) = listed_key_value(*k) {
            assert(entries_view(o@) =~= e);
        }
    }
    JsonValue::Object(o)
}

/// The key entries of the manifest.
pub fn sidecar_api_key_manifest_values(collection: &CodexLocalAccessCollection) -> (r: Vec<JsonValue>)
    ensures
        items_view(r@) == manifest_keys(*collection),
{
    let mut values: Vec<JsonValue> = Vec::new();
    let key = trim_str(collection.api_key.as_str());
    let has_legacy = chars_of(key.as_str()).len() > 0;
    if has_legacy {
        let mut o: Vec<(String, JsonValue)> = Vec::new();
        push_entry(&mut o, "id", text_json("legacy"));
        push_entry(&mut o, "label", JsonValue::String(default_local_api_key_label()));
        push_entry(&mut o, "key", JsonValue::String(key));
        push_entry(&mut o, "enabled", JsonValue::Bool(true));
        push_entry(&mut o, "allowedModels", JsonValue::Array(Vec::new()));
        push_entry(&mut o, "excludedModels", JsonValue::Array(Vec::new()));
        proof {
            assert(items_view(Seq::<JsonValue>::empty()) =~= Seq::<JsonView>::empty());
            if let JsonView::Object(e) = legacy_key_value(trim(collection.api_key@)) {
                assert(entries_view(o@) =~= e);
            }
        }
        push_item(&mut values, JsonValue::Object(o));
    }
    let ghost legacy = items_view(values@);
    let keys = &collection.api_keys;
    let n: usize = keys.len();
    let mut i: usize = 0;
    while i < n
        invariant
            n == keys@.len(),
            i <= n,
            items_view(values@) == legacy + listed_keys(keys@.take(i as int)),
        decreases n - i,
    {
        let k = &keys[i];
        assert(keys@.take(i + 1).drop_last() =~= keys@.take(i as int));
        if k.enabled && chars_of(trim_str(k.key.as_str()).as_str()).len() > 0 {
            push_item(&mut values, listed_key_json(k));
            assert(legacy + listed_keys(keys@.take(i + 1)) =~= (legacy + listed_keys(
                keys@.take(i as int),
            )).push(listed_key_value(*k)));
        }
        i = i + 1;
    }
    assert(keys@.take(n as int) =~= keys@);
    proof {
        if has_legacy {
            assert(legacy =~= seq![legacy_key_value(trim(collection.api_key@))]);
        } else {
            assert(legacy =~= Seq::<JsonView>::empty());
        }
    }
    values
}


/// The authentication file name of an account; where the id leaves nothing
/// but `_`, a fresh random UUID stands for the stem.
pub fn sidecar_auth_file_name(account_id: &str) -> (r: String)
    ensures
        exists|fallback: Seq<char>|
            is_uuid_v4_text(fallback) && r@ == #[trigger] auth_file_name(account_id@, fallback),
{
    let fallback = new_uuid_v4();
    let r = sidecar_auth_file_name_with(account_id, fallback.as_str());
    assert(r@ == auth_file_name(account_id@, fallback@));
    r
}

// ---------------------------------------------------------------------------
// Aliases, rules and accounts
// ---------------------------------------------------------------------------

/// An alias as the sidecar's OAuth alias list holds it.
pub open spec fn oauth_alias_value(a: CodexLocalAccessModelAlias) -> JsonView {
    JsonView::Object(
        seq![("name"@, jtext(a.source_model@)), ("alias"@, jtext(a.alias@)), ("fork"@, JsonView::Bool(a.fork))],
    )
}

/// An alias as an API-key entry's model list holds it.
pub open spec fn key_alias_value(a: CodexLocalAccessModelAlias) -> JsonView {
    JsonView::Object(seq![("name"@, jtext(a.source_model@)), ("alias"@, jtext(a.alias@))])
}

/// An alias as the manifest holds it.
pub open spec fn manifest_alias_value(a: CodexLocalAccessModelAlias) -> JsonView {
    JsonView::Object(
        seq![
            ("sourceModel"@, jtext(a.source_model@)),
            ("alias"@, jtext(a.alias@)),
            ("fork"@, JsonView::Bool(a.fork)),
        ],
    )
}

/// A routing rule as the manifest holds it.
pub open spec fn rule_value(r: CodexLocalAccessCustomRoutingRule) -> JsonView {
    JsonView::Object(
        seq![
            ("accountId"@, jtext(r.account_id@)),
            ("priority"@, i64_number(r.priority as i64)),
            ("weight"@, juint(r.weight as u64)),
        ],
    )
}

/// An alias in one shape: 1 for API-key entries, 2 for the manifest, any
/// other for the OAuth list.
pub open spec fn alias_value(shape: u8, a: CodexLocalAccessModelAlias) -> JsonView {
    if shape == 1 {
        key_alias_value(a)
    } else if shape == 2 {
        manifest_alias_value(a)
    } else {
        oauth_alias_value(a)
    }
}

fn alias_json(shape: u8, a: &CodexLocalAccessModelAlias) -> (r: JsonValue)
    ensures
        json_view(r) == alias_value(shape, *a),
{
    let mut o: Vec<(String, JsonValue)> = Vec::new();
    if shape == 2 {
        push_entry(&mut o, "sourceModel", JsonValue::String(copy_string(&a.source_model)));
    } else {
        push_entry(&mut o, "name", JsonValue::String(copy_string(&a.source_model)));
    }
    push_entry(&mut o, "alias", JsonValue::String(copy_string(&a.alias)));
    if shape != 1 {
        push_entry(&mut o, "fork", JsonValue::Bool(a.fork));
    }
    proof {
        if let JsonView::Object(e) = alias_value(shape, *a) {
            assert(entries_view(o@) =~= e);
        }
    }
    JsonValue::Object(o)
}

/// The aliases of a collection in one shape.
pub open spec fn alias_values(shape: u8, aliases: Seq<CodexLocalAccessModelAlias>) -> Seq<JsonView> {
    aliases.map_values(|a: CodexLocalAccessModelAlias| alias_value(shape, a))
}

fn alias_list(shape: u8, aliases: &Vec<CodexLocalAccessModelAlias>) -> (r: Vec<JsonValue>)
    ensures
        items_view(r@) == alias_values(shape, aliases@),
{
    let mut out: Vec<JsonValue> = Vec::new();
    let n: usize = aliases.len();
    let mut i: usize = 0;
    while i < n
        invariant
            n == aliases@.len(),
            i <= n,
            items_view(out@) == alias_values(shape, aliases@.take(i as int)),
        decreases n - i,
    {
        push_item(&mut out, alias_json(shape, &aliases[i]));
        assert(alias_values(shape, aliases@.take(i + 1)) =~= alias_values(
            shape,
            aliases@.take(i as int),
        ).push(alias_value(shape, aliases@[i as int])));
        i = i + 1;
    }
    assert(aliases@.take(n as int) =~= aliases@);
    out
}

/// The OAuth alias list of a collection.
pub fn sidecar_model_alias_values(collection: &CodexLocalAccessCollection) -> (r: Vec<JsonValue>)
    ensures
        items_view(r@) == alias_values(0, collection.model_aliases@),
{
    alias_list(0, &collection.model_aliases)
}

/// The model list of an API-key entry.
pub fn sidecar_codex_key_model_values(collection: &CodexLocalAccessCollection) -> (r: Vec<JsonValue>)
    ensures
        items_view(r@) == alias_values(1, collection.model_aliases@),
{
    alias_list(1, &collection.model_aliases)
}

/// The routing rules of a collection as the manifest holds them.
pub open spec fn rule_values(rules: Seq<CodexLocalAccessCustomRoutingRule>) -> Seq<JsonView> {
    rules.map_values(|r: CodexLocalAccessCustomRoutingRule| rule_value(r))
}

fn rule_list(rules: &Vec<CodexLocalAccessCustomRoutingRule>) -> (r: Vec<JsonValue>)
    ensures
        items_view(r@) == rule_values(rules@),
{
    let mut out: Vec<JsonValue> = Vec::new();
    let n: usize = rules.len();
    let mut i: usize = 0;
    while i < n
        invariant
            n == rules@.len(),
            i <= n,
            items_view(out@) == rule_values(rules@.take(i as int)),
        decreases n - i,
    {
        let rule = &rules[i];
        let mut o: Vec<(String, JsonValue)> = Vec::new();
        push_entry(&mut o, "accountId", JsonValue::String(copy_string(&rule.account_id)));
        push_entry(&mut o, "priority", i64_json(rule.priority as i64));
        push_entry(&mut o, "weight", uint_json(rule.weight as u64));
        proof {
            if let JsonView::Object(e) = rule_value(*rule) {
                assert(entries_view(o@) =~= e);
            }
        }
        push_item(&mut out, JsonValue::Object(o));
        assert(rule_values(rules@.take(i + 1)) =~= rule_values(rules@.take(i as int)).push(
            rule_value(*rule),
        ));
        i = i + 1;
    }
    assert(rules@.take(n as int) =~= rules@);
    out
}

/// The id the sidecar knows an OAuth account by: its trimmed upstream account
/// id, else its own id.
pub open spec fn auth_account_id(account: CodexAccount) -> Seq<char> {
    match account.account_id {
        Some(a) => if trim(a@).len() > 0 {
            trim(a@)
        } else {
            account.id@
        },
        None => account.id@,
    }
}

/// The authentication file of an OAuth account, refreshed at `now_ms`.
pub open spec fn auth_value(
    account: CodexAccount,
    collection: CodexLocalAccessCollection,
    proxy_url: Option<Seq<char>>,
    now_ms: i64,
) -> JsonView {
    let base = seq![
        ("type"@, jtext("codex"@)),
        ("id_token"@, jtext(account.tokens.id_token@)),
        ("access_token"@, jtext(account.tokens.access_token@)),
        (
            "refresh_token"@,
            jtext(
                match account.tokens.refresh_token {
                    Some(t) => t@,
                    None => ""@,
                },
            ),
        ),
        ("account_id"@, jtext(auth_account_id(account))),
        ("last_refresh"@, jtext(signed_decimal(now_ms as int))),
        ("email"@, jtext(account.email@)),
        ("plan_type"@, jopt_text(opt_string_text(account.plan_type))),
        ("excluded_models"@, jtexts(texts(collection.excluded_models@))),
        ("disable_cooling"@, JsonView::Bool(collection.disable_cooling)),
    ];
    JsonView::Object(
        match proxy_url {
            Some(p) => base.push(("proxy_url"@, jtext(p))),
            None => base,
        },
    )
}

/// The authentication file of an OAuth account, refreshed at `now_ms`.
pub fn sidecar_auth_json_for_account(
    account: &CodexAccount,
    collection: &CodexLocalAccessCollection,
    proxy_url: &Option<String>,
    now_ms: i64,
) -> (r: JsonValue)
    ensures
        json_view(r) == auth_value(*account, *collection, opt_string_text(*proxy_url), now_ms),
{
    let account_id = match &account.account_id {
        Some(a) => {
            let t = trim_str(a.as_str());
            if chars_of(t.as_str()).len() > 0 {
                t
            } else {
                copy_string(&account.id)
            }
        },
        None => copy_string(&account.id),
    };
    let refresh = match &account.tokens.refresh_token {
        Some(t) => copy_string(t),
        None => lit(""),
    };
    let mut o: Vec<(String, JsonValue)> = Vec::new();
    push_entry(&mut o, "type", text_json("codex"));
    push_entry(&mut o, "id_token", JsonValue::String(copy_string(&account.tokens.id_token)));
    push_entry(&mut o, "access_token", JsonValue::String(copy_string(&account.tokens.access_token)));
    push_entry(&mut o, "refresh_token", JsonValue::String(refresh));
    push_entry(&mut o, "account_id", JsonValue::String(account_id));
    push_entry(&mut o, "last_refresh", JsonValue::String(signed_decimal_string(now_ms)));
    push_entry(&mut o, "email", JsonValue::String(copy_string(&account.email)));
    push_entry(&mut o, "plan_type", opt_text_json(&account.plan_type));
    push_entry(&mut o, "excluded_models", texts_json(&collection.excluded_models));
    push_entry(&mut o, "disable_cooling", JsonValue::Bool(collection.disable_cooling));
    match proxy_url {
        Some(p) => push_entry(&mut o, "proxy_url", JsonValue::String(copy_string(p))),
        None => {},
    }
    proof {
        if let JsonView::Object(e) = auth_value(*account, *collection, opt_string_text(*proxy_url), now_ms) {
            assert(entries_view(o@) =~= e);
        }
    }
    JsonValue::Object(o)
}

/// The manifest entry of an account, with the name of its authentication
/// file where it has one.
pub open spec fn account_manifest_value(account: CodexAccount, auth_id: Option<Seq<char>>) -> JsonView {
    JsonView::Object(
        seq![
            ("id"@, jtext(account.id@)),
            ("email"@, jtext(account.email@)),
            ("authId"@, jopt_text(auth_id)),
            (
                "upstreamApiKey"@,
                jtext(
                    match account.openai_api_key {
                        Some(k) => k@,
                        None => ""@,
                    },
                ),
            ),
            (
                "planRank"@,
                jopt_i64(
                    match plan_rank(opt_string_text(account.plan_type), opt_string_text(account.auth_file_plan_type)) {
                        Some(x) => Some(x as i64),
                        None => None,
                    },
                ),
            ),
            (
                "remainingQuota"@,
                jopt_i64(
                    match remaining_quota(account.quota) {
                        Some(x) => Some(x as i64),
                        None => None,
                    },
                ),
            ),
            ("subscriptionExpiryMs"@, jopt_i64(subscription_expiry_ms(opt_string_text(account.subscription_active_until)))),
        ],
    )
}

/// The manifest entry of an account.
pub fn sidecar_account_manifest_value(account: &CodexAccount, auth_id: &Option<String>) -> (r: JsonValue)
    ensures
        json_view(r) == account_manifest_value(*account, opt_string_text(*auth_id)),
{
    let key = match &account.openai_api_key {
        Some(k) => copy_string(k),
        None => lit(""),
    };
    let rank = match resolve_plan_rank(account) {
        Some(x) => Some(x as i64),
        None => None,
    };
    let quota = match resolve_remaining_quota(account) {
        Some(x) => Some(x as i64),
        None => None,
    };
    let mut o: Vec<(String, JsonValue)> = Vec::new();
    push_entry(&mut o, "id", JsonValue::String(copy_string(&account.id)));
    push_entry(&mut o, "email", JsonValue::String(copy_string(&account.email)));
    push_entry(&mut o, "authId", opt_text_json(auth_id));
    push_entry(&mut o, "upstreamApiKey", JsonValue::String(key));
    push_entry(&mut o, "planRank", opt_i64_json(rank));
    push_entry(&mut o, "remainingQuota", opt_i64_json(quota));
    push_entry(&mut o, "subscriptionExpiryMs", opt_i64_json(resolve_subscription_expiry_ms(account)));
    proof {
        if let JsonView::Object(e) = account_manifest_value(*account, opt_string_text(*auth_id)) {
            assert(entries_view(o@) =~= e);
        }
    }
    JsonValue::Object(o)
}

/// The sidecar entry of an API-key account: none without a key that is not
/// blank; its base URL is the account's (trimmed) or the OpenAI API's.
pub open spec fn codex_key_value(
    account: CodexAccount,
    collection: CodexLocalAccessCollection,
    proxy_url: Option<Seq<char>>,
) -> Option<JsonView> {
    match account.openai_api_key {
        Some(k) => if trim(k@).len() == 0 {
            None
        } else {
            let base_url = match account.api_base_url {
                Some(b) => if trim(b@).len() > 0 {
                    trim(b@)
                } else {
                    "https://api.openai.com/v1"@
                },
                None => "https://api.openai.com/v1"@,
            };
            let head = seq![("api-key"@, jtext(trim(k@))), ("base-url"@, jtext(base_url))];
            let with_proxy = match proxy_url {
                Some(p) => head.push(("proxy-url"@, jtext(p))),
                None => head,
            };
            Some(
                JsonView::Object(
                    with_proxy + seq![
                        ("models"@, JsonView::Array(alias_values(1, collection.model_aliases@))),
                        ("excluded-models"@, jtexts(texts(collection.excluded_models@))),
                        ("disable-cooling"@, JsonView::Bool(collection.disable_cooling)),
                    ],
                ),
            )
        },
        None => None,
    }
}

/// The sidecar entry of an API-key account.
pub fn sidecar_codex_key_config_value(
    account: &CodexAccount,
    collection: &CodexLocalAccessCollection,
    proxy_url: &Option<String>,
) -> (r: Option<JsonValue>)
    ensures
        match r {
            Some(v) => codex_key_value(*account, *collection, opt_string_text(*proxy_url)) == Some(
                json_view(v),
            ),
            None => codex_key_value(*account, *collection, opt_string_text(*proxy_url)) is None,
        },
{
    let key = match &account.openai_api_key {
        Some(k) => trim_str(k.as_str()),
        None => return None,
    };
    if chars_of(key.as_str()).len() == 0 {
        return None;
    }
    let base_url = match &account.api_base_url {
        Some(b) => {
            let t = trim_str(b.as_str());
            if chars_of(t.as_str()).len() > 0 {
                t
            } else {
                lit("https://api.openai.com/v1")
            }
        },
        None => lit("https://api.openai.com/v1"),
    };
    let mut o: Vec<(String, JsonValue)> = Vec::new();
    push_entry(&mut o, "api-key", JsonValue::String(key));
    push_entry(&mut o, "base-url", JsonValue::String(base_url));
    match proxy_url {
        Some(p) => push_entry(&mut o, "proxy-url", JsonValue::String(copy_string(p))),
        None => {},
    }
    push_entry(&mut o, "models", JsonValue::Array(sidecar_codex_key_model_values(collection)));
    push_entry(&mut o, "excluded-models", texts_json(&collection.excluded_models));
    push_entry(&mut o, "disable-cooling", JsonValue::Bool(collection.disable_cooling));
    proof {
        if let Some(JsonView::Object(e)) = codex_key_value(*account, *collection, opt_string_text(*proxy_url)) {
            assert(entries_view(o@) =~= e);
        }
    }
    Some(JsonValue::Object(o))
}


// ---------------------------------------------------------------------------
// The launch files
// ---------------------------------------------------------------------------

/// What the accounts give the launch files: the API-key entries of the
/// configuration, the account entries of the manifest, and the
/// authentication files by name.
pub type LaunchAccounts = (Seq<JsonView>, Seq<JsonView>, Seq<(Seq<char>, JsonView)>);

/// One account's share of the launch files. An account that may not serve
/// the gateway is left out; an API-key account gives a configuration entry
/// (and a manifest entry) where it has a key; an OAuth account gives an
/// authentication file under `name` and a manifest entry naming it.
pub open spec fn account_step(
    acc: LaunchAccounts,
    account: CodexAccount,
    name: Seq<char>,
    collection: CodexLocalAccessCollection,
    proxy_url: Option<Seq<char>>,
    now_ms: i64,
) -> LaunchAccounts {
    if !eligible(account, collection.restrict_free_accounts) {
        acc
    } else if account.auth_mode == CodexAuthMode::ApiKey {
        match codex_key_value(account, collection, proxy_url) {
            Some(v) => (acc.0.push(v), acc.1.push(account_manifest_value(account, None)), acc.2),
            None => acc,
        }
    } else {
        (
            acc.0,
            acc.1.push(account_manifest_value(account, Some(name))),
            acc.2.push((name, auth_value(account, collection, proxy_url, now_ms))),
        )
    }
}

/// The share of the first `n` accounts, in order.
pub open spec fn launch_accounts(
    accounts: Seq<CodexAccount>,
    names: Seq<Seq<char>>,
    collection: CodexLocalAccessCollection,
    proxy_url: Option<Seq<char>>,
    now_ms: i64,
    n: nat,
) -> LaunchAccounts
    decreases n,
{
    if n == 0 {
        (Seq::empty(), Seq::empty(), Seq::empty())
    } else {
        account_step(
            launch_accounts(accounts, names, collection, proxy_url, now_ms, (n - 1) as nat),
            accounts[n - 1],
            names[n - 1],
            collection,
            proxy_url,
            now_ms,
        )
    }
}

/// The retry interval in whole seconds, rounded up, as a 32-bit number.
pub open spec fn retry_interval_seconds(ms: u64) -> i32 {
    ((ms + 999) / 1000) as i32
}

/// The user agent the sidecar sends upstream.
pub open spec fn sidecar_user_agent() -> Seq<char> {
    "codex_cli_rs/0.118.0 (Mac OS 26.3.1; arm64) iTerm.app/3.6.9"@
}

/// The beta header that asks for Responses over WebSocket.
pub open spec fn websocket_beta() -> Seq<char> {
    "responses_websockets=2026-02-06"@
}

/// The entries every configuration starts with.
pub open spec fn config_base(collection: CodexLocalAccessCollection, auths_dir: Seq<char>) -> Seq<
    (Seq<char>, JsonView),
> {
    seq![
        ("host"@, jtext(bind_host(collection.access_scope))),
        ("port"@, juint(collection.port as u64)),
        ("auth-dir"@, jtext(auths_dir)),
        ("debug"@, JsonView::Bool(false)),
        ("request-log"@, JsonView::Bool(false)),
        ("logging-to-file"@, JsonView::Bool(false)),
        ("commercial-mode"@, JsonView::Bool(true)),
        ("ws-auth"@, JsonView::Bool(true)),
        ("disable-image-generation"@, image_switch(collection.image_generation_mode)),
        ("request-retry"@, juint(1)),
        ("max-retry-credentials"@, juint(collection.max_retry_credentials as u64)),
        ("max-retry-interval"@, i64_number(retry_interval_seconds(collection.max_retry_interval_ms) as i64)),
        ("disable-cooling"@, JsonView::Bool(collection.disable_cooling)),
        (
            "routing"@,
            JsonView::Object(
                seq![
                    ("strategy"@, jtext("round-robin"@)),
                    ("session-affinity"@, JsonView::Bool(collection.session_affinity)),
                    ("session-affinity-ttl"@, jtext(duration_text(collection.session_affinity_ttl_ms))),
                ],
            ),
        ),
    ]
}

/// The sidecar's configuration.
pub open spec fn sidecar_config(
    collection: CodexLocalAccessCollection,
    codex_keys: Seq<JsonView>,
    proxy_url: Option<Seq<char>>,
    auths_dir: Seq<char>,
) -> JsonView {
    let base = config_base(collection, auths_dir);
    let a = match proxy_url {
        Some(p) => base.push(("proxy-url"@, jtext(p))),
        None => base,
    };
    let b = if codex_keys.len() > 0 {
        a.push(("codex-api-key"@, JsonView::Array(codex_keys)))
    } else {
        a
    };
    let c = if collection.excluded_models@.len() > 0 {
        b.push(
            (
                "oauth-excluded-models"@,
                JsonView::Object(seq![("codex"@, jtexts(texts(collection.excluded_models@)))]),
            ),
        )
    } else {
        b
    };
    let d = if collection.model_aliases@.len() > 0 {
        c.push(
            (
                "oauth-model-alias"@,
                JsonView::Object(seq![("codex"@, JsonView::Array(alias_values(0, collection.model_aliases@)))]),
            ),
        )
    } else {
        c
    };
    JsonView::Object(
        d.push(
            (
                "codex-header-defaults"@,
                JsonView::Object(
                    seq![("user-agent"@, jtext(sidecar_user_agent())), ("beta-features"@, jtext(websocket_beta()))],
                ),
            ),
        ),
    )
}

/// The sidecar's manifest.
pub open spec fn sidecar_manifest(
    collection: CodexLocalAccessCollection,
    manifest_accounts: Seq<JsonView>,
    model_ids: Seq<Seq<char>>,
) -> JsonView {
    JsonView::Object(
        seq![
            ("apiKeys"@, JsonView::Array(manifest_keys(collection))),
            ("accounts"@, JsonView::Array(manifest_accounts)),
            ("modelIds"@, jtexts(model_ids)),
            ("modelAliases"@, JsonView::Array(alias_values(2, collection.model_aliases@))),
            ("excludedModels"@, jtexts(texts(collection.excluded_models@))),
            ("routingStrategy"@, jtext(strategy_name(collection.routing_strategy))),
            ("customRoutingRules"@, JsonView::Array(rule_values(collection.custom_routing_rules@))),
        ],
    )
}

/// The files that launch the sidecar.
pub struct SidecarLaunchFiles {
    pub config: JsonValue,
    pub manifest: JsonValue,
    pub auth_files: Vec<(String, JsonValue)>,
}

/// The authentication files by name and view.
pub open spec fn auth_files_view(v: Seq<(String, JsonValue)>) -> Seq<(Seq<char>, JsonView)> {
    v.map_values(|f: (String, JsonValue)| (f.0@, json_view(f.1)))
}

/// The accounts' share of the launch files, in order.
fn launch_account_entries(
    collection: &CodexLocalAccessCollection,
    accounts: &Vec<CodexAccount>,
    auth_file_names: &Vec<String>,
    effective_proxy_url: &Option<String>,
    now_ms: i64,
) -> (r: (Vec<JsonValue>, Vec<JsonValue>, Vec<(String, JsonValue)>))
    requires
        auth_file_names@.len() == accounts@.len(),
    ensures
        ({
            let acc = launch_accounts(
                accounts@,
                texts(auth_file_names@),
                *collection,
                opt_string_text(*effective_proxy_url),
                now_ms,
                accounts@.len(),
            );
            &&& items_view(r.0@) == acc.0
            &&& items_view(r.1@) == acc.1
            &&& auth_files_view(r.2@) == acc.2
        }),
{
    let ghost proxy = opt_string_text(*effective_proxy_url);
    let ghost names = texts(auth_file_names@);
    let mut codex_keys: Vec<JsonValue> = Vec::new();
    let mut manifest_accounts: Vec<JsonValue> = Vec::new();
    let mut auth_files: Vec<(String, JsonValue)> = Vec::new();
    let n: usize = accounts.len();
    let mut i: usize = 0;
    while i < n
        invariant
            n == accounts@.len(),
            auth_file_names@.len() == n,
            names == texts(auth_file_names@),
            proxy == opt_string_text(*effective_proxy_url),
            i <= n,
            ({
                let acc = launch_accounts(accounts@, names, *collection, proxy, now_ms, i as nat);
                &&& items_view(codex_keys@) == acc.0
                &&& items_view(manifest_accounts@) == acc.1
                &&& auth_files_view(auth_files@) == acc.2
            }),
        decreases n - i,
    {
        let account = &accounts[i];
        let ghost before = launch_accounts(accounts@, names, *collection, proxy, now_ms, i as nat);
        assert(launch_accounts(accounts@, names, *collection, proxy, now_ms, (i + 1) as nat)
            == account_step(before, accounts@[i as int], names[i as int], *collection, proxy, now_ms));
        if is_local_access_eligible_account(account, collection.restrict_free_accounts) {
            if account.is_api_key_auth() {
                match sidecar_codex_key_config_value(account, collection, effective_proxy_url) {
                    Some(v) => {
                        push_item(&mut codex_keys, v);
                        push_item(&mut manifest_accounts, sidecar_account_manifest_value(account, &None));
                    },
                    None => {},
                }
            } else {
                let name = copy_string(&auth_file_names[i]);
                let auth = sidecar_auth_json_for_account(account, collection, effective_proxy_url, now_ms);
                let some_name = Some(copy_string(&name));
                push_item(&mut manifest_accounts, sidecar_account_manifest_value(account, &some_name));
                let ghost prev = auth_files@;
                auth_files.push((name, auth));
                assert(auth_files_view(auth_files@) =~= auth_files_view(prev).push(
                    (names[i as int], auth_value(*account, *collection, proxy, now_ms)),
                ));
            }
        }
        i = i + 1;
    }
    (codex_keys, manifest_accounts, auth_files)
}

/// The entries every configuration starts with.
fn config_base_entries(collection: &CodexLocalAccessCollection, auths_dir: &str) -> (r: Vec<(String, JsonValue)>)
    requires
        collection.max_retry_interval_ms <= u64::MAX - 999,
    ensures
        entries_view(r@) == config_base(*collection, auths_dir@),
{
    let mut config: Vec<(String, JsonValue)> = Vec::new();
    push_entry(&mut config, "host", JsonValue::String(bind_host_for_collection(collection)));
    push_entry(&mut config, "port", uint_json(collection.port as u64));
    push_entry(&mut config, "auth-dir", text_json(auths_dir));
    push_entry(&mut config, "debug", JsonValue::Bool(false));
    push_entry(&mut config, "request-log", JsonValue::Bool(false));
    push_entry(&mut config, "logging-to-file", JsonValue::Bool(false));
    push_entry(&mut config, "commercial-mode", JsonValue::Bool(true));
    push_entry(&mut config, "ws-auth", JsonValue::Bool(true));
    push_entry(
        &mut config,
        "disable-image-generation",
        sidecar_disable_image_generation_value(collection.image_generation_mode),
    );
    push_entry(&mut config, "request-retry", uint_json(1));
    push_entry(&mut config, "max-retry-credentials", uint_json(collection.max_retry_credentials as u64));
    let interval: i32 = #[verifier::truncate] (((collection.max_retry_interval_ms + 999) / 1000) as i32);
    assert(interval == retry_interval_seconds(collection.max_retry_interval_ms));
    push_entry(&mut config, "max-retry-interval", i64_json(interval as i64));
    push_entry(&mut config, "disable-cooling", JsonValue::Bool(collection.disable_cooling));
    let mut routing: Vec<(String, JsonValue)> = Vec::new();
    push_entry(&mut routing, "strategy", text_json("round-robin"));
    push_entry(&mut routing, "session-affinity", JsonValue::Bool(collection.session_affinity));
    push_entry(
        &mut routing,
        "session-affinity-ttl",
        JsonValue::String(sidecar_duration_ms(collection.session_affinity_ttl_ms)),
    );
    proof {
        assert(entries_view(routing@) =~= seq![
            ("strategy"@, jtext("round-robin"@)),
            ("session-affinity"@, JsonView::Bool(collection.session_affinity)),
            ("session-affinity-ttl"@, jtext(duration_text(collection.session_affinity_ttl_ms))),
        ]);
    }
    push_entry(&mut config, "routing", JsonValue::Object(routing));
    assert(entries_view(config@) =~= config_base(*collection, auths_dir@));
    config
}

/// The configuration as a value.
fn sidecar_config_json(
    collection: &CodexLocalAccessCollection,
    codex_keys: Vec<JsonValue>,
    effective_proxy_url: &Option<String>,
    auths_dir: &str,
) -> (r: JsonValue)
    requires
        collection.max_retry_interval_ms <= u64::MAX - 999,
    ensures
        json_view(r) == sidecar_config(
            *collection,
            items_view(codex_keys@),
            opt_string_text(*effective_proxy_url),
            auths_dir@,
        ),
{
    let ghost keys = items_view(codex_keys@);
    let mut config = config_base_entries(collection, auths_dir);
    match effective_proxy_url {
        Some(p) => push_entry(&mut config, "proxy-url", JsonValue::String(copy_string(p))),
        None => {},
    }
    if codex_keys.len() > 0 {
        push_entry(&mut config, "codex-api-key", JsonValue::Array(codex_keys));
    }
    if collection.excluded_models.len() > 0 {
        let mut o: Vec<(String, JsonValue)> = Vec::new();
        push_entry(&mut o, "codex", texts_json(&collection.excluded_models));
        assert(entries_view(o@) =~= seq![("codex"@, jtexts(texts(collection.excluded_models@)))]);
        push_entry(&mut config, "oauth-excluded-models", JsonValue::Object(o));
    }
    if collection.model_aliases.len() > 0 {
        let mut o: Vec<(String, JsonValue)> = Vec::new();
        push_entry(&mut o, "codex", JsonValue::Array(sidecar_model_alias_values(collection)));
        assert(entries_view(o@) =~= seq![("codex"@, JsonView::Array(alias_values(0, collection.model_aliases@)))]);
        push_entry(&mut config, "oauth-model-alias", JsonValue::Object(o));
    }
    let mut headers: Vec<(String, JsonValue)> = Vec::new();
    push_entry(
        &mut headers,
        "user-agent",
        text_json("codex_cli_rs/0.118.0 (Mac OS 26.3.1; arm64) iTerm.app/3.6.9"),
    );
    push_entry(&mut headers, "beta-features", text_json("responses_websockets=2026-02-06"));
    assert(entries_view(headers@) =~= seq![("user-agent"@, jtext(sidecar_user_agent())), ("beta-features"@, jtext(websocket_beta()))]);
    push_entry(&mut config, "codex-header-defaults", JsonValue::Object(headers));
    proof {
        if let JsonView::Object(e) = sidecar_config(*collection, keys, opt_string_text(*effective_proxy_url), auths_dir@) {
            assert(entries_view(config@) =~= e);
        }
    }
    JsonValue::Object(config)
}

/// The manifest as a value.
fn sidecar_manifest_json(
    collection: &CodexLocalAccessCollection,
    manifest_accounts: Vec<JsonValue>,
    model_ids: &Vec<String>,
) -> (r: JsonValue)
    ensures
        json_view(r) == sidecar_manifest(*collection, items_view(manifest_accounts@), texts(model_ids@)),
{
    let ghost accounts = items_view(manifest_accounts@);
    let mut manifest: Vec<(String, JsonValue)> = Vec::new();
    push_entry(&mut manifest, "apiKeys", JsonValue::Array(sidecar_api_key_manifest_values(collection)));
    push_entry(&mut manifest, "accounts", JsonValue::Array(manifest_accounts));
    push_entry(&mut manifest, "modelIds", texts_json(model_ids));
    push_entry(&mut manifest, "modelAliases", JsonValue::Array(alias_list(2, &collection.model_aliases)));
    push_entry(&mut manifest, "excludedModels", texts_json(&collection.excluded_models));
    push_entry(
        &mut manifest,
        "routingStrategy",
        JsonValue::String(sidecar_routing_strategy_value(collection.routing_strategy)),
    );
    push_entry(&mut manifest, "customRoutingRules", JsonValue::Array(rule_list(&collection.custom_routing_rules)));
    proof {
        if let JsonView::Object(e) = sidecar_manifest(*collection, accounts, texts(model_ids@)) {
            assert(entries_view(manifest@) =~= e);
        }
    }
    JsonValue::Object(manifest)
}

/// Builds the launch files from the collection, the accounts it names that
/// could be loaded (in its order), the file name each OAuth account's
/// authentication goes under, the models to serve, the proxy in effect, the
/// directory of the authentication files and the time of refresh.
pub fn build_sidecar_launch_files(
    collection: &CodexLocalAccessCollection,
    accounts: &Vec<CodexAccount>,
    auth_file_names: &Vec<String>,
    model_ids: &Vec<String>,
    effective_proxy_url: &Option<String>,
    auths_dir: &str,
    now_ms: i64,
) -> (r: SidecarLaunchFiles)
    requires
        auth_file_names@.len() == accounts@.len(),
        collection.max_retry_interval_ms <= u64::MAX - 999,
    ensures
        ({
            let acc = launch_accounts(
                accounts@,
                texts(auth_file_names@),
                *collection,
                opt_string_text(*effective_proxy_url),
                now_ms,
                accounts@.len(),
            );
            &&& json_view(r.config) == sidecar_config(
                *collection,
                acc.0,
                opt_string_text(*effective_proxy_url),
                auths_dir@,
            )
            &&& json_view(r.manifest) == sidecar_manifest(*collection, acc.1, texts(model_ids@))
            &&& auth_files_view(r.auth_files@) == acc.2
        }),
{
    let (codex_keys, manifest_accounts, auth_files) = launch_account_entries(
        collection,
        accounts,
        auth_file_names,
        effective_proxy_url,
        now_ms,
    );
    SidecarLaunchFiles {
        config: sidecar_config_json(collection, codex_keys, effective_proxy_url, auths_dir),
        manifest: sidecar_manifest_json(collection, manifest_accounts, model_ids),
        auth_files,
    }
}

/// The launch files as the text that goes to disk: each pretty-printed.
pub open spec fn launch_texts(files: SidecarLaunchFiles) -> (Seq<char>, Seq<char>, Seq<(Seq<char>, Seq<char>)>) {
    (
        json_pretty_text(json_view(files.config)),
        json_pretty_text(json_view(files.manifest)),
        files.auth_files@.map_values(|f: (String, JsonValue)| (f.0@, json_pretty_text(json_view(f.1)))),
    )
}

/// Writes the launch files out as text: the configuration, the manifest and
/// each authentication file by name.
pub fn render_sidecar_launch_files(files: &SidecarLaunchFiles) -> (r: (String, String, Vec<(String, String)>))
    ensures
        r.0@ == launch_texts(*files).0,
        r.1@ == launch_texts(*files).1,
        r.2@.map_values(|f: (String, String)| (f.0@, f.1@)) == launch_texts(*files).2,
{
    let config = match json_to_string_pretty(&files.config) {
        Ok(t) => t,
        Err(e) => e,
    };
    let manifest = match json_to_string_pretty(&files.manifest) {
        Ok(t) => t,
        Err(e) => e,
    };
    let mut auths: Vec<(String, String)> = Vec::new();
    let n: usize = files.auth_files.len();
    let mut i: usize = 0;
    while i < n
        invariant
            n == files.auth_files@.len(),
            i <= n,
            auths@.map_values(|f: (String, String)| (f.0@, f.1@)) == files.auth_files@.take(
                i as int,
            ).map_values(|f: (String, JsonValue)| (f.0@, json_pretty_text(json_view(f.1)))),
        decreases n - i,
    {
        let text = match json_to_string_pretty(&files.auth_files[i].1) {
            Ok(t) => t,
            Err(e) => e,
        };
        let ghost prev = auths@;
        auths.push((copy_string(&files.auth_files[i].0), text));
        assert(auths@.map_values(|f: (String, String)| (f.0@, f.1@)) =~= prev.map_values(
            |f: (String, String)| (f.0@, f.1@),
        ).push((files.auth_files@[i as int].0@, json_pretty_text(json_view(files.auth_files@[i as int].1)))));
        assert(files.auth_files@.take(i + 1).map_values(
            |f: (String, JsonValue)| (f.0@, json_pretty_text(json_view(f.1))),
        ) =~= files.auth_files@.take(i as int).map_values(
            |f: (String, JsonValue)| (f.0@, json_pretty_text(json_view(f.1))),
        ).push((files.auth_files@[i as int].0@, json_pretty_text(json_view(files.auth_files@[i as int].1)))));
        i = i + 1;
    }
    assert(files.auth_files@.take(n as int) =~= files.auth_files@);
    (config, manifest, auths)
}

} // verus!
