//! The local-access collection: the gateway's settings, its client API keys
//! and the accounts it routes to, and how a stored collection is brought back
//! into shape.
use rand::Rng;
use vstd::prelude::*;
use crate::account::CodexAccount;
use crate::models::{
    CodexLocalAccessModelAlias, alias_views, normalized_aliases, normalize_model_aliases,
    distinct_trimmed, normalize_model_rule_list, model_prefix_of, normalize_model_prefix_value,
};
use crate::routing::{
    CodexLocalAccessRoutingStrategy, CodexLocalAccessCustomRoutingRule, rule_views, normalized_rules,
    normalize_custom_routing_rules,
};
use crate::models::{key_seen, remember};
use crate::text::{
    trim, chars_of, string_of, trim_vec, lit, copy_string, copy_strings, copy_opt_string, texts,
    opt_string_text, str_eq, concat_str,
};

verus! {

broadcast use vstd::string::group_string_axioms;

/// Who may reach the gateway.
#[derive(Debug, Clone, Copy, PartialEq, Eq, Structural)]
pub enum CodexLocalAccessScope {
    Localhost,
    Lan,
}

/// Whether requests may use the image generation tool.
#[derive(Debug, Clone, Copy, PartialEq, Eq, Structural)]
pub enum CodexLocalAccessImageGenerationMode {
    Enabled,
    ImagesOnly,
    Disabled,
}

/// What is known of an account's image generation.
#[derive(Debug, Clone, Copy, PartialEq, Eq, Structural)]
pub enum CodexLocalAccessImageGenerationStatus {
    Unknown,
    Available,
    Unavailable,
    Disabled,
}

/// A client API key of the gateway.
#[derive(Debug, Clone)]
pub struct CodexLocalAccessApiKey {
    pub id: String,
    pub label: String,
    pub key: String,
    pub model_prefix: Option<String>,
    pub allowed_models: Vec<String>,
    pub excluded_models: Vec<String>,
    pub enabled: bool,
    pub created_at: i64,
    pub updated_at: i64,
    pub last_used_at: Option<i64>,
}

/// The gateway's settings and the accounts it routes to.
#[derive(Debug, Clone)]
pub struct CodexLocalAccessCollection {
    pub enabled: bool,
    pub port: u16,
    pub api_key: String,
    pub api_keys: Vec<CodexLocalAccessApiKey>,
    pub access_scope: CodexLocalAccessScope,
    pub image_generation_mode: CodexLocalAccessImageGenerationMode,
    pub upstream_proxy_url: Option<String>,
    pub routing_strategy: CodexLocalAccessRoutingStrategy,
    pub custom_routing_rules: Vec<CodexLocalAccessCustomRoutingRule>,
    pub model_aliases: Vec<CodexLocalAccessModelAlias>,
    pub excluded_models: Vec<String>,
    pub session_affinity: bool,
    pub session_affinity_ttl_ms: i64,
    pub max_retry_credentials: u16,
    pub max_retry_interval_ms: u64,
    pub disable_cooling: bool,
    pub restrict_free_accounts: bool,
    pub bound_oauth_account_id: Option<String>,
    pub account_ids: Vec<String>,
    pub created_at: i64,
    pub updated_at: i64,
}

/// The client key a request presented, as the gateway applies it.
#[derive(Debug, Clone)]
pub struct ResolvedLocalApiKey {
    pub id: String,
    pub label: String,
    pub model_prefix: Option<String>,
    pub allowed_models: Vec<String>,
    pub excluded_models: Vec<String>,
}

/// The label of a key that has none.
pub open spec fn default_label() -> Seq<char> {
    "Default"@
}

/// The label of a key that has none.
pub fn default_local_api_key_label() -> (r: String)
    ensures
        r@ == default_label(),
{
    lit("Default")
}

/// A key's label: the trimmed label, else the trimmed fallback, else the
/// default label.
pub open spec fn api_key_label(label: Option<Seq<char>>, fallback: Seq<char>) -> Seq<char> {
    let chosen = match label {
        Some(l) => if trim(l).len() > 0 {
            trim(l)
        } else {
            trim(fallback)
        },
        None => trim(fallback),
    };
    if chosen.len() == 0 {
        default_label()
    } else {
        chosen
    }
}

/// A key's label, normalized.
pub fn normalize_api_key_label(label: Option<&str>, fallback: &str) -> (r: String)
    ensures
        r@ == api_key_label(
            match label {
                Some(l) => Some(l@),
                None => None,
            },
            fallback@,
        ),
{
    let chosen = match label {
        Some(l) => {
            let t = trim_vec(&chars_of(l));
            if t.len() > 0 {
                t
            } else {
                trim_vec(&chars_of(fallback))
            }
        },
        None => trim_vec(&chars_of(fallback)),
    };
    if chosen.len() == 0 {
        default_local_api_key_label()
    } else {
        string_of(&chosen)
    }
}

/// An ASCII letter or digit.
pub open spec fn is_alnum(c: char) -> bool {
    ('0' <= c && c <= '9') || ('a' <= c && c <= 'z') || ('A' <= c && c <= 'Z')
}

/// `prefix` followed by `n` ASCII letters and digits.
pub open spec fn is_random_token(s: Seq<char>, prefix: Seq<char>, n: int) -> bool {
    &&& s.len() == prefix.len() + n
    &&& s.take(prefix.len() as int) == prefix
    &&& forall|i: int| prefix.len() <= i < s.len() ==> is_alnum(#[trigger] s[i])
}

/// `n` random ASCII letters and digits from `rand::distributions::Alphanumeric`
/// on `rand::thread_rng`. Only their number and alphabet are promised.
#[verifier::external_body]
fn random_alphanumeric(n: usize) -> (r: String)
    ensures
        r@.len() == n,
        forall|i: int| 0 <= i < r@.len() ==> is_alnum(#[trigger] r@[i]),
{
    rand::thread_rng().sample_iter(&rand::distributions::Alphanumeric).take(n).map(char::from).collect()
}

/// A fresh client key: `agt_codex_` and 32 random letters and digits.
pub fn generate_local_api_key() -> (r: String)
    ensures
        is_random_token(r@, "agt_codex_"@, 32),
{
    let suffix = random_alphanumeric(32);
    let r = concat_str("agt_codex_", suffix.as_str());
    proof {
        assert(r@.take("agt_codex_"@.len() as int) =~= "agt_codex_"@);
        assert forall|i: int| "agt_codex_"@.len() <= i < r@.len() implies is_alnum(#[trigger] r@[i]) by {
            assert(r@[i] == suffix@[i - "agt_codex_"@.len()]);
        }
    }
    r
}

/// A fresh key id: `key_` and 12 random letters and digits.
pub fn generate_local_api_key_id() -> (r: String)
    ensures
        is_random_token(r@, "key_"@, 12),
{
    let suffix = random_alphanumeric(12);
    let r = concat_str("key_", suffix.as_str());
    proof {
        assert(r@.take("key_"@.len() as int) =~= "key_"@);
        assert forall|i: int| "key_"@.len() <= i < r@.len() implies is_alnum(#[trigger] r@[i]) by {
            assert(r@[i] == suffix@[i - "key_"@.len()]);
        }
    }
    r
}

/// The first enabled key with exactly the given text.
pub open spec fn first_enabled_key(keys: Seq<CodexLocalAccessApiKey>, key: Seq<char>) -> Option<int> {
    if exists|i: int| 0 <= i < keys.len() && keys[i].enabled && #[trigger] keys[i].key@ == key {
        Some(
            choose|i: int|
                0 <= i < keys.len() && keys[i].enabled && #[trigger] keys[i].key@ == key && forall|j: int|
                    0 <= j < i ==> !(keys[j].enabled && #[trigger] keys[j].key@ == key),
        )
    } else {
        None
    }
}

/// What a presented key resolves to: the first enabled key with that text
/// (trimmed), else the legacy single key as `legacy` with the default label
/// and no rules; nothing for a blank key.
pub open spec fn resolved_key(collection: CodexLocalAccessCollection, api_key: Seq<char>) -> Option<
    (Seq<char>, Seq<char>, Option<Seq<char>>, Seq<Seq<char>>, Seq<Seq<char>>),
> {
    let k = trim(api_key);
    if k.len() == 0 {
        None
    } else {
        match first_enabled_key(collection.api_keys@, k) {
            Some(i) => {
                let item = collection.api_keys@[i];
                Some(
                    (
                        item.id@,
                        item.label@,
                        opt_string_text(item.model_prefix),
                        texts(item.allowed_models@),
                        texts(item.excluded_models@),
                    ),
                )
            },
            None => if collection.api_key@ == k {
                Some(("legacy"@, default_label(), None, Seq::empty(), Seq::empty()))
            } else {
                None
            },
        }
    }
}

/// The values of a resolved key.
pub open spec fn resolved_view(r: ResolvedLocalApiKey) -> (
    Seq<char>,
    Seq<char>,
    Option<Seq<char>>,
    Seq<Seq<char>>,
    Seq<Seq<char>>,
) {
    (r.id@, r.label@, opt_string_text(r.model_prefix), texts(r.allowed_models@), texts(r.excluded_models@))
}

/// What a presented key resolves to, if anything.
pub fn resolve_collection_api_key(collection: &CodexLocalAccessCollection, api_key: &str) -> (r: Option<
    ResolvedLocalApiKey,
>)
    ensures
        match r {
            Some(x) => resolved_key(*collection, api_key@) == Some(resolved_view(x)),
            None => resolved_key(*collection, api_key@) is None,
        },
{
    let k = string_of(&trim_vec(&chars_of(api_key)));
    if chars_of(k.as_str()).len() == 0 {
        return None;
    }
    let keys = &collection.api_keys;
    let mut i: usize = 0;
    while i < keys.len()
        invariant
            i <= keys.len(),
            k@ == trim(api_key@),
            k@.len() > 0,
            keys == &collection.api_keys,
            forall|j: int| 0 <= j < i ==> !(keys@[j].enabled && #[trigger] keys@[j].key@ == k@),
        decreases keys.len() - i,
    {
        let item = &keys[i];
        if item.enabled && str_eq(item.key.as_str(), k.as_str()) {
            proof {
                let c = choose|c: int|
                    0 <= c < keys@.len() && keys@[c].enabled && #[trigger] keys@[c].key@ == k@ && forall|j: int|
                        0 <= j < c ==> !(keys@[j].enabled && #[trigger] keys@[j].key@ == k@);
                assert(keys@[i as int].enabled && keys@[i as int].key@ == k@);
                if c < i {
                    assert(!(keys@[c].enabled && keys@[c].key@ == k@));
                }
                if c > i {
                    assert(!(keys@[i as int].enabled && keys@[i as int].key@ == k@));
                }
            }
            return Some(
                ResolvedLocalApiKey {
                    id: copy_string(&item.id),
                    label: copy_string(&item.label),
                    model_prefix: copy_opt_string(&item.model_prefix),
                    allowed_models: copy_strings(&item.allowed_models),
                    excluded_models: copy_strings(&item.excluded_models),
                },
            );
        }
        i = i + 1;
    }
    if str_eq(collection.api_key.as_str(), k.as_str()) {
        let r = ResolvedLocalApiKey {
            id: lit("legacy"),
            label: default_local_api_key_label(),
            model_prefix: None,
            allowed_models: Vec::new(),
            excluded_models: Vec::new(),
        };
        proof {
            assert(texts(r.allowed_models@) =~= Seq::<Seq<char>>::empty());
            assert(texts(r.excluded_models@) =~= Seq::<Seq<char>>::empty());
        }
        Some(r)
    } else {
        None
    }
}

// ---------------------------------------------------------------------------
// Normalizing the client keys
// ---------------------------------------------------------------------------

/// A kept key as normalization leaves it; `id` is `None` where a fresh id is
/// drawn.
pub struct KeyShape {
    pub id: Option<Seq<char>>,
    pub label: Seq<char>,
    pub key: Seq<char>,
    pub model_prefix: Option<Seq<char>>,
    pub allowed_models: Seq<Seq<char>>,
    pub excluded_models: Seq<Seq<char>>,
    pub enabled: bool,
    pub created_at: i64,
    pub updated_at: i64,
    pub last_used_at: Option<i64>,
}

/// The label fallback of a stored key.
pub open spec fn stored_key_fallback() -> Seq<char> {
    "API Key"@
}

/// Normalizing the stored keys in order: a key whose trimmed text is blank
/// or was seen drops out; a kept key gets its text trimmed, a fresh id when
/// its trimmed id is blank or taken, its label, prefix and model rules
/// normalized, and `now` for a non-positive time. The flag tells whether
/// anything was dropped, drawn anew or rewritten (trimming a key or an id
/// alone does not count).
pub open spec fn keys_fold(items: Seq<CodexLocalAccessApiKey>, now: i64) -> (
    Seq<KeyShape>,
    Set<Seq<char>>,
    Set<Seq<char>>,
    bool,
)
    decreases items.len(),
{
    if items.len() == 0 {
        (Seq::empty(), Set::empty(), Set::empty(), false)
    } else {
        let prev = keys_fold(items.drop_last(), now);
        let item = items.last();
        let key = trim(item.key@);
        if key.len() == 0 || prev.1.contains(key) {
            (prev.0, prev.1, prev.2, true)
        } else {
            let tid = trim(item.id@);
            let fresh = tid.len() == 0 || prev.2.contains(tid);
            let label = api_key_label(Some(item.label@), stored_key_fallback());
            let prefix = model_prefix_of(opt_string_text(item.model_prefix));
            let allowed = distinct_trimmed(texts(item.allowed_models@));
            let excluded = distinct_trimmed(texts(item.excluded_models@));
            let shape = KeyShape {
                id: if fresh {
                    None
                } else {
                    Some(tid)
                },
                label,
                key,
                model_prefix: prefix,
                allowed_models: allowed,
                excluded_models: excluded,
                enabled: item.enabled,
                created_at: if item.created_at <= 0 {
                    now
                } else {
                    item.created_at
                },
                updated_at: if item.updated_at <= 0 {
                    now
                } else {
                    item.updated_at
                },
                last_used_at: item.last_used_at,
            };
            let item_changed = fresh || label != item.label@ || item.created_at <= 0 || item.updated_at
                <= 0 || prefix != opt_string_text(item.model_prefix) || allowed != texts(
                item.allowed_models@,
            ) || excluded != texts(item.excluded_models@);
            (
                prev.0.push(shape),
                prev.1.insert(key),
                if fresh {
                    prev.2
                } else {
                    prev.2.insert(tid)
                },
                prev.3 || item_changed,
            )
        }
    }
}

/// A key has the shape normalization gave it.
pub open spec fn has_shape(k: CodexLocalAccessApiKey, s: KeyShape) -> bool {
    &&& match s.id {
        Some(id) => k.id@ == id,
        None => is_random_token(k.id@, "key_"@, 12),
    }
    &&& k.label@ == s.label
    &&& k.key@ == s.key
    &&& opt_string_text(k.model_prefix) == s.model_prefix
    &&& texts(k.allowed_models@) == s.allowed_models
    &&& texts(k.excluded_models@) == s.excluded_models
    &&& k.enabled == s.enabled
    &&& k.created_at == s.created_at
    &&& k.updated_at == s.updated_at
    &&& k.last_used_at == s.last_used_at
}

/// Every key has its shape.
pub open spec fn all_have_shapes(keys: Seq<CodexLocalAccessApiKey>, shapes: Seq<KeyShape>) -> bool {
    keys.len() == shapes.len() && forall|i: int| 0 <= i < keys.len() ==> has_shape(#[trigger] keys[i], shapes[i])
}

/// A fresh key: a random id and key text, the given label, no prefix or
/// rules, enabled, created and updated `now`.
pub open spec fn is_fresh_key(k: CodexLocalAccessApiKey, label: Seq<char>, key: Option<Seq<char>>, now: i64) -> bool {
    &&& is_random_token(k.id@, "key_"@, 12)
    &&& k.label@ == label
    &&& match key {
        Some(t) => k.key@ == t,
        None => is_random_token(k.key@, "agt_codex_"@, 32),
    }
    &&& k.model_prefix is None
    &&& k.allowed_models@.len() == 0
    &&& k.excluded_models@.len() == 0
    &&& k.enabled
    &&& k.created_at == now
    &&& k.updated_at == now
    &&& k.last_used_at is None
}

/// The primary key text: the first enabled key's, else the first key's.
pub open spec fn primary_key(keys: Seq<CodexLocalAccessApiKey>) -> Seq<char> {
    if exists|i: int| 0 <= i < keys.len() && #[trigger] keys[i].enabled {
        keys[choose|i: int| 0 <= i < keys.len() && #[trigger] keys[i].enabled && forall|j: int| 0 <= j < i ==> !#[trigger] keys[j].enabled].key@
    } else {
        keys[0].key@
    }
}

/// What normalizing the keys does (see `normalize_collection_api_keys`),
/// from the legacy key text and the stored keys to the primary key text, the
/// keys, and whether anything changed.
pub open spec fn keys_step(
    api_key: Seq<char>,
    keys: Seq<CodexLocalAccessApiKey>,
    after_key: Seq<char>,
    after_keys: Seq<CodexLocalAccessApiKey>,
    now: i64,
    changed: bool,
) -> bool {
    if keys.len() == 0 {
        &&& changed
        &&& after_keys.len() == 1
        &&& is_fresh_key(
            after_keys[0],
            default_label(),
            if trim(api_key).len() > 0 {
                Some(trim(api_key))
            } else {
                None
            },
            now,
        )
        &&& after_key == after_keys[0].key@
    } else if keys_fold(keys, now).0.len() > 0 {
        &&& all_have_shapes(after_keys, keys_fold(keys, now).0)
        &&& after_key == primary_key(after_keys)
        &&& changed == (keys_fold(keys, now).3 || api_key != primary_key(after_keys))
    } else {
        &&& changed
        &&& after_keys.len() == 1
        &&& is_fresh_key(after_keys[0], default_label(), None, now)
        &&& after_key == after_keys[0].key@
    }
}

/// The keys as normalization leaves them: at least one; each key text
/// trimmed, not blank and held once; each label trimmed and not blank; and
/// the primary key text is the first enabled key's (else the first key's).
pub open spec fn keys_shaped(api_key: Seq<char>, keys: Seq<CodexLocalAccessApiKey>) -> bool {
    &&& keys.len() > 0
    &&& forall|i: int|
        0 <= i < keys.len() ==> {
            &&& trim(#[trigger] keys[i].key@) == keys[i].key@
            &&& keys[i].key@.len() > 0
            &&& trim(keys[i].label@) == keys[i].label@
            &&& keys[i].label@.len() > 0
        }
    &&& forall|i: int, j: int|
        0 <= i < j < keys.len() ==> #[trigger] keys[i].key@ != #[trigger] keys[j].key@
    &&& api_key == primary_key(keys)
}

/// The keys as normalization leaves them at a positive time: shaped, and
/// each time positive.
pub open spec fn keys_normalized(api_key: Seq<char>, keys: Seq<CodexLocalAccessApiKey>) -> bool {
    &&& keys_shaped(api_key, keys)
    &&& forall|i: int| 0 <= i < keys.len() ==> #[trigger] keys[i].created_at > 0 && keys[i].updated_at > 0
}

/// A text that starts and ends with something other than whitespace is its
/// own trim.
proof fn lemma_trim_fixed(s: Seq<char>)
    requires
        s.len() > 0,
        !crate::text::is_ws(s[0]),
        !crate::text::is_ws(s.last()),
    ensures
        trim(s) == s,
{
    crate::text::lemma_trim_start_at(s, 0);
    assert(s.skip(0) =~= s);
    crate::text::lemma_trim_end_at(s, s.len() as int);
    assert(s.take(s.len() as int) =~= s);
}

/// A label that normalization gives is trimmed and not blank.
proof fn lemma_label_normal(label: Option<Seq<char>>, fallback: Seq<char>)
    ensures
        trim(api_key_label(label, fallback)) == api_key_label(label, fallback),
        api_key_label(label, fallback).len() > 0,
{
    reveal_strlit("Default");
    lemma_trim_fixed(default_label());
    match label {
        Some(l) => crate::text::lemma_trim_idempotent(l),
        None => {},
    }
    crate::text::lemma_trim_idempotent(fallback);
}

/// A random key text or id is trimmed and not blank.
proof fn lemma_token_trimmed(s: Seq<char>, prefix: Seq<char>, n: int)
    requires
        is_random_token(s, prefix, n),
        prefix.len() > 0,
        n > 0,
        !crate::text::is_ws(prefix[0]),
    ensures
        trim(s) == s,
        s.len() > 0,
{
    assert(s[0] == s.take(prefix.len() as int)[0]);
    assert(is_alnum(s[s.len() - 1]));
    lemma_trim_fixed(s);
}

/// What the fold keeps: each shape's key text trimmed, not blank and seen,
/// held once; each label trimmed and not blank; each time positive.
proof fn lemma_fold_shapes(items: Seq<CodexLocalAccessApiKey>, now: i64)
    ensures
        ({
            let f = keys_fold(items, now);
            &&& forall|i: int|
                0 <= i < f.0.len() ==> {
                    &&& trim(#[trigger] f.0[i].key) == f.0[i].key
                    &&& f.0[i].key.len() > 0
                    &&& f.1.contains(f.0[i].key)
                    &&& trim(f.0[i].label) == f.0[i].label
                    &&& f.0[i].label.len() > 0
                    &&& (now > 0 ==> f.0[i].created_at > 0 && f.0[i].updated_at > 0)
                }
            &&& forall|i: int, j: int|
                0 <= i < j < f.0.len() ==> #[trigger] f.0[i].key != #[trigger] f.0[j].key
        }),
    decreases items.len(),
{
    if items.len() > 0 {
        lemma_fold_shapes(items.drop_last(), now);
        let item = items.last();
        crate::text::lemma_trim_idempotent(item.key@);
        lemma_label_normal(Some(item.label@), stored_key_fallback());
    }
}

/// Normalizing the keys leaves them shaped, whatever they were, and at a
/// positive time normalized.
pub proof fn lemma_normalized_keys(
    api_key: Seq<char>,
    keys: Seq<CodexLocalAccessApiKey>,
    after_key: Seq<char>,
    after_keys: Seq<CodexLocalAccessApiKey>,
    now: i64,
    changed: bool,
)
    requires
        keys_step(api_key, keys, after_key, after_keys, now, changed),
    ensures
        keys_shaped(after_key, after_keys),
        now > 0 ==> keys_normalized(after_key, after_keys),
{
    reveal_strlit("agt_codex_");
    reveal_strlit("Default");
    lemma_trim_fixed(default_label());
    let shapes = keys_fold(keys, now).0;
    if keys.len() == 0 || shapes.len() == 0 {
        let k = after_keys[0];
        if keys.len() == 0 && trim(api_key).len() > 0 {
            crate::text::lemma_trim_idempotent(api_key);
        } else {
            lemma_token_trimmed(k.key@, "agt_codex_"@, 32);
        }
        assert(after_keys[0].enabled);
        assert(primary_key(after_keys) == after_keys[0].key@);
    } else {
        lemma_fold_shapes(keys, now);
        assert forall|i: int| 0 <= i < after_keys.len() implies {
            &&& trim(#[trigger] after_keys[i].key@) == after_keys[i].key@
            &&& after_keys[i].key@.len() > 0
            &&& trim(after_keys[i].label@) == after_keys[i].label@
            &&& after_keys[i].label@.len() > 0
            &&& (now > 0 ==> after_keys[i].created_at > 0 && after_keys[i].updated_at > 0)
        } by {
            assert(has_shape(after_keys[i], shapes[i]));
        }
        assert forall|i: int, j: int| 0 <= i < j < after_keys.len() implies #[trigger] after_keys[i].key@
            != #[trigger] after_keys[j].key@ by {
            assert(has_shape(after_keys[i], shapes[i]));
            assert(has_shape(after_keys[j], shapes[j]));
            assert(shapes[i].key != shapes[j].key);
        }
    }
}

/// A fresh key with the given label and key text (a random one when none).
fn fresh_key(label: String, key: Option<String>, now: i64) -> (r: CodexLocalAccessApiKey)
    ensures
        is_fresh_key(r, label@, opt_string_text(key), now),
{
    let key = match key {
        Some(k) => k,
        None => generate_local_api_key(),
    };
    CodexLocalAccessApiKey {
        id: generate_local_api_key_id(),
        label,
        key,
        model_prefix: None,
        allowed_models: Vec::new(),
        excluded_models: Vec::new(),
        enabled: true,
        created_at: now,
        updated_at: now,
        last_used_at: None,
    }
}

/// A new client key with a normalized label.
pub fn build_local_access_api_key(label: Option<&str>, now: i64) -> (r: CodexLocalAccessApiKey)
    ensures
        is_fresh_key(
            r,
            api_key_label(
                match label {
                    Some(l) => Some(l@),
                    None => None,
                },
                default_label(),
            ),
            None,
            now,
        ),
{
    let fallback = default_local_api_key_label();
    fresh_key(normalize_api_key_label(label, fallback.as_str()), None, now)
}

fn primary_key_exec(keys: &Vec<CodexLocalAccessApiKey>) -> (r: String)
    requires
        keys@.len() > 0,
    ensures
        r@ == primary_key(keys@),
{
    let mut i: usize = 0;
    while i < keys.len()
        invariant
            i <= keys@.len(),
            keys@.len() > 0,
            forall|j: int| 0 <= j < i ==> !#[trigger] keys@[j].enabled,
        decreases keys@.len() - i,
    {
        if keys[i].enabled {
            proof {
                let c = choose|c: int| 0 <= c < keys@.len() && #[trigger] keys@[c].enabled && forall|j: int| 0 <= j < c ==> !#[trigger] keys@[j].enabled;
                if c < i {
                    assert(!keys@[c].enabled);
                }
                if c > i {
                    assert(!keys@[i as int].enabled);
                }
            }
            return copy_string(&keys[i].key);
        }
        i = i + 1;
    }
    copy_string(&keys[0].key)
}

fn strings_eq(a: &Vec<String>, b: &Vec<String>) -> (r: bool)
    ensures
        r == (texts(a@) == texts(b@)),
{
    if a.len() != b.len() {
        proof {
            if texts(a@) == texts(b@) {
                assert(texts(a@).len() == texts(b@).len());
            }
        }
        return false;
    }
    let mut i: usize = 0;
    while i < a.len()
        invariant
            i <= a@.len() == b@.len(),
            forall|k: int| 0 <= k < i ==> texts(a@)[k] == texts(b@)[k],
        decreases a@.len() - i,
    {
        if !str_eq(a[i].as_str(), b[i].as_str()) {
            proof {
                assert(texts(a@)[i as int] != texts(b@)[i as int]);
            }
            return false;
        }
        i = i + 1;
    }
    assert(texts(a@) =~= texts(b@));
    true
}

fn opt_strings_eq(a: &Option<String>, b: &Option<String>) -> (r: bool)
    ensures
        r == (opt_string_text(*a) == opt_string_text(*b)),
{
    match (a, b) {
        (Some(x), Some(y)) => str_eq(x.as_str(), y.as_str()),
        (None, None) => true,
        _ => false,
    }
}

/// Brings the client keys into shape (see `keys_fold`): with no keys at all,
/// one fresh key carrying the legacy key's text (or a random one); with none
/// left after normalizing, one fresh key; then the primary key follows the
/// first enabled key. The result tells whether anything changed.
pub fn normalize_collection_api_keys(collection: &mut CodexLocalAccessCollection, now: i64) -> (changed: bool)
    ensures
        keys_step(
            old(collection).api_key@,
            old(collection).api_keys@,
            final(collection).api_key@,
            final(collection).api_keys@,
            now,
            changed,
        ),
        final(collection).enabled == old(collection).enabled,
        final(collection).access_scope == old(collection).access_scope,
        final(collection).image_generation_mode == old(collection).image_generation_mode,
        final(collection).upstream_proxy_url == old(collection).upstream_proxy_url,
        final(collection).routing_strategy == old(collection).routing_strategy,
        final(collection).custom_routing_rules == old(collection).custom_routing_rules,
        final(collection).model_aliases == old(collection).model_aliases,
        final(collection).excluded_models == old(collection).excluded_models,
        final(collection).session_affinity == old(collection).session_affinity,
        final(collection).session_affinity_ttl_ms == old(collection).session_affinity_ttl_ms,
        final(collection).max_retry_credentials == old(collection).max_retry_credentials,
        final(collection).max_retry_interval_ms == old(collection).max_retry_interval_ms,
        final(collection).disable_cooling == old(collection).disable_cooling,
        final(collection).restrict_free_accounts == old(collection).restrict_free_accounts,
        final(collection).bound_oauth_account_id == old(collection).bound_oauth_account_id,
        final(collection).created_at == old(collection).created_at,
        final(collection).updated_at == old(collection).updated_at,
        final(collection).account_ids == old(collection).account_ids,
        final(collection).port == old(collection).port,
{
    if collection.api_keys.len() == 0 {
        let legacy = trim_vec(&chars_of(collection.api_key.as_str()));
        let key_text = if legacy.len() > 0 {
            Some(string_of(&legacy))
        } else {
            None
        };
        let item = fresh_key(default_local_api_key_label(), key_text, now);
        let primary = copy_string(&item.key);
        collection.api_keys = vec![item];
        collection.api_key = primary;
        return true;
    }
    let mut items: Vec<CodexLocalAccessApiKey> = Vec::new();
    std::mem::swap(&mut items, &mut collection.api_keys);
    let mut changed = false;
    let mut normalized: Vec<CodexLocalAccessApiKey> = Vec::new();
    let mut seen_keys: Vec<Vec<char>> = Vec::new();
    let mut seen_ids: Vec<Vec<char>> = Vec::new();
    let mut i: usize = 0;
    proof {
        assert(items@.take(0) =~= Seq::<CodexLocalAccessApiKey>::empty());
        assert(crate::split::pieces(seen_keys@).to_set() =~= Set::<Seq<char>>::empty());
        assert(crate::split::pieces(seen_ids@).to_set() =~= Set::<Seq<char>>::empty());
    }
    while i < items.len()
        invariant
            i <= items@.len(),
            collection.account_ids == old(collection).account_ids,
            collection.port == old(collection).port,
            collection.api_key == old(collection).api_key,
            collection.enabled == old(collection).enabled,
            collection.access_scope == old(collection).access_scope,
            collection.image_generation_mode == old(collection).image_generation_mode,
            collection.upstream_proxy_url == old(collection).upstream_proxy_url,
            collection.routing_strategy == old(collection).routing_strategy,
            collection.custom_routing_rules == old(collection).custom_routing_rules,
            collection.model_aliases == old(collection).model_aliases,
            collection.excluded_models == old(collection).excluded_models,
            collection.session_affinity == old(collection).session_affinity,
            collection.session_affinity_ttl_ms == old(collection).session_affinity_ttl_ms,
            collection.max_retry_credentials == old(collection).max_retry_credentials,
            collection.max_retry_interval_ms == old(collection).max_retry_interval_ms,
            collection.disable_cooling == old(collection).disable_cooling,
            collection.restrict_free_accounts == old(collection).restrict_free_accounts,
            collection.bound_oauth_account_id == old(collection).bound_oauth_account_id,
            collection.created_at == old(collection).created_at,
            collection.updated_at == old(collection).updated_at,
            items@ == old(collection).api_keys@,
            all_have_shapes(normalized@, keys_fold(items@.take(i as int), now).0),
            crate::split::pieces(seen_keys@).to_set() == keys_fold(items@.take(i as int), now).1,
            crate::split::pieces(seen_ids@).to_set() == keys_fold(items@.take(i as int), now).2,
            changed == keys_fold(items@.take(i as int), now).3,
        decreases items@.len() - i,
    {
        proof {
            let t = items@.take(i as int + 1);
            assert(t.drop_last() =~= items@.take(i as int));
            assert(t.last() == items@[i as int]);
        }
        let item = &items[i];
        let key = trim_vec(&chars_of(item.key.as_str()));
        if key.len() == 0 || crate::models::key_seen(&seen_keys, &key) {
            changed = true;
        } else {
            let tid = trim_vec(&chars_of(item.id.as_str()));
            let fresh = tid.len() == 0 || crate::models::key_seen(&seen_ids, &tid);
            let id = if fresh {
                generate_local_api_key_id()
            } else {
                string_of(&tid)
            };
            let label = normalize_api_key_label(Some(item.label.as_str()), "API Key");
            let prefix = normalize_model_prefix_value(copy_opt_string(&item.model_prefix));
            let allowed = normalize_model_rule_list(&item.allowed_models);
            let excluded = normalize_model_rule_list(&item.excluded_models);
            let item_changed = fresh || !str_eq(label.as_str(), item.label.as_str())
                || item.created_at <= 0 || item.updated_at <= 0 || !opt_strings_eq(&prefix, &item.model_prefix)
                || !strings_eq(&allowed, &item.allowed_models) || !strings_eq(
                &excluded,
                &item.excluded_models,
            );
            let ghost before = normalized@;
            normalized.push(
                CodexLocalAccessApiKey {
                    id,
                    label,
                    key: string_of(&key),
                    model_prefix: prefix,
                    allowed_models: allowed,
                    excluded_models: excluded,
                    enabled: item.enabled,
                    created_at: if item.created_at <= 0 {
                        now
                    } else {
                        item.created_at
                    },
                    updated_at: if item.updated_at <= 0 {
                        now
                    } else {
                        item.updated_at
                    },
                    last_used_at: item.last_used_at,
                },
            );
            remember(&mut seen_keys, key);
            if !fresh {
                remember(&mut seen_ids, tid);
            }
            changed = changed || item_changed;
            proof {
                let shapes = keys_fold(items@.take(i as int + 1), now).0;
                assert forall|j: int| 0 <= j < normalized@.len() implies has_shape(
                    #[trigger] normalized@[j],
                    shapes[j],
                ) by {
                    if j < before.len() {
                        assert(normalized@[j] == before[j]);
                    }
                }
            }
        }
        i = i + 1;
    }
    proof {
        assert(items@.take(items@.len() as int) =~= items@);
    }
    if normalized.len() == 0 {
        let item = fresh_key(default_local_api_key_label(), None, now);
        let primary = copy_string(&item.key);
        collection.api_keys = vec![item];
        collection.api_key = primary;
        return true;
    }
    let primary = primary_key_exec(&normalized);
    if !str_eq(collection.api_key.as_str(), primary.as_str()) {
        collection.api_key = primary;
        changed = true;
    }
    collection.api_keys = normalized;
    changed
}

// ---------------------------------------------------------------------------
// Sanitizing a collection
// ---------------------------------------------------------------------------

/// The bounds of the session affinity time-to-live, in milliseconds.
pub const SESSION_AFFINITY_TTL_MIN_MS: i64 = 60000;
pub const SESSION_AFFINITY_TTL_MAX_MS: i64 = 86400000;
/// The most accounts one request may retry on.
pub const MAX_RETRY_CREDENTIALS_PER_REQUEST: u16 = 8;
/// The longest pause between retries, in milliseconds.
pub const MAX_RETRY_INTERVAL_MAX_MS: u64 = 30000;

/// The ids of the accounts that are not API-key accounts.
pub open spec fn oauth_ids(accounts: Seq<CodexAccount>) -> Set<Seq<char>> {
    Set::new(
        |id: Seq<char>|
            exists|i: int|
                0 <= i < accounts.len() && #[trigger] accounts[i].id@ == id && accounts[i].auth_mode
                    != crate::account::CodexAuthMode::ApiKey,
    )
}

/// The ids of the accounts that may serve the gateway.
pub open spec fn eligible_ids(accounts: Seq<CodexAccount>, restrict_free: bool) -> Set<Seq<char>> {
    Set::new(
        |id: Seq<char>|
            exists|i: int|
                0 <= i < accounts.len() && #[trigger] accounts[i].id@ == id && crate::upstream::eligible(
                    accounts[i],
                    restrict_free,
                ),
    )
}

/// The ids that are valid, each kept the first time, in order.
pub open spec fn valid_unique_ids(ids: Seq<Seq<char>>, valid: Set<Seq<char>>) -> Seq<Seq<char>>
    decreases ids.len(),
{
    if ids.len() == 0 {
        Seq::empty()
    } else {
        let kept = valid_unique_ids(ids.drop_last(), valid);
        let id = ids.last();
        if valid.contains(id) && !kept.contains(id) {
            kept.push(id)
        } else {
            kept
        }
    }
}

/// The bound OAuth account: the trimmed reference, kept only when it names an
/// OAuth account.
pub open spec fn bound_account(raw: Option<Seq<char>>, oauth: Set<Seq<char>>) -> Option<Seq<char>> {
    match crate::quota::optional_ref(raw) {
        Some(id) => if oauth.contains(id) {
            Some(id)
        } else {
            None
        },
        None => None,
    }
}

/// `v` clamped to `lo..=hi`.
pub open spec fn clamp_i64(v: i64, lo: i64, hi: i64) -> i64 {
    if v < lo {
        lo
    } else if v > hi {
        hi
    } else {
        v
    }
}

/// The port a collection keeps: its own, or the allocated one when unset.
pub open spec fn chosen_port(port: u16, allocated: Result<u16, String>) -> u16 {
    if port == 0 {
        match allocated {
            Ok(p) => p,
            Err(_) => 0,
        }
    } else {
        port
    }
}

/// What the first steps of sanitizing leave (up to reading the accounts):
/// a port, a legacy key that is not blank, normalized client keys, positive
/// timestamps and a normalized proxy URL; `changed` tells whether any of
/// them changed.
pub open spec fn first_steps(
    old: CodexLocalAccessCollection,
    new: CodexLocalAccessCollection,
    port: u16,
    now: i64,
    changed: bool,
) -> bool {
    exists|legacy: Seq<char>, keys_changed: bool|
        {
            &&& (if trim(old.api_key@).len() == 0 {
                is_random_token(legacy, "agt_codex_"@, 32)
            } else {
                legacy == old.api_key@
            })
            &&& #[trigger] keys_step(legacy, old.api_keys@, new.api_key@, new.api_keys@, now, keys_changed)
            &&& new.port == port
            &&& new.created_at == (if old.created_at <= 0 {
                now
            } else {
                old.created_at
            })
            &&& new.updated_at == (if old.updated_at <= 0 {
                now
            } else {
                old.updated_at
            })
            &&& opt_string_text(new.upstream_proxy_url) == crate::quota::optional_ref(
                opt_string_text(old.upstream_proxy_url),
            )
            &&& changed == (old.port == 0 || trim(old.api_key@).len() == 0 || keys_changed
                || old.created_at <= 0 || old.updated_at <= 0 || opt_string_text(new.upstream_proxy_url)
                != opt_string_text(old.upstream_proxy_url))
        }
}

/// Sanitizes a stored collection: an unset port takes `allocated_port` (its
/// error fails the call before anything changes), a blank legacy key is drawn
/// anew, the client keys are normalized, timestamps and the proxy URL are
/// fixed; then, given the accounts (whose error fails the call), the bound
/// OAuth account must name an OAuth account, the routed accounts are reduced
/// to eligible ones (each once), the routing rules, aliases and excluded
/// models are normalized, and the session TTL, retry count and retry
/// interval are brought into their bounds. The result tells whether anything
/// changed, with the ids of the eligible accounts.
pub fn sanitize_collection(
    collection: &mut CodexLocalAccessCollection,
    allocated_port: Result<u16, String>,
    accounts: Result<Vec<CodexAccount>, String>,
    now: i64,
) -> (r: Result<(bool, Vec<String>), String>)
    ensures
        old(collection).port == 0 && allocated_port is Err ==> {
            &&& r matches Err(e)
            &&& e@ == allocated_port->Err_0@
            &&& *final(collection) == *old(collection)
        },
        !(old(collection).port == 0 && allocated_port is Err) && accounts is Err ==> {
            &&& r matches Err(e)
            &&& e@ == accounts->Err_0@
            &&& exists|early: bool|
                #[trigger] first_steps(
                    *old(collection),
                    *final(collection),
                    chosen_port(old(collection).port, allocated_port),
                    now,
                    early,
                )
        },
        !(old(collection).port == 0 && allocated_port is Err) && accounts is Ok ==> ({
            let list = accounts->Ok_0@;
            let c = *final(collection);
            let o = *old(collection);
            let valid = eligible_ids(list, o.restrict_free_accounts);
            &&& r is Ok
            &&& exists|early: bool|
                {
                    &&& #[trigger] first_steps(
                        o,
                        c,
                        chosen_port(o.port, allocated_port),
                        now,
                        early,
                    )
                    &&& r->Ok_0.0 == (early || opt_string_text(c.bound_oauth_account_id)
                        != opt_string_text(o.bound_oauth_account_id) || texts(c.account_ids@) != texts(
                        o.account_ids@,
                    ) || rule_views(c.custom_routing_rules@) != rule_views(o.custom_routing_rules@)
                        || alias_views(c.model_aliases@) != alias_views(o.model_aliases@) || texts(
                        c.excluded_models@,
                    ) != texts(o.excluded_models@) || c.session_affinity_ttl_ms
                        != o.session_affinity_ttl_ms || c.max_retry_credentials
                        != o.max_retry_credentials || c.max_retry_interval_ms != o.max_retry_interval_ms)
                }
            &&& texts(r->Ok_0.1@).to_set() == valid
            &&& opt_string_text(c.bound_oauth_account_id) == bound_account(
                opt_string_text(o.bound_oauth_account_id),
                oauth_ids(list),
            )
            &&& texts(c.account_ids@) == valid_unique_ids(texts(o.account_ids@), valid)
            &&& rule_views(c.custom_routing_rules@) == normalized_rules(
                rule_views(o.custom_routing_rules@),
                texts(c.account_ids@),
            )
            &&& alias_views(c.model_aliases@) == normalized_aliases(alias_views(o.model_aliases@))
            &&& texts(c.excluded_models@) == distinct_trimmed(texts(o.excluded_models@))
            &&& c.session_affinity_ttl_ms == clamp_i64(
                o.session_affinity_ttl_ms,
                SESSION_AFFINITY_TTL_MIN_MS,
                SESSION_AFFINITY_TTL_MAX_MS,
            )
            &&& c.max_retry_credentials == (if o.max_retry_credentials
                > MAX_RETRY_CREDENTIALS_PER_REQUEST {
                MAX_RETRY_CREDENTIALS_PER_REQUEST
            } else {
                o.max_retry_credentials
            })
            &&& c.max_retry_interval_ms == (if o.max_retry_interval_ms > MAX_RETRY_INTERVAL_MAX_MS {
                MAX_RETRY_INTERVAL_MAX_MS
            } else {
                o.max_retry_interval_ms
            })
            &&& c.enabled == o.enabled
            &&& c.access_scope == o.access_scope
            &&& c.image_generation_mode == o.image_generation_mode
            &&& c.routing_strategy == o.routing_strategy
            &&& c.session_affinity == o.session_affinity
            &&& c.disable_cooling == o.disable_cooling
            &&& c.restrict_free_accounts == o.restrict_free_accounts
        }),
        accounts is Ok && (old(collection).port == 0 ==> (allocated_port matches Ok(p) && p != 0)) ==> collection_sanitized(
            *final(collection),
            eligible_ids(accounts->Ok_0@, old(collection).restrict_free_accounts),
        ),
{
    let port = if collection.port == 0 {
        match allocated_port {
            Ok(p) => p,
            Err(e) => return Err(e),
        }
    } else {
        collection.port
    };
    assert(port == chosen_port(old(collection).port, allocated_port));
    let early = sanitize_first_steps(collection, port, now);
    assert(first_steps(*old(collection), *collection, chosen_port(old(collection).port, allocated_port), now, early));
    let list = match accounts {
        Ok(list) => list,
        Err(e) => {
            return Err(e);
        },
    };
    let ghost mid = *collection;
    let (late, valid) = sanitize_account_refs(collection, &list);
    proof {
        lemma_first_steps_frame(*old(collection), mid, *collection, chosen_port(old(collection).port, allocated_port), now, early);
        if old(collection).port == 0 ==> (allocated_port matches Ok(p) && p != 0) {
            lemma_sanitized_collection(*old(collection), *collection, allocated_port, list@, now, early);
        }
    }
    Ok((early || late, valid))
}

proof fn lemma_first_steps_frame(
    o: CodexLocalAccessCollection,
    mid: CodexLocalAccessCollection,
    c: CodexLocalAccessCollection,
    port: u16,
    now: i64,
    early: bool,
)
    requires
        first_steps(o, mid, port, now, early),
        c.port == mid.port,
        c.api_key == mid.api_key,
        c.api_keys == mid.api_keys,
        c.created_at == mid.created_at,
        c.updated_at == mid.updated_at,
        c.upstream_proxy_url == mid.upstream_proxy_url,
    ensures
        first_steps(o, c, port, now, early),
{
    let (legacy, kc) = choose|legacy: Seq<char>, kc: bool| #[trigger] keys_step(legacy, o.api_keys@, mid.api_key@, mid.api_keys@, now, kc)
        && (if trim(o.api_key@).len() == 0 {
            is_random_token(legacy, "agt_codex_"@, 32)
        } else {
            legacy == o.api_key@
        })
        && mid.port == port
        && mid.created_at == (if o.created_at <= 0 { now } else { o.created_at })
        && mid.updated_at == (if o.updated_at <= 0 { now } else { o.updated_at })
        && opt_string_text(mid.upstream_proxy_url) == crate::quota::optional_ref(opt_string_text(o.upstream_proxy_url))
        && early == (o.port == 0 || trim(o.api_key@).len() == 0 || kc || o.created_at <= 0 || o.updated_at <= 0
            || opt_string_text(mid.upstream_proxy_url) != opt_string_text(o.upstream_proxy_url));
    assert(keys_step(legacy, o.api_keys@, c.api_key@, c.api_keys@, now, kc));
}

fn sanitize_first_steps(collection: &mut CodexLocalAccessCollection, port: u16, now: i64) -> (changed: bool)
    ensures
        first_steps(*old(collection), *final(collection), port, now, changed),
        final(collection).enabled == old(collection).enabled,
        final(collection).access_scope == old(collection).access_scope,
        final(collection).image_generation_mode == old(collection).image_generation_mode,
        final(collection).routing_strategy == old(collection).routing_strategy,
        final(collection).custom_routing_rules == old(collection).custom_routing_rules,
        final(collection).model_aliases == old(collection).model_aliases,
        final(collection).excluded_models == old(collection).excluded_models,
        final(collection).session_affinity == old(collection).session_affinity,
        final(collection).session_affinity_ttl_ms == old(collection).session_affinity_ttl_ms,
        final(collection).max_retry_credentials == old(collection).max_retry_credentials,
        final(collection).max_retry_interval_ms == old(collection).max_retry_interval_ms,
        final(collection).disable_cooling == old(collection).disable_cooling,
        final(collection).restrict_free_accounts == old(collection).restrict_free_accounts,
        final(collection).bound_oauth_account_id == old(collection).bound_oauth_account_id,
        final(collection).account_ids == old(collection).account_ids,
{
    let mut changed = collection.port == 0;
    collection.port = port;
    let blank_key = trim_vec(&chars_of(collection.api_key.as_str())).len() == 0;
    if blank_key {
        collection.api_key = generate_local_api_key();
        changed = true;
    }
    let ghost legacy = collection.api_key@;
    let keys_changed = normalize_collection_api_keys(collection, now);
    changed = changed || keys_changed;
    if collection.created_at <= 0 {
        collection.created_at = now;
        changed = true;
    }
    if collection.updated_at <= 0 {
        collection.updated_at = now;
        changed = true;
    }
    let proxy = match &collection.upstream_proxy_url {
        Some(u) => crate::quota::normalize_optional_ref(Some(u.as_str())),
        None => None,
    };
    if !opt_strings_eq(&proxy, &collection.upstream_proxy_url) {
        collection.upstream_proxy_url = proxy;
        changed = true;
    }
    proof {
        assert(keys_step(legacy, old(collection).api_keys@, collection.api_key@, collection.api_keys@, now, keys_changed));
    }
    changed
}

fn sanitize_account_refs(collection: &mut CodexLocalAccessCollection, list: &Vec<CodexAccount>) -> (r: (bool, Vec<String>))
    ensures
        ({
            let c = *final(collection);
            let o = *old(collection);
            let valid = eligible_ids(list@, o.restrict_free_accounts);
            &&& r.0 == (opt_string_text(c.bound_oauth_account_id) != opt_string_text(
                o.bound_oauth_account_id,
            ) || texts(c.account_ids@) != texts(o.account_ids@) || rule_views(c.custom_routing_rules@)
                != rule_views(o.custom_routing_rules@) || alias_views(c.model_aliases@) != alias_views(
                o.model_aliases@,
            ) || texts(c.excluded_models@) != texts(o.excluded_models@) || c.session_affinity_ttl_ms
                != o.session_affinity_ttl_ms || c.max_retry_credentials != o.max_retry_credentials
                || c.max_retry_interval_ms != o.max_retry_interval_ms)
            &&& texts(r.1@).to_set() == valid
            &&& opt_string_text(c.bound_oauth_account_id) == bound_account(
                opt_string_text(o.bound_oauth_account_id),
                oauth_ids(list@),
            )
            &&& texts(c.account_ids@) == valid_unique_ids(texts(o.account_ids@), valid)
            &&& rule_views(c.custom_routing_rules@) == normalized_rules(
                rule_views(o.custom_routing_rules@),
                texts(c.account_ids@),
            )
            &&& alias_views(c.model_aliases@) == normalized_aliases(alias_views(o.model_aliases@))
            &&& texts(c.excluded_models@) == distinct_trimmed(texts(o.excluded_models@))
            &&& c.session_affinity_ttl_ms == clamp_i64(
                o.session_affinity_ttl_ms,
                SESSION_AFFINITY_TTL_MIN_MS,
                SESSION_AFFINITY_TTL_MAX_MS,
            )
            &&& c.max_retry_credentials == (if o.max_retry_credentials
                > MAX_RETRY_CREDENTIALS_PER_REQUEST {
                MAX_RETRY_CREDENTIALS_PER_REQUEST
            } else {
                o.max_retry_credentials
            })
            &&& c.max_retry_interval_ms == (if o.max_retry_interval_ms > MAX_RETRY_INTERVAL_MAX_MS {
                MAX_RETRY_INTERVAL_MAX_MS
            } else {
                o.max_retry_interval_ms
            })
            &&& c.enabled == o.enabled
            &&& c.access_scope == o.access_scope
            &&& c.image_generation_mode == o.image_generation_mode
            &&& c.routing_strategy == o.routing_strategy
            &&& c.session_affinity == o.session_affinity
            &&& c.disable_cooling == o.disable_cooling
            &&& c.restrict_free_accounts == o.restrict_free_accounts
            &&& c.port == o.port
            &&& c.api_key == o.api_key
            &&& c.api_keys == o.api_keys
            &&& c.created_at == o.created_at
            &&& c.updated_at == o.updated_at
            &&& c.upstream_proxy_url == o.upstream_proxy_url
        }),
{
    let mut changed = false;
    let valid = eligible_account_ids(list, collection.restrict_free_accounts);
    let oauth = oauth_account_ids(list);

    let bound = match &collection.bound_oauth_account_id {
        Some(b) => crate::quota::normalize_optional_ref(Some(b.as_str())),
        None => None,
    };
    let bound = match bound {
        Some(b) => {
            if crate::text::contains_string(&oauth, &chars_of(b.as_str())) {
                Some(b)
            } else {
                None
            }
        },
        None => None,
    };
    if !opt_strings_eq(&bound, &collection.bound_oauth_account_id) {
        changed = true;
    }
    collection.bound_oauth_account_id = bound;

    let ids = dedup_valid_ids(&collection.account_ids, &valid);
    if !strings_eq(&ids, &collection.account_ids) {
        changed = true;
    }
    collection.account_ids = ids;

    let mut rules: Vec<CodexLocalAccessCustomRoutingRule> = Vec::new();
    std::mem::swap(&mut rules, &mut collection.custom_routing_rules);
    let normalized_rules_v = normalize_custom_routing_rules(copy_rules(&rules), &collection.account_ids);
    if !rules_eq(&normalized_rules_v, &rules) {
        changed = true;
    }
    collection.custom_routing_rules = normalized_rules_v;

    let mut aliases: Vec<CodexLocalAccessModelAlias> = Vec::new();
    std::mem::swap(&mut aliases, &mut collection.model_aliases);
    let normalized_aliases_v = normalize_model_aliases(copy_aliases(&aliases));
    if !aliases_eq(&normalized_aliases_v, &aliases) {
        changed = true;
    }
    collection.model_aliases = normalized_aliases_v;

    let excluded = normalize_model_rule_list(&collection.excluded_models);
    if !strings_eq(&excluded, &collection.excluded_models) {
        changed = true;
    }
    collection.excluded_models = excluded;

    let ttl = collection.session_affinity_ttl_ms;
    if ttl < SESSION_AFFINITY_TTL_MIN_MS {
        collection.session_affinity_ttl_ms = SESSION_AFFINITY_TTL_MIN_MS;
        changed = true;
    } else if ttl > SESSION_AFFINITY_TTL_MAX_MS {
        collection.session_affinity_ttl_ms = SESSION_AFFINITY_TTL_MAX_MS;
        changed = true;
    }
    if collection.max_retry_credentials > MAX_RETRY_CREDENTIALS_PER_REQUEST {
        collection.max_retry_credentials = MAX_RETRY_CREDENTIALS_PER_REQUEST;
        changed = true;
    }
    if collection.max_retry_interval_ms > MAX_RETRY_INTERVAL_MAX_MS {
        collection.max_retry_interval_ms = MAX_RETRY_INTERVAL_MAX_MS;
        changed = true;
    }
    (changed, valid)
}

fn eligible_account_ids(accounts: &Vec<CodexAccount>, restrict_free: bool) -> (r: Vec<String>)
    ensures
        texts(r@).to_set() == eligible_ids(accounts@, restrict_free),
{
    let mut r: Vec<String> = Vec::new();
    let mut i: usize = 0;
    while i < accounts.len()
        invariant
            i <= accounts.len(),
            texts(r@).to_set() == eligible_ids(accounts@.take(i as int), restrict_free),
        decreases accounts.len() - i,
    {
        let a = &accounts[i];
        let ghost before = texts(r@);
        if crate::upstream::is_local_access_eligible_account(a, restrict_free) {
            r.push(copy_string(&a.id));
        }
        proof {
            let t = accounts@.take(i as int + 1);
            assert forall|x: Seq<char>| #[trigger] texts(r@).to_set().contains(x) <==> eligible_ids(t, restrict_free).contains(x) by {
                if texts(r@).to_set().contains(x) {
                    let k = texts(r@).index_of(x);
                    if k < before.len() {
                        assert(before[k] == x);
                        assert(before.to_set().contains(x));
                        let w = choose|w: int| 0 <= w < i && #[trigger] accounts@.take(i as int)[w].id@ == x && crate::upstream::eligible(accounts@.take(i as int)[w], restrict_free);
                        assert(t[w] == accounts@.take(i as int)[w]);
                    } else {
                        assert(t[i as int] == accounts@[i as int]);
                    }
                }
                if eligible_ids(t, restrict_free).contains(x) {
                    let w = choose|w: int| 0 <= w < t.len() && #[trigger] t[w].id@ == x && crate::upstream::eligible(t[w], restrict_free);
                    if w < i {
                        assert(accounts@.take(i as int)[w] == t[w]);
                        assert(eligible_ids(accounts@.take(i as int), restrict_free).contains(x));
                        let k = before.index_of(x);
                        assert(texts(r@)[k] == x);
                    } else {
                        assert(texts(r@)[texts(r@).len() - 1] == x);
                    }
                }
            }
            assert(texts(r@).to_set() =~= eligible_ids(t, restrict_free));
        }
        i = i + 1;
    }
    proof {
        assert(accounts@.take(accounts@.len() as int) =~= accounts@);
    }
    r
}

fn oauth_account_ids(accounts: &Vec<CodexAccount>) -> (r: Vec<String>)
    ensures
        texts(r@).to_set() == oauth_ids(accounts@),
{
    let mut r: Vec<String> = Vec::new();
    let mut i: usize = 0;
    while i < accounts.len()
        invariant
            i <= accounts.len(),
            texts(r@).to_set() == oauth_ids(accounts@.take(i as int)),
        decreases accounts.len() - i,
    {
        let a = &accounts[i];
        let ghost before = texts(r@);
        if !a.is_api_key_auth() {
            r.push(copy_string(&a.id));
        }
        proof {
            let t = accounts@.take(i as int + 1);
            assert forall|x: Seq<char>| #[trigger] texts(r@).to_set().contains(x) <==> oauth_ids(t).contains(x) by {
                if texts(r@).to_set().contains(x) {
                    let k = texts(r@).index_of(x);
                    if k < before.len() {
                        assert(before[k] == x);
                        assert(before.to_set().contains(x));
                        let w = choose|w: int| 0 <= w < i && #[trigger] accounts@.take(i as int)[w].id@ == x && accounts@.take(i as int)[w].auth_mode != crate::account::CodexAuthMode::ApiKey;
                        assert(t[w] == accounts@.take(i as int)[w]);
                    } else {
                        assert(t[i as int] == accounts@[i as int]);
                    }
                }
                if oauth_ids(t).contains(x) {
                    let w = choose|w: int| 0 <= w < t.len() && #[trigger] t[w].id@ == x && t[w].auth_mode != crate::account::CodexAuthMode::ApiKey;
                    if w < i {
                        assert(accounts@.take(i as int)[w] == t[w]);
                        assert(oauth_ids(accounts@.take(i as int)).contains(x));
                        let k = before.index_of(x);
                        assert(texts(r@)[k] == x);
                    } else {
                        assert(texts(r@)[texts(r@).len() - 1] == x);
                    }
                }
            }
            assert(texts(r@).to_set() =~= oauth_ids(t));
        }
        i = i + 1;
    }
    proof {
        assert(accounts@.take(accounts@.len() as int) =~= accounts@);
    }
    r
}

fn dedup_valid_ids(ids: &Vec<String>, valid: &Vec<String>) -> (r: Vec<String>)
    ensures
        texts(r@) == valid_unique_ids(texts(ids@), texts(valid@).to_set()),
{
    let mut r: Vec<String> = Vec::new();
    let mut i: usize = 0;
    while i < ids.len()
        invariant
            i <= ids.len(),
            texts(r@) == valid_unique_ids(texts(ids@).take(i as int), texts(valid@).to_set()),
        decreases ids.len() - i,
    {
        let id = chars_of(ids[i].as_str());
        proof {
            let t = texts(ids@).take(i as int + 1);
            assert(t.drop_last() =~= texts(ids@).take(i as int));
            assert(t.last() == ids@[i as int]@);
        }
        let is_valid = crate::text::contains_string(valid, &id);
        proof {
            assert(is_valid == texts(valid@).to_set().contains(id@));
        }
        if is_valid && !crate::text::contains_string(&r, &id) {
            let ghost before = r@;
            r.push(copy_string(&ids[i]));
            assert(texts(r@) =~= texts(before).push(id@));
        }
        i = i + 1;
    }
    proof {
        assert(texts(ids@).take(ids.len() as int) =~= texts(ids@));
    }
    r
}

fn copy_rules(rules: &Vec<CodexLocalAccessCustomRoutingRule>) -> (r: Vec<CodexLocalAccessCustomRoutingRule>)
    ensures
        rule_views(r@) == rule_views(rules@),
{
    let mut r: Vec<CodexLocalAccessCustomRoutingRule> = Vec::new();
    let mut i: usize = 0;
    while i < rules.len()
        invariant
            i <= rules.len(),
            rule_views(r@) == rule_views(rules@.take(i as int)),
        decreases rules.len() - i,
    {
        let x = &rules[i];
        let ghost before = r@;
        r.push(CodexLocalAccessCustomRoutingRule { account_id: copy_string(&x.account_id), priority: x.priority, weight: x.weight });
        proof {
            assert(rules@.take(i as int + 1) =~= rules@.take(i as int).push(rules@[i as int]));
            assert(rule_views(r@) =~= rule_views(before).push(crate::routing::rule_view(rules@[i as int])));
            assert(rule_views(rules@.take(i as int + 1)) =~= rule_views(rules@.take(i as int)).push(crate::routing::rule_view(rules@[i as int])));
        }
        i = i + 1;
    }
    proof {
        assert(rules@.take(rules.len() as int) =~= rules@);
    }
    r
}

fn rules_eq(a: &Vec<CodexLocalAccessCustomRoutingRule>, b: &Vec<CodexLocalAccessCustomRoutingRule>) -> (r: bool)
    ensures
        r == (rule_views(a@) == rule_views(b@)),
{
    if a.len() != b.len() {
        proof {
            if rule_views(a@) == rule_views(b@) {
                assert(rule_views(a@).len() == rule_views(b@).len());
            }
        }
        return false;
    }
    let mut i: usize = 0;
    while i < a.len()
        invariant
            i <= a@.len() == b@.len(),
            forall|k: int| 0 <= k < i ==> rule_views(a@)[k] == rule_views(b@)[k],
        decreases a@.len() - i,
    {
        if !(str_eq(a[i].account_id.as_str(), b[i].account_id.as_str()) && a[i].priority == b[i].priority
            && a[i].weight == b[i].weight) {
            proof {
                assert(rule_views(a@)[i as int] != rule_views(b@)[i as int]);
            }
            return false;
        }
        i = i + 1;
    }
    assert(rule_views(a@) =~= rule_views(b@));
    true
}

fn copy_aliases(v: &Vec<CodexLocalAccessModelAlias>) -> (r: Vec<CodexLocalAccessModelAlias>)
    ensures
        alias_views(r@) == alias_views(v@),
{
    let mut r: Vec<CodexLocalAccessModelAlias> = Vec::new();
    let mut i: usize = 0;
    while i < v.len()
        invariant
            i <= v.len(),
            alias_views(r@) == alias_views(v@.take(i as int)),
        decreases v.len() - i,
    {
        let x = &v[i];
        let ghost before = r@;
        r.push(CodexLocalAccessModelAlias { source_model: copy_string(&x.source_model), alias: copy_string(&x.alias), fork: x.fork });
        proof {
            assert(v@.take(i as int + 1) =~= v@.take(i as int).push(v@[i as int]));
            assert(alias_views(r@) =~= alias_views(before).push(crate::models::alias_view(v@[i as int])));
            assert(alias_views(v@.take(i as int + 1)) =~= alias_views(v@.take(i as int)).push(crate::models::alias_view(v@[i as int])));
        }
        i = i + 1;
    }
    proof {
        assert(v@.take(v.len() as int) =~= v@);
    }
    r
}

fn aliases_eq(a: &Vec<CodexLocalAccessModelAlias>, b: &Vec<CodexLocalAccessModelAlias>) -> (r: bool)
    ensures
        r == (alias_views(a@) == alias_views(b@)),
{
    if a.len() != b.len() {
        proof {
            if alias_views(a@) == alias_views(b@) {
                assert(alias_views(a@).len() == alias_views(b@).len());
            }
        }
        return false;
    }
    let mut i: usize = 0;
    while i < a.len()
        invariant
            i <= a@.len() == b@.len(),
            forall|k: int| 0 <= k < i ==> alias_views(a@)[k] == alias_views(b@)[k],
        decreases a@.len() - i,
    {
        if !(str_eq(a[i].source_model.as_str(), b[i].source_model.as_str()) && str_eq(
            a[i].alias.as_str(),
            b[i].alias.as_str(),
        ) && a[i].fork == b[i].fork) {
            proof {
                assert(alias_views(a@)[i as int] != alias_views(b@)[i as int]);
            }
            return false;
        }
        i = i + 1;
    }
    assert(alias_views(a@) =~= alias_views(b@));
    true
}

// ---------------------------------------------------------------------------
// The models a collection and a client key see
// ---------------------------------------------------------------------------

/// Whether image tools may go upstream for a request of the given kind.
pub fn image_generation_tools_allowed(
    mode: CodexLocalAccessImageGenerationMode,
    request_kind: crate::http::CodexLocalAccessRequestKind,
) -> (r: bool)
    ensures
        r == match mode {
            CodexLocalAccessImageGenerationMode::Enabled => true,
            CodexLocalAccessImageGenerationMode::ImagesOnly => request_kind
                == crate::http::CodexLocalAccessRequestKind::ImageGeneration || request_kind
                == crate::http::CodexLocalAccessRequestKind::ImageEdit,
            CodexLocalAccessImageGenerationMode::Disabled => false,
        },
{
    match mode {
        CodexLocalAccessImageGenerationMode::Enabled => true,
        CodexLocalAccessImageGenerationMode::ImagesOnly => match request_kind {
            crate::http::CodexLocalAccessRequestKind::ImageGeneration => true,
            crate::http::CodexLocalAccessRequestKind::ImageEdit => true,
            _ => false,
        },
        CodexLocalAccessImageGenerationMode::Disabled => false,
    }
}

/// The image generation status recorded for an account, if any: the first
/// entry for its id.
pub open spec fn health_status(
    health: Seq<(String, CodexLocalAccessImageGenerationStatus)>,
    id: Seq<char>,
) -> Option<CodexLocalAccessImageGenerationStatus>
    decreases health.len(),
{
    if health.len() == 0 {
        None
    } else if health[0].0@ == id {
        Some(health[0].1)
    } else {
        health_status(health.drop_first(), id)
    }
}

/// An account's health does not rule out image generation.
pub open spec fn health_allows_images(status: Option<CodexLocalAccessImageGenerationStatus>) -> bool {
    !(status == Some(CodexLocalAccessImageGenerationStatus::Unavailable) || status == Some(
        CodexLocalAccessImageGenerationStatus::Disabled,
    ))
}

/// Whether an account's recorded health allows image generation.
pub fn account_health_allows_image_generation(status: Option<CodexLocalAccessImageGenerationStatus>) -> (r:
    bool)
    ensures
        r == health_allows_images(status),
{
    match status {
        Some(CodexLocalAccessImageGenerationStatus::Unavailable) => false,
        Some(CodexLocalAccessImageGenerationStatus::Disabled) => false,
        _ => true,
    }
}

fn health_status_exec(health: &Vec<(String, CodexLocalAccessImageGenerationStatus)>, id: &str) -> (r: Option<
    CodexLocalAccessImageGenerationStatus,
>)
    ensures
        r == health_status(health@, id@),
{
    let mut i: usize = 0;
    assert(health@.skip(0) =~= health@);
    while i < health.len()
        invariant
            i <= health@.len(),
            health_status(health@, id@) == health_status(health@.skip(i as int), id@),
        decreases health@.len() - i,
    {
        let ghost rest = health@.skip(i as int);
        proof {
            assert(rest[0] == health@[i as int]);
            assert(rest.drop_first() =~= health@.skip(i as int + 1));
        }
        if str_eq(health[i].0.as_str(), id) {
            return Some(health[i].1);
        }
        i = i + 1;
    }
    None
}

/// An account that can serve image generation for the collection: one of its
/// routed accounts, an OAuth account, not on a free plan, and not marked
/// unable by its health.
pub open spec fn image_capable(
    account: CodexAccount,
    selected: Seq<Seq<char>>,
    health: Option<Seq<(String, CodexLocalAccessImageGenerationStatus)>>,
) -> bool {
    &&& selected.contains(account.id@)
    &&& account.auth_mode != crate::account::CodexAuthMode::ApiKey
    &&& !crate::upstream::free_plan(opt_string_text(account.plan_type))
    &&& health_allows_images(
        match health {
            Some(h) => health_status(h, account.id@),
            None => None,
        },
    )
}

/// Whether the collection can offer image generation: not when it is
/// disabled; when the accounts cannot be listed, yes; else when some routed
/// account is capable.
pub open spec fn image_capacity(
    collection: CodexLocalAccessCollection,
    accounts: Result<Seq<CodexAccount>, Seq<char>>,
    health: Option<Seq<(String, CodexLocalAccessImageGenerationStatus)>>,
) -> bool {
    if collection.image_generation_mode == CodexLocalAccessImageGenerationMode::Disabled {
        false
    } else {
        match accounts {
            Err(_) => true,
            Ok(list) => some_image_capable(list, texts(collection.account_ids@), health),
        }
    }
}

/// Some listed account is capable of image generation.
pub open spec fn some_image_capable(
    list: Seq<CodexAccount>,
    selected: Seq<Seq<char>>,
    health: Option<Seq<(String, CodexLocalAccessImageGenerationStatus)>>,
) -> bool {
    exists|i: int| 0 <= i < list.len() && image_capable(#[trigger] list[i], selected, health)
}

/// Whether the collection can offer image generation.
pub fn selected_accounts_have_image_generation_capacity(
    collection: &CodexLocalAccessCollection,
    accounts: &Result<Vec<CodexAccount>, String>,
    health: Option<&Vec<(String, CodexLocalAccessImageGenerationStatus)>>,
) -> (r: bool)
    ensures
        r == image_capacity(
            *collection,
            match accounts {
                Ok(l) => Ok(l@),
                Err(e) => Err(e@),
            },
            match health {
                Some(h) => Some(h@),
                None => None,
            },
        ),
{
    if collection.image_generation_mode == CodexLocalAccessImageGenerationMode::Disabled {
        return false;
    }
    match accounts {
        Ok(list) => any_image_capable(list, &collection.account_ids, health),
        Err(_) => true,
    }
}

fn any_image_capable(
    list: &Vec<CodexAccount>,
    selected: &Vec<String>,
    health: Option<&Vec<(String, CodexLocalAccessImageGenerationStatus)>>,
) -> (r: bool)
    ensures
        r == some_image_capable(
            list@,
            texts(selected@),
            match health {
                Some(h) => Some(h@),
                None => None,
            },
        ),
{
    let ghost hv = match health {
        Some(h) => Some(h@),
        None => None::<Seq<(String, CodexLocalAccessImageGenerationStatus)>>,
    };
    let mut i: usize = 0;
    while i < list.len()
        invariant
            i <= list@.len(),
            hv == match health {
                Some(h) => Some(h@),
                None => None::<Seq<(String, CodexLocalAccessImageGenerationStatus)>>,
            },
            forall|k: int| 0 <= k < i ==> !image_capable(#[trigger] list@[k], texts(selected@), hv),
        decreases list@.len() - i,
    {
        let a = &list[i];
        let is_selected = crate::text::contains_string(selected, &chars_of(a.id.as_str()));
        let plan = match &a.plan_type {
            Some(p) => Some(p.as_str()),
            None => None,
        };
        let status = match health {
            Some(h) => health_status_exec(h, a.id.as_str()),
            None => None,
        };
        if is_selected && !a.is_api_key_auth() && !crate::upstream::is_free_plan_type(plan)
            && account_health_allows_image_generation(status) {
            assert(image_capable(list@[i as int], texts(selected@), hv));
            return true;
        }
        i = i + 1;
    }
    false
}

/// The catalog without the image model when the collection cannot offer it.
pub open spec fn base_models(catalog: Seq<Seq<char>>, image_allowed: bool) -> Seq<Seq<char>> {
    catalog.filter(|m: Seq<char>| m != crate::models::image_model_id() || image_allowed)
}

/// The catalog models a collection offers.
pub fn base_codex_model_ids_for_collection(catalog: &Vec<String>, image_allowed: bool) -> (r: Vec<String>)
    ensures
        texts(r@) == base_models(texts(catalog@), image_allowed),
{
    let mut r: Vec<String> = Vec::new();
    let mut i: usize = 0;
    while i < catalog.len()
        invariant
            i <= catalog.len(),
            texts(r@) == base_models(texts(catalog@).take(i as int), image_allowed),
        decreases catalog.len() - i,
    {
        let m = &catalog[i];
        proof {
            let t = texts(catalog@).take(i as int + 1);
            assert(t =~= texts(catalog@).take(i as int).push(m@));
            reveal(Seq::filter);
            assert(t.drop_last() =~= texts(catalog@).take(i as int));
        }
        if !str_eq(m.as_str(), "gpt-image-2") || image_allowed {
            let ghost before = r@;
            r.push(copy_string(m));
            assert(texts(r@) =~= texts(before).push(m@));
        }
        i = i + 1;
    }
    proof {
        assert(texts(catalog@).take(catalog.len() as int) =~= texts(catalog@));
    }
    r
}

/// The models a collection shows: its catalog models through its aliases,
/// minus those its excluded rules match.
pub open spec fn visible_models(
    catalog: Seq<Seq<char>>,
    image_allowed: bool,
    collection: CodexLocalAccessCollection,
) -> Seq<Seq<char>> {
    crate::models::filtered_models(
        crate::models::models_with_aliases(base_models(catalog, image_allowed), alias_views(collection.model_aliases@)),
        Seq::empty(),
        texts(collection.excluded_models@),
    )
}

/// The models a collection shows.
pub fn visible_codex_model_ids_for_collection(
    catalog: &Vec<String>,
    image_allowed: bool,
    collection: &CodexLocalAccessCollection,
) -> (r: Vec<String>)
    ensures
        texts(r@) == visible_models(texts(catalog@), image_allowed, *collection),
{
    let base = base_codex_model_ids_for_collection(catalog, image_allowed);
    let aliased = crate::models::apply_model_aliases_to_ids(base, &collection.model_aliases);
    let none: Vec<String> = Vec::new();
    proof {
        assert(texts(none@) =~= Seq::<Seq<char>>::empty());
    }
    crate::models::apply_model_filters(aliased, &none, &collection.excluded_models)
}

/// The models a client key sees: the collection's, through the key's own
/// rules, with the key's prefix.
pub open spec fn key_visible_models(
    catalog: Seq<Seq<char>>,
    image_allowed: bool,
    collection: CodexLocalAccessCollection,
    key: ResolvedLocalApiKey,
) -> Seq<Seq<char>> {
    crate::models::prefixed_models(
        crate::models::filtered_models(
            visible_models(catalog, image_allowed, collection),
            texts(key.allowed_models@),
            texts(key.excluded_models@),
        ),
        opt_string_text(key.model_prefix),
    )
}

/// The models a client key sees.
pub fn visible_codex_model_ids_for_api_key(
    catalog: &Vec<String>,
    image_allowed: bool,
    collection: &CodexLocalAccessCollection,
    api_key: &ResolvedLocalApiKey,
) -> (r: Vec<String>)
    ensures
        texts(r@) == key_visible_models(texts(catalog@), image_allowed, *collection, *api_key),
{
    let visible = visible_codex_model_ids_for_collection(catalog, image_allowed, collection);
    let filtered = crate::models::apply_model_filters(visible, &api_key.allowed_models, &api_key.excluded_models);
    let prefix = match &api_key.model_prefix {
        Some(p) => Some(p.as_str()),
        None => None,
    };
    crate::models::add_model_prefix(filtered, prefix)
}

/// The first alias whose name is the text (in any case).
pub open spec fn alias_named(aliases: Seq<(Seq<char>, Seq<char>, bool)>, name: Seq<char>) -> Option<Seq<char>>
    decreases aliases.len(),
{
    if aliases.len() == 0 {
        None
    } else if crate::text::eq_ignore_case(aliases[0].1, name) {
        Some(aliases[0].0)
    } else {
        alias_named(aliases.drop_first(), name)
    }
}

/// The catalog model a client's model id stands for: the id without the
/// key's prefix, mapped back through the collection's aliases, else through
/// the catalog's snapshot rule.
pub open spec fn canonical_model(
    model: Seq<char>,
    catalog: Seq<Seq<char>>,
    collection: CodexLocalAccessCollection,
    key: ResolvedLocalApiKey,
) -> Seq<char> {
    let bare = crate::models::strip_prefix_spec(model, opt_string_text(key.model_prefix));
    match alias_named(alias_views(collection.model_aliases@), bare) {
        Some(source) => source,
        None => crate::models::resolve_alias(bare, catalog),
    }
}

/// The catalog model a client's model id stands for.
pub fn canonical_model_for_client_model(
    model: &str,
    catalog: &Vec<String>,
    collection: &CodexLocalAccessCollection,
    api_key: &ResolvedLocalApiKey,
) -> (r: String)
    ensures
        r@ == canonical_model(model@, texts(catalog@), *collection, *api_key),
{
    let prefix = match &api_key.model_prefix {
        Some(p) => Some(p.as_str()),
        None => None,
    };
    let bare = crate::models::strip_model_prefix(model, prefix);
    let bare_v = chars_of(bare.as_str());
    let aliases = &collection.model_aliases;
    let mut i: usize = 0;
    assert(alias_views(aliases@).skip(0) =~= alias_views(aliases@));
    while i < aliases.len()
        invariant
            i <= aliases@.len(),
            alias_named(alias_views(aliases@), bare_v@) == alias_named(alias_views(aliases@).skip(i as int), bare_v@),
            bare_v@ == bare@,
            bare@ == crate::models::strip_prefix_spec(model@, opt_string_text(api_key.model_prefix)),
            aliases == &collection.model_aliases,
        decreases aliases@.len() - i,
    {
        let ghost rest = alias_views(aliases@).skip(i as int);
        proof {
            assert(rest[0] == crate::models::alias_view(aliases@[i as int]));
            assert(rest.drop_first() =~= alias_views(aliases@).skip(i as int + 1));
        }
        if crate::text::eq_ignore_case_exec(&chars_of(aliases[i].alias.as_str()), &bare_v) {
            return copy_string(&aliases[i].source_model);
        }
        i = i + 1;
    }
    crate::models::resolve_supported_model_alias_in(bare.as_str(), catalog)
}

/// A shown model answers to a client's request: by its bare id, by the
/// canonical model, or through the snapshot rule to the canonical model (all
/// in any case).
pub open spec fn answers_to(item: Seq<char>, bare: Seq<char>, canonical: Seq<char>, catalog: Seq<Seq<char>>) -> bool {
    crate::text::eq_ignore_case(item, bare) || crate::text::eq_ignore_case(item, canonical)
        || crate::text::eq_ignore_case(crate::models::resolve_alias(item, catalog), canonical)
}

/// A client's model is within its key's reach: the collection shows a model
/// that answers to it, the key's allowed rules (if any) match its bare id or
/// its canonical model, and no excluded rule of the key matches either.
pub open spec fn model_visible(
    model: Seq<char>,
    canonical: Seq<char>,
    catalog: Seq<Seq<char>>,
    image_allowed: bool,
    collection: CodexLocalAccessCollection,
    key: ResolvedLocalApiKey,
) -> bool {
    let bare = crate::models::strip_prefix_spec(model, opt_string_text(key.model_prefix));
    let visible = visible_models(catalog, image_allowed, collection);
    let allowed = texts(key.allowed_models@);
    let excluded = texts(key.excluded_models@);
    &&& exists|i: int| 0 <= i < visible.len() && #[trigger] answers_to(visible[i], bare, canonical, catalog)
    &&& (allowed.len() == 0 || crate::models::matches_any_rule(bare, allowed)
        || crate::models::matches_any_rule(canonical, allowed))
    &&& !crate::models::matches_any_rule(bare, excluded)
    &&& !crate::models::matches_any_rule(canonical, excluded)
}

fn any_answers(visible: &Vec<String>, bare: &str, canonical: &str, catalog: &Vec<String>) -> (r: bool)
    ensures
        r == exists|i: int|
            0 <= i < visible@.len() && #[trigger] answers_to(texts(visible@)[i], bare@, canonical@, texts(catalog@)),
{
    let bare_v = chars_of(bare);
    let canon_v = chars_of(canonical);
    let mut i: usize = 0;
    while i < visible.len()
        invariant
            i <= visible@.len(),
            bare_v@ == bare@,
            canon_v@ == canonical@,
            forall|k: int| 0 <= k < i ==> !#[trigger] answers_to(texts(visible@)[k], bare@, canonical@, texts(catalog@)),
        decreases visible@.len() - i,
    {
        let item = &visible[i];
        let resolved = crate::models::resolve_supported_model_alias_in(item.as_str(), catalog);
        let item_v = chars_of(item.as_str());
        if crate::text::eq_ignore_case_exec(&item_v, &bare_v) || crate::text::eq_ignore_case_exec(&item_v, &canon_v)
            || crate::text::eq_ignore_case_exec(&chars_of(resolved.as_str()), &canon_v) {
            assert(answers_to(texts(visible@)[i as int], bare@, canonical@, texts(catalog@)));
            return true;
        }
        i = i + 1;
    }
    false
}

/// Whether a client's model is within its key's reach.
pub fn validate_client_model_visible(
    model: &str,
    canonical_model: &str,
    catalog: &Vec<String>,
    image_allowed: bool,
    collection: &CodexLocalAccessCollection,
    api_key: &ResolvedLocalApiKey,
) -> (r: bool)
    ensures
        r == model_visible(model@, canonical_model@, texts(catalog@), image_allowed, *collection, *api_key),
{
    let prefix = match &api_key.model_prefix {
        Some(p) => Some(p.as_str()),
        None => None,
    };
    let bare = crate::models::strip_model_prefix(model, prefix);
    let visible = visible_codex_model_ids_for_collection(catalog, image_allowed, collection);
    let found = any_answers(&visible, bare.as_str(), canonical_model, catalog);
    if !found {
        return false;
    }
    if api_key.allowed_models.len() > 0 && !crate::models::model_matches_any_rule(bare.as_str(), &api_key.allowed_models)
        && !crate::models::model_matches_any_rule(canonical_model, &api_key.allowed_models) {
        return false;
    }
    !crate::models::model_matches_any_rule(bare.as_str(), &api_key.excluded_models)
        && !crate::models::model_matches_any_rule(canonical_model, &api_key.excluded_models)
}


// ---------------------------------------------------------------------------
// What sanitizing leaves
// ---------------------------------------------------------------------------

/// A sanitized collection: its accounts are distinct ids of `valid`, each
/// custom rule names a distinct one of its accounts, it has a port, its
/// client keys are normalized under a primary key that is not blank, and its
/// settings are within their bounds.
pub open spec fn collection_sanitized(c: CodexLocalAccessCollection, valid: Set<Seq<char>>) -> bool {
    let ids = texts(c.account_ids@);
    let rules = rule_views(c.custom_routing_rules@);
    &&& ids.no_duplicates()
    &&& forall|i: int| 0 <= i < ids.len() ==> valid.contains(#[trigger] ids[i])
    &&& forall|i: int| 0 <= i < rules.len() ==> ids.contains(#[trigger] rules[i].0)
    &&& forall|i: int, j: int| 0 <= i < j < rules.len() ==> #[trigger] rules[i].0 != #[trigger] rules[j].0
    &&& c.port != 0
    &&& trim(c.api_key@).len() > 0
    &&& keys_shaped(c.api_key@, c.api_keys@)
    &&& SESSION_AFFINITY_TTL_MIN_MS <= c.session_affinity_ttl_ms <= SESSION_AFFINITY_TTL_MAX_MS
    &&& c.max_retry_credentials <= MAX_RETRY_CREDENTIALS_PER_REQUEST
    &&& c.max_retry_interval_ms <= MAX_RETRY_INTERVAL_MAX_MS
}

/// The ids kept are distinct and valid.
proof fn lemma_valid_unique_ids(ids: Seq<Seq<char>>, valid: Set<Seq<char>>)
    ensures
        valid_unique_ids(ids, valid).no_duplicates(),
        forall|i: int|
            0 <= i < valid_unique_ids(ids, valid).len() ==> valid.contains(
                #[trigger] valid_unique_ids(ids, valid)[i],
            ),
    decreases ids.len(),
{
    if ids.len() > 0 {
        lemma_valid_unique_ids(ids.drop_last(), valid);
        let kept = valid_unique_ids(ids.drop_last(), valid);
        let id = ids.last();
        if valid.contains(id) && !kept.contains(id) {
            assert forall|i: int, j: int| 0 <= i < j < kept.push(id).len() implies kept.push(id)[i]
                != kept.push(id)[j] by {
                if j == kept.len() {
                    assert(kept.contains(kept[i]));
                }
            }
        }
    }
}

/// The rules kept name distinct ids among `ids`.
proof fn lemma_normalized_rules(rules: Seq<(Seq<char>, i32, u32)>, ids: Seq<Seq<char>>)
    ensures
        forall|i: int|
            0 <= i < normalized_rules(rules, ids).len() ==> ids.contains(
                #[trigger] normalized_rules(rules, ids)[i].0,
            ),
        forall|i: int, j: int|
            0 <= i < j < normalized_rules(rules, ids).len() ==> #[trigger] normalized_rules(rules, ids)[i].0
                != #[trigger] normalized_rules(rules, ids)[j].0,
    decreases rules.len(),
{
    if rules.len() > 0 {
        lemma_normalized_rules(rules.drop_last(), ids);
        let prev = normalized_rules(rules.drop_last(), ids);
        match crate::routing::normalized_rule(rules.last()) {
            Some(r) => {
                let names = prev.map_values(|x: (Seq<char>, i32, u32)| x.0);
                if ids.contains(r.0) && !names.contains(r.0) {
                    assert forall|i: int, j: int| 0 <= i < j < prev.push(r).len() implies prev.push(r)[i].0
                        != prev.push(r)[j].0 by {
                        if j == prev.len() {
                            assert(names[i] == prev[i].0);
                        }
                    }
                }
            },
            None => {},
        }
    }
}

/// An enabled key at `k` means there is a first enabled key, at or before it.
proof fn lemma_first_enabled(keys: Seq<CodexLocalAccessApiKey>, k: int)
    requires
        0 <= k < keys.len(),
        keys[k].enabled,
    ensures
        exists|i: int|
            0 <= i <= k && #[trigger] keys[i].enabled && forall|j: int| 0 <= j < i ==> !#[trigger] keys[j].enabled,
    decreases k,
{
    if exists|j: int| 0 <= j < k && #[trigger] keys[j].enabled {
        let j = choose|j: int| 0 <= j < k && #[trigger] keys[j].enabled;
        lemma_first_enabled(keys, j);
    } else {
        assert(forall|j: int| 0 <= j < k ==> !#[trigger] keys[j].enabled);
    }
}

/// The primary key text is the text of one of the keys.
proof fn lemma_primary_key_listed(keys: Seq<CodexLocalAccessApiKey>)
    requires
        keys.len() > 0,
    ensures
        exists|i: int| 0 <= i < keys.len() && #[trigger] keys[i].key@ == primary_key(keys),
{
    if exists|k: int| 0 <= k < keys.len() && #[trigger] keys[k].enabled {
        let k = choose|k: int| 0 <= k < keys.len() && #[trigger] keys[k].enabled;
        lemma_first_enabled(keys, k);
        let i = choose|i: int|
            0 <= i < keys.len() && #[trigger] keys[i].enabled && forall|j: int| 0 <= j < i ==> !#[trigger] keys[j].enabled;
        assert(keys[i].key@ == primary_key(keys));
    } else {
        assert(keys[0].key@ == primary_key(keys));
    }
}

/// Sanitizing a collection leaves it sanitized. The hypotheses are what
/// `sanitize_collection` states of a run that read the accounts `list`, with
/// a port allocated where the collection had none (an allocated port is never
/// 0).
pub proof fn lemma_sanitized_collection(
    o: CodexLocalAccessCollection,
    c: CodexLocalAccessCollection,
    allocated_port: Result<u16, String>,
    list: Seq<CodexAccount>,
    now: i64,
    early: bool,
)
    requires
        o.port == 0 ==> (allocated_port matches Ok(p) && p != 0),
        first_steps(o, c, chosen_port(o.port, allocated_port), now, early),
        texts(c.account_ids@) == valid_unique_ids(
            texts(o.account_ids@),
            eligible_ids(list, o.restrict_free_accounts),
        ),
        rule_views(c.custom_routing_rules@) == normalized_rules(
            rule_views(o.custom_routing_rules@),
            texts(c.account_ids@),
        ),
        c.session_affinity_ttl_ms == clamp_i64(
            o.session_affinity_ttl_ms,
            SESSION_AFFINITY_TTL_MIN_MS,
            SESSION_AFFINITY_TTL_MAX_MS,
        ),
        c.max_retry_credentials == (if o.max_retry_credentials > MAX_RETRY_CREDENTIALS_PER_REQUEST {
            MAX_RETRY_CREDENTIALS_PER_REQUEST
        } else {
            o.max_retry_credentials
        }),
        c.max_retry_interval_ms == (if o.max_retry_interval_ms > MAX_RETRY_INTERVAL_MAX_MS {
            MAX_RETRY_INTERVAL_MAX_MS
        } else {
            o.max_retry_interval_ms
        }),
    ensures
        collection_sanitized(c, eligible_ids(list, o.restrict_free_accounts)),
{
    let valid = eligible_ids(list, o.restrict_free_accounts);
    lemma_valid_unique_ids(texts(o.account_ids@), valid);
    lemma_normalized_rules(rule_views(o.custom_routing_rules@), texts(c.account_ids@));
    let (legacy, keys_changed) = choose|legacy: Seq<char>, keys_changed: bool|
        {
            &&& (if trim(o.api_key@).len() == 0 {
                is_random_token(legacy, "agt_codex_"@, 32)
            } else {
                legacy == o.api_key@
            })
            &&& #[trigger] keys_step(legacy, o.api_keys@, c.api_key@, c.api_keys@, now, keys_changed)
            &&& c.port == chosen_port(o.port, allocated_port)
        };
    lemma_normalized_keys(legacy, o.api_keys@, c.api_key@, c.api_keys@, now, keys_changed);
    lemma_primary_key_listed(c.api_keys@);
}


/// The accounts a client chose for the gateway, kept where they may serve
/// it (under the free-account rule given) and listed once each, in the
/// order chosen.
pub fn select_local_access_accounts(
    account_ids: &Vec<String>,
    accounts: &Vec<CodexAccount>,
    restrict_free_accounts: bool,
) -> (r: Vec<String>)
    ensures
        texts(r@) == valid_unique_ids(texts(account_ids@), eligible_ids(accounts@, restrict_free_accounts)),
{
    let valid = eligible_account_ids(accounts, restrict_free_accounts);
    dedup_valid_ids(account_ids, &valid)
}

} // verus!
