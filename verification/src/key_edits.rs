//! Edits of the client API keys of a collection: updating one key's label,
//! switch and model rules, rotating its key text, and deleting keys. Each
//! finds the key by its trimmed id; the caller normalizes the keys before
//! and after.
use vstd::prelude::*;
use crate::collection::{
    CodexLocalAccessApiKey, api_key_label, normalize_api_key_label, stored_key_fallback,
};
use crate::models::{distinct_trimmed, model_prefix_of, normalize_model_prefix_value, normalize_model_rule_list};
use crate::text::{trim, trim_str, str_eq, lit, texts, opt_string_text};

verus! {

broadcast use vstd::string::group_string_axioms;

/// The first position of a key with the id.
pub open spec fn key_position(keys: Seq<CodexLocalAccessApiKey>, id: Seq<char>) -> Option<int> {
    if exists|i: int| 0 <= i < keys.len() && #[trigger] keys[i].id@ == id {
        Some(choose|i: int| 0 <= i < keys.len() && #[trigger] keys[i].id@ == id && forall|j: int| 0 <= j < i ==> #[trigger] keys[j].id@ != id)
    } else {
        None
    }
}

fn find_key(keys: &Vec<CodexLocalAccessApiKey>, id: &str) -> (r: Option<usize>)
    ensures
        match r {
            Some(i) => key_position(keys@, id@) == Some(i as int) && i < keys@.len(),
            None => key_position(keys@, id@) is None,
        },
{
    let mut i: usize = 0;
    while i < keys.len()
        invariant
            i <= keys@.len(),
            forall|j: int| 0 <= j < i ==> #[trigger] keys@[j].id@ != id@,
        decreases keys@.len() - i,
    {
        if str_eq(keys[i].id.as_str(), id) {
            proof {
                let c = choose|c: int| 0 <= c < keys@.len() && #[trigger] keys@[c].id@ == id@ && forall|j: int| 0 <= j < c ==> #[trigger] keys@[j].id@ != id@;
                assert(keys@[i as int].id@ == id@);
                if c < i {
                    assert(keys@[c].id@ != id@);
                }
                if c > i {
                    assert(keys@[i as int].id@ != id@);
                }
            }
            return Some(i);
        }
        i = i + 1;
    }
    None
}

/// The keys without those that have the id.
pub open spec fn keys_without(keys: Seq<CodexLocalAccessApiKey>, id: Seq<char>) -> Seq<CodexLocalAccessApiKey>
    decreases keys.len(),
{
    if keys.len() == 0 {
        Seq::empty()
    } else {
        let rest = keys_without(keys.drop_last(), id);
        if keys.last().id@ == id {
            rest
        } else {
            rest.push(keys.last())
        }
    }
}

/// Deletes the keys with the (trimmed) id. At least one key must stay: with
/// one key or none, nothing is deleted; an id that no key has is an error
/// too, and the keys stay as they were.
pub fn delete_api_key(keys: &mut Vec<CodexLocalAccessApiKey>, api_key_id: &str) -> (r: Result<(), String>)
    ensures
        old(keys)@.len() <= 1 ==> (r matches Err(e) && e@ == "至少保留一个 API Key"@ && final(keys)@ == old(keys)@),
        old(keys)@.len() > 1 && key_position(old(keys)@, trim(api_key_id@)) is None ==> (r matches Err(e)
            && e@ == "API Key 不存在"@ && final(keys)@ == old(keys)@),
        old(keys)@.len() > 1 && key_position(old(keys)@, trim(api_key_id@)) is Some ==> r is Ok
            && final(keys)@ == keys_without(old(keys)@, trim(api_key_id@)),
{
    if keys.len() <= 1 {
        return Err(lit("至少保留一个 API Key"));
    }
    let id = trim_str(api_key_id);
    if find_key(keys, id.as_str()).is_none() {
        return Err(lit("API Key 不存在"));
    }
    let ghost start = keys@;
    let ghost n = start.len();
    let mut i: usize = 0;
    let ghost mut j: int = 0;
    while i < keys.len()
        invariant
            0 <= j <= n,
            n == start.len(),
            i <= keys@.len(),
            keys@.take(i as int) == keys_without(start.take(j), id@),
            keys@.skip(i as int) == start.skip(j),
        decreases keys@.len() - i,
    {
        let ghost before = keys@;
        proof {
            assert(before.skip(i as int).len() > 0);
            assert(start.skip(j).len() > 0);
            assert(j < n);
            assert(start.skip(j)[0] == before.skip(i as int)[0]);
            assert(start[j] == before[i as int]);
            assert(start.take(j + 1).drop_last() =~= start.take(j));
        }
        if str_eq(keys[i].id.as_str(), id.as_str()) {
            keys.remove(i);
            proof {
                assert(keys@.take(i as int) =~= before.take(i as int));
                assert(keys@.skip(i as int) =~= before.skip(i + 1));
                assert(start.skip(j + 1) =~= start.skip(j).skip(1));
                assert(before.skip(i + 1) =~= before.skip(i as int).skip(1));
                j = j + 1;
            }
        } else {
            proof {
                assert(keys@.take(i + 1) =~= before.take(i as int).push(before[i as int]));
                assert(keys@.skip(i + 1) =~= before.skip(i as int).skip(1));
                assert(start.skip(j + 1) =~= start.skip(j).skip(1));
                j = j + 1;
            }
            i = i + 1;
        }
    }
    proof {
        assert(keys@.take(i as int) =~= keys@);
        assert(start.skip(j).len() == 0);
        assert(start.take(j) =~= start);
    }
    Ok(())
}

/// A key rotated at `now`: its new key text, updated now, never used.
pub open spec fn rotated_key(k: CodexLocalAccessApiKey, new_key: Seq<char>, now: i64, r: CodexLocalAccessApiKey) -> bool {
    &&& r.key@ == new_key
    &&& r.updated_at == now
    &&& r.last_used_at is None
    &&& r.id == k.id
    &&& r.label == k.label
    &&& r.model_prefix == k.model_prefix
    &&& r.allowed_models == k.allowed_models
    &&& r.excluded_models == k.excluded_models
    &&& r.enabled == k.enabled
    &&& r.created_at == k.created_at
}

/// Gives the key with the (trimmed) id a new key text at `now`; an id that
/// no key has is an error, and the keys stay as they were.
pub fn rotate_api_key(keys: &mut Vec<CodexLocalAccessApiKey>, api_key_id: &str, new_key: String, now: i64) -> (r:
    Result<(), String>)
    ensures
        match key_position(old(keys)@, trim(api_key_id@)) {
            None => r matches Err(e) && e@ == "API Key 不存在"@ && final(keys)@ == old(keys)@,
            Some(i) => {
                &&& r is Ok
                &&& final(keys)@.len() == old(keys)@.len()
                &&& forall|j: int| 0 <= j < old(keys)@.len() && j != i ==> #[trigger] final(keys)@[j] == old(keys)@[j]
                &&& rotated_key(old(keys)@[i], new_key@, now, final(keys)@[i])
            },
        },
{
    let id = trim_str(api_key_id);
    let index = match find_key(keys, id.as_str()) {
        Some(i) => i,
        None => return Err(lit("API Key 不存在")),
    };
    let mut k = keys.remove(index);
    k.key = new_key;
    k.updated_at = now;
    k.last_used_at = None;
    keys.insert(index, k);
    Ok(())
}

/// A key updated at `now`: a new label (normalized) where one is given, a
/// new switch where one is given, a new prefix and model rules (normalized)
/// where given; the switch is forced on where `force_enabled`.
pub open spec fn updated_key(
    k: CodexLocalAccessApiKey,
    label: Option<Seq<char>>,
    enabled: Option<bool>,
    model_prefix: Option<Seq<char>>,
    allowed_models: Option<Seq<Seq<char>>>,
    excluded_models: Option<Seq<Seq<char>>>,
    now: i64,
    force_enabled: bool,
    r: CodexLocalAccessApiKey,
) -> bool {
    &&& r.label@ == match label {
        Some(l) => api_key_label(Some(l), stored_key_fallback()),
        None => k.label@,
    }
    &&& r.enabled == (force_enabled || match enabled {
        Some(e) => e,
        None => k.enabled,
    })
    &&& opt_string_text(r.model_prefix) == match model_prefix {
        Some(p) => model_prefix_of(Some(p)),
        None => opt_string_text(k.model_prefix),
    }
    &&& texts(r.allowed_models@) == match allowed_models {
        Some(m) => distinct_trimmed(m),
        None => texts(k.allowed_models@),
    }
    &&& texts(r.excluded_models@) == match excluded_models {
        Some(m) => distinct_trimmed(m),
        None => texts(k.excluded_models@),
    }
    &&& r.updated_at == now
    &&& r.id == k.id
    &&& r.key == k.key
    &&& r.created_at == k.created_at
    &&& r.last_used_at == k.last_used_at
}

/// Whether some key other than the one at `i` is enabled.
pub open spec fn other_enabled(keys: Seq<CodexLocalAccessApiKey>, i: int) -> bool {
    exists|j: int| 0 <= j < keys.len() && j != i && #[trigger] keys[j].enabled
}

/// Updates the key with the (trimmed) id at `now`. Where afterwards no key
/// would be enabled, the updated key stays enabled. An id that no key has is
/// an error, and the keys stay as they were.
pub fn update_api_key(
    keys: &mut Vec<CodexLocalAccessApiKey>,
    api_key_id: &str,
    label: Option<String>,
    enabled: Option<bool>,
    model_prefix: Option<String>,
    allowed_models: Option<Vec<String>>,
    excluded_models: Option<Vec<String>>,
    now: i64,
) -> (r: Result<(), String>)
    ensures
        match key_position(old(keys)@, trim(api_key_id@)) {
            None => r matches Err(e) && e@ == "API Key 不存在"@ && final(keys)@ == old(keys)@,
            Some(i) => {
                let requested = match enabled {
                    Some(e) => e,
                    None => old(keys)@[i].enabled,
                };
                &&& r is Ok
                &&& final(keys)@.len() == old(keys)@.len()
                &&& forall|j: int| 0 <= j < old(keys)@.len() && j != i ==> #[trigger] final(keys)@[j] == old(keys)@[j]
                &&& updated_key(
                    old(keys)@[i],
                    opt_string_text(label),
                    enabled,
                    opt_string_text(model_prefix),
                    match allowed_models {
                        Some(m) => Some(texts(m@)),
                        None => None,
                    },
                    match excluded_models {
                        Some(m) => Some(texts(m@)),
                        None => None,
                    },
                    now,
                    !requested && !other_enabled(old(keys)@, i),
                    final(keys)@[i],
                )
            },
        },
{
    let id = trim_str(api_key_id);
    let index = match find_key(keys, id.as_str()) {
        Some(i) => i,
        None => return Err(lit("API Key 不存在")),
    };
    let ghost start = keys@;
    let mut others = false;
    let mut j: usize = 0;
    while j < keys.len()
        invariant
            keys@ == start,
            index < start.len(),
            j <= start.len(),
            others == exists|x: int| 0 <= x < j && x != index && #[trigger] start[x].enabled,
        decreases start.len() - j,
    {
        if j != index && keys[j].enabled {
            others = true;
        }
        j = j + 1;
    }
    let mut k = keys.remove(index);
    match label {
        Some(l) => {
            k.label = normalize_api_key_label(Some(l.as_str()), "API Key");
        },
        None => {},
    }
    match enabled {
        Some(e) => {
            k.enabled = e;
        },
        None => {},
    }
    if model_prefix.is_some() {
        k.model_prefix = normalize_model_prefix_value(model_prefix);
    }
    match allowed_models {
        Some(m) => {
            k.allowed_models = normalize_model_rule_list(&m);
        },
        None => {},
    }
    match excluded_models {
        Some(m) => {
            k.excluded_models = normalize_model_rule_list(&m);
        },
        None => {},
    }
    k.updated_at = now;
    if !k.enabled && !others {
        k.enabled = true;
    }
    keys.insert(index, k);
    Ok(())
}

} // verus!
