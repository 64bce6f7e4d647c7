//! Taking the local gateway's provider back out of Codex's `config.toml`,
//! with the document held by `toml_edit`.
use vstd::prelude::*;
use crate::text::{trim, trim_str, trim_vec, chars_of, lit, concat_str, str_eq};

verus! {

broadcast use vstd::string::group_string_axioms;

#[verifier::external_type_specification]
#[verifier::external_body]
pub struct ExDocumentMut(toml_edit::DocumentMut);

/// The string values among a document's top-level entries, by key.
pub uninterp spec fn toml_strings(d: toml_edit::DocumentMut) -> Map<Seq<char>, Seq<char>>;

/// The tables among a document's top-level entries, by key, each as the set
/// of its keys that hold an item.
pub uninterp spec fn toml_table_keys(d: toml_edit::DocumentMut) -> Map<Seq<char>, Set<Seq<char>>>;

/// A document written out as TOML text.
pub uninterp spec fn toml_text(d: toml_edit::DocumentMut) -> Seq<char>;

/// What `toml_edit` makes of a text: the string entries and tables of the
/// document it parses, or the parse error's message.
pub uninterp spec fn toml_parse(
    s: Seq<char>,
) -> Result<(Map<Seq<char>, Seq<char>>, Map<Seq<char>, Set<Seq<char>>>), Seq<char>>;

/// Parses a text as a TOML document with `DocumentMut::from_str`.
#[verifier::external_body]
fn parse_toml_document(s: &str) -> (r: Result<toml_edit::DocumentMut, String>)
    ensures
        match r {
            Ok(d) => toml_parse(s@) == Ok::<
                (Map<Seq<char>, Seq<char>>, Map<Seq<char>, Set<Seq<char>>>),
                Seq<char>,
            >((toml_strings(d), toml_table_keys(d))),
            Err(e) => toml_parse(s@) == Err::<
                (Map<Seq<char>, Seq<char>>, Map<Seq<char>, Set<Seq<char>>>),
                Seq<char>,
            >(e@),
        },
{
    match s.parse::<toml_edit::DocumentMut>() {
        Ok(d) => Ok(d),
        Err(e) => Err(e.to_string()),
    }
}

/// A top-level string value of a document, read with `Table::get` and
/// `Item::as_str`.
#[verifier::external_body]
fn toml_top_string(d: &toml_edit::DocumentMut, key: &str) -> (r: Option<String>)
    ensures
        match r {
            Some(v) => toml_strings(*d).contains_key(key@) && toml_strings(*d)[key@] == v@,
            None => !toml_strings(*d).contains_key(key@),
        },
{
    match d.get(key) {
        Some(item) => match item.as_str() {
            Some(v) => Some(v.to_string()),
            None => None,
        },
        None => None,
    }
}

/// Removes a top-level entry with `Table::remove`.
#[verifier::external_body]
fn toml_remove_top(d: &mut toml_edit::DocumentMut, key: &str)
    ensures
        toml_strings(*final(d)) == toml_strings(*old(d)).remove(key@),
        toml_table_keys(*final(d)) == toml_table_keys(*old(d)).remove(key@),
{
    let _ = d.remove(key);
}

/// Removes a key from a top-level table (`Table::get_mut`,
/// `Item::as_table_mut`, `Table::remove`) and tells whether the table is left
/// empty (`Table::is_empty`); `None` where there is no such table.
#[verifier::external_body]
fn toml_remove_in_table(d: &mut toml_edit::DocumentMut, table: &str, key: &str) -> (r: Option<bool>)
    ensures
        toml_strings(*final(d)) == toml_strings(*old(d)),
        r is Some ==> !toml_strings(*old(d)).contains_key(table@),
        match r {
            None => !toml_table_keys(*old(d)).contains_key(table@) && toml_table_keys(*final(d))
                == toml_table_keys(*old(d)),
            Some(empty) => {
                &&& toml_table_keys(*old(d)).contains_key(table@)
                &&& toml_table_keys(*final(d)) == toml_table_keys(*old(d)).insert(
                    table@,
                    toml_table_keys(*old(d))[table@].remove(key@),
                )
                &&& empty == (toml_table_keys(*old(d))[table@].remove(key@) == Set::<Seq<char>>::empty())
            },
        },
{
    match d.get_mut(table) {
        Some(item) => match item.as_table_mut() {
            Some(t) => {
                let _ = t.remove(key);
                Some(t.is_empty())
            },
            None => None,
        },
        None => None,
    }
}

/// Writes a document out with its `Display`.
#[verifier::external_body]
fn toml_document_text(d: &toml_edit::DocumentMut) -> (r: String)
    ensures
        r@ == toml_text(*d),
{
    d.to_string()
}

/// Whether a document's provider is the gateway's.
pub open spec fn uses_local_access_provider(strings: Map<Seq<char>, Seq<char>>) -> bool {
    strings.contains_key("model_provider"@) && trim(strings["model_provider"@]) == "codex_local_access"@
}

/// The string entries once the gateway's provider is taken out.
pub open spec fn strings_without_provider(strings: Map<Seq<char>, Seq<char>>) -> Map<Seq<char>, Seq<char>> {
    strings.remove("model_provider"@)
}

/// The tables once the gateway's provider is taken out: its entry leaves
/// `model_providers`, and `model_providers` goes when nothing is left in it.
pub open spec fn tables_without_provider(
    tables: Map<Seq<char>, Set<Seq<char>>>,
) -> Map<Seq<char>, Set<Seq<char>>> {
    let t = tables.remove("model_provider"@);
    if t.contains_key("model_providers"@) {
        let rest = t["model_providers"@].remove("codex_local_access"@);
        if rest == Set::<Seq<char>>::empty() {
            t.remove("model_providers"@)
        } else {
            t.insert("model_providers"@, rest)
        }
    } else {
        t
    }
}

/// Takes the gateway's provider out of a parsed document: the
/// `model_provider` entry, the provider's table under `model_providers`, and
/// `model_providers` itself when that leaves it empty. A document whose
/// provider is another is left as it is. Tells whether it changed.
pub fn remove_local_access_provider(d: &mut toml_edit::DocumentMut) -> (r: bool)
    ensures
        r == uses_local_access_provider(toml_strings(*old(d))),
        !r ==> *final(d) == *old(d),
        r ==> toml_strings(*final(d)) == strings_without_provider(toml_strings(*old(d))),
        r ==> toml_table_keys(*final(d)) == tables_without_provider(toml_table_keys(*old(d))),
{
    let provider = toml_top_string(d, "model_provider");
    let ours = match provider {
        Some(p) => str_eq(trim_str(p.as_str()).as_str(), "codex_local_access"),
        None => false,
    };
    if !ours {
        return false;
    }
    toml_remove_top(d, "model_provider");
    let ghost mid = *d;
    let emptied = toml_remove_in_table(d, "model_providers", "codex_local_access");
    if let Some(true) = emptied {
        toml_remove_top(d, "model_providers");
    }
    proof {
        let t = toml_table_keys(*old(d)).remove("model_provider"@);
        assert(toml_table_keys(mid) == t);
        if t.contains_key("model_providers"@) {
            let rest = t["model_providers"@].remove("codex_local_access"@);
            if rest == Set::<Seq<char>>::empty() {
                assert(toml_table_keys(*d) =~= t.remove("model_providers"@));
            } else {
                assert(toml_table_keys(*d) == t.insert("model_providers"@, rest));
            }
        }
        assert(toml_strings(*d) =~= toml_strings(*old(d)).remove("model_provider"@));
    }
    true
}

/// What cleaning a `config.toml` text gives: an empty text for a blank one,
/// the parse error, the text as it was where the provider is another, and
/// otherwise the text of the document without the gateway's provider.
pub open spec fn cleaned_config(
    text: Seq<char>,
    out: Result<Seq<char>, Seq<char>>,
) -> bool {
    if trim(text).len() == 0 {
        out == Ok::<Seq<char>, Seq<char>>(Seq::empty())
    } else {
        match toml_parse(text) {
            Err(e) => out == Err::<Seq<char>, Seq<char>>("解析 Codex config.toml 失败: "@ + e),
            Ok((strings, tables)) => if !uses_local_access_provider(strings) {
                out == Ok::<Seq<char>, Seq<char>>(text)
            } else {
                exists|d: toml_edit::DocumentMut|
                    {
                        &&& toml_strings(d) == strings_without_provider(strings)
                        &&& toml_table_keys(d) == tables_without_provider(tables)
                        &&& out == Ok::<Seq<char>, Seq<char>>(#[trigger] toml_text(d))
                    }
            },
        }
    }
}

/// Takes the gateway's provider back out of a Codex `config.toml` text.
pub fn remove_codex_local_access_config(config_text: &str) -> (r: Result<String, String>)
    ensures
        cleaned_config(
            config_text@,
            match r {
                Ok(s) => Ok::<Seq<char>, Seq<char>>(s@),
                Err(e) => Err::<Seq<char>, Seq<char>>(e@),
            },
        ),
{
    if trim_vec(&chars_of(config_text)).len() == 0 {
        let empty = lit("");
        proof {
            reveal_strlit("");
            assert(empty@ =~= Seq::<char>::empty());
        }
        return Ok(empty);
    }
    let mut doc = match parse_toml_document(config_text) {
        Ok(d) => d,
        Err(e) => return Err(concat_str("解析 Codex config.toml 失败: ", e.as_str())),
    };
    let changed = remove_local_access_provider(&mut doc);
    if !changed {
        return Ok(lit(config_text));
    }
    let out = toml_document_text(&doc);
    proof {
        assert(toml_text(doc) == out@);
    }
    Ok(out)
}

/// Whether a `config.toml` text names the gateway as Codex's provider: it
/// parses, and its `model_provider` is the gateway's.
pub open spec fn local_access_config(text: Seq<char>) -> bool {
    match toml_parse(text) {
        Ok((strings, _)) => uses_local_access_provider(strings),
        Err(_) => false,
    }
}

/// Whether a `config.toml` text names the gateway as Codex's provider.
pub fn is_codex_local_access_config(config_text: &str) -> (r: bool)
    ensures
        r == local_access_config(config_text@),
{
    match parse_toml_document(config_text) {
        Ok(d) => match toml_top_string(&d, "model_provider") {
            Some(p) => str_eq(trim_str(p.as_str()).as_str(), "codex_local_access"),
            None => false,
        },
        Err(_) => false,
    }
}

/// What becomes of a profile's `config.toml` when the gateway's takeover is
/// undone without a backup: `None` where it is left alone, `Some(None)` where
/// the file goes because nothing is left in it, `Some(Some(text))` where it
/// is rewritten.
pub fn cleaned_profile_config(config_text: &str) -> (r: Result<Option<Option<String>>, String>)
    ensures
        !local_access_config(config_text@) ==> r == Ok::<Option<Option<String>>, String>(None),
        local_access_config(config_text@) ==> match r {
            Ok(Some(Some(t))) => trim(t@).len() > 0 && cleaned_config(config_text@, Ok::<Seq<char>, Seq<char>>(t@)),
            Ok(Some(None)) => exists|t: Seq<char>| trim(t).len() == 0 && #[trigger] cleaned_config(config_text@, Ok::<Seq<char>, Seq<char>>(t)),
            Ok(None) => false,
            Err(e) => cleaned_config(config_text@, Err::<Seq<char>, Seq<char>>(e@)),
        },
{
    if !is_codex_local_access_config(config_text) {
        return Ok(None);
    }
    match remove_codex_local_access_config(config_text) {
        Ok(cleaned) => {
            if trim_vec(&chars_of(cleaned.as_str())).len() == 0 {
                Ok(Some(None))
            } else {
                Ok(Some(Some(cleaned)))
            }
        },
        Err(e) => Err(e),
    }
}

} // verus!
