//! What the gateway installs in a Codex profile it takes over, and how it
//! recognises its own installation there later: the local base URLs, the
//! key under which a profile directory is remembered, and the API-key login.
use vstd::prelude::*;
use crate::errors::{decimal_text, decimal_string};
use crate::json::{JsonValue, field, as_text, json_from_text, parse_json_text, get_member, text_of};
use crate::text::{
    trim, lower, starts_with, trim_vec, lower_vec, starts_with_exec, chars_of, seq_eq, string_of,
    concat_str,
};

verus! {

broadcast use vstd::string::group_string_axioms;

/// The chat-completions URL of the gateway on a local port.
pub open spec fn api_port_url(port: u16) -> Seq<char> {
    "http://127.0.0.1:"@ + decimal_text(port as nat) + "/v1/chat/completions"@
}

/// The base URL that a taken-over profile is pointed at.
pub open spec fn base_url(port: u16) -> Seq<char> {
    "http://127.0.0.1:"@ + decimal_text(port as nat) + "/v1"@
}

/// The chat-completions URL of the gateway on `port`.
pub fn build_api_port_url(port: u16) -> (r: String)
    ensures
        r@ == api_port_url(port),
{
    let head = concat_str("http://127.0.0.1:", decimal_string(port as u64).as_str());
    concat_str(head.as_str(), "/v1/chat/completions")
}

/// The base URL of the gateway on `port`.
pub fn build_base_url(port: u16) -> (r: String)
    ensures
        r@ == base_url(port),
{
    let head = concat_str("http://127.0.0.1:", decimal_string(port as u64).as_str());
    concat_str(head.as_str(), "/v1")
}

/// A path separator of either platform.
pub open spec fn is_separator(c: char) -> bool {
    c == '/' || c == '\\'
}

/// A text without its trailing path separators.
pub open spec fn trim_end_separators(s: Seq<char>) -> Seq<char>
    decreases s.len(),
{
    if s.len() > 0 && is_separator(s.last()) {
        trim_end_separators(s.drop_last())
    } else {
        s
    }
}

/// The key under which a profile directory is remembered: its text,
/// trimmed, without trailing separators.
pub open spec fn profile_dir_key(path_text: Seq<char>) -> Seq<char> {
    trim_end_separators(trim(path_text))
}

/// The key of a profile directory, given the directory's text.
pub fn normalize_profile_dir_key(profile_dir: &str) -> (r: String)
    ensures
        r@ == profile_dir_key(profile_dir@),
{
    let t = trim_vec(&chars_of(profile_dir));
    let mut end: usize = t.len();
    assert(t@.take(end as int) =~= t@);
    while end > 0 && (t[end - 1] == '/' || t[end - 1] == '\\')
        invariant
            end <= t@.len(),
            trim_end_separators(t@.take(end as int)) == trim_end_separators(t@),
        decreases end,
    {
        proof {
            assert(t@.take(end as int).drop_last() =~= t@.take(end - 1));
        }
        end = end - 1;
    }
    let mut out: Vec<char> = Vec::new();
    let mut i: usize = 0;
    while i < end
        invariant
            i <= end <= t@.len(),
            out@ =~= t@.take(i as int),
        decreases end - i,
    {
        out.push(t[i]);
        i = i + 1;
        proof {
            assert(out@ =~= t@.take(i as int));
        }
    }
    string_of(&out)
}

/// The prefix of the API keys that the gateway generates.
pub open spec fn generated_key_prefix() -> Seq<char> {
    "agt_codex_"@
}

/// An `auth.json` text is the gateway's own login for `api_key`: the key is
/// not blank; the text is JSON whose `auth_mode` is `apikey` (trimmed, any
/// case) and whose `OPENAI_API_KEY`, trimmed, is the trimmed key or one the
/// gateway generated.
pub open spec fn local_access_auth(auth_text: Seq<char>, api_key: Seq<char>) -> bool {
    let key = trim(api_key);
    &&& key.len() > 0
    &&& json_from_text(auth_text) is Some
    &&& {
        let v = json_from_text(auth_text).unwrap();
        &&& as_text(field(v, "auth_mode"@)) is Some
        &&& lower(trim(as_text(field(v, "auth_mode"@)).unwrap())) == "apikey"@
        &&& as_text(field(v, "OPENAI_API_KEY"@)) is Some
        &&& {
            let k = trim(as_text(field(v, "OPENAI_API_KEY"@)).unwrap());
            k == key || starts_with(k, generated_key_prefix())
        }
    }
}

/// Whether an `auth.json` text is the gateway's login for `api_key`.
pub fn is_codex_local_access_auth_text(auth_text: &str, api_key: &str) -> (r: bool)
    ensures
        r == local_access_auth(auth_text@, api_key@),
{
    let key = trim_vec(&chars_of(api_key));
    if key.len() == 0 {
        return false;
    }
    let value = match parse_json_text(auth_text) {
        Some(v) => v,
        None => return false,
    };
    let mode = match text_of(get_member(&value, "auth_mode")) {
        Some(m) => m,
        None => return false,
    };
    if !seq_eq(&lower_vec(&trim_vec(&chars_of(mode.as_str()))), &chars_of("apikey")) {
        return false;
    }
    let stored = match text_of(get_member(&value, "OPENAI_API_KEY")) {
        Some(k) => k,
        None => return false,
    };
    let stored_key = trim_vec(&chars_of(stored.as_str()));
    seq_eq(&stored_key, &key) || starts_with_exec(&stored_key, &chars_of("agt_codex_"))
}

} // verus!
