//! Tool names as the upstream accepts them: at most 64 bytes, shortened
//! where longer and made unique with numeric suffixes, with the map back to
//! the names the client used.
use vstd::prelude::*;
use vstd::utf8::{encode_utf8, encode_scalar, is_ascii_chars};
use crate::errors::{decimal_text, decimal_string};
use crate::json::{JsonValue, field, as_text, request_body_json, parse_request_body_json, get_member, text_of};
use crate::text::{
    starts_with, occurs_at, chars_of, string_of, starts_with_exec, occurs_at_exec, seq_eq, concat_str,
    concat_vec, sub_vec, texts, contains_string, copy_string, lit,
};

verus! {

broadcast use vstd::string::group_string_axioms;

/// The most bytes a tool name may have upstream.
pub open spec fn tool_name_limit() -> nat {
    64
}

/// The length of a text in UTF-8 bytes, as `str::len` counts it.
pub open spec fn byte_len(s: Seq<char>) -> nat {
    encode_utf8(s).len()
}

proof fn lemma_encode_push(s: Seq<char>, c: char)
    ensures
        encode_utf8(s.push(c)) == encode_utf8(s) + encode_scalar(c as u32),
    decreases s.len(),
{
    if s.len() == 0 {
        let t = s.push(c);
        assert(t.drop_first() =~= Seq::<char>::empty());
        assert(encode_utf8(t.drop_first()) =~= Seq::<u8>::empty());
        assert(encode_utf8(s) =~= Seq::<u8>::empty());
        assert(encode_utf8(t) == encode_scalar(t[0] as u32) + encode_utf8(t.drop_first()));
        assert(encode_scalar(c as u32) + Seq::<u8>::empty() =~= encode_scalar(c as u32));
        assert(Seq::<u8>::empty() + encode_scalar(c as u32) =~= encode_scalar(c as u32));
    } else {
        lemma_encode_push(s.drop_first(), c);
        assert(s.push(c).drop_first() =~= s.drop_first().push(c));
        assert(encode_utf8(s.push(c)) =~= encode_utf8(s) + encode_scalar(c as u32));
    }
}

/// The number of UTF-8 bytes of a character.
fn char_width(c: char) -> (r: usize)
    ensures
        r == encode_scalar(c as u32).len(),
        1 <= r <= 4,
{
    let u = c as u32;
    proof {
        vstd::utf8::char_is_scalar(c);
    }
    if u <= 0x7f {
        1
    } else if u <= 0x7ff {
        2
    } else if u <= 0xffff {
        3
    } else {
        4
    }
}

/// The longest start of a text that fits in `limit` bytes.
pub open spec fn truncate_bytes(s: Seq<char>, limit: nat) -> Seq<char>
    decreases s.len(),
{
    if byte_len(s) <= limit || s.len() == 0 {
        s
    } else {
        truncate_bytes(s.drop_last(), limit)
    }
}

/// Cuts a text to at most `limit` bytes, at a character boundary.
pub fn truncate_to_byte_limit(value: &str, limit: usize) -> (r: String)
    ensures
        r@ == truncate_bytes(value@, limit as nat),
{
    let v = chars_of(value);
    let mut end: usize = v.len();
    let mut bytes: usize = value.as_bytes().len();
    assert(v@.take(end as int) =~= v@);
    while bytes > limit && end > 0
        invariant
            end <= v@.len(),
            bytes == byte_len(v@.take(end as int)),
            truncate_bytes(v@.take(end as int), limit as nat) == truncate_bytes(v@, limit as nat),
        decreases end,
    {
        let w = char_width(v[end - 1]);
        proof {
            let t = v@.take(end as int);
            assert(t.drop_last() =~= v@.take(end - 1));
            assert(t =~= v@.take(end - 1).push(v@[end - 1]));
            lemma_encode_push(v@.take(end - 1), v@[end - 1]);
        }
        end = end - 1;
        bytes = bytes - w;
    }
    string_of(&sub_vec(&v, 0, end))
}

/// The last position where `p` occurs in `s` at or before `i`.
pub open spec fn rfind_from(s: Seq<char>, p: Seq<char>, i: int) -> Option<int>
    decreases i + 1,
{
    if i < 0 {
        None
    } else if occurs_at(s, p, i) {
        Some(i)
    } else {
        rfind_from(s, p, i - 1)
    }
}

/// The last position where `p` occurs in `s`.
pub open spec fn rfind(s: Seq<char>, p: Seq<char>) -> Option<int> {
    rfind_from(s, p, s.len() - p.len())
}

proof fn lemma_rfind_occurs(s: Seq<char>, p: Seq<char>, i: int)
    ensures
        rfind_from(s, p, i) matches Some(k) ==> occurs_at(s, p, k),
    decreases i + 1,
{
    if i >= 0 && !occurs_at(s, p, i) {
        lemma_rfind_occurs(s, p, i - 1);
    }
}

proof fn lemma_decimal_text_ascii(n: nat)
    ensures
        is_ascii_chars(decimal_text(n)),
    decreases n,
{
    if n >= 10 {
        lemma_decimal_text_ascii(n / 10);
        let d = decimal_text(n / 10).push(((n % 10) + 48) as char);
        assert forall|i: int| 0 <= i < d.len() implies '\0' <= #[trigger] d[i] <= '\u{7f}' by {
            if i < d.len() - 1 {
                assert(d[i] == decimal_text(n / 10)[i]);
            }
        }
    }
}

fn rfind_exec(s: &Vec<char>, p: &Vec<char>) -> (r: Option<usize>)
    ensures
        r matches Some(i) ==> rfind(s@, p@) == Some(i as int),
        r is None ==> rfind(s@, p@) is None,
{
    if p.len() > s.len() {
        return None;
    }
    let mut i: usize = s.len() - p.len();
    loop
        invariant
            p@.len() <= s@.len(),
            i <= s@.len() - p@.len(),
            rfind(s@, p@) == rfind_from(s@, p@, i as int),
        decreases i,
    {
        if occurs_at_exec(s, p, i) {
            return Some(i);
        }
        if i == 0 {
            return None;
        }
        i = i - 1;
    }
}

/// A tool name as the upstream gets it: unchanged within the limit; a long
/// `mcp__` name keeps `mcp__` and what follows its last `__`; then it is
/// cut to the limit.
pub open spec fn shorten_tool_name(name: Seq<char>) -> Seq<char> {
    if byte_len(name) <= tool_name_limit() {
        name
    } else if starts_with(name, "mcp__"@) && rfind(name, "__"@) is Some && rfind(name, "__"@).unwrap()
        > 0 {
        truncate_bytes("mcp__"@ + name.skip(rfind(name, "__"@).unwrap() + 2), tool_name_limit())
    } else {
        truncate_bytes(name, tool_name_limit())
    }
}

/// The name a tool goes by upstream, before names are made unique.
pub fn shorten_tool_name_if_needed(name: &str) -> (r: String)
    ensures
        r@ == shorten_tool_name(name@),
{
    if name.as_bytes().len() <= 64 {
        return lit(name);
    }
    let v = chars_of(name);
    if starts_with_exec(&v, &chars_of("mcp__")) {
        match rfind_exec(&v, &chars_of("__")) {
            Some(index) => {
                if index > 0 {
                    proof {
                        reveal_strlit("__");
                        lemma_rfind_occurs(v@, "__"@, v@.len() - 2);
                        assert(occurs_at(v@, "__"@, index as int));
                        assert(index + 2 <= v@.len());
                    }
                    let len = v.len();
                    assert(index + 2 <= len);
                    let start: usize = index + 2;
                    let tail = sub_vec(&v, start, len);
                    let candidate = concat_str("mcp__", string_of(&tail).as_str());
                    proof {
                        assert(tail@ =~= v@.skip(index + 2));
                    }
                    return truncate_to_byte_limit(candidate.as_str(), 64);
                }
            },
            None => {},
        }
    }
    truncate_to_byte_limit(name, 64)
}

/// The suffix that tells apart the `k`-th name sharing a shortened form.
pub open spec fn suffix_text(k: nat) -> Seq<char> {
    "_"@ + decimal_text(k)
}

/// The name tried with suffix `k`: the shortened form cut so that the
/// suffix fits, then the suffix.
pub open spec fn suffixed_name(base: Seq<char>, k: nat) -> Seq<char> {
    let allowed = if suffix_text(k).len() <= tool_name_limit() {
        (tool_name_limit() - suffix_text(k).len()) as nat
    } else {
        0
    };
    truncate_bytes(base, allowed) + suffix_text(k)
}

/// The first suffixed name from `k` on that is not taken yet (the search
/// stops at the largest suffix a machine word holds).
pub open spec fn first_free_suffixed(base: Seq<char>, used: Seq<Seq<char>>, k: nat) -> Seq<char>
    decreases usize::MAX - k,
{
    if k >= usize::MAX || !used.contains(suffixed_name(base, k)) {
        suffixed_name(base, k)
    } else {
        first_free_suffixed(base, used, k + 1)
    }
}

/// The name a tool goes by upstream, given the names already taken: its
/// shortened form, or, where that is taken, the first free suffixed one.
pub open spec fn unique_tool_name(name: Seq<char>, used: Seq<Seq<char>>) -> Seq<char> {
    let base = shorten_tool_name(name);
    if !used.contains(base) {
        base
    } else {
        first_free_suffixed(base, used, 1)
    }
}

/// Pairs of a client's tool name and its upstream name, in the order of the
/// tools; each upstream name is taken in turn.
pub open spec fn name_pairs(names: Seq<Seq<char>>) -> Seq<(Seq<char>, Seq<char>)>
    decreases names.len(),
{
    if names.len() == 0 {
        Seq::empty()
    } else {
        let before = name_pairs(names.drop_last());
        before.push(
            (names.last(), unique_tool_name(names.last(), before.map_values(|p: (Seq<char>, Seq<char>)| p.1))),
        )
    }
}

/// The upstream name of a client's tool: the one its last pair gives.
pub open spec fn forward_name(pairs: Seq<(Seq<char>, Seq<char>)>, name: Seq<char>) -> Option<Seq<char>>
    decreases pairs.len(),
{
    if pairs.len() == 0 {
        None
    } else if pairs.last().0 == name {
        Some(pairs.last().1)
    } else {
        forward_name(pairs.drop_last(), name)
    }
}

/// The client's name behind an upstream name: the name of the pair that
/// gave it, unless a later pair for the same name replaced it.
pub open spec fn reverse_name(pairs: Seq<(Seq<char>, Seq<char>)>, short: Seq<char>) -> Option<Seq<char>>
    decreases pairs.len(),
{
    if pairs.len() == 0 {
        None
    } else if pairs.last().1 == short {
        Some(pairs.last().0)
    } else {
        match reverse_name(pairs.drop_last(), short) {
            Some(n) => if n == pairs.last().0 {
                None
            } else {
                Some(n)
            },
            None => None,
        }
    }
}

/// The names of the function tools of a request body, in order.
pub open spec fn function_tool_names(tools: Seq<JsonValue>) -> Seq<Seq<char>>
    decreases tools.len(),
{
    if tools.len() == 0 {
        Seq::empty()
    } else {
        let before = function_tool_names(tools.drop_last());
        let t = tools.last();
        if as_text(field(t, "type"@)) == Some("function"@) && match field(t, "function"@) {
            Some(JsonValue::Object(_)) => as_text(field(field(t, "function"@).unwrap(), "name"@)) is Some,
            _ => false,
        } {
            before.push(as_text(field(field(t, "function"@).unwrap(), "name"@)).unwrap())
        } else {
            before
        }
    }
}

/// The tool names of a body: those of its `tools`, when it is an array.
pub open spec fn body_tool_names(body: JsonValue) -> Seq<Seq<char>> {
    match field(body, "tools"@) {
        Some(JsonValue::Array(tools)) => function_tool_names(tools@),
        _ => Seq::empty(),
    }
}

/// Client tool names paired with their upstream names.
pub struct ToolNameMap {
    pub pairs: Vec<(String, String)>,
}

impl ToolNameMap {
    /// The pairs by their texts.
    pub open spec fn view(&self) -> Seq<(Seq<char>, Seq<char>)> {
        self.pairs@.map_values(|p: (String, String)| (p.0@, p.1@))
    }
}

/// The upstream names already taken.
fn taken_names(pairs: &Vec<(String, String)>) -> (r: Vec<String>)
    ensures
        texts(r@) == pairs@.map_values(|p: (String, String)| (p.0@, p.1@)).map_values(
            |p: (Seq<char>, Seq<char>)| p.1,
        ),
{
    let mut r: Vec<String> = Vec::new();
    let mut i: usize = 0;
    while i < pairs.len()
        invariant
            i <= pairs@.len(),
            texts(r@) =~= pairs@.take(i as int).map_values(|p: (String, String)| (p.0@, p.1@)).map_values(
                |p: (Seq<char>, Seq<char>)| p.1,
            ),
        decreases pairs@.len() - i,
    {
        let ghost before = r@;
        r.push(copy_string(&pairs[i].1));
        proof {
            assert(pairs@.take(i as int + 1) =~= pairs@.take(i as int).push(pairs@[i as int]));
            assert(texts(r@) =~= texts(before).push(pairs@[i as int].1@));
        }
        i = i + 1;
    }
    assert(pairs@.take(pairs@.len() as int) =~= pairs@);
    r
}

/// The first free suffixed name from `k` on.
fn first_free_suffixed_exec(base: &str, used: &Vec<String>, k: usize) -> (r: String)
    requires
        k >= 1,
    ensures
        r@ == first_free_suffixed(base@, texts(used@), k as nat),
    decreases usize::MAX - k,
{
    let suffix = concat_str("_", decimal_string(k as u64).as_str());
    let slen = suffix.as_str().as_bytes().len();
    proof {
        lemma_decimal_text_ascii(k as nat);
        reveal_strlit("_");
        assert(is_ascii_chars(suffix@));
        vstd::utf8::is_ascii_chars_encode_utf8(suffix@);
    }
    let allowed: usize = if slen <= 64 {
        64 - slen
    } else {
        0
    };
    let candidate = concat_str(truncate_to_byte_limit(base, allowed).as_str(), suffix.as_str());
    if k == usize::MAX || !contains_string(used, &chars_of(candidate.as_str())) {
        candidate
    } else {
        first_free_suffixed_exec(base, used, k + 1)
    }
}

/// Pairs each function tool name of a body with a unique upstream name.
pub fn build_short_tool_name_map(body: &JsonValue) -> (r: ToolNameMap)
    ensures
        r.view() == name_pairs(body_tool_names(*body)),
{
    let mut names: Vec<String> = Vec::new();
    match get_member(body, "tools") {
        Some(JsonValue::Array(tools)) => {
            let mut i: usize = 0;
            while i < tools.len()
                invariant
                    i <= tools@.len(),
                    texts(names@) == function_tool_names(tools@.take(i as int)),
                decreases tools@.len() - i,
            {
                let t = &tools[i];
                proof {
                    assert(tools@.take(i as int + 1).drop_last() =~= tools@.take(i as int));
                }
                let is_function = match text_of(get_member(t, "type")) {
                    Some(ty) => crate::text::str_eq(ty.as_str(), "function"),
                    None => false,
                };
                if is_function {
                    match get_member(t, "function") {
                        Some(f) => match f {
                            JsonValue::Object(_) => match text_of(get_member(f, "name")) {
                                Some(n) => {
                                    let ghost before = names@;
                                    names.push(n);
                                    assert(texts(names@) =~= texts(before).push(names@.last()@));
                                },
                                None => {},
                            },
                            _ => {},
                        },
                        None => {},
                    }
                }
                i = i + 1;
            }
            assert(tools@.take(tools@.len() as int) =~= tools@);
        },
        _ => {},
    }
    let mut pairs: Vec<(String, String)> = Vec::new();
    let mut j: usize = 0;
    while j < names.len()
        invariant
            j <= names@.len(),
            pairs@.map_values(|p: (String, String)| (p.0@, p.1@)) == name_pairs(
                texts(names@).take(j as int),
            ),
        decreases names@.len() - j,
    {
        let used = taken_names(&pairs);
        let base = shorten_tool_name_if_needed(names[j].as_str());
        let unique = if !contains_string(&used, &chars_of(base.as_str())) {
            base
        } else {
            first_free_suffixed_exec(base.as_str(), &used, 1)
        };
        let ghost before = pairs@;
        pairs.push((copy_string(&names[j]), unique));
        proof {
            let t = texts(names@).take(j as int + 1);
            assert(t.drop_last() =~= texts(names@).take(j as int));
            assert(t.last() == names@[j as int]@);
            assert(pairs@.map_values(|p: (String, String)| (p.0@, p.1@)) =~= before.map_values(
                |p: (String, String)| (p.0@, p.1@),
            ).push((names@[j as int]@, unique@)));
        }
        j = j + 1;
    }
    assert(texts(names@).take(names@.len() as int) =~= texts(names@));
    ToolNameMap { pairs }
}

/// The map from upstream names back to client names, read from the
/// client's original request body (an empty map when it is not JSON).
pub open spec fn request_tool_pairs(original_request_body: Seq<u8>) -> Seq<(Seq<char>, Seq<char>)> {
    match request_body_json(original_request_body) {
        Some(b) => name_pairs(body_tool_names(b)),
        None => Seq::empty(),
    }
}

/// The tool name pairs of the client's original request.
pub fn build_reverse_tool_name_map_from_request(original_request_body: &[u8]) -> (r: ToolNameMap)
    ensures
        r.view() == request_tool_pairs(original_request_body@),
{
    match parse_request_body_json(original_request_body) {
        Some(b) => build_short_tool_name_map(&b),
        None => ToolNameMap { pairs: Vec::new() },
    }
}

/// The upstream name of a client's tool: its paired name, else its
/// shortened form.
pub open spec fn mapped_tool_name(pairs: Seq<(Seq<char>, Seq<char>)>, name: Seq<char>) -> Seq<char> {
    match forward_name(pairs, name) {
        Some(s) => s,
        None => shorten_tool_name(name),
    }
}

/// The upstream name of a client's tool.
pub fn map_tool_name(name: &str, map: &ToolNameMap) -> (r: String)
    ensures
        r@ == mapped_tool_name(map.view(), name@),
{
    let mut i: usize = map.pairs.len();
    assert(map.view().take(i as int) =~= map.view());
    while i > 0
        invariant
            i <= map.pairs@.len(),
            forward_name(map.view(), name@) == forward_name(map.view().take(i as int), name@),
        decreases i,
    {
        proof {
            assert(map.view().take(i as int).drop_last() =~= map.view().take(i - 1));
        }
        if crate::text::str_eq(map.pairs[i - 1].0.as_str(), name) {
            return copy_string(&map.pairs[i - 1].1);
        }
        i = i - 1;
    }
    shorten_tool_name_if_needed(name)
}

/// The client's name behind an upstream name: the paired client name, else
/// the name itself.
pub open spec fn restored_tool_name(pairs: Seq<(Seq<char>, Seq<char>)>, short: Seq<char>) -> Seq<char> {
    match reverse_name(pairs, short) {
        Some(n) => n,
        None => short,
    }
}

/// The client's name behind an upstream name.
pub fn restore_tool_name(short: &str, map: &ToolNameMap) -> (r: String)
    ensures
        r@ == restored_tool_name(map.view(), short@),
{
    let found = reverse_lookup(map, short, map.pairs.len());
    assert(map.view().take(map.pairs@.len() as int) =~= map.view());
    match found {
        Some(n) => n,
        None => lit(short),
    }
}

fn reverse_lookup(map: &ToolNameMap, short: &str, n: usize) -> (r: Option<String>)
    requires
        n <= map.pairs@.len(),
    ensures
        r matches Some(s) ==> reverse_name(map.view().take(n as int), short@) == Some(s@),
        r is None ==> reverse_name(map.view().take(n as int), short@) is None,
    decreases n,
{
    if n == 0 {
        return None;
    }
    proof {
        assert(map.view().take(n as int).drop_last() =~= map.view().take(n - 1));
    }
    if crate::text::str_eq(map.pairs[n - 1].1.as_str(), short) {
        return Some(copy_string(&map.pairs[n - 1].0));
    }
    match reverse_lookup(map, short, n - 1) {
        Some(found) => {
            if crate::text::str_eq(found.as_str(), map.pairs[n - 1].0.as_str()) {
                None
            } else {
                Some(found)
            }
        },
        None => None,
    }
}

} // verus!
