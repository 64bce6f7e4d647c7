//! The local gateway's view of an HTTP request: its headers, its target path
//! and what the path asks for, and the framing of requests and event streams.
use vstd::prelude::*;
use crate::split::{split_once, split_once_exec, lines_of, lines_exec, pieces};
use crate::text::{
    utf8_lossy, decode_utf8_lossy, usize_parse, parse_usize, eq_ignore_case, eq_ignore_case_exec,
    is_ws, is_ws_char, trim_start, lemma_trim_start_at, lemma_trim_start_edges,
    trim, lower, starts_with, ends_with, contains, chars_of, string_of, str_eq, seq_eq, lit,
    copy_string, trim_vec, lower_vec, trim_str, lower_str, starts_with_exec, ends_with_exec,
    contains_exec, sub_vec, concat_str,
};

verus! {

broadcast use vstd::string::group_string_axioms;

// ---------------------------------------------------------------------------
// Headers
// ---------------------------------------------------------------------------

/// Request headers by name; a name is held once.
pub struct Headers {
    entries: Vec<(String, String)>,
}

impl Headers {
    /// The headers as a map from name to value.
    pub closed spec fn view(&self) -> Map<Seq<char>, Seq<char>> {
        Map::new(
            |k: Seq<char>| exists|i: int| 0 <= i < self.entries@.len() && self.entries@[i].0@ == k,
            |k: Seq<char>|
                self.entries@[choose|i: int| 0 <= i < self.entries@.len() && self.entries@[i].0@ == k].1@,
        )
    }

    /// No name is held twice.
    pub closed spec fn wf(&self) -> bool {
        forall|i: int, j: int|
            0 <= i < self.entries@.len() && 0 <= j < self.entries@.len() && i != j
                ==> #[trigger] self.entries@[i].0@ != #[trigger] self.entries@[j].0@
    }

    /// No headers.
    pub fn new() -> (r: Headers)
        ensures
            r.wf(),
            r.view() == Map::<Seq<char>, Seq<char>>::empty(),
    {
        let r = Headers { entries: Vec::new() };
        assert(r.view() =~= Map::<Seq<char>, Seq<char>>::empty());
        r
    }

    fn position(&self, name: &str) -> (r: Option<usize>)
        requires
            self.wf(),
        ensures
            match r {
                Some(i) => i < self.entries@.len() && self.entries@[i as int].0@ == name@,
                None => !self.view().contains_key(name@),
            },
    {
        let mut i: usize = 0;
        while i < self.entries.len()
            invariant
                i <= self.entries@.len(),
                forall|j: int| 0 <= j < i ==> #[trigger] self.entries@[j].0@ != name@,
            decreases self.entries@.len() - i,
        {
            if str_eq(self.entries[i].0.as_str(), name) {
                return Some(i);
            }
            i = i + 1;
        }
        None
    }

    proof fn lemma_value_at(&self, i: int)
        requires
            self.wf(),
            0 <= i < self.entries@.len(),
        ensures
            self.view().contains_key(self.entries@[i].0@),
            self.view()[self.entries@[i].0@] == self.entries@[i].1@,
    {
        let k = self.entries@[i].0@;
        let c = choose|j: int| 0 <= j < self.entries@.len() && self.entries@[j].0@ == k;
        assert(self.entries@[c].0@ == k);
        if c != i {
            assert(self.entries@[c].0@ != self.entries@[i].0@);
        }
    }

    /// The value of a header, by its exact name.
    pub fn get(&self, name: &str) -> (r: Option<String>)
        requires
            self.wf(),
        ensures
            match r {
                Some(v) => self.view().contains_key(name@) && self.view()[name@] == v@,
                None => !self.view().contains_key(name@),
            },
    {
        match self.position(name) {
            Some(i) => {
                proof {
                    self.lemma_value_at(i as int);
                }
                Some(copy_string(&self.entries[i].1))
            },
            None => None,
        }
    }

    /// Sets a header, replacing the value held under that name.
    pub fn insert(&mut self, name: &str, value: &str)
        requires
            old(self).wf(),
        ensures
            final(self).wf(),
            final(self).view() == old(self).view().insert(name@, value@),
    {
        let ghost before = self.entries@;
        match self.position(name) {
            Some(i) => {
                self.entries.set(i, (lit(name), lit(value)));
                proof {
                    assert forall|k: Seq<char>| #[trigger] self.view().contains_key(k) <==> old(
                        self,
                    ).view().insert(name@, value@).contains_key(k) by {
                        if k == name@ {
                            assert(self.entries@[i as int].0@ == k);
                        } else if old(self).view().contains_key(k) {
                            let j = choose|j: int| 0 <= j < before.len() && before[j].0@ == k;
                            assert(self.entries@[j].0@ == k);
                        }
                        if self.view().contains_key(k) {
                            let j = choose|j: int| 0 <= j < self.entries@.len() && self.entries@[j].0@ == k;
                            if j != i {
                                assert(before[j].0@ == k);
                            }
                        }
                    }
                    assert forall|k: Seq<char>| #[trigger] self.view().contains_key(k) implies self.view()[k]
                        == old(self).view().insert(name@, value@)[k] by {
                        let j = choose|j: int| 0 <= j < self.entries@.len() && self.entries@[j].0@ == k;
                        self.lemma_value_at(j);
                        if j != i {
                            assert(before[j] == self.entries@[j]);
                            old(self).lemma_value_at(j);
                        }
                    }
                    assert(self.view() =~= old(self).view().insert(name@, value@));
                }
            },
            None => {
                self.entries.push((lit(name), lit(value)));
                proof {
                    let n = before.len() as int;
                    assert(self.entries@[n].0@ == name@);
                    assert forall|k: Seq<char>| #[trigger] self.view().contains_key(k) <==> old(
                        self,
                    ).view().insert(name@, value@).contains_key(k) by {
                        if old(self).view().contains_key(k) {
                            let j = choose|j: int| 0 <= j < before.len() && before[j].0@ == k;
                            assert(self.entries@[j].0@ == k);
                        }
                        if self.view().contains_key(k) && k != name@ {
                            let j = choose|j: int| 0 <= j < self.entries@.len() && self.entries@[j].0@ == k;
                            assert(j != n);
                            assert(before[j].0@ == k);
                        }
                    }
                    assert forall|k: Seq<char>| #[trigger] self.view().contains_key(k) implies self.view()[k]
                        == old(self).view().insert(name@, value@)[k] by {
                        let j = choose|j: int| 0 <= j < self.entries@.len() && self.entries@[j].0@ == k;
                        self.lemma_value_at(j);
                        if j != n {
                            assert(before[j] == self.entries@[j]);
                            old(self).lemma_value_at(j);
                        }
                    }
                    assert(self.view() =~= old(self).view().insert(name@, value@));
                }
            },
        }
    }
}

/// A request as the gateway reads it.
pub struct ParsedRequest {
    pub method: String,
    pub target: String,
    pub headers: Headers,
    pub body: Vec<u8>,
}

/// Sets a header under its lowercase name unless one is already there.
pub fn ensure_request_header(headers: &mut Headers, name: &str, value: &str)
    requires
        old(headers).wf(),
    ensures
        final(headers).wf(),
        final(headers).view() == if old(headers).view().contains_key(lower(name@)) {
            old(headers).view()
        } else {
            old(headers).view().insert(lower(name@), value@)
        },
{
    let key = lower_str(name);
    match headers.get(key.as_str()) {
        Some(_) => {
            assert(old(headers).view().insert(lower(name@), old(headers).view()[lower(name@)])
                =~= old(headers).view());
        },
        None => headers.insert(key.as_str(), value),
    }
}

/// The value of a header (looked up by its lowercase name), trimmed, unless
/// it is missing or blank.
pub open spec fn header_value_spec(headers: Map<Seq<char>, Seq<char>>, name: Seq<char>) -> Option<
    Seq<char>,
> {
    if headers.contains_key(lower(name)) && trim(headers[lower(name)]).len() > 0 {
        Some(trim(headers[lower(name)]))
    } else {
        None
    }
}

/// The trimmed value of a header, unless it is missing or blank.
pub fn header_value(headers: &Headers, name: &str) -> (r: Option<String>)
    requires
        headers.wf(),
    ensures
        match r {
            Some(v) => header_value_spec(headers.view(), name@) == Some(v@),
            None => header_value_spec(headers.view(), name@) is None,
        },
{
    let key = lower_str(name);
    match headers.get(key.as_str()) {
        Some(v) => {
            let t = trim_str(v.as_str());
            if chars_of(t.as_str()).len() == 0 {
                None
            } else {
                Some(t)
            }
        },
        None => None,
    }
}

// ---------------------------------------------------------------------------
// Targets
// ---------------------------------------------------------------------------

/// The path of a request target: the text before the first `?`, trimmed.
pub open spec fn target_path(target: Seq<char>) -> Seq<char> {
    trim(crate::split::split_char(target, '?')[0])
}

/// The path of a request target.
pub fn proxy_target_path(target: &str) -> (r: String)
    ensures
        r@ == target_path(target@),
{
    let v = chars_of(target);
    let parts = crate::split::split_char_exec(&v, '?');
    proof {
        crate::split::lemma_split_char_nonempty(v@, '?');
        assert(crate::split::pieces(parts@)[0] == parts@[0]@);
    }
    string_of(&trim_vec(&parts[0]))
}

/// The target asks for the Responses API.
pub open spec fn is_responses_target(target: Seq<char>) -> bool {
    let p = target_path(target);
    p == "/v1/responses"@ || p == "/backend-api/codex/responses"@ || ends_with(p, "/responses"@)
}

/// The target asks for a compaction of a Responses conversation.
pub open spec fn is_responses_compact_target(target: Seq<char>) -> bool {
    let p = target_path(target);
    p == "/v1/responses/compact"@ || p == "/backend-api/codex/responses/compact"@ || ends_with(
        p,
        "/responses/compact"@,
    )
}

/// The target asks for an image generation.
pub open spec fn is_images_generations_target(target: Seq<char>) -> bool {
    let p = target_path(target);
    p == "/v1/images/generations"@ || ends_with(p, "/images/generations"@)
}

/// The target asks for an image edit.
pub open spec fn is_images_edits_target(target: Seq<char>) -> bool {
    let p = target_path(target);
    p == "/v1/images/edits"@ || ends_with(p, "/images/edits"@)
}

/// The target asks for Chat Completions.
pub open spec fn is_chat_completions_target(target: Seq<char>) -> bool {
    let p = target_path(target);
    p == "/v1/chat/completions"@ || ends_with(p, "/chat/completions"@)
}

fn path_is_or_ends_with(path: &str, exact: &str, suffix: &str) -> (r: bool)
    ensures
        r == (path@ == exact@ || ends_with(path@, suffix@)),
{
    str_eq(path, exact) || ends_with_exec(&chars_of(path), &chars_of(suffix))
}

/// Whether the target asks for the Responses API.
pub fn is_responses_request(target: &str) -> (r: bool)
    ensures
        r == is_responses_target(target@),
{
    let p = proxy_target_path(target);
    str_eq(p.as_str(), "/v1/responses") || path_is_or_ends_with(
        p.as_str(),
        "/backend-api/codex/responses",
        "/responses",
    )
}

/// Whether the target asks for a compaction.
pub fn is_responses_compact_request(target: &str) -> (r: bool)
    ensures
        r == is_responses_compact_target(target@),
{
    let p = proxy_target_path(target);
    str_eq(p.as_str(), "/v1/responses/compact") || path_is_or_ends_with(
        p.as_str(),
        "/backend-api/codex/responses/compact",
        "/responses/compact",
    )
}

/// Whether the target asks for an image generation.
pub fn is_images_generations_request(target: &str) -> (r: bool)
    ensures
        r == is_images_generations_target(target@),
{
    let p = proxy_target_path(target);
    path_is_or_ends_with(p.as_str(), "/v1/images/generations", "/images/generations")
}

/// Whether the target asks for an image edit.
pub fn is_images_edits_request(target: &str) -> (r: bool)
    ensures
        r == is_images_edits_target(target@),
{
    let p = proxy_target_path(target);
    path_is_or_ends_with(p.as_str(), "/v1/images/edits", "/images/edits")
}

/// Whether the target asks for Chat Completions.
pub fn is_chat_completions_request(target: &str) -> (r: bool)
    ensures
        r == is_chat_completions_target(target@),
{
    let p = proxy_target_path(target);
    path_is_or_ends_with(p.as_str(), "/v1/chat/completions", "/chat/completions")
}

/// What a request asks of the gateway, for the statistics.
#[derive(Debug, Clone, Copy, PartialEq, Eq, Structural)]
pub enum CodexLocalAccessRequestKind {
    Text,
    ImageGeneration,
    ImageEdit,
    Other,
}

/// The kind of a request, by its target.
pub fn request_kind_from_target(target: &str) -> (r: CodexLocalAccessRequestKind)
    ensures
        r == if is_images_generations_target(target@) {
            CodexLocalAccessRequestKind::ImageGeneration
        } else if is_images_edits_target(target@) {
            CodexLocalAccessRequestKind::ImageEdit
        } else {
            CodexLocalAccessRequestKind::Text
        },
{
    if is_images_generations_request(target) {
        CodexLocalAccessRequestKind::ImageGeneration
    } else if is_images_edits_request(target) {
        CodexLocalAccessRequestKind::ImageEdit
    } else {
        CodexLocalAccessRequestKind::Text
    }
}

/// The headers that the official Codex client always sends, empty when it has
/// nothing to put in them.
pub open spec fn official_empty_headers() -> Seq<Seq<char>> {
    seq![
        "version"@,
        "x-codex-turn-state"@,
        "x-codex-turn-metadata"@,
        "x-client-request-id"@,
        "x-responsesapi-include-timing-metrics"@,
    ]
}

/// A Responses request (or compaction) gets each of the official client's
/// headers that it lacks, with an empty value; other requests are left alone.
pub fn apply_codex_official_headers(request: &mut ParsedRequest)
    requires
        old(request).headers.wf(),
    ensures
        final(request).headers.wf(),
        final(request).target@ == old(request).target@,
        final(request).body@ == old(request).body@,
        final(request).method@ == old(request).method@,
        !(is_responses_target(old(request).target@) || is_responses_compact_target(
            old(request).target@,
        )) ==> final(request).headers.view() == old(request).headers.view(),
        (is_responses_target(old(request).target@) || is_responses_compact_target(
            old(request).target@,
        )) ==> {
            &&& forall|k: Seq<char>| #[trigger]
                old(request).headers.view().contains_key(k) ==> final(request).headers.view().contains_key(k)
                    && final(request).headers.view()[k] == old(request).headers.view()[k]
            &&& forall|i: int|
                0 <= i < official_empty_headers().len() ==> #[trigger] final(request).headers.view().contains_key(
                    official_empty_headers()[i],
                )
            &&& forall|i: int|
                0 <= i < official_empty_headers().len() && !old(request).headers.view().contains_key(
                    official_empty_headers()[i],
                ) ==> #[trigger] final(request).headers.view()[official_empty_headers()[i]]
                    == Seq::<char>::empty()
            &&& forall|k: Seq<char>| #[trigger]
                final(request).headers.view().contains_key(k) ==> old(request).headers.view().contains_key(k)
                    || official_empty_headers().contains(k)
        },
{
    if !(is_responses_request(request.target.as_str()) || is_responses_compact_request(
        request.target.as_str(),
    )) {
        return;
    }
    let names: [&str; 5] = [
        "version",
        "x-codex-turn-state",
        "x-codex-turn-metadata",
        "x-client-request-id",
        "x-responsesapi-include-timing-metrics",
    ];
    proof {
        reveal_strlit("version");
        reveal_strlit("x-codex-turn-state");
        reveal_strlit("x-codex-turn-metadata");
        reveal_strlit("x-client-request-id");
        reveal_strlit("x-responsesapi-include-timing-metrics");
        reveal_strlit("");
        assert(""@ =~= Seq::<char>::empty());
    }
    proof {
        let h = official_empty_headers();
        assert(h[0].len() == 7);
        assert(h[1].len() == 18);
        assert(h[2].len() == 21);
        assert(h[3].len() == 19);
        assert(h[4].len() == 37);
        assert forall|a: int, b: int| 0 <= a < 5 && 0 <= b < 5 && a != b implies #[trigger] h[a] != #[trigger] h[b] by {
            assert(h[a].len() != h[b].len());
        }
    }
    let ghost start = request.headers.view();
    let ghost target0 = request.target@;
    let ghost body0 = request.body@;
    let ghost method0 = request.method@;
    let mut i: usize = 0;
    while i < 5
        invariant
            i <= 5,
            request.target@ == target0,
            request.body@ == body0,
            request.method@ == method0,
            ""@ == Seq::<char>::empty(),
            forall|a: int, b: int|
                0 <= a < 5 && 0 <= b < 5 && a != b ==> #[trigger] official_empty_headers()[a]
                    != #[trigger] official_empty_headers()[b],
            request.headers.wf(),
            names@.len() == 5,
            forall|j: int| 0 <= j < 5 ==> #[trigger] names@[j]@ == official_empty_headers()[j],
            forall|j: int| 0 <= j < 5 ==> lower(#[trigger] official_empty_headers()[j]) == official_empty_headers()[j],
            forall|k: Seq<char>| #[trigger]
                start.contains_key(k) ==> request.headers.view().contains_key(k)
                    && request.headers.view()[k] == start[k],
            forall|j: int| 0 <= j < i ==> #[trigger] request.headers.view().contains_key(official_empty_headers()[j]),
            forall|j: int|
                0 <= j < i && !start.contains_key(official_empty_headers()[j]) ==> #[trigger] request.headers.view()[official_empty_headers()[j]]
                    == Seq::<char>::empty(),
            forall|k: Seq<char>| #[trigger]
                request.headers.view().contains_key(k) ==> start.contains_key(k)
                    || official_empty_headers().take(i as int).contains(k),
        decreases 5 - i,
    {
        let ghost before = request.headers.view();
        let ghost name = official_empty_headers()[i as int];
        proof {
            assert(!official_empty_headers().take(i as int).contains(name)) by {
                if official_empty_headers().take(i as int).contains(name) {
                    let k = choose|k: int| 0 <= k < i && official_empty_headers().take(i as int)[k] == name;
                    assert(official_empty_headers()[k] == name);
                }
            }
        }
        proof {
            if !start.contains_key(name) {
                assert(!before.contains_key(name));
            }
        }
        ensure_request_header(&mut request.headers, names[i], "");
        proof {
            assert forall|j: int|
                0 <= j < i + 1 && !start.contains_key(official_empty_headers()[j]) implies #[trigger] request.headers.view()[official_empty_headers()[j]]
                    == Seq::<char>::empty() by {
                if j < i {
                    assert(official_empty_headers()[j] != name);
                } else {
                    assert(lower(names@[j]@) == name);
                }
            }
            assert forall|k: Seq<char>| #[trigger] request.headers.view().contains_key(k) implies start.contains_key(k)
                || official_empty_headers().take(i as int + 1).contains(k) by {
                if k == name {
                    assert(official_empty_headers().take(i as int + 1)[i as int] == k);
                } else {
                    assert(before.contains_key(k));
                    if official_empty_headers().take(i as int).contains(k) {
                        let q = choose|q: int| 0 <= q < i && official_empty_headers().take(i as int)[q] == k;
                        assert(official_empty_headers().take(i as int + 1)[q] == k);
                    }
                }
            }
            assert(official_empty_headers().take(i as int + 1) =~= official_empty_headers().take(i as int).push(official_empty_headers()[i as int]));
        }
        i = i + 1;
    }
    proof {
        assert(official_empty_headers().take(5) =~= official_empty_headers());
    }
}

// ---------------------------------------------------------------------------
// Client keys and upstream targets
// ---------------------------------------------------------------------------

/// The token after a `Bearer ` (or `bearer `) prefix, trimmed, when not empty.
pub open spec fn bearer_token(auth: Seq<char>) -> Option<Seq<char>> {
    if starts_with(auth, "Bearer "@) && trim(auth.skip("Bearer "@.len() as int)).len() > 0 {
        Some(trim(auth.skip("Bearer "@.len() as int)))
    } else if starts_with(auth, "bearer "@) && trim(auth.skip("bearer "@.len() as int)).len() > 0 {
        Some(trim(auth.skip("bearer "@.len() as int)))
    } else {
        None
    }
}

/// The key a client presents: the bearer token of `authorization`, else the
/// trimmed `x-api-key`, unless blank.
pub open spec fn local_api_key(headers: Map<Seq<char>, Seq<char>>) -> Option<Seq<char>> {
    let from_auth = if headers.contains_key("authorization"@) {
        bearer_token(trim(headers["authorization"@]))
    } else {
        None
    };
    match from_auth {
        Some(t) => Some(t),
        None => if headers.contains_key("x-api-key"@) && trim(headers["x-api-key"@]).len() > 0 {
            Some(trim(headers["x-api-key"@]))
        } else {
            None
        },
    }
}

fn bearer_token_exec(auth: &Vec<char>, prefix: &str) -> (r: Option<String>)
    ensures
        match r {
            Some(t) => starts_with(auth@, prefix@) && trim(auth@.skip(prefix@.len() as int)).len() > 0
                && t@ == trim(auth@.skip(prefix@.len() as int)),
            None => !(starts_with(auth@, prefix@) && trim(auth@.skip(prefix@.len() as int)).len() > 0),
        },
{
    let p = chars_of(prefix);
    if !starts_with_exec(auth, &p) {
        return None;
    }
    let rest = sub_vec(auth, p.len(), auth.len());
    assert(rest@ =~= auth@.skip(prefix@.len() as int));
    let t = trim_vec(&rest);
    if t.len() == 0 {
        None
    } else {
        Some(string_of(&t))
    }
}

/// The key a client presents, if any.
pub fn extract_local_api_key(headers: &Headers) -> (r: Option<String>)
    requires
        headers.wf(),
    ensures
        match r {
            Some(k) => local_api_key(headers.view()) == Some(k@),
            None => local_api_key(headers.view()) is None,
        },
{
    match headers.get("authorization") {
        Some(value) => {
            let t = trim_vec(&chars_of(value.as_str()));
            match bearer_token_exec(&t, "Bearer ") {
                Some(k) => return Some(k),
                None => {},
            }
            match bearer_token_exec(&t, "bearer ") {
                Some(k) => return Some(k),
                None => {},
            }
        },
        None => {},
    }
    match headers.get("x-api-key") {
        Some(value) => {
            let t = trim_str(value.as_str());
            if chars_of(t.as_str()).len() == 0 {
                None
            } else {
                Some(t)
            }
        },
        None => None,
    }
}

/// `s` with every leading copy of `p` removed (`str::trim_start_matches`).
pub open spec fn strip_all_prefix(s: Seq<char>, p: Seq<char>) -> Seq<char>
    decreases s.len(),
{
    if p.len() > 0 && starts_with(s, p) {
        strip_all_prefix(s.skip(p.len() as int), p)
    } else {
        s
    }
}

fn strip_all_prefix_exec(s: &Vec<char>, p: &Vec<char>) -> (r: Vec<char>)
    requires
        p@.len() > 0,
    ensures
        r@ == strip_all_prefix(s@, p@),
{
    let mut start: usize = 0;
    proof {
        assert(s@.skip(0) =~= s@);
    }
    loop
        invariant
            start <= s.len(),
            p@.len() > 0,
            strip_all_prefix(s@, p@) == strip_all_prefix(s@.skip(start as int), p@),
        decreases s.len() - start,
    {
        let rest = sub_vec(s, start, s.len());
        assert(rest@ =~= s@.skip(start as int));
        if starts_with_exec(&rest, p) {
            assert(rest@.skip(p@.len() as int) =~= s@.skip(start + p@.len()));
            start = start + p.len();
        } else {
            return rest;
        }
    }
}

/// The upstream path of a gateway target: `/v1` or `/backend-api/codex`
/// prefixes removed, and a leading `/` ensured. Other targets are refused.
pub open spec fn upstream_target(target: Seq<char>) -> Option<Seq<char>> {
    let rest = if starts_with(target, "/v1"@) {
        Some(strip_all_prefix(target, "/v1"@))
    } else if starts_with(target, "/backend-api/codex"@) {
        Some(strip_all_prefix(target, "/backend-api/codex"@))
    } else {
        None
    };
    match rest {
        None => None,
        Some(r) => Some(
            if r.len() == 0 {
                "/"@
            } else if r[0] == '/' {
                r
            } else {
                "/"@ + r
            },
        ),
    }
}

/// The upstream path of a gateway target.
pub fn resolve_upstream_target(target: &str) -> (r: Result<String, String>)
    ensures
        match r {
            Ok(t) => upstream_target(target@) == Some(t@),
            Err(e) => upstream_target(target@) is None && e@ == "仅支持 /v1 或 /backend-api/codex 路径"@,
        },
{
    let t = chars_of(target);
    let v1 = chars_of("/v1");
    let backend = chars_of("/backend-api/codex");
    proof {
        reveal_strlit("/v1");
        reveal_strlit("/backend-api/codex");
    }
    let rest = if starts_with_exec(&t, &v1) {
        strip_all_prefix_exec(&t, &v1)
    } else if starts_with_exec(&t, &backend) {
        strip_all_prefix_exec(&t, &backend)
    } else {
        return Err(lit("仅支持 /v1 或 /backend-api/codex 路径"));
    };
    if rest.len() == 0 {
        Ok(lit("/"))
    } else if rest[0] == '/' {
        Ok(string_of(&rest))
    } else {
        let r = concat_str("/", string_of(&rest).as_str());
        Ok(r)
    }
}

/// A response is read as an event stream when the request asked for one or
/// its content type says so.
pub open spec fn treat_as_stream(content_type: Seq<char>, request_is_stream: bool) -> bool {
    request_is_stream || contains(lower(content_type), "text/event-stream"@)
}

/// Whether a response is read as an event stream.
pub fn should_treat_response_as_stream(content_type: &str, request_is_stream: bool) -> (r: bool)
    ensures
        r == treat_as_stream(content_type@, request_is_stream),
{
    request_is_stream || contains_exec(&lower_vec(&chars_of(content_type)), &chars_of("text/event-stream"))
}

// ---------------------------------------------------------------------------
// Framing
// ---------------------------------------------------------------------------

/// `\r\n\r\n` starts at `i`.
pub open spec fn crlf_crlf_at(b: Seq<u8>, i: int) -> bool {
    0 <= i && i + 3 < b.len() && b[i] == 13 && b[i + 1] == 10 && b[i + 2] == 13 && b[i + 3] == 10
}

/// `\n\n` starts at `i`.
pub open spec fn lf_lf_at(b: Seq<u8>, i: int) -> bool {
    0 <= i && i + 1 < b.len() && b[i] == 10 && b[i + 1] == 10
}

/// An event ends at `i`: a blank line, in either line-ending convention.
pub open spec fn sse_boundary_at(b: Seq<u8>, i: int) -> bool {
    crlf_crlf_at(b, i) || lf_lf_at(b, i)
}

/// The end of the first event in a buffer, with the length of the blank line
/// that ends it (4 for `\r\n\r\n`, 2 for `\n\n`).
pub fn find_sse_frame_boundary(buffer: &[u8]) -> (r: Option<(usize, usize)>)
    ensures
        match r {
            Some((i, n)) => sse_boundary_at(buffer@, i as int) && (if crlf_crlf_at(buffer@, i as int) {
                n == 4
            } else {
                n == 2
            }) && forall|j: int| 0 <= j < i ==> !#[trigger] sse_boundary_at(buffer@, j),
            None => forall|j: int| 0 <= j < buffer@.len() ==> !#[trigger] sse_boundary_at(buffer@, j),
        },
{
    let n = buffer.len();
    if n < 2 {
        return None;
    }
    let mut i: usize = 0;
    while i < n - 1
        invariant
            n == buffer@.len(),
            n >= 2,
            i <= n - 1,
            forall|j: int| 0 <= j < i ==> !#[trigger] sse_boundary_at(buffer@, j),
        decreases n - 1 - i,
    {
        if n - i > 3 && buffer[i] == 13 && buffer[i + 1] == 10 && buffer[i + 2] == 13 && buffer[i
            + 3] == 10 {
            return Some((i, 4));
        }
        if buffer[i] == 10 && buffer[i + 1] == 10 {
            return Some((i, 2));
        }
        i = i + 1;
    }
    None
}

/// The end of an HTTP head: just past the first `\r\n\r\n`.
pub fn find_header_end(buf: &[u8]) -> (r: Option<usize>)
    ensures
        match r {
            Some(e) => e >= 4 && crlf_crlf_at(buf@, e - 4) && forall|j: int| 0 <= j < e - 4 ==> !#[trigger] crlf_crlf_at(buf@, j),
            None => forall|j: int| 0 <= j < buf@.len() ==> !#[trigger] crlf_crlf_at(buf@, j),
        },
{
    let n = buf.len();
    if n < 4 {
        return None;
    }
    let mut i: usize = 0;
    while i + 3 < n
        invariant
            n == buf@.len(),
            i + 3 <= n,
            forall|j: int| 0 <= j < i ==> !#[trigger] crlf_crlf_at(buf@, j),
        decreases n - i,
    {
        if buf[i] == 13 && buf[i + 1] == 10 && buf[i + 2] == 13 && buf[i + 3] == 10 {
            return Some(i + 4);
        }
        i = i + 1;
    }
    None
}

// ---------------------------------------------------------------------------
// Request heads
// ---------------------------------------------------------------------------

/// The `Content-Length` a list of header lines declares: the first line whose
/// name is `content-length` (any case) decides; none means 0.
pub open spec fn content_length_of(lines: Seq<Seq<char>>) -> Result<int, Seq<char>>
    decreases lines.len(),
{
    if lines.len() == 0 {
        Ok(0)
    } else {
        match split_once(lines[0], ':') {
            Some((name, value)) => if eq_ignore_case(trim(name), "content-length"@) {
                match usize_parse(trim(value)) {
                    Ok(n) => Ok(n),
                    Err(e) => Err("非法 Content-Length: "@ + e),
                }
            } else {
                content_length_of(lines.drop_first())
            },
            None => content_length_of(lines.drop_first()),
        }
    }
}

/// The body length an HTTP head declares.
pub fn parse_content_length(header_bytes: &[u8]) -> (r: Result<usize, String>)
    ensures
        match r {
            Ok(n) => content_length_of(lines_of(utf8_lossy(header_bytes@))) == Ok::<int, Seq<char>>(n as int),
            Err(e) => content_length_of(lines_of(utf8_lossy(header_bytes@))) == Err::<int, Seq<char>>(e@),
        },
{
    let text = decode_utf8_lossy(header_bytes);
    let lines = lines_exec(&chars_of(text.as_str()));
    let want = chars_of("content-length");
    let mut i: usize = 0;
    assert(pieces(lines@).skip(0) =~= pieces(lines@));
    while i < lines.len()
        invariant
            i <= lines.len(),
            want@ == "content-length"@,
            pieces(lines@) == lines_of(utf8_lossy(header_bytes@)),
            content_length_of(pieces(lines@)) == content_length_of(pieces(lines@).skip(i as int)),
        decreases lines.len() - i,
    {
        let ghost rest = pieces(lines@).skip(i as int);
        proof {
            assert(rest[0] == lines@[i as int]@);
            assert(rest.drop_first() =~= pieces(lines@).skip(i as int + 1));
        }
        match split_once_exec(&lines[i], ':') {
            Some((name, value)) => {
                if eq_ignore_case_exec(&trim_vec(&name), &want) {
                    let v = trim_vec(&value);
                    return match parse_usize(&v) {
                        Ok(n) => Ok(n),
                        Err(e) => {
                            let msg = concat_str("非法 Content-Length: ", e.as_str());
                            Err(msg)
                        },
                    };
                }
            },
            None => {},
        }
        i = i + 1;
    }
    proof {
        assert(pieces(lines@).skip(i as int).len() == 0);
    }
    Ok(0)
}

/// Position of the first whitespace character, or the length.
pub open spec fn ws_index(s: Seq<char>) -> int
    decreases s.len(),
{
    if s.len() == 0 {
        0
    } else if is_ws(s[0]) {
        0
    } else {
        1 + ws_index(s.drop_first())
    }
}

proof fn lemma_ws_index(s: Seq<char>)
    ensures
        0 <= ws_index(s) <= s.len(),
        forall|j: int| 0 <= j < ws_index(s) ==> !is_ws(#[trigger] s[j]),
        ws_index(s) < s.len() ==> is_ws(s[ws_index(s)]),
    decreases s.len(),
{
    if s.len() > 0 && !is_ws(s[0]) {
        let t = s.drop_first();
        lemma_ws_index(t);
        assert forall|j: int| 0 <= j < ws_index(s) implies !is_ws(#[trigger] s[j]) by {
            if j > 0 {
                assert(s[j] == t[j - 1]);
            }
        }
    }
}

/// The first whitespace-separated word of a text and what follows it.
pub open spec fn next_word(s: Seq<char>) -> Option<(Seq<char>, Seq<char>)> {
    let t = trim_start(s);
    if t.len() == 0 {
        None
    } else {
        Some((t.take(ws_index(t)), t.skip(ws_index(t))))
    }
}

pub fn next_word_exec(v: &Vec<char>) -> (r: Option<(Vec<char>, Vec<char>)>)
    ensures
        match r {
            Some((w, rest)) => next_word(v@) == Some((w@, rest@)),
            None => next_word(v@) is None,
        },
{
    let mut i: usize = 0;
    while i < v.len() && is_ws_char(v[i])
        invariant
            i <= v.len(),
            forall|k: int| 0 <= k < i ==> is_ws(#[trigger] v@[k]),
        decreases v.len() - i,
    {
        i = i + 1;
    }
    proof {
        lemma_trim_start_at(v@, i as int);
    }
    if i == v.len() {
        return None;
    }
    let mut j: usize = i;
    while j < v.len() && !is_ws_char(v[j])
        invariant
            i <= j <= v.len(),
            forall|k: int| i <= k < j ==> !is_ws(#[trigger] v@[k]),
        decreases v.len() - j,
    {
        j = j + 1;
    }
    let ghost t = v@.skip(i as int);
    proof {
        lemma_ws_index(t);
        assert forall|k: int| 0 <= k < j - i implies !is_ws(#[trigger] t[k]) by {
            assert(t[k] == v@[k + i]);
        }
        if j < v.len() {
            assert(t[j - i] == v@[j as int]);
        }
        if ws_index(t) < j - i {
            assert(!is_ws(t[ws_index(t)]));
        }
        if ws_index(t) > j - i {
            assert(!is_ws(t[j - i]));
        }
    }
    let w = sub_vec(v, i, j);
    let rest = sub_vec(v, j, v.len());
    proof {
        assert(w@ =~= t.take(ws_index(t)));
        assert(rest@ =~= t.skip(ws_index(t)));
    }
    Some((w, rest))
}

/// A non-empty first word leaves a shorter rest.
pub proof fn lemma_next_word_shrinks(s: Seq<char>)
    ensures
        next_word(s) matches Some((w, rest)) ==> w.len() > 0 && rest.len() < s.len(),
{
    let t = trim_start(s);
    lemma_trim_start_edges(s);
    lemma_ws_index(t);
    if t.len() > 0 {
        lemma_ws_index(t.drop_first());
        assert(ws_index(t) >= 1);
    }
}

/// The whitespace-separated words of a text, in order (`str::split_whitespace`).
pub open spec fn words(s: Seq<char>) -> Seq<Seq<char>>
    decreases s.len(),
{
    match next_word(s) {
        None => Seq::empty(),
        Some((w, rest)) => {
            proof {
                lemma_next_word_shrinks(s);
            }
            seq![w] + words(rest)
        },
    }
}

/// The whitespace-separated words of a text.
pub fn words_exec(v: &Vec<char>) -> (r: Vec<Vec<char>>)
    ensures
        pieces(r@) == words(v@),
{
    let mut out: Vec<Vec<char>> = Vec::new();
    let mut rest = sub_vec(v, 0, v.len());
    proof {
        assert(rest@ =~= v@);
        assert(pieces(out@) + words(rest@) =~= words(v@));
    }
    loop
        invariant
            pieces(out@) + words(rest@) == words(v@),
        decreases rest@.len(),
    {
        match next_word_exec(&rest) {
            None => {
                proof {
                    assert(pieces(out@) + words(rest@) =~= pieces(out@));
                }
                return out;
            },
            Some((w, tail)) => {
                proof {
                    lemma_next_word_shrinks(rest@);
                }
                let ghost before = out@;
                out.push(w);
                proof {
                    assert(pieces(out@) =~= pieces(before).push(w@));
                    assert(words(rest@) == seq![w@] + words(tail@));
                    assert(pieces(out@) + words(tail@) =~= pieces(before) + (seq![w@] + words(tail@)));
                }
                rest = tail;
            },
        }
    }
}

/// The headers of a list of header lines: each non-blank line with a `:`
/// sets its lowercase, trimmed name to its trimmed value; later lines win.
pub open spec fn header_map(lines: Seq<Seq<char>>) -> Map<Seq<char>, Seq<char>>
    decreases lines.len(),
{
    if lines.len() == 0 {
        Map::empty()
    } else {
        let m = header_map(lines.drop_last());
        let l = trim(lines.last());
        if l.len() == 0 {
            m
        } else {
            match split_once(l, ':') {
                Some((n, v)) => m.insert(lower(trim(n)), trim(v)),
                None => m,
            }
        }
    }
}

/// What parsing a raw request gives: an error message, or the method, the
/// target, the headers and the body.
pub open spec fn parsed_request(raw: Seq<u8>) -> Result<
    (Seq<char>, Seq<char>, Map<Seq<char>, Seq<char>>, Seq<u8>),
    Seq<char>,
> {
    if !exists|j: int| 0 <= j < raw.len() && crlf_crlf_at(raw, j) {
        Err("缺少 HTTP 头结束标记"@)
    } else {
        let e = (choose|j: int| crlf_crlf_at(raw, j) && forall|k: int| 0 <= k < j ==> !crlf_crlf_at(raw, k)) + 4;
        let lines = lines_of(utf8_lossy(raw.take(e)));
        match next_word(trim(lines[0])) {
            None => Err("请求行缺少 method"@),
            Some((method, rest)) => match next_word(rest) {
                None => Err("请求行缺少 target"@),
                Some((target, _)) => Ok((method, target, header_map(lines.skip(1)), raw.skip(e))),
            },
        }
    }
}

/// Parses a raw request: the request line's method and target, the headers
/// by lowercase name, and the bytes after the head as the body.
pub fn parse_http_request(raw: &[u8]) -> (r: Result<ParsedRequest, String>)
    ensures
        match r {
            Ok(req) => req.headers.wf() && parsed_request(raw@) == Ok::<
                (Seq<char>, Seq<char>, Map<Seq<char>, Seq<char>>, Seq<u8>),
                Seq<char>,
            >((req.method@, req.target@, req.headers.view(), req.body@)),
            Err(e) => parsed_request(raw@) == Err::<
                (Seq<char>, Seq<char>, Map<Seq<char>, Seq<char>>, Seq<u8>),
                Seq<char>,
            >(e@),
        },
{
    let header_end = match find_header_end(raw) {
        Some(e) => e,
        None => return Err(lit("缺少 HTTP 头结束标记")),
    };
    proof {
        let e0 = choose|j: int| crlf_crlf_at(raw@, j) && forall|k: int| 0 <= k < j ==> !crlf_crlf_at(raw@, k);
        assert(crlf_crlf_at(raw@, header_end - 4));
        assert(e0 == header_end - 4) by {
            if e0 < header_end - 4 {
                assert(!crlf_crlf_at(raw@, e0));
            }
            if e0 > header_end - 4 {
                assert(!crlf_crlf_at(raw@, header_end - 4));
            }
        }
    }
    let head = slice_prefix(raw, header_end);
    let text = decode_utf8_lossy(head.as_slice());
    let lines = lines_exec(&chars_of(text.as_str()));
    proof {
        crate::split::lemma_split_char_nonempty(text@, '\n');
        assert(lines_of(text@).len() == crate::split::split_char(text@, '\n').len());
        assert(pieces(lines@).len() == lines@.len());
        assert(pieces(lines@)[0] == lines@[0]@);
    }
    let request_line = trim_vec(&lines[0]);
    let (method, rest) = match next_word_exec(&request_line) {
        Some(p) => p,
        None => return Err(lit("请求行缺少 method")),
    };
    let (target, _) = match next_word_exec(&rest) {
        Some(p) => p,
        None => return Err(lit("请求行缺少 target")),
    };
    let mut headers = Headers::new();
    let mut i: usize = 1;
    proof {
        assert(pieces(lines@).subrange(1, 1).len() == 0);
        assert(header_map(pieces(lines@).subrange(1, 1)) =~= Map::<Seq<char>, Seq<char>>::empty());
    }
    while i < lines.len()
        invariant
            1 <= i <= lines.len(),
            headers.wf(),
            headers.view() == header_map(pieces(lines@).subrange(1, i as int)),
        decreases lines.len() - i,
    {
        let ghost prefix = pieces(lines@).subrange(1, i as int);
        let ghost next = pieces(lines@).subrange(1, i as int + 1);
        proof {
            assert(next.drop_last() =~= prefix);
            assert(next.last() == lines@[i as int]@);
        }
        let line = trim_vec(&lines[i]);
        if line.len() > 0 {
            match split_once_exec(&line, ':') {
                Some((name, value)) => {
                    let key = lower_vec(&trim_vec(&name));
                    let val = trim_vec(&value);
                    headers.insert(string_of(&key).as_str(), string_of(&val).as_str());
                },
                None => {},
            }
        }
        i = i + 1;
    }
    proof {
        assert(pieces(lines@).subrange(1, lines@.len() as int) =~= pieces(lines@).skip(1));
    }
    let body = slice_suffix(raw, header_end);
    Ok(
        ParsedRequest {
            method: string_of(&method),
            target: string_of(&target),
            headers,
            body,
        },
    )
}

fn slice_prefix(b: &[u8], n: usize) -> (r: Vec<u8>)
    requires
        n <= b@.len(),
    ensures
        r@ == b@.take(n as int),
{
    let mut r: Vec<u8> = Vec::new();
    let mut i: usize = 0;
    while i < n
        invariant
            i <= n <= b@.len(),
            r@ == b@.take(i as int),
        decreases n - i,
    {
        r.push(b[i]);
        assert(b@.take(i as int + 1) =~= b@.take(i as int).push(b@[i as int]));
        i = i + 1;
    }
    r
}

fn slice_suffix(b: &[u8], n: usize) -> (r: Vec<u8>)
    requires
        n <= b@.len(),
    ensures
        r@ == b@.skip(n as int),
{
    let mut r: Vec<u8> = Vec::new();
    let mut i: usize = n;
    while i < b.len()
        invariant
            n <= i <= b@.len(),
            r@ == b@.subrange(n as int, i as int),
        decreases b@.len() - i,
    {
        r.push(b[i]);
        assert(b@.subrange(n as int, i as int + 1) =~= b@.subrange(n as int, i as int).push(b@[i as int]));
        i = i + 1;
    }
    assert(b@.subrange(n as int, b@.len() as int) =~= b@.skip(n as int));
    r
}

// ---------------------------------------------------------------------------
// Proxy targets
// ---------------------------------------------------------------------------

/// What `url::Url::parse` gives for a text, read through `Url::scheme`,
/// `Url::path` and `Url::query`; the error is the parse error's message.
pub uninterp spec fn url_parts(s: Seq<char>) -> Result<(Seq<char>, Seq<char>, Option<Seq<char>>), Seq<char>>;

/// Parses a URL with `url::Url::parse` and reads its scheme, path and query.
/// The result depends on the text alone.
#[verifier::external_body]
pub(crate) fn parse_url(s: &str) -> (r: Result<(String, String, Option<String>), String>)
    ensures
        match r {
            Ok((scheme, p, q)) => url_parts(s@) == Ok::<(Seq<char>, Seq<char>, Option<Seq<char>>), Seq<char>>((
                scheme@,
                p@,
                match q {
                    Some(x) => Some(x@),
                    None => None,
                },
            )),
            Err(e) => url_parts(s@) == Err::<(Seq<char>, Seq<char>, Option<Seq<char>>), Seq<char>>(e@),
        },
{
    match url::Url::parse(s) {
        Ok(u) => Ok((u.scheme().to_string(), u.path().to_string(), u.query().map(|q| q.to_string()))),
        Err(e) => Err(e.to_string()),
    }
}

/// A path and an optional query as a request target.
pub open spec fn path_with_query(p: Seq<char>, q: Option<Seq<char>>) -> Seq<char> {
    match q {
        Some(x) => p + "?"@ + x,
        None => p,
    }
}

/// The origin-form of a proxy target: absolute `http(s)` URLs are read as
/// they are, anything else against `http://localhost`; the result is the
/// path and query.
pub open spec fn proxy_target(target: Seq<char>) -> Result<Seq<char>, Seq<char>> {
    if starts_with(target, "http://"@) || starts_with(target, "https://"@) {
        match url_parts(target) {
            Ok((_, p, q)) => Ok(path_with_query(p, q)),
            Err(e) => Err("解析请求地址失败: "@ + e),
        }
    } else {
        match url_parts("http://localhost"@ + target) {
            Ok((_, p, q)) => Ok(path_with_query(p, q)),
            Err(e) => Err("解析请求路径失败: "@ + e),
        }
    }
}

/// The origin-form of a proxy target.
pub fn normalize_proxy_target(target: &str) -> (r: Result<String, String>)
    ensures
        match r {
            Ok(t) => proxy_target(target@) == Ok::<Seq<char>, Seq<char>>(t@),
            Err(e) => proxy_target(target@) == Err::<Seq<char>, Seq<char>>(e@),
        },
{
    let t = chars_of(target);
    let absolute = starts_with_exec(&t, &chars_of("http://")) || starts_with_exec(
        &t,
        &chars_of("https://"),
    );
    let url = if absolute {
        lit(target)
    } else {
        concat_str("http://localhost", target)
    };
    match parse_url(url.as_str()) {
        Ok((_, p, q)) => match q {
            Some(q) => {
                let r = concat_str(concat_str(p.as_str(), "?").as_str(), q.as_str());
                Ok(r)
            },
            None => Ok(p),
        },
        Err(e) => {
            let prefix = if absolute {
                "解析请求地址失败: "
            } else {
                "解析请求路径失败: "
            };
            Err(concat_str(prefix, e.as_str()))
        },
    }
}

} // verus!
