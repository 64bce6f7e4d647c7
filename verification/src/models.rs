//! The model catalog of the local gateway: the models it offers, and how a
//! model id a client sends (in any case, or pinned to a dated snapshot) maps
//! back to a catalog entry.
use vstd::prelude::*;
use crate::text::{
    trim, lower, starts_with, chars_of, string_of, trim_vec, lower_vec, seq_eq, starts_with_exec, lit,
    sub_vec, is_digit, texts, copy_string, lemma_lower_len,
};

verus! {

broadcast use vstd::string::group_string_axioms;

/// The image model the gateway always lists.
pub open spec fn image_model_id() -> Seq<char> {
    "gpt-image-2"@
}

/// The models offered when no model presets are configured.
pub open spec fn default_codex_models() -> Seq<Seq<char>> {
    seq![
        "gpt-5-codex"@,
        "gpt-5-codex-mini"@,
        "gpt-5.4"@,
        "gpt-5.4-mini"@,
        "gpt-5.3-codex"@,
        "gpt-5.3-codex-spark"@,
        "gpt-5.2"@,
        "gpt-5.2-codex"@,
        "gpt-5.1-codex-max"@,
        "gpt-5.1-codex-mini"@,
    ]
}

/// The models offered when no model presets are configured.
pub fn default_codex_model_ids() -> (r: Vec<String>)
    ensures
        texts(r@) == default_codex_models(),
{
    let r = vec![
        lit("gpt-5-codex"),
        lit("gpt-5-codex-mini"),
        lit("gpt-5.4"),
        lit("gpt-5.4-mini"),
        lit("gpt-5.3-codex"),
        lit("gpt-5.3-codex-spark"),
        lit("gpt-5.2"),
        lit("gpt-5.2-codex"),
        lit("gpt-5.1-codex-max"),
        lit("gpt-5.1-codex-mini"),
    ];
    assert(texts(r@) =~= default_codex_models());
    r
}

/// `-YYYY-MM-DD`: a dash and a date as a snapshot suffix.
pub open spec fn date_snapshot_suffix(s: Seq<char>) -> bool {
    &&& s.len() == 11
    &&& s[0] == '-'
    &&& s[5] == '-'
    &&& s[8] == '-'
    &&& forall|i: int| 0 <= i < 11 && i != 0 && i != 5 && i != 8 ==> is_digit(#[trigger] s[i])
}

/// Whether a text is a snapshot date suffix.
pub fn has_date_snapshot_suffix(value: &str) -> (r: bool)
    ensures
        r == date_snapshot_suffix(value@),
{
    let v = chars_of(value);
    if v.len() != 11 || v[0] != '-' || v[5] != '-' || v[8] != '-' {
        return false;
    }
    let mut i: usize = 0;
    while i < 11
        invariant
            i <= 11,
            v@.len() == 11,
            v@ == value@,
            v@[0] == '-' && v@[5] == '-' && v@[8] == '-',
            forall|k: int| 0 <= k < i && k != 0 && k != 5 && k != 8 ==> is_digit(#[trigger] v@[k]),
        decreases 11 - i,
    {
        if i != 0 && i != 5 && i != 8 && !('0' <= v[i] && v[i] <= '9') {
            return false;
        }
        i = i + 1;
    }
    true
}

/// A lowercase model id is a catalog entry, or the entry followed by a
/// snapshot date.
pub open spec fn alias_matches(normalized: Seq<char>, alias: Seq<char>) -> bool {
    normalized == alias || (starts_with(normalized, alias) && date_snapshot_suffix(
        normalized.skip(alias.len() as int),
    ))
}

/// The first catalog entry a lowercase model id maps to.
pub open spec fn first_alias(normalized: Seq<char>, catalog: Seq<Seq<char>>) -> Option<Seq<char>>
    decreases catalog.len(),
{
    if catalog.len() == 0 {
        None
    } else if alias_matches(normalized, catalog[0]) {
        Some(catalog[0])
    } else {
        first_alias(normalized, catalog.drop_first())
    }
}

/// The catalog entry a model id stands for: the first entry that its trimmed
/// lowercase form equals or extends by a snapshot date; the trimmed id when
/// there is none.
pub open spec fn resolve_alias(model: Seq<char>, catalog: Seq<Seq<char>>) -> Seq<char> {
    match first_alias(lower(trim(model)), catalog) {
        Some(a) => a,
        None => trim(model),
    }
}

/// The catalog entry a model id stands for, in the given catalog.
pub fn resolve_supported_model_alias_in(model: &str, catalog: &Vec<String>) -> (r: String)
    ensures
        r@ == resolve_alias(model@, texts(catalog@)),
{
    let trimmed = trim_vec(&chars_of(model));
    let normalized = lower_vec(&trimmed);
    proof {
        lemma_lower_len(trimmed@);
        assert(texts(catalog@).skip(0) =~= texts(catalog@));
    }
    let mut i: usize = 0;
    while i < catalog.len()
        invariant
            i <= catalog.len(),
            normalized@ == lower(trim(model@)),
            first_alias(normalized@, texts(catalog@)) == first_alias(
                normalized@,
                texts(catalog@).skip(i as int),
            ),
        decreases catalog.len() - i,
    {
        let ghost rest = texts(catalog@).skip(i as int);
        let alias = chars_of(catalog[i].as_str());
        proof {
            assert(rest[0] == alias@);
            assert(rest.drop_first() =~= texts(catalog@).skip(i as int + 1));
        }
        if seq_eq(&normalized, &alias) {
            return copy_string(&catalog[i]);
        }
        if starts_with_exec(&normalized, &alias) {
            let suffix = sub_vec(&normalized, alias.len(), normalized.len());
            assert(suffix@ =~= normalized@.skip(alias@.len() as int));
            if has_date_snapshot_suffix(string_of(&suffix).as_str()) {
                return copy_string(&catalog[i]);
            }
        }
        i = i + 1;
    }
    string_of(&trimmed)
}

/// Whether some entry has the given trimmed, lowercase form.
pub open spec fn has_lower_key(ids: Seq<Seq<char>>, key: Seq<char>) -> bool {
    exists|i: int| 0 <= i < ids.len() && lower(trim(#[trigger] ids[i])) == key
}

/// The trimmed, non-blank presets, each kept only the first time its
/// lowercase form appears.
pub open spec fn distinct_trimmed(presets: Seq<Seq<char>>) -> Seq<Seq<char>>
    decreases presets.len(),
{
    if presets.len() == 0 {
        Seq::empty()
    } else {
        let kept = distinct_trimmed(presets.drop_last());
        let m = trim(presets.last());
        if m.len() == 0 || has_lower_key(kept, lower(m)) {
            kept
        } else {
            kept.push(m)
        }
    }
}

/// The trimmed, non-blank entries, each kept the first time its lowercase
/// form appears.
pub fn normalize_model_rule_list(values: &Vec<String>) -> (r: Vec<String>)
    ensures
        texts(r@) == distinct_trimmed(texts(values@)),
{
    let mut kept: Vec<String> = Vec::new();
    let mut i: usize = 0;
    while i < values.len()
        invariant
            i <= values.len(),
            texts(kept@) == distinct_trimmed(texts(values@).take(i as int)),
        decreases values.len() - i,
    {
        let m = trim_vec(&chars_of(values[i].as_str()));
        let low = lower_vec(&m);
        proof {
            let t = texts(values@).take(i as int + 1);
            assert(t.drop_last() =~= texts(values@).take(i as int));
            assert(t.last() == values@[i as int]@);
        }
        if m.len() > 0 && !has_lower_key_exec(&kept, &low) {
            let ghost before = kept@;
            kept.push(string_of(&m));
            assert(texts(kept@) =~= texts(before).push(m@));
        }
        i = i + 1;
    }
    proof {
        assert(texts(values@).take(values.len() as int) =~= texts(values@));
    }
    kept
}

/// The catalog: the distinct presets, or the default models when there are
/// none, with the image model added when it is missing.
pub open spec fn supported_catalog(presets: Seq<Seq<char>>) -> Seq<Seq<char>> {
    let base = if distinct_trimmed(presets).len() == 0 {
        default_codex_models()
    } else {
        distinct_trimmed(presets)
    };
    if has_lower_key(base, image_model_id()) {
        base
    } else {
        base.push(image_model_id())
    }
}

fn has_lower_key_exec(ids: &Vec<String>, key: &Vec<char>) -> (r: bool)
    ensures
        r == has_lower_key(texts(ids@), key@),
{
    let mut i: usize = 0;
    while i < ids.len()
        invariant
            i <= ids.len(),
            forall|k: int| 0 <= k < i ==> lower(trim(#[trigger] texts(ids@)[k])) != key@,
        decreases ids.len() - i,
    {
        let low = lower_vec(&trim_vec(&chars_of(ids[i].as_str())));
        if seq_eq(&low, key) {
            assert(lower(trim(texts(ids@)[i as int])) == key@);
            return true;
        }
        i = i + 1;
    }
    false
}

/// The model catalog for the given presets.
pub fn supported_codex_model_ids(presets: &Vec<String>) -> (r: Vec<String>)
    ensures
        texts(r@) == supported_catalog(texts(presets@)),
{
    let kept = normalize_model_rule_list(presets);
    let mut base = if kept.len() == 0 {
        default_codex_model_ids()
    } else {
        kept
    };
    let image = chars_of("gpt-image-2");
    if !has_lower_key_exec(&base, &image) {
        let ghost before = base@;
        base.push(lit("gpt-image-2"));
        assert(texts(base@) =~= texts(before).push(image_model_id()));
    }
    base
}

/// The catalog entry a model id stands for, in the catalog offered when no
/// presets are configured.
pub fn resolve_supported_model_alias(model: &str) -> (r: String)
    ensures
        r@ == resolve_alias(model@, supported_catalog(Seq::empty())),
{
    let empty: Vec<String> = Vec::new();
    proof {
        assert(texts(empty@) =~= Seq::<Seq<char>>::empty());
    }
    let catalog = supported_codex_model_ids(&empty);
    resolve_supported_model_alias_in(model, &catalog)
}

// ---------------------------------------------------------------------------
// Model rules
// ---------------------------------------------------------------------------

/// `m` matches the pattern `p`, in which `*` stands for any text (empty
/// included) and every other character for itself.
pub open spec fn glob(p: Seq<char>, m: Seq<char>) -> bool
    decreases p.len(), m.len(),
{
    if p.len() == 0 {
        m.len() == 0
    } else if p[0] == '*' {
        glob(p.drop_first(), m) || (m.len() > 0 && glob(p, m.drop_first()))
    } else {
        m.len() > 0 && m[0] == p[0] && glob(p.drop_first(), m.drop_first())
    }
}

/// A model matches a rule: both are non-blank, and the model's trimmed ASCII
/// lowercase form matches the rule's as a `*` pattern.
pub open spec fn wildcard_matches(pattern: Seq<char>, model: Seq<char>) -> bool {
    let p = lower(trim(pattern));
    let m = lower(trim(model));
    p.len() > 0 && m.len() > 0 && glob(p, m)
}

proof fn lemma_glob_step(p: Seq<char>, m: Seq<char>, i: int, j: int)
    requires
        0 <= i < p.len(),
        0 <= j <= m.len(),
    ensures
        glob(p.skip(i), m.skip(j)) == if p[i] == '*' {
            glob(p.skip(i + 1), m.skip(j)) || (j < m.len() && glob(p.skip(i), m.skip(j + 1)))
        } else {
            j < m.len() && m[j] == p[i] && glob(p.skip(i + 1), m.skip(j + 1))
        },
{
    assert(p.skip(i).drop_first() =~= p.skip(i + 1));
    assert(p.skip(i)[0] == p[i]);
    if j < m.len() {
        assert(m.skip(j).drop_first() =~= m.skip(j + 1));
        assert(m.skip(j)[0] == m[j]);
    }
}

/// Whether `m` matches the `*` pattern `p`.
fn glob_exec(p: &Vec<char>, m: &Vec<char>) -> (r: bool)
    ensures
        r == glob(p@, m@),
{
    let k = m.len();
    // `next[j]` (and `next_end` for `j == k`) tells whether `m[j..]` matches
    // the pattern from position `i`.
    let mut next: Vec<bool> = Vec::new();
    let mut j: usize = 0;
    while j < k
        invariant
            k == m@.len(),
            j <= k,
            next@.len() == j,
            forall|q: int| 0 <= q < j ==> !next@[q],
        decreases k - j,
    {
        next.push(false);
        j = j + 1;
    }
    let mut next_end = true;
    proof {
        assert(p@.skip(p@.len() as int).len() == 0);
        assert(m@.skip(k as int).len() == 0);
    }
    let mut i: usize = p.len();
    while i > 0
        invariant
            k == m@.len(),
            i <= p@.len(),
            next@.len() == k,
            forall|q: int| 0 <= q < k ==> next@[q] == glob(p@.skip(i as int), #[trigger] m@.skip(q)),
            next_end == glob(p@.skip(i as int), m@.skip(k as int)),
        decreases i,
    {
        let pi = i - 1;
        let c = p[pi];
        proof {
            lemma_glob_step(p@, m@, pi as int, k as int);
        }
        let cur_end = if c == '*' {
            next_end
        } else {
            false
        };
        let mut cur: Vec<bool> = next.clone();
        let mut jj: usize = k;
        while jj > 0
            invariant
                k == m@.len(),
                pi < p@.len(),
                c == p@[pi as int],
                jj <= k,
                next@.len() == k,
                cur@.len() == k,
                forall|q: int| 0 <= q < k ==> next@[q] == glob(p@.skip(pi + 1), #[trigger] m@.skip(q)),
                next_end == glob(p@.skip(pi + 1), m@.skip(k as int)),
                cur_end == glob(p@.skip(pi as int), m@.skip(k as int)),
                forall|q: int| jj <= q < k ==> cur@[q] == glob(p@.skip(pi as int), #[trigger] m@.skip(q)),
            decreases jj,
        {
            let q = jj - 1;
            proof {
                lemma_glob_step(p@, m@, pi as int, q as int);
            }
            let after_cur = if q + 1 < k {
                cur[q + 1]
            } else {
                cur_end
            };
            let after_next = if q + 1 < k {
                next[q + 1]
            } else {
                next_end
            };
            let v = if c == '*' {
                next[q] || after_cur
            } else {
                m[q] == c && after_next
            };
            cur.set(q, v);
            jj = q;
        }
        next = cur;
        next_end = cur_end;
        i = pi;
    }
    proof {
        assert(p@.skip(0) =~= p@);
        assert(m@.skip(0) =~= m@);
    }
    if k == 0 {
        next_end
    } else {
        next[0]
    }
}

/// Whether a model matches a rule.
pub fn wildcard_model_matches(pattern: &str, model: &str) -> (r: bool)
    ensures
        r == wildcard_matches(pattern@, model@),
{
    let p = lower_vec(&trim_vec(&chars_of(pattern)));
    let m = lower_vec(&trim_vec(&chars_of(model)));
    if p.len() == 0 || m.len() == 0 {
        return false;
    }
    glob_exec(&p, &m)
}

/// Some rule matches the model.
pub open spec fn matches_any_rule(model: Seq<char>, rules: Seq<Seq<char>>) -> bool {
    exists|i: int| 0 <= i < rules.len() && wildcard_matches(#[trigger] rules[i], model)
}

/// Whether some rule matches the model.
pub fn model_matches_any_rule(model: &str, rules: &Vec<String>) -> (r: bool)
    ensures
        r == matches_any_rule(model@, texts(rules@)),
{
    let mut i: usize = 0;
    while i < rules.len()
        invariant
            i <= rules.len(),
            forall|k: int| 0 <= k < i ==> !wildcard_matches(#[trigger] texts(rules@)[k], model@),
        decreases rules.len() - i,
    {
        if wildcard_model_matches(rules[i].as_str(), model) {
            assert(wildcard_matches(texts(rules@)[i as int], model@));
            return true;
        }
        i = i + 1;
    }
    false
}

/// The models that some allowed rule matches (every model when there are no
/// allowed rules) and no excluded rule matches, in order.
pub open spec fn filtered_models(ids: Seq<Seq<char>>, allowed: Seq<Seq<char>>, excluded: Seq<Seq<char>>) -> Seq<
    Seq<char>,
> {
    ids.filter(
        |m: Seq<char>|
            (allowed.len() == 0 || matches_any_rule(m, allowed)) && !matches_any_rule(m, excluded),
    )
}

/// The models the rules let through.
pub fn apply_model_filters(model_ids: Vec<String>, allowed: &Vec<String>, excluded: &Vec<String>) -> (r:
    Vec<String>)
    ensures
        texts(r@) == filtered_models(texts(model_ids@), texts(allowed@), texts(excluded@)),
{
    let mut r: Vec<String> = Vec::new();
    let mut i: usize = 0;
    while i < model_ids.len()
        invariant
            i <= model_ids.len(),
            texts(r@) == filtered_models(texts(model_ids@).take(i as int), texts(allowed@), texts(excluded@)),
        decreases model_ids.len() - i,
    {
        let m = &model_ids[i];
        let keep = (allowed.len() == 0 || model_matches_any_rule(m.as_str(), allowed))
            && !model_matches_any_rule(m.as_str(), excluded);
        proof {
            let t = texts(model_ids@).take(i as int + 1);
            assert(t =~= texts(model_ids@).take(i as int).push(m@));
            reveal(Seq::filter);
            assert(t.drop_last() =~= texts(model_ids@).take(i as int));
        }
        if keep {
            let ghost before = r@;
            r.push(copy_string(m));
            assert(texts(r@) =~= texts(before).push(m@));
        }
        i = i + 1;
    }
    proof {
        assert(texts(model_ids@).take(model_ids.len() as int) =~= texts(model_ids@));
    }
    r
}

/// `s` with every leading and trailing `/` removed (`trim_matches('/')`).
pub open spec fn trim_slashes(s: Seq<char>) -> Seq<char>
    decreases s.len(),
{
    if s.len() > 0 && s[0] == '/' {
        trim_slashes(s.drop_first())
    } else if s.len() > 0 && s.last() == '/' {
        trim_slashes(s.drop_last())
    } else {
        s
    }
}

fn trim_slashes_exec(v: &Vec<char>) -> (r: Vec<char>)
    ensures
        r@ == trim_slashes(v@),
{
    let mut a: usize = 0;
    let mut b: usize = v.len();
    proof {
        assert(v@.subrange(0, v@.len() as int) =~= v@);
    }
    loop
        invariant
            a <= b <= v.len(),
            trim_slashes(v@) == trim_slashes(v@.subrange(a as int, b as int)),
        decreases b - a,
    {
        let ghost cur = v@.subrange(a as int, b as int);
        if a < b && v[a] == '/' {
            assert(cur.drop_first() =~= v@.subrange(a + 1, b as int));
            a = a + 1;
        } else if a < b && v[b - 1] == '/' {
            assert(cur.drop_last() =~= v@.subrange(a as int, b - 1));
            b = b - 1;
        } else {
            return crate::text::sub_vec(v, a, b);
        }
    }
}

/// A client-facing model prefix: trimmed, without surrounding `/`, ASCII
/// lowercase; none when that leaves nothing.
pub open spec fn model_prefix_of(value: Option<Seq<char>>) -> Option<Seq<char>> {
    match value {
        Some(v) => {
            let p = lower(trim(trim_slashes(trim(v))));
            if p.len() == 0 {
                None
            } else {
                Some(p)
            }
        },
        None => None,
    }
}

/// The model prefix an API key is configured with, normalized.
pub fn normalize_model_prefix_value(value: Option<String>) -> (r: Option<String>)
    ensures
        match r {
            Some(p) => model_prefix_of(crate::text::opt_string_text(value)) == Some(p@),
            None => model_prefix_of(crate::text::opt_string_text(value)) is None,
        },
{
    match value {
        Some(v) => {
            let p = lower_vec(&trim_vec(&trim_slashes_exec(&trim_vec(&chars_of(v.as_str())))));
            proof {
                lemma_lower_len(trim(trim_slashes(trim(v@))));
            }
            if p.len() == 0 {
                None
            } else {
                Some(string_of(&p))
            }
        },
        None => None,
    }
}

/// A model id as an API key with a prefix sees it: the trimmed id, with
/// `prefix/` (the prefix trimmed, without surrounding `/`) removed from its
/// front when it is there.
pub open spec fn strip_prefix_spec(model: Seq<char>, prefix: Option<Seq<char>>) -> Seq<char> {
    match prefix {
        Some(p) if trim(p).len() > 0 => {
            let expected = trim_slashes(trim(p)) + "/"@;
            let t = trim(model);
            if starts_with(t, expected) {
                trim(t.skip(expected.len() as int))
            } else {
                t
            }
        },
        _ => trim(model),
    }
}

/// A model id without the API key's prefix.
pub fn strip_model_prefix(model: &str, prefix: Option<&str>) -> (r: String)
    ensures
        r@ == strip_prefix_spec(
            model@,
            match prefix {
                Some(p) => Some(p@),
                None => None,
            },
        ),
{
    let t = trim_vec(&chars_of(model));
    match prefix {
        Some(p) => {
            let tp = trim_vec(&chars_of(p));
            if tp.len() == 0 {
                return string_of(&t);
            }
            let expected = crate::text::concat_vec(&trim_slashes_exec(&tp), &chars_of("/"));
            if starts_with_exec(&t, &expected) {
                let rest = sub_vec(&t, expected.len(), t.len());
                assert(rest@ =~= t@.skip(expected@.len() as int));
                string_of(&trim_vec(&rest))
            } else {
                string_of(&t)
            }
        },
        None => string_of(&t),
    }
}

/// Model ids as an API key with a prefix lists them: `prefix/model`, the
/// prefix trimmed and without surrounding `/`; unchanged without a prefix.
pub open spec fn prefixed_models(ids: Seq<Seq<char>>, prefix: Option<Seq<char>>) -> Seq<Seq<char>> {
    match prefix {
        Some(p) if trim(p).len() > 0 => ids.map_values(|m: Seq<char>| trim_slashes(trim(p)) + "/"@ + m),
        _ => ids,
    }
}

/// Model ids with the API key's prefix.
pub fn add_model_prefix(model_ids: Vec<String>, prefix: Option<&str>) -> (r: Vec<String>)
    ensures
        texts(r@) == prefixed_models(
            texts(model_ids@),
            match prefix {
                Some(p) => Some(p@),
                None => None,
            },
        ),
{
    let p = match prefix {
        Some(p) => trim_vec(&chars_of(p)),
        None => return model_ids,
    };
    if p.len() == 0 {
        return model_ids;
    }
    let head = string_of(&crate::text::concat_vec(&trim_slashes_exec(&p), &chars_of("/")));
    let mut r: Vec<String> = Vec::new();
    let mut i: usize = 0;
    while i < model_ids.len()
        invariant
            i <= model_ids.len(),
            head@ == trim_slashes(p@) + "/"@,
            texts(r@) == texts(model_ids@).take(i as int).map_values(|m: Seq<char>| head@ + m),
        decreases model_ids.len() - i,
    {
        let ghost before = r@;
        r.push(crate::text::concat_str(head.as_str(), model_ids[i].as_str()));
        proof {
            assert(texts(r@) =~= texts(before).push(head@ + model_ids@[i as int]@));
            assert(texts(model_ids@).take(i as int + 1) =~= texts(model_ids@).take(i as int).push(model_ids@[i as int]@));
            assert(texts(model_ids@).take(i as int + 1).map_values(|m: Seq<char>| head@ + m)
                =~= texts(model_ids@).take(i as int).map_values(|m: Seq<char>| head@ + m).push(head@ + model_ids@[i as int]@));
        }
        i = i + 1;
    }
    proof {
        assert(texts(model_ids@).take(model_ids.len() as int) =~= texts(model_ids@));
        assert(texts(model_ids@).map_values(|m: Seq<char>| head@ + m) =~= texts(model_ids@).map_values(
            |m: Seq<char>| trim_slashes(trim(prefix.unwrap()@)) + "/"@ + m,
        ));
    }
    r
}

// ---------------------------------------------------------------------------
// Model aliases
// ---------------------------------------------------------------------------

/// A client-facing name for a catalog model; a forked alias keeps the source
/// model listed too.
#[derive(Debug, Clone)]
pub struct CodexLocalAccessModelAlias {
    pub source_model: String,
    pub alias: String,
    pub fork: bool,
}

/// An alias as values.
pub open spec fn alias_view(a: CodexLocalAccessModelAlias) -> (Seq<char>, Seq<char>, bool) {
    (a.source_model@, a.alias@, a.fork)
}

/// The aliases as values.
pub open spec fn alias_views(v: Seq<CodexLocalAccessModelAlias>) -> Seq<(Seq<char>, Seq<char>, bool)> {
    v.map_values(|a: CodexLocalAccessModelAlias| alias_view(a))
}

/// Some kept alias has the given lowercase name.
pub open spec fn has_alias_key(kept: Seq<(Seq<char>, Seq<char>, bool)>, key: Seq<char>) -> bool {
    exists|i: int| 0 <= i < kept.len() && lower(#[trigger] kept[i].1) == key
}

/// The aliases with both names trimmed, dropping those with a blank name,
/// those that only rename a model to itself (in any case), and those whose
/// name (in any case) an earlier one already took.
pub open spec fn normalized_aliases(values: Seq<(Seq<char>, Seq<char>, bool)>) -> Seq<(Seq<char>, Seq<char>, bool)>
    decreases values.len(),
{
    if values.len() == 0 {
        Seq::empty()
    } else {
        let kept = normalized_aliases(values.drop_last());
        let source = trim(values.last().0);
        let alias = trim(values.last().1);
        if source.len() == 0 || alias.len() == 0 || lower(source) == lower(alias) || has_alias_key(
            kept,
            lower(alias),
        ) {
            kept
        } else {
            kept.push((source, alias, values.last().2))
        }
    }
}

fn has_alias_key_exec(kept: &Vec<CodexLocalAccessModelAlias>, key: &Vec<char>) -> (r: bool)
    ensures
        r == has_alias_key(alias_views(kept@), key@),
{
    let mut i: usize = 0;
    while i < kept.len()
        invariant
            i <= kept.len(),
            forall|k: int| 0 <= k < i ==> lower(#[trigger] alias_views(kept@)[k].1) != key@,
        decreases kept.len() - i,
    {
        if seq_eq(&lower_vec(&chars_of(kept[i].alias.as_str())), key) {
            assert(lower(alias_views(kept@)[i as int].1) == key@);
            return true;
        }
        i = i + 1;
    }
    false
}

/// The configured aliases, cleaned up.
pub fn normalize_model_aliases(values: Vec<CodexLocalAccessModelAlias>) -> (r: Vec<CodexLocalAccessModelAlias>)
    ensures
        alias_views(r@) == normalized_aliases(alias_views(values@)),
{
    let mut kept: Vec<CodexLocalAccessModelAlias> = Vec::new();
    let mut i: usize = 0;
    while i < values.len()
        invariant
            i <= values.len(),
            alias_views(kept@) == normalized_aliases(alias_views(values@).take(i as int)),
        decreases values.len() - i,
    {
        let item = &values[i];
        let source = trim_vec(&chars_of(item.source_model.as_str()));
        let alias = trim_vec(&chars_of(item.alias.as_str()));
        let alias_key = lower_vec(&alias);
        proof {
            let t = alias_views(values@).take(i as int + 1);
            assert(t.drop_last() =~= alias_views(values@).take(i as int));
            assert(t.last() == alias_view(values@[i as int]));
        }
        if source.len() > 0 && alias.len() > 0 && !seq_eq(&lower_vec(&source), &alias_key)
            && !has_alias_key_exec(&kept, &alias_key) {
            let ghost before = kept@;
            kept.push(
                CodexLocalAccessModelAlias {
                    source_model: string_of(&source),
                    alias: string_of(&alias),
                    fork: item.fork,
                },
            );
            assert(alias_views(kept@) =~= alias_views(before).push((source@, alias@, item.fork)));
        }
        i = i + 1;
    }
    proof {
        assert(alias_views(values@).take(values.len() as int) =~= alias_views(values@));
    }
    kept
}

/// The alias for a model: the last one whose source is the model (in any
/// case).
pub open spec fn alias_for(aliases: Seq<(Seq<char>, Seq<char>, bool)>, key: Seq<char>) -> Option<
    (Seq<char>, Seq<char>, bool),
>
    decreases aliases.len(),
{
    if aliases.len() == 0 {
        None
    } else if lower(aliases.last().0) == key {
        Some(aliases.last())
    } else {
        alias_for(aliases.drop_last(), key)
    }
}

/// One model through the aliases: a model with an alias shows as the alias
/// (and also as itself when the alias forks); every name shows once, by its
/// lowercase form.
pub open spec fn alias_step(
    state: (Seq<Seq<char>>, Set<Seq<char>>),
    model: Seq<char>,
    aliases: Seq<(Seq<char>, Seq<char>, bool)>,
) -> (Seq<Seq<char>>, Set<Seq<char>>) {
    let key = lower(model);
    match alias_for(aliases, key) {
        Some(a) => {
            let s1 = if a.2 && !state.1.contains(key) {
                (state.0.push(model), state.1.insert(key))
            } else {
                state
            };
            if !s1.1.contains(lower(a.1)) {
                (s1.0.push(a.1), s1.1.insert(lower(a.1)))
            } else {
                s1
            }
        },
        None => if !state.1.contains(key) {
            (state.0.push(model), state.1.insert(key))
        } else {
            state
        },
    }
}

/// The models through the aliases, in order.
pub open spec fn aliased_models(ids: Seq<Seq<char>>, aliases: Seq<(Seq<char>, Seq<char>, bool)>) -> (
    Seq<Seq<char>>,
    Set<Seq<char>>,
)
    decreases ids.len(),
{
    if ids.len() == 0 {
        (Seq::empty(), Set::empty())
    } else {
        alias_step(aliased_models(ids.drop_last(), aliases), ids.last(), aliases)
    }
}

/// The models a client sees once the aliases apply; without aliases, the
/// models as they are.
pub open spec fn models_with_aliases(ids: Seq<Seq<char>>, aliases: Seq<(Seq<char>, Seq<char>, bool)>) -> Seq<
    Seq<char>,
> {
    if aliases.len() == 0 {
        ids
    } else {
        aliased_models(ids, aliases).0
    }
}

pub(crate) fn key_seen(seen: &Vec<Vec<char>>, key: &Vec<char>) -> (r: bool)
    ensures
        r == crate::split::pieces(seen@).to_set().contains(key@),
{
    let mut i: usize = 0;
    while i < seen.len()
        invariant
            i <= seen.len(),
            forall|k: int| 0 <= k < i ==> #[trigger] crate::split::pieces(seen@)[k] != key@,
        decreases seen.len() - i,
    {
        if seq_eq(&seen[i], key) {
            assert(crate::split::pieces(seen@)[i as int] == key@);
            return true;
        }
        i = i + 1;
    }
    proof {
        if crate::split::pieces(seen@).to_set().contains(key@) {
            let k = crate::split::pieces(seen@).index_of(key@);
            assert(crate::split::pieces(seen@)[k] == key@);
        }
    }
    false
}

pub(crate) fn remember(seen: &mut Vec<Vec<char>>, key: Vec<char>)
    ensures
        crate::split::pieces(final(seen)@).to_set() == crate::split::pieces(old(seen)@).to_set().insert(
            key@,
        ),
{
    let ghost before = crate::split::pieces(seen@);
    seen.push(key);
    proof {
        let after = crate::split::pieces(seen@);
        assert(after =~= before.push(key@));
        assert forall|x: Seq<char>| #[trigger] after.to_set().contains(x) <==> before.to_set().insert(
            key@,
        ).contains(x) by {
            if x == key@ {
                assert(after[before.len() as int] == x);
            } else if before.to_set().contains(x) {
                let k = before.index_of(x);
                assert(after[k] == x);
            }
            if after.to_set().contains(x) {
                let k = after.index_of(x);
                if k < before.len() {
                    assert(before[k] == x);
                }
            }
        }
        assert(after.to_set() =~= before.to_set().insert(key@));
    }
}

fn alias_for_exec(aliases: &Vec<CodexLocalAccessModelAlias>, key: &Vec<char>) -> (r: Option<usize>)
    ensures
        match r {
            Some(i) => i < aliases.len() && alias_for(alias_views(aliases@), key@) == Some(
                alias_views(aliases@)[i as int],
            ),
            None => alias_for(alias_views(aliases@), key@) is None,
        },
{
    let mut i: usize = aliases.len();
    proof {
        assert(alias_views(aliases@).take(aliases.len() as int) =~= alias_views(aliases@));
    }
    while i > 0
        invariant
            i <= aliases.len(),
            alias_for(alias_views(aliases@), key@) == alias_for(alias_views(aliases@).take(i as int), key@),
        decreases i,
    {
        let ghost t = alias_views(aliases@).take(i as int);
        proof {
            assert(t.last() == alias_view(aliases@[i - 1]));
            assert(t.drop_last() =~= alias_views(aliases@).take(i - 1));
        }
        if seq_eq(&lower_vec(&chars_of(aliases[i - 1].source_model.as_str())), key) {
            return Some(i - 1);
        }
        i = i - 1;
    }
    None
}

/// The models a client sees once the aliases apply.
pub fn apply_model_aliases_to_ids(model_ids: Vec<String>, aliases: &Vec<CodexLocalAccessModelAlias>) -> (r:
    Vec<String>)
    ensures
        texts(r@) == models_with_aliases(texts(model_ids@), alias_views(aliases@)),
{
    if aliases.len() == 0 {
        return model_ids;
    }
    let ghost av = alias_views(aliases@);
    let mut visible: Vec<String> = Vec::new();
    let mut seen: Vec<Vec<char>> = Vec::new();
    let mut i: usize = 0;
    proof {
        assert(crate::split::pieces(seen@).to_set() =~= Set::<Seq<char>>::empty());
        assert(texts(visible@) =~= Seq::<Seq<char>>::empty());
    }
    while i < model_ids.len()
        invariant
            i <= model_ids.len(),
            av == alias_views(aliases@),
            (texts(visible@), crate::split::pieces(seen@).to_set()) == aliased_models(
                texts(model_ids@).take(i as int),
                av,
            ),
        decreases model_ids.len() - i,
    {
        let model = &model_ids[i];
        let key = lower_vec(&chars_of(model.as_str()));
        proof {
            let t = texts(model_ids@).take(i as int + 1);
            assert(t.drop_last() =~= texts(model_ids@).take(i as int));
            assert(t.last() == model@);
        }
        match alias_for_exec(aliases, &key) {
            Some(k) => {
                let a = &aliases[k];
                if a.fork && !key_seen(&seen, &key) {
                    let ghost before = visible@;
                    visible.push(copy_string(model));
                    assert(texts(visible@) =~= texts(before).push(model@));
                    remember(&mut seen, key);
                }
                let alias_key = lower_vec(&chars_of(a.alias.as_str()));
                if !key_seen(&seen, &alias_key) {
                    let ghost before = visible@;
                    visible.push(copy_string(&a.alias));
                    assert(texts(visible@) =~= texts(before).push(a.alias@));
                    remember(&mut seen, alias_key);
                }
            },
            None => {
                if !key_seen(&seen, &key) {
                    let ghost before = visible@;
                    visible.push(copy_string(model));
                    assert(texts(visible@) =~= texts(before).push(model@));
                    remember(&mut seen, key);
                }
            },
        }
        i = i + 1;
    }
    proof {
        assert(texts(model_ids@).take(model_ids.len() as int) =~= texts(model_ids@));
    }
    visible
}

} // verus!
