//! `multipart/form-data` bodies, as the Images API edit endpoint receives
//! them: the boundary, the parts, their headers, and the fields and files
//! they carry.
use vstd::prelude::*;
use vstd::slice::slice_subrange;
use crate::chat_payload::{i64_number, i64_value};
use crate::digest::{base64_standard, base64_standard_encode};
use crate::images::{
    build_image_generation_tool, build_images_responses_body, image_model_id, image_tool_for,
    images_responses_view, ImagesRequest,
};
use crate::json::{entries_view, json_view, push_entry, set_member, view_set, JsonValue, JsonView};
use crate::lan::{trim_end_char, trim_end_char_exec};
use crate::split::{split_char, split_char_exec, split_once, split_once_exec, pieces, lemma_split_char_nonempty};
use crate::text::{
    all_digits, decimal_value, eq_ignore_case, eq_ignore_case_exec, trim, lower, chars_of, string_of,
    trim_vec, lower_vec, all_digits_exec, parse_decimal, sub_vec, lit,
};

verus! {

// ---------------------------------------------------------------------------
// Finding bytes
// ---------------------------------------------------------------------------

/// `n` occurs in `h` at position `i`.
pub open spec fn bytes_at(h: Seq<u8>, n: Seq<u8>, i: int) -> bool {
    0 <= i && i + n.len() <= h.len() && h.subrange(i, i + n.len()) == n
}

/// The first position at or after `i` where `n` occurs in `h`.
pub open spec fn find_from(h: Seq<u8>, n: Seq<u8>, i: int) -> Option<int>
    decreases h.len() - i,
{
    if i < 0 || i + n.len() > h.len() {
        None
    } else if bytes_at(h, n, i) {
        Some(i)
    } else {
        proof {
            if n.len() == 0 {
                assert(h.subrange(i, i) =~= n);
            }
        }
        find_from(h, n, i + 1)
    }
}

/// What `find_from` finds lies at or after the start, and is an occurrence.
pub proof fn lemma_find_from(h: Seq<u8>, n: Seq<u8>, i: int)
    ensures
        find_from(h, n, i) matches Some(k) ==> i <= k && bytes_at(h, n, k),
    decreases h.len() - i,
{
    if i < 0 || i + n.len() > h.len() {
    } else if bytes_at(h, n, i) {
    } else {
        if n.len() == 0 {
            assert(h.subrange(i, i) =~= n);
        }
        lemma_find_from(h, n, i + 1);
    }
}

fn bytes_match_at(h: &[u8], n: &[u8], i: usize) -> (r: bool)
    requires
        i + n@.len() <= h@.len(),
    ensures
        r == bytes_at(h@, n@, i as int),
{
    let hl: usize = h.len();
    let mut j: usize = 0;
    while j < n.len()
        invariant
            hl as int == h@.len(),
            i + n@.len() <= h@.len(),
            j <= n@.len(),
            h@.subrange(i as int, i + j) == n@.take(j as int),
        decreases n@.len() - j,
    {
        if h[i + j] != n[j] {
            proof {
                if h@.subrange(i as int, i + n@.len()) == n@ {
                    assert(h@.subrange(i as int, i + n@.len())[j as int] == h@[i + j]);
                }
            }
            return false;
        }
        proof {
            assert(h@.subrange(i as int, i + j + 1) =~= h@.subrange(i as int, i + j).push(h@[i + j]));
            assert(n@.take(j as int + 1) =~= n@.take(j as int).push(n@[j as int]));
        }
        j = j + 1;
    }
    proof {
        assert(n@.take(n@.len() as int) =~= n@);
    }
    true
}

/// The first position at or after `from` where `needle` occurs in `haystack`.
pub fn find_subslice_from(haystack: &[u8], needle: &[u8], from: usize) -> (r: Option<usize>)
    requires
        from <= haystack@.len(),
    ensures
        match r {
            Some(k) => find_from(haystack@, needle@, from as int) == Some(k as int),
            None => find_from(haystack@, needle@, from as int) is None,
        },
{
    let mut i: usize = from;
    while needle.len() <= haystack.len() - i
        invariant
            from <= i <= haystack@.len(),
            find_from(haystack@, needle@, from as int) == find_from(haystack@, needle@, i as int),
        decreases haystack@.len() - i,
    {
        if bytes_match_at(haystack, needle, i) {
            return Some(i);
        }
        proof {
            if needle@.len() == 0 {
                assert(haystack@.subrange(i as int, i as int) =~= needle@);
            }
        }
        i = i + 1;
    }
    None
}

/// The first position where `needle` occurs in `haystack`; an empty needle
/// is found at the start.
pub fn find_subslice(haystack: &[u8], needle: &[u8]) -> (r: Option<usize>)
    ensures
        match r {
            Some(k) => find_from(haystack@, needle@, 0) == Some(k as int),
            None => find_from(haystack@, needle@, 0) is None,
        },
{
    find_subslice_from(haystack, needle, 0)
}

// ---------------------------------------------------------------------------
// Header values
// ---------------------------------------------------------------------------

/// Text with every leading `c` removed.
pub open spec fn trim_start_char(s: Seq<char>, c: char) -> Seq<char>
    decreases s.len(),
{
    if s.len() > 0 && s[0] == c {
        trim_start_char(s.drop_first(), c)
    } else {
        s
    }
}

/// Text with its surrounding double quotes removed (`trim_matches('"')`).
pub open spec fn trim_quotes(s: Seq<char>) -> Seq<char> {
    trim_end_char(trim_start_char(s, '"'), '"')
}

fn trim_quotes_exec(v: &Vec<char>) -> (r: Vec<char>)
    ensures
        r@ == trim_quotes(v@),
{
    let mut i: usize = 0;
    proof {
        assert(v@.skip(0) =~= v@);
    }
    while i < v.len() && v[i] == '"'
        invariant
            i <= v@.len(),
            trim_start_char(v@.skip(i as int), '"') == trim_start_char(v@, '"'),
        decreases v@.len() - i,
    {
        proof {
            assert(v@.skip(i as int).drop_first() =~= v@.skip(i as int + 1));
        }
        i = i + 1;
    }
    let rest = sub_vec(v, i, v.len());
    proof {
        assert(rest@ =~= v@.skip(i as int));
    }
    trim_end_char_exec(&rest, '"')
}

/// The boundary named by one `;`-separated piece of a content type.
pub open spec fn boundary_in(piece: Seq<char>) -> Option<Seq<char>> {
    match split_once(trim(piece), '=') {
        None => None,
        Some((name, value)) => if eq_ignore_case(trim(name), "boundary"@) && trim_quotes(trim(value)).len() > 0 {
            Some(trim_quotes(trim(value)))
        } else {
            None
        },
    }
}

/// The first boundary that the pieces name.
pub open spec fn first_boundary(ps: Seq<Seq<char>>) -> Option<Seq<char>>
    decreases ps.len(),
{
    if ps.len() == 0 {
        None
    } else {
        match boundary_in(ps[0]) {
            Some(b) => Some(b),
            None => first_boundary(ps.drop_first()),
        }
    }
}

/// The boundary of a `multipart/form-data` content type: the first `;`-separated
/// parameter named `boundary` (in any case) whose value, trimmed and without
/// quotes, is not empty.
pub open spec fn multipart_boundary(content_type: Seq<char>) -> Option<Seq<char>> {
    first_boundary(split_char(content_type, ';'))
}

fn boundary_in_exec(piece: &Vec<char>) -> (r: Option<Vec<char>>)
    ensures
        match r {
            Some(b) => boundary_in(piece@) == Some(b@),
            None => boundary_in(piece@) is None,
        },
{
    let t = trim_vec(piece);
    match split_once_exec(&t, '=') {
        None => None,
        Some((name, value)) => {
            if !eq_ignore_case_exec(&trim_vec(&name), &chars_of("boundary")) {
                return None;
            }
            let b = trim_quotes_exec(&trim_vec(&value));
            if b.len() == 0 {
                None
            } else {
                Some(b)
            }
        },
    }
}

/// The boundary of a `multipart/form-data` content type.
pub fn extract_multipart_boundary(content_type: &str) -> (r: Option<String>)
    ensures
        match r {
            Some(b) => multipart_boundary(content_type@) == Some(b@),
            None => multipart_boundary(content_type@) is None,
        },
{
    let ps = split_char_exec(&chars_of(content_type), ';');
    let mut i: usize = 0;
    proof {
        assert(pieces(ps@).skip(0) =~= pieces(ps@));
    }
    while i < ps.len()
        invariant
            i <= ps@.len(),
            pieces(ps@) == split_char(content_type@, ';'),
            first_boundary(pieces(ps@)) == first_boundary(pieces(ps@).skip(i as int)),
        decreases ps@.len() - i,
    {
        proof {
            assert(pieces(ps@).skip(i as int)[0] == ps@[i as int]@);
            assert(pieces(ps@).skip(i as int).drop_first() =~= pieces(ps@).skip(i as int + 1));
        }
        match boundary_in_exec(&ps[i]) {
            Some(b) => {
                proof {
                    let t = pieces(ps@).skip(i as int);
                    assert(boundary_in(t[0]) == Some(b@));
                    assert(first_boundary(t) == Some(b@));
                }
                return Some(string_of(&b));
            },
            None => {},
        }
        i = i + 1;
    }
    None
}

/// The value that a list of pairs holds for a key: that of the last pair
/// with the key, as a map that each pair in turn sets.
pub open spec fn pair_lookup(pairs: Seq<(Seq<char>, Seq<char>)>, key: Seq<char>) -> Option<Seq<char>>
    decreases pairs.len(),
{
    if pairs.len() == 0 {
        None
    } else if pairs.last().0 == key {
        Some(pairs.last().1)
    } else {
        pair_lookup(pairs.drop_last(), key)
    }
}

pub open spec fn pairs_view(v: Seq<(String, String)>) -> Seq<(Seq<char>, Seq<char>)> {
    v.map_values(|p: (String, String)| (p.0@, p.1@))
}

/// The value that a list of pairs holds for a key.
pub fn lookup_pair(pairs: &Vec<(String, String)>, key: &str) -> (r: Option<String>)
    ensures
        match r {
            Some(v) => pair_lookup(pairs_view(pairs@), key@) == Some(v@),
            None => pair_lookup(pairs_view(pairs@), key@) is None,
        },
{
    let k = chars_of(key);
    let mut j: usize = pairs.len();
    proof {
        assert(pairs_view(pairs@).take(j as int) =~= pairs_view(pairs@));
    }
    while j > 0
        invariant
            j <= pairs@.len(),
            k@ == key@,
            pair_lookup(pairs_view(pairs@), key@) == pair_lookup(pairs_view(pairs@).take(j as int), key@),
        decreases j,
    {
        let ghost t = pairs_view(pairs@).take(j as int);
        proof {
            assert(t.last() == (pairs@[j - 1].0@, pairs@[j - 1].1@));
            assert(t.drop_last() =~= pairs_view(pairs@).take(j - 1));
        }
        if crate::text::seq_eq(&chars_of(pairs[j - 1].0.as_str()), &k) {
            return Some(crate::text::copy_string(&pairs[j - 1].1));
        }
        j = j - 1;
    }
    None
}

/// The parameters of a `Content-Disposition` value: each `;`-separated piece
/// after the first that holds `=` sets its name, trimmed and lowercased, to
/// its value, trimmed and without quotes; pieces with a blank name are passed
/// over.
pub open spec fn disposition_pairs(ps: Seq<Seq<char>>) -> Seq<(Seq<char>, Seq<char>)>
    decreases ps.len(),
{
    if ps.len() == 0 {
        Seq::empty()
    } else {
        let before = disposition_pairs(ps.drop_last());
        match split_once(trim(ps.last()), '=') {
            None => before,
            Some((name, raw)) => if lower(trim(name)).len() == 0 {
                before
            } else {
                before.push((lower(trim(name)), trim_quotes(trim(raw))))
            },
        }
    }
}

/// The parameters of a `Content-Disposition` value, in order.
pub open spec fn disposition_params(value: Seq<char>) -> Seq<(Seq<char>, Seq<char>)> {
    disposition_pairs(split_char(value, ';').skip(1))
}

/// The parameters of a `Content-Disposition` value, in order; a later one
/// with the same name wins on lookup.
pub fn parse_content_disposition_params(value: &str) -> (r: Vec<(String, String)>)
    ensures
        pairs_view(r@) == disposition_params(value@),
{
    let ps = split_char_exec(&chars_of(value), ';');
    let ghost rest = pieces(ps@).skip(1);
    let mut out: Vec<(String, String)> = Vec::new();
    let mut i: usize = 1;
    proof {
        assert(rest.take(0) =~= Seq::<Seq<char>>::empty());
    }
    while i < ps.len()
        invariant
            1 <= i,
            i <= ps@.len() || ps@.len() == 0,
            rest == pieces(ps@).skip(1),
            pairs_view(out@) == disposition_pairs(rest.take(i - 1)),
        decreases ps@.len() - i,
    {
        let ghost t = rest.take(i as int);
        proof {
            assert(t.drop_last() =~= rest.take(i - 1));
            assert(t.last() == ps@[i as int]@);
        }
        let piece = trim_vec(&ps[i]);
        match split_once_exec(&piece, '=') {
            None => {},
            Some((name, raw)) => {
                let key = lower_vec(&trim_vec(&name));
                if key.len() > 0 {
                    let ghost before = out@;
                    out.push((string_of(&key), string_of(&trim_quotes_exec(&trim_vec(&raw)))));
                    proof {
                        assert(pairs_view(out@) =~= pairs_view(before).push((key@, trim_quotes(trim(raw@)))));
                    }
                }
            },
        }
        i = i + 1;
    }
    proof {
        if ps@.len() > 0 {
            assert(rest.take(ps@.len() - 1) =~= rest);
        }
    }
    out
}

// ---------------------------------------------------------------------------
// Part bodies
// ---------------------------------------------------------------------------

/// A part's data without one trailing `\r\n` or `\n`.
pub open spec fn trim_part_newline(d: Seq<u8>) -> Seq<u8> {
    if d.len() >= 2 && d[d.len() - 2] == 13 && d.last() == 10 {
        d.take(d.len() - 2)
    } else if d.len() >= 1 && d.last() == 10 {
        d.take(d.len() - 1)
    } else {
        d
    }
}

/// A part's data without one trailing line break.
pub fn trim_part_trailing_newline(data: &[u8]) -> (r: &[u8])
    ensures
        r@ == trim_part_newline(data@),
{
    let n = data.len();
    if n >= 2 && data[n - 2] == 13 && data[n - 1] == 10 {
        let r = slice_subrange(data, 0, n - 2);
        proof {
            assert(r@ =~= data@.take(n - 2));
        }
        r
    } else if n >= 1 && data[n - 1] == 10 {
        let r = slice_subrange(data, 0, n - 1);
        proof {
            assert(r@ =~= data@.take(n - 1));
        }
        r
    } else {
        data
    }
}

// ---------------------------------------------------------------------------
// Images
// ---------------------------------------------------------------------------

/// `d` begins with the bytes `p`.
pub open spec fn bytes_start_with(d: Seq<u8>, p: Seq<u8>) -> bool {
    p.len() <= d.len() && d.take(p.len() as int) == p
}

/// The media type of an image: the declared one (trimmed) unless blank or
/// `application/octet-stream`; else the one its magic bytes name (PNG, JPEG,
/// WebP, GIF); else `application/octet-stream`.
pub open spec fn image_mime_type(data: Seq<u8>, declared: Seq<char>) -> Seq<char> {
    let d = trim(declared);
    if d.len() > 0 && d != "application/octet-stream"@ {
        d
    } else if bytes_start_with(data, seq![0x89u8, 0x50, 0x4e, 0x47, 0x0d, 0x0a, 0x1a, 0x0a]) {
        "image/png"@
    } else if bytes_start_with(data, seq![0xffu8, 0xd8, 0xff]) {
        "image/jpeg"@
    } else if bytes_start_with(data, seq![0x52u8, 0x49, 0x46, 0x46]) && data.len() >= 12
        && data.subrange(8, 12) == seq![0x57u8, 0x45, 0x42, 0x50] {
        "image/webp"@
    } else if bytes_start_with(data, seq![0x47u8, 0x49, 0x46, 0x38, 0x37, 0x61]) || bytes_start_with(
        data,
        seq![0x47u8, 0x49, 0x46, 0x38, 0x39, 0x61],
    ) {
        "image/gif"@
    } else {
        "application/octet-stream"@
    }
}

fn starts_with_bytes(d: &[u8], p: &Vec<u8>) -> (r: bool)
    ensures
        r == bytes_start_with(d@, p@),
{
    if p.len() > d.len() {
        return false;
    }
    let r = bytes_match_at(d, p.as_slice(), 0);
    proof {
        assert(d@.subrange(0, p@.len() as int) =~= d@.take(p@.len() as int));
    }
    r
}

/// The media type of an image, declared or read from its magic bytes.
pub fn detect_image_mime_type(data: &[u8], fallback: &str) -> (r: String)
    ensures
        r@ == image_mime_type(data@, fallback@),
{
    let d = trim_vec(&chars_of(fallback));
    if d.len() > 0 && !crate::text::seq_eq(&d, &chars_of("application/octet-stream")) {
        return string_of(&d);
    }
    let png: Vec<u8> = vec![0x89u8, 0x50, 0x4e, 0x47, 0x0d, 0x0a, 0x1a, 0x0a];
    let jpeg: Vec<u8> = vec![0xffu8, 0xd8, 0xff];
    let riff: Vec<u8> = vec![0x52u8, 0x49, 0x46, 0x46];
    let webp: Vec<u8> = vec![0x57u8, 0x45, 0x42, 0x50];
    let gif87: Vec<u8> = vec![0x47u8, 0x49, 0x46, 0x38, 0x37, 0x61];
    let gif89: Vec<u8> = vec![0x47u8, 0x49, 0x46, 0x38, 0x39, 0x61];
    proof {
        assert(png@ =~= seq![0x89u8, 0x50, 0x4e, 0x47, 0x0d, 0x0a, 0x1a, 0x0a]);
        assert(jpeg@ =~= seq![0xffu8, 0xd8, 0xff]);
        assert(riff@ =~= seq![0x52u8, 0x49, 0x46, 0x46]);
        assert(webp@ =~= seq![0x57u8, 0x45, 0x42, 0x50]);
        assert(gif87@ =~= seq![0x47u8, 0x49, 0x46, 0x38, 0x37, 0x61]);
        assert(gif89@ =~= seq![0x47u8, 0x49, 0x46, 0x38, 0x39, 0x61]);
    }
    let is_webp = if data.len() >= 12 && starts_with_bytes(data, &riff) {
        bytes_match_at(data, webp.as_slice(), 8)
    } else {
        false
    };
    if starts_with_bytes(data, &png) {
        lit("image/png")
    } else if starts_with_bytes(data, &jpeg) {
        lit("image/jpeg")
    } else if is_webp {
        lit("image/webp")
    } else if starts_with_bytes(data, &gif87) || starts_with_bytes(data, &gif89) {
        lit("image/gif")
    } else {
        lit("application/octet-stream")
    }
}


// ---------------------------------------------------------------------------
// Parts
// ---------------------------------------------------------------------------

/// Position `p` moved past one line break (`\r\n` or `\n`) that starts there.
pub open spec fn skip_line_break(b: Seq<u8>, p: int) -> int {
    if p + 2 <= b.len() && b[p] == 13 && b[p + 1] == 10 {
        p + 2
    } else if p + 1 <= b.len() && b[p] == 10 {
        p + 1
    } else {
        p
    }
}

/// The parts of a body from position `s` on, for a non-empty marker: after
/// each marker (unless `--` follows it, which ends the body) and one line
/// break, the bytes up to the next marker, without their trailing line break.
pub open spec fn raw_parts(b: Seq<u8>, m: Seq<u8>, s: int) -> Seq<Seq<u8>>
    decreases b.len() - s,
{
    if m.len() == 0 || s < 0 {
        Seq::empty()
    } else {
        match find_from(b, m, s) {
            None => Seq::empty(),
            Some(ms) => {
                let ps = ms + m.len();
                if ps + 2 <= b.len() && b[ps] == 45 && b[ps + 1] == 45 {
                    Seq::empty()
                } else {
                    let ps2 = skip_line_break(b, ps);
                    match find_from(b, m, ps2) {
                        None => Seq::empty(),
                        Some(nm) => {
                            proof {
                                lemma_find_from(b, m, s);
                                lemma_find_from(b, m, ps2);
                            }
                            seq![trim_part_newline(b.subrange(ps2, nm))] + raw_parts(b, m, nm)
                        },
                    }
                }
            },
        }
    }
}

/// A parameter's value, or empty text.
pub open spec fn param_text(ps: Seq<(Seq<char>, Seq<char>)>, key: Seq<char>) -> Seq<char> {
    match pair_lookup(ps, key) {
        Some(v) => v,
        None => Seq::empty(),
    }
}

/// What a part's header lines say: its field name and file name (from
/// `Content-Disposition`) and its content type (trimmed), the last such
/// header winning; empty where nothing says.
pub open spec fn header_state(lines: Seq<Seq<char>>) -> (Seq<char>, Seq<char>, Seq<char>)
    decreases lines.len(),
{
    if lines.len() == 0 {
        (Seq::empty(), Seq::empty(), Seq::empty())
    } else {
        let prev = header_state(lines.drop_last());
        match split_once(lines.last(), ':') {
            None => prev,
            Some((name, value)) => if eq_ignore_case(trim(name), "content-disposition"@) {
                let ps = disposition_params(value);
                (param_text(ps, "name"@), param_text(ps, "filename"@), prev.2)
            } else if eq_ignore_case(trim(name), "content-type"@) {
                (prev.0, prev.1, trim(value))
            } else {
                prev
            },
        }
    }
}

/// A form: the fields in the order they were set, and the files.
pub type FormView = (Seq<(Seq<char>, Seq<char>)>, Seq<(Seq<char>, Seq<char>, Seq<u8>)>);

/// The four bytes that end a part's head.
pub open spec fn blank_line() -> Seq<u8> {
    seq![13u8, 10, 13, 10]
}

/// A form with one more part read: a part without a head, or whose head
/// names no field, adds nothing; one without a file name sets a field to its
/// trimmed text; one with a file name adds a file.
pub open spec fn add_part(form: FormView, part: Seq<u8>) -> FormView {
    match find_from(part, blank_line(), 0) {
        None => form,
        Some(h) => {
            let e = h + 4;
            let head = header_state(crate::split::lines_of(crate::text::utf8_lossy(part.take(e))));
            let data = part.skip(e);
            if head.0.len() == 0 {
                form
            } else if head.1.len() == 0 {
                (form.0.push((head.0, trim(crate::text::utf8_lossy(data)))), form.1)
            } else {
                (form.0, form.1.push((head.0, head.2, data)))
            }
        },
    }
}

/// The form that a list of parts makes.
pub open spec fn form_of(parts: Seq<Seq<u8>>) -> FormView
    decreases parts.len(),
{
    if parts.len() == 0 {
        (Seq::empty(), Seq::empty())
    } else {
        add_part(form_of(parts.drop_last()), parts.last())
    }
}

/// The marker between parts: `--` and the boundary, as UTF-8.
pub open spec fn marker_of(boundary: Seq<char>) -> Seq<u8> {
    vstd::utf8::encode_utf8("--"@ + boundary)
}

/// A `multipart/form-data` body read as a form, or the error for a content
/// type without a boundary.
pub open spec fn multipart_form(content_type: Seq<char>, body: Seq<u8>) -> Result<FormView, Seq<char>> {
    match multipart_boundary(content_type) {
        None => Err("multipart/form-data 缺少 boundary"@),
        Some(b) => Ok(form_of(raw_parts(body, marker_of(b), 0))),
    }
}

/// A file part of a form.
#[derive(Debug)]
pub struct MultipartFilePart {
    pub name: String,
    pub content_type: String,
    pub data: Vec<u8>,
}

/// A form: its fields in the order they were set (the last setting of a name
/// wins on lookup), and its files.
#[derive(Debug)]
pub struct MultipartFormData {
    pub fields: Vec<(String, String)>,
    pub files: Vec<MultipartFilePart>,
}

pub open spec fn file_view(f: MultipartFilePart) -> (Seq<char>, Seq<char>, Seq<u8>) {
    (f.name@, f.content_type@, f.data@)
}

pub open spec fn files_view(v: Seq<MultipartFilePart>) -> Seq<(Seq<char>, Seq<char>, Seq<u8>)> {
    v.map_values(|f: MultipartFilePart| file_view(f))
}

pub open spec fn form_view(f: MultipartFormData) -> FormView {
    (pairs_view(f.fields@), files_view(f.files@))
}

fn param_text_exec(ps: &Vec<(String, String)>, key: &str) -> (r: Vec<char>)
    ensures
        r@ == param_text(pairs_view(ps@), key@),
{
    match lookup_pair(ps, key) {
        Some(v) => chars_of(v.as_str()),
        None => Vec::new(),
    }
}

fn part_head(header_text: &str) -> (r: (Vec<char>, Vec<char>, Vec<char>))
    ensures
        (r.0@, r.1@, r.2@) == header_state(crate::split::lines_of(header_text@)),
{
    let ls = crate::split::lines_exec(&chars_of(header_text));
    let ghost all = pieces(ls@);
    let mut name: Vec<char> = Vec::new();
    let mut filename: Vec<char> = Vec::new();
    let mut ctype: Vec<char> = Vec::new();
    let mut i: usize = 0;
    proof {
        assert(all.take(0) =~= Seq::<Seq<char>>::empty());
    }
    while i < ls.len()
        invariant
            i <= ls@.len(),
            all == pieces(ls@),
            (name@, filename@, ctype@) == header_state(all.take(i as int)),
        decreases ls@.len() - i,
    {
        let ghost t = all.take(i as int + 1);
        proof {
            assert(t.drop_last() =~= all.take(i as int));
            assert(t.last() == ls@[i as int]@);
        }
        match split_once_exec(&ls[i], ':') {
            None => {},
            Some((n, value)) => {
                let tn = trim_vec(&n);
                if eq_ignore_case_exec(&tn, &chars_of("content-disposition")) {
                    let ps = parse_content_disposition_params(string_of(&value).as_str());
                    name = param_text_exec(&ps, "name");
                    filename = param_text_exec(&ps, "filename");
                } else if eq_ignore_case_exec(&tn, &chars_of("content-type")) {
                    ctype = trim_vec(&value);
                }
            },
        }
        i = i + 1;
    }
    proof {
        assert(all.take(ls@.len() as int) =~= all);
    }
    (name, filename, ctype)
}

fn add_part_exec(form: &mut MultipartFormData, part: &[u8])
    ensures
        form_view(*final(form)) == add_part(form_view(*old(form)), part@),
{
    let blank: Vec<u8> = vec![13u8, 10, 13, 10];
    proof {
        assert(blank@ =~= blank_line());
    }
    match find_subslice_from(part, blank.as_slice(), 0) {
        None => {},
        Some(h) => {
            proof {
                lemma_find_from(part@, blank@, 0);
            }
            let pl: usize = part.len();
            assert(h + 4 <= pl);
            let e = h + 4;
            let head_bytes = slice_subrange(part, 0, e);
            proof {
                assert(head_bytes@ =~= part@.take(e as int));
            }
            let head_text = crate::text::decode_utf8_lossy(head_bytes);
            let (name, filename, ctype) = part_head(head_text.as_str());
            let data = slice_subrange(part, e, part.len());
            proof {
                assert(data@ =~= part@.skip(e as int));
            }
            if name.len() == 0 {
                return;
            }
            let ghost before = *form;
            if filename.len() == 0 {
                let text = trim_vec(&chars_of(crate::text::decode_utf8_lossy(data).as_str()));
                form.fields.push((string_of(&name), string_of(&text)));
                proof {
                    assert(pairs_view(form.fields@) =~= pairs_view(before.fields@).push((name@, text@)));
                }
            } else {
                let file = MultipartFilePart {
                    name: string_of(&name),
                    content_type: string_of(&ctype),
                    data: vstd::slice::slice_to_vec(data),
                };
                form.files.push(file);
                proof {
                    assert(files_view(form.files@) =~= files_view(before.files@).push((name@, ctype@, data@)));
                }
            }
        },
    }
}

/// Reads a `multipart/form-data` body: the parts between the markers that
/// the content type's boundary makes, each adding a field or a file.
pub fn parse_multipart_form_data(content_type: &str, body: &[u8]) -> (r: Result<MultipartFormData, String>)
    ensures
        match multipart_form(content_type@, body@) {
            Ok(f) => r matches Ok(x) && form_view(x) == f,
            Err(e) => r matches Err(s) && s@ == e,
        },
{
    let boundary = match extract_multipart_boundary(content_type) {
        Some(b) => b,
        None => return Err(lit("multipart/form-data 缺少 boundary")),
    };
    let marker_text = crate::text::concat_str("--", boundary.as_str());
    let marker: &[u8] = marker_text.as_str().as_bytes();
    proof {
        reveal_strlit("--");
        assert(marker_text@.len() > 0);
        assert(marker@ == marker_of(boundary@));
        assert(vstd::utf8::encode_utf8(marker_text@) == vstd::utf8::encode_scalar(
            marker_text@[0] as u32,
        ) + vstd::utf8::encode_utf8(marker_text@.drop_first()));
        assert(marker@.len() > 0);
    }
    let mut form = MultipartFormData { fields: Vec::new(), files: Vec::new() };
    let ghost b = body@;
    let ghost m = marker@;
    let ghost mut done: Seq<Seq<u8>> = Seq::empty();
    let mut search_from: usize = 0;
    let bl: usize = body.len();
    proof {
        assert(raw_parts(b, m, 0) =~= done + raw_parts(b, m, 0));
        assert(form_view(form) =~= form_of(done));
    }
    loop
        invariant
            search_from <= body@.len(),
            bl as int == body@.len(),
            b == body@,
            multipart_form(content_type@, body@) == Ok::<FormView, Seq<char>>(form_of(raw_parts(b, m, 0))),
            m == marker@,
            m.len() > 0,
            raw_parts(b, m, 0) == done + raw_parts(b, m, search_from as int),
            form_view(form) == form_of(done),
        decreases body@.len() - search_from,
    {
        let ms = match find_subslice_from(body, marker, search_from) {
            Some(k) => k,
            None => {
                proof {
                    assert(raw_parts(b, m, 0) =~= done);
                }
                return Ok(form);
            },
        };
        proof {
            lemma_find_from(b, m, search_from as int);
        }
        let mut ps: usize = ms + marker.len();
        if body.len() - ps >= 2 && body[ps] == 45 && body[ps + 1] == 45 {
            proof {
                assert(raw_parts(b, m, 0) =~= done);
            }
            return Ok(form);
        }
        if body.len() - ps >= 2 && body[ps] == 13 && body[ps + 1] == 10 {
            ps = ps + 2;
        } else if body.len() - ps >= 1 && body[ps] == 10 {
            ps = ps + 1;
        }
        proof {
            assert(ps as int == skip_line_break(b, ms + m.len()));
        }
        let nm = match find_subslice_from(body, marker, ps) {
            Some(k) => k,
            None => {
                proof {
                    assert(raw_parts(b, m, 0) =~= done);
                }
                return Ok(form);
            },
        };
        proof {
            lemma_find_from(b, m, ps as int);
        }
        let part = trim_part_trailing_newline(slice_subrange(body, ps, nm));
        proof {
            assert(raw_parts(b, m, search_from as int) == seq![part@] + raw_parts(b, m, nm as int));
            assert(done.push(part@).drop_last() =~= done);
            assert(raw_parts(b, m, 0) =~= done.push(part@) + raw_parts(b, m, nm as int));
            done = done.push(part@);
        }
        add_part_exec(&mut form, part);
        search_from = nm;
    }
}


// ---------------------------------------------------------------------------
// Fields
// ---------------------------------------------------------------------------

/// A field's value, trimmed, unless it is missing or blank.
pub open spec fn field_value(fields: Seq<(Seq<char>, Seq<char>)>, key: Seq<char>) -> Option<Seq<char>> {
    match pair_lookup(fields, key) {
        Some(v) => if trim(v).len() > 0 {
            Some(trim(v))
        } else {
            None
        },
        None => None,
    }
}

/// A field's value, trimmed, unless it is missing or blank.
pub fn multipart_field_value(form: &MultipartFormData, key: &str) -> (r: Option<String>)
    ensures
        match r {
            Some(v) => field_value(form_view(*form).0, key@) == Some(v@),
            None => field_value(form_view(*form).0, key@) is None,
        },
{
    match lookup_pair(&form.fields, key) {
        Some(v) => {
            let t = trim_vec(&chars_of(v.as_str()));
            if t.len() > 0 {
                Some(string_of(&t))
            } else {
                None
            }
        },
        None => None,
    }
}

/// A field read as a switch: `1`, `true`, `yes` or `on` (in any case) turn
/// it on, `0`, `false`, `no` or `off` turn it off, anything else leaves the
/// fallback.
pub open spec fn field_flag(fields: Seq<(Seq<char>, Seq<char>)>, key: Seq<char>, fallback: bool) -> bool {
    let v = lower(
        match field_value(fields, key) {
            Some(v) => v,
            None => Seq::empty(),
        },
    );
    if v == "1"@ || v == "true"@ || v == "yes"@ || v == "on"@ {
        true
    } else if v == "0"@ || v == "false"@ || v == "no"@ || v == "off"@ {
        false
    } else {
        fallback
    }
}

fn is_word(v: &Vec<char>, w: &str) -> (r: bool)
    ensures
        r == (v@ == w@),
{
    crate::text::seq_eq(v, &chars_of(w))
}

/// A field read as a switch.
pub fn multipart_field_bool(form: &MultipartFormData, key: &str, fallback: bool) -> (r: bool)
    ensures
        r == field_flag(form_view(*form).0, key@, fallback),
{
    let v = match multipart_field_value(form, key) {
        Some(v) => lower_vec(&chars_of(v.as_str())),
        None => {
            proof {
                assert(lower(Seq::<char>::empty()) =~= Seq::<char>::empty());
            }
            Vec::new()
        },
    };
    if is_word(&v, "1") || is_word(&v, "true") || is_word(&v, "yes") || is_word(&v, "on") {
        true
    } else if is_word(&v, "0") || is_word(&v, "false") || is_word(&v, "no") || is_word(&v, "off") {
        false
    } else {
        fallback
    }
}

/// How `str::parse::<i64>` reads text: an optional `+` or `-`, then decimal
/// digits whose signed value fits in `i64`.
pub open spec fn i64_text(s: Seq<char>) -> Option<i64> {
    let digits = if s.len() > 0 && (s[0] == '+' || s[0] == '-') {
        s.skip(1)
    } else {
        s
    };
    let value = if s.len() > 0 && s[0] == '-' {
        -decimal_value(digits)
    } else {
        decimal_value(digits)
    };
    if digits.len() == 0 || !all_digits(digits) || value < i64::MIN || value > i64::MAX {
        None
    } else {
        Some(value as i64)
    }
}

/// Reads a signed 64-bit integer from text.
pub fn parse_i64(v: &Vec<char>) -> (r: Option<i64>)
    ensures
        r == i64_text(v@),
{
    if v.len() == 0 {
        return None;
    }
    let negative = v[0] == '-';
    let digits = if v[0] == '+' || v[0] == '-' {
        sub_vec(v, 1, v.len())
    } else {
        sub_vec(v, 0, v.len())
    };
    proof {
        if v@[0] == '+' || v@[0] == '-' {
            assert(digits@ =~= v@.skip(1));
        } else {
            assert(digits@ =~= v@);
        }
    }
    if digits.len() == 0 || !all_digits_exec(&digits) {
        return None;
    }
    proof {
        crate::text::lemma_decimal_nonneg(digits@);
    }
    if negative {
        match parse_decimal(&digits, 9223372036854775808u64) {
            Some(x) => if x == 9223372036854775808u64 {
                Some(i64::MIN)
            } else {
                Some(-(x as i64))
            },
            None => None,
        }
    } else {
        match parse_decimal(&digits, 9223372036854775807u64) {
            Some(x) => Some(x as i64),
            None => None,
        }
    }
}

/// A field read as a whole number, as a JSON number.
pub open spec fn field_number(fields: Seq<(Seq<char>, Seq<char>)>, key: Seq<char>) -> Option<JsonView> {
    match field_value(fields, key) {
        Some(v) => match i64_text(v) {
            Some(i) => Some(i64_number(i)),
            None => None,
        },
        None => None,
    }
}

/// A field read as a whole number, as a JSON number.
pub fn multipart_field_number(form: &MultipartFormData, key: &str) -> (r: Option<JsonValue>)
    ensures
        match r {
            Some(n) => field_number(form_view(*form).0, key@) == Some(json_view(n)),
            None => field_number(form_view(*form).0, key@) is None,
        },
{
    match multipart_field_value(form, key) {
        Some(v) => match parse_i64(&chars_of(v.as_str())) {
            Some(i) => Some(i64_value(i)),
            None => None,
        },
        None => None,
    }
}

// ---------------------------------------------------------------------------
// The Images API edit request
// ---------------------------------------------------------------------------

/// A file as a `data:` URL: its media type and its standard base64 encoding.
pub open spec fn data_url(file: (Seq<char>, Seq<char>, Seq<u8>)) -> Seq<char> {
    "data:"@ + image_mime_type(file.2, file.1) + ";base64,"@ + base64_standard(file.2)
}

/// A file part as a `data:` URL.
pub fn multipart_file_to_data_url(file: &MultipartFilePart) -> (r: String)
    ensures
        r@ == data_url(file_view(*file)),
{
    let mime = detect_image_mime_type(file.data.as_slice(), file.content_type.as_str());
    let encoded = base64_standard_encode(file.data.as_slice());
    let a = crate::text::concat_str("data:", mime.as_str());
    let b = crate::text::concat_str(a.as_str(), ";base64,");
    crate::text::concat_str(b.as_str(), encoded.as_str())
}

/// The files sent as the images to edit: those named `image` or `image[]`,
/// in order.
pub open spec fn image_files(files: Seq<(Seq<char>, Seq<char>, Seq<u8>)>) -> Seq<(Seq<char>, Seq<char>, Seq<u8>)>
    decreases files.len(),
{
    if files.len() == 0 {
        Seq::empty()
    } else {
        let before = image_files(files.drop_last());
        if files.last().0 == "image"@ || files.last().0 == "image[]"@ {
            before.push(files.last())
        } else {
            before
        }
    }
}

/// The first file with the given name.
pub open spec fn first_named(files: Seq<(Seq<char>, Seq<char>, Seq<u8>)>, name: Seq<char>) -> Option<
    (Seq<char>, Seq<char>, Seq<u8>),
>
    decreases files.len(),
{
    if files.len() == 0 {
        None
    } else if files[0].0 == name {
        Some(files[0])
    } else {
        first_named(files.drop_first(), name)
    }
}

/// An object with a field's trimmed value set under its name, when it has one.
pub open spec fn with_form_text(
    o: Seq<(Seq<char>, JsonView)>,
    fields: Seq<(Seq<char>, Seq<char>)>,
    key: Seq<char>,
) -> Seq<(Seq<char>, JsonView)> {
    match field_value(fields, key) {
        Some(v) => view_set(o, key, JsonView::Str(v)),
        None => o,
    }
}

/// An object with a field's number set under its name, when it is one.
pub open spec fn with_form_number(
    o: Seq<(Seq<char>, JsonView)>,
    fields: Seq<(Seq<char>, Seq<char>)>,
    key: Seq<char>,
) -> Seq<(Seq<char>, JsonView)> {
    match field_number(fields, key) {
        Some(n) => view_set(o, key, n),
        None => o,
    }
}

/// The options of a form edit as a request object: the model (the gateway's
/// image model when none is given), the text options, and the numeric ones.
pub open spec fn edit_request_object(fields: Seq<(Seq<char>, Seq<char>)>) -> Seq<(Seq<char>, JsonView)> {
    let model = match field_value(fields, "model"@) {
        Some(m) => m,
        None => image_model_id(),
    };
    let o0 = seq![("model"@, JsonView::Str(model))];
    let o1 = with_form_text(o0, fields, "size"@);
    let o2 = with_form_text(o1, fields, "quality"@);
    let o3 = with_form_text(o2, fields, "background"@);
    let o4 = with_form_text(o3, fields, "output_format"@);
    let o5 = with_form_text(o4, fields, "input_fidelity"@);
    let o6 = with_form_text(o5, fields, "moderation"@);
    let o7 = with_form_number(o6, fields, "output_compression"@);
    with_form_number(o7, fields, "partial_images"@)
}

/// An Images API edit request sent as a form, as a Responses request: the
/// prompt, the image files as `data:` URLs, the tool built from the form's
/// options, with the mask file (the first named `mask`) as its
/// `input_image_mask`.
pub open spec fn images_edit_multipart(content_type: Seq<char>, body: Seq<u8>) -> Result<ImagesRequest, Seq<char>> {
    match multipart_form(content_type, body) {
        Err(e) => Err(e),
        Ok(form) => match field_value(form.0, "prompt"@) {
            None => Err("images/edits 请求缺少 prompt"@),
            Some(prompt) => if image_files(form.1).len() == 0 {
                Err("images/edits 请求缺少 image"@)
            } else {
                match image_tool_for(edit_request_object(form.0), "edit"@, true) {
                    Err(e) => Err(e),
                    Ok(tool) => {
                        let tool2 = match (first_named(form.1, "mask"@), tool) {
                            (Some(mask), JsonView::Object(t)) => JsonView::Object(
                                view_set(
                                    t,
                                    "input_image_mask"@,
                                    JsonView::Object(seq![("image_url"@, JsonView::Str(data_url(mask)))]),
                                ),
                            ),
                            _ => tool,
                        };
                        let format = match field_value(form.0, "response_format"@) {
                            Some(v) => v,
                            None => "b64_json"@,
                        };
                        Ok(
                            (
                                images_responses_view(
                                    prompt,
                                    image_files(form.1).map_values(|f: (Seq<char>, Seq<char>, Seq<u8>)| data_url(f)),
                                    tool2,
                                ),
                                field_flag(form.0, "stream"@, false),
                                lower(format),
                            ),
                        )
                    },
                }
            },
        },
    }
}

fn set_form_text(o: &mut Vec<(String, JsonValue)>, form: &MultipartFormData, key: &str)
    ensures
        entries_view(final(o)@) == with_form_text(entries_view(old(o)@), form_view(*form).0, key@),
{
    match multipart_field_value(form, key) {
        Some(v) => set_member(o, key, JsonValue::String(v)),
        None => {},
    }
}

fn set_form_number(o: &mut Vec<(String, JsonValue)>, form: &MultipartFormData, key: &str)
    ensures
        entries_view(final(o)@) == with_form_number(entries_view(old(o)@), form_view(*form).0, key@),
{
    match multipart_field_number(form, key) {
        Some(n) => set_member(o, key, n),
        None => {},
    }
}

fn image_data_urls(files: &Vec<MultipartFilePart>) -> (r: Vec<String>)
    ensures
        crate::text::texts(r@) == image_files(files_view(files@)).map_values(
            |f: (Seq<char>, Seq<char>, Seq<u8>)| data_url(f),
        ),
{
    let ghost fv = files_view(files@);
    let mut out: Vec<String> = Vec::new();
    let mut i: usize = 0;
    proof {
        assert(fv.take(0) =~= Seq::<(Seq<char>, Seq<char>, Seq<u8>)>::empty());
        assert(crate::text::texts(out@) =~= image_files(fv.take(0)).map_values(
            |f: (Seq<char>, Seq<char>, Seq<u8>)| data_url(f),
        ));
    }
    while i < files.len()
        invariant
            i <= files@.len(),
            fv == files_view(files@),
            crate::text::texts(out@) == image_files(fv.take(i as int)).map_values(
                |f: (Seq<char>, Seq<char>, Seq<u8>)| data_url(f),
            ),
        decreases files@.len() - i,
    {
        let ghost t = fv.take(i as int + 1);
        proof {
            assert(t.drop_last() =~= fv.take(i as int));
            assert(t.last() == file_view(files@[i as int]));
        }
        let name = chars_of(files[i].name.as_str());
        if is_word(&name, "image") || is_word(&name, "image[]") {
            let ghost before = out@;
            let url = multipart_file_to_data_url(&files[i]);
            out.push(url);
            proof {
                let prev = image_files(fv.take(i as int));
                assert(image_files(t) == prev.push(t.last()));
                assert(crate::text::texts(out@) =~= crate::text::texts(before).push(url@));
                assert(prev.push(t.last()).map_values(|f: (Seq<char>, Seq<char>, Seq<u8>)| data_url(f))
                    =~= prev.map_values(|f: (Seq<char>, Seq<char>, Seq<u8>)| data_url(f)).push(
                    data_url(t.last()),
                ));
            }
        }
        i = i + 1;
    }
    proof {
        assert(fv.take(files@.len() as int) =~= fv);
    }
    out
}

fn first_mask(files: &Vec<MultipartFilePart>) -> (r: Option<usize>)
    ensures
        match r {
            Some(k) => k < files@.len() && first_named(files_view(files@), "mask"@) == Some(
                file_view(files@[k as int]),
            ),
            None => first_named(files_view(files@), "mask"@) is None,
        },
{
    let ghost fv = files_view(files@);
    let mut i: usize = 0;
    proof {
        assert(fv.skip(0) =~= fv);
    }
    while i < files.len()
        invariant
            i <= files@.len(),
            fv == files_view(files@),
            first_named(fv, "mask"@) == first_named(fv.skip(i as int), "mask"@),
        decreases files@.len() - i,
    {
        proof {
            assert(fv.skip(i as int)[0] == file_view(files@[i as int]));
            assert(fv.skip(i as int).drop_first() =~= fv.skip(i as int + 1));
        }
        if is_word(&chars_of(files[i].name.as_str()), "mask") {
            return Some(i);
        }
        i = i + 1;
    }
    None
}

/// Translates an Images API edit request sent as `multipart/form-data`.
pub fn build_images_edit_request_from_multipart(content_type: &str, body: &[u8]) -> (r: Result<
    (JsonValue, bool, String),
    String,
>)
    ensures
        match images_edit_multipart(content_type@, body@) {
            Ok((v, stream, format)) => r matches Ok(t) && json_view(t.0) == v && t.1 == stream && t.2@ == format,
            Err(e) => r matches Err(s) && s@ == e,
        },
{
    let form = match parse_multipart_form_data(content_type, body) {
        Ok(f) => f,
        Err(e) => return Err(e),
    };
    let ghost fv = form_view(form);
    let prompt = match multipart_field_value(&form, "prompt") {
        Some(p) => p,
        None => return Err(lit("images/edits 请求缺少 prompt")),
    };
    let images = image_data_urls(&form.files);
    if images.len() == 0 {
        proof {
            assert(crate::text::texts(images@).len() == 0);
        }
        return Err(lit("images/edits 请求缺少 image"));
    }
    let model = match multipart_field_value(&form, "model") {
        Some(m) => m,
        None => lit("gpt-image-2"),
    };
    let mut request_obj: Vec<(String, JsonValue)> = Vec::new();
    push_entry(&mut request_obj, "model", JsonValue::String(model));
    proof {
        assert(entries_view(request_obj@) =~= seq![(
            "model"@,
            JsonView::Str(
                match field_value(fv.0, "model"@) {
                    Some(m) => m,
                    None => image_model_id(),
                },
            ),
        )]);
    }
    set_form_text(&mut request_obj, &form, "size");
    set_form_text(&mut request_obj, &form, "quality");
    set_form_text(&mut request_obj, &form, "background");
    set_form_text(&mut request_obj, &form, "output_format");
    set_form_text(&mut request_obj, &form, "input_fidelity");
    set_form_text(&mut request_obj, &form, "moderation");
    set_form_number(&mut request_obj, &form, "output_compression");
    set_form_number(&mut request_obj, &form, "partial_images");
    let format = match multipart_field_value(&form, "response_format") {
        Some(v) => lower_vec(&chars_of(v.as_str())),
        None => lower_vec(&chars_of("b64_json")),
    };
    let stream = multipart_field_bool(&form, "stream", false);
    let tool = match build_image_generation_tool(&request_obj, "edit", true) {
        Ok(t) => t,
        Err(e) => return Err(e),
    };
    let tool = match (first_mask(&form.files), tool) {
        (Some(k), JsonValue::Object(mut t)) => {
            let url = multipart_file_to_data_url(&form.files[k]);
            let mut mask_obj: Vec<(String, JsonValue)> = Vec::new();
            push_entry(&mut mask_obj, "image_url", JsonValue::String(url));
            proof {
                assert(entries_view(mask_obj@) =~= seq![("image_url"@, JsonView::Str(url@))]);
            }
            set_member(&mut t, "input_image_mask", JsonValue::Object(mask_obj));
            JsonValue::Object(t)
        },
        (_, t) => t,
    };
    Ok((build_images_responses_body(prompt.as_str(), &images, tool), stream, string_of(&format)))
}

} // verus!
