//! Firefox web-session profiles for Codex accounts: the account key that names
//! a profile, the mapping records, the status of a profile and the detection of
//! a Firefox process that runs it.
//!
//! Reading and writing the mapping file, resolving paths against the file
//! system and listing processes happen outside this module; what they yield is
//! handed in as plain values.
use vstd::prelude::*;
use vstd::utf8::encode_utf8;
use vstd::utf8::is_ascii_chars;
use crate::digest::{sha256, sha256_bytes, hex_encode, hex_lower, is_hex_byte, is_lower_hex_char, lemma_hex_lower_shape};
use crate::text::{trim, lower, trim_str, lower_vec, chars_of, string_of, str_eq, seq_eq, copy_string, lit, concat_str, sub_vec};
use crate::windows::{text_le, text_le_exec};

verus! {

broadcast use vstd::string::group_string_axioms;

/// The Codex web entry page opened in a profile.
pub fn codex_web_url() -> (r: &'static str)
    ensures
        r@ == "https://chatgpt.com/codex"@,
{
    "https://chatgpt.com/codex"
}

/// The mailbox page used to receive verification mails.
pub fn verification_mailbox_url() -> (r: &'static str)
    ensures
        r@ == "https://chongzhi.art/mailbox"@,
{
    "https://chongzhi.art/mailbox"
}

// ---------------------------------------------------------------------------
// Account keys
// ---------------------------------------------------------------------------

/// The key of an account's profile: lowercase hexadecimal SHA-256 of the UTF-8
/// bytes of the trimmed account id.
pub open spec fn account_key_of(account_id: Seq<char>) -> Seq<char> {
    hex_lower(sha256(encode_utf8(trim(account_id))))
}

/// A well-formed account key: 64 ASCII hexadecimal digits.
pub open spec fn valid_account_key_bytes(b: Seq<u8>) -> bool {
    b.len() == 64 && forall|i: int| 0 <= i < b.len() ==> is_hex_byte(#[trigger] b[i])
}

proof fn lemma_lower_hex_text_is_valid_key(key: Seq<char>)
    requires
        key.len() == 64,
        forall|i: int| 0 <= i < key.len() ==> is_lower_hex_char(#[trigger] key[i]),
    ensures
        valid_account_key_bytes(encode_utf8(key)),
{
    assert(is_ascii_chars(key)) by {
        assert forall|i: int| 0 <= i < key.len() implies '\0' <= #[trigger] key[i] <= '\u{7f}' by {
            assert(is_lower_hex_char(key[i]));
        }
    }
    vstd::utf8::is_ascii_chars_encode_utf8(key);
    let b = encode_utf8(key);
    assert forall|i: int| 0 <= i < b.len() implies is_hex_byte(#[trigger] b[i]) by {
        assert(key[i] as u8 == b[i]);
        assert(is_lower_hex_char(key[i]));
    }
}

/// The profile key of an account id. An id that is empty after trimming is
/// refused; any other gives a well-formed key.
pub fn profile_account_key(account_id: &str) -> (r: Result<String, String>)
    ensures
        r is Ok <==> trim(account_id@).len() > 0,
        r matches Ok(key) ==> key@ == account_key_of(account_id@) && valid_account_key_bytes(
            encode_utf8(key@),
        ),
        r matches Err(e) ==> e@ == "Codex 账号 ID 为空"@,
{
    let trimmed = trim_str(account_id);
    let tv = chars_of(trimmed.as_str());
    if tv.len() == 0 {
        return Err(lit("Codex 账号 ID 为空"));
    }
    let digest = sha256_bytes(trimmed.as_str().as_bytes());
    let key = hex_encode(&digest);
    proof {
        lemma_hex_lower_shape(digest@);
        lemma_lower_hex_text_is_valid_key(key@);
    }
    Ok(key)
}

/// Whether a text is a well-formed account key (64 hexadecimal digits).
pub fn valid_account_key(account_key: &str) -> (r: bool)
    ensures
        r == valid_account_key_bytes(encode_utf8(account_key@)),
{
    let b = account_key.as_bytes();
    if b.len() != 64 {
        return false;
    }
    let mut i: usize = 0;
    while i < b.len()
        invariant
            i <= b@.len() == 64,
            b@ == encode_utf8(account_key@),
            forall|k: int| 0 <= k < i ==> is_hex_byte(#[trigger] b@[k]),
        decreases b@.len() - i,
    {
        let c = b[i];
        if !((48 <= c && c <= 57) || (65 <= c && c <= 70) || (97 <= c && c <= 102)) {
            assert(!is_hex_byte(b@[i as int]));
            return false;
        }
        i = i + 1;
    }
    true
}

// ---------------------------------------------------------------------------
// Mapping records and status
// ---------------------------------------------------------------------------

/// One entry of the profile mapping.
#[derive(Debug, Clone)]
pub struct CodexWebProfileRecord {
    pub account_key: String,
    pub display_label: String,
    pub profile_path: String,
    pub created_at: i64,
    pub last_opened_at: Option<i64>,
}

/// Where a profile stands.
#[derive(Debug, Clone, Copy, PartialEq, Eq, Structural)]
pub enum CodexWebProfileState {
    NotCreated,
    Created,
    InUse,
}

/// The status of an account's profile.
#[derive(Debug, Clone)]
pub struct CodexWebProfileStatus {
    pub state: CodexWebProfileState,
    pub account_key: String,
    pub display_label: String,
    pub profile_path: String,
    pub created_at: Option<i64>,
    pub last_opened_at: Option<i64>,
}

/// Two records hold the same values.
pub open spec fn same_record(a: CodexWebProfileRecord, b: CodexWebProfileRecord) -> bool {
    &&& a.account_key@ == b.account_key@
    &&& a.display_label@ == b.display_label@
    &&& a.profile_path@ == b.profile_path@
    &&& a.created_at == b.created_at
    &&& a.last_opened_at == b.last_opened_at
}

/// Some record has the given key.
pub open spec fn has_record(profiles: Seq<CodexWebProfileRecord>, key: Seq<char>) -> bool {
    exists|i: int| 0 <= i < profiles.len() && #[trigger] profiles[i].account_key@ == key
}

/// `i` is the first record with the given key.
pub open spec fn is_first_record(profiles: Seq<CodexWebProfileRecord>, key: Seq<char>, i: int) -> bool {
    &&& 0 <= i < profiles.len()
    &&& profiles[i].account_key@ == key
    &&& forall|j: int| 0 <= j < i ==> #[trigger] profiles[j].account_key@ != key
}

fn copy_record(r: &CodexWebProfileRecord) -> (c: CodexWebProfileRecord)
    ensures
        same_record(c, *r),
{
    CodexWebProfileRecord {
        account_key: copy_string(&r.account_key),
        display_label: copy_string(&r.display_label),
        profile_path: copy_string(&r.profile_path),
        created_at: r.created_at,
        last_opened_at: r.last_opened_at,
    }
}

/// The first record with the given key, if any.
pub fn record_for(profiles: &Vec<CodexWebProfileRecord>, account_key: &str) -> (r: Option<
    CodexWebProfileRecord,
>)
    ensures
        r is None <==> !has_record(profiles@, account_key@),
        r matches Some(rec) ==> exists|i: int|
            is_first_record(profiles@, account_key@, i) && same_record(rec, #[trigger] profiles@[i]),
{
    let mut i: usize = 0;
    while i < profiles.len()
        invariant
            i <= profiles.len(),
            forall|j: int| 0 <= j < i ==> #[trigger] profiles@[j].account_key@ != account_key@,
        decreases profiles.len() - i,
    {
        if str_eq(profiles[i].account_key.as_str(), account_key) {
            let rec = copy_record(&profiles[i]);
            assert(is_first_record(profiles@, account_key@, i as int));
            return Some(rec);
        }
        i = i + 1;
    }
    None
}

/// The status of an account's profile, given the mapping records and the
/// result of probing the recorded profile (`in_use`, consulted only when a
/// record exists). A failed probe fails the status: a profile whose use cannot
/// be ruled out is never reported free.
pub fn get_status(
    account_id: &str,
    profiles: &Vec<CodexWebProfileRecord>,
    in_use: Result<bool, String>,
) -> (r: Result<CodexWebProfileStatus, String>)
    ensures
        trim(account_id@).len() == 0 ==> (r matches Err(e) && e@ == "Codex 账号 ID 为空"@),
        trim(account_id@).len() > 0 && !has_record(profiles@, account_key_of(account_id@)) ==> (
        r matches Ok(s) && s.state == CodexWebProfileState::NotCreated && s.account_key@
            == account_key_of(account_id@) && s.display_label@.len() == 0 && s.profile_path@.len()
            == 0 && s.created_at is None && s.last_opened_at is None),
        trim(account_id@).len() > 0 && has_record(profiles@, account_key_of(account_id@)) ==> (
        match in_use {
            Err(probe) => r matches Err(e) && e@ == probe@,
            Ok(busy) => r matches Ok(s) && s.state == (if busy {
                CodexWebProfileState::InUse
            } else {
                CodexWebProfileState::Created
            }) && s.account_key@ == account_key_of(account_id@) && exists|i: int|
                is_first_record(profiles@, account_key_of(account_id@), i) && #[trigger] profiles@[i].display_label@
                    == s.display_label@ && profiles@[i].profile_path@ == s.profile_path@
                    && s.created_at == Some(profiles@[i].created_at) && s.last_opened_at
                    == profiles@[i].last_opened_at,
        }),
{
    let account_key = match profile_account_key(account_id) {
        Ok(key) => key,
        Err(e) => return Err(e),
    };
    let record = record_for(profiles, account_key.as_str());
    match record {
        None => Ok(
            CodexWebProfileStatus {
                state: CodexWebProfileState::NotCreated,
                account_key,
                display_label: String::new(),
                profile_path: String::new(),
                created_at: None,
                last_opened_at: None,
            },
        ),
        Some(record) => {
            let busy = match in_use {
                Ok(b) => b,
                Err(e) => return Err(e),
            };
            let state = if busy {
                CodexWebProfileState::InUse
            } else {
                CodexWebProfileState::Created
            };
            Ok(
                CodexWebProfileStatus {
                    state,
                    account_key,
                    display_label: record.display_label,
                    profile_path: record.profile_path,
                    created_at: Some(record.created_at),
                    last_opened_at: record.last_opened_at,
                },
            )
        },
    }
}

// ---------------------------------------------------------------------------
// Firefox process detection
// ---------------------------------------------------------------------------

/// What is known of a running process.
#[derive(Debug, Clone)]
pub struct ProcessSnapshot {
    pub name: String,
    pub exe: Option<String>,
    pub cmd: Vec<String>,
}

/// Position of the last `/` in a text, or -1 when there is none.
pub open spec fn last_slash(s: Seq<char>) -> int
    decreases s.len(),
{
    if s.len() == 0 {
        -1
    } else if s.last() == '/' {
        s.len() - 1
    } else {
        last_slash(s.drop_last())
    }
}

pub proof fn lemma_last_slash_bounds(s: Seq<char>)
    ensures
        -1 <= last_slash(s) < s.len(),
        last_slash(s) >= 0 ==> s[last_slash(s)] == '/',
        forall|j: int| last_slash(s) < j < s.len() ==> s[j] != '/',
    decreases s.len(),
{
    if s.len() > 0 && s.last() != '/' {
        let t = s.drop_last();
        lemma_last_slash_bounds(t);
        assert forall|j: int| last_slash(s) < j < s.len() implies s[j] != '/' by {
            if j < s.len() - 1 {
                assert(s[j] == t[j]);
            }
        }
    }
}

/// The last component of a `/`-separated path, as `Path::file_name` reads it
/// on Unix: empty and `.` components are passed over, and a path that ends in
/// `..` (or has no component) has none.
pub open spec fn file_name(p: Seq<char>) -> Option<Seq<char>>
    decreases p.len(),
{
    let k = last_slash(p);
    let seg = p.subrange(k + 1, p.len() as int);
    if seg.len() == 0 || seg == seq!['.'] {
        if k < 0 {
            None
        } else {
            proof {
                lemma_last_slash_bounds(p);
            }
            file_name(p.subrange(0, k))
        }
    } else if seg == seq!['.', '.'] {
        None
    } else {
        Some(seg)
    }
}

fn last_slash_before(p: &Vec<char>, end: usize) -> (r: Option<usize>)
    requires
        end <= p.len(),
    ensures
        r matches Some(k) ==> k < end && last_slash(p@.subrange(0, end as int)) == k,
        r is None ==> last_slash(p@.subrange(0, end as int)) == -1,
{
    let mut i: usize = end;
    while i > 0
        invariant
            i <= end <= p.len(),
            last_slash(p@.subrange(0, end as int)) == last_slash(p@.subrange(0, i as int)),
        decreases i,
    {
        assert(p@.subrange(0, i as int).drop_last() =~= p@.subrange(0, i as int - 1));
        if p[i - 1] == '/' {
            return Some(i - 1);
        }
        i = i - 1;
    }
    None
}

/// The last component of a `/`-separated path (see `file_name`).
pub fn file_name_of(p: &str) -> (r: Option<String>)
    ensures
        match r {
            Some(n) => file_name(p@) == Some(n@),
            None => file_name(p@) is None,
        },
{
    let v = chars_of(p);
    let mut end: usize = v.len();
    proof {
        assert(v@.subrange(0, end as int) =~= v@);
    }
    loop
        invariant
            end <= v.len(),
            v@ == p@,
            file_name(v@) == file_name(v@.subrange(0, end as int)),
        decreases end,
    {
        let ghost cur = v@.subrange(0, end as int);
        let k = last_slash_before(&v, end);
        proof {
            lemma_last_slash_bounds(cur);
        }
        let start: usize = match k {
            Some(k) => k + 1,
            None => 0,
        };
        let mut seg: Vec<char> = Vec::new();
        let mut j: usize = start;
        while j < end
            invariant
                start <= j <= end <= v.len(),
                seg@ == v@.subrange(start as int, j as int),
            decreases end - j,
        {
            seg.push(v[j]);
            assert(v@.subrange(start as int, j as int + 1) =~= v@.subrange(start as int, j as int).push(v@[j as int]));
            j = j + 1;
        }
        proof {
            assert(seg@ =~= cur.subrange(last_slash(cur) + 1, cur.len() as int));
        }
        let is_dot = seg.len() == 1 && seg[0] == '.';
        if seg.len() == 0 || is_dot {
            proof {
                if is_dot {
                    assert(seg@ =~= seq!['.']);
                }
            }
            match k {
                None => {
                    return None;
                },
                Some(k) => {
                    proof {
                        assert(cur.subrange(0, k as int) =~= v@.subrange(0, k as int));
                    }
                    end = k;
                },
            }
        } else if seg.len() == 2 && seg[0] == '.' && seg[1] == '.' {
            proof {
                assert(seg@ =~= seq!['.', '.']);
            }
            return None;
        } else {
            proof {
                if seg@ == seq!['.'] {
                    assert(seg@[0] == '.');
                }
                if seg@ == seq!['.', '.'] {
                    assert(seg@[0] == '.' && seg@[1] == '.');
                }
            }
            let name = string_of(&seg);
            assert(file_name(cur) == Some(seg@));
            return Some(name);
        }
    }
}

/// Whether a lowercase name is that of the Firefox binary.
pub open spec fn is_firefox_name(n: Seq<char>) -> bool {
    n == "firefox"@ || n == "firefox-bin"@ || n == "firefox.exe"@
}

fn is_firefox_name_exec(n: &str) -> (r: bool)
    ensures
        r == is_firefox_name(n@),
{
    str_eq(n, "firefox") || str_eq(n, "firefox-bin") || str_eq(n, "firefox.exe")
}

/// The file name of a path, when there is one, names the Firefox binary.
pub open spec fn file_names_firefox(p: Seq<char>) -> bool {
    file_name(p) matches Some(n) && is_firefox_name(lower(n))
}

/// A process is Firefox when its name, the file name of its executable or the
/// file name of its first argument is, in ASCII lowercase, `firefox`,
/// `firefox-bin` or `firefox.exe`.
pub open spec fn is_firefox(name: Seq<char>, exe: Option<Seq<char>>, args: Seq<Seq<char>>) -> bool {
    ||| is_firefox_name(lower(name))
    ||| (exe matches Some(e) && file_names_firefox(e))
    ||| (args.len() > 0 && file_names_firefox(args[0]))
}

fn file_names_firefox_exec(p: &str) -> (r: bool)
    ensures
        r == file_names_firefox(p@),
{
    match file_name_of(p) {
        Some(n) => {
            let low = string_of(&lower_vec(&chars_of(n.as_str())));
            is_firefox_name_exec(low.as_str())
        },
        None => false,
    }
}

/// Whether a process is a Firefox process.
pub fn is_firefox_process(name: &str, exe: Option<&str>, args: &Vec<String>) -> (r: bool)
    ensures
        r == is_firefox(
            name@,
            match exe {
                Some(e) => Some(e@),
                None => None,
            },
            args@.map_values(|a: String| a@),
        ),
{
    let low = string_of(&lower_vec(&chars_of(name)));
    if is_firefox_name_exec(low.as_str()) {
        return true;
    }
    let by_exe = match exe {
        Some(e) => file_names_firefox_exec(e),
        None => false,
    };
    if by_exe {
        return true;
    }
    if args.len() > 0 {
        file_names_firefox_exec(args[0].as_str())
    } else {
        false
    }
}

/// A text with every trailing `/` removed.
pub open spec fn trim_end_slashes(s: Seq<char>) -> Seq<char>
    decreases s.len(),
{
    if s.len() > 0 && s.last() == '/' {
        trim_end_slashes(s.drop_last())
    } else {
        s
    }
}

/// How two profile paths are compared: trailing separators removed, ASCII
/// lowercase.
pub open spec fn normalized_path(s: Seq<char>) -> Seq<char> {
    lower(trim_end_slashes(s))
}

fn normalize_path_text(s: &str) -> (r: Vec<char>)
    ensures
        r@ == normalized_path(s@),
{
    let v = chars_of(s);
    let mut end: usize = v.len();
    proof {
        assert(v@.subrange(0, end as int) =~= v@);
    }
    while end > 0 && v[end - 1] == '/'
        invariant
            end <= v.len(),
            trim_end_slashes(v@) == trim_end_slashes(v@.subrange(0, end as int)),
        decreases end,
    {
        assert(v@.subrange(0, end as int).drop_last() =~= v@.subrange(0, end as int - 1));
        end = end - 1;
    }
    let mut t: Vec<char> = Vec::new();
    let mut j: usize = 0;
    while j < end
        invariant
            j <= end <= v.len(),
            t@ == v@.subrange(0, j as int),
        decreases end - j,
    {
        t.push(v[j]);
        assert(v@.subrange(0, j as int + 1) =~= v@.subrange(0, j as int).push(v@[j as int]));
        j = j + 1;
    }
    lower_vec(&t)
}

/// The command line passes `-profile` followed by the given profile path.
pub open spec fn has_profile_arg(args: Seq<Seq<char>>, expected: Seq<char>) -> bool {
    exists|i: int|
        0 <= i && i + 1 < args.len() && #[trigger] args[i] == "-profile"@ && normalized_path(args[i + 1])
            == normalized_path(expected)
}

/// Whether a command line runs the profile at `expected`. Paths are compared
/// as handed in: the caller resolves them against the file system first.
pub fn command_line_has_firefox_profile(args: &Vec<String>, expected: &str) -> (r: bool)
    ensures
        r == has_profile_arg(args@.map_values(|a: String| a@), expected@),
{
    let ghost texts = args@.map_values(|a: String| a@);
    let want = normalize_path_text(expected);
    if args.len() < 2 {
        return false;
    }
    let mut i: usize = 0;
    while i + 1 < args.len()
        invariant
            i + 1 <= args.len(),
            want@ == normalized_path(expected@),
            texts == args@.map_values(|a: String| a@),
            forall|j: int|
                0 <= j < i ==> !(#[trigger] texts[j] == "-profile"@ && normalized_path(texts[j + 1])
                    == normalized_path(expected@)),
        decreases args.len() - i,
    {
        if str_eq(args[i].as_str(), "-profile") {
            let got = normalize_path_text(args[i + 1].as_str());
            if seq_eq(&got, &want) {
                assert(texts[i as int] == "-profile"@);
                return true;
            }
        }
        i = i + 1;
    }
    false
}

/// A process is Firefox and runs the profile at `expected`.
pub open spec fn runs_profile(p: ProcessSnapshot, expected: Seq<char>) -> bool {
    &&& is_firefox(
        p.name@,
        match p.exe {
            Some(e) => Some(e@),
            None => None,
        },
        p.cmd@.map_values(|a: String| a@),
    )
    &&& has_profile_arg(p.cmd@.map_values(|a: String| a@), expected)
}

/// Whether a Firefox process runs the profile at `expected`, given the process
/// list; a failed listing fails the query.
pub fn profile_in_use_from_processes(
    processes: Result<Vec<ProcessSnapshot>, String>,
    expected: &str,
) -> (r: Result<bool, String>)
    ensures
        match processes {
            Err(e) => r matches Err(e2) && e2@ == e@,
            Ok(list) => r matches Ok(b) && b == exists|i: int|
                0 <= i < list.len() && runs_profile(#[trigger] list[i], expected@),
        },
{
    match processes {
        Err(e) => Err(e),
        Ok(list) => Ok(any_runs_profile(&list, expected)),
    }
}

fn any_runs_profile(list: &Vec<ProcessSnapshot>, expected: &str) -> (r: bool)
    ensures
        r == exists|i: int| 0 <= i < list.len() && runs_profile(#[trigger] list@[i], expected@),
{
    let mut i: usize = 0;
    while i < list.len()
        invariant
            i <= list.len(),
            forall|j: int| 0 <= j < i ==> !runs_profile(#[trigger] list@[j], expected@),
        decreases list.len() - i,
    {
        let p = &list[i];
        let exe = match &p.exe {
            Some(e) => Some(e.as_str()),
            None => None,
        };
        if is_firefox_process(p.name.as_str(), exe, &p.cmd) && command_line_has_firefox_profile(
            &p.cmd,
            expected,
        ) {
            assert(runs_profile(list@[i as int], expected@));
            return true;
        }
        i = i + 1;
    }
    false
}

// ---------------------------------------------------------------------------
// Recording an opened profile
// ---------------------------------------------------------------------------

/// A record by its values: key, label, profile path, creation and last
/// opening times.
pub type RecordView = (Seq<char>, Seq<char>, Seq<char>, i64, Option<i64>);

pub open spec fn record_view(r: CodexWebProfileRecord) -> RecordView {
    (r.account_key@, r.display_label@, r.profile_path@, r.created_at, r.last_opened_at)
}

pub open spec fn records_view(s: Seq<CodexWebProfileRecord>) -> Seq<RecordView> {
    s.map_values(|r: CodexWebProfileRecord| record_view(r))
}

/// The label a new profile gets: "Codex Web " and the key's first twelve
/// characters.
pub open spec fn default_label(key: Seq<char>) -> Seq<char> {
    "Codex Web "@ + key.take(12)
}

/// The record of a profile just opened at `now`: the account's first record,
/// or a new one created now, in either case last opened now.
pub open spec fn opened_record(
    profiles: Seq<CodexWebProfileRecord>,
    key: Seq<char>,
    path: Seq<char>,
    now: i64,
) -> RecordView {
    let base = if has_record(profiles, key) {
        record_view(profiles[choose|i: int| is_first_record(profiles, key, i)])
    } else {
        (key, default_label(key), path, now, None::<i64>)
    };
    (base.0, base.1, base.2, base.3, Some(now))
}

/// The records without those of a key, in their order.
pub open spec fn without_key(s: Seq<RecordView>, key: Seq<char>) -> Seq<RecordView>
    decreases s.len(),
{
    if s.len() == 0 {
        Seq::empty()
    } else {
        let w = without_key(s.drop_last(), key);
        if s.last().0 == key {
            w
        } else {
            w.push(s.last())
        }
    }
}

/// A record placed after the leading records whose keys do not come after
/// its own.
pub open spec fn insert_by_key(s: Seq<RecordView>, x: RecordView) -> Seq<RecordView>
    decreases s.len(),
{
    if s.len() == 0 {
        seq![x]
    } else if text_le(s[0].0, x.0) {
        seq![s[0]] + insert_by_key(s.drop_first(), x)
    } else {
        seq![x] + s
    }
}

/// Records in key order, records of equal keys in the order they had: a
/// stable sort by key.
pub open spec fn sorted_by_key(s: Seq<RecordView>) -> Seq<RecordView>
    decreases s.len(),
{
    if s.len() == 0 {
        Seq::empty()
    } else {
        insert_by_key(sorted_by_key(s.drop_last()), s.last())
    }
}

/// The mapping once a profile is opened: the account's records give way to
/// its opened record, and the records are sorted by key.
pub open spec fn opened_profiles(
    profiles: Seq<CodexWebProfileRecord>,
    key: Seq<char>,
    path: Seq<char>,
    now: i64,
) -> Seq<RecordView> {
    sorted_by_key(without_key(records_view(profiles), key).push(opened_record(profiles, key, path, now)))
}

proof fn lemma_insert_split(s: Seq<RecordView>, x: RecordView, p: int)
    requires
        0 <= p <= s.len(),
        forall|k: int| 0 <= k < p ==> text_le(#[trigger] s[k].0, x.0),
    ensures
        insert_by_key(s, x) == s.take(p) + insert_by_key(s.skip(p), x),
    decreases p,
{
    if p > 0 {
        lemma_insert_split(s.drop_first(), x, p - 1);
        assert(s.drop_first().take(p - 1) + insert_by_key(s.drop_first().skip(p - 1), x) =~= insert_by_key(
            s.drop_first(),
            x,
        ));
        assert(s.drop_first().skip(p - 1) =~= s.skip(p));
        assert(s.take(p) =~= seq![s[0]] + s.drop_first().take(p - 1));
        assert(s.take(p) + insert_by_key(s.skip(p), x) =~= seq![s[0]] + (s.drop_first().take(p - 1)
            + insert_by_key(s.skip(p), x)));
    } else {
        assert(s.skip(0) =~= s);
        assert(s.take(0) + insert_by_key(s, x) =~= insert_by_key(s, x));
    }
}

fn insert_record_by_key(out: &mut Vec<CodexWebProfileRecord>, x: CodexWebProfileRecord)
    ensures
        records_view(final(out)@) == insert_by_key(records_view(old(out)@), record_view(x)),
{
    let ghost s = records_view(out@);
    let xk = chars_of(x.account_key.as_str());
    let mut p: usize = 0;
    while p < out.len() && text_le_exec(&chars_of(out[p].account_key.as_str()), &xk)
        invariant
            p <= out@.len(),
            s == records_view(out@),
            xk@ == x.account_key@,
            forall|k: int| 0 <= k < p ==> text_le(#[trigger] s[k].0, x.account_key@),
        decreases out@.len() - p,
    {
        p = p + 1;
    }
    proof {
        lemma_insert_split(s, record_view(x), p as int);
        if p < out@.len() {
            assert(s.skip(p as int)[0] == s[p as int]);
            assert(insert_by_key(s.skip(p as int), record_view(x)) == seq![record_view(x)] + s.skip(p as int));
        } else {
            assert(s.skip(p as int) =~= Seq::<RecordView>::empty());
        }
    }
    let ghost before = out@;
    out.insert(p, x);
    proof {
        assert(records_view(out@) =~= s.take(p as int) + (seq![record_view(x)] + s.skip(p as int)));
    }
}

/// Records that a profile was opened at `now`: the account's records give
/// way to its record (the first one it had, or a new one labelled after its
/// key), last opened now, and the mapping is sorted by key.
pub fn record_opened_profile(
    profiles: Vec<CodexWebProfileRecord>,
    account_key: &str,
    profile_path: &str,
    now: i64,
) -> (r: Vec<CodexWebProfileRecord>)
    requires
        account_key@.len() >= 12,
    ensures
        records_view(r@) == opened_profiles(profiles@, account_key@, profile_path@, now),
{
    let found = record_for(&profiles, account_key);
    let ghost g: Option<CodexWebProfileRecord> = found;
    let mut updated = match found {
        Some(rec) => rec,
        None => {
            let key = chars_of(account_key);
            let label = concat_str("Codex Web ", string_of(&sub_vec(&key, 0, 12)).as_str());
            CodexWebProfileRecord {
                account_key: lit(account_key),
                display_label: label,
                profile_path: lit(profile_path),
                created_at: now,
                last_opened_at: None,
            }
        },
    };
    updated.last_opened_at = Some(now);
    proof {
        if has_record(profiles@, account_key@) {
            let i = choose|i: int| is_first_record(profiles@, account_key@, i);
            let j = choose|j: int| is_first_record(profiles@, account_key@, j) && same_record(
                g->Some_0,
                profiles@[j],
            );
            if i < j {
                assert(profiles@[i].account_key@ != account_key@);
            }
            if j < i {
                assert(profiles@[j].account_key@ != account_key@);
            }
        }
        assert(record_view(updated) == opened_record(profiles@, account_key@, profile_path@, now));
    }
    let ghost all = records_view(profiles@);
    let mut kept: Vec<CodexWebProfileRecord> = Vec::new();
    let n: usize = profiles.len();
    let mut i: usize = 0;
    while i < n
        invariant
            n == profiles@.len(),
            all == records_view(profiles@),
            i <= n,
            records_view(kept@) == without_key(all.take(i as int), account_key@),
        decreases n - i,
    {
        proof {
            assert(all.take(i + 1).drop_last() =~= all.take(i as int));
            assert(all.take(i + 1).last() == record_view(profiles@[i as int]));
        }
        if !str_eq(profiles[i].account_key.as_str(), account_key) {
            let ghost before = kept@;
            kept.push(copy_record(&profiles[i]));
            proof {
                assert(records_view(kept@) =~= records_view(before).push(record_view(profiles@[i as int])));
            }
        }
        i = i + 1;
    }
    proof {
        assert(all.take(n as int) =~= all);
    }
    let ghost before_push = kept@;
    kept.push(updated);
    let ghost src = records_view(kept@);
    proof {
        assert(src =~= without_key(all, account_key@).push(opened_record(profiles@, account_key@, profile_path@, now)));
    }
    let mut out: Vec<CodexWebProfileRecord> = Vec::new();
    let m: usize = kept.len();
    let mut k: usize = 0;
    while k < m
        invariant
            m == kept@.len(),
            src == records_view(kept@),
            k <= m,
            records_view(out@) == sorted_by_key(src.take(k as int)),
        decreases m - k,
    {
        proof {
            assert(src.take(k + 1).drop_last() =~= src.take(k as int));
            assert(src.take(k + 1).last() == record_view(kept@[k as int]));
        }
        insert_record_by_key(&mut out, copy_record(&kept[k]));
        k = k + 1;
    }
    proof {
        assert(src.take(m as int) =~= src);
    }
    out
}

} // verus!
