//! Where a web profile may live. A profile path recorded in the mapping is
//! relative to the application's data directory and must name exactly one
//! directory under the managed root; paths are read as `std::path` reads
//! them on Unix (`/` separates, `.` pieces vanish except at the front).
use vstd::prelude::*;
use crate::split::{split_char, split_char_exec, pieces};
use crate::text::{trim, starts_with, trim_vec, chars_of, seq_eq, starts_with_exec, lit};

verus! {

broadcast use vstd::string::group_string_axioms;

/// A component of a path.
pub enum PathPart {
    Root,
    Cur,
    Parent,
    Normal(Vec<char>),
}

/// A component of a path as contracts read it.
pub enum PathPartView {
    Root,
    Cur,
    Parent,
    Normal(Seq<char>),
}

/// The view of a component.
pub open spec fn part_view(p: PathPart) -> PathPartView {
    match p {
        PathPart::Root => PathPartView::Root,
        PathPart::Cur => PathPartView::Cur,
        PathPart::Parent => PathPartView::Parent,
        PathPart::Normal(n) => PathPartView::Normal(n@),
    }
}

/// The views of a sequence of components.
pub open spec fn parts_view(s: Seq<PathPart>) -> Seq<PathPartView> {
    s.map_values(|p: PathPart| part_view(p))
}

/// The components that the pieces between separators give: empty and `.`
/// pieces give none, `..` the parent, any other piece itself.
pub open spec fn piece_parts(ps: Seq<Seq<char>>) -> Seq<PathPartView>
    decreases ps.len(),
{
    if ps.len() == 0 {
        Seq::empty()
    } else {
        let rest = piece_parts(ps.drop_last());
        let p = ps.last();
        if p.len() == 0 || p == "."@ {
            rest
        } else if p == ".."@ {
            rest.push(PathPartView::Parent)
        } else {
            rest.push(PathPartView::Normal(p))
        }
    }
}

/// A path that starts at the root.
pub open spec fn is_absolute(s: Seq<char>) -> bool {
    s.len() > 0 && s[0] == '/'
}

/// A relative path that starts with the current directory.
pub open spec fn starts_at_cur(s: Seq<char>) -> bool {
    !is_absolute(s) && (s == "."@ || starts_with(s, "./"@))
}

/// The components of a path text.
pub open spec fn path_parts(s: Seq<char>) -> Seq<PathPartView> {
    let head = if is_absolute(s) {
        seq![PathPartView::Root]
    } else if starts_at_cur(s) {
        seq![PathPartView::Cur]
    } else {
        Seq::empty()
    };
    head + piece_parts(split_char(s, '/'))
}

/// The components of a path text.
pub fn path_components(s: &str) -> (r: Vec<PathPart>)
    ensures
        parts_view(r@) == path_parts(s@),
{
    let v = chars_of(s);
    let mut r: Vec<PathPart> = Vec::new();
    let absolute = v.len() > 0 && v[0] == '/';
    if absolute {
        r.push(PathPart::Root);
    } else if seq_eq(&v, &chars_of(".")) || starts_with_exec(&v, &chars_of("./")) {
        r.push(PathPart::Cur);
    }
    let ghost head = parts_view(r@);
    proof {
        assert(head =~= path_parts(s@).take(head.len() as int)) by {
            if absolute {
                assert(head =~= seq![PathPartView::Root]);
            } else if starts_at_cur(s@) {
                assert(head =~= seq![PathPartView::Cur]);
            }
        }
    }
    let ps = split_char_exec(&v, '/');
    let mut i: usize = 0;
    while i < ps.len()
        invariant
            i <= ps@.len(),
            pieces(ps@) == split_char(s@, '/'),
            parts_view(r@) =~= head + piece_parts(pieces(ps@).take(i as int)),
            head == (if is_absolute(s@) {
                seq![PathPartView::Root]
            } else if starts_at_cur(s@) {
                seq![PathPartView::Cur]
            } else {
                Seq::<PathPartView>::empty()
            }),
        decreases ps@.len() - i,
    {
        let ghost taken = pieces(ps@).take(i as int + 1);
        proof {
            assert(taken.drop_last() =~= pieces(ps@).take(i as int));
            assert(taken.last() == ps@[i as int]@);
        }
        let p = &ps[i];
        let ghost before = r@;
        if p.len() == 0 || seq_eq(p, &chars_of(".")) {
        } else if seq_eq(p, &chars_of("..")) {
            r.push(PathPart::Parent);
            proof {
                assert(parts_view(r@) =~= parts_view(before).push(PathPartView::Parent));
            }
        } else {
            let mut copy: Vec<char> = Vec::new();
            let mut j: usize = 0;
            while j < p.len()
                invariant
                    j <= p@.len(),
                    copy@ =~= p@.take(j as int),
                decreases p@.len() - j,
            {
                copy.push(p[j]);
                j = j + 1;
            }
            proof {
                assert(copy@ =~= p@);
            }
            r.push(PathPart::Normal(copy));
            proof {
                assert(parts_view(r@) =~= parts_view(before).push(PathPartView::Normal(p@)));
            }
        }
        i = i + 1;
    }
    proof {
        assert(pieces(ps@).take(ps@.len() as int) =~= pieces(ps@));
    }
    r
}

/// Every component is a plain name.
pub open spec fn all_normal(parts: Seq<PathPartView>) -> bool {
    forall|i: int| 0 <= i < parts.len() ==> #[trigger] parts[i] is Normal
}

/// The first check on a recorded profile path: trimmed, it is not empty,
/// not absolute, and made of plain names only.
pub open spec fn relative_profile_path_ok(profile_path: Seq<char>) -> bool {
    let p = trim(profile_path);
    p.len() > 0 && !is_absolute(p) && all_normal(path_parts(p))
}

/// The error of a recorded profile path that is not a plain relative path.
pub open spec fn relative_path_error() -> Seq<char> {
    "Web Profile 路径必须是受管根目录下的相对路径"@
}

/// Whether every component is a plain name.
fn all_normal_exec(parts: &Vec<PathPart>) -> (r: bool)
    ensures
        r == all_normal(parts_view(parts@)),
{
    let mut i: usize = 0;
    while i < parts.len()
        invariant
            i <= parts@.len(),
            forall|j: int| 0 <= j < i ==> #[trigger] parts_view(parts@)[j] is Normal,
        decreases parts@.len() - i,
    {
        match &parts[i] {
            PathPart::Normal(_) => {},
            _ => {
                assert(!(parts_view(parts@)[i as int] is Normal));
                return false;
            },
        }
        i = i + 1;
    }
    true
}

/// Checks that a recorded profile path is a plain relative path.
pub fn check_relative_profile_path(profile_path: &str) -> (r: Result<(), String>)
    ensures
        r is Ok <==> relative_profile_path_ok(profile_path@),
        r matches Err(e) ==> e@ == relative_path_error(),
{
    let p = trim_vec(&chars_of(profile_path));
    let text = crate::text::string_of(&p);
    if p.len() == 0 || p[0] == '/' {
        return Err(lit("Web Profile 路径必须是受管根目录下的相对路径"));
    }
    let parts = path_components(text.as_str());
    if !all_normal_exec(&parts) {
        return Err(lit("Web Profile 路径必须是受管根目录下的相对路径"));
    }
    Ok(())
}

/// The directory, under the data directory, that holds the profiles.
pub open spec fn profile_root_name() -> Seq<char> {
    "codex_web_profiles"@
}

/// The second check, on the components of the recorded path below the data
/// directory: the first must be the managed root (else the path leaves
/// it), and exactly one must follow it, equal, where a key is expected, to
/// the key's own path.
pub open spec fn profile_under_root(profile_path: Seq<char>, expected_key: Option<Seq<char>>) -> Result<
    (),
    Seq<char>,
> {
    let parts = path_parts(trim(profile_path));
    if parts.len() == 0 || parts[0] != PathPartView::Normal(profile_root_name()) {
        Err("Web Profile 路径越过受管根目录"@)
    } else if parts.len() != 2 || (expected_key is Some && parts.drop_first() != path_parts(
        expected_key.unwrap(),
    )) {
        Err("Web Profile 路径格式不合法"@)
    } else {
        Ok(())
    }
}

/// Whether two component sequences are equal.
fn parts_eq(a: &Vec<PathPart>, a_from: usize, b: &Vec<PathPart>) -> (r: bool)
    requires
        a_from <= a@.len(),
    ensures
        r == (parts_view(a@).skip(a_from as int) == parts_view(b@)),
{
    if a.len() - a_from != b.len() {
        proof {
            assert(parts_view(a@).skip(a_from as int).len() != parts_view(b@).len());
        }
        return false;
    }
    let mut i: usize = 0;
    while i < b.len()
        invariant
            a_from + b@.len() == a@.len(),
            a@.len() <= usize::MAX,
            a_from <= a@.len(),
            i <= b@.len(),
            forall|j: int|
                0 <= j < i ==> #[trigger] parts_view(b@)[j] == parts_view(a@)[a_from + j],
        decreases b@.len() - i,
    {
        let same = match (&a[a_from + i], &b[i]) {
            (PathPart::Root, PathPart::Root) => true,
            (PathPart::Cur, PathPart::Cur) => true,
            (PathPart::Parent, PathPart::Parent) => true,
            (PathPart::Normal(x), PathPart::Normal(y)) => seq_eq(x, y),
            _ => false,
        };
        if !same {
            proof {
                assert(parts_view(a@).skip(a_from as int)[i as int] != parts_view(b@)[i as int]);
            }
            return false;
        }
        i = i + 1;
    }
    proof {
        assert(parts_view(a@).skip(a_from as int) =~= parts_view(b@));
    }
    true
}

/// Checks that a recorded profile path names one directory under the
/// managed root, the expected key's where one is given.
pub fn check_profile_under_root(profile_path: &str, expected_account_key: Option<&str>) -> (r: Result<
    (),
    String,
>)
    ensures
        match r {
            Ok(()) => profile_under_root(profile_path@, opt_view(expected_account_key)) is Ok,
            Err(e) => profile_under_root(profile_path@, opt_view(expected_account_key)) == Err::<
                (),
                Seq<char>,
            >(e@),
        },
{
    let text = crate::text::string_of(&trim_vec(&chars_of(profile_path)));
    let parts = path_components(text.as_str());
    let first_is_root = parts.len() > 0 && match &parts[0] {
        PathPart::Normal(n) => seq_eq(n, &chars_of("codex_web_profiles")),
        _ => false,
    };
    if !first_is_root {
        return Err(lit("Web Profile 路径越过受管根目录"));
    }
    if parts.len() != 2 {
        return Err(lit("Web Profile 路径格式不合法"));
    }
    match expected_account_key {
        Some(key) => {
            let key_parts = path_components(key);
            if !parts_eq(&parts, 1, &key_parts) {
                return Err(lit("Web Profile 路径格式不合法"));
            }
        },
        None => {},
    }
    proof {
        if expected_account_key is Some {
            assert(parts_view(parts@).skip(1) =~= parts_view(parts@).drop_first());
        }
    }
    Ok(())
}

/// The text of an optional text.
pub open spec fn opt_view(o: Option<&str>) -> Option<Seq<char>> {
    match o {
        Some(s) => Some(s@),
        None => None,
    }
}

/// The last check, on resolved paths: the profile is strictly inside the
/// root (`Path::starts_with`, component by component).
pub open spec fn canonical_inside(canonical: Seq<char>, root: Seq<char>) -> bool {
    let c = path_parts(canonical);
    let r = path_parts(root);
    c != r && r.len() <= c.len() && c.take(r.len() as int) == r
}

/// Checks that a resolved profile path lies strictly inside the resolved
/// root.
pub fn check_canonical_profile(canonical: &str, root: &str) -> (r: Result<(), String>)
    ensures
        r is Ok <==> canonical_inside(canonical@, root@),
        r matches Err(e) ==> e@ == "Web Profile 路径越过受管根目录"@,
{
    let c = path_components(canonical);
    let rt = path_components(root);
    let same = parts_eq(&c, 0, &rt);
    proof {
        assert(parts_view(c@).skip(0) =~= parts_view(c@));
    }
    if same || rt.len() > c.len() {
        return Err(lit("Web Profile 路径越过受管根目录"));
    }
    let mut i: usize = 0;
    while i < rt.len()
        invariant
            parts_view(c@) == path_parts(canonical@),
            parts_view(rt@) == path_parts(root@),
            parts_view(c@) != parts_view(rt@),
            rt@.len() <= c@.len(),
            i <= rt@.len(),
            forall|j: int| 0 <= j < i ==> #[trigger] parts_view(rt@)[j] == parts_view(c@)[j],
        decreases rt@.len() - i,
    {
        let eq = match (&c[i], &rt[i]) {
            (PathPart::Root, PathPart::Root) => true,
            (PathPart::Cur, PathPart::Cur) => true,
            (PathPart::Parent, PathPart::Parent) => true,
            (PathPart::Normal(x), PathPart::Normal(y)) => seq_eq(x, y),
            _ => false,
        };
        if !eq {
            proof {
                assert(parts_view(c@).take(rt@.len() as int)[i as int] != parts_view(rt@)[i as int]);
            }
            return Err(lit("Web Profile 路径越过受管根目录"));
        }
        i = i + 1;
    }
    proof {
        assert(parts_view(c@).take(rt@.len() as int) =~= parts_view(rt@));
    }
    Ok(())
}

} // verus!
