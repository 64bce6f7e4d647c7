//! Splitting text at a separator character, and into lines.
use vstd::prelude::*;
use crate::text::sub_vec;

verus! {

/// The first position of `c` in `s`, or -1.
pub open spec fn index_of_char(s: Seq<char>, c: char) -> int
    decreases s.len(),
{
    if s.len() == 0 {
        -1
    } else if s[0] == c {
        0
    } else {
        let r = index_of_char(s.drop_first(), c);
        if r < 0 {
            -1
        } else {
            r + 1
        }
    }
}

pub proof fn lemma_index_of_char(s: Seq<char>, c: char)
    ensures
        -1 <= index_of_char(s, c) < s.len(),
        index_of_char(s, c) >= 0 ==> s[index_of_char(s, c)] == c,
        forall|j: int|
            0 <= j < s.len() && (index_of_char(s, c) < 0 || j < index_of_char(s, c)) ==> s[j] != c,
    decreases s.len(),
{
    if s.len() > 0 && s[0] != c {
        let t = s.drop_first();
        lemma_index_of_char(t, c);
        assert forall|j: int|
            0 <= j < s.len() && (index_of_char(s, c) < 0 || j < index_of_char(s, c)) implies s[j]
            != c by {
            if j > 0 {
                assert(s[j] == t[j - 1]);
            }
        }
    }
}

/// The pieces of `s` between occurrences of `c` (`str::split` with a char):
/// one more piece than there are separators.
pub open spec fn split_char(s: Seq<char>, c: char) -> Seq<Seq<char>>
    decreases s.len(),
{
    let k = index_of_char(s, c);
    if k < 0 {
        seq![s]
    } else {
        proof {
            lemma_index_of_char(s, c);
        }
        seq![s.take(k)] + split_char(s.skip(k + 1), c)
    }
}

/// Splitting gives at least one piece.
pub proof fn lemma_split_char_nonempty(s: Seq<char>, c: char)
    ensures
        split_char(s, c).len() >= 1,
{
    lemma_index_of_char(s, c);
}

/// The first position of `c` in `v` at or after `from`.
pub fn index_of_char_from(v: &Vec<char>, c: char, from: usize) -> (r: Option<usize>)
    requires
        from <= v.len(),
    ensures
        match r {
            Some(k) => from <= k < v.len() && index_of_char(v@.skip(from as int), c) == k - from,
            None => index_of_char(v@.skip(from as int), c) == -1,
        },
{
    let mut j: usize = from;
    while j < v.len()
        invariant
            from <= j <= v.len(),
            forall|k: int| from <= k < j ==> v@[k] != c,
        decreases v.len() - j,
    {
        if v[j] == c {
            proof {
                lemma_index_of_char_at(v@.skip(from as int), c, j - from);
            }
            return Some(j);
        }
        j = j + 1;
    }
    proof {
        lemma_index_of_char_none(v@.skip(from as int), c);
    }
    None
}

proof fn lemma_index_of_char_at(s: Seq<char>, c: char, k: int)
    requires
        0 <= k < s.len(),
        s[k] == c,
        forall|j: int| 0 <= j < k ==> s[j] != c,
    ensures
        index_of_char(s, c) == k,
    decreases s.len(),
{
    if k > 0 {
        let t = s.drop_first();
        assert forall|j: int| 0 <= j < k - 1 implies t[j] != c by {
            assert(t[j] == s[j + 1]);
        }
        lemma_index_of_char_at(t, c, k - 1);
    }
}

proof fn lemma_index_of_char_none(s: Seq<char>, c: char)
    requires
        forall|j: int| 0 <= j < s.len() ==> s[j] != c,
    ensures
        index_of_char(s, c) == -1,
    decreases s.len(),
{
    if s.len() > 0 {
        let t = s.drop_first();
        assert forall|j: int| 0 <= j < t.len() implies t[j] != c by {
            assert(t[j] == s[j + 1]);
        }
        lemma_index_of_char_none(t, c);
    }
}

/// The views of a sequence of character vectors.
pub open spec fn pieces(v: Seq<Vec<char>>) -> Seq<Seq<char>> {
    v.map_values(|x: Vec<char>| x@)
}

/// The pieces of `v` between occurrences of `c`.
pub fn split_char_exec(v: &Vec<char>, c: char) -> (r: Vec<Vec<char>>)
    ensures
        pieces(r@) == split_char(v@, c),
{
    let mut r: Vec<Vec<char>> = Vec::new();
    let mut start: usize = 0;
    proof {
        assert(v@.skip(0) =~= v@);
        assert(pieces(r@) + split_char(v@.skip(0), c) =~= split_char(v@, c));
    }
    loop
        invariant
            start <= v.len(),
            pieces(r@) + split_char(v@.skip(start as int), c) == split_char(v@, c),
        decreases v.len() - start,
    {
        let ghost rest = v@.skip(start as int);
        match index_of_char_from(v, c, start) {
            None => {
                r.push(sub_vec(v, start, v.len()));
                proof {
                    assert(v@.subrange(start as int, v.len() as int) =~= rest);
                    assert(pieces(r@) =~= pieces(r@.drop_last()).push(rest));
                    assert(split_char(rest, c) == seq![rest]);
                    assert(pieces(r@.drop_last()) + seq![rest] =~= pieces(r@.drop_last()).push(rest));
                }
                return r;
            },
            Some(k) => {
                let ghost before = r@;
                r.push(sub_vec(v, start, k));
                proof {
                    lemma_index_of_char(rest, c);
                    let kk = k - start;
                    assert(v@.subrange(start as int, k as int) =~= rest.take(kk));
                    assert(rest.skip(kk + 1) =~= v@.skip(k as int + 1));
                    assert(split_char(rest, c) == seq![rest.take(kk)] + split_char(rest.skip(kk + 1), c));
                    assert(pieces(r@) =~= pieces(before).push(rest.take(kk)));
                    assert(pieces(r@) + split_char(v@.skip(k as int + 1), c) =~= pieces(before) + (
                    seq![rest.take(kk)] + split_char(rest.skip(kk + 1), c)));
                }
                start = k + 1;
            },
        }
    }
}

/// A line with one trailing carriage return removed.
pub open spec fn strip_cr(s: Seq<char>) -> Seq<char> {
    if s.len() > 0 && s.last() == '\r' {
        s.drop_last()
    } else {
        s
    }
}

/// The lines of a text: the pieces between line feeds, each without its
/// trailing carriage return. (`str::lines` also drops a last empty piece;
/// every reader of lines here passes over empty lines.)
pub open spec fn lines_of(s: Seq<char>) -> Seq<Seq<char>> {
    split_char(s, '\n').map_values(|l: Seq<char>| strip_cr(l))
}

/// The lines of a text.
pub fn lines_exec(v: &Vec<char>) -> (r: Vec<Vec<char>>)
    ensures
        pieces(r@) == lines_of(v@),
{
    let parts = split_char_exec(v, '\n');
    let mut r: Vec<Vec<char>> = Vec::new();
    let mut i: usize = 0;
    while i < parts.len()
        invariant
            i <= parts.len(),
            pieces(parts@) == split_char(v@, '\n'),
            pieces(r@) == pieces(parts@).take(i as int).map_values(|l: Seq<char>| strip_cr(l)),
        decreases parts.len() - i,
    {
        let p = &parts[i];
        let line = if p.len() > 0 && p[p.len() - 1] == '\r' {
            sub_vec(p, 0, p.len() - 1)
        } else {
            sub_vec(p, 0, p.len())
        };
        proof {
            assert(pieces(parts@)[i as int] == p@);
            if p@.len() > 0 && p@.last() == '\r' {
                assert(line@ =~= p@.drop_last());
            } else {
                assert(line@ =~= p@);
            }
        }
        let ghost before = r@;
        r.push(line);
        proof {
            assert(pieces(r@) =~= pieces(before).push(line@));
            assert(pieces(parts@).take(i as int + 1) =~= pieces(parts@).take(i as int).push(p@));
            assert(pieces(parts@).take(i as int + 1).map_values(|l: Seq<char>| strip_cr(l))
                =~= pieces(parts@).take(i as int).map_values(|l: Seq<char>| strip_cr(l)).push(strip_cr(p@)));
        }
        i = i + 1;
    }
    proof {
        assert(pieces(parts@).take(parts.len() as int) =~= pieces(parts@));
    }
    r
}

/// `splitn(2, c)`: the text before the first `c` and the text after it, when
/// there is one.
pub open spec fn split_once(s: Seq<char>, c: char) -> Option<(Seq<char>, Seq<char>)> {
    let k = index_of_char(s, c);
    if k < 0 {
        None
    } else {
        Some((s.take(k), s.skip(k + 1)))
    }
}

/// The text before the first `c` and the text after it.
pub fn split_once_exec(v: &Vec<char>, c: char) -> (r: Option<(Vec<char>, Vec<char>)>)
    ensures
        match r {
            Some((a, b)) => split_once(v@, c) == Some((a@, b@)),
            None => split_once(v@, c) is None,
        },
{
    match index_of_char_from(v, c, 0) {
        None => {
            proof {
                assert(v@.skip(0) =~= v@);
            }
            None
        },
        Some(k) => {
            proof {
                assert(v@.skip(0) =~= v@);
                lemma_index_of_char(v@, c);
            }
            let a = sub_vec(v, 0, k);
            let b = sub_vec(v, k + 1, v.len());
            proof {
                assert(a@ =~= v@.take(k as int));
                assert(b@ =~= v@.skip(k as int + 1));
            }
            Some((a, b))
        },
    }
}

} // verus!
