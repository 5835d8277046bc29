//! Verified string helpers: comparison, concatenation, searching, trimming
//! and splitting, each pinned to a spec-level function over `Seq<char>`.

use vstd::prelude::*;
use vstd::string::*;

verus! {

/// Whitespace characters recognised when trimming fields.
pub open spec fn is_wsp(c: char) -> bool {
    c == ' ' || c == '\t' || c == '\r' || c == '\n'
}

fn is_wsp_exec(c: char) -> (r: bool)
    ensures
        r == is_wsp(c),
{
    c == ' ' || c == '\t' || c == '\r' || c == '\n'
}

/// Index of the first occurrence of `c` in `s`, if any.
pub open spec fn spec_find(s: Seq<char>, c: char) -> Option<int>
    decreases s.len(),
{
    if s.len() == 0 {
        None
    } else if s[0] == c {
        Some(0)
    } else {
        match spec_find(s.drop_first(), c) {
            Some(i) => Some(i + 1),
            None => None,
        }
    }
}

/// `spec_find` returns the first index holding `c`, or `None` when `c` is absent.
pub proof fn lemma_spec_find(s: Seq<char>, c: char)
    ensures
        match spec_find(s, c) {
            Some(i) => {
                &&& 0 <= i < s.len()
                &&& s[i] == c
                &&& forall|j: int| 0 <= j < i ==> s[j] != c
            },
            None => forall|j: int| 0 <= j < s.len() ==> s[j] != c,
        },
    decreases s.len(),
{
    if s.len() > 0 && s[0] != c {
        lemma_spec_find(s.drop_first(), c);
        assert(forall|j: int| 1 <= j < s.len() ==> #[trigger] s[j] == s.drop_first()[j - 1]);
    }
}

/// First occurrence of `c` in `s`.
pub fn find_char(s: &str, c: char) -> (r: Option<usize>)
    ensures
        match r {
            Some(i) => spec_find(s@, c) == Some(i as int),
            None => spec_find(s@, c) is None,
        },
{
    let len = s.unicode_len();
    let mut i: usize = 0;
    while i < len
        invariant
            0 <= i <= len,
            len == s@.len(),
            forall|j: int| 0 <= j < i ==> s@[j] != c,
        decreases len - i,
    {
        if s.get_char(i) == c {
            proof {
                lemma_spec_find(s@, c);
            }
            return Some(i);
        }
        i += 1;
    }
    proof {
        lemma_spec_find(s@, c);
    }
    None
}

/// The prefix of `s` before its first newline; all of `s` if none.
pub open spec fn spec_first_line(s: Seq<char>) -> Seq<char> {
    match spec_find(s, '\n') {
        Some(i) => s.subrange(0, i),
        None => s,
    }
}

/// Returns the first line of `s`, without its terminator.
pub fn first_line(s: &str) -> (r: String)
    ensures
        r@ == spec_first_line(s@),
{
    proof {
        lemma_spec_find(s@, '\n');
    }
    match find_char(s, '\n') {
        Some(i) => s.substring_char(0, i).to_owned(),
        None => s.to_owned(),
    }
}

/// Index of the first occurrence of the two-character separator `": "`.
pub open spec fn spec_find_sep(s: Seq<char>) -> Option<int>
    decreases s.len(),
{
    if s.len() < 2 {
        None
    } else if s[0] == ':' && s[1] == ' ' {
        Some(0)
    } else {
        match spec_find_sep(s.drop_first()) {
            Some(i) => Some(i + 1),
            None => None,
        }
    }
}

/// `spec_find_sep` returns the first index where `": "` starts, if anywhere.
pub proof fn lemma_spec_find_sep(s: Seq<char>)
    ensures
        match spec_find_sep(s) {
            Some(i) => {
                &&& 0 <= i
                &&& i + 1 < s.len()
                &&& s[i] == ':'
                &&& s[i + 1] == ' '
                &&& forall|j: int| 0 <= j < i ==> !((#[trigger] s[j]) == ':' && s[j + 1] == ' ')
            },
            None => forall|j: int|
                0 <= j && j + 1 < s.len() ==> !((#[trigger] s[j]) == ':' && s[j + 1] == ' '),
        },
    decreases s.len(),
{
    if s.len() >= 2 && !(s[0] == ':' && s[1] == ' ') {
        lemma_spec_find_sep(s.drop_first());
        assert(forall|j: int| 1 <= j < s.len() ==> #[trigger] s[j] == s.drop_first()[j - 1]);
    }
}

/// First position where `": "` occurs in `s`.
pub fn find_sep(s: &str) -> (r: Option<usize>)
    ensures
        match r {
            Some(i) => spec_find_sep(s@) == Some(i as int),
            None => spec_find_sep(s@) is None,
        },
{
    let len = s.unicode_len();
    if len < 2 {
        proof {
            lemma_spec_find_sep(s@);
        }
        return None;
    }
    let mut i: usize = 0;
    while i + 1 < len
        invariant
            0 <= i,
            i + 1 <= len,
            len == s@.len(),
            len >= 2,
            forall|j: int| 0 <= j < i ==> !((#[trigger] s@[j]) == ':' && s@[j + 1] == ' '),
        decreases len - i,
    {
        if s.get_char(i) == ':' && s.get_char(i + 1) == ' ' {
            proof {
                lemma_spec_find_sep(s@);
            }
            return Some(i);
        }
        i += 1;
    }
    proof {
        lemma_spec_find_sep(s@);
    }
    None
}

/// `s` with leading whitespace removed.
pub open spec fn spec_trim_left(s: Seq<char>) -> Seq<char>
    decreases s.len(),
{
    if s.len() > 0 && is_wsp(s[0]) {
        spec_trim_left(s.drop_first())
    } else {
        s
    }
}

/// `s` with trailing whitespace removed.
pub open spec fn spec_trim_right(s: Seq<char>) -> Seq<char>
    decreases s.len(),
{
    if s.len() > 0 && is_wsp(s[s.len() - 1]) {
        spec_trim_right(s.drop_last())
    } else {
        s
    }
}

/// `s` with whitespace removed from both ends.
pub open spec fn spec_trim(s: Seq<char>) -> Seq<char> {
    spec_trim_right(spec_trim_left(s))
}

/// Removes leading whitespace.
pub fn trim_left(s: &str) -> (r: String)
    ensures
        r@ == spec_trim_left(s@),
    decreases s@.len(),
{
    let len = s.unicode_len();
    if len > 0 && is_wsp_exec(s.get_char(0)) {
        trim_left(s.substring_char(1, len))
    } else {
        s.to_owned()
    }
}

/// Removes trailing whitespace.
pub fn trim_right(s: &str) -> (r: String)
    ensures
        r@ == spec_trim_right(s@),
    decreases s@.len(),
{
    let len = s.unicode_len();
    if len > 0 && is_wsp_exec(s.get_char(len - 1)) {
        trim_right(s.substring_char(0, len - 1))
    } else {
        s.to_owned()
    }
}

/// Removes whitespace from both ends.
pub fn trim(s: &str) -> (r: String)
    ensures
        r@ == spec_trim(s@),
{
    let left = trim_left(s);
    trim_right(left.as_str())
}

/// The pieces of `s` between occurrences of `sep`; empty pieces are kept.
pub open spec fn spec_split(s: Seq<char>, sep: char) -> Seq<Seq<char>>
    decreases s.len(),
    via spec_split_decreases
{
    match spec_find(s, sep) {
        None => seq![s],
        Some(i) => seq![s.subrange(0, i)] + spec_split(s.subrange(i + 1, s.len() as int), sep),
    }
}

#[via_fn]
proof fn spec_split_decreases(s: Seq<char>, sep: char) {
    lemma_spec_find(s, sep);
}

/// Splits `s` on single occurrences of `sep`, keeping empty pieces.
pub fn split_on(s: &str, sep: char) -> (r: Vec<String>)
    ensures
        r@.map_values(|p: String| p@) == spec_split(s@, sep),
    decreases s@.len(),
{
    let len = s.unicode_len();
    match find_char(s, sep) {
        None => {
            let mut one: Vec<String> = Vec::new();
            one.push(s.to_owned());
            proof {
                assert(one@.map_values(|p: String| p@) =~= spec_split(s@, sep));
            }
            one
        },
        Some(i) => {
            proof {
                lemma_spec_find(s@, sep);
            }
            let head = s.substring_char(0, i).to_owned();
            let mut rest = split_on(s.substring_char(i + 1, len), sep);
            rest.insert(0, head);
            proof {
                assert(rest@.map_values(|p: String| p@) =~= spec_split(s@, sep));
            }
            rest
        },
    }
}

/// The whitespace-trimmed, non-empty fields of `s` after splitting on spaces.
pub open spec fn spec_fields(s: Seq<char>) -> Seq<Seq<char>> {
    spec_split(s, ' ').map_values(|p: Seq<char>| spec_trim(p)).filter(|p: Seq<char>| p.len() != 0)
}

/// Splits on spaces, trims each piece, and drops the empty ones.
pub fn fields(s: &str) -> (r: Vec<String>)
    ensures
        r@.map_values(|p: String| p@) == spec_fields(s@),
{
    let pieces = split_on(s, ' ');
    let mut out: Vec<String> = Vec::new();
    let ghost trimmed = pieces@.map_values(|p: String| p@).map_values(
        |p: Seq<char>| spec_trim(p),
    );
    let ghost keep = |p: Seq<char>| p.len() != 0;
    let mut k: usize = 0;
    proof {
        assert(trimmed.subrange(0, 0) =~= Seq::<Seq<char>>::empty());
        assert(out@.map_values(|p: String| p@) =~= trimmed.subrange(0, 0).filter(keep));
    }
    while k < pieces.len()
        invariant
            0 <= k <= pieces@.len(),
            trimmed == pieces@.map_values(|p: String| p@).map_values(
                |p: Seq<char>| spec_trim(p),
            ),
            keep == (|p: Seq<char>| p.len() != 0),
            out@.map_values(|p: String| p@) == trimmed.subrange(0, k as int).filter(keep),
        decreases pieces@.len() - k,
    {
        let t = trim(pieces[k].as_str());
        proof {
            assert(trimmed.subrange(0, k + 1) =~= trimmed.subrange(0, k as int).push(
                trimmed[k as int],
            ));
            Seq::filter_distributes_over_add(
                trimmed.subrange(0, k as int),
                seq![trimmed[k as int]],
                keep,
            );
            assert(trimmed.subrange(0, k as int).push(trimmed[k as int]) =~= trimmed.subrange(
                0,
                k as int,
            ) + seq![trimmed[k as int]]);
            reveal_with_fuel(Seq::filter, 2);
            assert(seq![trimmed[k as int]].drop_last() =~= Seq::<Seq<char>>::empty());
        }
        if t.unicode_len() != 0 {
            out.push(t);
            proof {
                assert(out@.map_values(|p: String| p@) =~= trimmed.subrange(0, k + 1).filter(
                    keep,
                ));
            }
        } else {
            proof {
                assert(out@.map_values(|p: String| p@) =~= trimmed.subrange(0, k + 1).filter(
                    keep,
                ));
            }
        }
        k += 1;
    }
    proof {
        assert(trimmed.subrange(0, trimmed.len() as int) =~= trimmed);
    }
    out
}

/// True exactly when the two strings read the same.
pub fn str_eq(a: &str, b: &str) -> (r: bool)
    ensures
        r == (a@ == b@),
{
    let alen = a.unicode_len();
    let blen = b.unicode_len();
    if alen != blen {
        return false;
    }
    let mut i: usize = 0;
    while i < alen
        invariant
            0 <= i <= alen,
            alen == a@.len(),
            alen == b@.len(),
            forall|j: int| 0 <= j < i ==> a@[j] == b@[j],
        decreases alen - i,
    {
        if a.get_char(i) != b.get_char(i) {
            return false;
        }
        i += 1;
    }
    proof {
        assert(a@ =~= b@);
    }
    true
}

/// The concatenation `a` then `b`.
pub fn concat2(a: &str, b: &str) -> (r: String)
    ensures
        r@ == a@ + b@,
{
    let mut s = a.to_owned();
    s.append(b);
    s
}

/// The concatenation `a`, `b`, then `c`.
pub fn concat3(a: &str, b: &str, c: &str) -> (r: String)
    ensures
        r@ == a@ + b@ + c@,
{
    let mut s = a.to_owned();
    s.append(b);
    s.append(c);
    s
}

/// `dir`, a path separator, then `name`.
pub open spec fn spec_join(dir: Seq<char>, name: Seq<char>) -> Seq<char> {
    dir + "/"@ + name
}

/// Joins a directory and a file name with a path separator.
pub fn join(dir: &str, name: &str) -> (r: String)
    ensures
        r@ == spec_join(dir@, name@),
{
    concat3(dir, "/", name)
}

} // verus!
