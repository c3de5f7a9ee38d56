//! Conversions between `&str` / `String` and character vectors.
//!
//! The template engine works on vectors of characters, which have full
//! sequence reasoning support; these helpers move text across that boundary.

use vstd::prelude::*;

verus! {

/// Collect the characters of a string slice into a vector.
pub fn str_to_chars(s: &str) -> (r: Vec<char>)
    ensures
        r@ == s@,
{
    let n = s.unicode_len();
    let mut r: Vec<char> = Vec::new();
    let mut i: usize = 0;
    while i < n
        invariant
            i <= n,
            n == s@.len(),
            r@ == s@.subrange(0, i as int),
        decreases n - i,
    {
        r.push(s.get_char(i));
        i = i + 1;
        proof {
            assert(r@ =~= s@.subrange(0, i as int));
        }
    }
    proof {
        assert(r@ =~= s@);
    }
    r
}

/// Relies on `core::iter::Iterator::collect` building a `String` from the
/// characters of the vector, in order.
#[verifier::external_body]
pub fn chars_to_string(v: &Vec<char>) -> (r: String)
    ensures
        r@ == v@,
{
    v.iter().collect()
}

/// Whether `pat` occurs in `s` starting exactly at `i`.
pub open spec fn spec_match_at(s: Seq<char>, pat: Seq<char>, i: int) -> bool {
    0 <= i && i + pat.len() <= s.len() && s.subrange(i, i + pat.len()) == pat
}

/// The first index at or after `from` where `pat` occurs in `s`.
pub open spec fn spec_find(s: Seq<char>, pat: Seq<char>, from: int) -> Option<int>
    decreases s.len() - from,
{
    if from < 0 || from + pat.len() > s.len() {
        Option::None
    } else if pat.len() == 0 {
        Option::Some(from)
    } else if spec_match_at(s, pat, from) {
        Option::Some(from)
    } else {
        spec_find(s, pat, from + 1)
    }
}

/// Does `pat` occur in `s` at position `i`?
pub fn match_at(s: &Vec<char>, pat: &Vec<char>, i: usize) -> (r: bool)
    ensures
        r == spec_match_at(s@, pat@, i as int),
{
    if i > s.len() || pat.len() > s.len() - i {
        return false;
    }
    let mut j: usize = 0;
    let mut k: usize = i;
    while j < pat.len()
        invariant
            j <= pat@.len(),
            k == i + j,
            s@.len() <= usize::MAX,
            i + pat@.len() <= s@.len(),
            forall|m: int| 0 <= m < j ==> s@[i + m] == pat@[m],
        decreases pat@.len() - j,
    {
        if s[k] != pat[j] {
            proof {
                assert(s@.subrange(i as int, i + pat@.len())[j as int] == s@[i + j]);
            }
            return false;
        }
        j = j + 1;
        k = k + 1;
    }
    proof {
        assert(s@.subrange(i as int, i + pat@.len()) =~= pat@);
    }
    true
}

/// Find the first occurrence of `pat` in `s` at or after `from`.
pub fn find_from(s: &Vec<char>, pat: &Vec<char>, from: usize) -> (r: Option<usize>)
    ensures
        match spec_find(s@, pat@, from as int) {
            Option::Some(j) => r.is_some() && r.unwrap() as int == j,
            Option::None => r.is_none(),
        },
{
    if pat.len() > s.len() {
        return None;
    }
    if pat.len() == 0 {
        if from <= s.len() {
            return Some(from);
        }
        return None;
    }
    let limit = s.len() - pat.len();
    let mut i: usize = from;
    while i <= limit
        invariant
            pat@.len() >= 1,
            s@.len() <= usize::MAX,
            limit == s@.len() - pat@.len(),
            spec_find(s@, pat@, from as int) == spec_find(s@, pat@, i as int),
        decreases limit + 1 - i,
    {
        if match_at(s, pat, i) {
            return Some(i);
        }
        i = i + 1;
    }
    None
}

/// The characters treated as whitespace by the scanner.
pub open spec fn spec_is_space(c: char) -> bool {
    c == ' ' || c == '\t' || c == '\n' || c == '\r'
}

fn is_space(c: char) -> (r: bool)
    ensures
        r == spec_is_space(c),
{
    c == ' ' || c == '\t' || c == '\n' || c == '\r'
}

/// The first index at or after `i` holding a character `c` with `!p(c)`,
/// where `p` marks characters to skip: here, whitespace.
pub open spec fn spec_skip_spaces(s: Seq<char>, i: int) -> int
    decreases s.len() - i,
{
    if i < 0 || i >= s.len() {
        s.len() as int
    } else if spec_is_space(s[i]) {
        spec_skip_spaces(s, i + 1)
    } else {
        i
    }
}

/// The end of `s` once trailing whitespace before `e` is dropped.
pub open spec fn spec_rtrim_spaces(s: Seq<char>, e: int) -> int
    decreases e,
{
    if e <= 0 || e > s.len() {
        0
    } else if spec_is_space(s[e - 1]) {
        spec_rtrim_spaces(s, e - 1)
    } else {
        e
    }
}

/// `s` with leading and trailing whitespace removed.
pub open spec fn spec_trim(s: Seq<char>) -> Seq<char> {
    let b = spec_skip_spaces(s, 0);
    let e = spec_rtrim_spaces(s, s.len() as int);
    if b >= e {
        Seq::empty()
    } else {
        s.subrange(b, e)
    }
}

/// Copy the characters of `s` between `lo` and `hi`.
pub fn copy_range(s: &Vec<char>, lo: usize, hi: usize) -> (r: Vec<char>)
    requires
        lo <= hi <= s@.len(),
    ensures
        r@ == s@.subrange(lo as int, hi as int),
{
    let mut r: Vec<char> = Vec::new();
    let mut i: usize = lo;
    while i < hi
        invariant
            lo <= i <= hi <= s@.len(),
            r@ == s@.subrange(lo as int, i as int),
        decreases hi - i,
    {
        r.push(s[i]);
        i = i + 1;
        proof {
            assert(r@ =~= s@.subrange(lo as int, i as int));
        }
    }
    r
}

/// Trim whitespace from both ends of `s`.
pub fn trim_chars(s: &Vec<char>) -> (r: Vec<char>)
    ensures
        r@ == spec_trim(s@),
{
    let mut b: usize = 0;
    while b < s.len() && is_space(s[b])
        invariant
            b <= s@.len(),
            spec_skip_spaces(s@, 0) == spec_skip_spaces(s@, b as int),
        decreases s@.len() - b,
    {
        b = b + 1;
    }
    let mut e: usize = s.len();
    while e > 0 && is_space(s[e - 1])
        invariant
            e <= s@.len(),
            spec_rtrim_spaces(s@, s@.len() as int) == spec_rtrim_spaces(s@, e as int),
        decreases e,
    {
        e = e - 1;
    }
    if b >= e {
        proof {
            assert(spec_skip_spaces(s@, b as int) == b);
            assert(spec_rtrim_spaces(s@, e as int) == e || e == 0);
        }
        Vec::new()
    } else {
        copy_range(s, b, e)
    }
}

/// `s` stripped of every leading and trailing quote character.
pub open spec fn spec_skip_quotes(s: Seq<char>, i: int) -> int
    decreases s.len() - i,
{
    if i < 0 || i >= s.len() {
        s.len() as int
    } else if s[i] == '"' {
        spec_skip_quotes(s, i + 1)
    } else {
        i
    }
}

/// The end of `s` once trailing quote characters before `e` are dropped.
pub open spec fn spec_rtrim_quotes(s: Seq<char>, e: int) -> int
    decreases e,
{
    if e <= 0 || e > s.len() {
        0
    } else if s[e - 1] == '"' {
        spec_rtrim_quotes(s, e - 1)
    } else {
        e
    }
}

/// `s` with every leading and trailing quote character removed.
pub open spec fn spec_strip_quotes(s: Seq<char>) -> Seq<char> {
    let b = spec_skip_quotes(s, 0);
    let e = spec_rtrim_quotes(s, s.len() as int);
    if b >= e {
        Seq::empty()
    } else {
        s.subrange(b, e)
    }
}

/// Strip leading and trailing quote characters from `s`.
pub fn strip_quotes(s: &Vec<char>) -> (r: Vec<char>)
    ensures
        r@ == spec_strip_quotes(s@),
{
    let mut b: usize = 0;
    while b < s.len() && s[b] == '"'
        invariant
            b <= s@.len(),
            spec_skip_quotes(s@, 0) == spec_skip_quotes(s@, b as int),
        decreases s@.len() - b,
    {
        b = b + 1;
    }
    let mut e: usize = s.len();
    while e > 0 && s[e - 1] == '"'
        invariant
            e <= s@.len(),
            spec_rtrim_quotes(s@, s@.len() as int) == spec_rtrim_quotes(s@, e as int),
        decreases e,
    {
        e = e - 1;
    }
    if b >= e {
        proof {
            assert(spec_skip_quotes(s@, b as int) == b);
            assert(spec_rtrim_quotes(s@, e as int) == e || e == 0);
        }
        Vec::new()
    } else {
        copy_range(s, b, e)
    }
}

/// The first index at or after `from` holding character `c`.
pub open spec fn spec_find_char(s: Seq<char>, c: char, from: int) -> Option<int>
    decreases s.len() - from,
{
    if from < 0 || from >= s.len() {
        Option::None
    } else if s[from] == c {
        Option::Some(from)
    } else {
        spec_find_char(s, c, from + 1)
    }
}

/// Find the first occurrence of character `c` in `s` at or after `from`.
pub fn find_char_from(s: &Vec<char>, c: char, from: usize) -> (r: Option<usize>)
    ensures
        match spec_find_char(s@, c, from as int) {
            Option::Some(j) => r.is_some() && r.unwrap() as int == j && 0 <= j < s@.len(),
            Option::None => r.is_none(),
        },
{
    let mut i: usize = from;
    while i < s.len()
        invariant
            spec_find_char(s@, c, from as int) == spec_find_char(s@, c, i as int),
        decreases s@.len() - i,
    {
        if s[i] == c {
            return Some(i);
        }
        i = i + 1;
    }
    None
}

/// The pieces of `s` from `i` on, split at each occurrence of `sep`.
pub open spec fn spec_split_from(s: Seq<char>, sep: char, i: int) -> Seq<Seq<char>>
    decreases s.len() - i,
{
    if i < 0 || i > s.len() {
        Seq::empty()
    } else {
        match spec_find_char(s, sep, i) {
            Option::None => seq![s.subrange(i, s.len() as int)],
            Option::Some(j) => if i <= j < s.len() {
                seq![s.subrange(i, j)] + spec_split_from(s, sep, j + 1)
            } else {
                seq![s.subrange(i, s.len() as int)]
            },
        }
    }
}

pub proof fn lemma_find_char_in_range(s: Seq<char>, c: char, from: int)
    requires
        0 <= from,
    ensures
        match spec_find_char(s, c, from) {
            Option::Some(j) => from <= j < s.len(),
            Option::None => true,
        },
    decreases s.len() - from,
{
    if 0 <= from < s.len() && s[from] != c {
        lemma_find_char_in_range(s, c, from + 1);
    }
}

/// Append to `out` the pieces of `s` from `i` on, split at `sep`.
fn split_append(s: &Vec<char>, sep: char, i: usize, out: &mut Vec<Vec<char>>)
    requires
        i <= s@.len(),
    ensures
        final(out)@.len() == old(out)@.len() + spec_split_from(s@, sep, i as int).len(),
        forall|k: int| 0 <= k < old(out)@.len() ==> final(out)@[k] == old(out)@[k],
        forall|k: int|
            0 <= k < spec_split_from(s@, sep, i as int).len() ==> final(out)@[old(out)@.len() + k]@
                == spec_split_from(s@, sep, i as int)[k],
    decreases s@.len() - i,
{
    proof {
        lemma_find_char_in_range(s@, sep, i as int);
    }
    match find_char_from(s, sep, i) {
        None => {
            out.push(copy_range(s, i, s.len()));
        },
        Some(j) => {
            assert(s@.len() <= usize::MAX) by {
                assert(s.len() == s@.len());
            }
            out.push(copy_range(s, i, j));
            split_append(s, sep, j + 1, out);
        },
    }
}

/// Split `s` at every occurrence of `sep`, from index `i` on.
pub fn split_from(s: &Vec<char>, sep: char, i: usize) -> (r: Vec<Vec<char>>)
    requires
        i <= s@.len(),
    ensures
        r@.len() == spec_split_from(s@, sep, i as int).len(),
        forall|k: int| 0 <= k < r@.len() ==> r@[k]@ == spec_split_from(s@, sep, i as int)[k],
{
    let mut r: Vec<Vec<char>> = Vec::new();
    split_append(s, sep, i, &mut r);
    r
}

fn push_chars_local(dst: &mut Vec<char>, src: &Vec<char>)
    ensures
        final(dst)@ == old(dst)@ + src@,
{
    crate::value::push_chars(dst, src)
}

/// The first index at or after `j` holding whitespace, or the length.
pub open spec fn spec_token_end(s: Seq<char>, j: int) -> int
    decreases s.len() - j,
{
    if j < 0 || j >= s.len() {
        s.len() as int
    } else if spec_is_space(s[j]) {
        j
    } else {
        spec_token_end(s, j + 1)
    }
}

proof fn lemma_skip_spaces_range(s: Seq<char>, i: int)
    requires
        0 <= i,
    ensures
        i <= spec_skip_spaces(s, i) || spec_skip_spaces(s, i) == s.len(),
        spec_skip_spaces(s, i) <= s.len(),
    decreases s.len() - i,
{
    if 0 <= i < s.len() && spec_is_space(s[i]) {
        lemma_skip_spaces_range(s, i + 1);
    }
}

proof fn lemma_token_end_range(s: Seq<char>, j: int)
    requires
        0 <= j,
    ensures
        j <= spec_token_end(s, j) || spec_token_end(s, j) == s.len(),
        spec_token_end(s, j) <= s.len(),
    decreases s.len() - j,
{
    if 0 <= j < s.len() && !spec_is_space(s[j]) {
        lemma_token_end_range(s, j + 1);
    }
}

/// The whitespace-separated tokens of `s` from index `i` on.
pub open spec fn spec_tokens_from(s: Seq<char>, i: int) -> Seq<Seq<char>>
    decreases s.len() - i,
{
    if i < 0 {
        Seq::empty()
    } else {
        let b = spec_skip_spaces(s, i);
        if b >= s.len() || b < i {
            Seq::empty()
        } else {
            let e = spec_token_end(s, b);
            if e <= b || e > s.len() {
                Seq::empty()
            } else {
                seq![s.subrange(b, e)] + spec_tokens_from(s, e)
            }
        }
    }
}

fn tokens_append(s: &Vec<char>, i: usize, out: &mut Vec<Vec<char>>)
    ensures
        final(out)@.len() == old(out)@.len() + spec_tokens_from(s@, i as int).len(),
        forall|k: int| 0 <= k < old(out)@.len() ==> final(out)@[k] == old(out)@[k],
        forall|k: int|
            0 <= k < spec_tokens_from(s@, i as int).len() ==> final(out)@[old(out)@.len() + k]@
                == spec_tokens_from(s@, i as int)[k],
    decreases s@.len() - i,
{
    proof {
        lemma_skip_spaces_range(s@, i as int);
    }
    let mut b: usize = i;
    if b > s.len() {
        return ;
    }
    while b < s.len() && is_space(s[b])
        invariant
            i <= b <= s@.len(),
            spec_skip_spaces(s@, i as int) == spec_skip_spaces(s@, b as int),
        decreases s@.len() - b,
    {
        b = b + 1;
    }
    if b >= s.len() {
        return ;
    }
    proof {
        assert(spec_skip_spaces(s@, b as int) == b);
        lemma_token_end_range(s@, b as int);
    }
    let mut e: usize = b;
    while e < s.len() && !is_space(s[e])
        invariant
            b <= e <= s@.len(),
            spec_token_end(s@, b as int) == spec_token_end(s@, e as int),
        decreases s@.len() - e,
    {
        e = e + 1;
    }
    proof {
        assert(spec_token_end(s@, e as int) == e);
    }
    out.push(copy_range(s, b, e));
    tokens_append(s, e, out);
}

/// Split `s` into whitespace-separated tokens.
pub fn tokens_of(s: &Vec<char>) -> (r: Vec<Vec<char>>)
    ensures
        r@.len() == spec_tokens_from(s@, 0).len(),
        forall|k: int| 0 <= k < r@.len() ==> r@[k]@ == spec_tokens_from(s@, 0)[k],
{
    let mut r: Vec<Vec<char>> = Vec::new();
    tokens_append(s, 0, &mut r);
    r
}

/// `s` split at the first occurrence of `c`: the text before and after it.
pub open spec fn spec_split_once(s: Seq<char>, c: char) -> Option<(Seq<char>, Seq<char>)> {
    match spec_find_char(s, c, 0) {
        Option::None => Option::None,
        Option::Some(j) => if 0 <= j < s.len() {
            Option::Some((s.subrange(0, j), s.subrange(j + 1, s.len() as int)))
        } else {
            Option::None
        },
    }
}

/// Split `s` at the first occurrence of `c`.
pub fn split_once_at(s: &Vec<char>, c: char) -> (r: Option<(Vec<char>, Vec<char>)>)
    ensures
        match spec_split_once(s@, c) {
            Option::Some(p) => r.is_some() && r.unwrap().0@ == p.0 && r.unwrap().1@ == p.1,
            Option::None => r.is_none(),
        },
{
    match find_char_from(s, c, 0) {
        None => None,
        Some(j) => {
            assert(s@.len() <= usize::MAX) by {
                assert(s.len() == s@.len());
            }
            let before = copy_range(s, 0, j);
            let after = copy_range(s, j + 1, s.len());
            Some((before, after))
        },
    }
}

/// Whether character `c` occurs in `s`.
pub open spec fn spec_contains_char(s: Seq<char>, c: char) -> bool {
    spec_find_char(s, c, 0) is Some
}

/// Does character `c` occur in `s`?
pub fn contains_char(s: &Vec<char>, c: char) -> (r: bool)
    ensures
        r == spec_contains_char(s@, c),
{
    match find_char_from(s, c, 0) {
        Some(_) => true,
        None => false,
    }
}

/// `s` from `i` on with every occurrence of `pat` replaced by `repl`,
/// scanning left to right without revisiting replaced text. An empty
/// pattern replaces nothing.
pub open spec fn spec_replace_from(s: Seq<char>, pat: Seq<char>, repl: Seq<char>, i: int) -> Seq<
    char,
>
    decreases s.len() - i,
{
    if i < 0 || i >= s.len() || pat.len() == 0 {
        if 0 <= i <= s.len() {
            s.subrange(i, s.len() as int)
        } else {
            Seq::empty()
        }
    } else {
        match spec_find(s, pat, i) {
            Option::None => s.subrange(i, s.len() as int),
            Option::Some(j) => if i <= j && j + pat.len() <= s.len() {
                s.subrange(i, j) + repl + spec_replace_from(s, pat, repl, j + pat.len())
            } else {
                s.subrange(i, s.len() as int)
            },
        }
    }
}

pub proof fn lemma_find_in_range(s: Seq<char>, pat: Seq<char>, from: int)
    requires
        0 <= from,
    ensures
        match spec_find(s, pat, from) {
            Option::Some(j) => from <= j && j + pat.len() <= s.len(),
            Option::None => true,
        },
    decreases s.len() - from,
{
    if from + pat.len() <= s.len() && pat.len() > 0 && !spec_match_at(s, pat, from) {
        lemma_find_in_range(s, pat, from + 1);
    }
}

/// Replace every occurrence of `pat` in `s` by `repl`, from `i` on.
pub fn replace_from(s: &Vec<char>, pat: &Vec<char>, repl: &Vec<char>, i: usize) -> (r: Vec<char>)
    requires
        i <= s@.len(),
    ensures
        r@ == spec_replace_from(s@, pat@, repl@, i as int),
    decreases s@.len() - i,
{
    if i >= s.len() || pat.len() == 0 {
        return copy_range(s, i, s.len());
    }
    proof {
        lemma_find_in_range(s@, pat@, i as int);
    }
    match find_from(s, pat, i) {
        None => copy_range(s, i, s.len()),
        Some(j) => {
            let mut r = copy_range(s, i, j);
            push_chars_local(&mut r, repl);
            let rest = replace_from(s, pat, repl, j + pat.len());
            push_chars_local(&mut r, &rest);
            proof {
                assert(r@ =~= spec_replace_from(s@, pat@, repl@, i as int));
            }
            r
        },
    }
}

} // verus!
