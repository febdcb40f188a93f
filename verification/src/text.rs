//! Small operations on text, stated over sequences of characters.

use vstd::prelude::*;
use vstd::string::*;

verus! {

/// `needle` occurs in `hay` at offset `at`.
pub open spec fn occurs_at(hay: Seq<char>, needle: Seq<char>, at: int) -> bool {
    &&& 0 <= at
    &&& at + needle.len() <= hay.len()
    &&& hay.subrange(at, at + needle.len()) == needle
}

/// `hay` begins with `prefix`.
pub open spec fn begins_with(hay: Seq<char>, prefix: Seq<char>) -> bool {
    occurs_at(hay, prefix, 0)
}

/// The views of the texts in `v`.
pub open spec fn texts_of(v: Seq<String>) -> Seq<Seq<char>> {
    v.map_values(|s: String| s@)
}

/// The first offset at or after `from` at which `c` stands in `s`, or the
/// length of `s` where there is none.
pub open spec fn next_index_of(s: Seq<char>, c: char, from: int) -> int
    decreases s.len() - from,
{
    if from < 0 || from >= s.len() {
        s.len() as int
    } else if s[from] == c {
        from
    } else {
        next_index_of(s, c, from + 1)
    }
}

/// The first offset at or after `from` at which `needle` occurs in `hay`,
/// or -1 where it does not occur there.
pub open spec fn first_occurrence_from(hay: Seq<char>, needle: Seq<char>, from: int) -> int
    decreases hay.len() + 1 - from,
{
    if from < 0 || from + needle.len() > hay.len() {
        -1
    } else if occurs_at(hay, needle, from) {
        from
    } else {
        first_occurrence_from(hay, needle, from + 1)
    }
}

/// The first offset at which `needle` occurs in `hay`, or -1.
pub open spec fn first_occurrence(hay: Seq<char>, needle: Seq<char>) -> int {
    first_occurrence_from(hay, needle, 0)
}

/// `hay` with its first occurrence of `needle` exchanged for `with`;
/// `hay` itself where `needle` does not occur.
pub open spec fn replace_first(hay: Seq<char>, needle: Seq<char>, with: Seq<char>) -> Seq<char> {
    let at = first_occurrence(hay, needle);
    if at < 0 {
        hay
    } else {
        hay.subrange(0, at) + with + hay.subrange(at + needle.len(), hay.len() as int)
    }
}

/// What `next_index_of` finds is the least offset that holds `c`.
pub proof fn lemma_next_index_of(s: Seq<char>, c: char, from: int)
    requires
        0 <= from <= s.len(),
    ensures
        from <= next_index_of(s, c, from) <= s.len(),
        next_index_of(s, c, from) < s.len() ==> s[next_index_of(s, c, from)] == c,
        forall|j: int| from <= j < next_index_of(s, c, from) ==> s[j] != c,
    decreases s.len() - from,
{
    if from < s.len() && s[from] != c {
        lemma_next_index_of(s, c, from + 1);
    }
}

/// An offset that holds `c`, with no `c` between `from` and it, is the one
/// that `next_index_of` finds.
pub proof fn lemma_next_index_is(s: Seq<char>, c: char, from: int, at: int)
    requires
        0 <= from <= at < s.len(),
        s[at] == c,
        forall|j: int| from <= j < at ==> s[j] != c,
    ensures
        next_index_of(s, c, from) == at,
    decreases at - from,
{
    if from < at {
        lemma_next_index_is(s, c, from + 1, at);
    }
}

/// What `first_occurrence_from` finds is the least offset of an occurrence.
pub proof fn lemma_first_occurrence_from(hay: Seq<char>, needle: Seq<char>, from: int)
    requires
        0 <= from,
    ensures
        ({
            let at = first_occurrence_from(hay, needle, from);
            &&& at == -1 || (from <= at && occurs_at(hay, needle, at))
            &&& forall|j: int| from <= j && (at == -1 || j < at) ==> !occurs_at(hay, needle, j)
        }),
    decreases hay.len() + 1 - from,
{
    if from + needle.len() <= hay.len() && !occurs_at(hay, needle, from) {
        lemma_first_occurrence_from(hay, needle, from + 1);
    }
}

/// Whether `needle` stands in `hay` at character offset `at`.
pub fn matches_at(hay: &str, needle: &str, at: usize) -> (r: bool)
    ensures
        r == occurs_at(hay@, needle@, at as int),
{
    let n = hay.unicode_len();
    let m = needle.unicode_len();
    if at > n || m > n - at {
        return false;
    }
    let mut k: usize = 0;
    while k < m
        invariant
            k <= m,
            m == needle@.len(),
            n == hay@.len(),
            at + m <= n,
            forall|j: int| 0 <= j < k ==> hay@[at + j] == needle@[j],
        decreases m - k,
    {
        if hay.get_char(at + k) != needle.get_char(k) {
            assert(hay@.subrange(at as int, at + m)[k as int] != needle@[k as int]);
            return false;
        }
        k += 1;
    }
    assert(hay@.subrange(at as int, at + m) =~= needle@);
    true
}

/// Whether two texts hold the same characters.
pub fn same_text(a: &str, b: &str) -> (r: bool)
    ensures
        r == (a@ == b@),
{
    let n = a.unicode_len();
    if b.unicode_len() != n {
        return false;
    }
    let r = matches_at(a, b, 0);
    assert(a@.subrange(0, n as int) =~= a@);
    r
}

/// Whether `text` begins with `prefix`.
pub fn starts_with(text: &str, prefix: &str) -> (r: bool)
    ensures
        r == begins_with(text@, prefix@),
{
    matches_at(text, prefix, 0)
}

/// Whether the character `c` stands anywhere in `text`.
pub fn contains_char(text: &str, c: char) -> (r: bool)
    ensures
        r == text@.contains(c),
{
    let n = text.unicode_len();
    let mut i: usize = 0;
    while i < n
        invariant
            i <= n,
            n == text@.len(),
            forall|j: int| 0 <= j < i ==> text@[j] != c,
        decreases n - i,
    {
        if text.get_char(i) == c {
            return true;
        }
        i += 1;
    }
    false
}

/// The offset of the first `c` at or after `from`, or the length of `text`.
pub fn index_of_char_from(text: &str, c: char, from: usize) -> (r: usize)
    ensures
        r == next_index_of(text@, c, from as int),
{
    let n = text.unicode_len();
    if from >= n {
        return n;
    }
    let mut i: usize = from;
    while i < n
        invariant
            from <= i <= n,
            n == text@.len(),
            next_index_of(text@, c, from as int) == next_index_of(text@, c, i as int),
        decreases n - i,
    {
        if text.get_char(i) == c {
            return i;
        }
        i += 1;
    }
    i
}

/// The characters of `text` from offset `from` up to `to`, as an owned text.
pub fn slice_text(text: &str, from: usize, to: usize) -> (r: String)
    requires
        from <= to <= text@.len(),
    ensures
        r@ == text@.subrange(from as int, to as int),
{
    String::from_str(text.substring_char(from, to))
}

/// The offset of the first occurrence of `needle` in `hay`.
pub fn find_first(hay: &str, needle: &str) -> (r: Option<usize>)
    ensures
        match r {
            Some(at) => at == first_occurrence(hay@, needle@),
            None => first_occurrence(hay@, needle@) == -1,
        },
{
    let n = hay.unicode_len();
    let m = needle.unicode_len();
    if m > n {
        return None;
    }
    let last = n - m;
    let mut i: usize = 0;
    loop
        invariant
            i <= last,
            last == n - m,
            n == hay@.len(),
            m == needle@.len(),
            first_occurrence(hay@, needle@) == first_occurrence_from(hay@, needle@, i as int),
        decreases last - i,
    {
        if matches_at(hay, needle, i) {
            return Some(i);
        }
        if i == last {
            assert(first_occurrence_from(hay@, needle@, i + 1) == -1);
            return None;
        }
        i += 1;
    }
}

/// `hay` with its first occurrence of `needle` exchanged for `with`.
pub fn replace_first_in(hay: &str, needle: &str, with: &str) -> (r: String)
    ensures
        r@ == replace_first(hay@, needle@, with@),
{
    match find_first(hay, needle) {
        None => String::from_str(hay),
        Some(at) => {
            let n = hay.unicode_len();
            let m = needle.unicode_len();
            proof {
                lemma_first_occurrence_from(hay@, needle@, 0);
            }
            let mut out = slice_text(hay, 0, at);
            out.append(with);
            out.append(hay.substring_char(at + m, n));
            out
        },
    }
}

} // verus!
