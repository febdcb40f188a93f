//! Resolving a device pattern against the devices of its bus.
//!
//! A pattern is a device path in which a segment may hold `*`. Each such
//! segment is exchanged for the first name in the listing of
//! `/sys/bus/{bus}/devices` that matches it. The caller reads that directory
//! and hands the names in.

use vstd::prelude::*;
use vstd::string::*;
use crate::glob::{first_match, first_match_index, glob_matches, lemma_first_match_from};
use crate::text::{
    begins_with, contains_char, index_of_char_from, lemma_next_index_of, next_index_of,
    replace_first, replace_first_in, slice_text, starts_with, texts_of,
};

verus! {

/// Why a pattern could not be resolved.
#[derive(Debug, PartialEq, Eq)]
pub enum ResolutionError {
    /// No name in the listing matches this wildcard segment.
    NoMatch(String),
    /// The pattern names no bus, or the bus has no device directory.
    BusNotFound,
}

/// A resolution error as a mathematical value.
pub enum ResolutionErrorView {
    NoMatch(Seq<char>),
    BusNotFound,
}

impl View for ResolutionError {
    type V = ResolutionErrorView;

    open spec fn view(&self) -> ResolutionErrorView {
        match self {
            ResolutionError::NoMatch(segment) => ResolutionErrorView::NoMatch(segment@),
            ResolutionError::BusNotFound => ResolutionErrorView::BusNotFound,
        }
    }
}

/// The outcome of a resolution as a mathematical value.
pub open spec fn outcome_view(r: Result<String, ResolutionError>) -> Result<
    Seq<char>,
    ResolutionErrorView,
> {
    match r {
        Ok(path) => Ok(path@),
        Err(e) => Err(e@),
    }
}

/// A listing as a mathematical value: the names in their order, or nothing
/// where the directory could not be read.
pub open spec fn listing_view(listing: Option<&Vec<String>>) -> Option<Seq<Seq<char>>> {
    match listing {
        Some(names) => Some(texts_of(names@)),
        None => None,
    }
}

/// The segments of `s`: the texts between its slashes, in order. A text
/// without a slash is one segment, and a slash at either end borders an empty
/// one.
pub open spec fn segments(s: Seq<char>) -> Seq<Seq<char>>
    decreases s.len(),
{
    if s.len() == 0 {
        seq![Seq::empty()]
    } else {
        let before = segments(s.drop_last());
        if s.last() == '/' {
            before.push(Seq::empty())
        } else {
            before.drop_last().push(before.last().push(s.last()))
        }
    }
}

/// A segment is a wildcard segment where it holds a `*`.
pub open spec fn is_wildcard(segment: Seq<char>) -> bool {
    segment.contains('*')
}

/// The wildcard segments of `pattern`, in order.
pub open spec fn wildcard_segments(pattern: Seq<char>) -> Seq<Seq<char>> {
    segments(pattern).filter(|segment: Seq<char>| is_wildcard(segment))
}

/// The bus that `pattern` names: what stands between `/sys/bus/` and the next
/// slash, or the end. Nothing where the pattern begins otherwise or the name
/// is empty.
pub open spec fn bus_of(pattern: Seq<char>) -> Option<Seq<char>> {
    let end = next_index_of(pattern, '/', 9);
    if begins_with(pattern, "/sys/bus/"@) && end > 9 {
        Some(pattern.subrange(9, end))
    } else {
        None
    }
}

/// The directory that lists the devices of the bus that `pattern` names.
pub open spec fn bus_devices_dir_text(pattern: Seq<char>) -> Option<Seq<char>> {
    match bus_of(pattern) {
        Some(bus) => Some("/sys/bus/"@ + bus + "/devices"@),
        None => None,
    }
}

/// `expanded` with the wildcard segment `segment` exchanged, where it first
/// occurs, for the first of `names` that matches it.
pub open spec fn substitution(expanded: Seq<char>, segment: Seq<char>, names: Seq<Seq<char>>) -> Result<
    Seq<char>,
    ResolutionErrorView,
> {
    let at = first_match_index(segment, names);
    if at < 0 {
        Err(ResolutionErrorView::NoMatch(segment))
    } else {
        Ok(replace_first(expanded, segment, names[at]))
    }
}

/// `expanded` after one substitution for each of `wildcards`, in order; the
/// first segment without a match ends it.
pub open spec fn substitute_all(
    wildcards: Seq<Seq<char>>,
    expanded: Seq<char>,
    names: Seq<Seq<char>>,
) -> Result<Seq<char>, ResolutionErrorView>
    decreases wildcards.len(),
{
    if wildcards.len() == 0 {
        Ok(expanded)
    } else {
        match substitution(expanded, wildcards[0], names) {
            Ok(next) => substitute_all(wildcards.drop_first(), next, names),
            Err(e) => Err(e),
        }
    }
}

/// What `pattern` resolves to, given the listing of its bus. A pattern without
/// a wildcard is its own resolution, whatever the listing. One with a wildcard
/// needs a bus and a listing.
pub open spec fn resolution(pattern: Seq<char>, listing: Option<Seq<Seq<char>>>) -> Result<
    Seq<char>,
    ResolutionErrorView,
> {
    let wildcards = wildcard_segments(pattern);
    if wildcards.len() == 0 {
        Ok(pattern)
    } else if bus_of(pattern) is None {
        Err(ResolutionErrorView::BusNotFound)
    } else {
        match listing {
            None => Err(ResolutionErrorView::BusNotFound),
            Some(names) => substitute_all(wildcards, pattern, names),
        }
    }
}

/// The directory that has to be listed before `pattern` can be resolved:
/// that of its bus where the pattern holds a wildcard, none where it holds
/// none or names no bus.
pub open spec fn directory_to_list_text(pattern: Seq<char>) -> Option<Seq<char>> {
    if wildcard_segments(pattern).len() == 0 {
        None
    } else {
        bus_devices_dir_text(pattern)
    }
}

/// A text without `c` has no segment with `c`.
pub proof fn lemma_segments_without(s: Seq<char>, c: char)
    requires
        !s.contains(c),
    ensures
        segments(s).len() > 0,
        forall|i: int| 0 <= i < segments(s).len() ==> !(#[trigger] segments(s)[i]).contains(c),
    decreases s.len(),
{
    if s.len() > 0 {
        let shorter = s.drop_last();
        assert(!shorter.contains(c)) by {
            if shorter.contains(c) {
                let j = choose|j: int| 0 <= j < shorter.len() && shorter[j] == c;
                assert(s[j] == c);
            }
        }
        lemma_segments_without(shorter, c);
        let before = segments(shorter);
        assert(s.last() != c) by {
            assert(s[s.len() - 1] == s.last());
        }
        if s.last() != '/' {
            let grown = before.last().push(s.last());
            assert(!grown.contains(c)) by {
                if grown.contains(c) {
                    let j = choose|j: int| 0 <= j < grown.len() && grown[j] == c;
                    assert(j < before.last().len());
                    assert(before.last()[j] == c);
                }
            }
        }
    }
}

/// A text with `c`, which is no slash, has a segment with `c`.
pub proof fn lemma_segments_with(s: Seq<char>, c: char) -> (i: int)
    requires
        s.contains(c),
        c != '/',
    ensures
        0 <= i < segments(s).len(),
        segments(s)[i].contains(c),
        segments(s).len() > 0,
    decreases s.len(),
{
    let shorter = s.drop_last();
    let before = segments(shorter);
    lemma_segments_nonempty(shorter);
    if s.last() == c {
        let grown = before.last().push(s.last());
        assert(grown[grown.len() - 1] == c);
        before.len() - 1
    } else {
        let j = choose|j: int| 0 <= j < s.len() && s[j] == c;
        assert(shorter[j] == c);
        let i = lemma_segments_with(shorter, c);
        if s.last() != '/' && i == before.len() - 1 {
            let grown = before.last().push(s.last());
            let k = choose|k: int| 0 <= k < before.last().len() && before.last()[k] == c;
            assert(grown[k] == c);
        }
        i
    }
}

/// Every text has at least one segment.
pub proof fn lemma_segments_nonempty(s: Seq<char>)
    ensures
        segments(s).len() > 0,
    decreases s.len(),
{
    if s.len() > 0 {
        lemma_segments_nonempty(s.drop_last());
    }
}

/// A pattern has a wildcard segment exactly where it holds a `*`.
pub proof fn lemma_wildcards_present(pattern: Seq<char>)
    ensures
        wildcard_segments(pattern).len() > 0 <==> pattern.contains('*'),
{
    let pred = |segment: Seq<char>| is_wildcard(segment);
    if pattern.contains('*') {
        let i = lemma_segments_with(pattern, '*');
        segments(pattern).lemma_filter_contains(pred, i);
    } else {
        lemma_segments_without(pattern, '*');
        assert(segments(pattern).all(|segment: Seq<char>| !pred(segment)));
        segments(pattern).lemma_all_neg_filter_empty(pred);
    }
}

/// A pattern without `*` resolves to itself, whatever the listing holds and
/// whether there is one.
pub proof fn lemma_plain_pattern_is_its_own_resolution(
    pattern: Seq<char>,
    listing: Option<Seq<Seq<char>>>,
)
    requires
        !pattern.contains('*'),
    ensures
        resolution(pattern, listing) == Ok::<Seq<char>, ResolutionErrorView>(pattern),
{
    lemma_wildcards_present(pattern);
}

/// A pattern with `*` does not resolve without a bus and a listing.
pub proof fn lemma_wildcard_needs_listing(pattern: Seq<char>, listing: Option<Seq<Seq<char>>>)
    requires
        pattern.contains('*'),
        bus_of(pattern) is None || listing is None,
    ensures
        resolution(pattern, listing) == Err::<Seq<char>, ResolutionErrorView>(
            ResolutionErrorView::BusNotFound,
        ),
{
    lemma_wildcards_present(pattern);
}

/// The first wildcard segment of a pattern is exchanged for the first name of
/// the listing that matches it: the name at `at` matches, and no name before
/// it does. A pattern with that one wildcard segment resolves to the outcome
/// of this exchange.
pub proof fn lemma_first_match_is_taken(pattern: Seq<char>, names: Seq<Seq<char>>, at: int)
    requires
        wildcard_segments(pattern).len() > 0,
        bus_of(pattern) is Some,
        0 <= at < names.len(),
        glob_matches(wildcard_segments(pattern)[0], names[at]),
        forall|j: int| 0 <= j < at ==> !glob_matches(wildcard_segments(pattern)[0], names[j]),
    ensures
        substitution(pattern, wildcard_segments(pattern)[0], names) == Ok::<
            Seq<char>,
            ResolutionErrorView,
        >(replace_first(pattern, wildcard_segments(pattern)[0], names[at])),
        resolution(pattern, Some(names)) == substitute_all(
            wildcard_segments(pattern).drop_first(),
            replace_first(pattern, wildcard_segments(pattern)[0], names[at]),
            names,
        ),
        wildcard_segments(pattern).len() == 1 ==> resolution(pattern, Some(names)) == Ok::<
            Seq<char>,
            ResolutionErrorView,
        >(replace_first(pattern, wildcard_segments(pattern)[0], names[at])),
{
    let segment = wildcard_segments(pattern)[0];
    lemma_first_match_from(segment, names, 0);
    let found = first_match_index(segment, names);
    assert(found == at) by {
        if found == -1 || found > at {
            assert(!glob_matches(segment, names[at]));
        }
    }
    if wildcard_segments(pattern).len() == 1 {
        assert(wildcard_segments(pattern).drop_first().len() == 0);
    }
}

/// Where no name of the listing matches the first wildcard segment of a
/// pattern, the pattern does not resolve, and the error names that segment.
pub proof fn lemma_unmatched_wildcard_fails(pattern: Seq<char>, names: Seq<Seq<char>>)
    requires
        wildcard_segments(pattern).len() > 0,
        bus_of(pattern) is Some,
        forall|j: int|
            0 <= j < names.len() ==> !glob_matches(wildcard_segments(pattern)[0], #[trigger] names[j]),
    ensures
        resolution(pattern, Some(names)) == Err::<Seq<char>, ResolutionErrorView>(
            ResolutionErrorView::NoMatch(wildcard_segments(pattern)[0]),
        ),
{
    let segment = wildcard_segments(pattern)[0];
    lemma_first_match_from(segment, names, 0);
    let found = first_match_index(segment, names);
    assert(found == -1) by {
        if found != -1 {
            assert(glob_matches(segment, names[found]));
        }
    }
}

/// The wildcard segments of `pattern`, in order.
pub fn find_wildcard_segments(pattern: &str) -> (r: Vec<String>)
    ensures
        texts_of(r@) == wildcard_segments(pattern@),
{
    let n = pattern.unicode_len();
    let pred = Ghost(|segment: Seq<char>| is_wildcard(segment));
    let mut out: Vec<String> = Vec::new();
    let mut start: usize = 0;
    let mut i: usize = 0;
    let ghost mut done: Seq<Seq<char>> = Seq::empty();
    proof {
        assert(pattern@.take(0) =~= Seq::<char>::empty());
        assert(pattern@.subrange(0, 0) =~= Seq::<char>::empty());
        assert(segments(pattern@.take(0)) =~= done.push(pattern@.subrange(0, 0)));
        assert(texts_of(out@) =~= done.filter(pred@));
    }
    while i < n
        invariant
            start <= i <= n,
            n == pattern@.len(),
            pred@ == |segment: Seq<char>| is_wildcard(segment),
            segments(pattern@.take(i as int)) == done.push(pattern@.subrange(start as int, i as int)),
            texts_of(out@) == done.filter(pred@),
        decreases n - i,
    {
        let ghost current = pattern@.subrange(start as int, i as int);
        proof {
            assert(pattern@.take(i + 1).drop_last() =~= pattern@.take(i as int));
            assert(done.push(current).drop_last() =~= done);
        }
        if pattern.get_char(i) == '/' {
            let segment = slice_text(pattern, start, i);
            if contains_char(segment.as_str(), '*') {
                out.push(segment);
                proof {
                    assert(texts_of(out@) =~= texts_of(out@.drop_last()).push(current));
                }
            }
            proof {
                done.lemma_filter_push(current, pred@);
                done = done.push(current);
                assert(pattern@.subrange(i + 1, i + 1) =~= Seq::<char>::empty());
            }
            start = i + 1;
        } else {
            proof {
                assert(current.push(pattern@[i as int]) =~= pattern@.subrange(
                    start as int,
                    i + 1,
                ));
            }
        }
        i += 1;
    }
    proof {
        assert(pattern@.take(n as int) =~= pattern@);
    }
    let segment = slice_text(pattern, start, n);
    proof {
        done.lemma_filter_push(segment@, pred@);
    }
    if contains_char(segment.as_str(), '*') {
        out.push(segment);
        proof {
            assert(texts_of(out@) =~= texts_of(out@.drop_last()).push(segment@));
        }
    }
    out
}

/// The directory that lists the devices of the bus that `pattern` names:
/// `/sys/bus/{bus}/devices`. Nothing where the pattern names no bus.
pub fn bus_devices_dir(pattern: &str) -> (r: Option<String>)
    ensures
        match r {
            Some(dir) => bus_devices_dir_text(pattern@) == Some(dir@),
            None => bus_devices_dir_text(pattern@) is None,
        },
{
    proof {
        reveal_strlit("/sys/bus/");
    }
    if !starts_with(pattern, "/sys/bus/") {
        return None;
    }
    let end = index_of_char_from(pattern, '/', 9);
    proof {
        lemma_next_index_of(pattern@, '/', 9);
    }
    if end == 9 {
        return None;
    }
    let mut dir = String::from_str("/sys/bus/");
    dir.append(pattern.substring_char(9, end));
    dir.append("/devices");
    Some(dir)
}

/// The directory that has to be listed before `pattern` can be resolved.
pub fn directory_to_list(pattern: &str) -> (r: Option<String>)
    ensures
        match r {
            Some(dir) => directory_to_list_text(pattern@) == Some(dir@),
            None => directory_to_list_text(pattern@) is None,
        },
{
    proof {
        lemma_wildcards_present(pattern@);
    }
    if contains_char(pattern, '*') {
        bus_devices_dir(pattern)
    } else {
        None
    }
}

/// Puts `matched` where `segment` first occurs in `expanded`. A segment for
/// which nothing matched is an error that names it.
pub fn substitute(expanded: &str, segment: &str, matched: Option<&str>) -> (r: Result<
    String,
    ResolutionError,
>)
    ensures
        outcome_view(r) == match matched {
            Some(name) => Ok::<Seq<char>, ResolutionErrorView>(
                replace_first(expanded@, segment@, name@),
            ),
            None => Err::<Seq<char>, ResolutionErrorView>(ResolutionErrorView::NoMatch(segment@)),
        },
{
    match matched {
        Some(name) => Ok(replace_first_in(expanded, segment, name)),
        None => Err(ResolutionError::NoMatch(String::from_str(segment))),
    }
}

/// Resolves `pattern`. `listing` holds the names in the device directory of
/// the pattern's bus, in the order in which the directory gave them, or
/// nothing where that directory could not be read.
///
/// A pattern without `*` comes back as it is. Otherwise each wildcard segment,
/// from left to right, is exchanged for the first name that matches it.
pub fn expand_wildcards(pattern: &str, listing: Option<&Vec<String>>) -> (r: Result<
    String,
    ResolutionError,
>)
    ensures
        outcome_view(r) == resolution(pattern@, listing_view(listing)),
        !pattern@.contains('*') ==> r is Ok && r->Ok_0@ == pattern@,
{
    proof {
        lemma_wildcards_present(pattern@);
    }
    let wildcards = find_wildcard_segments(pattern);
    if wildcards.len() == 0 {
        return Ok(String::from_str(pattern));
    }
    if bus_devices_dir(pattern).is_none() {
        return Err(ResolutionError::BusNotFound);
    }
    let names = match listing {
        Some(names) => names,
        None => {
            return Err(ResolutionError::BusNotFound);
        },
    };
    let mut expanded = String::from_str(pattern);
    let mut k: usize = 0;
    proof {
        assert(texts_of(wildcards@).skip(0) =~= texts_of(wildcards@));
    }
    while k < wildcards.len()
        invariant
            k <= wildcards.len(),
            pattern@.contains('*'),
            substitute_all(wildcard_segments(pattern@), pattern@, texts_of(names@))
                == substitute_all(texts_of(wildcards@).skip(k as int), expanded@, texts_of(names@)),
            texts_of(wildcards@) == wildcard_segments(pattern@),
            resolution(pattern@, listing_view(listing)) == substitute_all(
                wildcard_segments(pattern@),
                pattern@,
                texts_of(names@),
            ),
        decreases wildcards.len() - k,
    {
        let segment = wildcards[k].as_str();
        proof {
            let rest = texts_of(wildcards@).skip(k as int);
            assert(rest[0] == segment@);
            assert(rest.drop_first() =~= texts_of(wildcards@).skip(k + 1));
        }
        let matched = match first_match(segment, names) {
            Some(at) => Some(names[at].as_str()),
            None => None,
        };
        proof {
            let at = first_match_index(segment@, texts_of(names@));
            assert(at >= 0 ==> matched is Some && matched->0@ == texts_of(names@)[at]);
            assert(at < 0 ==> matched is None);
        }
        match substitute(expanded.as_str(), segment, matched) {
            Ok(next) => {
                expanded = next;
            },
            Err(e) => {
                return Err(e);
            },
        }
        k += 1;
    }
    Ok(expanded)
}

} // verus!
