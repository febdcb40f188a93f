//! Matching a name against a wildcard segment.
//!
//! In a segment only `*` is a wildcard: it stands for any run of characters,
//! and every other character stands for itself. A segment such as `1.*` is
//! written as the regular expression `^1\.(?s:.*)$`, and the regular
//! expression engine decides whether a name matches it.

use vstd::prelude::*;
use vstd::string::*;
use crate::text::texts_of;

verus! {

/// The characters that the regular expression engine reads as syntax where
/// they stand unescaped.
pub open spec fn is_regex_syntax(c: char) -> bool {
    ||| c == '\\'
    ||| c == '.'
    ||| c == '+'
    ||| c == '*'
    ||| c == '?'
    ||| c == '('
    ||| c == ')'
    ||| c == '|'
    ||| c == '['
    ||| c == ']'
    ||| c == '{'
    ||| c == '}'
    ||| c == '^'
    ||| c == '$'
    ||| c == '#'
}

/// How one character of a segment is written in a regular expression: `*` as
/// the expression for any run of characters, line feeds among them; a
/// character of the engine's syntax with a backslash before it; any other
/// character as it is.
pub open spec fn char_as_regex(c: char) -> Seq<char> {
    if c == '*' {
        "(?s:.*)"@
    } else if is_regex_syntax(c) {
        seq!['\\', c]
    } else {
        seq![c]
    }
}

/// `s` with each of its characters written as a regular expression.
pub open spec fn segment_as_regex(s: Seq<char>) -> Seq<char>
    decreases s.len(),
{
    if s.len() == 0 {
        Seq::empty()
    } else {
        segment_as_regex(s.drop_last()) + char_as_regex(s.last())
    }
}

/// The regular expression that stands for `segment`: anchored at both ends of
/// the name, with `*` as the only wildcard.
pub open spec fn glob_regex(segment: Seq<char>) -> Seq<char> {
    "^"@ + segment_as_regex(segment) + "$"@
}

/// Whether the regular expression engine reads `c` as syntax.
pub fn reads_as_syntax(c: char) -> (r: bool)
    ensures
        r == is_regex_syntax(c),
{
    c == '\\' || c == '.' || c == '+' || c == '*' || c == '?' || c == '(' || c == ')' || c == '|'
        || c == '[' || c == ']' || c == '{' || c == '}' || c == '^' || c == '$' || c == '#'
}

/// Writes `segment` as a regular expression.
pub fn glob_pattern(segment: &str) -> (r: String)
    ensures
        r@ == glob_regex(segment@),
{
    let n = segment.unicode_len();
    let mut out = String::from_str("^");
    let mut i: usize = 0;
    while i < n
        invariant
            i <= n,
            n == segment@.len(),
            out@ == "^"@ + segment_as_regex(segment@.take(i as int)),
        decreases n - i,
    {
        proof {
            reveal_strlit("\\");
            assert(segment@.take(i + 1).drop_last() =~= segment@.take(i as int));
            assert(segment@.subrange(i as int, i + 1) =~= seq![segment@[i as int]]);
            assert("\\"@ + seq![segment@[i as int]] =~= seq!['\\', segment@[i as int]]);
        }
        let c = segment.get_char(i);
        if c == '*' {
            out.append("(?s:.*)");
        } else {
            if reads_as_syntax(c) {
                out.append("\\");
            }
            out.append(segment.substring_char(i, i + 1));
        }
        i += 1;
    }
    proof {
        assert(segment@.take(n as int) =~= segment@);
    }
    out.append("$");
    out
}

/// The error of the regular expression engine, `fancy_regex::Error`. It is
/// carried through unread.
#[verifier::external_type_specification]
#[verifier::external_body]
pub struct ExRegexError(fancy_regex::Error);

/// What the regular expression engine answers when the expression `pattern`
/// is compiled and tried on `text`: `Some(true)` where it matches somewhere in
/// `text`, `Some(false)` where it does not, `None` where the engine gives an
/// error, be it for the expression or while it runs.
pub uninterp spec fn regex_verdict(pattern: Seq<char>, text: Seq<char>) -> Option<bool>;

/// Compiles `pattern` with `fancy_regex::Regex::new` and tries it on `text`
/// with `Regex::is_match`. Both are functions of their arguments alone, so the
/// answer is the engine's verdict on the two texts; an error of either call
/// comes back as it is.
#[verifier::external_body]
fn regex_is_match(pattern: &str, text: &str) -> (r: Result<bool, fancy_regex::Error>)
    ensures
        match r {
            Ok(found) => regex_verdict(pattern@, text@) == Some(found),
            Err(_) => regex_verdict(pattern@, text@) is None,
        },
{
    fancy_regex::Regex::new(pattern)?.is_match(text)
}

/// `name` matches the wildcard segment `segment`: the engine finds the
/// segment's regular expression in it. Where the engine gives an error, the
/// name does not match.
pub open spec fn glob_matches(segment: Seq<char>, name: Seq<char>) -> bool {
    regex_verdict(glob_regex(segment), name) == Some(true)
}

/// How the engine's answer is taken: a match is a match, and an error is none.
pub fn verdict_accepts(verdict: Result<bool, fancy_regex::Error>) -> (r: bool)
    ensures
        r == (verdict matches Ok(found) && found),
{
    match verdict {
        Ok(found) => found,
        Err(_) => false,
    }
}

/// Whether `name` matches the wildcard segment `segment`.
pub fn matches_glob(segment: &str, name: &str) -> (r: bool)
    ensures
        r == glob_matches(segment@, name@),
{
    let pattern = glob_pattern(segment);
    verdict_accepts(regex_is_match(pattern.as_str(), name))
}

/// The offset of the first name at or after `from` that matches `segment`, or
/// -1 where none does.
pub open spec fn first_match_from(segment: Seq<char>, names: Seq<Seq<char>>, from: int) -> int
    decreases names.len() - from,
{
    if from < 0 || from >= names.len() {
        -1
    } else if glob_matches(segment, names[from]) {
        from
    } else {
        first_match_from(segment, names, from + 1)
    }
}

/// The offset of the first name that matches `segment`, or -1.
pub open spec fn first_match_index(segment: Seq<char>, names: Seq<Seq<char>>) -> int {
    first_match_from(segment, names, 0)
}

/// What `first_match_from` finds matches, and nothing between `from` and it
/// does; where it finds nothing, nothing from `from` on matches.
pub proof fn lemma_first_match_from(segment: Seq<char>, names: Seq<Seq<char>>, from: int)
    requires
        0 <= from,
    ensures
        ({
            let at = first_match_from(segment, names, from);
            &&& at == -1 || (from <= at < names.len() && glob_matches(segment, names[at]))
            &&& forall|j: int|
                from <= j < names.len() && (at == -1 || j < at) ==> !glob_matches(
                    segment,
                    #[trigger] names[j],
                )
        }),
    decreases names.len() - from,
{
    if from < names.len() && !glob_matches(segment, names[from]) {
        lemma_first_match_from(segment, names, from + 1);
    }
}

/// The first of `names`, in their order, that matches `segment`.
pub fn first_match(segment: &str, names: &Vec<String>) -> (r: Option<usize>)
    ensures
        match r {
            Some(at) => at < names.len() && at == first_match_index(segment@, texts_of(names@)),
            None => first_match_index(segment@, texts_of(names@)) == -1,
        },
{
    let mut i: usize = 0;
    while i < names.len()
        invariant
            i <= names.len(),
            first_match_index(segment@, texts_of(names@)) == first_match_from(
                segment@,
                texts_of(names@),
                i as int,
            ),
        decreases names.len() - i,
    {
        if matches_glob(segment, names[i].as_str()) {
            return Some(i);
        }
        i += 1;
    }
    None
}

} // verus!
