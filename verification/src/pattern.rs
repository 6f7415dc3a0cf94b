//! Literal, case-insensitive search in a text, by the `regex` crate.
//!
//! The pattern for a term is made here; the search itself is the crate's.

use vstd::prelude::*;
use vstd::std_specs::iter::IteratorSpec;
use vstd::string::StringSliceAdditionalSpecFns;
use vstd::utf8::is_char_boundary;

verus! {

/// The characters that mean something to a regular expression.
pub open spec fn is_meta_character(c: char) -> bool {
    c == '\\' || c == '.' || c == '+' || c == '*' || c == '?' || c == '(' || c == ')' || c == '|'
        || c == '[' || c == ']' || c == '{' || c == '}' || c == '^' || c == '$' || c == '#' || c
        == '&' || c == '-' || c == '~'
}

/// `text` with a backslash in front of every meta character.
pub open spec fn escaped(text: Seq<char>) -> Seq<char>
    decreases text.len(),
{
    if text.len() == 0 {
        Seq::empty()
    } else if is_meta_character(text.last()) {
        escaped(text.drop_last()).push('\\').push(text.last())
    } else {
        escaped(text.drop_last()).push(text.last())
    }
}

/// The pattern that finds `term` as it stands, in either case.
pub open spec fn literal_pattern(term: Seq<char>) -> Seq<char> {
    seq!['(', '?', 'i', ':'] + escaped(term) + seq![')']
}

/// The matches of a pattern in a text as pairs of byte offsets, start and
/// end, in the order in which `regex` finds them; `None` where the pattern
/// does not compile.
pub uninterp spec fn regex_matches(pattern: Seq<char>, haystack: Seq<char>) -> Option<
    Seq<(usize, usize)>,
>;

/// Spans that lie within a text of the given bytes and cut no character.
pub open spec fn spans_within(spans: Seq<(usize, usize)>, bytes: Seq<u8>) -> bool {
    forall|i: int|
        0 <= i < spans.len() ==> {
            &&& (#[trigger] spans[i]).0 <= spans[i].1 <= bytes.len()
            &&& is_char_boundary(bytes, spans[i].0 as int)
            &&& is_char_boundary(bytes, spans[i].1 as int)
        }
}

/// Tells whether a character means something to a regular expression.
pub fn char_is_meta(c: char) -> (meta: bool)
    ensures
        meta == is_meta_character(c),
{
    c == '\\' || c == '.' || c == '+' || c == '*' || c == '?' || c == '(' || c == ')' || c == '|'
        || c == '[' || c == ']' || c == '{' || c == '}' || c == '^' || c == '$' || c == '#' || c
        == '&' || c == '-' || c == '~'
}

/// Puts a backslash in front of every meta character of `text`, as
/// `regex::escape` does.
pub fn escape(text: &str) -> (quoted: String)
    ensures
        quoted@ == escaped(text@),
{
    proof {
        reveal_strlit("\\");
    }
    let count = text.unicode_len();
    let mut quoted = String::new();
    let mut chars = text.chars();
    let mut i: usize = 0;
    assert(text@.take(0) =~= Seq::empty());
    loop
        invariant_except_break
            chars.remaining() == text@.skip(i as int),
        invariant
            count == text@.len(),
            i <= count,
            "\\"@ == seq!['\\'],
            quoted@ == escaped(text@.take(i as int)),
        ensures
            i == count,
        decreases count - i,
    {
        match chars.next() {
            Some(c) => {
                assert(c == text@[i as int]);
                proof {
                    assert(text@.take(i + 1).drop_last() =~= text@.take(i as int));
                    assert(text@.take(i + 1).last() == c);
                    assert(text@.subrange(i as int, i + 1) =~= seq![c]);
                }
                let ghost before = quoted@;
                if char_is_meta(c) {
                    quoted.append("\\");
                    quoted.append(text.substring_char(i, i + 1));
                    assert(quoted@ =~= before.push('\\').push(c));
                } else {
                    quoted.append(text.substring_char(i, i + 1));
                    assert(quoted@ =~= before.push(c));
                }
                i += 1;
            },
            None => {
                break ;
            },
        }
    }
    assert(text@.take(i as int) =~= text@);
    quoted
}

/// Finds all matches of `pattern` in `haystack`.
///
/// Trusted: compiles the pattern with `regex::Regex::new` and collects the
/// offsets of what `Regex::find_iter` yields. The contract gives the outcome
/// its name, `regex_matches`, and adds what the crate documents of every
/// match: its start is not after its end, and both fall on character
/// boundaries of the text.
#[verifier::external_body]
pub(crate) fn find_all(pattern: &str, haystack: &str) -> (found: Option<Vec<(usize, usize)>>)
    ensures
        found is Some == regex_matches(pattern@, haystack@) is Some,
        found matches Some(spans) ==> regex_matches(pattern@, haystack@) == Some(spans@)
            && spans_within(spans@, haystack.spec_bytes()),
{
    match regex::Regex::new(pattern) {
        Ok(re) => Some(re.find_iter(haystack).map(|m| (m.start(), m.end())).collect()),
        Err(_) => None,
    }
}

/// Builds the pattern that finds `term` as it stands, in either case.
pub fn literal(term: &str) -> (pattern: String)
    ensures
        pattern@ == literal_pattern(term@),
{
    proof {
        reveal_strlit("(?i:");
        reveal_strlit(")");
    }
    let mut pattern = String::new();
    pattern.append("(?i:");
    let quoted = escape(term);
    pattern.append(quoted.as_str());
    pattern.append(")");
    assert(pattern@ =~= literal_pattern(term@));
    pattern
}

} // verus!
