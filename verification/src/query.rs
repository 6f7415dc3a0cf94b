//! Query planning: the tokens of a search text and the term query each
//! stands for.

use vstd::prelude::*;
use vstd::std_specs::iter::IteratorSpec;

verus! {

/// Whether a character separates tokens: the characters with the Unicode
/// property `White_Space`.
pub open spec fn is_whitespace(c: char) -> bool {
    let u = c as u32;
    (0x09 <= u <= 0x0d) || u == 0x20 || u == 0x85 || u == 0xa0 || u == 0x1680 || (0x2000 <= u
        <= 0x200a) || u == 0x2028 || u == 0x2029 || u == 0x202f || u == 0x205f || u == 0x3000
}

/// The tokens of a text: its longest runs of characters that are not
/// whitespace, in order.
pub open spec fn tokens(text: Seq<char>) -> Seq<Seq<char>>
    decreases text.len(),
{
    if text.len() == 0 {
        Seq::empty()
    } else {
        let before = tokens(text.drop_last());
        let c = text.last();
        if is_whitespace(c) {
            before
        } else if text.len() >= 2 && !is_whitespace(text[text.len() - 2]) && before.len() > 0 {
            before.drop_last().push(before.last().push(c))
        } else {
            before.push(seq![c])
        }
    }
}

/// Tells whether a character separates tokens.
pub fn char_is_whitespace(c: char) -> (white: bool)
    ensures
        white == is_whitespace(c),
{
    let u: u32 = c as u32;
    (0x09 <= u && u <= 0x0d) || u == 0x20 || u == 0x85 || u == 0xa0 || u == 0x1680 || (0x2000 <= u
        && u <= 0x200a) || u == 0x2028 || u == 0x2029 || u == 0x202f || u == 0x205f || u == 0x3000
}

/// The views of a sequence of strings, in order.
pub open spec fn texts(strings: Seq<String>) -> Seq<Seq<char>> {
    strings.map_values(|t: String| t@)
}

/// Splits a text into its tokens.
pub fn split_tokens(text: &str) -> (found: Vec<String>)
    ensures
        texts(found@) == tokens(text@),
{
    let count = text.unicode_len();
    let mut found: Vec<String> = Vec::new();
    let mut chars = text.chars();
    let mut i: usize = 0;
    let mut start: usize = 0;
    let mut open: bool = false;
    assert(text@.take(0) =~= Seq::empty());
    assert(texts(found@) =~= Seq::empty());
    loop
        invariant_except_break
            chars.remaining() == text@.skip(i as int),
        invariant
            count == text@.len(),
            i <= count,
            open ==> start < i && tokens(text@.take(i as int)) == texts(found@).push(
                text@.subrange(start as int, i as int),
            ) && !is_whitespace(text@[i - 1]),
            !open ==> tokens(text@.take(i as int)) == texts(found@) && (i == 0 || is_whitespace(
                text@[i - 1],
            )),
        ensures
            i == count,
        decreases count - i,
    {
        match chars.next() {
            Some(c) => {
                assert(c == text@[i as int]);
                proof {
                    assert(text@.take(i + 1).drop_last() =~= text@.take(i as int));
                    assert(text@.take(i + 1).last() == c);
                    if i >= 1 {
                        assert(text@.take(i + 1)[i - 1] == text@[i - 1]);
                    }
                }
                if char_is_whitespace(c) {
                    if open {
                        let token = text.substring_char(start, i).to_owned();
                        let ghost before = texts(found@);
                        found.push(token);
                        assert(texts(found@) =~= before.push(
                            text@.subrange(start as int, i as int),
                        ));
                        open = false;
                    }
                } else {
                    if open {
                        assert(text@.subrange(start as int, i + 1) =~= text@.subrange(
                            start as int,
                            i as int,
                        ).push(c));
                        let ghost done = texts(found@);
                        let ghost run = text@.subrange(start as int, i as int);
                        assert(done.push(run).drop_last() =~= done);
                    } else {
                        start = i;
                        assert(text@.subrange(i as int, i + 1) =~= seq![c]);
                        open = true;
                    }
                }
                i += 1;
            },
            None => {
                break ;
            },
        }
    }
    if open {
        let token = text.substring_char(start, i).to_owned();
        let ghost before = texts(found@);
        found.push(token);
        assert(texts(found@) =~= before.push(text@.subrange(start as int, i as int)));
    }
    assert(text@.take(i as int) =~= text@);
    found
}

/// Why a query gave no result set.
#[derive(Debug, Clone, Copy, PartialEq, Eq, Structural)]
pub enum QueryError {
    /// The text holds no token to search for.
    Parse,
    /// The index could not be read.
    Io,
}

/// The largest edit distance at which a term still matches a token.
pub const MAX_EDIT_DISTANCE: u8 = 1;

/// Whether swapping two neighbouring characters counts as one edit.
pub const TRANSPOSITION_IS_ONE_EDIT: bool = true;

/// What is asked of the index for one token: terms within the edit
/// distance of the token or, for a prefix query, of a beginning of theirs.
#[derive(Debug, Clone)]
pub struct TermQuery {
    pub token: String,
    pub prefix: bool,
}

/// What a [`TermQuery`] is to the contracts.
pub struct TermQueryView {
    pub token: Seq<char>,
    pub prefix: bool,
}

impl View for TermQuery {
    type V = TermQueryView;

    open spec fn view(&self) -> TermQueryView {
        TermQueryView { token: self.token@, prefix: self.prefix }
    }
}

/// The views of a plan, in order.
pub open spec fn plan_view(plan: Seq<TermQuery>) -> Seq<TermQueryView> {
    plan.map_values(|q: TermQuery| q@)
}

/// The plan for a sequence of tokens: one term query each, in order, and
/// only the last a prefix query, since the last word may still be typed.
pub open spec fn plan_of(tokens: Seq<Seq<char>>) -> Seq<TermQueryView> {
    Seq::new(
        tokens.len(),
        |i: int| TermQueryView { token: tokens[i], prefix: i == tokens.len() - 1 },
    )
}

/// Plans the query for a search text. A text without a token has no plan.
pub fn plan_query(text: &str) -> (planned: Result<Vec<TermQuery>, QueryError>)
    ensures
        planned is Ok == (tokens(text@).len() > 0),
        planned matches Ok(plan) ==> plan_view(plan@) == plan_of(tokens(text@)),
        planned matches Err(e) ==> e == QueryError::Parse,
{
    let mut found = split_tokens(text);
    let count = found.len();
    if count == 0 {
        return Err(QueryError::Parse);
    }
    let ghost all = texts(found@);
    let mut plan: Vec<TermQuery> = Vec::new();
    let mut i: usize = 0;
    while i < count
        invariant
            i <= count,
            count == found.len(),
            all.len() == count,
            plan.len() == i,
            forall|k: int| i <= k < count ==> (#[trigger] found[k])@ == all[k],
            forall|k: int|
                0 <= k < i ==> (#[trigger] plan[k])@ == (TermQueryView {
                    token: all[k],
                    prefix: k == count - 1,
                }),
        decreases count - i,
    {
        let mut token = String::new();
        core::mem::swap(&mut token, &mut found[i]);
        plan.push(TermQuery { token, prefix: i == count - 1 });
        i += 1;
    }
    assert(plan_view(plan@) =~= plan_of(all));
    Ok(plan)
}

/// Only the last token of a text is searched as a prefix; every token before
/// it has to match a whole term.
pub proof fn law_only_last_token_is_prefix(text: Seq<char>, i: int)
    requires
        0 <= i < tokens(text).len(),
    ensures
        plan_of(tokens(text)).len() == tokens(text).len(),
        plan_of(tokens(text))[i].token == tokens(text)[i],
        plan_of(tokens(text))[i].prefix == (i == tokens(text).len() - 1),
{
}

/// No token holds whitespace.
pub proof fn law_tokens_hold_no_whitespace(text: Seq<char>, i: int, j: int)
    requires
        0 <= i < tokens(text).len(),
        0 <= j < tokens(text)[i].len(),
    ensures
        !is_whitespace(tokens(text)[i][j]),
    decreases text.len(),
{
    if text.len() > 0 {
        let before = tokens(text.drop_last());
        let c = text.last();
        if is_whitespace(c) {
            law_tokens_hold_no_whitespace(text.drop_last(), i, j);
        } else if text.len() >= 2 && !is_whitespace(text[text.len() - 2]) && before.len() > 0 {
            if i < before.len() - 1 {
                law_tokens_hold_no_whitespace(text.drop_last(), i, j);
            } else if j < before.last().len() {
                law_tokens_hold_no_whitespace(text.drop_last(), i, j);
            }
        } else {
            if i < before.len() {
                law_tokens_hold_no_whitespace(text.drop_last(), i, j);
            }
        }
    }
}

/// No token is empty.
pub proof fn law_tokens_are_not_empty(text: Seq<char>, i: int)
    requires
        0 <= i < tokens(text).len(),
    ensures
        tokens(text)[i].len() > 0,
    decreases text.len(),
{
    if text.len() > 0 {
        let before = tokens(text.drop_last());
        let c = text.last();
        if is_whitespace(c) {
            law_tokens_are_not_empty(text.drop_last(), i);
        } else if text.len() >= 2 && !is_whitespace(text[text.len() - 2]) && before.len() > 0 {
            if i < before.len() - 1 {
                law_tokens_are_not_empty(text.drop_last(), i);
            }
        } else {
            if i < before.len() {
                law_tokens_are_not_empty(text.drop_last(), i);
            }
        }
    }
}

/// A text has tokens exactly if some character of it is not whitespace; so
/// exactly the texts of whitespace alone have no plan.
pub proof fn law_blank_text_has_no_tokens(text: Seq<char>)
    ensures
        (tokens(text).len() == 0) == (forall|k: int|
            0 <= k < text.len() ==> is_whitespace(#[trigger] text[k])),
    decreases text.len(),
{
    if text.len() > 0 {
        let shorter = text.drop_last();
        law_blank_text_has_no_tokens(shorter);
        assert forall|k: int| 0 <= k < shorter.len() implies shorter[k] == text[k] by {}
        if forall|k: int| 0 <= k < text.len() ==> is_whitespace(#[trigger] text[k]) {
            assert forall|k: int| 0 <= k < shorter.len() implies is_whitespace(
                #[trigger] shorter[k],
            ) by {
                assert(is_whitespace(text[k]));
            }
        }
        if is_whitespace(text.last()) && (forall|k: int|
            0 <= k < shorter.len() ==> is_whitespace(#[trigger] shorter[k])) {
            assert forall|k: int| 0 <= k < text.len() implies is_whitespace(
                #[trigger] text[k],
            ) by {
                if k < shorter.len() {
                    assert(is_whitespace(shorter[k]));
                }
            }
        }
    }
}

} // verus!
