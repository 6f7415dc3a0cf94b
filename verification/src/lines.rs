//! Where the lines of a text start, and which line a byte offset falls in.
//!
//! Offsets count bytes. The table of a text holds 0, then the offset after
//! each line feed, then one past the end of the text plus one: an entry for
//! the start of every line, and a last entry that closes the last line.

use vstd::prelude::*;
use vstd::string::StringSliceAdditionalSpecFns;
use vstd::utf8::{
    encode_utf8, encode_utf8_valid_utf8, is_char_boundary,
    is_char_boundary_iff_not_is_continuation_byte, is_char_boundary_start_end_of_seq,
    length_of_first_scalar, pop_first_scalar, valid_utf8, valid_utf8_split,
};

verus! {

/// The byte that ends a line.
pub const LINE_FEED: u8 = 10;

/// The offsets that follow a line feed among the first `n` bytes, in order.
pub open spec fn breaks(bytes: Seq<u8>, n: int) -> Seq<usize>
    decreases n,
{
    if n <= 0 {
        Seq::empty()
    } else if bytes[n - 1] == LINE_FEED {
        breaks(bytes, n - 1).push(n as usize)
    } else {
        breaks(bytes, n - 1)
    }
}

/// The entry that closes the table: one more than the length, held within `usize`.
pub open spec fn closing_offset(len: nat) -> usize {
    if len < usize::MAX {
        (len + 1) as usize
    } else {
        usize::MAX
    }
}

/// The table of line starts of a text.
pub open spec fn line_offsets_of(bytes: Seq<u8>) -> Seq<usize> {
    seq![0usize] + breaks(bytes, bytes.len() as int) + seq![closing_offset(bytes.len())]
}

/// Offsets that never step back.
pub open spec fn ascending(offsets: Seq<usize>) -> bool {
    forall|i: int, j: int| 0 <= i <= j < offsets.len() ==> offsets[i] <= offsets[j]
}

/// The index of the last entry that is at or before `pos`; 0 where there is none.
pub open spec fn line_at(offsets: Seq<usize>, pos: usize) -> int
    decreases offsets.len(),
{
    if offsets.len() <= 1 {
        0
    } else if offsets.last() <= pos {
        offsets.len() - 1
    } else {
        line_at(offsets.drop_last(), pos)
    }
}

/// Each break among the first `n` bytes lies in `1..=n` right after a line
/// feed, and the breaks grow strictly.
pub proof fn lemma_breaks(bytes: Seq<u8>, n: int)
    requires
        0 <= n <= bytes.len() <= usize::MAX,
    ensures
        breaks(bytes, n).len() <= n,
        forall|k: int|
            0 <= k < breaks(bytes, n).len() ==> 1 <= (#[trigger] breaks(bytes, n)[k]) <= n
                && bytes[breaks(bytes, n)[k] - 1] == LINE_FEED,
        forall|i: int, j: int|
            0 <= i < j < breaks(bytes, n).len() ==> breaks(bytes, n)[i] < breaks(bytes, n)[j],
    decreases n,
{
    if n > 0 {
        lemma_breaks(bytes, n - 1);
    }
}

/// The table of a text starts with 0, has at least two entries, never steps
/// back, and all its entries but the last lie within the text, each at the
/// start or right after a line feed.
pub proof fn lemma_line_offsets(bytes: Seq<u8>)
    requires
        bytes.len() <= usize::MAX,
    ensures
        line_offsets_of(bytes).len() == breaks(bytes, bytes.len() as int).len() + 2,
        line_offsets_of(bytes)[0] == 0,
        line_offsets_of(bytes).last() == closing_offset(bytes.len()),
        ascending(line_offsets_of(bytes)),
        forall|k: int|
            0 <= k < line_offsets_of(bytes).len() - 1 ==> (#[trigger] line_offsets_of(bytes)[k])
                <= bytes.len(),
        forall|k: int|
            0 < k < line_offsets_of(bytes).len() - 1 ==> (#[trigger] line_offsets_of(bytes)[k])
                >= 1 && bytes[line_offsets_of(bytes)[k] - 1] == LINE_FEED,
{
    let b = breaks(bytes, bytes.len() as int);
    let t = line_offsets_of(bytes);
    lemma_breaks(bytes, bytes.len() as int);
    assert(t.len() == b.len() + 2);
    assert forall|k: int| 0 < k < t.len() - 1 implies #[trigger] t[k] == b[k - 1] by {}
    assert forall|i: int, j: int| 0 <= i <= j < t.len() implies t[i] <= t[j] by {
        if i == j {
        } else if i == 0 {
        } else if j == t.len() - 1 {
            assert(t[i] == b[i - 1]);
        } else {
            assert(t[i] == b[i - 1]);
            assert(t[j] == b[j - 1]);
        }
    }
}

/// In a table that never steps back, the line of `pos` is the one entry at or
/// before `pos` whose successor, if it has one, lies after `pos`.
pub proof fn lemma_line_at(offsets: Seq<usize>, pos: usize, line: int)
    requires
        ascending(offsets),
        0 <= line < offsets.len(),
        offsets[line] <= pos,
        line + 1 < offsets.len() ==> pos < offsets[line + 1],
    ensures
        line_at(offsets, pos) == line,
    decreases offsets.len(),
{
    if offsets.len() <= 1 {
    } else if offsets.last() <= pos {
        if line + 1 < offsets.len() {
            assert(offsets[line + 1] <= offsets[offsets.len() - 1]);
        }
    } else {
        let shorter = offsets.drop_last();
        assert(line < offsets.len() - 1);
        assert forall|i: int, j: int| 0 <= i <= j < shorter.len() implies shorter[i]
            <= shorter[j] by {
            assert(shorter[i] == offsets[i]);
            assert(shorter[j] == offsets[j]);
        }
        lemma_line_at(shorter, pos, line);
    }
}

/// The line of `pos` is a valid index, and where the table starts at or
/// before `pos` and never steps back, it is the last entry at or before `pos`.
pub proof fn lemma_line_at_bounds(offsets: Seq<usize>, pos: usize)
    requires
        offsets.len() > 0,
    ensures
        0 <= line_at(offsets, pos) < offsets.len(),
        ascending(offsets) && offsets[0] <= pos ==> offsets[line_at(offsets, pos)] <= pos && (
        line_at(offsets, pos) + 1 < offsets.len() ==> pos < offsets[line_at(offsets, pos) + 1]),
    decreases offsets.len(),
{
    if offsets.len() <= 1 {
    } else if offsets.last() <= pos {
    } else {
        let shorter = offsets.drop_last();
        lemma_line_at_bounds(shorter, pos);
        if ascending(offsets) && offsets[0] <= pos {
            assert forall|i: int, j: int| 0 <= i <= j < shorter.len() implies shorter[i]
                <= shorter[j] by {
                assert(shorter[i] == offsets[i]);
                assert(shorter[j] == offsets[j]);
            }
            assert(shorter[0] == offsets[0]);
            let l = line_at(shorter, pos);
            assert(shorter[l] == offsets[l]);
            if l + 1 < shorter.len() {
                assert(shorter[l + 1] == offsets[l + 1]);
            }
        }
    }
}

/// Builds the table of line starts of `text`.
pub fn line_offsets(text: &str) -> (offsets: Vec<usize>)
    ensures
        offsets@ == line_offsets_of(text.spec_bytes()),
{
    let bytes = text.as_bytes();
    let len = bytes.len();
    let mut offsets: Vec<usize> = Vec::new();
    offsets.push(0);
    let mut i: usize = 0;
    while i < len
        invariant
            len == bytes@.len(),
            i <= len,
            offsets@ == seq![0usize] + breaks(bytes@, i as int),
        decreases len - i,
    {
        if bytes[i] == LINE_FEED {
            offsets.push(i + 1);
        }
        i += 1;
        assert(offsets@ =~= seq![0usize] + breaks(bytes@, i as int));
    }
    let closing: usize = if len < usize::MAX {
        len + 1
    } else {
        usize::MAX
    };
    offsets.push(closing);
    assert(offsets@ =~= line_offsets_of(bytes@));
    offsets
}

/// Finds the line that the byte offset `pos` falls in: the last line that
/// starts at or before `pos`.
pub fn find_line(offsets: &Vec<usize>, pos: usize) -> (line: usize)
    requires
        offsets.len() > 0,
        offsets[0] <= pos,
        ascending(offsets@),
    ensures
        line == line_at(offsets@, pos),
        line < offsets.len(),
        offsets[line as int] <= pos,
        line + 1 < offsets.len() ==> pos < offsets[line + 1],
{
    let mut i: usize = 1;
    while i < offsets.len()
        invariant
            1 <= i <= offsets.len(),
            offsets[i - 1] <= pos,
            ascending(offsets@),
        decreases offsets.len() - i,
    {
        if offsets[i] > pos {
            proof {
                lemma_line_at(offsets@, pos, i - 1);
            }
            return i - 1;
        }
        i += 1;
    }
    proof {
        lemma_line_at(offsets@, pos, offsets.len() - 1);
    }
    offsets.len() - 1
}

/// An entry of the table is the start of the line it falls in.
pub proof fn lemma_entry_starts_its_line(offsets: Seq<usize>, k: int)
    requires
        ascending(offsets),
        0 <= k < offsets.len(),
    ensures
        0 <= line_at(offsets, offsets[k]) < offsets.len(),
        offsets[line_at(offsets, offsets[k])] == offsets[k],
{
    let pos = offsets[k];
    lemma_line_at_bounds(offsets, pos);
    let l = line_at(offsets, pos);
    assert(offsets[0] <= offsets[k]);
    if k <= l {
        assert(offsets[k] <= offsets[l]);
    } else {
        assert(offsets[l + 1] <= offsets[k]);
    }
}

/// In well-formed UTF-8, a character of one byte ends at a character boundary.
pub proof fn lemma_boundary_after_single_byte(bytes: Seq<u8>, i: int)
    requires
        valid_utf8(bytes),
        0 <= i < bytes.len(),
        is_char_boundary(bytes, i),
        bytes[i] <= 0x7f,
    ensures
        is_char_boundary(bytes, i + 1),
    decreases bytes.len(),
{
    reveal_with_fuel(valid_utf8, 2);
    reveal_with_fuel(is_char_boundary, 2);
    let tail = pop_first_scalar(bytes);
    let first = length_of_first_scalar(bytes);
    if i == 0 {
        assert(first == 1);
        assert(is_char_boundary(tail, 0));
    } else {
        assert(is_char_boundary(tail, i - first));
        assert(i - first >= 0);
        assert(tail[i - first] == bytes[i]);
        lemma_boundary_after_single_byte(tail, i - first);
    }
}

/// Every line of a text starts at a character boundary.
pub proof fn lemma_line_start_is_boundary(text: Seq<char>, k: int)
    requires
        encode_utf8(text).len() <= usize::MAX,
        0 <= k < line_offsets_of(encode_utf8(text)).len() - 1,
    ensures
        is_char_boundary(encode_utf8(text), line_offsets_of(encode_utf8(text))[k] as int),
{
    let bytes = encode_utf8(text);
    encode_utf8_valid_utf8(text);
    lemma_line_offsets(bytes);
    if k > 0 {
        let start = line_offsets_of(bytes)[k];
        assert(1 <= start <= bytes.len());
        let before = start - 1;
        is_char_boundary_iff_not_is_continuation_byte(bytes, before);
        lemma_boundary_after_single_byte(bytes, before);
    }
}

/// A character boundary of a text is one of each prefix that ends at a
/// character boundary and reaches it.
pub proof fn lemma_boundary_in_prefix(bytes: Seq<u8>, start: int, end: int)
    requires
        valid_utf8(bytes),
        0 <= start <= end <= bytes.len(),
        is_char_boundary(bytes, start),
        is_char_boundary(bytes, end),
    ensures
        valid_utf8(bytes.subrange(0, end)),
        is_char_boundary(bytes.subrange(0, end), start),
{
    let prefix = bytes.subrange(0, end);
    valid_utf8_split(bytes, end);
    if start == end {
        is_char_boundary_start_end_of_seq(prefix);
    } else {
        is_char_boundary_iff_not_is_continuation_byte(bytes, start);
        is_char_boundary_iff_not_is_continuation_byte(prefix, start);
    }
}

} // verus!
