//! Lines of UTF-8 text.
use vstd::prelude::*;
use vstd::utf8::{
    is_char_boundary, is_continuation_byte, is_leading_byte_width_1, length_of_first_scalar, pop_first_scalar,
    valid_utf8,
};

verus! {

/// The line feed character (`\n`).
pub const LINE_FEED: u8 = 0x0A;

/// The positions of the line feeds in `bytes`, in order.
pub open spec fn spec_line_feeds(bytes: Seq<u8>) -> Seq<int>
    decreases bytes.len(),
{
    if bytes.len() == 0 {
        Seq::empty()
    } else {
        spec_line_feeds(bytes.drop_last()) + if bytes.last() == LINE_FEED {
            seq![bytes.len() - 1]
        } else {
            Seq::empty()
        }
    }
}

/// The number of lines of `bytes`: a line ends with a line feed or with the end of the text, and an
/// empty text has no lines.
pub open spec fn spec_lines_count(bytes: Seq<u8>) -> int {
    spec_line_feeds(bytes).len() + if bytes.len() > 0 && bytes.last() != LINE_FEED {
        1int
    } else {
        0
    }
}

/// There are at most as many line feeds as bytes, fewer when the last byte isn't a line feed.
pub proof fn lemma_line_feeds_len(bytes: Seq<u8>)
    ensures
        spec_line_feeds(bytes).len() <= bytes.len(),
        bytes.len() > 0 && bytes.last() != LINE_FEED ==> spec_line_feeds(bytes).len() < bytes.len(),
    decreases bytes.len(),
{
    if bytes.len() > 0 {
        lemma_line_feeds_len(bytes.drop_last());
    }
}

/// The line feeds of a prefix of the text are the first line feeds of the text.
pub proof fn lemma_line_feeds_prefix(bytes: Seq<u8>, k: int)
    requires
        0 <= k <= bytes.len(),
    ensures
        spec_line_feeds(bytes.take(k)).len() <= spec_line_feeds(bytes).len(),
        spec_line_feeds(bytes.take(k)) == spec_line_feeds(bytes).take(spec_line_feeds(bytes.take(k)).len() as int),
    decreases bytes.len() - k,
{
    if k == bytes.len() {
        assert(bytes.take(k) =~= bytes);
        assert(spec_line_feeds(bytes).take(spec_line_feeds(bytes).len() as int) =~= spec_line_feeds(bytes));
    } else {
        lemma_line_feeds_prefix(bytes, k + 1);
        assert(bytes.take(k + 1).drop_last() =~= bytes.take(k));
        let shorter = spec_line_feeds(bytes.take(k));
        let longer = spec_line_feeds(bytes.take(k + 1));
        assert(longer.take(shorter.len() as int) =~= shorter);
        assert(spec_line_feeds(bytes).take(shorter.len() as int) =~= longer.take(shorter.len() as int));
    }
}

/// The positions of the line feeds are positions of line feeds of the text, in increasing order.
pub proof fn lemma_line_feeds_positions(bytes: Seq<u8>)
    ensures
        forall|i: int|
            0 <= i < spec_line_feeds(bytes).len() ==> 0 <= #[trigger] spec_line_feeds(bytes)[i] < bytes.len()
                && bytes[spec_line_feeds(bytes)[i]] == LINE_FEED,
    decreases bytes.len(),
{
    if bytes.len() > 0 {
        let rest = bytes.drop_last();
        lemma_line_feeds_positions(rest);
        assert forall|i: int|
            0 <= i < spec_line_feeds(bytes).len() implies 0 <= #[trigger] spec_line_feeds(bytes)[i] < bytes.len()
            && bytes[spec_line_feeds(bytes)[i]] == LINE_FEED by {
            if i < spec_line_feeds(rest).len() {
                assert(spec_line_feeds(bytes)[i] == spec_line_feeds(rest)[i]);
                assert(rest[spec_line_feeds(rest)[i]] == bytes[spec_line_feeds(rest)[i]]);
            }
        }
    }
}

/// In valid UTF-8, the byte after a character encoded in one byte starts a character.
pub proof fn lemma_char_boundary_after_ascii(bytes: Seq<u8>, i: int)
    requires
        valid_utf8(bytes),
        0 <= i < bytes.len(),
        is_leading_byte_width_1(bytes[i]),
    ensures
        is_char_boundary(bytes, i + 1),
    decreases bytes.len(),
{
    let first = length_of_first_scalar(bytes);
    if i == 0 {
        assert(first == 1);
        reveal_with_fuel(is_char_boundary, 2);
        assert(valid_utf8(pop_first_scalar(bytes)));
    } else {
        if i < first {
            assert(is_continuation_byte(bytes[i]));
        }
        let rest = pop_first_scalar(bytes);
        assert(rest[i - first] == bytes[i]);
        lemma_char_boundary_after_ascii(rest, i - first);
        reveal_with_fuel(is_char_boundary, 2);
    }
}

} // verus!
