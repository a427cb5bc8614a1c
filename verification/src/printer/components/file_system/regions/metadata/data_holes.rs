//! The holes of blocks of the flash memory not used by anything, where the data of new files can
//! be stored.
use std::marker::PhantomData;

use vstd::prelude::*;

use super::metadata::FileMetadata;
use super::FilesMetadatasRegion;
use crate::printer::components::file_system::regions::{range_end, range_start, RegionsConfig};
use crate::printer::components::drivers::spi_flash_memory::chip::{
    spec_address_of_block_index, spec_block_index_of_address, FlashMemoryChip, FlashMemoryChipExt,
};
use crate::utils::math::{ceil_div, spec_ceil_div};

verus! {

/// `s` is ordered by the first block of its ranges.
pub open spec fn spec_sorted_by_start(s: Seq<(u16, u16)>) -> bool {
    forall|i: int, j: int| 0 <= i <= j < s.len() ==> s[i].0 <= s[j].0
}

/// `x` inserted in `sorted` after all the ranges that start before it or at the same block.
pub open spec fn spec_insert_by_start(sorted: Seq<(u16, u16)>, x: (u16, u16)) -> Seq<(u16, u16)>
    decreases sorted.len(),
{
    if sorted.len() == 0 {
        seq![x]
    } else if sorted.last().0 <= x.0 {
        sorted.push(x)
    } else {
        spec_insert_by_start(sorted.drop_last(), x).push(sorted.last())
    }
}

/// The ranges of `s` ordered by their first block; the ranges that start at the same block keep
/// the order they have in `s`.
pub open spec fn spec_sort_by_start(s: Seq<(u16, u16)>) -> Seq<(u16, u16)>
    decreases s.len(),
{
    if s.len() == 0 {
        Seq::empty()
    } else {
        spec_insert_by_start(spec_sort_by_start(s.drop_last()), s.last())
    }
}

/// The ranges of blocks used by something: the bad blocks, then the metadata region, then the
/// blocks from the one that contains the start of each file to the one that contains its end.
pub open spec fn spec_used_slots<Chip: FlashMemoryChip>(
    bad_blocks: Seq<u16>,
    metadata_range: (u16, u16),
    files: Seq<FileMetadata>,
) -> Seq<(u16, u16)> {
    bad_blocks.map_values(|b: u16| (b, b)) + seq![metadata_range] + files.map_values(
        |m: FileMetadata|
            (
                spec_block_index_of_address::<Chip>(m.start_memory_address),
                spec_block_index_of_address::<Chip>(m.spec_end_memory_address() as u32),
            ),
    )
}

/// The ranges between the used ranges of `sorted`: the one before the first used range (when the
/// first used range doesn't start at block 0), the ones between two used ranges next to each other
/// and the one from the block after the last used range to `last_block`.
pub open spec fn spec_raw_holes(sorted: Seq<(u16, u16)>, last_block: u16) -> Seq<(int, int)> {
    let first: Seq<(int, int)> = if sorted[0].0 != 0 {
        seq![(0int, sorted[0].0 - 1)]
    } else {
        Seq::empty()
    };
    let between = Seq::new(
        (sorted.len() - 1) as nat,
        |i: int| (sorted[i].1 + 1, sorted[i + 1].0 - 1),
    );
    first + between + seq![(sorted.last().1 + 1, last_block as int)]
}

/// The ranges of `raw` that contain at least one block, in the same order.
pub open spec fn spec_non_empty(raw: Seq<(int, int)>) -> Seq<(int, int)>
    decreases raw.len(),
{
    if raw.len() == 0 {
        Seq::empty()
    } else {
        spec_non_empty(raw.drop_last()) + if raw.last().0 <= raw.last().1 {
            seq![raw.last()]
        } else {
            Seq::empty()
        }
    }
}

/// The holes can be computed from the used ranges `sorted` with 16 bits: there's at least one used
/// range, no used range ends at the block `u16::MAX` and only the first one can start at block 0.
pub open spec fn spec_holes_computable(sorted: Seq<(u16, u16)>) -> bool {
    &&& sorted.len() > 0
    &&& forall|i: int| 0 <= i < sorted.len() ==> #[trigger] sorted[i].1 < u16::MAX
    &&& forall|i: int| 0 < i < sorted.len() ==> #[trigger] sorted[i].0 > 0
}

/// The number of blocks in `hole`.
pub open spec fn spec_hole_size(hole: (int, int)) -> int {
    hole.1 - hole.0 + 1
}

/// The index of the first hole that contains at least `required` blocks, or the number of holes
/// when there isn't one.
pub open spec fn spec_first_fit(holes: Seq<(int, int)>, required: int) -> int
    decreases holes.len(),
{
    if holes.len() == 0 {
        0
    } else {
        let k = spec_first_fit(holes.drop_last(), required);
        if k < holes.len() - 1 {
            k
        } else if spec_hole_size(holes.last()) >= required {
            holes.len() - 1
        } else {
            holes.len() as int
        }
    }
}

/// The number of blocks in the first `k` holes.
pub open spec fn spec_total_size(holes: Seq<(int, int)>, k: int) -> int
    decreases k,
{
    if k <= 0 {
        0
    } else {
        spec_total_size(holes, k - 1) + spec_hole_size(holes[k - 1])
    }
}

/// The number of blocks needed to store `data_size` bytes, as computed with 16 bits.
pub open spec fn spec_required_blocks<Chip: FlashMemoryChip>(data_size: u32) -> u16 {
    spec_ceil_div(data_size as int, Chip::BLOCK_SIZE as int) as u16
}

/// Where `data_size` bytes can be stored given the `holes`: at the start of the first hole that's
/// large enough, or nowhere; then it tells whether all the holes together are large enough.
pub open spec fn spec_free_space<Chip: FlashMemoryChip>(holes: Seq<(int, int)>, data_size: u32) -> FreeSpace {
    let required = spec_required_blocks::<Chip>(data_size);
    let k = spec_first_fit(holes, required as int);
    if k < holes.len() {
        FreeSpace::Available { start_address: (holes[k].0 * Chip::BLOCK_SIZE) as u32 }
    } else if spec_total_size(holes, holes.len() as int) >= required {
        FreeSpace::AvailableButRequiresCompacting
    } else {
        FreeSpace::NotAvailable
    }
}

/// The search of [`spec_free_space`] can be done with 16 bits for the sizes and 32 bits for the
/// start address.
pub open spec fn spec_free_space_computable<Chip: FlashMemoryChip>(holes: Seq<(int, int)>, data_size: u32) -> bool {
    let required = spec_required_blocks::<Chip>(data_size);
    let k = spec_first_fit(holes, required as int);
    &&& spec_total_size(holes, k) <= u16::MAX
    &&& k < holes.len() ==> holes[k].0 * Chip::BLOCK_SIZE <= u32::MAX
}

/// The holes of unused blocks in the memory given the metadatas of the `files`, the `bad_blocks`
/// and the blocks of the metadata region (see [`DataHoles`]).
pub open spec fn spec_data_holes<Chip: FlashMemoryChip>(
    bad_blocks: Seq<u16>,
    metadata_range: (u16, u16),
    files: Seq<FileMetadata>,
) -> Seq<(int, int)> {
    spec_non_empty(
        spec_raw_holes(
            spec_sort_by_start(spec_used_slots::<Chip>(bad_blocks, metadata_range, files)),
            spec_block_index_of_address::<Chip>(Chip::MEMORY_SIZE),
        ),
    )
}

/// The holes of [`spec_data_holes`] can be computed: no file ends after the last address and the
/// used slots allow it (see [`spec_holes_computable`]).
pub open spec fn spec_data_holes_computable<Chip: FlashMemoryChip>(
    bad_blocks: Seq<u16>,
    metadata_range: (u16, u16),
    files: Seq<FileMetadata>,
) -> bool {
    &&& forall|i: int| 0 <= i < files.len() ==> (#[trigger] files[i]).spec_end_memory_address() <= u32::MAX
    &&& spec_holes_computable(spec_sort_by_start(spec_used_slots::<Chip>(bad_blocks, metadata_range, files)))
}

/// The first hole large enough is the first one whose size is at least `required`.
pub proof fn lemma_first_fit(holes: Seq<(int, int)>, required: int)
    ensures
        0 <= spec_first_fit(holes, required) <= holes.len(),
        forall|j: int|
            0 <= j < spec_first_fit(holes, required) ==> spec_hole_size(#[trigger] holes[j]) < required,
        spec_first_fit(holes, required) < holes.len() ==> spec_hole_size(
            holes[spec_first_fit(holes, required)],
        ) >= required,
    decreases holes.len(),
{
    if holes.len() > 0 {
        let rest = holes.drop_last();
        lemma_first_fit(rest, required);
        let k = spec_first_fit(holes, required);
        assert forall|j: int| 0 <= j < k implies spec_hole_size(#[trigger] holes[j]) < required by {
            if j < holes.len() - 1 {
                assert(rest[j] == holes[j]);
            }
        }
    }
}

/// The size of the first holes grows with their number.
pub proof fn lemma_total_size_monotonic(holes: Seq<(int, int)>, i: int, k: int)
    requires
        0 <= i <= k <= holes.len(),
        forall|j: int| 0 <= j < holes.len() ==> spec_hole_size(#[trigger] holes[j]) >= 1,
    ensures
        spec_total_size(holes, i) <= spec_total_size(holes, k),
    decreases k - i,
{
    if i < k {
        lemma_total_size_monotonic(holes, i, k - 1);
    }
}

/// Inserting `x` in `sorted` at the position `p` that follows all the ranges that start before it or
/// at the same block is [`spec_insert_by_start`], and keeps the ranges sorted.
proof fn lemma_insert_at(sorted: Seq<(u16, u16)>, x: (u16, u16), p: int)
    requires
        spec_sorted_by_start(sorted),
        0 <= p <= sorted.len(),
        forall|j: int| 0 <= j < p ==> #[trigger] sorted[j].0 <= x.0,
        forall|j: int| p <= j < sorted.len() ==> #[trigger] sorted[j].0 > x.0,
    ensures
        spec_insert_by_start(sorted, x) == sorted.insert(p, x),
        spec_sorted_by_start(sorted.insert(p, x)),
    decreases sorted.len(),
{
    let inserted = sorted.insert(p, x);
    assert forall|i: int, j: int| 0 <= i <= j < inserted.len() implies inserted[i].0 <= inserted[j].0 by {
        if i < p && j > p {
            assert(inserted[i] == sorted[i]);
            assert(inserted[j] == sorted[j - 1]);
        }
    }
    if sorted.len() == 0 {
        assert(inserted =~= seq![x]);
    } else if sorted.last().0 <= x.0 {
        assert(p == sorted.len());
        assert(inserted =~= sorted.push(x));
    } else {
        let rest = sorted.drop_last();
        lemma_insert_at(rest, x, p);
        assert(spec_insert_by_start(sorted, x) == rest.insert(p, x).push(sorted.last()));
        assert(rest.insert(p, x).push(sorted.last()) =~= inserted);
    }
}

/// The holes that follow from [`spec_raw_holes`] contain at least one block, and at most
/// `u16::MAX` blocks.
proof fn lemma_non_empty_holes(raw: Seq<(int, int)>)
    requires
        forall|i: int|
            0 <= i < raw.len() ==> 0 <= #[trigger] raw[i].0 && raw[i].1 <= u16::MAX && !(raw[i].0
                == 0 && raw[i].1 == u16::MAX),
    ensures
        forall|i: int|
            0 <= i < spec_non_empty(raw).len() ==> {
                let h = #[trigger] spec_non_empty(raw)[i];
                &&& 0 <= h.0 <= h.1 <= u16::MAX
                &&& spec_hole_size(h) <= u16::MAX
            },
    decreases raw.len(),
{
    if raw.len() > 0 {
        let rest = raw.drop_last();
        assert forall|i: int| 0 <= i < rest.len() implies 0 <= #[trigger] rest[i].0 && rest[i].1
            <= u16::MAX && !(rest[i].0 == 0 && rest[i].1 == u16::MAX) by {
            assert(rest[i] == raw[i]);
        }
        lemma_non_empty_holes(rest);
        let before = spec_non_empty(rest);
        assert forall|i: int| 0 <= i < spec_non_empty(raw).len() implies {
            let h = #[trigger] spec_non_empty(raw)[i];
            &&& 0 <= h.0 <= h.1 <= u16::MAX
            &&& spec_hole_size(h) <= u16::MAX
        } by {
            if i < before.len() {
                assert(spec_non_empty(raw)[i] == before[i]);
            } else {
                assert(spec_non_empty(raw)[i] == raw.last());
            }
        }
    }
}

/// Every used range contains at least one block and, taken in order, each one ends before the next
/// one starts.
pub open spec fn spec_ordered_disjoint(sorted: Seq<(u16, u16)>) -> bool {
    &&& forall|i: int| 0 <= i < sorted.len() ==> #[trigger] sorted[i].0 <= sorted[i].1
    &&& forall|i: int| 0 <= i < sorted.len() - 1 ==> #[trigger] sorted[i].1 < sorted[i + 1].0
}

/// `block` belongs to `range` (both ends included).
pub open spec fn spec_in_range(block: int, range: (int, int)) -> bool {
    range.0 <= block <= range.1
}

/// Inserting a range keeps all the ranges and adds the inserted one.
proof fn lemma_insert_contains(sorted: Seq<(u16, u16)>, x: (u16, u16))
    ensures
        spec_insert_by_start(sorted, x).contains(x),
        forall|y: (u16, u16)| sorted.contains(y) ==> #[trigger] spec_insert_by_start(sorted, x).contains(y),
    decreases sorted.len(),
{
    let inserted = spec_insert_by_start(sorted, x);
    if sorted.len() == 0 {
        assert(inserted[0] == x);
    } else if sorted.last().0 <= x.0 {
        assert(inserted == sorted.push(x));
        assert(inserted[sorted.len() as int] == x);
        assert forall|y: (u16, u16)| sorted.contains(y) implies #[trigger] inserted.contains(y) by {
            let i = choose|i: int| 0 <= i < sorted.len() && sorted[i] == y;
            assert(inserted[i] == y);
        }
    } else {
        let rest = sorted.drop_last();
        lemma_insert_contains(rest, x);
        let before = spec_insert_by_start(rest, x);
        assert(inserted == before.push(sorted.last()));
        assert(before.contains(x));
        let i = choose|i: int| 0 <= i < before.len() && before[i] == x;
        assert(inserted[i] == x);
        assert forall|y: (u16, u16)| sorted.contains(y) implies #[trigger] inserted.contains(y) by {
            let j = choose|j: int| 0 <= j < sorted.len() && sorted[j] == y;
            if j == sorted.len() - 1 {
                assert(inserted[before.len() as int] == y);
            } else {
                assert(rest[j] == y);
                assert(rest.contains(y));
                assert(before.contains(y));
                let k = choose|k: int| 0 <= k < before.len() && before[k] == y;
                assert(inserted[k] == y);
            }
        }
    }
}

/// Ordering the ranges keeps all of them.
pub proof fn lemma_sort_contains(s: Seq<(u16, u16)>)
    ensures
        forall|j: int| 0 <= j < s.len() ==> spec_sort_by_start(s).contains(#[trigger] s[j]),
    decreases s.len(),
{
    if s.len() > 0 {
        let rest = s.drop_last();
        lemma_sort_contains(rest);
        lemma_insert_contains(spec_sort_by_start(rest), s.last());
        assert forall|j: int| 0 <= j < s.len() implies spec_sort_by_start(s).contains(#[trigger] s[j]) by {
            if j < s.len() - 1 {
                assert(rest[j] == s[j]);
                assert(spec_sort_by_start(rest).contains(rest[j]));
            }
        }
    }
}

/// Ordering the ranges gives ranges ordered by their first block.
pub proof fn lemma_sort_sorted(s: Seq<(u16, u16)>)
    ensures
        spec_sorted_by_start(spec_sort_by_start(s)),
    decreases s.len(),
{
    if s.len() > 0 {
        let rest = spec_sort_by_start(s.drop_last());
        lemma_sort_sorted(s.drop_last());
        let x = s.last();
        let p = spec_insert_position(rest, x);
        lemma_insert_position(rest, x);
        lemma_insert_at(rest, x, p);
    }
}

/// The number of ranges of `sorted` that start before `x` or at the same block.
spec fn spec_insert_position(sorted: Seq<(u16, u16)>, x: (u16, u16)) -> int
    decreases sorted.len(),
{
    if sorted.len() == 0 {
        0
    } else if sorted.last().0 <= x.0 {
        sorted.len() as int
    } else {
        spec_insert_position(sorted.drop_last(), x)
    }
}

/// In ordered ranges, the ranges before [`spec_insert_position`] start before `x` or at the same
/// block, the others after.
proof fn lemma_insert_position(sorted: Seq<(u16, u16)>, x: (u16, u16))
    requires
        spec_sorted_by_start(sorted),
    ensures
        0 <= spec_insert_position(sorted, x) <= sorted.len(),
        forall|j: int| 0 <= j < spec_insert_position(sorted, x) ==> #[trigger] sorted[j].0 <= x.0,
        forall|j: int| spec_insert_position(sorted, x) <= j < sorted.len() ==> #[trigger] sorted[j].0 > x.0,
    decreases sorted.len(),
{
    if sorted.len() > 0 && sorted.last().0 > x.0 {
        let rest = sorted.drop_last();
        lemma_insert_position(rest, x);
        assert forall|j: int| 0 <= j < spec_insert_position(sorted, x) implies #[trigger] sorted[j].0 <= x.0 by {
            assert(rest[j] == sorted[j]);
        }
        assert forall|j: int| spec_insert_position(sorted, x) <= j < sorted.len() implies #[trigger] sorted[j].0 > x.0 by {
            if j < sorted.len() - 1 {
                assert(rest[j] == sorted[j]);
            }
        }
    }
}

/// In ordered disjoint ranges, a range ends before every following range starts.
proof fn lemma_ordered_disjoint_far(sorted: Seq<(u16, u16)>, k: int, m: int)
    requires
        spec_ordered_disjoint(sorted),
        0 <= k < m < sorted.len(),
    ensures
        sorted[k].1 < sorted[m].0,
    decreases m - k,
{
    if m > k + 1 {
        lemma_ordered_disjoint_far(sorted, k, m - 1);
        assert(sorted[m - 1].0 <= sorted[m - 1].1);
        assert(sorted[m - 1].1 < sorted[m].0);
    }
}

/// Every range kept by [`spec_non_empty`] is one of the ranges.
proof fn lemma_non_empty_contained(raw: Seq<(int, int)>)
    ensures
        forall|i: int| 0 <= i < spec_non_empty(raw).len() ==> raw.contains(#[trigger] spec_non_empty(raw)[i]),
    decreases raw.len(),
{
    if raw.len() > 0 {
        let rest = raw.drop_last();
        lemma_non_empty_contained(rest);
        let before = spec_non_empty(rest);
        assert forall|i: int| 0 <= i < spec_non_empty(raw).len() implies raw.contains(#[trigger] spec_non_empty(raw)[i]) by {
            if i < before.len() {
                assert(spec_non_empty(raw)[i] == before[i]);
                let j = choose|j: int| 0 <= j < rest.len() && rest[j] == before[i];
                assert(raw[j] == rest[j]);
            } else {
                assert(spec_non_empty(raw)[i] == raw[raw.len() - 1]);
            }
        }
    }
}

/// A block of a range between ordered disjoint used ranges is outside the used range at `m`.
proof fn lemma_raw_hole_unused(sorted: Seq<(u16, u16)>, last_block: u16, r: int, m: int, block: int)
    requires
        spec_sorted_by_start(sorted),
        spec_holes_computable(sorted),
        spec_ordered_disjoint(sorted),
        0 <= r < spec_raw_holes(sorted, last_block).len(),
        0 <= m < sorted.len(),
        spec_in_range(block, spec_raw_holes(sorted, last_block)[r]),
    ensures
        !spec_in_range(block, (sorted[m].0 as int, sorted[m].1 as int)),
{
    let raw = spec_raw_holes(sorted, last_block);
    let first_len: int = if sorted[0].0 != 0 { 1 } else { 0 };
    if r < first_len {
        assert(raw[r] == (0int, sorted[0].0 - 1));
        assert(sorted[0].0 <= sorted[m].0);
    } else if r < first_len + sorted.len() - 1 {
        let k = r - first_len;
        assert(raw[r] == (sorted[k].1 + 1, sorted[k + 1].0 - 1));
        if m <= k {
            if m < k {
                lemma_ordered_disjoint_far(sorted, m, k);
            }
            assert(sorted[m].1 <= sorted[k].1);
        } else {
            assert(sorted[k + 1].0 <= sorted[m].0);
        }
    } else {
        let k = sorted.len() - 1;
        assert(raw[r] == (sorted[k].1 + 1, last_block as int));
        if m < k {
            lemma_ordered_disjoint_far(sorted, m, k);
        }
        assert(sorted[m].1 <= sorted[k].1);
    }
}

/// The holes between ordered disjoint used ranges contain no used block: every block of every
/// hole is outside every used range.
pub proof fn lemma_holes_are_unused(used: Seq<(u16, u16)>, last_block: u16)
    requires
        spec_holes_computable(spec_sort_by_start(used)),
        spec_ordered_disjoint(spec_sort_by_start(used)),
    ensures
        forall|i: int, block: int, j: int|
            0 <= i < spec_non_empty(spec_raw_holes(spec_sort_by_start(used), last_block)).len() && #[trigger] spec_in_range(
                block,
                spec_non_empty(spec_raw_holes(spec_sort_by_start(used), last_block))[i],
            ) && 0 <= j < used.len() ==> !spec_in_range(block, ((#[trigger] used[j]).0 as int, used[j].1 as int)),
{
    let sorted = spec_sort_by_start(used);
    let raw = spec_raw_holes(sorted, last_block);
    let holes = spec_non_empty(raw);
    lemma_sort_contains(used);
    lemma_sort_sorted(used);
    lemma_non_empty_contained(raw);
    assert forall|i: int, block: int, j: int|
        0 <= i < holes.len() && #[trigger] spec_in_range(block, holes[i]) && 0 <= j < used.len() implies !spec_in_range(
        block,
        ((#[trigger] used[j]).0 as int, used[j].1 as int),
    ) by {
        assert(sorted.contains(used[j]));
        let m = choose|m: int| 0 <= m < sorted.len() && sorted[m] == used[j];
        assert(raw.contains(holes[i]));
        let r = choose|r: int| 0 <= r < raw.len() && raw[r] == holes[i];
        lemma_raw_hole_unused(sorted, last_block, r, m, block);
    }
}

/// The space found for new data is unused: when the used ranges, ordered by their first block,
/// are disjoint, the blocks from the start of the hole found to the number of blocks required are
/// all outside every used range.
pub proof fn lemma_free_space_is_unused<Chip: FlashMemoryChip>(used: Seq<(u16, u16)>, data_size: u32)
    requires
        spec_holes_computable(spec_sort_by_start(used)),
        spec_ordered_disjoint(spec_sort_by_start(used)),
    ensures
        ({
            let holes = spec_non_empty(
                spec_raw_holes(spec_sort_by_start(used), spec_block_index_of_address::<Chip>(Chip::MEMORY_SIZE)),
            );
            let required = spec_required_blocks::<Chip>(data_size) as int;
            let k = spec_first_fit(holes, required);
            k < holes.len() ==> forall|block: int, j: int|
                holes[k].0 <= block < holes[k].0 + required && 0 <= j < used.len() ==> !#[trigger] spec_in_range(
                    block,
                    (used[j].0 as int, used[j].1 as int),
                )
        }),
{
    let holes = spec_non_empty(
        spec_raw_holes(spec_sort_by_start(used), spec_block_index_of_address::<Chip>(Chip::MEMORY_SIZE)),
    );
    let required = spec_required_blocks::<Chip>(data_size) as int;
    lemma_first_fit(holes, required);
    lemma_holes_are_unused(used, spec_block_index_of_address::<Chip>(Chip::MEMORY_SIZE));
    let k = spec_first_fit(holes, required);
    if k < holes.len() {
        assert forall|block: int, j: int|
            holes[k].0 <= block < holes[k].0 + required && 0 <= j < used.len() implies !#[trigger] spec_in_range(
            block,
            (used[j].0 as int, used[j].1 as int),
        ) by {
            assert(spec_in_range(block, holes[k]));
        }
    }
}

/// Every range of `spec_insert_by_start(sorted, x)` is `x` or a range of `sorted`.
proof fn lemma_insert_contained(sorted: Seq<(u16, u16)>, x: (u16, u16))
    ensures
        forall|i: int|
            0 <= i < spec_insert_by_start(sorted, x).len() ==> {
                let y = #[trigger] spec_insert_by_start(sorted, x)[i];
                y == x || sorted.contains(y)
            },
    decreases sorted.len(),
{
    let inserted = spec_insert_by_start(sorted, x);
    if sorted.len() == 0 {
    } else if sorted.last().0 <= x.0 {
        assert forall|i: int| 0 <= i < inserted.len() implies (#[trigger] inserted[i] == x || sorted.contains(inserted[i])) by {
            if i < sorted.len() {
                assert(inserted[i] == sorted[i]);
            }
        }
    } else {
        let rest = sorted.drop_last();
        lemma_insert_contained(rest, x);
        let before = spec_insert_by_start(rest, x);
        assert forall|i: int| 0 <= i < inserted.len() implies (#[trigger] inserted[i] == x || sorted.contains(inserted[i])) by {
            if i < before.len() {
                assert(inserted[i] == before[i]);
                if before[i] != x {
                    let j = choose|j: int| 0 <= j < rest.len() && rest[j] == before[i];
                    assert(sorted[j] == rest[j]);
                }
            } else {
                assert(inserted[i] == sorted[sorted.len() - 1]);
            }
        }
    }
}

/// Every range of the ordered ranges is one of the ranges.
proof fn lemma_sort_contained(s: Seq<(u16, u16)>)
    ensures
        forall|i: int| 0 <= i < spec_sort_by_start(s).len() ==> s.contains(#[trigger] spec_sort_by_start(s)[i]),
    decreases s.len(),
{
    if s.len() > 0 {
        let rest = s.drop_last();
        let sorted_rest = spec_sort_by_start(rest);
        lemma_sort_contained(rest);
        lemma_insert_contained(sorted_rest, s.last());
        let sorted = spec_sort_by_start(s);
        assert forall|i: int| 0 <= i < sorted.len() implies s.contains(#[trigger] sorted[i]) by {
            let y = sorted[i];
            if y == s.last() {
                assert(s[s.len() - 1] == y);
            } else {
                assert(sorted_rest.contains(y));
                let j = choose|j: int| 0 <= j < sorted_rest.len() && sorted_rest[j] == y;
                assert(rest.contains(sorted_rest[j]));
                let k = choose|k: int| 0 <= k < rest.len() && rest[k] == y;
                assert(s[k] == y);
            }
        }
    }
}

/// Two ranges of blocks (both ends included) have no block in common.
pub open spec fn spec_apart(a: (u16, u16), b: (u16, u16)) -> bool {
    a.1 < b.0 || b.1 < a.0
}

/// Each range contains at least one block, and two different ranges have no block in common.
pub open spec fn spec_distinct_apart(ranges: Seq<(u16, u16)>) -> bool {
    &&& forall|i: int| 0 <= i < ranges.len() ==> #[trigger] ranges[i].0 <= ranges[i].1
    &&& forall|i: int, j: int|
        0 <= i < ranges.len() && 0 <= j < ranges.len() && ranges[i] != ranges[j] ==> spec_apart(
            #[trigger] ranges[i],
            #[trigger] ranges[j],
        )
}

/// A block of a range between used ranges, ordered by their first block and two by two apart
/// when different, is outside the used range at `m`.
proof fn lemma_raw_hole_outside(sorted: Seq<(u16, u16)>, last_block: u16, r: int, m: int, block: int)
    requires
        spec_sorted_by_start(sorted),
        spec_holes_computable(sorted),
        spec_distinct_apart(sorted),
        0 <= r < spec_raw_holes(sorted, last_block).len(),
        0 <= m < sorted.len(),
        spec_in_range(block, spec_raw_holes(sorted, last_block)[r]),
    ensures
        !spec_in_range(block, (sorted[m].0 as int, sorted[m].1 as int)),
{
    let raw = spec_raw_holes(sorted, last_block);
    let first_len: int = if sorted[0].0 != 0 { 1 } else { 0 };
    if r < first_len {
        assert(raw[r] == (0int, sorted[0].0 - 1));
        assert(sorted[0].0 <= sorted[m].0);
    } else if r < first_len + sorted.len() - 1 {
        let k = r - first_len;
        assert(raw[r] == (sorted[k].1 + 1, sorted[k + 1].0 - 1));
        if m <= k {
            assert(sorted[m].0 <= sorted[k].0);
            assert(sorted[k].0 <= sorted[k].1);
            if sorted[m] != sorted[k] {
                assert(spec_apart(sorted[m], sorted[k]));
            }
        } else {
            assert(sorted[k + 1].0 <= sorted[m].0);
        }
    } else {
        let k = sorted.len() - 1;
        assert(raw[r] == (sorted[k].1 + 1, last_block as int));
        assert(sorted[m].0 <= sorted[k].0);
        assert(sorted[k].0 <= sorted[k].1);
        if sorted[m] != sorted[k] {
            assert(spec_apart(sorted[m], sorted[k]));
        }
    }
}

/// `file` uses `block`: the block is between the one that holds the first byte of the file and
/// the one that holds the address that follows its name and its data.
pub open spec fn spec_file_uses_block<Chip: FlashMemoryChip>(file: FileMetadata, block: int) -> bool {
    &&& (file.start_memory_address as int) / (Chip::BLOCK_SIZE as int) <= block
    &&& block <= (file.start_memory_address + file.file_name_length + file.file_data_length) / (
    Chip::BLOCK_SIZE as int)
}

/// `block` is used: by one of the `files`, as one of the `bad_blocks` or as one of the blocks of
/// the metadata region (`metadata_range`, both ends included).
pub open spec fn spec_block_used<Chip: FlashMemoryChip>(
    bad_blocks: Seq<u16>,
    metadata_range: (u16, u16),
    files: Seq<FileMetadata>,
    block: int,
) -> bool {
    ||| exists|i: int| 0 <= i < files.len() && #[trigger] spec_file_uses_block::<Chip>(files[i], block)
    ||| exists|k: int| 0 <= k < bad_blocks.len() && #[trigger] bad_blocks[k] == block
    ||| metadata_range.0 <= block <= metadata_range.1
}

/// No block is used twice: the metadata region has at least one block, no block is used by two
/// files, or by a file and the metadata region, no bad block is used by a file or is in the
/// metadata region.
pub open spec fn spec_uses_disjoint<Chip: FlashMemoryChip>(
    bad_blocks: Seq<u16>,
    metadata_range: (u16, u16),
    files: Seq<FileMetadata>,
) -> bool {
    &&& metadata_range.0 <= metadata_range.1
    &&& forall|i: int, j: int, block: int|
        0 <= i < files.len() && 0 <= j < files.len() && i != j && #[trigger] spec_file_uses_block::<Chip>(
            files[i],
            block,
        ) ==> !#[trigger] spec_file_uses_block::<Chip>(files[j], block)
    &&& forall|i: int, k: int|
        0 <= i < files.len() && 0 <= k < bad_blocks.len() ==> !spec_file_uses_block::<Chip>(
            #[trigger] files[i],
            #[trigger] bad_blocks[k] as int,
        )
    &&& forall|i: int, block: int|
        0 <= i < files.len() && metadata_range.0 <= block <= metadata_range.1
            ==> !#[trigger] spec_file_uses_block::<Chip>(files[i], block)
    &&& forall|k: int| 0 <= k < bad_blocks.len() ==> !(metadata_range.0 <= #[trigger] bad_blocks[k] <= metadata_range.1)
}

/// The used slot of each thing is the range of the blocks it uses.
proof fn lemma_used_slots_are_the_used_blocks<Chip: FlashMemoryChip>(
    bad_blocks: Seq<u16>,
    metadata_range: (u16, u16),
    files: Seq<FileMetadata>,
)
    requires
        forall|i: int| 0 <= i < files.len() ==> (#[trigger] files[i]).spec_end_memory_address() <= u32::MAX,
        (u32::MAX as int) / (Chip::BLOCK_SIZE as int) <= u16::MAX,
    ensures
        ({
            let used = spec_used_slots::<Chip>(bad_blocks, metadata_range, files);
            let nb = bad_blocks.len() as int;
            &&& used.len() == nb + 1 + files.len()
            &&& forall|k: int| 0 <= k < nb ==> #[trigger] used[k] == (bad_blocks[k], bad_blocks[k])
            &&& used[nb] == metadata_range
            &&& forall|i: int, block: int|
                0 <= i < files.len() ==> (spec_in_range(block, (used[nb + 1 + i].0 as int, used[nb + 1 + i].1 as int))
                    <==> #[trigger] spec_file_uses_block::<Chip>(files[i], block))
            &&& forall|i: int|
                0 <= i < files.len() ==> #[trigger] used[nb + 1 + i].0 <= used[nb + 1 + i].1
        }),
{
    Chip::lemma_geometry();
    let used = spec_used_slots::<Chip>(bad_blocks, metadata_range, files);
    let nb = bad_blocks.len() as int;
    let b = Chip::BLOCK_SIZE as int;
    assert forall|k: int| 0 <= k < nb implies #[trigger] used[k] == (bad_blocks[k], bad_blocks[k]) by {
        assert(used[k] == bad_blocks.map_values(|x: u16| (x, x))[k]);
    }
    assert(used[nb] == metadata_range);
    assert forall|i: int| 0 <= i < files.len() implies {
        &&& used[nb + 1 + i].0 as int == (files[i].start_memory_address as int) / b
        &&& used[nb + 1 + i].1 as int == files[i].spec_end_memory_address() / b
    } by {
        let m = files[i];
        let start = m.start_memory_address as int;
        let end = m.spec_end_memory_address();
        assert(used[nb + 1 + i] == (
            spec_block_index_of_address::<Chip>(m.start_memory_address),
            spec_block_index_of_address::<Chip>(end as u32),
        ));
        vstd::arithmetic::div_mod::lemma_div_is_ordered(start, u32::MAX as int, b);
        vstd::arithmetic::div_mod::lemma_div_is_ordered(end, u32::MAX as int, b);
        assert(start / b >= 0) by (nonlinear_arith)
            requires
                start >= 0,
                b > 0,
        ;
    }
    assert forall|i: int, block: int|
        0 <= i < files.len() implies (spec_in_range(block, (used[nb + 1 + i].0 as int, used[nb + 1 + i].1 as int))
            <==> #[trigger] spec_file_uses_block::<Chip>(files[i], block)) by {
    }
    assert forall|i: int| 0 <= i < files.len() implies #[trigger] used[nb + 1 + i].0 <= used[nb + 1 + i].1 by {
        vstd::arithmetic::div_mod::lemma_div_is_ordered(
            files[i].start_memory_address as int,
            files[i].spec_end_memory_address(),
            b,
        );
    }
}

/// The new data goes to unused blocks: when no block is used twice, every byte of the new data,
/// stored from the start address found by [`DataHoles::find_space_for_new_data`] in the holes
/// given by [`DataHoles::from_metadatas_region`], falls in a block that is used neither by a file
/// (from the block of its first byte to the block of its end address), nor as a bad block, nor by
/// the metadata region.
pub proof fn lemma_new_data_goes_to_unused_blocks<Chip: FlashMemoryChip>(
    bad_blocks: Seq<u16>,
    metadata_range: (u16, u16),
    files: Seq<FileMetadata>,
    data_size: u32,
)
    requires
        spec_data_holes_computable::<Chip>(bad_blocks, metadata_range, files),
        spec_free_space_computable::<Chip>(spec_data_holes::<Chip>(bad_blocks, metadata_range, files), data_size),
        spec_uses_disjoint::<Chip>(bad_blocks, metadata_range, files),
        (u32::MAX as int) / (Chip::BLOCK_SIZE as int) <= u16::MAX,
        spec_ceil_div(data_size as int, Chip::BLOCK_SIZE as int) <= u16::MAX,
    ensures
        spec_free_space::<Chip>(spec_data_holes::<Chip>(bad_blocks, metadata_range, files), data_size) matches FreeSpace::Available { start_address }
            ==> forall|offset: int|
            0 <= offset < data_size ==> !spec_block_used::<Chip>(
                bad_blocks,
                metadata_range,
                files,
                #[trigger] ((start_address + offset) / (Chip::BLOCK_SIZE as int)),
            ),
{
    Chip::lemma_geometry();
    let b = Chip::BLOCK_SIZE as int;
    let used = spec_used_slots::<Chip>(bad_blocks, metadata_range, files);
    let nb = bad_blocks.len() as int;
    let sorted = spec_sort_by_start(used);
    let last_block = spec_block_index_of_address::<Chip>(Chip::MEMORY_SIZE);
    let raw = spec_raw_holes(sorted, last_block);
    let holes = spec_non_empty(raw);
    let required = spec_required_blocks::<Chip>(data_size) as int;
    let k = spec_first_fit(holes, required);
    lemma_used_slots_are_the_used_blocks::<Chip>(bad_blocks, metadata_range, files);
    // The used slots are two by two apart when different.
    assert(spec_distinct_apart(used)) by {
        assert forall|p: int| 0 <= p < used.len() implies #[trigger] used[p].0 <= used[p].1 by {
            if p > nb {
                assert(used[nb + 1 + (p - nb - 1)].0 <= used[nb + 1 + (p - nb - 1)].1);
            }
        }
        assert forall|p: int, q: int|
            0 <= p < used.len() && 0 <= q < used.len() && used[p] != used[q] implies spec_apart(
            #[trigger] used[p],
            #[trigger] used[q],
        ) by {
            if !spec_apart(used[p], used[q]) {
                let blk: int = if used[p].0 <= used[q].0 { used[q].0 as int } else { used[p].0 as int };
                assert(used[p].0 <= used[p].1 && used[q].0 <= used[q].1);
                assert(spec_in_range(blk, (used[p].0 as int, used[p].1 as int)));
                assert(spec_in_range(blk, (used[q].0 as int, used[q].1 as int)));
                if p > nb && q > nb {
                    let i = p - nb - 1;
                    let j = q - nb - 1;
                    assert(spec_file_uses_block::<Chip>(files[i], blk));
                    assert(spec_file_uses_block::<Chip>(files[j], blk));
                } else if p > nb {
                    let i = p - nb - 1;
                    assert(spec_file_uses_block::<Chip>(files[i], blk));
                    if q < nb {
                        assert(bad_blocks[q] as int == blk);
                    }
                } else if q > nb {
                    let j = q - nb - 1;
                    assert(spec_file_uses_block::<Chip>(files[j], blk));
                    if p < nb {
                        assert(bad_blocks[p] as int == blk);
                    }
                } else if p < nb && q < nb {
                    assert(used[p] == (bad_blocks[p], bad_blocks[p]));
                    assert(used[q] == (bad_blocks[q], bad_blocks[q]));
                } else if p < nb {
                    assert(used[p] == (bad_blocks[p], bad_blocks[p]));
                } else {
                    assert(used[q] == (bad_blocks[q], bad_blocks[q]));
                }
            }
        }
    }
    // So are the ordered ones.
    lemma_sort_contained(used);
    lemma_sort_contains(used);
    lemma_sort_sorted(used);
    assert(spec_distinct_apart(sorted)) by {
        assert forall|m: int| 0 <= m < sorted.len() implies #[trigger] sorted[m].0 <= sorted[m].1 by {
            assert(used.contains(sorted[m]));
        }
        assert forall|m: int, n: int|
            0 <= m < sorted.len() && 0 <= n < sorted.len() && sorted[m] != sorted[n] implies spec_apart(
            #[trigger] sorted[m],
            #[trigger] sorted[n],
        ) by {
            assert(used.contains(sorted[m]));
            assert(used.contains(sorted[n]));
            let p = choose|p: int| 0 <= p < used.len() && used[p] == sorted[m];
            let q = choose|q: int| 0 <= q < used.len() && used[q] == sorted[n];
            assert(spec_apart(used[p], used[q]));
        }
    }
    lemma_first_fit(holes, required);
    lemma_raw_holes_bounds(sorted, last_block);
    lemma_non_empty_holes(raw);
    lemma_non_empty_contained(raw);
    if k < holes.len() {
        let h = holes[k];
        let start_address = (h.0 * Chip::BLOCK_SIZE) as u32;
        assert(start_address as int == h.0 * b);
        assert(raw.contains(h));
        let r = choose|r: int| 0 <= r < raw.len() && raw[r] == h;
        assert forall|offset: int| 0 <= offset < data_size implies !spec_block_used::<Chip>(
            bad_blocks,
            metadata_range,
            files,
            #[trigger] ((start_address + offset) / b),
        ) by {
            let block = (start_address + offset) / b;
            vstd::arithmetic::div_mod::lemma_hoist_over_denominator(offset, h.0, b as nat);
            assert(block == h.0 + offset / b);
            let ceil = spec_ceil_div(data_size as int, b);
            assert(data_size <= b * ceil) by (nonlinear_arith)
                requires
                    b > 0,
                    ceil == spec_ceil_div(data_size as int, b),
                    data_size >= 0,
            {
                vstd::arithmetic::div_mod::lemma_fundamental_div_mod(data_size as int, b);
            }
            vstd::arithmetic::div_mod::lemma_multiply_divide_lt(offset, b, ceil);
            vstd::arithmetic::div_mod::lemma_div_is_ordered(0, offset, b);
            assert(required == ceil);
            assert(spec_in_range(block, raw[r]));
            assert forall|p: int| 0 <= p < used.len() implies !spec_in_range(
                block,
                ((#[trigger] used[p]).0 as int, used[p].1 as int),
            ) by {
                assert(sorted.contains(used[p]));
                let m = choose|m: int| 0 <= m < sorted.len() && sorted[m] == used[p];
                lemma_raw_hole_outside(sorted, last_block, r, m, block);
            }
            if exists|i: int| 0 <= i < files.len() && #[trigger] spec_file_uses_block::<Chip>(files[i], block) {
                let i = choose|i: int| 0 <= i < files.len() && #[trigger] spec_file_uses_block::<Chip>(files[i], block);
                assert(!spec_in_range(block, (used[nb + 1 + i].0 as int, used[nb + 1 + i].1 as int)));
            }
            if exists|q: int| 0 <= q < bad_blocks.len() && #[trigger] bad_blocks[q] == block {
                let q = choose|q: int| 0 <= q < bad_blocks.len() && #[trigger] bad_blocks[q] == block;
                assert(!spec_in_range(block, (used[q].0 as int, used[q].1 as int)));
            }
            assert(!spec_in_range(block, (used[nb].0 as int, used[nb].1 as int)));
        }
    }
}

/// A range that contains at least one block is kept by [`spec_non_empty`].
proof fn lemma_non_empty_keeps(raw: Seq<(int, int)>, r: int)
    requires
        0 <= r < raw.len(),
        raw[r].0 <= raw[r].1,
    ensures
        spec_non_empty(raw).contains(raw[r]),
    decreases raw.len(),
{
    let rest = raw.drop_last();
    let kept = spec_non_empty(raw);
    if r < raw.len() - 1 {
        assert(rest[r] == raw[r]);
        lemma_non_empty_keeps(rest, r);
        let i = choose|i: int| 0 <= i < spec_non_empty(rest).len() && spec_non_empty(rest)[i] == raw[r];
        assert(kept[i] == spec_non_empty(rest)[i]);
    } else {
        assert(kept[spec_non_empty(rest).len() as int] == raw.last());
    }
}

/// A block up to `last_block` that is outside all the used ranges (ordered by their first block)
/// is in one of the ranges between them.
proof fn lemma_unused_block_in_raw_hole(sorted: Seq<(u16, u16)>, last_block: u16, block: int)
    requires
        spec_sorted_by_start(sorted),
        spec_holes_computable(sorted),
        0 <= block <= last_block,
        forall|m: int| 0 <= m < sorted.len() ==> !spec_in_range(block, (#[trigger] sorted[m].0 as int, sorted[m].1 as int)),
    ensures
        exists|r: int| 0 <= r < spec_raw_holes(sorted, last_block).len() && spec_in_range(
            block,
            #[trigger] spec_raw_holes(sorted, last_block)[r],
        ),
{
    let raw = spec_raw_holes(sorted, last_block);
    let first_len: int = if sorted[0].0 != 0 { 1 } else { 0 };
    let x = (block as u16, 0u16);
    lemma_insert_position(sorted, x);
    let p = spec_insert_position(sorted, x);
    if p == 0 {
        assert(sorted[0].0 > block);
        assert(raw[0] == (0int, sorted[0].0 - 1));
        assert(spec_in_range(block, raw[0]));
    } else {
        let k = p - 1;
        assert(sorted[k].0 <= block);
        assert(!spec_in_range(block, (sorted[k].0 as int, sorted[k].1 as int)));
        if k < sorted.len() - 1 {
            assert(sorted[k + 1].0 > block);
            assert(raw[first_len + k] == (sorted[k].1 + 1, sorted[k + 1].0 - 1));
            assert(spec_in_range(block, raw[first_len + k]));
        } else {
            assert(raw[first_len + k] == (sorted[k].1 + 1, last_block as int));
            assert(spec_in_range(block, raw[first_len + k]));
        }
    }
}

/// No free block is left out of the holes: every block of the memory (up to the block that holds
/// the address `MEMORY_SIZE`) that is used neither by a file, nor as a bad block, nor by the
/// metadata region, is in one of the holes given by [`DataHoles::from_metadatas_region`].
pub proof fn lemma_unused_blocks_are_in_holes<Chip: FlashMemoryChip>(
    bad_blocks: Seq<u16>,
    metadata_range: (u16, u16),
    files: Seq<FileMetadata>,
    block: int,
)
    requires
        spec_data_holes_computable::<Chip>(bad_blocks, metadata_range, files),
        (u32::MAX as int) / (Chip::BLOCK_SIZE as int) <= u16::MAX,
        0 <= block <= (Chip::MEMORY_SIZE as int) / (Chip::BLOCK_SIZE as int),
        !spec_block_used::<Chip>(bad_blocks, metadata_range, files, block),
    ensures
        exists|i: int|
            0 <= i < spec_data_holes::<Chip>(bad_blocks, metadata_range, files).len() && spec_in_range(
                block,
                #[trigger] spec_data_holes::<Chip>(bad_blocks, metadata_range, files)[i],
            ),
{
    Chip::lemma_geometry();
    let used = spec_used_slots::<Chip>(bad_blocks, metadata_range, files);
    let nb = bad_blocks.len() as int;
    let sorted = spec_sort_by_start(used);
    let last_block = spec_block_index_of_address::<Chip>(Chip::MEMORY_SIZE);
    let raw = spec_raw_holes(sorted, last_block);
    lemma_used_slots_are_the_used_blocks::<Chip>(bad_blocks, metadata_range, files);
    lemma_sort_contained(used);
    lemma_sort_sorted(used);
    assert(last_block as int == (Chip::MEMORY_SIZE as int) / (Chip::BLOCK_SIZE as int));
    assert forall|p: int| 0 <= p < used.len() implies !spec_in_range(block, ((#[trigger] used[p]).0 as int, used[p].1 as int)) by {
        if p < nb {
            assert(used[p] == (bad_blocks[p], bad_blocks[p]));
            if spec_in_range(block, (used[p].0 as int, used[p].1 as int)) {
                assert(bad_blocks[p] == block);
            }
        } else if p > nb {
            let i = p - nb - 1;
            if spec_in_range(block, (used[nb + 1 + i].0 as int, used[nb + 1 + i].1 as int)) {
                assert(spec_file_uses_block::<Chip>(files[i], block));
            }
        }
    }
    assert forall|m: int| 0 <= m < sorted.len() implies !spec_in_range(block, (#[trigger] sorted[m].0 as int, sorted[m].1 as int)) by {
        assert(used.contains(sorted[m]));
        let p = choose|p: int| 0 <= p < used.len() && used[p] == sorted[m];
        assert(!spec_in_range(block, (used[p].0 as int, used[p].1 as int)));
    }
    lemma_unused_block_in_raw_hole(sorted, last_block, block);
    let r = choose|r: int| 0 <= r < raw.len() && spec_in_range(block, #[trigger] raw[r]);
    lemma_non_empty_keeps(raw, r);
    let holes = spec_non_empty(raw);
    let i = choose|i: int| 0 <= i < holes.len() && holes[i] == raw[r];
    assert(holes == spec_data_holes::<Chip>(bad_blocks, metadata_range, files));
    assert(spec_in_range(block, spec_data_holes::<Chip>(bad_blocks, metadata_range, files)[i]));
}

/// The ranges between the used ranges (ordered by their first block, each with at least one
/// block) follow each other: each one ends before the next ones start, and the block after each of
/// them, but the last one, is the first block of a used range.
proof fn lemma_raw_holes_follow_each_other(sorted: Seq<(u16, u16)>, last_block: u16)
    requires
        spec_sorted_by_start(sorted),
        spec_holes_computable(sorted),
        forall|m: int| 0 <= m < sorted.len() ==> #[trigger] sorted[m].0 <= sorted[m].1,
    ensures
        ({
            let raw = spec_raw_holes(sorted, last_block);
            let first_len: int = if sorted[0].0 != 0 { 1 } else { 0 };
            &&& forall|r: int, q: int| 0 <= r < q < raw.len() ==> #[trigger] raw[r].1 < #[trigger] raw[q].0
            &&& forall|r: int|
                0 <= r < raw.len() - 1 ==> #[trigger] raw[r].1 + 1 == sorted[r - first_len + 1].0
                    && 0 <= r - first_len + 1 < sorted.len()
            &&& raw[raw.len() - 1].1 == last_block
        }),
{
    let raw = spec_raw_holes(sorted, last_block);
    let n = sorted.len() as int;
    let first_len: int = if sorted[0].0 != 0 { 1 } else { 0 };
    assert(raw.len() == first_len + n);
    assert forall|r: int| 0 <= r < raw.len() - 1 implies #[trigger] raw[r].1 + 1 == sorted[r - first_len + 1].0 by {
        if r < first_len {
            assert(raw[r] == (0int, sorted[0].0 - 1));
        } else {
            let k = r - first_len;
            assert(raw[r] == (sorted[k].1 + 1, sorted[k + 1].0 - 1));
        }
    }
    assert forall|q: int| first_len <= q < raw.len() implies #[trigger] raw[q].0 == sorted[q - first_len].1 + 1 by {
        let k = q - first_len;
        if k < n - 1 {
            assert(raw[q] == (sorted[k].1 + 1, sorted[k + 1].0 - 1));
        } else {
            assert(raw[q] == (sorted[k].1 + 1, last_block as int));
        }
    }
    assert forall|r: int, q: int| 0 <= r < q < raw.len() implies #[trigger] raw[r].1 < #[trigger] raw[q].0 by {
        assert(raw[r].1 + 1 == sorted[r - first_len + 1].0);
        assert(raw[q].0 == sorted[q - first_len].1 + 1);
        assert(sorted[r - first_len + 1].0 <= sorted[q - first_len].0);
        assert(sorted[q - first_len].0 <= sorted[q - first_len].1);
    }
    assert(raw[raw.len() - 1] == (sorted[n - 1].1 + 1, last_block as int));
}

/// Keeping the non-empty ranges keeps them following each other.
proof fn lemma_non_empty_follow_each_other(raw: Seq<(int, int)>)
    requires
        forall|r: int, q: int| 0 <= r < q < raw.len() ==> #[trigger] raw[r].1 < #[trigger] raw[q].0,
    ensures
        forall|i: int, j: int|
            0 <= i < j < spec_non_empty(raw).len() ==> #[trigger] spec_non_empty(raw)[i].1
                < #[trigger] spec_non_empty(raw)[j].0,
    decreases raw.len(),
{
    if raw.len() > 0 {
        let rest = raw.drop_last();
        assert forall|r: int, q: int| 0 <= r < q < rest.len() implies #[trigger] rest[r].1 < #[trigger] rest[q].0 by {
            assert(rest[r] == raw[r] && rest[q] == raw[q]);
        }
        lemma_non_empty_follow_each_other(rest);
        lemma_non_empty_contained(rest);
        let before = spec_non_empty(rest);
        let holes = spec_non_empty(raw);
        assert forall|i: int, j: int| 0 <= i < j < holes.len() implies #[trigger] holes[i].1 < #[trigger] holes[j].0 by {
            assert(holes[i] == before[i]);
            if j < before.len() {
                assert(holes[j] == before[j]);
            } else {
                assert(holes[j] == raw[raw.len() - 1]);
                assert(rest.contains(before[i]));
                let r = choose|r: int| 0 <= r < rest.len() && rest[r] == before[i];
                assert(raw[r] == rest[r]);
            }
        }
    }
}

/// The `length` blocks from `first` are all in the memory (up to the block that holds the address
/// `MEMORY_SIZE`) and free: used neither by a file, nor as a bad block, nor by the metadata region.
pub open spec fn spec_free_run<Chip: FlashMemoryChip>(
    bad_blocks: Seq<u16>,
    metadata_range: (u16, u16),
    files: Seq<FileMetadata>,
    first: int,
    length: int,
) -> bool {
    forall|block: int|
        first <= block < first + length ==> block <= (Chip::MEMORY_SIZE as int) / (Chip::BLOCK_SIZE as int)
            && !#[trigger] spec_block_used::<Chip>(bad_blocks, metadata_range, files, block)
}

/// The space found for new data is the first one: when no block is used twice, no block of the
/// memory before the block of the start address found by [`DataHoles::find_space_for_new_data`]
/// (with the holes given by [`DataHoles::from_metadatas_region`]) begins a run of free blocks,
/// within the memory, that is long enough for the data (see [`spec_free_run`]).
pub proof fn lemma_free_space_found_is_the_first<Chip: FlashMemoryChip>(
    bad_blocks: Seq<u16>,
    metadata_range: (u16, u16),
    files: Seq<FileMetadata>,
    data_size: u32,
)
    requires
        spec_data_holes_computable::<Chip>(bad_blocks, metadata_range, files),
        spec_free_space_computable::<Chip>(spec_data_holes::<Chip>(bad_blocks, metadata_range, files), data_size),
        spec_uses_disjoint::<Chip>(bad_blocks, metadata_range, files),
        (u32::MAX as int) / (Chip::BLOCK_SIZE as int) <= u16::MAX,
        spec_ceil_div(data_size as int, Chip::BLOCK_SIZE as int) <= u16::MAX,
        data_size > 0,
    ensures
        spec_free_space::<Chip>(spec_data_holes::<Chip>(bad_blocks, metadata_range, files), data_size) matches FreeSpace::Available { start_address }
            ==> forall|first: int|
            0 <= first < (start_address as int) / (Chip::BLOCK_SIZE as int) ==> !#[trigger] spec_free_run::<Chip>(
                bad_blocks,
                metadata_range,
                files,
                first,
                spec_ceil_div(data_size as int, Chip::BLOCK_SIZE as int),
            ),
{
    Chip::lemma_geometry();
    let b = Chip::BLOCK_SIZE as int;
    let used = spec_used_slots::<Chip>(bad_blocks, metadata_range, files);
    let nb = bad_blocks.len() as int;
    let sorted = spec_sort_by_start(used);
    let last_block = spec_block_index_of_address::<Chip>(Chip::MEMORY_SIZE);
    let raw = spec_raw_holes(sorted, last_block);
    let holes = spec_non_empty(raw);
    let required = spec_required_blocks::<Chip>(data_size) as int;
    let k = spec_first_fit(holes, required);
    let ceil = spec_ceil_div(data_size as int, b);
    assert(required == ceil);
    assert(ceil >= 1) by (nonlinear_arith)
        requires
            ceil == spec_ceil_div(data_size as int, b),
            data_size > 0,
            b > 0,
    {
        if data_size as int % b == 0 {
            assert(data_size as int / b > 0);
        }
    }
    assert(last_block as int == (Chip::MEMORY_SIZE as int) / b);
    lemma_used_slots_are_the_used_blocks::<Chip>(bad_blocks, metadata_range, files);
    lemma_sort_contained(used);
    lemma_sort_sorted(used);
    lemma_first_fit(holes, required);
    lemma_non_empty_contained(raw);
    assert forall|m: int| 0 <= m < sorted.len() implies #[trigger] sorted[m].0 <= sorted[m].1 by {
        assert(used.contains(sorted[m]));
        let p = choose|p: int| 0 <= p < used.len() && used[p] == sorted[m];
        if p > nb {
            assert(used[nb + 1 + (p - nb - 1)].0 <= used[nb + 1 + (p - nb - 1)].1);
        }
    }
    lemma_raw_holes_follow_each_other(sorted, last_block);
    lemma_non_empty_follow_each_other(raw);
    if k < holes.len() {
        let start_address = (holes[k].0 * Chip::BLOCK_SIZE) as u32;
        lemma_raw_holes_bounds(sorted, last_block);
        lemma_non_empty_holes(raw);
        assert(start_address as int == holes[k].0 * b);
        vstd::arithmetic::div_mod::lemma_div_multiples_vanish(holes[k].0, b);
        assert((start_address as int) / b == holes[k].0) by {
            assert(holes[k].0 * b == b * holes[k].0) by (nonlinear_arith);
        }
        assert forall|first: int| 0 <= first < (start_address as int) / b implies !#[trigger] spec_free_run::<Chip>(
            bad_blocks,
            metadata_range,
            files,
            first,
            ceil,
        ) by {
            if spec_free_run::<Chip>(bad_blocks, metadata_range, files, first, ceil) {
                // Every block of the run is free and in the memory.
                assert(!spec_block_used::<Chip>(bad_blocks, metadata_range, files, first));
                lemma_unused_blocks_are_in_holes::<Chip>(bad_blocks, metadata_range, files, first);
                assert(holes == spec_data_holes::<Chip>(bad_blocks, metadata_range, files));
                let j = choose|j: int| 0 <= j < holes.len() && spec_in_range(first, #[trigger] holes[j]);
                assert(raw.contains(holes[j]));
                let r = choose|r: int| 0 <= r < raw.len() && raw[r] == holes[j];
                // The hole goes on to the end of the run.
                if holes[j].1 < first + ceil - 1 {
                    let after = holes[j].1 + 1;
                    assert(first <= after < first + ceil);
                    assert(!spec_block_used::<Chip>(bad_blocks, metadata_range, files, after));
                    assert(after <= (Chip::MEMORY_SIZE as int) / b);
                    if r == raw.len() - 1 {
                        assert(raw[raw.len() - 1].1 == last_block);
                    } else {
                        let first_len: int = if sorted[0].0 != 0 { 1 } else { 0 };
                        let m = r - first_len + 1;
                        assert(raw[r].1 + 1 == sorted[m].0);
                        assert(used.contains(sorted[m]));
                        let p = choose|p: int| 0 <= p < used.len() && used[p] == sorted[m];
                        assert(spec_in_range(after, (used[p].0 as int, used[p].1 as int)));
                        if p < nb {
                            assert(used[p] == (bad_blocks[p], bad_blocks[p]));
                            assert(bad_blocks[p] == after);
                        } else if p > nb {
                            let i = p - nb - 1;
                            assert(spec_in_range(after, (used[nb + 1 + i].0 as int, used[nb + 1 + i].1 as int)));
                            assert(spec_file_uses_block::<Chip>(files[i], after));
                        }
                    }
                }
                assert(spec_hole_size(holes[j]) >= required);
                if j < k {
                    assert(spec_hole_size(holes[j]) < required);
                } else if j > k {
                    assert(holes[k].1 < holes[j].0);
                }
            }
        }
    }
}

/// The ranges of `ranges` with their ends as mathematical integers.
pub open spec fn spec_int_ranges(ranges: Seq<(u16, u16)>) -> Seq<(int, int)> {
    ranges.map_values(|h: (u16, u16)| (h.0 as int, h.1 as int))
}

/// The ranges between the used ranges stay within the blocks that a `u16` can index, and none of
/// them covers all those blocks.
proof fn lemma_raw_holes_bounds(sorted: Seq<(u16, u16)>, last_block: u16)
    requires
        spec_holes_computable(sorted),
    ensures
        forall|i: int|
            0 <= i < spec_raw_holes(sorted, last_block).len() ==> {
                let h = #[trigger] spec_raw_holes(sorted, last_block)[i];
                0 <= h.0 && h.1 <= u16::MAX && !(h.0 == 0 && h.1 == u16::MAX)
            },
{
    let raw = spec_raw_holes(sorted, last_block);
    let first_len: int = if sorted[0].0 != 0 { 1 } else { 0 };
    assert forall|i: int| 0 <= i < raw.len() implies {
        let h = #[trigger] raw[i];
        0 <= h.0 && h.1 <= u16::MAX && !(h.0 == 0 && h.1 == u16::MAX)
    } by {
        if i < first_len {
            assert(raw[i] == (0int, sorted[0].0 - 1));
        } else if i < first_len + sorted.len() - 1 {
            let j = i - first_len;
            assert(raw[i] == (sorted[j].1 + 1, sorted[j + 1].0 - 1));
            assert(sorted[j].1 < u16::MAX);
            assert(sorted[j + 1].0 > 0);
        } else {
            assert(raw[i] == (sorted.last().1 + 1, last_block as int));
            assert(sorted[sorted.len() - 1].1 < u16::MAX);
        }
    }
}

/// Keeping the non-empty ranges of a sequence with one more range at its end.
proof fn lemma_non_empty_push(raw: Seq<(int, int)>, range: (int, int))
    ensures
        spec_non_empty(raw.push(range)) == spec_non_empty(raw) + if range.0 <= range.1 {
            seq![range]
        } else {
            Seq::empty()
        },
{
    assert(raw.push(range).drop_last() =~= raw);
}

/// The ranges with integer ends of a sequence with one more range at its end.
proof fn lemma_int_ranges_push(ranges: Seq<(u16, u16)>, range: (u16, u16))
    ensures
        spec_int_ranges(ranges.push(range)) == spec_int_ranges(ranges).push((range.0 as int, range.1 as int)),
{
    assert(spec_int_ranges(ranges.push(range)) =~= spec_int_ranges(ranges).push((range.0 as int, range.1 as int)));
}

/// The holes between the blocks used by the files, by their metadatas and by the bad blocks.
pub struct DataHoles<Chip: FlashMemoryChip> {
    block_holes: Vec<(u16, u16)>,
    _chip: PhantomData<Chip>,
}

impl<Chip: FlashMemoryChip> View for DataHoles<Chip> {
    type V = Seq<(int, int)>;

    closed spec fn view(&self) -> Seq<(int, int)> {
        spec_int_ranges(self.block_holes@)
    }
}

impl<Chip: FlashMemoryChip> DataHoles<Chip> {
    /// Every hole contains at least one block, and at most `u16::MAX` blocks.
    #[verifier::type_invariant]
    spec fn holes_are_valid(&self) -> bool {
        forall|i: int|
            0 <= i < self.block_holes@.len() ==> {
                let h = #[trigger] self.block_holes@[i];
                &&& h.0 <= h.1
                &&& h.1 - h.0 + 1 <= u16::MAX
            }
    }

    /// Returns the holes between the `used_slots` (ranges of blocks, both ends included) that
    /// contain at least one block, up to the block that contains the address `MEMORY_SIZE`
    /// (see [`spec_raw_holes`]), after ordering the used slots by their first block.
    fn from_used_slots(used_slots: Vec<(u16, u16)>) -> (holes: Self)
        requires
            spec_holes_computable(spec_sort_by_start(used_slots@)),
        ensures
            holes@ == spec_non_empty(
                spec_raw_holes(
                    spec_sort_by_start(used_slots@),
                    spec_block_index_of_address::<Chip>(Chip::MEMORY_SIZE),
                ),
            ),
    {
        let sorted = Self::sort_by_start(used_slots);
        let last_block = Chip::get_block_index_of_address(Chip::MEMORY_SIZE);
        let ghost raw = spec_raw_holes(sorted@, last_block);
        let n = sorted.len();
        let mut holes: Vec<(u16, u16)> = Vec::new();
        let ghost first_len: int = if sorted@[0].0 != 0 { 1 } else { 0 };
        assert(raw.len() == first_len + n);
        assert(raw.take(0) =~= Seq::<(int, int)>::empty());
        assert(spec_int_ranges(holes@) =~= Seq::<(int, int)>::empty());
        if sorted[0].0 != 0 {
            let hole = (0, sorted[0].0 - 1);
            proof {
                assert(raw[0] == (0int, sorted@[0].0 - 1));
                assert(raw.take(1) =~= raw.take(0).push(raw[0]));
                lemma_non_empty_push(raw.take(0), raw[0]);
                lemma_int_ranges_push(holes@, hole);
            }
            holes.push(hole);
        }
        let mut i: usize = 0;
        while i < n - 1
            invariant
                n == sorted@.len(),
                n > 0,
                spec_holes_computable(sorted@),
                raw == spec_raw_holes(sorted@, last_block),
                raw.len() == first_len + n,
                first_len == (if sorted@[0].0 != 0 { 1int } else { 0 }),
                i <= n - 1,
                spec_int_ranges(holes@) == spec_non_empty(raw.take(first_len + i)),
            decreases n - 1 - i,
        {
            let start = sorted[i].1 + 1;
            let end = sorted[i + 1].0 - 1;
            proof {
                assert(raw[first_len + i] == (start as int, end as int));
                assert(raw.take(first_len + i + 1) =~= raw.take(first_len + i).push(raw[first_len + i]));
                lemma_non_empty_push(raw.take(first_len + i), raw[first_len + i]);
                lemma_int_ranges_push(holes@, (start, end));
            }
            if start <= end {
                holes.push((start, end));
            }
            i = i + 1;
        }
        let start = sorted[n - 1].1 + 1;
        proof {
            assert(raw[first_len + n - 1] == (start as int, last_block as int));
            assert(raw =~= raw.take(first_len + n - 1).push(raw[first_len + n - 1]));
            lemma_non_empty_push(raw.take(first_len + n - 1), raw[first_len + n - 1]);
            lemma_int_ranges_push(holes@, (start, last_block));
        }
        if start <= last_block {
            holes.push((start, last_block));
        }
        proof {
            lemma_raw_holes_bounds(sorted@, last_block);
            lemma_non_empty_holes(raw);
            assert forall|j: int| 0 <= j < holes@.len() implies {
                let h = #[trigger] holes@[j];
                &&& h.0 <= h.1
                &&& h.1 - h.0 + 1 <= u16::MAX
            } by {
                assert(spec_int_ranges(holes@)[j] == spec_non_empty(raw)[j]);
            }
        }
        Self { block_holes: holes, _chip: PhantomData }
    }

    /// Returns `slots` ordered by their first block (see [`spec_sort_by_start`]).
    fn sort_by_start(slots: Vec<(u16, u16)>) -> (sorted: Vec<(u16, u16)>)
        ensures
            sorted@ == spec_sort_by_start(slots@),
            spec_sorted_by_start(sorted@),
    {
        let mut sorted: Vec<(u16, u16)> = Vec::new();
        let mut i: usize = 0;
        while i < slots.len()
            invariant
                i <= slots@.len(),
                sorted@ == spec_sort_by_start(slots@.take(i as int)),
                spec_sorted_by_start(sorted@),
            decreases slots@.len() - i,
        {
            let x = slots[i];
            let mut p = sorted.len();
            while p > 0 && sorted[p - 1].0 > x.0
                invariant
                    p <= sorted@.len(),
                    forall|j: int| p <= j < sorted@.len() ==> #[trigger] sorted@[j].0 > x.0,
                decreases p,
            {
                p = p - 1;
            }
            proof {
                assert forall|j: int| 0 <= j < p implies #[trigger] sorted@[j].0 <= x.0 by {
                    assert(sorted@[j].0 <= sorted@[p - 1].0);
                }
                lemma_insert_at(sorted@, x, p as int);
                assert(slots@.take(i + 1).drop_last() =~= slots@.take(i as int));
            }
            sorted.insert(p, x);
            i = i + 1;
        }
        assert(slots@.take(slots@.len() as int) =~= slots@);
        sorted
    }

    /// Check if there's enough space in the data holes to contain `data_size` bytes (see
    /// [`spec_free_space`]).
    pub fn find_space_for_new_data(&self, data_size: u32) -> (free_space: FreeSpace)
        requires
            spec_free_space_computable::<Chip>(self@, data_size),
        ensures
            free_space == spec_free_space::<Chip>(self@, data_size),
    {
        proof {
            use_type_invariant(self);
            Chip::lemma_geometry();
        }
        let ghost holes = self@;
        let required_blocks = ceil_div(data_size, Chip::BLOCK_SIZE) as u16;
        let ghost k = spec_first_fit(holes, required_blocks as int);
        proof {
            lemma_first_fit(holes, required_blocks as int);
            assert forall|j: int| 0 <= j < holes.len() implies spec_hole_size(#[trigger] holes[j]) >= 1 by {
                assert(holes[j] == (self.block_holes@[j].0 as int, self.block_holes@[j].1 as int));
            }
        }
        let mut total_available_space: u16 = 0;
        let mut i: usize = 0;
        while i < self.block_holes.len()
            invariant
                holes == self@,
                holes.len() == self.block_holes@.len(),
                i <= holes.len(),
                k == spec_first_fit(holes, required_blocks as int),
                required_blocks == spec_required_blocks::<Chip>(data_size),
                0 <= k <= holes.len(),
                forall|j: int| 0 <= j < k ==> spec_hole_size(#[trigger] holes[j]) < required_blocks,
                k < holes.len() ==> spec_hole_size(holes[k]) >= required_blocks,
                forall|j: int| 0 <= j < holes.len() ==> spec_hole_size(#[trigger] holes[j]) >= 1,
                forall|j: int|
                    0 <= j < holes.len() ==> holes[j] == (#[trigger] self.block_holes@[j].0 as int,
                    self.block_holes@[j].1 as int),
                forall|j: int|
                    0 <= j < holes.len() ==> spec_hole_size(#[trigger] holes[j]) <= u16::MAX,
                i <= k,
                total_available_space == spec_total_size(holes, i as int),
                spec_total_size(holes, k) <= u16::MAX,
                k < holes.len() ==> holes[k].0 * Chip::BLOCK_SIZE <= u32::MAX,
                Chip::BLOCK_SIZE > 0,
            decreases holes.len() - i,
        {
            let hole = self.block_holes[i];
            let hole_size = (hole.1 - hole.0 + 1) as u16;
            assert(hole_size == spec_hole_size(holes[i as int]));
            if hole_size >= required_blocks {
                assert(k == i);
                assert(holes[k].0 == hole.0);
                assert(spec_free_space::<Chip>(holes, data_size) == FreeSpace::Available {
                    start_address: (hole.0 * Chip::BLOCK_SIZE) as u32,
                });
                return FreeSpace::Available { start_address: Chip::get_address_of_block_index(hole.0) };
            }
            assert(i < k);
            proof {
                lemma_total_size_monotonic(holes, i + 1, k);
            }
            total_available_space = total_available_space + hole_size;
            i = i + 1;
        }
        assert(k == holes.len());
        if total_available_space >= required_blocks {
            FreeSpace::AvailableButRequiresCompacting
        } else {
            FreeSpace::NotAvailable
        }
    }
}

impl<Chip: FlashMemoryChip> DataHoles<Chip> {
    /// Returns the holes between the blocks used by the files of `files_metadatas_region`, by the
    /// bad blocks of its bad block table and by the metadata region of `regions_config` (see
    /// [`spec_data_holes`]).
    pub fn from_metadatas_region(files_metadatas_region: &FilesMetadatasRegion, regions_config: &RegionsConfig) -> (holes:
        Self)
        requires
            spec_data_holes_computable::<Chip>(
                files_metadatas_region.spec_bad_blocks(),
                (regions_config.metadata_block_range@.start, regions_config.metadata_block_range@.end),
                files_metadatas_region.spec_files(),
            ),
        ensures
            holes@ == spec_data_holes::<Chip>(
                files_metadatas_region.spec_bad_blocks(),
                (regions_config.metadata_block_range@.start, regions_config.metadata_block_range@.end),
                files_metadatas_region.spec_files(),
            ),
    {
        let bad_blocks = files_metadatas_region.bad_block_indices();
        let files = files_metadatas_region.get_files_metadatas();
        let metadata_range = (
            range_start(&regions_config.metadata_block_range),
            range_end(&regions_config.metadata_block_range),
        );
        let ghost used = spec_used_slots::<Chip>(bad_blocks@, metadata_range, files@);
        let mut used_slots: Vec<(u16, u16)> = Vec::new();
        let mut i: usize = 0;
        while i < bad_blocks.len()
            invariant
                i <= bad_blocks@.len(),
                used == spec_used_slots::<Chip>(bad_blocks@, metadata_range, files@),
                used_slots@ == used.take(i as int),
            decreases bad_blocks@.len() - i,
        {
            used_slots.push((bad_blocks[i], bad_blocks[i]));
            assert(used_slots@ =~= used.take(i + 1));
            i = i + 1;
        }
        used_slots.push(metadata_range);
        assert(used_slots@ =~= used.take(bad_blocks@.len() + 1 as int));
        let mut j: usize = 0;
        while j < files.len()
            invariant
                j <= files@.len(),
                used == spec_used_slots::<Chip>(bad_blocks@, metadata_range, files@),
                used.len() == bad_blocks@.len() + 1 + files@.len(),
                used_slots@ == used.take(bad_blocks@.len() + 1 + j),
                forall|k: int| 0 <= k < files@.len() ==> (#[trigger] files@[k]).spec_end_memory_address() <= u32::MAX,
            decreases files@.len() - j,
        {
            let start_block_index = Chip::get_block_index_of_address(files[j].start_memory_address);
            let end_block_index = Chip::get_block_index_of_address(files[j].end_memory_address());
            used_slots.push((start_block_index, end_block_index));
            assert(used_slots@ =~= used.take(bad_blocks@.len() + 1 + j + 1));
            j = j + 1;
        }
        assert(used_slots@ =~= used);
        Self::from_used_slots(used_slots)
    }
}

/// Where the data of a new file can be stored.
#[derive(Debug, PartialEq, Eq, Clone, Copy, Hash, Structural)]
pub enum FreeSpace {
    /// There's not enough space in the memory to store the file.
    NotAvailable,
    /// There aren't holes large enough to store the file, but if you compact the memory an hole of
    /// the required space will be available.
    AvailableButRequiresCompacting,
    /// There's enough space at `start_address` to store the file.
    Available { start_address: u32 },
}

} // verus!
