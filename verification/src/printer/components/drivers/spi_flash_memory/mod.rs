//! A flash memory connected to the microcontroller through a SPI interface.
//!
//! It's really important to understand how a flash memory works before you use any of the
//! operations of this module, or you might have unexpected results and/or wear out the memory:
//! a page can only be programmed after the block that contains it has been erased.
//!
//! Every operation (program, read, erase...) is planned by [`SpiFlashMemory`] as a sequence of
//! [`Step`]s: commands to send to the chip and waits for the chip to finish the operation in
//! progress. The platform executes the steps on its SPI device.
pub mod address;
pub mod chip;
pub mod commands;
pub mod features;

use std::ops::Range;

use vstd::prelude::*;

use self::address::{spec_plane_index, ColumnAddress, RowAddress};
pub use self::chip::{FlashMemoryChip, FlashMemoryChipExt, MT29F2G01ABAGDWB};
use self::chip::spec_address_of_block_index;
use self::commands::Command;
pub use self::features::FeatureRegister;
use crate::utils::math::{ceil_div, spec_ceil_div};

verus! {

/// The page of the memory to access while cycling over the pages of an address range, and the
/// range of the data of the operation that goes to (or comes from) that page.
pub struct CyclePageParameters<Chip: FlashMemoryChip> {
    pub data_range: Range<usize>,
    pub row_address: RowAddress<Chip>,
    pub column_address: ColumnAddress,
}

/// The number of pages cycled over to access `data_length` bytes.
pub open spec fn spec_pages_count<Chip: FlashMemoryChip>(data_length: u32) -> int {
    spec_ceil_div(data_length as int, Chip::PAGE_SIZE as int)
}

/// The `i`-th page cycled over to access `data_length` bytes starting from `address`: the pages
/// follow each other starting from the one that contains `address`; the column of the first one is
/// the position of `address` within its page, the one of the others is 0; the data of the `i`-th
/// page starts at `i * PAGE_SIZE` and it's `PAGE_SIZE` bytes long (only `PAGE_SIZE` minus the
/// column for the first page), except for the last page, whose data ends at `data_length`.
pub open spec fn spec_cycle_page<Chip: FlashMemoryChip>(address: u32, data_length: u32, i: int) -> CyclePageParameters<Chip> {
    let start_page_index = address / Chip::PAGE_SIZE;
    let column = (address - start_page_index * Chip::PAGE_SIZE) as u16;
    let row_address = RowAddress::<Chip>::spec_from_page_index((start_page_index + i) as u32);
    let data_range_start = i * Chip::PAGE_SIZE;
    let data_range_length = if i == spec_pages_count::<Chip>(data_length) - 1 {
        data_length - data_range_start
    } else if i == 0 {
        Chip::PAGE_SIZE - column
    } else {
        Chip::PAGE_SIZE as int
    };
    CyclePageParameters {
        data_range: Range {
            start: data_range_start as usize,
            end: (data_range_start + data_range_length) as usize,
        },
        row_address,
        column_address: ColumnAddress::spec_new(
            if i == 0 { column } else { 0 },
            spec_plane_index::<Chip>(row_address.spec_page_index()),
        ),
    }
}

/// All the pages cycled over to access `data_length` bytes starting from `address`.
pub open spec fn spec_cycle_pages<Chip: FlashMemoryChip>(address: u32, data_length: u32) -> Seq<CyclePageParameters<Chip>> {
    Seq::new(
        spec_pages_count::<Chip>(data_length) as nat,
        |i: int| spec_cycle_page::<Chip>(address, data_length, i),
    )
}

/// The data of the `i`-th page cycled over starts at `i * PAGE_SIZE`, before the end of the data.
pub proof fn lemma_cycle_page_data_start<Chip: FlashMemoryChip>(address: u32, data_length: u32, i: int)
    requires
        0 <= i < spec_cycle_pages::<Chip>(address, data_length).len(),
    ensures
        i * Chip::PAGE_SIZE < data_length,
        spec_cycle_page::<Chip>(address, data_length, i).data_range.start == i * Chip::PAGE_SIZE,
{
    Chip::lemma_geometry();
    let count = spec_pages_count::<Chip>(data_length);
    assert(count >= 0) by (nonlinear_arith)
        requires
            count == spec_ceil_div(data_length as int, Chip::PAGE_SIZE as int),
            Chip::PAGE_SIZE > 0,
    ;
    assert(i * Chip::PAGE_SIZE < data_length) by (nonlinear_arith)
        requires
            0 <= i < count,
            count == spec_ceil_div(data_length as int, Chip::PAGE_SIZE as int),
            Chip::PAGE_SIZE > 0,
    {
        assert(count * Chip::PAGE_SIZE < data_length + Chip::PAGE_SIZE);
        assert(i * Chip::PAGE_SIZE <= (count - 1) * Chip::PAGE_SIZE);
    }
}

/// A step of an operation on the flash memory.
pub enum Step<Chip: FlashMemoryChip> {
    /// Send the command to the chip.
    Send(Command<Chip>),
    /// Read the status register of the chip until it says that no operation is in progress.
    WaitForOperationToFinish,
}

/// The steps that program the data of a page.
pub open spec fn spec_program_page_steps<Chip: FlashMemoryChip>(page: CyclePageParameters<Chip>) -> Seq<Step<Chip>> {
    seq![
        Step::Send(Command::ProgramLoadRandomData {
            column_address: page.column_address,
            input_start: page.data_range.start,
            input_end: page.data_range.end,
        }),
        Step::WaitForOperationToFinish,
        Step::Send(Command::ProgramExecute { row_address: page.row_address }),
    ]
}

/// The steps that read the data of a page.
pub open spec fn spec_read_page_steps<Chip: FlashMemoryChip>(page: CyclePageParameters<Chip>) -> Seq<Step<Chip>> {
    seq![
        Step::Send(Command::PageRead { row_address: page.row_address }),
        Step::WaitForOperationToFinish,
        Step::Send(Command::ReadFromCache {
            column_address: page.column_address,
            output_start: page.data_range.start,
            output_end: page.data_range.end,
        }),
    ]
}

/// The steps that move a page to the page that contains `to_start_address` plus the start of the
/// data range of the page.
pub open spec fn spec_move_page_steps<Chip: FlashMemoryChip>(page: CyclePageParameters<Chip>, to_start_address: u32) -> Seq<Step<Chip>> {
    seq![
        Step::Send(Command::PageRead { row_address: page.row_address }),
        Step::Send(Command::ProgramLoadRandomData {
            column_address: page.column_address,
            input_start: 0,
            input_end: 0,
        }),
        Step::Send(Command::ProgramExecute {
            row_address: RowAddress::spec_from_page_index(
                ((to_start_address + page.data_range.start) / Chip::PAGE_SIZE as int) as u32,
            ),
        }),
        Step::WaitForOperationToFinish,
    ]
}

/// The steps that program the data of all the `pages`, one page after the other.
pub open spec fn spec_program_steps<Chip: FlashMemoryChip>(pages: Seq<CyclePageParameters<Chip>>) -> Seq<Step<Chip>>
    decreases pages.len(),
{
    if pages.len() == 0 {
        Seq::empty()
    } else {
        spec_program_steps(pages.drop_last()) + spec_program_page_steps(pages.last())
    }
}

/// The steps that read the data of all the `pages`, one page after the other.
pub open spec fn spec_read_steps<Chip: FlashMemoryChip>(pages: Seq<CyclePageParameters<Chip>>) -> Seq<Step<Chip>>
    decreases pages.len(),
{
    if pages.len() == 0 {
        Seq::empty()
    } else {
        spec_read_steps(pages.drop_last()) + spec_read_page_steps(pages.last())
    }
}

/// The steps that move all the `pages`, one page after the other.
pub open spec fn spec_move_steps<Chip: FlashMemoryChip>(pages: Seq<CyclePageParameters<Chip>>, to_start_address: u32) -> Seq<Step<Chip>>
    decreases pages.len(),
{
    if pages.len() == 0 {
        Seq::empty()
    } else {
        spec_move_steps(pages.drop_last(), to_start_address) + spec_move_page_steps(pages.last(), to_start_address)
    }
}

/// The steps that program `data_length` bytes of a buffer in the memory starting from `address`:
/// none when there's no data, otherwise the program of all the pages cycled over between a write
/// enable and a write disable.
pub open spec fn spec_program_data_steps<Chip: FlashMemoryChip>(data_length: u32, address: u32) -> Seq<Step<Chip>> {
    if data_length == 0 {
        Seq::empty()
    } else {
        seq![Step::Send(Command::WriteEnable)] + spec_program_steps(spec_cycle_pages::<Chip>(address, data_length))
            + seq![Step::Send(Command::WriteDisable)]
    }
}

/// The steps that read `data_length` bytes of the memory starting from `address` into a buffer:
/// none when there's no data, otherwise the read of all the pages cycled over.
pub open spec fn spec_read_data_steps<Chip: FlashMemoryChip>(address: u32, data_length: u32) -> Seq<Step<Chip>> {
    if data_length == 0 {
        Seq::empty()
    } else {
        spec_read_steps(spec_cycle_pages::<Chip>(address, data_length))
    }
}

/// The read steps of `pages` are three per page, in the order of the pages.
proof fn lemma_read_steps_of_page<Chip: FlashMemoryChip>(pages: Seq<CyclePageParameters<Chip>>, i: int, j: int)
    requires
        0 <= i < pages.len(),
        0 <= j < 3,
    ensures
        spec_read_steps(pages).len() == 3 * pages.len(),
        spec_read_steps(pages)[3 * i + j] == spec_read_page_steps(pages[i])[j],
    decreases pages.len(),
{
    let shorter = pages.drop_last();
    if i < pages.len() - 1 {
        lemma_read_steps_of_page(shorter, i, j);
        assert(shorter[i] == pages[i]);
    } else if pages.len() > 1 {
        lemma_read_steps_of_page(shorter, 0, 0);
    }
    assert(spec_read_steps(shorter).len() == 3 * shorter.len());
    assert(spec_read_steps(pages) == spec_read_steps(shorter) + spec_read_page_steps(pages.last()));
}

/// The program steps of `pages` are three per page, in the order of the pages.
proof fn lemma_program_steps_of_page<Chip: FlashMemoryChip>(pages: Seq<CyclePageParameters<Chip>>, i: int, j: int)
    requires
        0 <= i < pages.len(),
        0 <= j < 3,
    ensures
        spec_program_steps(pages).len() == 3 * pages.len(),
        spec_program_steps(pages)[3 * i + j] == spec_program_page_steps(pages[i])[j],
    decreases pages.len(),
{
    let shorter = pages.drop_last();
    if i < pages.len() - 1 {
        lemma_program_steps_of_page(shorter, i, j);
        assert(shorter[i] == pages[i]);
    } else if pages.len() > 1 {
        lemma_program_steps_of_page(shorter, 0, 0);
    }
    assert(spec_program_steps(shorter).len() == 3 * shorter.len());
    assert(spec_program_steps(pages) == spec_program_steps(shorter) + spec_program_page_steps(pages.last()));
}

/// A read gives back what a program of the same addresses wrote: for the same address and length
/// of data, the `i`-th page that the read loads is the one that the program executed, and the read
/// takes from the same column of that page the range of the buffer that the program loaded in it.
pub proof fn lemma_read_meets_program<Chip: FlashMemoryChip>(address: u32, data_length: u32, i: int)
    requires
        data_length > 0,
        0 <= i < spec_pages_count::<Chip>(data_length),
    ensures
        ({
            let page = spec_cycle_page::<Chip>(address, data_length, i);
            let program = spec_program_data_steps::<Chip>(data_length, address);
            let read = spec_read_data_steps::<Chip>(address, data_length);
            &&& program[1 + 3 * i] == Step::<Chip>::Send(Command::ProgramLoadRandomData {
                column_address: page.column_address,
                input_start: page.data_range.start,
                input_end: page.data_range.end,
            })
            &&& program[3 + 3 * i] == Step::<Chip>::Send(Command::ProgramExecute { row_address: page.row_address })
            &&& read[3 * i] == Step::<Chip>::Send(Command::PageRead { row_address: page.row_address })
            &&& read[2 + 3 * i] == Step::<Chip>::Send(Command::ReadFromCache {
                column_address: page.column_address,
                output_start: page.data_range.start,
                output_end: page.data_range.end,
            })
        }),
{
    let pages = spec_cycle_pages::<Chip>(address, data_length);
    lemma_program_steps_of_page(pages, i, 0);
    lemma_program_steps_of_page(pages, i, 2);
    lemma_read_steps_of_page(pages, i, 0);
    lemma_read_steps_of_page(pages, i, 2);
    let program_steps = spec_program_steps(pages);
    let with_enable = seq![Step::Send(Command::<Chip>::WriteEnable)] + program_steps;
    assert(with_enable[1 + 3 * i] == program_steps[3 * i]);
    assert(with_enable[3 + 3 * i] == program_steps[3 * i + 2]);
}

/// The pages cycled over hold the data byte after byte: when `address` is at the start of a page,
/// the byte `d` of the data belongs to the data range of exactly one of the pages, the `d / PAGE_SIZE`-th,
/// which is the page that contains the address `address + d`, and the data range of that page
/// starts at the byte of the data stored at the start of the page.
pub proof fn lemma_cycle_pages_hold_each_byte<Chip: FlashMemoryChip>(address: u32, data_length: u32, d: int)
    requires
        address as int % Chip::PAGE_SIZE as int == 0,
        0 <= d < data_length,
    ensures
        ({
            let pages = spec_cycle_pages::<Chip>(address, data_length);
            let i = d / Chip::PAGE_SIZE as int;
            &&& 0 <= i < pages.len()
            &&& pages[i].data_range.start <= d < pages[i].data_range.end
            &&& forall|j: int| 0 <= j < pages.len() && j != i ==> !(pages[j].data_range.start <= d
                < #[trigger] pages[j].data_range.end)
            &&& pages[i].row_address == RowAddress::<Chip>::spec_from_page_index(
                ((address + d) / Chip::PAGE_SIZE as int) as u32,
            )
            &&& d - pages[i].data_range.start == (address + d) % Chip::PAGE_SIZE as int
        }),
{
    Chip::lemma_geometry();
    let p = Chip::PAGE_SIZE as int;
    let pages = spec_cycle_pages::<Chip>(address, data_length);
    let count = spec_pages_count::<Chip>(data_length);
    let i = d / p;
    vstd::arithmetic::div_mod::lemma_fundamental_div_mod(d, p);
    vstd::arithmetic::div_mod::lemma_fundamental_div_mod(address as int, p);
    vstd::arithmetic::div_mod::lemma_fundamental_div_mod(data_length as int, p);
    vstd::arithmetic::div_mod::lemma_div_is_ordered(0, d, p);
    let q = data_length as int / p;
    assert(count == spec_ceil_div(data_length as int, p));
    // i is a page index.
    assert(i < count) by (nonlinear_arith)
        requires
            d == p * i + d % p,
            0 <= d % p < p,
            data_length == p * q + data_length as int % p,
            0 <= data_length as int % p < p,
            d < data_length,
            count == if data_length as int % p == 0 { q } else { q + 1 },
            p > 0,
    ;
    let start_page = address / Chip::PAGE_SIZE;
    assert(start_page as int == address as int / p);
    assert(start_page * Chip::PAGE_SIZE == address as int) by (nonlinear_arith)
        requires
            address == p * (address as int / p) + address as int % p,
            address as int % p == 0,
            start_page as int == address as int / p,
            p == Chip::PAGE_SIZE as int,
    ;
    let column = (address - start_page * Chip::PAGE_SIZE) as u16;
    assert(column == 0);
    lemma_cycle_page_data_start::<Chip>(address, data_length, i);
    // Every page but the last holds a whole page of data.
    assert forall|j: int| 0 <= j < count implies {
        &&& #[trigger] pages[j].data_range.start == j * p
        &&& pages[j].data_range.end == if j == count - 1 { data_length as int } else { (j + 1) * p }
    } by {
        lemma_cycle_page_data_start::<Chip>(address, data_length, j);
        assert((j + 1) * p == j * p + p) by (nonlinear_arith);
        if j == count - 1 {
            assert(j * p < data_length);
        } else {
            assert((j + 1) * p <= data_length) by (nonlinear_arith)
                requires
                    j + 1 < count,
                    data_length == p * q + data_length as int % p,
                    0 <= data_length as int % p < p,
                    count == if data_length as int % p == 0 { q } else { q + 1 },
                    p > 0,
            ;
        }
    }
    assert(i * p <= d < (i + 1) * p) by (nonlinear_arith)
        requires
            d == p * i + d % p,
            0 <= d % p < p,
    ;
    assert forall|j: int| 0 <= j < pages.len() && j != i implies !(pages[j].data_range.start <= d
        < #[trigger] pages[j].data_range.end) by {
        if j < i {
            assert((j + 1) * p <= i * p) by (nonlinear_arith)
                requires
                    j < i,
                    p > 0,
            ;
        } else {
            assert((i + 1) * p <= j * p) by (nonlinear_arith)
                requires
                    i < j,
                    p > 0,
            ;
        }
    }
    // The page of the byte is the one of its address.
    vstd::arithmetic::div_mod::lemma_hoist_over_denominator(d, address as int / p, p as nat);
    assert((address + d) == d + (address as int / p) * p) by (nonlinear_arith)
        requires
            address == p * (address as int / p) + address as int % p,
            address as int % p == 0,
    ;
    assert((address + d) / p == start_page + i);
    vstd::arithmetic::div_mod::lemma_fundamental_div_mod(address + d, p);
    assert((address + d) % p == d - i * p) by (nonlinear_arith)
        requires
            address + d == p * ((address + d) / p) + (address + d) % p,
            (address + d) / p == address as int / p + i,
            address == p * (address as int / p),
            d == p * i + d % p,
            0 <= d % p < p,
            0 <= (address + d) % p < p,
    ;
}

/// The move steps of `pages` are four per page, in the order of the pages.
proof fn lemma_move_steps_of_page<Chip: FlashMemoryChip>(
    pages: Seq<CyclePageParameters<Chip>>,
    to_start_address: u32,
    i: int,
    j: int,
)
    requires
        0 <= i < pages.len(),
        0 <= j < 4,
    ensures
        spec_move_steps(pages, to_start_address).len() == 4 * pages.len(),
        spec_move_steps(pages, to_start_address)[4 * i + j] == spec_move_page_steps(pages[i], to_start_address)[j],
    decreases pages.len(),
{
    let shorter = pages.drop_last();
    if i < pages.len() - 1 {
        lemma_move_steps_of_page(shorter, to_start_address, i, j);
        assert(shorter[i] == pages[i]);
    } else if pages.len() > 1 {
        lemma_move_steps_of_page(shorter, to_start_address, 0, 0);
    }
    assert(spec_move_steps(shorter, to_start_address).len() == 4 * shorter.len());
    assert(spec_move_steps(pages, to_start_address) == spec_move_steps(shorter, to_start_address)
        + spec_move_page_steps(pages.last(), to_start_address));
}

/// An internal data move copies consecutive pages to consecutive pages: after the write enable,
/// there are four steps per page moved (as many as the pages that hold the `from_end - from_start`
/// bytes), then the write disable; the `i`-th page moved is read from the page `i` after the one
/// that contains `from_start`, and programmed into the page that contains
/// `to_start_address + i * PAGE_SIZE`, which is the page `i` after the one that contains
/// `to_start_address`.
pub proof fn lemma_move_copies_page_after_page<Chip: FlashMemoryChip>(
    from_start: u32,
    from_end: u32,
    to_start_address: u32,
    i: int,
)
    requires
        from_start <= from_end,
        to_start_address + (from_end - from_start) <= u32::MAX,
        0 <= i < spec_ceil_div(from_end - from_start, Chip::PAGE_SIZE as int),
    ensures
        ({
            let steps = seq![Step::Send(Command::<Chip>::WriteEnable)] + spec_move_steps(
                spec_cycle_pages::<Chip>(from_start, (from_end - from_start) as u32),
                to_start_address,
            ) + seq![Step::Send(Command::<Chip>::WriteDisable)];
            let count = spec_ceil_div(from_end - from_start, Chip::PAGE_SIZE as int);
            &&& steps.len() == 4 * count + 2
            &&& steps[0] == Step::Send(Command::<Chip>::WriteEnable)
            &&& steps[4 * count + 1] == Step::Send(Command::<Chip>::WriteDisable)
            &&& steps[1 + 4 * i] == Step::Send(Command::<Chip>::PageRead {
                row_address: RowAddress::spec_from_page_index((from_start as int / Chip::PAGE_SIZE as int + i) as u32),
            })
            &&& steps[3 + 4 * i] == Step::Send(Command::<Chip>::ProgramExecute {
                row_address: RowAddress::spec_from_page_index(
                    ((to_start_address + i * Chip::PAGE_SIZE) / Chip::PAGE_SIZE as int) as u32,
                ),
            })
            &&& (to_start_address + i * Chip::PAGE_SIZE) / Chip::PAGE_SIZE as int == to_start_address as int
                / Chip::PAGE_SIZE as int + i
        }),
{
    Chip::lemma_geometry();
    let length = (from_end - from_start) as u32;
    let pages = spec_cycle_pages::<Chip>(from_start, length);
    let moves = spec_move_steps(pages, to_start_address);
    lemma_move_steps_of_page(pages, to_start_address, i, 0);
    lemma_move_steps_of_page(pages, to_start_address, i, 2);
    lemma_cycle_page_data_start::<Chip>(from_start, length, i);
    let page = pages[i];
    assert(page == spec_cycle_page::<Chip>(from_start, length, i));
    assert(page.data_range.start == i * Chip::PAGE_SIZE);
    let steps = seq![Step::Send(Command::<Chip>::WriteEnable)] + moves + seq![Step::Send(Command::<Chip>::WriteDisable)];
    assert(steps[1 + 4 * i] == moves[4 * i]);
    assert(steps[3 + 4 * i] == moves[4 * i + 2]);
    vstd::arithmetic::div_mod::lemma_hoist_over_denominator(
        to_start_address as int,
        i,
        Chip::PAGE_SIZE as nat,
    );
}

/// The steps that erase the block at `block_index`.
pub open spec fn spec_erase_block_steps<Chip: FlashMemoryChip>(block_index: u16) -> Seq<Step<Chip>> {
    seq![
        Step::Send(Command::WriteEnable),
        Step::Send(Command::BlockErase {
            row_address: RowAddress::spec_from_page_index(
                (spec_address_of_block_index::<Chip>(block_index) / Chip::PAGE_SIZE as int) as u32,
            ),
        }),
        Step::WaitForOperationToFinish,
    ]
}

/// The steps that erase the blocks from `start` to `end` (both included), one block after the
/// other; none when `start > end`.
pub open spec fn spec_erase_blocks_steps<Chip: FlashMemoryChip>(start: int, end: int) -> Seq<Step<Chip>>
    decreases end - start + 1,
{
    if start > end {
        Seq::empty()
    } else {
        spec_erase_blocks_steps::<Chip>(start, end - 1) + spec_erase_block_steps::<Chip>(end as u16)
    }
}

/// A flash memory chip of type `Chip` connected to the microcontroller through a SPI interface.
///
/// Check the documentation of the [module](self) to understand how the operations are executed.
pub struct SpiFlashMemory<Chip: FlashMemoryChip> {
    chip: Chip,
}

impl<Chip: FlashMemoryChip> SpiFlashMemory<Chip> {
    /// Returns the flash memory made of the provided `chip`.
    pub fn new(chip: Chip) -> (memory: Self)
        ensures
            memory.spec_chip() == chip,
    {
        Self { chip }
    }

    /// The chip of the memory.
    pub closed spec fn spec_chip(&self) -> Chip {
        self.chip
    }

    /// Returns the pages to cycle over to access `data_length` bytes starting from `address` (see
    /// [`spec_cycle_page`]).
    pub fn cycle_pages(address: u32, data_length: u32) -> (pages: Vec<CyclePageParameters<Chip>>)
        ensures
            pages@ == spec_cycle_pages::<Chip>(address, data_length),
    {
        proof {
            Chip::lemma_geometry();
        }
        let start_page_index = address / Chip::PAGE_SIZE;
        assert(start_page_index * Chip::PAGE_SIZE <= address) by (nonlinear_arith)
            requires
                start_page_index == address / Chip::PAGE_SIZE,
                Chip::PAGE_SIZE > 0,
        ;
        assert(address - start_page_index * Chip::PAGE_SIZE < Chip::PAGE_SIZE) by (nonlinear_arith)
            requires
                start_page_index == address / Chip::PAGE_SIZE,
                Chip::PAGE_SIZE > 0,
        ;
        let first_column = (address - start_page_index * Chip::PAGE_SIZE) as u16;
        let mut column_address = first_column;
        let mut data_range_length = Chip::PAGE_SIZE as usize - column_address as usize;
        let loops_to_do = ceil_div(data_length, Chip::PAGE_SIZE);
        let mut pages: Vec<CyclePageParameters<Chip>> = Vec::new();
        let mut i: u32 = 0;
        while i < loops_to_do
            invariant
                Chip::PAGE_SIZE >= 2,
                Chip::PAGE_SIZE <= 0x1000,
                start_page_index == address / Chip::PAGE_SIZE,
                first_column == (address - start_page_index * Chip::PAGE_SIZE) as u16,
                loops_to_do == spec_pages_count::<Chip>(data_length),
                i <= loops_to_do,
                column_address == (if i == 0 { first_column } else { 0 }),
                data_range_length == (if i == 0 { Chip::PAGE_SIZE - first_column } else { Chip::PAGE_SIZE as int }),
                pages@ =~= Seq::new(i as nat, |j: int| spec_cycle_page::<Chip>(address, data_length, j)),
            decreases loops_to_do - i,
        {
            assert(i * Chip::PAGE_SIZE < data_length) by (nonlinear_arith)
                requires
                    i < loops_to_do,
                    loops_to_do == spec_ceil_div(data_length as int, Chip::PAGE_SIZE as int),
                    Chip::PAGE_SIZE > 0,
            {
                assert(loops_to_do * Chip::PAGE_SIZE < data_length + Chip::PAGE_SIZE);
            }
            assert(start_page_index + i <= u32::MAX) by (nonlinear_arith)
                requires
                    start_page_index == address / Chip::PAGE_SIZE,
                    i * Chip::PAGE_SIZE < data_length,
                    Chip::PAGE_SIZE >= 2,
            ;
            let row_address = RowAddress::<Chip>::from_page_index(start_page_index + i);
            let plane_index = row_address.get_plane_index();
            let data_range_start = (i * Chip::PAGE_SIZE) as usize;

            if i == loops_to_do - 1 {
                data_range_length = data_length as usize - data_range_start;
            }
            assert(data_range_start + data_range_length <= data_length) by (nonlinear_arith)
                requires
                    data_range_start == i * Chip::PAGE_SIZE,
                    i < loops_to_do,
                    loops_to_do == spec_ceil_div(data_length as int, Chip::PAGE_SIZE as int),
                    i == loops_to_do - 1 ==> data_range_length == data_length - data_range_start,
                    i != loops_to_do - 1 ==> data_range_length <= Chip::PAGE_SIZE,
                    Chip::PAGE_SIZE > 0,
            {
                if i != loops_to_do - 1 {
                    assert((i + 1) * Chip::PAGE_SIZE < data_length);
                }
            }

            let page = CyclePageParameters {
                data_range: Range { start: data_range_start, end: data_range_start + data_range_length },
                column_address: ColumnAddress::new(column_address, plane_index),
                row_address,
            };
            pages.push(page);

            column_address = 0;
            data_range_length = Chip::PAGE_SIZE as usize;
            i = i + 1;
        }
        pages
    }

    /// Returns the steps that program `data_length` bytes of the buffer of the operation in the
    /// memory starting from `address`: for every page cycled over, the data is loaded in the cache
    /// of the chip and then programmed in the page. Nothing is done when there's no data.
    ///
    /// The program only affects the data area of a page, not the ECC one, and a page can't be
    /// programmed again before erasing it.
    pub fn program(&self, data_length: u32, address: u32) -> (steps: Vec<Step<Chip>>)
        ensures
            steps@ == spec_program_data_steps::<Chip>(data_length, address),
    {
        let mut steps: Vec<Step<Chip>> = Vec::new();
        if data_length == 0 {
            return steps;
        }
        steps.push(Step::Send(Command::WriteEnable));
        let pages = Self::cycle_pages(address, data_length);
        let mut i: usize = 0;
        while i < pages.len()
            invariant
                i <= pages@.len(),
                steps@ == seq![Step::Send(Command::WriteEnable)] + spec_program_steps(pages@.take(i as int)),
            decreases pages@.len() - i,
        {
            let page = &pages[i];
            steps.push(
                Step::Send(Command::ProgramLoadRandomData {
                    column_address: page.column_address,
                    input_start: page.data_range.start,
                    input_end: page.data_range.end,
                }),
            );
            steps.push(Step::WaitForOperationToFinish);
            steps.push(Step::Send(Command::ProgramExecute { row_address: page.row_address }));
            assert(pages@.take(i + 1).drop_last() =~= pages@.take(i as int));
            assert(steps@ =~= seq![Step::Send(Command::WriteEnable)] + spec_program_steps(pages@.take(i + 1)));
            i = i + 1;
        }
        assert(pages@.take(pages@.len() as int) =~= pages@);
        steps.push(Step::Send(Command::WriteDisable));
        steps
    }

    /// Returns the steps that read `data_length` bytes of the data areas of the pages starting from
    /// the specified `address` into the buffer of the operation: for every page cycled over, the
    /// page is loaded in the cache of the chip and its data is read from the cache. Nothing is done
    /// when there's no data.
    pub fn read(&self, address: u32, data_length: u32) -> (steps: Vec<Step<Chip>>)
        ensures
            steps@ == spec_read_data_steps::<Chip>(address, data_length),
    {
        let mut steps: Vec<Step<Chip>> = Vec::new();
        if data_length == 0 {
            return steps;
        }
        let pages = Self::cycle_pages(address, data_length);
        let mut i: usize = 0;
        while i < pages.len()
            invariant
                i <= pages@.len(),
                steps@ == spec_read_steps(pages@.take(i as int)),
            decreases pages@.len() - i,
        {
            let page = &pages[i];
            steps.push(Step::Send(Command::PageRead { row_address: page.row_address }));
            steps.push(Step::WaitForOperationToFinish);
            steps.push(
                Step::Send(Command::ReadFromCache {
                    column_address: page.column_address,
                    output_start: page.data_range.start,
                    output_end: page.data_range.end,
                }),
            );
            assert(pages@.take(i + 1).drop_last() =~= pages@.take(i as int));
            assert(steps@ =~= spec_read_steps(pages@.take(i + 1)));
            i = i + 1;
        }
        assert(pages@.take(pages@.len() as int) =~= pages@);
        steps
    }

    /// Returns the steps that read `data_length` bytes from the ECC area of the page identified by
    /// the provided `row_address` into the buffer of the operation.
    pub fn read_ecc(&self, row_address: RowAddress<Chip>, data_length: u32) -> (steps: Vec<Step<Chip>>)
        requires
            data_length <= Chip::PAGE_ECC_SIZE,
        ensures
            steps@ == seq![
                Step::Send(Command::PageRead { row_address }),
                Step::WaitForOperationToFinish,
                Step::Send(Command::ReadFromCache {
                    column_address: ColumnAddress::spec_new(
                        Chip::PAGE_SIZE as u16,
                        spec_plane_index::<Chip>(row_address.spec_page_index()),
                    ),
                    output_start: 0,
                    output_end: data_length as usize,
                }),
            ],
    {
        proof {
            Chip::lemma_geometry();
        }
        let column_address = ColumnAddress::new(Chip::PAGE_SIZE as u16, row_address.get_plane_index());
        let mut steps: Vec<Step<Chip>> = Vec::new();
        steps.push(Step::Send(Command::PageRead { row_address }));
        steps.push(Step::WaitForOperationToFinish);
        steps.push(
            Step::Send(Command::ReadFromCache { column_address, output_start: 0, output_end: data_length as usize }),
        );
        assert(steps@ =~= seq![
            Step::Send(Command::PageRead { row_address }),
            Step::WaitForOperationToFinish,
            Step::Send(Command::ReadFromCache {
                column_address: ColumnAddress::spec_new(
                    Chip::PAGE_SIZE as u16,
                    spec_plane_index::<Chip>(row_address.spec_page_index()),
                ),
                output_start: 0,
                output_end: data_length as usize,
            }),
        ]);
        steps
    }

    /// Returns the steps that move the bytes in the address range from `from_start` to `from_end`
    /// to the address range of the same size that starts at `to_start_address`, without moving the
    /// data through the microcontroller: every page cycled over (for `from_end - from_start` bytes)
    /// is loaded in the cache of the chip and programmed in the page that contains
    /// `to_start_address` plus the start of the data range of the page.
    pub fn internal_data_move(&self, from_start: u32, from_end: u32, to_start_address: u32) -> (steps: Vec<
        Step<Chip>,
    >)
        requires
            from_start <= from_end,
            to_start_address + (from_end - from_start) <= u32::MAX,
        ensures
            steps@ == seq![Step::Send(Command::WriteEnable)] + spec_move_steps(
                spec_cycle_pages::<Chip>(from_start, (from_end - from_start) as u32),
                to_start_address,
            ) + seq![Step::Send(Command::WriteDisable)],
    {
        let mut steps: Vec<Step<Chip>> = Vec::new();
        steps.push(Step::Send(Command::WriteEnable));
        let pages = Self::cycle_pages(from_start, from_end - from_start);
        let mut i: usize = 0;
        while i < pages.len()
            invariant
                i <= pages@.len(),
                pages@ == spec_cycle_pages::<Chip>(from_start, (from_end - from_start) as u32),
                from_start <= from_end,
                to_start_address + (from_end - from_start) <= u32::MAX,
                steps@ == seq![Step::Send(Command::WriteEnable)] + spec_move_steps(
                    pages@.take(i as int),
                    to_start_address,
                ),
            decreases pages@.len() - i,
        {
            let page = &pages[i];
            steps.push(Step::Send(Command::PageRead { row_address: page.row_address }));
            steps.push(
                Step::Send(Command::ProgramLoadRandomData {
                    column_address: page.column_address,
                    input_start: 0,
                    input_end: 0,
                }),
            );
            proof {
                Chip::lemma_geometry();
                lemma_cycle_page_data_start::<Chip>(from_start, (from_end - from_start) as u32, i as int);
                assert(pages@[i as int] == spec_cycle_page::<Chip>(from_start, (from_end - from_start) as u32, i as int));
            }
            let to_address = to_start_address + page.data_range.start as u32;
            let row_address = RowAddress::from_memory_address(to_address);
            assert(to_address / Chip::PAGE_SIZE == (to_address as int / Chip::PAGE_SIZE as int) as u32) by (nonlinear_arith)
                requires
                    Chip::PAGE_SIZE > 0,
            ;
            steps.push(Step::Send(Command::ProgramExecute { row_address }));
            steps.push(Step::WaitForOperationToFinish);
            assert(pages@.take(i + 1).drop_last() =~= pages@.take(i as int));
            assert(steps@ =~= seq![Step::Send(Command::WriteEnable)] + spec_move_steps(
                pages@.take(i + 1),
                to_start_address,
            ));
            i = i + 1;
        }
        assert(pages@.take(pages@.len() as int) =~= pages@);
        steps.push(Step::Send(Command::WriteDisable));
        steps
    }

    /// Returns the steps that put the flash memory in a known condition.
    pub fn reset(&self) -> (steps: Vec<Step<Chip>>)
        ensures
            steps@ == seq![Step::Send(Command::<Chip>::Reset)],
    {
        let mut steps: Vec<Step<Chip>> = Vec::new();
        steps.push(Step::Send(Command::Reset));
        assert(steps@ =~= seq![Step::Send(Command::<Chip>::Reset)]);
        steps
    }

    /// Returns the steps that erase all the blocks from `start_block_index` to `end_block_index`
    /// (both included), resetting all their bits to 1.
    pub fn erase_blocks(&self, start_block_index: u16, end_block_index: u16) -> (steps: Vec<Step<Chip>>)
        requires
            spec_address_of_block_index::<Chip>(end_block_index) <= u32::MAX,
        ensures
            steps@ == spec_erase_blocks_steps::<Chip>(start_block_index as int, end_block_index as int)
                + seq![Step::Send(Command::WriteDisable)],
    {
        proof {
            Chip::lemma_geometry();
        }
        let mut steps: Vec<Step<Chip>> = Vec::new();
        let stop: u32 = end_block_index as u32 + 1;
        let mut index: u32 = start_block_index as u32;
        while index < stop
            invariant
                start_block_index <= index,
                index <= stop || start_block_index > end_block_index,
                stop == end_block_index + 1,
                spec_address_of_block_index::<Chip>(end_block_index) <= u32::MAX,
                Chip::BLOCK_SIZE > 0,
                index <= stop ==> steps@ == spec_erase_blocks_steps::<Chip>(start_block_index as int, index - 1),
                index > stop ==> steps@.len() == 0,
            decreases stop - index,
        {
            let block_index = index as u16;
            proof {
                Chip::lemma_geometry();
            }
            steps.push(Step::Send(Command::WriteEnable));
            assert(spec_address_of_block_index::<Chip>(block_index) <= u32::MAX) by (nonlinear_arith)
                requires
                    block_index <= end_block_index,
                    spec_address_of_block_index::<Chip>(end_block_index) <= u32::MAX,
                    spec_address_of_block_index::<Chip>(end_block_index) == end_block_index * Chip::BLOCK_SIZE,
                    spec_address_of_block_index::<Chip>(block_index) == block_index * Chip::BLOCK_SIZE,
            ;
            let address = Chip::get_address_of_block_index(block_index);
            let row_address = RowAddress::from_memory_address(address);
            steps.push(Step::Send(Command::BlockErase { row_address }));
            steps.push(Step::WaitForOperationToFinish);
            assert(address / Chip::PAGE_SIZE == (address as int / Chip::PAGE_SIZE as int) as u32) by (nonlinear_arith)
                requires
                    Chip::PAGE_SIZE > 0,
            ;
            assert(spec_erase_block_steps::<Chip>(block_index) =~= seq![
                Step::Send(Command::WriteEnable),
                Step::Send(Command::BlockErase { row_address }),
                Step::WaitForOperationToFinish,
            ]);
            assert(steps@ =~= spec_erase_blocks_steps::<Chip>(start_block_index as int, index as int));
            index = index + 1;
        }
        steps.push(Step::Send(Command::WriteDisable));
        steps
    }

    /// Returns the command that asks the chip its manufacturer ID and its device ID (to check them
    /// with [`check_ids`]).
    pub fn validate_id(&self) -> (command: Command<Chip>)
        ensures
            command == Command::<Chip>::ReadId,
    {
        Command::ReadId
    }

    /// Returns the command that reads the value stored in the provided `features` register of the
    /// chip.
    pub fn get_features(&self, features: FeatureRegister) -> (command: Command<Chip>)
        ensures
            command == (Command::<Chip>::GetFeatures { features_address: features.spec_address() }),
    {
        Command::GetFeatures { features_address: features.address() }
    }

    /// Returns the command that sets the value stored in the provided `features` register of the
    /// chip to `features_value`.
    pub fn set_features(&self, features: FeatureRegister, features_value: u8) -> (command: Command<Chip>)
        ensures
            command == (Command::<Chip>::SetFeatures { features_address: features.spec_address(), features_value }),
    {
        Command::SetFeatures { features_address: features.address(), features_value }
    }

    /// Returns a mutable reference to the underlying chip.
    pub fn get_chip_mut(&mut self) -> (chip: &mut Chip)
        ensures
            *chip == old(self).spec_chip(),
            final(self).spec_chip() == *final(chip),
    {
        &mut self.chip
    }
}

/// Returns `true` if the value of the status register says that an operation is in progress
/// (its least significant bit is set).
pub fn is_operation_in_progress(status: u8) -> (in_progress: bool)
    ensures
        in_progress == ((status & 0b0000_0001u8) == 1),
{
    (status & 0b0000_0001) == 1
}

/// Checks that the IDs read from the chip are the ones of `Chip`.
///
/// Returns `Ok(())` if both match, otherwise the error that says which ones don't match.
pub fn check_ids<Chip: FlashMemoryChip, E>(manufacturer_id: u8, device_id: u8) -> (result: Result<(), ValidateIdError<E>>)
    ensures
        match result {
            Ok(()) => manufacturer_id == Chip::MANUFACTURER_ID && device_id == Chip::DEVICE_ID,
            Err(ValidateIdError::DeviceIdDoesntMatch) => manufacturer_id == Chip::MANUFACTURER_ID
                && device_id != Chip::DEVICE_ID,
            Err(ValidateIdError::ManufacturerIdDoesntMatch) => manufacturer_id != Chip::MANUFACTURER_ID
                && device_id == Chip::DEVICE_ID,
            Err(ValidateIdError::BothIdsDontMatch) => manufacturer_id != Chip::MANUFACTURER_ID
                && device_id != Chip::DEVICE_ID,
            Err(ValidateIdError::CoudlntReadSpi(_)) => false,
        },
{
    match (manufacturer_id == Chip::MANUFACTURER_ID, device_id == Chip::DEVICE_ID) {
        (true, true) => Ok(()),
        (true, false) => Err(ValidateIdError::DeviceIdDoesntMatch),
        (false, true) => Err(ValidateIdError::ManufacturerIdDoesntMatch),
        (false, false) => Err(ValidateIdError::BothIdsDontMatch),
    }
}

/// An error of the validation of the IDs of the chip.
pub enum ValidateIdError<E> {
    /// Only the `Manufacturer ID` read from the SPI device doesn't match the one of the chip.
    ManufacturerIdDoesntMatch,
    /// Only the `Device ID` read from the SPI device doesn't match the one of the chip.
    DeviceIdDoesntMatch,
    /// Both the `Manufacturer ID` and the `Device ID` read from the SPI device don't match the ones
    /// of the chip.
    BothIdsDontMatch,
    /// It has been impossible to communicate via SPI and so no validation has been performed.
    CoudlntReadSpi(E),
}

} // verus!
