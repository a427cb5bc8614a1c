use firmware_core::printer::components::drivers::spi_flash_memory::address::{ColumnAddress, RowAddress};
use firmware_core::printer::components::drivers::spi_flash_memory::commands::Command;
use firmware_core::printer::components::drivers::spi_flash_memory::{
    check_ids, is_operation_in_progress, FeatureRegister, FlashMemoryChip, FlashMemoryChipExt, SpiFlashMemory, Step,
    ValidateIdError, MT29F2G01ABAGDWB,
};

type Chip = MT29F2G01ABAGDWB;

fn memory() -> SpiFlashMemory<Chip> {
    SpiFlashMemory::new(MT29F2G01ABAGDWB)
}

#[test]
fn row_address_instantation() {
    const PAGES_TO_ADDRESS: u32 = 100;
    for i in 0..PAGES_TO_ADDRESS {
        assert_eq!(
            RowAddress::<Chip>::from_page_index(i),
            RowAddress::<Chip>::from_memory_address(i * Chip::PAGE_SIZE)
        );
    }
}

#[test]
fn cycle_zero_pages() {
    for address in 0..10_000 {
        assert!(SpiFlashMemory::<Chip>::cycle_pages(address, 0).is_empty());
    }
}

#[test]
fn cycle_single_pages() {
    const LOOPS_COUNT: usize = 10_000;
    const DATA_LENGTH: u32 = MT29F2G01ABAGDWB::PAGE_SIZE;
    let mut cycled_pages = [false; LOOPS_COUNT];
    for address in 0..LOOPS_COUNT {
        for parameters in SpiFlashMemory::<Chip>::cycle_pages(DATA_LENGTH * address as u32, DATA_LENGTH) {
            let row_address = parameters.row_address.get_page_index() as usize;
            assert!(!cycled_pages[row_address]);
            cycled_pages[row_address] = true;
        }
    }
}

#[test]
fn cycle_pages_splits_data_at_page_boundaries() {
    let pages = SpiFlashMemory::<Chip>::cycle_pages(2000, 5000);
    assert_eq!(pages.len(), 3);
    assert_eq!(pages[0].row_address.get_page_index(), 0);
    assert_eq!(pages[0].column_address.as_bytes(), &[0xD0, 0x07]);
    assert_eq!((pages[0].data_range.start, pages[0].data_range.end), (0, 48));
    assert_eq!(pages[1].row_address.get_page_index(), 1);
    assert_eq!((pages[1].data_range.start, pages[1].data_range.end), (2048, 4096));
    assert_eq!(pages[2].row_address.get_page_index(), 2);
    assert_eq!((pages[2].data_range.start, pages[2].data_range.end), (4096, 5000));
}

#[test]
fn row_address_bytes_and_planes() {
    let address = RowAddress::<Chip>::from_page_index(0x01_23_45);
    assert_eq!(address.as_bytes(), &[0x45, 0x23, 0x01]);
    assert_eq!(address.get_page_index(), 0x01_23_45);
    assert_eq!(RowAddress::<Chip>::from_page_index(0).get_plane_index(), 0);
    assert_eq!(RowAddress::<Chip>::from_page_index(64).get_plane_index(), 1);
    assert_eq!(RowAddress::<Chip>::from_page_index(128).get_plane_index(), 0);
    assert_eq!(RowAddress::<Chip>::from_page_index(0x0100_0001).get_page_index(), 1);
}

#[test]
fn column_address_bytes() {
    assert_eq!(ColumnAddress::new(0x123, 0).as_bytes(), &[0x23, 0x01]);
    assert_eq!(ColumnAddress::new(0x123, 1).as_bytes(), &[0x23, 0x11]);
}

#[test]
fn block_geometry() {
    assert_eq!(Chip::BLOCK_SIZE, 131_072);
    assert_eq!(Chip::MEMORY_SIZE, 268_435_456);
    assert_eq!(Chip::get_address_of_block_index(3), 3 * 131_072);
    assert_eq!(Chip::get_block_index_of_address(3 * 131_072 + 5), 3);
    assert_eq!(Chip::get_block_index_of_address(Chip::MEMORY_SIZE), 2048);
    assert!(Chip::contains_bad_block_mark(0));
    assert!(!Chip::contains_bad_block_mark(0xFF));
    assert!(!Chip::contains_bad_block_mark(1));
}

#[test]
fn program_steps() {
    let steps = memory().program(10, 4096);
    assert_eq!(steps.len(), 5);
    assert!(matches!(steps[0], Step::Send(Command::WriteEnable)));
    match &steps[1] {
        Step::Send(Command::ProgramLoadRandomData { column_address, input_start, input_end }) => {
            assert_eq!(column_address.as_bytes(), &[0, 0]);
            assert_eq!((*input_start, *input_end), (0, 10));
        },
        _ => panic!("expected a program load"),
    }
    assert!(matches!(steps[2], Step::WaitForOperationToFinish));
    match &steps[3] {
        Step::Send(Command::ProgramExecute { row_address }) => assert_eq!(row_address.get_page_index(), 2),
        _ => panic!("expected a program execute"),
    }
    assert!(matches!(steps[4], Step::Send(Command::WriteDisable)));
    assert!(memory().program(0, 4096).is_empty());
}

#[test]
fn read_steps() {
    let steps = memory().read(2048 * 3 + 7, 3000);
    assert_eq!(steps.len(), 6);
    match &steps[0] {
        Step::Send(Command::PageRead { row_address }) => assert_eq!(row_address.get_page_index(), 3),
        _ => panic!("expected a page read"),
    }
    match &steps[2] {
        Step::Send(Command::ReadFromCache { column_address, output_start, output_end }) => {
            assert_eq!(column_address.as_bytes(), &[0x07, 0x00]);
            assert_eq!((*output_start, *output_end), (0, 2041));
        },
        _ => panic!("expected a read from cache"),
    }
    assert!(memory().read(0, 0).is_empty());
}

#[test]
fn erase_blocks_steps() {
    let steps = memory().erase_blocks(1, 2);
    assert_eq!(steps.len(), 7);
    match &steps[1] {
        Step::Send(Command::BlockErase { row_address }) => assert_eq!(row_address.get_page_index(), 64),
        _ => panic!("expected a block erase"),
    }
    match &steps[4] {
        Step::Send(Command::BlockErase { row_address }) => assert_eq!(row_address.get_page_index(), 128),
        _ => panic!("expected a block erase"),
    }
    assert!(matches!(steps[6], Step::Send(Command::WriteDisable)));
    let nothing = memory().erase_blocks(3, 2);
    assert_eq!(nothing.len(), 1);
    assert!(matches!(nothing[0], Step::Send(Command::WriteDisable)));
}

#[test]
fn reset_and_features_commands() {
    let steps = memory().reset();
    assert_eq!(steps.len(), 1);
    assert_eq!(Command::<Chip>::Reset.op_code(), 0xFF);
    assert_eq!(memory().validate_id().op_code(), 0x9F);
    assert_eq!(memory().get_features(FeatureRegister::Status).write_bytes(&[]), vec![0x0F, 0xC0]);
    assert_eq!(memory().set_features(FeatureRegister::BlockLock, 0).write_bytes(&[]), vec![0x1F, 0xA0, 0]);
}

#[test]
fn command_bytes() {
    let row_address = RowAddress::<Chip>::from_page_index(0x0A_0B_0C);
    assert_eq!(Command::<Chip>::PageRead { row_address }.write_bytes(&[]), vec![0x13, 0x0C, 0x0B, 0x0A]);
    let load = Command::<Chip>::ProgramLoad { column_address: ColumnAddress::new(1, 0), input_start: 1, input_end: 3 };
    assert_eq!(load.write_bytes(&[9, 8, 7, 6]), vec![0x02, 0x01, 0x00, 8, 7]);
    assert_eq!(Command::<Chip>::ReadId.read_length(), 2);
    let read = Command::<Chip>::ReadFromCache { column_address: ColumnAddress::new(0, 0), output_start: 2, output_end: 6 };
    assert_eq!(read.read_length(), 4);
}

#[test]
fn operation_in_progress_and_ids() {
    assert!(is_operation_in_progress(0b0000_0001));
    assert!(!is_operation_in_progress(0b1111_1110));
    assert!(check_ids::<Chip, ()>(0x2C, 0x24).is_ok());
    assert!(matches!(check_ids::<Chip, ()>(0x2C, 0x00), Err(ValidateIdError::DeviceIdDoesntMatch)));
    assert!(matches!(check_ids::<Chip, ()>(0x00, 0x24), Err(ValidateIdError::ManufacturerIdDoesntMatch)));
    assert!(matches!(check_ids::<Chip, ()>(0x00, 0x00), Err(ValidateIdError::BothIdsDontMatch)));
}

#[test]
fn internal_data_move_steps() {
    let steps = memory().internal_data_move(0, 100, 4096);
    assert_eq!(steps.len(), 6);
    assert!(matches!(steps[0], Step::Send(Command::WriteEnable)));
    match &steps[3] {
        Step::Send(Command::ProgramExecute { row_address }) => assert_eq!(row_address.get_page_index(), 2),
        _ => panic!("expected a program execute"),
    }
    assert!(matches!(steps[5], Step::Send(Command::WriteDisable)));
}

#[test]
fn commands_fit_in_buffers() {
    let column_address = ColumnAddress::new(0, 0);
    assert!(Command::<Chip>::ProgramLoad { column_address, input_start: 2, input_end: 10 }.fits(10));
    assert!(!Command::<Chip>::ProgramLoad { column_address, input_start: 2, input_end: 10 }.fits(9));
    assert!(!Command::<Chip>::ProgramLoadRandomData { column_address, input_start: 5, input_end: 4 }.fits(10));
    assert!(Command::<Chip>::ReadFromCache { column_address, output_start: 0, output_end: 0 }.fits(0));
    assert!(!Command::<Chip>::ReadFromCache { column_address, output_start: 0, output_end: 1 }.fits(0));
    assert!(Command::<Chip>::Reset.fits(0));
}

#[test]
fn read_meets_program() {
    let address = 2048 * 5 + 100;
    let length = 5000;
    let program = memory().program(length, address);
    let read = memory().read(address, length);
    let pages = (length as usize + 2047) / 2048;
    assert_eq!(program.len(), 3 * pages + 2);
    assert_eq!(read.len(), 3 * pages);
    for i in 0..pages {
        let (program_column, program_range) = match &program[1 + 3 * i] {
            Step::Send(Command::ProgramLoadRandomData { column_address, input_start, input_end }) => {
                (*column_address.as_bytes(), (*input_start, *input_end))
            },
            _ => panic!("expected a program load"),
        };
        let (read_column, read_range) = match &read[2 + 3 * i] {
            Step::Send(Command::ReadFromCache { column_address, output_start, output_end }) => {
                (*column_address.as_bytes(), (*output_start, *output_end))
            },
            _ => panic!("expected a read from the cache"),
        };
        assert_eq!(program_column, read_column);
        assert_eq!(program_range, read_range);
        let programmed_page = match &program[3 + 3 * i] {
            Step::Send(Command::ProgramExecute { row_address }) => row_address.get_page_index(),
            _ => panic!("expected a program execute"),
        };
        let read_page = match &read[3 * i] {
            Step::Send(Command::PageRead { row_address }) => row_address.get_page_index(),
            _ => panic!("expected a page read"),
        };
        assert_eq!(programmed_page, read_page);
        assert_eq!(read_page, 5 + i as u32);
    }
}
