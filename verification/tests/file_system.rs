use firmware_core::printer::components::drivers::spi_flash_memory::{
    FlashMemoryChip, SpiFlashMemory, Step, MT29F2G01ABAGDWB,
};
use firmware_core::printer::components::file_system::bad_blocks::BadBlockTable;
use firmware_core::printer::components::file_system::regions::data::{FileReader, ReadError, ReadNameError};
use firmware_core::printer::components::file_system::regions::metadata::{
    DataHoles, FileDoesntExist, FileId, FileMetadata, FileMetadataValidatorMaster, FilesMetadatasRegion, FreeSpace,
    NotEnoughSpaceAvailable, READ_DATA_SIZE,
};
use firmware_core::printer::components::file_system::regions::RegionsConfig;
use firmware_core::printer::components::file_system::{DeleteFileError, FileSystem};

type Chip = MT29F2G01ABAGDWB;

fn metadata(id: FileId, start_memory_address: u32, file_data_length: u32) -> FileMetadata {
    FileMetadata { id, start_memory_address, file_name_length: 4, file_data_length }
}

fn file_system() -> FileSystem<Chip> {
    FileSystem::new(
        SpiFlashMemory::new(MT29F2G01ABAGDWB),
        RegionsConfig::default::<Chip>(),
        FilesMetadatasRegion::new(BadBlockTable::default()),
    )
}

#[test]
fn file_id_bytes() {
    let first = FileId::first();
    assert_eq!(first.to_bytes(), [0, 0, 0, 0]);
    let next = FileId::next(FileId::next(first));
    assert_eq!(next.to_bytes(), [2, 0, 0, 0]);
    assert_eq!(FileId::from_bytes(next.to_bytes()), next);
    assert_eq!(FileId::writing_file().to_bytes(), [0xFF; 4]);
    assert_eq!(FileId::from_bytes([0x78, 0x56, 0x34, 0x12]).to_bytes(), [0x78, 0x56, 0x34, 0x12]);
}

#[test]
fn file_metadata_bytes_roundtrip() {
    let file_metadata = FileMetadata {
        id: FileId::first(),
        start_memory_address: 0x3000,
        file_name_length: 20,
        file_data_length: 500_000,
    };
    assert_eq!(file_metadata, FileMetadata::from_bytes(&file_metadata.to_bytes()));
    assert_eq!(
        file_metadata.to_bytes(),
        [0, 0, 0, 0, 0x00, 0x30, 0, 0, 20, 0, 0, 0, 0x20, 0xA1, 0x07, 0x00]
    );
    assert_eq!(file_metadata.end_memory_address(), 0x3000 + 20 + 500_000);
}

#[test]
fn bad_block_table_from_bytes() {
    let table = BadBlockTable::from_bytes(&[2, 0x02, 0x01, 0x04, 0x03]);
    assert_eq!(table.indices(), &[0x0102, 0x0304]);
    assert!(BadBlockTable::from_bytes(&[0]).indices().is_empty());
    assert!(BadBlockTable::from_bytes(&[]).indices().is_empty());
}

#[test]
fn bad_block_table_marks_once() {
    let mut table = BadBlockTable::default();
    table.mark_block_as_invalid(5);
    table.mark_block_as_invalid(9);
    table.mark_block_as_invalid(5);
    assert_eq!(table.indices(), &[5, 9]);
    assert!(!table.is_block_valid(5));
    assert!(table.is_block_valid(6));
}

#[test]
fn bad_block_table_bytes() {
    let mut table = BadBlockTable::default();
    table.mark_block_as_invalid(0x0102);
    table.mark_block_as_invalid(0x0304);
    table.mark_block_as_invalid(0x0506);
    let mut bytes = table.as_bytes();
    let mut collected = Vec::new();
    while let Some(byte) = bytes.next() {
        collected.push(byte);
    }
    assert_eq!(collected, vec![3, 0x02, 0x01, 0x04, 0x03, 0x06, 0x05]);
    assert_eq!(bytes.next(), None);
    assert_eq!(BadBlockTable::from_bytes(&collected).indices(), table.indices());
}

#[test]
fn bad_block_table_from_first_powerup() {
    let mut marks = vec![false; 2048];
    marks[3] = true;
    marks[2000] = true;
    let table = BadBlockTable::from_first_powerup::<Chip>(&marks);
    assert_eq!(table.indices(), &[3, 2000]);
}

#[test]
fn validators() {
    let mut master = FileMetadataValidatorMaster::new();
    let region = FilesMetadatasRegion::new(BadBlockTable::default());
    let validator = master.create_validator();
    assert!(validator.validate(&region));
    master.invalidate_all_the_instances();
    assert_eq!(master.generation(), 1);
    assert!(region.get_file_validator().validate(&region));
}

#[test]
fn create_file_in_the_first_hole() {
    let config = RegionsConfig::default::<Chip>();
    let mut region = FilesMetadatasRegion::new(BadBlockTable::default());
    let (id, start_address) = region.create_file::<Chip>(10, &config).unwrap();
    assert_eq!(id, FileId::first());
    assert_eq!(start_address, Chip::BLOCK_SIZE);
    let (second, _) = region.create_file::<Chip>(10, &config).unwrap();
    assert_eq!(second, FileId::next(FileId::first()));
}

#[test]
fn data_holes_skip_used_blocks() {
    let config = RegionsConfig::default::<Chip>();
    let mut table = BadBlockTable::default();
    table.mark_block_as_invalid(1);
    let mut region = FilesMetadatasRegion::new(table);
    let memory = SpiFlashMemory::new(MT29F2G01ABAGDWB);
    let file = metadata(FileId::first(), 2 * Chip::BLOCK_SIZE, 10);
    let _ = region.start_writing_file(file, &memory, &config);
    let holes = DataHoles::<Chip>::from_metadatas_region(&region, &config);
    assert_eq!(holes.find_space_for_new_data(1), FreeSpace::Available { start_address: 3 * Chip::BLOCK_SIZE });
    assert_eq!(holes.find_space_for_new_data(0), FreeSpace::Available { start_address: 3 * Chip::BLOCK_SIZE });
}

#[test]
fn data_holes_require_compacting() {
    let config = RegionsConfig { metadata_block_range: 0..=2045, ..RegionsConfig::default::<Chip>() };
    let mut table = BadBlockTable::default();
    table.mark_block_as_invalid(2047);
    let region = FilesMetadatasRegion::new(table);
    let holes = DataHoles::<Chip>::from_metadatas_region(&region, &config);
    assert_eq!(holes.find_space_for_new_data(Chip::BLOCK_SIZE), FreeSpace::Available { start_address: 2046 * Chip::BLOCK_SIZE });
    assert_eq!(holes.find_space_for_new_data(Chip::BLOCK_SIZE + 1), FreeSpace::AvailableButRequiresCompacting);
    assert_eq!(holes.find_space_for_new_data(2 * Chip::BLOCK_SIZE + 1), FreeSpace::NotAvailable);
}

#[test]
fn create_file_without_space() {
    let config = RegionsConfig { metadata_block_range: 0..=2045, ..RegionsConfig::default::<Chip>() };
    let mut table = BadBlockTable::default();
    table.mark_block_as_invalid(2047);
    let mut region = FilesMetadatasRegion::new(table);
    assert!(matches!(region.create_file::<Chip>(Chip::BLOCK_SIZE + 1, &config), Err(NotEnoughSpaceAvailable)));
    assert!(matches!(region.create_file::<Chip>(3 * Chip::BLOCK_SIZE, &config), Err(NotEnoughSpaceAvailable)));
    assert_eq!(region.create_file::<Chip>(1, &config).unwrap().0, FileId::first());
}

#[test]
fn region_files_lifecycle() {
    let config = RegionsConfig::default::<Chip>();
    let memory = SpiFlashMemory::new(MT29F2G01ABAGDWB);
    let mut region = FilesMetadatasRegion::new(BadBlockTable::default());
    let first = metadata(FileId::first(), Chip::BLOCK_SIZE, 100);
    let second = metadata(FileId::next(FileId::first()), 2 * Chip::BLOCK_SIZE, 100);
    let (bytes, steps) = region.start_writing_file(first, &memory, &config);
    assert_eq!(bytes.len(), 8 + 16);
    assert!(!steps.is_empty());
    let _ = region.start_writing_file(second, &memory, &config);
    assert!(region.does_file_exist(first.id));
    assert_eq!(region.get_file_metadata(second.id), Some(second));
    assert!(region.finish_writing_file(first.id, &memory, &config).is_some());
    assert!(region.finish_writing_file(first.id, &memory, &config).is_none());
    assert_eq!(region.delete_file(first.id).ok(), Some(first));
    assert!(!region.does_file_exist(first.id));
    assert_eq!(region.get_file_metadata(first.id), None);
    assert!(matches!(region.delete_file(first.id), Err(FileDoesntExist)));
    assert_eq!(region.get_files_metadatas(), &[second]);
}

#[test]
fn stored_bytes_layout() {
    let memory = SpiFlashMemory::new(MT29F2G01ABAGDWB);
    let config = RegionsConfig::default::<Chip>();
    let mut table = BadBlockTable::default();
    table.mark_block_as_invalid(0x0102);
    let mut region = FilesMetadatasRegion::new(table);
    let file = metadata(FileId::first(), 0x0002_0000, 7);
    let (bytes, steps) = region.start_writing_file(file, &memory, &config);
    let mut expected = vec![0, 1, 0x02, 0x01, 0, 0, 0, 0, 0, 1];
    expected.extend_from_slice(&file.to_bytes());
    assert_eq!(bytes, expected);
    assert_eq!(region.to_stored_bytes(), expected);
    assert!(matches!(steps[0], Step::Send(_)));
}

#[test]
fn stored_page_first_powerup() {
    let page = vec![0xFF; READ_DATA_SIZE];
    assert!(FilesMetadatasRegion::from_stored_page(&page).is_none());
}

#[test]
fn stored_page_parsing() {
    let mut page = vec![0; READ_DATA_SIZE];
    page[1] = 1;
    page[2] = 0x05;
    page[3] = 0x00;
    page[4..8].copy_from_slice(&[9, 0, 0, 0]);
    page[8..10].copy_from_slice(&[0, 2]);
    let kept = metadata(FileId::from_bytes([3, 0, 0, 0]), Chip::BLOCK_SIZE, 50);
    let corrupted = metadata(FileId::writing_file(), 2 * Chip::BLOCK_SIZE, 60);
    page[10..26].copy_from_slice(&kept.to_bytes());
    page[26..42].copy_from_slice(&corrupted.to_bytes());
    let (region, to_erase) = FilesMetadatasRegion::from_stored_page(&page).unwrap();
    assert_eq!(region.get_files_metadatas(), &[kept]);
    assert_eq!(to_erase, vec![corrupted]);
    let holes = DataHoles::<Chip>::from_metadatas_region(&region, &RegionsConfig::default::<Chip>());
    assert_eq!(holes.find_space_for_new_data(1), FreeSpace::Available { start_address: 2 * Chip::BLOCK_SIZE });
}

#[test]
fn stored_region_is_read_back() {
    let memory = SpiFlashMemory::new(MT29F2G01ABAGDWB);
    let config = RegionsConfig::default::<Chip>();
    let mut table = BadBlockTable::default();
    table.mark_block_as_invalid(0x0102);
    table.mark_block_as_invalid(7);
    let mut region = FilesMetadatasRegion::new(table);
    let (first_id, first_start) = region.create_file::<Chip>(20, &config).unwrap();
    let first = FileMetadata { id: first_id, start_memory_address: first_start, file_name_length: 4, file_data_length: 16 };
    let _ = region.start_writing_file(first, &memory, &config);
    let _ = region.finish_writing_file(first_id, &memory, &config);
    let (second_id, second_start) = region.create_file::<Chip>(20, &config).unwrap();
    let second = FileMetadata { id: second_id, start_memory_address: second_start, file_name_length: 4, file_data_length: 16 };
    let (bytes, _) = region.start_writing_file(second, &memory, &config);
    let mut page = vec![0xFF; READ_DATA_SIZE];
    page[..bytes.len()].copy_from_slice(&bytes);
    assert!(FilesMetadatasRegion::is_stored_page_readable(&page));
    let (mut restored, corrupted) = FilesMetadatasRegion::from_stored_page(&page).unwrap();
    assert!(corrupted.is_empty());
    assert_eq!(restored.get_files_metadatas(), region.get_files_metadatas());
    assert_eq!(restored.to_stored_bytes(), bytes);
    let (next_restored, _) = restored.create_file::<Chip>(20, &config).unwrap();
    let (next, _) = region.create_file::<Chip>(20, &config).unwrap();
    assert_eq!(next_restored, next);
}

#[test]
fn file_system_create_write_read_delete() {
    let mut file_system = file_system();
    let mut writer = file_system.create_file("part.gcode".to_string(), 100).unwrap();
    assert!(!file_system.does_file_exist(FileId::first()));
    let first_write = writer.write_data(&mut file_system, 60);
    assert!(first_write.metadatas_region.is_some());
    let (name, name_steps) = first_write.name.unwrap();
    assert_eq!(name, "part.gcode");
    assert_eq!(name_steps.len(), 5);
    assert_eq!(first_write.data.len(), 5);
    writer.advance_cursor(60);
    let second_write = writer.write_data(&mut file_system, 40);
    assert!(second_write.metadatas_region.is_none() && second_write.name.is_none());
    writer.advance_cursor(40);
    assert!(file_system.does_file_exist(FileId::first()));
    assert!(writer.finish_writing::<()>(&mut file_system).unwrap().is_some());

    let mut reader: FileReader<Chip> = file_system.read_file(FileId::first()).unwrap();
    let (count, steps) = reader.read_data::<()>(&file_system, 70).ok().unwrap();
    assert_eq!(count, 70);
    assert_eq!(steps.len(), 3);
    reader.advance_cursor(count);
    let (count, _) = reader.read_data::<()>(&file_system, 70).ok().unwrap();
    assert_eq!(count, 30);
    reader.advance_cursor(count);
    assert!(reader.has_reached_end_of_file());
    assert!(matches!(reader.read_data::<()>(&file_system, 70), Err(ReadError::EndOfFile)));
    assert_eq!(reader.read_name::<()>(&file_system).ok().unwrap().len(), 3);

    assert_eq!(file_system.get_existing_files_metadatas().len(), 1);
    let (erase, bytes, store) = file_system.delete_file::<()>(FileId::first()).ok().unwrap();
    assert_eq!(erase.len(), 4);
    assert_eq!(bytes.len(), 8);
    assert!(!store.is_empty());
    assert!(!file_system.does_file_exist(FileId::first()));
    assert!(matches!(reader.read_data::<()>(&file_system, 70), Err(ReadError::DoesntExistAnymore)));
    assert!(matches!(file_system.delete_file::<()>(FileId::first()), Err(DeleteFileError::FileDoesntExist)));
    assert!(file_system.read_file(FileId::first()).is_err());
}

#[test]
fn file_system_create_without_space() {
    let mut file_system = FileSystem::new(
        SpiFlashMemory::new(MT29F2G01ABAGDWB),
        RegionsConfig { metadata_block_range: 0..=2047, ..RegionsConfig::default::<Chip>() },
        FilesMetadatasRegion::new(BadBlockTable::default()),
    );
    assert!(file_system.create_file("a".to_string(), 2 * Chip::BLOCK_SIZE).is_err());
    assert!(file_system.create_file("a".to_string(), 10).is_ok());
}

#[test]
fn regions_config_address_ranges() {
    let start_metadata_block = 0;
    let end_metadata_block = 1;
    let regions_config = RegionsConfig {
        metadata_block_range: start_metadata_block..=end_metadata_block,
        ..RegionsConfig::default::<Chip>()
    };
    assert_eq!(
        regions_config.metadata_address_range::<Chip>(),
        start_metadata_block as u32 * Chip::BLOCK_SIZE..=end_metadata_block as u32 * Chip::BLOCK_SIZE
    );
    let regions_config = RegionsConfig { data_block_range: 0..=1, ..RegionsConfig::default::<Chip>() };
    assert_eq!(regions_config.data_address_range::<Chip>(), 0..=Chip::BLOCK_SIZE);
    let default = RegionsConfig::default::<Chip>();
    assert_eq!(default.data_block_range, 2..=2048);
    assert_eq!(default.metadata_block_range, 0..=0);
}

#[test]
fn stored_page_readability() {
    assert!(FilesMetadatasRegion::is_stored_page_readable(&vec![0xFF; READ_DATA_SIZE]));
    assert!(FilesMetadatasRegion::is_stored_page_readable(&[0xFF]));
    assert!(!FilesMetadatasRegion::is_stored_page_readable(&[]));
    let mut page = vec![0; READ_DATA_SIZE];
    assert!(FilesMetadatasRegion::is_stored_page_readable(&page));
    assert_eq!(FilesMetadatasRegion::stored_length(&page), Some(8));
    // After the header of 8 bytes, 127 metadatas fit in a page of 2048 bytes, 128 don't.
    page[6..8].copy_from_slice(&[0, 127]);
    assert!(FilesMetadatasRegion::is_stored_page_readable(&page));
    page[6..8].copy_from_slice(&[0, 128]);
    assert_eq!(FilesMetadatasRegion::stored_length(&page), Some(8 + 16 * 128));
    assert!(!FilesMetadatasRegion::is_stored_page_readable(&page));
    assert_eq!(FilesMetadatasRegion::stored_length(&[0, 1, 5]), None);
}

#[test]
fn bytes_to_read_for_the_region() {
    assert_eq!(FilesMetadatasRegion::bytes_to_read(&[]), None);
    assert_eq!(FilesMetadatasRegion::bytes_to_read(&vec![0xFF; READ_DATA_SIZE]), Some(READ_DATA_SIZE));
    let mut page = vec![0; READ_DATA_SIZE];
    assert_eq!(FilesMetadatasRegion::bytes_to_read(&page), Some(READ_DATA_SIZE));
    page[6..8].copy_from_slice(&[0, 128]);
    assert_eq!(FilesMetadatasRegion::bytes_to_read(&page), Some(8 + 16 * 128));
    let mut longer = page.clone();
    longer.resize(8 + 16 * 128, 0);
    assert!(FilesMetadatasRegion::is_stored_page_readable(&longer));
    assert_eq!(FilesMetadatasRegion::bytes_to_read(&[0, 1, 5]), None);
}

#[test]
fn region_storability() {
    let region = FilesMetadatasRegion::new(BadBlockTable::default());
    let config = RegionsConfig::default::<Chip>();
    assert!(region.can_be_stored::<Chip>(0, &config));
    assert!(region.can_be_stored::<Chip>(16, &config));
    assert!(!region.can_be_stored::<Chip>(u32::MAX, &config));
    let far = RegionsConfig { metadata_block_range: 0..=40_000, data_block_range: 1..=2 };
    assert!(!region.can_be_stored::<Chip>(0, &far));
}

#[test]
fn reader_and_writer_positions() {
    let mut file_system = file_system();
    let mut writer = file_system.create_file("part.gcode".to_string(), 100).unwrap();
    let start = u64::from(Chip::BLOCK_SIZE);
    assert!(writer.has_name_to_write());
    assert_eq!(writer.next_address(), start + 10);
    let _ = writer.write_data(&mut file_system, 60);
    writer.advance_cursor(60);
    assert!(!writer.has_name_to_write());
    assert_eq!(writer.next_address(), start + 70);
    let _ = writer.write_data(&mut file_system, 40);
    writer.advance_cursor(40);
    let _ = writer.finish_writing::<()>(&mut file_system);
    let mut reader: FileReader<Chip> = file_system.read_file(FileId::first()).unwrap();
    assert_eq!(reader.name_length(), 10);
    assert_eq!(reader.next_address(), start + 10);
    reader.advance_cursor(25);
    assert_eq!(reader.next_address(), start + 35);
    assert_eq!(file_system.get_regions_config().data_block_range, RegionsConfig::default::<Chip>().data_block_range);
}

#[test]
fn file_names_are_decoded_as_utf8() {
    assert_eq!(FileReader::<Chip>::decode_name::<()>("pièce.gcode".as_bytes().to_vec()).ok(), Some("pièce.gcode".to_string()));
    assert!(matches!(FileReader::<Chip>::decode_name::<()>(vec![b'a', 0xFF]), Err(ReadNameError::InvalidUtf8String(_))));
}
