use firmware_core::printer::communication::http::request::responses::{ListedFile, PrintStatus};
use firmware_core::printer::components::file_system::regions::metadata::{FileId, FileMetadata};
use firmware_core::printer::communication::http::other::GCodeHistory;
use firmware_core::printer::communication::http::request::{http_request_handlers_count, HttpMethod, HttpRequest};
use firmware_core::printer::communication::security::{
    BlackListProtection, IpAddress, WhiteListProtection,
};
use firmware_core::printer::communication::security::Protection;

#[test]
fn empty_history() {
    let history = GCodeHistory::new();
    for i in 0..10_000 {
        assert_eq!(history.get_lines_from_history(i), "");
    }
}

#[test]
fn history_is_replaced() {
    let mut history = GCodeHistory::new();
    history.add_read_lines("G1 X0".to_string());
    assert_eq!(history.get_lines_from_history(0), "G1 X0");
    history.add_read_lines("G0 Y10".to_string());
    assert!(history.get_lines_from_history(0) != "G1 X0");
}

#[test]
fn history_lines() {
    let mut history = GCodeHistory::new();
    history.add_read_lines("G1 X0\nG1 Y10".to_string());
    assert_eq!(history.get_lines_from_history(0), "G1 X0\nG1 Y10");
    assert_eq!(history.get_lines_from_history(1), "G1 Y10");
    assert_eq!(history.get_lines_from_history(2), "");
    assert_eq!(history.get_lines_from_history(3), "");
}

#[test]
fn history_lines_are_numbered_across_calls() {
    let mut history = GCodeHistory::new();
    history.add_read_lines("A\nB".to_string());
    history.add_read_lines("C\nD".to_string());
    assert_eq!(history.get_lines_from_history(2), "C\nD");
    assert_eq!(history.get_lines_from_history(3), "D");
    assert_eq!(history.get_lines_from_history(0), "C\nD");
    history.add_read_lines("E\nF\nG".to_string());
    assert_eq!(history.get_lines_from_history(4), "E\nF\nG");
    assert_eq!(history.get_lines_from_history(6), "G");
    assert_eq!(history.get_lines_from_history(7), "");
}

#[test]
fn history_with_non_ascii_text() {
    let mut history = GCodeHistory::new();
    history.add_read_lines("; è\nG28".to_string());
    assert_eq!(history.get_lines_from_history(1), "G28");
}

#[test]
fn request_uris_and_methods() {
    assert_eq!(http_request_handlers_count(), 11);
    assert_eq!(HttpRequest::all().len(), http_request_handlers_count());
    assert_eq!(HttpRequest::ListFiles.get_uri(), "/list-files");
    assert_eq!(HttpRequest::ListFiles.get_method(), HttpMethod::Get);
    assert_eq!(HttpRequest::DeleteFile.get_uri(), "/delete-file");
    assert_eq!(HttpRequest::DeleteFile.get_method(), HttpMethod::Delete);
    assert_eq!(HttpRequest::OTAUpdate.get_uri(), "/ota-update");
    assert_eq!(HttpRequest::OTAUpdate.get_method(), HttpMethod::Post);
    assert_eq!(HttpRequest::ListGCodeCommandsInMemory.get_uri(), "/list-gcode-commands-in-memory");
    let mut uris: Vec<&str> = HttpRequest::all().iter().map(|request| request.get_uri()).collect();
    uris.sort();
    uris.dedup();
    assert_eq!(uris.len(), 11);
}

#[test]
fn ip_lists() {
    let mut black = BlackListProtection::new(vec![IpAddress(1), IpAddress(2)]);
    let mut white = WhiteListProtection::new(vec![IpAddress(1)]);
    assert!(!black.can_pass(IpAddress(1)));
    assert!(black.can_pass(IpAddress(3)));
    assert!(white.can_pass(IpAddress(1)));
    assert!(!white.can_pass(IpAddress(2)));
}

#[test]
fn listed_file_entry() {
    let metadata = FileMetadata {
        id: FileId::from_bytes([0x34, 0x12, 0, 0]),
        start_memory_address: 4096,
        file_name_length: 10,
        file_data_length: 500,
    };
    let file = ListedFile::new(&metadata, "part.gcode".to_string());
    assert_eq!(file.name, "part.gcode");
    assert_eq!(file.size_in_bytes, 510);
    assert_eq!(file.file_id, 0x1234);
}

#[test]
fn print_status_answers() {
    let idle = PrintStatus::not_printing();
    assert!(!idle.is_printing && !idle.is_paused);
    assert_eq!(idle.file_name_being_printed, "");
    assert_eq!((idle.print_duration_in_seconds, idle.time_printed_in_seconds), (-1, -1));

    let printing = PrintStatus::printing("part.gcode".to_string(), Some(3600), None, true);
    assert!(printing.is_printing && printing.is_paused);
    assert_eq!(printing.file_name_being_printed, "part.gcode");
    assert_eq!(printing.print_duration_in_seconds, 3600);
    assert_eq!(printing.time_printed_in_seconds, -1);

    let long = PrintStatus::printing(String::new(), Some(u64::from(u32::MAX) + 6), Some(12), false);
    assert_eq!(long.print_duration_in_seconds, 5);
    assert_eq!(long.time_printed_in_seconds, 12);
}
