//! The content of the answers to the requests that report on the files and on the print: the
//! HTTP handlers serialize them.
use vstd::prelude::*;

use crate::printer::components::file_system::regions::metadata::FileMetadata;
use crate::utils::bytes::{lemma_u32_le_roundtrip, spec_u32_from_le_seq, spec_u32_to_le, u32_from_le_bytes};

verus! {

/// A file of the file system, as the answer to [`HttpRequest::ListFiles`](super::HttpRequest)
/// lists it.
pub struct ListedFile {
    pub name: String,
    /// The bytes occupied by the file: its name and its data.
    pub size_in_bytes: u32,
    /// The identifier of the file as a number.
    pub file_id: u32,
}

impl ListedFile {
    /// The entry of the file of `file_metadata`, whose name, read from the file system, is `name`.
    pub fn new(file_metadata: &FileMetadata, name: String) -> (file: Self)
        requires
            file_metadata.file_data_length + file_metadata.file_name_length <= u32::MAX,
        ensures
            file.name == name,
            file.size_in_bytes == file_metadata.file_data_length + file_metadata.file_name_length,
            file.file_id == file_metadata.id@,
    {
        let bytes = file_metadata.id.to_bytes();
        let file_id = u32_from_le_bytes(bytes);
        proof {
            lemma_u32_le_roundtrip(file_metadata.id@);
            assert(spec_u32_from_le_seq(spec_u32_to_le(file_metadata.id@)) == file_id);
        }
        ListedFile {
            name,
            size_in_bytes: file_metadata.file_data_length + file_metadata.file_name_length,
            file_id,
        }
    }
}

/// The state of the print, as the answer to [`HttpRequest::GetPrintStatus`](super::HttpRequest)
/// gives it. The durations that are unknown are `-1`.
pub struct PrintStatus {
    pub is_printing: bool,
    pub file_name_being_printed: String,
    pub print_duration_in_seconds: i32,
    pub time_printed_in_seconds: i32,
    pub is_paused: bool,
}

/// A count of seconds as the answer gives it: truncated to an `i32`, or `-1` when unknown.
pub open spec fn spec_seconds_in_answer(seconds: Option<u64>) -> i32 {
    match seconds {
        Some(seconds) => seconds as i32,
        None => -1i32,
    }
}

/// Returns the count of `seconds` as the answer gives it (see [`spec_seconds_in_answer`]).
fn seconds_in_answer(seconds: Option<u64>) -> (answer: i32)
    ensures
        answer == spec_seconds_in_answer(seconds),
{
    match seconds {
        Some(seconds) => #[verifier::truncate] (seconds as i32),
        None => -1,
    }
}

impl PrintStatus {
    /// The state when no file is being printed.
    pub fn not_printing() -> (status: Self)
        ensures
            !status.is_printing,
            status.file_name_being_printed@ == Seq::<char>::empty(),
            status.print_duration_in_seconds == -1,
            status.time_printed_in_seconds == -1,
            !status.is_paused,
    {
        PrintStatus {
            is_printing: false,
            file_name_being_printed: String::new(),
            print_duration_in_seconds: -1,
            time_printed_in_seconds: -1,
            is_paused: false,
        }
    }

    /// The state while the file named `file_name` is being printed: the estimated duration of the
    /// print and the time passed since it started, in seconds, if they are known, and whether the
    /// print is paused.
    pub fn printing(
        file_name: String,
        estimated_duration_in_seconds: Option<u64>,
        time_printed_in_seconds: Option<u64>,
        is_paused: bool,
    ) -> (status: Self)
        ensures
            status.is_printing,
            status.file_name_being_printed == file_name,
            status.print_duration_in_seconds == spec_seconds_in_answer(estimated_duration_in_seconds),
            status.time_printed_in_seconds == spec_seconds_in_answer(time_printed_in_seconds),
            status.is_paused == is_paused,
    {
        PrintStatus {
            is_printing: true,
            file_name_being_printed: file_name,
            print_duration_in_seconds: seconds_in_answer(estimated_duration_in_seconds),
            time_printed_in_seconds: seconds_in_answer(time_printed_in_seconds),
            is_paused,
        }
    }
}

} // verus!
