//! This module defines the possible HTTP requests that the firmware can handle.
//! Each request is associated with an HTTP method and a URI. The requests cover various
//! functionalities related to the 3D printer, such as managing files, controlling print jobs,
//! and retrieving printer status.
pub mod responses;

use vstd::prelude::*;

verus! {

/// The HTTP methods of the requests handled by the firmware.
#[derive(Clone, Copy, Debug, PartialEq, Eq, Structural)]
pub enum HttpMethod {
    Get,
    Delete,
    Post,
}

/// A possible request that the HTTP server in this firmware can handle. Each request has a
/// [`method`] and an [`URI`].
///
/// [`method`]: Self::get_method
/// [`URI`]: Self::get_uri
#[derive(Clone, Copy, Debug, PartialEq, Eq, Structural)]
pub enum HttpRequest {
    /// List the metadatas of all the G-code files saved in the file system.
    ListFiles,
    /// Delete a specific file from the file system.
    DeleteFile,
    /// Start printing a specific file.
    PrintFile,
    /// Send a G-code file to the printer (that later on could be [`printed`](Self::PrintFile)).
    SendFile,
    /// Get the status of the current print (if a print is in execution), providing some info like
    /// the expected duration, the name of the file being printed...
    GetPrintStatus,
    /// Pause or resume (based on the previous state) the current print.
    PauseOrResume,
    /// Get the status of various components of the machine (like the current temperature of the
    /// hotend, or the target temperature of the bed).
    PrinterState,
    /// Moves the tool of the machine by the specified amount on the possible directions.
    Move,
    /// Provide the history of G-code commands that have been read from the file system to print the
    /// current file. This request must be issued often, since microcontrollers don't have much RAM
    /// (which means that the history being tracked can't be long), and a large amount of time
    /// between different requests might lead to some G-code commands that have been executed by the
    /// printer to not appear in the history.
    ListGCodeCommandsInMemory,
    /// "Manually" add the provided G-code commands to the command buffer of the current print
    /// process.
    SendGCodeCommands,
    /// Over-The-Air update.
    OTAUpdate,
}

impl HttpRequest {
    /// The HTTP method of the request.
    pub open spec fn spec_method(self) -> HttpMethod {
        match self {
            HttpRequest::ListFiles => HttpMethod::Get,
            HttpRequest::DeleteFile => HttpMethod::Delete,
            HttpRequest::PrintFile => HttpMethod::Post,
            HttpRequest::SendFile => HttpMethod::Post,
            HttpRequest::GetPrintStatus => HttpMethod::Get,
            HttpRequest::PauseOrResume => HttpMethod::Post,
            HttpRequest::PrinterState => HttpMethod::Get,
            HttpRequest::Move => HttpMethod::Post,
            HttpRequest::ListGCodeCommandsInMemory => HttpMethod::Get,
            HttpRequest::SendGCodeCommands => HttpMethod::Post,
            HttpRequest::OTAUpdate => HttpMethod::Post,
        }
    }

    /// The relative URI of the request.
    pub open spec fn spec_uri(self) -> Seq<char> {
        match self {
            HttpRequest::ListFiles => "/list-files"@,
            HttpRequest::DeleteFile => "/delete-file"@,
            HttpRequest::PrintFile => "/print-file"@,
            HttpRequest::SendFile => "/send-file"@,
            HttpRequest::GetPrintStatus => "/print-status"@,
            HttpRequest::PauseOrResume => "/pause-or-resume"@,
            HttpRequest::PrinterState => "/printer-state"@,
            HttpRequest::Move => "/move"@,
            HttpRequest::ListGCodeCommandsInMemory => "/list-gcode-commands-in-memory"@,
            HttpRequest::SendGCodeCommands => "/send-gcode-commands"@,
            HttpRequest::OTAUpdate => "/ota-update"@,
        }
    }

    /// All the requests, in the order they are declared.
    pub open spec fn spec_all() -> Seq<HttpRequest> {
        seq![
            HttpRequest::ListFiles,
            HttpRequest::DeleteFile,
            HttpRequest::PrintFile,
            HttpRequest::SendFile,
            HttpRequest::GetPrintStatus,
            HttpRequest::PauseOrResume,
            HttpRequest::PrinterState,
            HttpRequest::Move,
            HttpRequest::ListGCodeCommandsInMemory,
            HttpRequest::SendGCodeCommands,
            HttpRequest::OTAUpdate,
        ]
    }

    /// Returns the HTTP method that the request received by the server should have to be handled
    /// as this variant of the enum.
    pub fn get_method(&self) -> (method: HttpMethod)
        ensures
            method == self.spec_method(),
    {
        match self {
            HttpRequest::ListFiles => HttpMethod::Get,
            HttpRequest::DeleteFile => HttpMethod::Delete,
            HttpRequest::PrintFile => HttpMethod::Post,
            HttpRequest::SendFile => HttpMethod::Post,
            HttpRequest::GetPrintStatus => HttpMethod::Get,
            HttpRequest::PauseOrResume => HttpMethod::Post,
            HttpRequest::PrinterState => HttpMethod::Get,
            HttpRequest::Move => HttpMethod::Post,
            HttpRequest::ListGCodeCommandsInMemory => HttpMethod::Get,
            HttpRequest::SendGCodeCommands => HttpMethod::Post,
            HttpRequest::OTAUpdate => HttpMethod::Post,
        }
    }

    /// Returns the relative URI that the request received by the server should have to be handled
    /// as this variant of the enum.
    pub fn get_uri(&self) -> (uri: &'static str)
        ensures
            uri@ == self.spec_uri(),
    {
        match self {
            HttpRequest::ListFiles => "/list-files",
            HttpRequest::DeleteFile => "/delete-file",
            HttpRequest::PrintFile => "/print-file",
            HttpRequest::SendFile => "/send-file",
            HttpRequest::GetPrintStatus => "/print-status",
            HttpRequest::PauseOrResume => "/pause-or-resume",
            HttpRequest::PrinterState => "/printer-state",
            HttpRequest::Move => "/move",
            HttpRequest::ListGCodeCommandsInMemory => "/list-gcode-commands-in-memory",
            HttpRequest::SendGCodeCommands => "/send-gcode-commands",
            HttpRequest::OTAUpdate => "/ota-update",
        }
    }

    /// Returns all the requests, in the order they are declared.
    pub fn all() -> (requests: Vec<HttpRequest>)
        ensures
            requests@ == Self::spec_all(),
    {
        let requests = vec![
            HttpRequest::ListFiles,
            HttpRequest::DeleteFile,
            HttpRequest::PrintFile,
            HttpRequest::SendFile,
            HttpRequest::GetPrintStatus,
            HttpRequest::PauseOrResume,
            HttpRequest::PrinterState,
            HttpRequest::Move,
            HttpRequest::ListGCodeCommandsInMemory,
            HttpRequest::SendGCodeCommands,
            HttpRequest::OTAUpdate,
        ];
        assert(requests@ =~= Self::spec_all());
        requests
    }
}

/// The requests that only read the state of the printer, without changing it: the list of the
/// files, the status of the print, the state of the printer and the history of the G-code
/// commands.
pub open spec fn spec_reads_only(request: HttpRequest) -> bool {
    request == HttpRequest::ListFiles || request == HttpRequest::GetPrintStatus || request
        == HttpRequest::PrinterState || request == HttpRequest::ListGCodeCommandsInMemory
}

/// The method of a request follows what it does: the requests that only read the state of the
/// printer are `GET`, the deletion of a file is `DELETE`, and all the requests that change the
/// state of the printer otherwise (printing or sending a file, pausing or resuming, moving,
/// sending G-code commands, updating the firmware) are `POST`.
pub proof fn lemma_method_follows_the_request(request: HttpRequest)
    ensures
        request.spec_method() == HttpMethod::Get <==> spec_reads_only(request),
        request.spec_method() == HttpMethod::Delete <==> request == HttpRequest::DeleteFile,
        !spec_reads_only(request) && request != HttpRequest::DeleteFile ==> request.spec_method()
            == HttpMethod::Post,
{
}

/// Returns the number of possible URI the HTTP server of this firmware can handle (which
/// corresponds to the number of variants of the [`HttpRequest`] enum).
pub fn http_request_handlers_count() -> (count: usize)
    ensures
        count == HttpRequest::spec_all().len(),
{
    11
}

/// Every request is one of [`HttpRequest::spec_all`], which lists each request once, and no two
/// requests have the same method and URI.
pub proof fn lemma_requests_are_distinct(request: HttpRequest, other: HttpRequest)
    ensures
        HttpRequest::spec_all().contains(request),
        HttpRequest::spec_all().no_duplicates(),
        request != other ==> request.spec_uri() != other.spec_uri(),
{
    let all = HttpRequest::spec_all();
    match request {
        HttpRequest::ListFiles => assert(all[0] == request),
        HttpRequest::DeleteFile => assert(all[1] == request),
        HttpRequest::PrintFile => assert(all[2] == request),
        HttpRequest::SendFile => assert(all[3] == request),
        HttpRequest::GetPrintStatus => assert(all[4] == request),
        HttpRequest::PauseOrResume => assert(all[5] == request),
        HttpRequest::PrinterState => assert(all[6] == request),
        HttpRequest::Move => assert(all[7] == request),
        HttpRequest::ListGCodeCommandsInMemory => assert(all[8] == request),
        HttpRequest::SendGCodeCommands => assert(all[9] == request),
        HttpRequest::OTAUpdate => assert(all[10] == request),
    }
    reveal_strlit("/list-files");
    reveal_strlit("/delete-file");
    reveal_strlit("/print-file");
    reveal_strlit("/send-file");
    reveal_strlit("/print-status");
    reveal_strlit("/pause-or-resume");
    reveal_strlit("/printer-state");
    reveal_strlit("/move");
    reveal_strlit("/list-gcode-commands-in-memory");
    reveal_strlit("/send-gcode-commands");
    reveal_strlit("/ota-update");
    if request != other && request.spec_uri() == other.spec_uri() {
        assert(request.spec_uri().len() == other.spec_uri().len());
        assert(request.spec_uri()[1] == other.spec_uri()[1]);
        assert(request.spec_uri()[2] == other.spec_uri()[2]);
        assert(request.spec_uri()[3] == other.spec_uri()[3]);
        assert(request.spec_uri()[4] == other.spec_uri()[4]);
        assert(request.spec_uri()[8] == other.spec_uri()[8]);
    }
}

} // verus!
