//! Other parts of the HTTP interface.
pub mod g_code_history;

pub use self::g_code_history::GCodeHistory;
