//! The HTTP interface of the printer.
pub mod other;
pub mod request;
