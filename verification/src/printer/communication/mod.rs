//! The communication of the printer with the external systems.
pub mod http;
pub mod security;
