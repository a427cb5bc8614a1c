pub mod config;
pub mod drivers;
pub mod file_system;
pub mod g_code;
