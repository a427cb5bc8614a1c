//! Core logic of the firmware of a 3D printer: a flash file system, G-code handling, drivers for
//! the TMC2209 stepper driver and for SPI flash memories, and the pieces of the communication layer
//! that decide (security lists, request routing, history of the executed G-code).
pub mod printer;
pub mod utils;
