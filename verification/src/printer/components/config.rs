//! Configuration of the components of the printer.
pub mod temperature;
