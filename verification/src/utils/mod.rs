pub mod bytes;
pub mod math;
pub mod text;
