pub mod direction;
pub mod tmc2209;

pub use self::direction::RotationalDirection;
