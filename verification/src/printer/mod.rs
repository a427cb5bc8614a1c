pub mod communication;
pub mod components;
