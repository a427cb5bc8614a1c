pub mod bl_touch;
pub mod spi_flash_memory;
pub mod stepper_motor;
