pub mod batcher;
pub mod egui_images;
pub mod error;
pub mod input;
pub mod painter;
pub mod pixel_buffer;
pub mod texture_store;
