//! Turns ordered collections of raster images into single-document page plans:
//! every input blob is validated as a decodable image, and each image gets a
//! scale-and-rotation decision that maximises its fit on a fixed page.
//!
//! The numeric planning is done in exact rational arithmetic, so every
//! decision is a pure, reproducible function of its inputs.

pub mod archive;
pub mod document;
pub mod error;
pub mod file_names;
pub mod image_data_list;
pub mod in_memory_images;
pub mod input_source;
pub mod layout;
pub mod ratio;
pub mod workflow;
