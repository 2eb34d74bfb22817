//! The logic of the importer that turns the vendor's data-point definitions
//! into the command and device tables of this library.

pub mod strings;
pub mod cleaned;
pub mod command;
pub mod default_value;
pub mod generate;
pub mod raw;
pub mod translations;
pub mod unique_mapping;
