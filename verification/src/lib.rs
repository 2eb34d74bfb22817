//! Verified core of a client for the Optolink interface of Viessmann heating
//! controllers: telegram framing, value codecs and device detection.

pub mod access_mode;
pub mod bytes;
pub mod device;
pub mod error;
pub mod types;
pub mod data_type;
pub mod parameter;
pub mod raw_type;
pub mod value;
pub mod command;
pub mod protocol;
pub mod text;
pub mod commands;
pub mod device_id_range;
pub mod server;
pub mod codegen;
pub mod vcontrol;
pub mod arithmetic;
pub mod scan;
