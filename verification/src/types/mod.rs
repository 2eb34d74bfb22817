pub mod date_time;
pub mod circuit_time;
pub mod cycle_time;
pub mod device_id;
pub mod device_ident;
pub mod error;
