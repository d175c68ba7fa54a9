//! Core logic of a screenshot tool: pixel conversion, cropping, export
//! encoding, configuration, capture decisions and the selection state machine.

pub mod types;
pub mod export;
pub mod config;
pub mod capture;
pub mod selection;
