//! Verified core of a Rust binding to the Inference Engine C API: status
//! codes, network metadata, blob descriptors, tensor layout conversion and
//! ranking of inference scores.

pub mod blob;
pub mod layout;
pub mod network;
pub mod ranking;
pub mod status;
pub mod text;
pub mod utils;

pub use network::{InputInfo, Network};
