pub mod args;
pub mod enc_helper;
pub mod errors;
pub mod frame;
pub mod gpu;
pub mod input;
pub mod json;
pub mod messages;
pub mod registry;
pub mod signaling;
pub mod transport;
