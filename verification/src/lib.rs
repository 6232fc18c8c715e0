//! Verified core of the AutoDCR native messaging bridge.

pub mod ca_bundle;
pub mod cms;
pub mod codec;
pub mod commands;
pub mod config;
pub mod error_code;
pub mod framing;
pub mod pdf;
pub mod pin;
pub mod pkcs11;
pub mod protocol;
pub mod signing;
pub mod summary;
pub mod text;
pub mod token_detection;
