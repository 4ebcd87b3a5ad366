//! Runtime parameter schema for a synthetic hash-driven load generator.
//!
//! The crate owns the `Params` snapshot type: its compiled-in defaults, the
//! post-load normalization (the `file_frac` floor), the derived `log_padding`
//! quantity, and the text codec that persists a snapshot as a key/value
//! document headed by a human-readable documentation block.

pub mod params;
pub mod text;
pub mod load;
pub mod save;
pub mod laws;
