//! Building blocks of a file synchronisation service: a gzip codec, an
//! authenticated-encryption codec, the storage-backend capability, and the
//! per-file state machine that drives compress, encrypt, upload and cleanup.

pub mod cloud;
pub mod compression;
pub mod config;
pub mod encryption;
pub mod error;
pub mod events;
pub mod naming;
pub mod pipeline;
pub mod startup;
pub mod text;
