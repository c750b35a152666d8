//! Shared data model of the wireskip services: an envelope codec that keeps
//! fixed-length ed25519 material as URL-safe unpadded base64 text, and the
//! signed access records built on it.
pub mod api;
pub mod b64e;
pub mod base64url;
pub mod cfg;
pub mod endpoint;
pub mod error;
pub mod material;
pub mod nonce;
pub mod setup;
pub mod state;
pub mod time;
pub mod version;
