//! Core of a URL-shortening service.
//!
//! A raw destination URL is normalized (a leading `http://` is upgraded to
//! `https://`) and rejected unless it then starts with `https://`; the short
//! path for an accepted destination is the lowercase hexadecimal SHA-512
//! digest of the destination string; a link store maps each path to its
//! destination and resolves paths by exact match.

pub mod digest;
pub mod error;
pub mod service;
pub mod store;
pub mod validate;
