//! Collects the text files of a project tree into one annotated dump file.
//!
//! The library holds the verified core: parsing of comma-separated exclusion
//! globs, the exclusion filter over candidate paths, and the rendering of the
//! dump (per-file banners, skip rules for non-text files, and the count of
//! files included). Directory walking and file I/O live outside the library
//! and hand plain values in.

pub mod error;
pub mod glob_api;
pub mod pattern;
pub mod collector;
