//! Detection-and-resolution engine for PC-game launchers on a Linux desktop.
//!
//! The library is pure logic over plain values: parsing Steam's quote-delimited
//! key-value text, resolving the active Steam account through a tiered fallback
//! chain, aggregating per-launcher game scans, computing sandbox mount lists and
//! launch-option strings, and the decision core of the installation bridge.
//! All filesystem, process and foreign-function work lives outside the library
//! and hands it plain values (strings, vectors, flags).

pub mod accounts;
pub mod cache;
pub mod cancel;
pub mod config;
pub mod games;
pub mod kv;
pub mod marshal;
pub mod mounts;
pub mod paths;
pub mod proton;
pub mod strutil;
