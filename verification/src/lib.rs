//! Detection of the Rust compiler's version and release channel.
//!
//! [`rustc::parse`] reads what a compiler prints when asked for its version, and
//! [`RustVersion`] answers whether that compiler is new enough: against a stable
//! version with [`StableVersionSpec`], against a nightly release with [`Date`].

pub mod date;
pub mod decimal;
pub mod detect;
pub mod rustc;
pub mod text;
pub mod version;

pub use crate::date::Date;
pub use crate::version::{Channel, RustVersion, StableVersionSpec};
