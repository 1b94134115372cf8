//! Normalization core for security-advisory records.

pub mod classify;
pub mod encode;
pub mod error;
pub mod load;
pub mod normalize;
pub mod record;
pub mod schema;
pub mod text;
