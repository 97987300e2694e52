//! Stores one text blob of any length in a remote document whose sub-items
//! are bounded in size, by cutting the blob into ordered segments on write
//! and joining them again on read.

pub mod auth;
pub mod codec;
pub mod de;
pub mod json;
pub mod ser;
pub mod stash;
pub mod text;

pub use auth::Auth;
pub use stash::Stash;
