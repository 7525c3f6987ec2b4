//! Verified core of the Movo streaming client: the parsing, matching and
//! bookkeeping rules the client applies to what the provider serves.

pub mod client;
pub mod error;
pub mod html;
pub mod json;
pub mod storage;
pub mod text;
pub mod bridge;
