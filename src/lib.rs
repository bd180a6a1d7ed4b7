//! Structured access to an academic-records portal: session tokens,
//! markup extraction and request admission, each with a verified contract.

pub mod auth;
pub mod codec;
pub mod crypto;
pub mod html;
pub mod login;
pub mod markup;
pub mod ratelimit;
pub mod text;
pub mod timeline;
pub mod types;
