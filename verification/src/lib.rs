//! Guest-side runtime for sandboxed contracts: a validated execution context,
//! a host boundary backed by an in-memory runtime, typed storage, security
//! primitives and signature and hash verification.

pub mod codec;
pub mod context;
pub mod crypto;
pub mod error;
pub mod events;
pub mod ffi;
pub mod prelude;
pub mod primitives;
pub mod security;
pub mod storage;
pub mod text;
