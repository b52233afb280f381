//! Shared file credentials: one private directory holds `auth.json` and
//! `auth.lock`, and every process that signs in, refreshes or signs out goes
//! through it.

pub mod credentials;
pub mod disk;
pub mod effects;
pub mod error;
pub mod laws;
pub mod names;
pub mod path;
pub mod protocol;
pub mod sequences;
pub mod session;
pub mod storage;
