//! Verified core of a multi-instance desktop client launcher: account tiers,
//! launch pacing, slot allocation and safe-mode account bookkeeping.

pub mod text;
pub mod models;
pub mod policy;
pub mod platform;
pub mod launch;
