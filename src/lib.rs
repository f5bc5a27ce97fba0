//! Lifecycle of an encrypted boot partition with a nested EFI mount.
//!
//! The library decides what to do and in which order; the caller performs
//! each step (a path check or an external command) and reports what it saw.
pub mod boot;
pub mod command;
pub mod device;
pub mod grub;
pub mod session;
pub mod lifecycle;
pub mod cryptboot;
