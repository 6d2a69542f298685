//! Core of a handheld credential-injection device: the sealed vault format,
//! the keyboard report encoder and the password-entry state machine.

pub mod codec;
pub mod event;
pub mod hid;
pub mod password_file;
pub mod primitives;
pub mod pwscreen;
