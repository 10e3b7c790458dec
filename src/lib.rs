//! A small note store: an ordered list of notes addressed by position,
//! with the operations that change it and the sparse form in which it is
//! written to disk.

pub mod note;
pub mod store;
