//! The core of a clipboard-to-URL uploader.
//!
//! What is on the clipboard is classified ([`classify`]) and turned into a
//! payload ([`payload`], [`file_list`]); the payload goes out in chunks,
//! with reports of its progress at a bounded rate ([`chunk`], [`progress`]);
//! the request is described and the answer of the server is read and acted
//! on ([`response`], [`json`]). Reading the clipboard and files, sending the
//! request and writing the clipboard are left to the caller: every function
//! here goes from values to values.

pub mod chunk;
pub mod classify;
pub mod file_list;
pub mod json;
pub mod payload;
pub mod progress;
pub mod response;
pub mod scan;
pub mod settings;
pub mod text;
