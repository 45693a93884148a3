//! Guest-side value-exchange and message-dispatch layer for scripts that talk
//! to a host simulation engine across a strict module boundary.
//!
//! Only integers cross the boundary directly; variable-length data travels as
//! a packed 64-bit handle (address + length) describing a byte buffer in the
//! guest's memory. This crate provides the binary value codec that fills such
//! buffers, the allocator bookkeeping for the regions they live in, and the
//! typed message envelope and routing types built on top of the codec.

pub mod action;
pub mod allocator;
pub mod content;
pub mod event;
pub mod ffi;
pub mod font;
pub mod graphics;
pub mod input;
pub mod log;
pub mod math;
pub mod message;
pub mod module;
pub mod script;
pub mod types;
pub mod value;
pub mod vehicle;
