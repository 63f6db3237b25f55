//! A mode-driven todo screen: an ordered store of titled items, a keyboard
//! state machine with four interaction modes, a single-line input buffer,
//! a persistence codec for the on-disk representation, and a pure render
//! plan for a terminal layout.

pub mod mode;
pub mod input_buffer;
mod strutil;
pub mod codec;
pub mod home;
pub mod render;
