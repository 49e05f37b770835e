//! A card reader that types: the logic of a device that reads the UID of a
//! proximity card, writes it as a line of text to a serial port and types
//! it as key strokes on a USB keyboard.
//!
//! - `keycodes`: the key table, from a character to its key stroke.
//! - `queue`: the bounded queue in which key strokes wait.
//! - `keyboard`: the keyboard, which queues the key strokes of a text and
//!   hands out one input report at a time, a key-down and then its release.
//! - `typing`: which characters of a text reach the queue, and why typing
//!   stops where it does.
//! - `emission`: what a keyboard emits in the long run, and what typing a
//!   text adds to it.
//! - `text`: the short texts, in buffers of fixed size.
//! - `uid`: the text forms of a UID.
//! - `presence`: the debounce that tells a card that is presented anew from
//!   one that is still there, and notices when it is gone.
//! - `debounce`: what the debounce decides over runs of poll cycles.
//! - `hid`: the descriptors of the keyboard and the request that asks for
//!   them.
//!
//! Nothing here touches hardware. The caller polls the reader, feeds the
//! result to `presence`, and carries the reports of `keyboard` to the
//! endpoint whenever the endpoint is free.

pub mod debounce;
pub mod emission;
pub mod hid;
pub mod keyboard;
pub mod keycodes;
pub mod presence;
pub mod queue;
pub mod text;
pub mod typing;
pub mod uid;
