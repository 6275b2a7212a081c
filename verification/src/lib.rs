//! Transcoding of UTF-8 text into Morse code over bounded, exclusive channels.
//!
//! A producer writes text into a channel and a reader takes Morse code out of it. The
//! crate holds what such a device decides and computes:
//!
//! - [`morse`]: the alphabet, one symbol for every character;
//! - [`decoder`]: reading one codepoint at a time from a byte source;
//! - [`ringbuffer`]: the bounded FIFO store that a channel buffers its Morse code in;
//! - [`access`]: who may read and who may write a channel;
//! - [`transport`]: the byte source of a write call and the byte sink of a read call;
//! - [`transfer`]: the steps of a write call and of a read call, which say when their
//!   caller has to wait;
//! - [`channel`]: access state and buffer of one device identifier;
//! - [`registry`]: the channels that exist, one for every identifier in use;
//! - [`error`]: the failures.
//!
//! Nothing here locks or waits. A caller that shares channels among threads guards each
//! with a lock, and waits where a step says so.

pub mod access;
pub mod channel;
pub mod decoder;
pub mod error;
pub mod morse;
pub mod registry;
pub mod ringbuffer;
pub mod transfer;
pub mod transport;
