//! A peer-to-peer binary wire protocol layer: a fixed framing format around
//! a self-describing tagged-value serialization scheme, with a
//! request/response handshake and a command dispatcher built on top.
//!
//! Bytes from the transport flow through the frame header codec, the
//! framer, and the tagged-value codec, and end at the handshake protocol or
//! the message dispatcher.
#![allow(unused_imports)]

use vstd::prelude::*;

pub mod bytes_le;
pub mod codec;
pub mod dispatch;
pub mod errors;
pub mod frame;
pub mod handshake;
pub mod header;
pub mod network;
pub mod round_trip;
pub mod seqs;
pub mod value;
pub mod varint;
