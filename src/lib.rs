//! Protocol engine of a Minecraft Java-Edition reverse proxy: varints, byte
//! buffers, the framing codec, the packet catalogue, the packet registry and
//! the per-session decisions of the login and bridging phases.
use vstd::prelude::*;

pub mod buffer;
pub mod codec;
pub mod component;
pub mod connection;
pub mod error;
pub mod handshake;
pub mod join_game;
pub mod login;
pub mod nbt;
pub mod online;
pub mod packet;
pub mod play;
pub mod protocol;
pub mod registry;
pub mod session;
pub mod status;
pub mod varint;

verus! {

} // verus!
