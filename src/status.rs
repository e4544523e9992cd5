//! Packets of the status phase, and the parts of the status document.
use vstd::prelude::*;

use crate::buffer::{be_bytes, byte_array_bytes, parse_be, put_be, put_byte_array, read_as, Reader};
use crate::component::Component;
use crate::error::ProtocolError;

verus! {

/// The client's request for the status document; it has no fields.
pub struct StatusRequest;

/// The status document, as its JSON text.
pub struct StatusResponse {
    pub status: Vec<u8>,
}

impl StatusResponse {
    pub fn put_buf(&self, dst: &mut Vec<u8>)
        ensures
            final(dst)@ == old(dst)@ + byte_array_bytes(self.status@),
    {
        put_byte_array(dst, self.status.as_slice());
    }
}

/// A ping, answered with the same payload.
pub struct Ping(pub i64);

impl Ping {
    pub fn from_bytes(buf: &mut Reader) -> (r: Result<Ping, ProtocolError>)
        requires
            old(buf).wf(),
        ensures
            final(buf).wf(),
            read_as(
                parse_be(old(buf).rest(), 8),
                match r {
                    Ok(p) => Ok((p.0 as u64) as nat),
                    Err(e) => Err(e),
                },
                old(buf).rest(),
                final(buf).rest(),
            ),
    {
        match buf.get_i64() {
            Ok(v) => Ok(Ping(v)),
            Err(e) => Err(e),
        }
    }

    pub fn put_buf(&self, dst: &mut Vec<u8>)
        ensures
            final(dst)@ == old(dst)@ + be_bytes((self.0 as u64) as nat, 8),
    {
        put_be(dst, (self.0 as u64) as u128, 8);
    }
}

/// The version part of the status document.
pub struct Version {
    pub name: String,
    pub protocol: i32,
}

/// The message of the day: a text component or plain text.
pub enum Motd {
    Component(Component),
    Plain(String),
}

} // verus!
