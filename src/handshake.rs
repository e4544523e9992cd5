//! The packet that opens every connection.
use vstd::prelude::*;

use vstd::utf8::encode_utf8;

use crate::buffer::{
    be_bytes, lemma_be_round_trip, lemma_pow256_values, lemma_primitive_prefix, lemma_primitive_round_trip, lemma_skip_append, lemma_skip_skip, parse_be, parse_string, parse_u8, parse_varint, put_be, put_string,
    put_u8, read_as, skip, string_bytes, view_result, Parsed, Reader,
};
use crate::error::ProtocolError;
use crate::varint::{put_varint, varint_bytes};

verus! {

broadcast use lemma_skip_skip, lemma_skip_append;

/// The state a client asks for after the handshake.
#[derive(Clone, Copy, Debug, PartialEq, Eq, Structural)]
pub enum NextState {
    Status,
    Login,
}

impl NextState {
    pub open spec fn id_spec(self) -> u8 {
        match self {
            NextState::Status => 1,
            NextState::Login => 2,
        }
    }

    /// The next state of wire number `value`.
    pub fn try_from_id(value: u8) -> (r: Result<NextState, ProtocolError>)
        ensures
            value == 1 ==> r == Ok::<NextState, ProtocolError>(NextState::Status),
            value == 2 ==> r == Ok::<NextState, ProtocolError>(NextState::Login),
            value != 1 && value != 2 ==> r == Err::<NextState, ProtocolError>(
                ProtocolError::InvalidTag,
            ),
    {
        if value == 1 {
            Ok(NextState::Status)
        } else if value == 2 {
            Ok(NextState::Login)
        } else {
            Err(ProtocolError::InvalidTag)
        }
    }

    pub fn id(&self) -> (r: u8)
        ensures
            r == self.id_spec(),
    {
        match self {
            NextState::Status => 1,
            NextState::Login => 2,
        }
    }
}

pub struct Handshake {
    pub protocol: i32,
    pub server_address: String,
    pub port: u16,
    pub state: NextState,
}

impl View for Handshake {
    type V = (i32, Seq<char>, u16, NextState);

    open spec fn view(&self) -> Self::V {
        (self.protocol, self.server_address@, self.port, self.state)
    }
}

/// A handshake: protocol number, server address of at most 255 characters,
/// port, next state.
#[verifier::opaque]
pub open spec fn parse_handshake(s: Seq<u8>) -> Parsed<(i32, Seq<char>, u16, NextState)> {
    match parse_varint(s) {
        Err(e) => Err(e),
        Ok((protocol, n1)) => match parse_string(skip(s, n1), 255) {
            Err(e) => Err(e),
            Ok((addr, n2)) => match parse_be(skip(s, n1 + n2), 2) {
                Err(e) => Err(e),
                Ok((port, n3)) => match parse_u8(skip(s, n1 + n2 + n3)) {
                    Err(e) => Err(e),
                    Ok((st, n4)) => if st == 1 {
                        Ok(((protocol, addr, port as u16, NextState::Status), n1 + n2 + n3 + n4))
                    } else if st == 2 {
                        Ok(((protocol, addr, port as u16, NextState::Login), n1 + n2 + n3 + n4))
                    } else {
                        Err(ProtocolError::InvalidTag)
                    },
                },
            },
        },
    }
}

pub open spec fn handshake_bytes(h: (i32, Seq<char>, u16, NextState)) -> Seq<u8> {
    varint_bytes(h.0 as u32) + string_bytes(h.1) + be_bytes(h.2 as nat, 2) + seq![h.3.id_spec()]
}

/// A handshake reads the same with bytes appended.
pub proof fn lemma_handshake_prefix(s: Seq<u8>, t: Seq<u8>)
    requires
        parse_handshake(s) is Ok,
    ensures
        parse_handshake(s + t) == parse_handshake(s),
{
    reveal(parse_handshake);
    lemma_primitive_prefix(s, t, 0, 0);
    let n1 = parse_varint(s)->Ok_0.1;
    lemma_primitive_prefix(skip(s, n1), t, 0, 255);
    let n2 = parse_string(skip(s, n1), 255)->Ok_0.1;
    lemma_primitive_prefix(skip(s, n1 + n2), t, 2, 0);
    let n3 = parse_be(skip(s, n1 + n2), 2)->Ok_0.1;
    lemma_primitive_prefix(skip(s, n1 + n2 + n3), t, 0, 0);
}

/// What `Handshake::put_buf` writes, `Handshake::from_bytes` reads back
/// whole, whatever follows it, for an address within the field's limit.
pub proof fn lemma_handshake_round_trip(h: (i32, Seq<char>, u16, NextState), t: Seq<u8>)
    requires
        encode_utf8(h.1).len() <= 3 * 255,
    ensures
        parse_handshake(handshake_bytes(h) + t) == Ok::<((i32, Seq<char>, u16, NextState), nat), ProtocolError>(
            (h, handshake_bytes(h).len()),
        ),
{
    reveal(parse_handshake);
    lemma_pow256_values();
    let st = seq![h.3.id_spec()] + t;
    let p2 = be_bytes(h.2 as nat, 2) + st;
    let p1 = string_bytes(h.1) + p2;
    let s = handshake_bytes(h) + t;
    assert(s =~= varint_bytes(h.0 as u32) + p1);
    lemma_primitive_round_trip(p1, 0, 0, h.1, 255, false, h.0);
    let n1 = varint_bytes(h.0 as u32).len();
    assert(skip(s, n1) =~= p1);
    lemma_primitive_round_trip(p2, 0, 0, h.1, 255, false, 0);
    let n2 = string_bytes(h.1).len();
    assert(skip(s, n1 + n2) =~= p2);
    lemma_primitive_round_trip(st, h.2 as nat, 2, h.1, 255, false, 0);
    lemma_be_round_trip(h.2 as nat, 2);
    assert(skip(s, n1 + n2 + 2) =~= st);
    assert(st[0] == h.3.id_spec());
}

impl Handshake {
    pub fn from_bytes(buf: &mut Reader) -> (r: Result<Handshake, ProtocolError>)
        requires
            old(buf).wf(),
        ensures
            final(buf).wf(),
            read_as(parse_handshake(old(buf).rest()), view_result(r), old(buf).rest(), final(buf).rest()),
    {
        reveal(parse_handshake);
        let protocol = match buf.get_varint() {
            Ok(v) => v,
            Err(e) => return Err(e),
        };
        let server_address = match buf.get_string(255) {
            Ok(v) => v,
            Err(e) => return Err(e),
        };
        let port = match buf.get_u16() {
            Ok(v) => v,
            Err(e) => return Err(e),
        };
        let st = match buf.get_u8() {
            Ok(v) => v,
            Err(e) => return Err(e),
        };
        let state = match NextState::try_from_id(st) {
            Ok(v) => v,
            Err(e) => return Err(e),
        };
        Ok(Handshake { protocol, server_address, port, state })
    }

    pub fn put_buf(&self, dst: &mut Vec<u8>)
        ensures
            final(dst)@ == old(dst)@ + handshake_bytes(self@),
    {
        put_varint(dst, self.protocol);
        put_string(dst, self.server_address.as_str());
        put_be(dst, self.port as u128, 2);
        put_u8(dst, self.state.id());
        assert(final(dst)@ =~= old(dst)@ + handshake_bytes(self@));
    }
}

} // verus!
