//! A connection: a decoder for the bytes read from one stream, an encoder
//! for the bytes written to one stream, and the registry slices that name
//! the packets of each way.
use vstd::prelude::*;

use crate::codec::{cipher_pair, encode_spec, next_frame, MinecraftDecoder, MinecraftEncoder};
use crate::error::ProtocolError;
use crate::packet::{
    decode_expected, dispatch, dispatch_spec, encode_packet, encode_packet_spec, expect_spec,
    packet_result_view, writable, PacketType, PacketView, RawPacket,
};
use crate::protocol::{Direction, ProtocolVersion, State};
use crate::registry::{PacketKind, ProtocolRegistry};

verus! {

/// What a receive yields: `None` while no whole frame is buffered.
pub open spec fn recv_view(r: Result<Option<PacketType>, ProtocolError>) -> Result<Option<PacketView>, ProtocolError> {
    match r {
        Ok(Some(p)) => Ok(Some(p@)),
        Ok(None) => Ok(None),
        Err(e) => Err(e),
    }
}

/// The outcome of a receive, from what the decoder hands out next and what
/// a frame decodes as.
pub open spec fn recv_spec(
    next: Result<Option<Seq<u8>>, ProtocolError>,
    decoded: spec_fn(Seq<u8>) -> Result<PacketView, ProtocolError>,
) -> Result<Option<PacketView>, ProtocolError> {
    match next {
        Err(e) => Err(e),
        Ok(None) => Ok(None),
        Ok(Some(f)) => match decoded(f) {
            Ok(p) => Ok(Some(p)),
            Err(e) => Err(e),
        },
    }
}

pub struct Connection {
    /// The protocol version negotiated on this connection.
    pub protocol: ProtocolVersion,
    /// The direction of the packets this connection sends.
    pub direction: Direction,
    pub state: State,
    pub receive_registry: ProtocolRegistry,
    pub send_registry: ProtocolRegistry,
    pub decoder: MinecraftDecoder,
    pub encoder: MinecraftEncoder,
}

impl Connection {
    pub open spec fn wf(&self) -> bool {
        &&& self.receive_registry.wf()
        &&& self.send_registry.wf()
        &&& self.decoder.wf()
    }

    /// Whether both registry slices are those of the connection's state and
    /// version, the receiving one for the other direction.
    pub open spec fn paired(&self) -> bool {
        &&& self.receive_registry.state == self.state
        &&& self.send_registry.state == self.state
        &&& self.receive_registry.version == self.protocol
        &&& self.send_registry.version == self.protocol
        &&& self.send_registry.direction == self.direction
        &&& self.receive_registry.direction == self.direction.opposite_spec()
    }

    /// A connection in the handshake state, with neither compression nor
    /// encryption.
    pub fn new(protocol: ProtocolVersion, direction: Direction) -> (r: Connection)
        ensures
            r.wf(),
            r.paired(),
            r.protocol == protocol,
            r.direction == direction,
            r.state == State::Handshake,
            r.decoder.received@.len() == 0,
            !r.decoder.compression,
            !r.decoder.decrypting(),
            r.encoder.threshold is None,
            !r.encoder.encrypting(),
    {
        Connection {
            protocol,
            direction,
            state: State::Handshake,
            receive_registry: ProtocolRegistry::new(State::Handshake, direction.opposite(), protocol),
            send_registry: ProtocolRegistry::new(State::Handshake, direction, protocol),
            decoder: MinecraftDecoder::new(),
            encoder: MinecraftEncoder::new(),
        }
    }

    /// Moves to `state`; both registry slices follow, and the version and
    /// the transforms stay.
    pub fn change_state(&mut self, state: State)
        requires
            old(self).wf(),
        ensures
            final(self).wf(),
            final(self).paired(),
            final(self).state == state,
            final(self).protocol == old(self).protocol,
            final(self).direction == old(self).direction,
            final(self).decoder == old(self).decoder,
            final(self).encoder == old(self).encoder,
    {
        self.state = state;
        self.receive_registry = ProtocolRegistry::new(state, self.direction.opposite(), self.protocol);
        self.send_registry = ProtocolRegistry::new(state, self.direction, self.protocol);
    }

    /// Records the negotiated version; both registry slices follow.
    pub fn set_protocol(&mut self, protocol: ProtocolVersion)
        requires
            old(self).wf(),
        ensures
            final(self).wf(),
            final(self).paired(),
            final(self).protocol == protocol,
            final(self).state == old(self).state,
            final(self).direction == old(self).direction,
            final(self).decoder == old(self).decoder,
            final(self).encoder == old(self).encoder,
    {
        self.protocol = protocol;
        self.receive_registry = ProtocolRegistry::new(self.state, self.direction.opposite(), protocol);
        self.send_registry = ProtocolRegistry::new(self.state, self.direction, protocol);
    }

    /// Turns compression on both ways, for every frame that follows.
    pub fn enable_compression(&mut self, threshold: u32, level: i32)
        requires
            old(self).wf(),
        ensures
            final(self).wf(),
            final(self).decoder.compression,
            final(self).decoder.received == old(self).decoder.received,
            final(self).decoder.done == old(self).decoder.done,
            final(self).decoder.decrypting() == old(self).decoder.decrypting(),
            final(self).encoder.threshold == Some(threshold as usize),
            final(self).encoder.level == level,
            final(self).encoder.encrypting() == old(self).encoder.encrypting(),
            final(self).receive_registry == old(self).receive_registry,
            final(self).send_registry == old(self).send_registry,
            final(self).state == old(self).state,
            final(self).protocol == old(self).protocol,
            final(self).direction == old(self).direction,
    {
        self.decoder.enable_compression();
        self.encoder.enable_compression(threshold, level);
    }

    /// Turns AES-128/CFB8 encryption on both ways, with the shared secret as
    /// key and IV, for every byte that follows; where a cipher context
    /// cannot be made, nothing changes.
    pub fn enable_encryption(&mut self, key: &[u8]) -> (r: Result<(), ProtocolError>)
        requires
            old(self).wf(),
            key@.len() == 16,
        ensures
            final(self).wf(),
            r is Ok ==> final(self).decoder.decrypting() && final(self).encoder.encrypting(),
            r is Err ==> *final(self) == *old(self) && r == Err::<(), ProtocolError>(
                ProtocolError::CipherFailed,
            ),
            final(self).decoder.received == old(self).decoder.received,
            final(self).decoder.done == old(self).decoder.done,
            final(self).decoder.compression == old(self).decoder.compression,
            final(self).encoder.threshold == old(self).encoder.threshold,
            final(self).encoder.level == old(self).encoder.level,
            final(self).receive_registry == old(self).receive_registry,
            final(self).send_registry == old(self).send_registry,
            final(self).state == old(self).state,
            final(self).protocol == old(self).protocol,
            final(self).direction == old(self).direction,
    {
        match cipher_pair(key) {
            Some((enc, dec)) => {
                self.encoder.cipher = Some(enc);
                self.decoder.cipher = Some(dec);
                Ok(())
            },
            None => Err(ProtocolError::CipherFailed),
        }
    }

    /// Takes bytes read from the stream.
    pub fn feed(&mut self, bytes: &[u8]) -> (r: Result<(), ProtocolError>)
        requires
            old(self).wf(),
        ensures
            final(self).wf(),
            !old(self).decoder.decrypting() ==> r is Ok && final(self).decoder.received@ == old(
                self,
            ).decoder.received@ + bytes@,
            final(self).decoder.done == old(self).decoder.done,
            final(self).decoder.compression == old(self).decoder.compression,
            final(self).decoder.decrypting() == old(self).decoder.decrypting(),
            final(self).encoder == old(self).encoder,
            final(self).receive_registry == old(self).receive_registry,
            final(self).send_registry == old(self).send_registry,
            final(self).state == old(self).state,
            final(self).protocol == old(self).protocol,
            final(self).direction == old(self).direction,
    {
        self.decoder.feed(bytes)
    }

    /// The next frame, as raw bytes.
    pub fn recv_raw_packet(&mut self) -> (r: Result<Option<RawPacket>, ProtocolError>)
        requires
            old(self).wf(),
        ensures
            final(self).wf(),
            final(self).receive_registry == old(self).receive_registry,
            final(self).send_registry == old(self).send_registry,
            final(self).encoder == old(self).encoder,
            final(self).state == old(self).state,
            final(self).protocol == old(self).protocol,
            final(self).decoder.compression == old(self).decoder.compression,
            final(self).decoder.received == old(self).decoder.received,
            match next_frame(
                old(self).decoder.received@,
                old(self).decoder.consumed(),
                old(self).decoder.compression,
            ) {
                Err(e) => r matches Err(x) && x == e,
                Ok(None) => r matches Ok(None),
                Ok(Some(f)) => if f.len() == 0 {
                    r matches Err(x) && x == ProtocolError::UnexpectedEnd
                } else {
                    r matches Ok(Some(raw)) && raw.buffer@ == f && raw.wf()
                },
            },
    {
        match self.decoder.decode() {
            Ok(Some(frame)) => {
                if frame.len() == 0 {
                    Err(ProtocolError::UnexpectedEnd)
                } else {
                    Ok(Some(RawPacket { buffer: frame }))
                }
            },
            Ok(None) => Ok(None),
            Err(e) => Err(e),
        }
    }

    /// The next frame, decoded where the receiving slice has a decoder for
    /// its id, raw otherwise.
    pub fn auto_read(&mut self) -> (r: Result<Option<PacketType>, ProtocolError>)
        requires
            old(self).wf(),
        ensures
            final(self).wf(),
            final(self).receive_registry == old(self).receive_registry,
            final(self).send_registry == old(self).send_registry,
            final(self).encoder == old(self).encoder,
            final(self).state == old(self).state,
            final(self).protocol == old(self).protocol,
            final(self).decoder.compression == old(self).decoder.compression,
            final(self).decoder.received == old(self).decoder.received,
            recv_view(r) == recv_spec(
                next_frame(
                    old(self).decoder.received@,
                    old(self).decoder.consumed(),
                    old(self).decoder.compression,
                ),
                |f: Seq<u8>| dispatch_spec(old(self).receive_registry, f),
            ),
    {
        match self.decoder.decode() {
            Ok(Some(frame)) => match dispatch(&self.receive_registry, frame) {
                Ok(p) => Ok(Some(p)),
                Err(e) => Err(e),
            },
            Ok(None) => Ok(None),
            Err(e) => Err(e),
        }
    }

    /// The next frame, which must be a packet of kind `k`.
    pub fn recv_packet(&mut self, k: PacketKind) -> (r: Result<Option<PacketType>, ProtocolError>)
        requires
            old(self).wf(),
        ensures
            final(self).wf(),
            final(self).receive_registry == old(self).receive_registry,
            final(self).send_registry == old(self).send_registry,
            final(self).encoder == old(self).encoder,
            final(self).state == old(self).state,
            final(self).protocol == old(self).protocol,
            final(self).decoder.compression == old(self).decoder.compression,
            final(self).decoder.received == old(self).decoder.received,
            recv_view(r) == recv_spec(
                next_frame(
                    old(self).decoder.received@,
                    old(self).decoder.consumed(),
                    old(self).decoder.compression,
                ),
                |f: Seq<u8>| expect_spec(old(self).receive_registry, k, f),
            ),
    {
        match self.decoder.decode() {
            Ok(Some(frame)) => match decode_expected(&self.receive_registry, k, frame) {
                Ok(p) => Ok(Some(p)),
                Err(e) => Err(e),
            },
            Ok(None) => Ok(None),
            Err(e) => Err(e),
        }
    }

    /// The bytes to write for a raw frame.
    pub fn send_raw_packet(&mut self, packet: RawPacket) -> (r: Result<Vec<u8>, ProtocolError>)
        requires
            old(self).wf(),
        ensures
            final(self).wf(),
            final(self).decoder == old(self).decoder,
            final(self).receive_registry == old(self).receive_registry,
            final(self).send_registry == old(self).send_registry,
            final(self).state == old(self).state,
            final(self).protocol == old(self).protocol,
            final(self).encoder.threshold == old(self).encoder.threshold,
            final(self).encoder.level == old(self).encoder.level,
            final(self).encoder.encrypting() == old(self).encoder.encrypting(),
            !old(self).encoder.encrypting() ==> match encode_spec(
                old(self).encoder.threshold,
                old(self).encoder.level,
                packet.buffer@,
            ) {
                Ok(f) => r matches Ok(v) && v@ == f,
                Err(e) => r matches Err(x) && x == e,
            },
    {
        self.encoder.encode(packet.buffer.as_slice())
    }

    /// The bytes to write for a typed packet, with the id the sending slice
    /// gives its kind.
    pub fn send_packet(&mut self, packet: PacketType) -> (r: Result<Vec<u8>, ProtocolError>)
        requires
            old(self).wf(),
            writable(packet@, old(self).send_registry.version),
        ensures
            final(self).wf(),
            final(self).decoder == old(self).decoder,
            final(self).receive_registry == old(self).receive_registry,
            final(self).send_registry == old(self).send_registry,
            final(self).state == old(self).state,
            final(self).protocol == old(self).protocol,
            final(self).encoder.threshold == old(self).encoder.threshold,
            final(self).encoder.level == old(self).encoder.level,
            final(self).encoder.encrypting() == old(self).encoder.encrypting(),
            !old(self).encoder.encrypting() ==> match encode_packet_spec(
                old(self).send_registry,
                packet@,
            ) {
                Err(e) => r matches Err(x) && x == e,
                Ok(b) => match encode_spec(old(self).encoder.threshold, old(self).encoder.level, b) {
                    Ok(f) => r matches Ok(v) && v@ == f,
                    Err(e) => r matches Err(x) && x == e,
                },
            },
    {
        let raw = match encode_packet(&self.send_registry, packet) {
            Ok(raw) => raw,
            Err(e) => return Err(e),
        };
        self.encoder.encode(raw.buffer.as_slice())
    }

    /// Crosses two connections: the first result reads what `self` reads and
    /// writes where `other` writes; the second reads what `other` reads and
    /// writes where `self` writes. Each half keeps its registry slice.
    pub fn mix(self, other: Connection) -> (r: (Connection, Connection))
        requires
            self.wf(),
            other.wf(),
        ensures
            r.0.wf(),
            r.1.wf(),
            r.0.decoder == self.decoder,
            r.0.receive_registry == self.receive_registry,
            r.0.encoder == other.encoder,
            r.0.send_registry == other.send_registry,
            r.0.protocol == self.protocol,
            r.0.direction == self.direction,
            r.1.decoder == other.decoder,
            r.1.receive_registry == other.receive_registry,
            r.1.encoder == self.encoder,
            r.1.send_registry == self.send_registry,
            r.1.protocol == other.protocol,
            r.1.direction == other.direction,
    {
        let Connection {
            protocol: p1,
            direction: d1,
            state: s1,
            receive_registry: rr1,
            send_registry: sr1,
            decoder: dec1,
            encoder: enc1,
        } = self;
        let Connection {
            protocol: p2,
            direction: d2,
            state: s2,
            receive_registry: rr2,
            send_registry: sr2,
            decoder: dec2,
            encoder: enc2,
        } = other;
        (
            Connection {
                protocol: p1,
                direction: d1,
                state: s1,
                receive_registry: rr1,
                send_registry: sr2,
                decoder: dec1,
                encoder: enc2,
            },
            Connection {
                protocol: p2,
                direction: d2,
                state: s2,
                receive_registry: rr2,
                send_registry: sr1,
                decoder: dec2,
                encoder: enc1,
            },
        )
    }
}

} // verus!
