//! Raw frames and typed packets: decoding a frame against a registry slice,
//! and encoding a packet with the id that slice gives it.
use vstd::prelude::*;

use crate::buffer::{
    be_bytes, bool_byte, byte_array_bytes, parse_be, parse_json_text, parse_varint, put_u8,
    read_as, skip, string_bytes, Parsed, Reader,
};
use crate::error::ProtocolError;
use crate::buffer::lemma_primitive_prefix;
use crate::handshake::{
    handshake_bytes, lemma_handshake_prefix, lemma_handshake_round_trip, parse_handshake, Handshake,
    NextState,
};
use crate::login::{
    lemma_encryption_request_prefix, lemma_encryption_response_prefix, lemma_login_start_prefix,
    lemma_login_success_prefix,
};
use crate::join_game::{join_game_bytes, lemma_join_game_prefix, parse_join_game, JoinGame, JoinGameView};
use crate::play::{
    action_fits, lemma_boss_bar_prefix, lemma_boss_bar_round_trip, respawn_bytes, Respawn, RespawnView,
};
use vstd::utf8::encode_utf8;
use crate::login::{
    login_start_bytes, login_success_bytes, parse_encryption_request, parse_encryption_response,
    parse_login_plugin_request, parse_login_plugin_response, parse_login_start,
    parse_login_success, uuid_mandatory, Disconnect, EncryptionRequest, EncryptionResponse,
    LoginPluginRequest, LoginPluginResponse, LoginStart, LoginSuccess, SetCompression,
};
use crate::play::{
    boss_bar_bytes, chat_command_bytes, parse_boss_bar, parse_chat_command, parse_plugin_message,
    plugin_message_bytes, BossBar, BossBarActionView, ChatCommand, PluginMessage,
};
use crate::protocol::ProtocolVersion;
use crate::registry::{decoder_of, declared_id, PacketKind, ProtocolRegistry};
use crate::status::{Ping, StatusRequest, StatusResponse};
use crate::varint::varint_bytes;

verus! {

/// A frame as received or to be sent: the packet id, then the body.
pub struct RawPacket {
    pub buffer: Vec<u8>,
}

impl RawPacket {
    pub open spec fn wf(&self) -> bool {
        self.buffer@.len() >= 1
    }

    /// A frame of id 0 and no body.
    pub fn new() -> (r: RawPacket)
        ensures
            r.buffer@ == seq![0u8],
    {
        let mut buffer: Vec<u8> = Vec::new();
        buffer.push(0);
        assert(buffer@ =~= seq![0u8]);
        RawPacket { buffer }
    }

    pub fn id(&self) -> (r: u8)
        requires
            self.wf(),
        ensures
            r == self.buffer@[0],
    {
        self.buffer[0]
    }

    pub fn set_id(&mut self, id: u8)
        requires
            old(self).wf(),
        ensures
            final(self).buffer@ == old(self).buffer@.update(0, id),
    {
        self.buffer.set(0, id);
    }

    /// Splits the body off; the id stays.
    pub fn data(&mut self) -> (r: Vec<u8>)
        requires
            old(self).wf(),
        ensures
            final(self).buffer@ == seq![old(self).buffer@[0]],
            r@ == old(self).buffer@.subrange(1, old(self).buffer@.len() as int),
    {
        let r = self.buffer.split_off(1);
        assert(self.buffer@ =~= seq![old(self).buffer@[0]]);
        r
    }
}

/// A received or outgoing packet: decoded into its fields, or a raw frame.
pub enum PacketType {
    Raw(RawPacket),
    Handshake(Handshake),
    StatusRequest(StatusRequest),
    StatusResponse(StatusResponse),
    Ping(Ping),
    LoginStart(LoginStart),
    EncryptionResponse(EncryptionResponse),
    LoginPluginResponse(LoginPluginResponse),
    EncryptionRequest(EncryptionRequest),
    LoginSuccess(LoginSuccess),
    SetCompression(SetCompression),
    LoginPluginRequest(LoginPluginRequest),
    Disconnect(Disconnect),
    PluginMessage(PluginMessage),
    BossBar(BossBar),
    ChatCommand(ChatCommand),
    JoinGame(JoinGame),
    Respawn(Respawn),
}

pub enum PacketView {
    Raw(Seq<u8>),
    Handshake((i32, Seq<char>, u16, NextState)),
    StatusRequest,
    StatusResponse(Seq<u8>),
    Ping(i64),
    LoginStart((Seq<char>, Option<u128>)),
    EncryptionResponse((Seq<u8>, Seq<u8>)),
    LoginPluginResponse((i32, bool, Option<Seq<u8>>)),
    EncryptionRequest((Seq<char>, Seq<u8>, Seq<u8>)),
    LoginSuccess((u128, Seq<char>, Seq<(Seq<char>, Seq<char>, Option<Seq<char>>)>)),
    SetCompression(i32),
    LoginPluginRequest((i32, Seq<char>, Seq<u8>)),
    Disconnect(Seq<char>),
    PluginMessage((Seq<char>, Seq<u8>)),
    BossBar((u128, BossBarActionView)),
    ChatCommand((Seq<char>, i64, i64, Seq<(Seq<char>, Seq<u8>)>, i32, Seq<u8>)),
    JoinGame(JoinGameView),
    Respawn(RespawnView),
}

impl View for PacketType {
    type V = PacketView;

    open spec fn view(&self) -> PacketView {
        match self {
            PacketType::Raw(p) => PacketView::Raw(p.buffer@),
            PacketType::Handshake(p) => PacketView::Handshake(p@),
            PacketType::StatusRequest(_) => PacketView::StatusRequest,
            PacketType::StatusResponse(p) => PacketView::StatusResponse(p.status@),
            PacketType::Ping(p) => PacketView::Ping(p.0),
            PacketType::LoginStart(p) => PacketView::LoginStart(p@),
            PacketType::EncryptionResponse(p) => PacketView::EncryptionResponse(p@),
            PacketType::LoginPluginResponse(p) => PacketView::LoginPluginResponse(p@),
            PacketType::EncryptionRequest(p) => PacketView::EncryptionRequest(p@),
            PacketType::LoginSuccess(p) => PacketView::LoginSuccess(p@),
            PacketType::SetCompression(p) => PacketView::SetCompression(p.threshold),
            PacketType::LoginPluginRequest(p) => PacketView::LoginPluginRequest(p@),
            PacketType::Disconnect(p) => PacketView::Disconnect(p.reason@),
            PacketType::PluginMessage(p) => PacketView::PluginMessage(p@),
            PacketType::BossBar(p) => PacketView::BossBar(p@),
            PacketType::ChatCommand(p) => PacketView::ChatCommand(p@),
            PacketType::JoinGame(p) => PacketView::JoinGame(p@),
            PacketType::Respawn(p) => PacketView::Respawn(p@),
        }
    }
}

/// The kind of a packet view; `None` for a raw frame.
pub open spec fn view_kind(p: PacketView) -> Option<PacketKind> {
    match p {
        PacketView::Raw(_) => None,
        PacketView::Handshake(_) => Some(PacketKind::Handshake),
        PacketView::StatusRequest => Some(PacketKind::StatusRequest),
        PacketView::StatusResponse(_) => Some(PacketKind::StatusResponse),
        PacketView::Ping(_) => Some(PacketKind::Ping),
        PacketView::LoginStart(_) => Some(PacketKind::LoginStart),
        PacketView::EncryptionResponse(_) => Some(PacketKind::EncryptionResponse),
        PacketView::LoginPluginResponse(_) => Some(PacketKind::LoginPluginResponse),
        PacketView::EncryptionRequest(_) => Some(PacketKind::EncryptionRequest),
        PacketView::LoginSuccess(_) => Some(PacketKind::LoginSuccess),
        PacketView::SetCompression(_) => Some(PacketKind::SetCompression),
        PacketView::LoginPluginRequest(_) => Some(PacketKind::LoginPluginRequest),
        PacketView::Disconnect(_) => Some(PacketKind::Disconnect),
        PacketView::PluginMessage(_) => Some(PacketKind::PluginMessage),
        PacketView::BossBar(_) => Some(PacketKind::BossBar),
        PacketView::ChatCommand(_) => Some(PacketKind::ChatCommand),
        PacketView::JoinGame(_) => Some(PacketKind::JoinGame),
        PacketView::Respawn(_) => Some(PacketKind::Respawn),
    }
}

/// A parse of a whole body: its value where it takes every byte, an error
/// for trailing bytes otherwise.
pub open spec fn whole<T>(p: Parsed<T>, len: nat) -> Result<T, ProtocolError> {
    match p {
        Ok((v, n)) => if n == len {
            Ok(v)
        } else {
            Err(ProtocolError::TrailingBytes)
        },
        Err(e) => Err(e),
    }
}

/// How the front of `s` reads as a packet of kind `k` under version `v`.
pub open spec fn parse_kind(k: PacketKind, s: Seq<u8>, v: ProtocolVersion) -> Parsed<PacketView> {
    match k {
        PacketKind::Handshake => match parse_handshake(s) {
            Ok((x, n)) => Ok((PacketView::Handshake(x), n)),
            Err(e) => Err(e),
        },
        PacketKind::StatusRequest => Ok((PacketView::StatusRequest, 0)),
        PacketKind::Ping => match parse_be(s, 8) {
            Ok((x, n)) => Ok((PacketView::Ping((x as u64) as i64), n)),
            Err(e) => Err(e),
        },
        PacketKind::LoginStart => match parse_login_start(s, v) {
            Ok((x, n)) => Ok((PacketView::LoginStart(x), n)),
            Err(e) => Err(e),
        },
        PacketKind::EncryptionResponse => match parse_encryption_response(s) {
            Ok((x, n)) => Ok((PacketView::EncryptionResponse(x), n)),
            Err(e) => Err(e),
        },
        PacketKind::LoginPluginResponse => match parse_login_plugin_response(s) {
            Ok((x, n)) => Ok((PacketView::LoginPluginResponse(x), n)),
            Err(e) => Err(e),
        },
        PacketKind::EncryptionRequest => match parse_encryption_request(s) {
            Ok((x, n)) => Ok((PacketView::EncryptionRequest(x), n)),
            Err(e) => Err(e),
        },
        PacketKind::LoginSuccess => match parse_login_success(s) {
            Ok((x, n)) => Ok((PacketView::LoginSuccess(x), n)),
            Err(e) => Err(e),
        },
        PacketKind::SetCompression => match parse_varint(s) {
            Ok((x, n)) => Ok((PacketView::SetCompression(x), n)),
            Err(e) => Err(e),
        },
        PacketKind::LoginPluginRequest => match parse_login_plugin_request(s, v) {
            Ok((x, n)) => Ok((PacketView::LoginPluginRequest(x), n)),
            Err(e) => Err(e),
        },
        PacketKind::Disconnect => match parse_json_text(s) {
            Ok((x, n)) => Ok((PacketView::Disconnect(x), n)),
            Err(e) => Err(e),
        },
        PacketKind::PluginMessage => match parse_plugin_message(s) {
            Ok((x, n)) => Ok((PacketView::PluginMessage(x), n)),
            Err(e) => Err(e),
        },
        PacketKind::BossBar => match parse_boss_bar(s) {
            Ok((x, n)) => Ok((PacketView::BossBar(x), n)),
            Err(e) => Err(e),
        },
        PacketKind::ChatCommand => match parse_chat_command(s) {
            Ok((x, n)) => Ok((PacketView::ChatCommand(x), n)),
            Err(e) => Err(e),
        },
        PacketKind::JoinGame => match parse_join_game(s) {
            Ok((x, n)) => Ok((PacketView::JoinGame(x), n)),
            Err(e) => Err(e),
        },
        _ => Err(ProtocolError::UnknownPacket),
    }
}

/// What a body decodes as, for a packet of kind `k` under version `v`: the
/// packet, where reading it takes the whole body.
pub open spec fn decode_spec(k: PacketKind, body: Seq<u8>, v: ProtocolVersion) -> Result<PacketView, ProtocolError> {
    whole(parse_kind(k, body, v), body.len())
}

/// Whether a kind reads the rest of its body as data, so that bytes appended
/// to its body become part of that data.
pub open spec fn takes_rest(k: PacketKind) -> bool {
    k == PacketKind::PluginMessage || k == PacketKind::ChatCommand || k
        == PacketKind::LoginPluginRequest || k == PacketKind::LoginPluginResponse
}

/// Every fully parsed packet consumes exactly its frame body: a body decodes
/// only where reading the packet takes all of it, and bytes appended to a
/// body that decodes make it fail with `TrailingBytes` instead of being
/// dropped (for every kind that does not read the rest of its body as data).
pub proof fn lemma_body_consumption(k: PacketKind, body: Seq<u8>, extra: Seq<u8>, v: ProtocolVersion)
    requires
        decode_spec(k, body, v) is Ok,
        extra.len() > 0,
        !takes_rest(k),
    ensures
        parse_kind(k, body, v) matches Ok((_, n)) && n == body.len(),
        decode_spec(k, body + extra, v) == Err::<PacketView, ProtocolError>(
            ProtocolError::TrailingBytes,
        ),
{
    lemma_primitive_prefix(body, extra, 8, 0);
    match k {
        PacketKind::Handshake => lemma_handshake_prefix(body, extra),
        PacketKind::LoginStart => lemma_login_start_prefix(body, extra, v),
        PacketKind::EncryptionResponse => lemma_encryption_response_prefix(body, extra),
        PacketKind::EncryptionRequest => lemma_encryption_request_prefix(body, extra),
        PacketKind::LoginSuccess => lemma_login_success_prefix(body, extra),
        PacketKind::BossBar => lemma_boss_bar_prefix(body, extra),
        PacketKind::JoinGame => lemma_join_game_prefix(body, extra),
        _ => {},
    }
}

/// A handshake and a boss-bar packet come back from their own bytes: the
/// body `put_buf` writes decodes to the packet it was written from, taking
/// every byte of it.
pub proof fn lemma_body_round_trip(h: (i32, Seq<char>, u16, NextState), b: (u128, BossBarActionView), v: ProtocolVersion)
    requires
        encode_utf8(h.1).len() <= 3 * 255,
        action_fits(b.1),
    ensures
        decode_spec(PacketKind::Handshake, handshake_bytes(h), v) == Ok::<PacketView, ProtocolError>(
            PacketView::Handshake(h),
        ),
        decode_spec(PacketKind::BossBar, boss_bar_bytes(b), v) == Ok::<PacketView, ProtocolError>(
            PacketView::BossBar(b),
        ),
{
    let e = Seq::<u8>::empty();
    lemma_handshake_round_trip(h, e);
    assert(handshake_bytes(h) + e =~= handshake_bytes(h));
    lemma_boss_bar_round_trip(b, e);
    assert(boss_bar_bytes(b) + e =~= boss_bar_bytes(b));
}

pub open spec fn packet_result_view(r: Result<PacketType, ProtocolError>) -> Result<PacketView, ProtocolError> {
    match r {
        Ok(p) => Ok(p@),
        Err(e) => Err(e),
    }
}

fn read_handshake_status(k: PacketKind, buf: &mut Reader) -> (r: Result<PacketType, ProtocolError>)
    requires
        old(buf).wf(),
        k == PacketKind::Handshake || k == PacketKind::StatusRequest || k == PacketKind::Ping,
    ensures
        final(buf).wf(),
        read_as(
            parse_kind(k, old(buf).rest(), ProtocolVersion::Unknown),
            packet_result_view(r),
            old(buf).rest(),
            final(buf).rest(),
        ),
{
    match k {
        PacketKind::Handshake => match Handshake::from_bytes(buf) {
            Ok(p) => Ok(PacketType::Handshake(p)),
            Err(e) => Err(e),
        },
        PacketKind::StatusRequest => {
            assert(skip(old(buf).rest(), 0) =~= old(buf).rest());
            Ok(PacketType::StatusRequest(StatusRequest))
        },
        _ => match Ping::from_bytes(buf) {
            Ok(p) => {
                let v = p.0;
                assert(((v as u64) as i64) == v) by (bit_vector);
                Ok(PacketType::Ping(p))
            },
            Err(e) => Err(e),
        },
    }
}

fn read_login(k: PacketKind, buf: &mut Reader, version: ProtocolVersion) -> (r: Result<PacketType, ProtocolError>)
    requires
        old(buf).wf(),
        k == PacketKind::LoginStart || k == PacketKind::EncryptionResponse || k
            == PacketKind::LoginPluginResponse || k == PacketKind::EncryptionRequest || k
            == PacketKind::LoginSuccess || k == PacketKind::SetCompression || k
            == PacketKind::LoginPluginRequest || k == PacketKind::Disconnect,
    ensures
        final(buf).wf(),
        read_as(parse_kind(k, old(buf).rest(), version), packet_result_view(r), old(buf).rest(), final(buf).rest()),
{
    match k {
        PacketKind::LoginStart => match LoginStart::from_bytes(buf, version) {
            Ok(p) => Ok(PacketType::LoginStart(p)),
            Err(e) => Err(e),
        },
        PacketKind::EncryptionResponse => match EncryptionResponse::from_bytes(buf) {
            Ok(p) => Ok(PacketType::EncryptionResponse(p)),
            Err(e) => Err(e),
        },
        PacketKind::LoginPluginResponse => match LoginPluginResponse::from_bytes(buf) {
            Ok(p) => Ok(PacketType::LoginPluginResponse(p)),
            Err(e) => Err(e),
        },
        PacketKind::EncryptionRequest => match EncryptionRequest::from_bytes(buf) {
            Ok(p) => Ok(PacketType::EncryptionRequest(p)),
            Err(e) => Err(e),
        },
        PacketKind::LoginSuccess => match LoginSuccess::from_bytes(buf) {
            Ok(p) => Ok(PacketType::LoginSuccess(p)),
            Err(e) => Err(e),
        },
        PacketKind::SetCompression => match SetCompression::from_bytes(buf) {
            Ok(p) => Ok(PacketType::SetCompression(p)),
            Err(e) => Err(e),
        },
        PacketKind::LoginPluginRequest => match LoginPluginRequest::from_bytes(buf, version) {
            Ok(p) => Ok(PacketType::LoginPluginRequest(p)),
            Err(e) => Err(e),
        },
        _ => match Disconnect::from_bytes(buf) {
            Ok(p) => Ok(PacketType::Disconnect(p)),
            Err(e) => Err(e),
        },
    }
}

fn read_play(k: PacketKind, buf: &mut Reader) -> (r: Result<PacketType, ProtocolError>)
    requires
        old(buf).wf(),
        k == PacketKind::PluginMessage || k == PacketKind::BossBar || k == PacketKind::ChatCommand
            || k == PacketKind::JoinGame,
    ensures
        final(buf).wf(),
        read_as(
            parse_kind(k, old(buf).rest(), ProtocolVersion::Unknown),
            packet_result_view(r),
            old(buf).rest(),
            final(buf).rest(),
        ),
{
    match k {
        PacketKind::PluginMessage => match PluginMessage::from_bytes(buf) {
            Ok(p) => Ok(PacketType::PluginMessage(p)),
            Err(e) => Err(e),
        },
        PacketKind::BossBar => match BossBar::from_bytes(buf) {
            Ok(p) => Ok(PacketType::BossBar(p)),
            Err(e) => Err(e),
        },
        PacketKind::ChatCommand => match ChatCommand::from_bytes(buf) {
            Ok(p) => Ok(PacketType::ChatCommand(p)),
            Err(e) => Err(e),
        },
        _ => match JoinGame::from_bytes(buf) {
            Ok(p) => Ok(PacketType::JoinGame(p)),
            Err(e) => Err(e),
        },
    }
}

/// Decodes `body` as a packet of kind `k`; every byte of it must be read.
pub fn decode_body(k: PacketKind, body: Vec<u8>, version: ProtocolVersion) -> (r: Result<PacketType, ProtocolError>)
    ensures
        packet_result_view(r) == decode_spec(k, body@, version),
{
    let mut buf = Reader::new(body);
    let p = match k {
        PacketKind::Handshake | PacketKind::StatusRequest | PacketKind::Ping => {
            match read_handshake_status(k, &mut buf) {
                Ok(p) => p,
                Err(e) => return Err(e),
            }
        },
        PacketKind::PluginMessage | PacketKind::BossBar | PacketKind::ChatCommand
        | PacketKind::JoinGame => {
            match read_play(k, &mut buf) {
                Ok(p) => p,
                Err(e) => return Err(e),
            }
        },
        PacketKind::StatusResponse | PacketKind::Respawn => {
            return Err(ProtocolError::UnknownPacket);
        },
        _ => match read_login(k, &mut buf, version) {
            Ok(p) => p,
            Err(e) => return Err(e),
        },
    };
    if buf.remaining() != 0 {
        return Err(ProtocolError::TrailingBytes);
    }
    Ok(p)
}

/// What a received frame dispatches as in a registry slice: its decoded
/// packet where the slice has a decoder for its id, else the raw frame.
pub open spec fn dispatch_spec(reg: ProtocolRegistry, frame: Seq<u8>) -> Result<PacketView, ProtocolError> {
    if frame.len() == 0 {
        Err(ProtocolError::UnexpectedEnd)
    } else {
        match decoder_of(reg.state, reg.direction, reg.version, frame[0]) {
            Some(k) => decode_spec(k, frame.subrange(1, frame.len() as int), reg.version),
            None => Ok(PacketView::Raw(frame)),
        }
    }
}

/// Decodes a received frame as the slice dispatches it.
pub fn dispatch(reg: &ProtocolRegistry, frame: Vec<u8>) -> (r: Result<PacketType, ProtocolError>)
    requires
        reg.wf(),
    ensures
        packet_result_view(r) == dispatch_spec(*reg, frame@),
{
    if frame.len() == 0 {
        return Err(ProtocolError::UnexpectedEnd);
    }
    let mut raw = RawPacket { buffer: frame };
    match reg.get_packet(raw.id()) {
        Some(k) => {
            let body = raw.data();
            decode_body(k, body, reg.version)
        },
        None => Ok(PacketType::Raw(raw)),
    }
}

/// What a frame decodes as when a packet of kind `k` is expected: an error
/// where the kind has no id in the slice or the frame carries another id.
pub open spec fn expect_spec(reg: ProtocolRegistry, k: PacketKind, frame: Seq<u8>) -> Result<PacketView, ProtocolError> {
    match declared_id(k, reg.state, reg.direction, reg.version) {
        None => Err(ProtocolError::UnknownPacket),
        Some(id) => if frame.len() == 0 {
            Err(ProtocolError::UnexpectedEnd)
        } else if frame[0] != id {
            Err(ProtocolError::UnexpectedId)
        } else {
            decode_spec(k, frame.subrange(1, frame.len() as int), reg.version)
        },
    }
}

/// Decodes a received frame that must be a packet of kind `k`.
pub fn decode_expected(reg: &ProtocolRegistry, k: PacketKind, frame: Vec<u8>) -> (r: Result<PacketType, ProtocolError>)
    ensures
        packet_result_view(r) == expect_spec(*reg, k, frame@),
{
    let id = match reg.get_id(k) {
        Ok(id) => id,
        Err(e) => return Err(e),
    };
    if frame.len() == 0 {
        return Err(ProtocolError::UnexpectedEnd);
    }
    let mut raw = RawPacket { buffer: frame };
    if raw.id() != id {
        return Err(ProtocolError::UnexpectedId);
    }
    let body = raw.data();
    decode_body(k, body, reg.version)
}

/// The body bytes of a typed packet under version `v`.
pub open spec fn body_bytes(p: PacketView, v: ProtocolVersion) -> Seq<u8> {
    match p {
        PacketView::Raw(b) => b,
        PacketView::Handshake(h) => handshake_bytes(h),
        PacketView::StatusRequest => Seq::empty(),
        PacketView::StatusResponse(s) => byte_array_bytes(s),
        PacketView::Ping(x) => be_bytes((x as u64) as nat, 8),
        PacketView::LoginStart(l) => login_start_bytes(l, v),
        PacketView::EncryptionResponse(e) => byte_array_bytes(e.0) + byte_array_bytes(e.1),
        PacketView::LoginPluginResponse(l) => varint_bytes(l.0 as u32) + seq![bool_byte(l.1)]
            + match l.2 {
            Some(d) => if l.1 {
                d
            } else {
                Seq::empty()
            },
            None => Seq::empty(),
        },
        PacketView::EncryptionRequest(e) => string_bytes(e.0) + byte_array_bytes(e.1)
            + byte_array_bytes(e.2),
        PacketView::LoginSuccess(l) => login_success_bytes(l),
        PacketView::SetCompression(t) => varint_bytes(t as u32),
        PacketView::LoginPluginRequest(l) => varint_bytes(l.0 as u32) + string_bytes(l.1) + l.2,
        PacketView::Disconnect(r) => string_bytes(r),
        PacketView::PluginMessage(m) => plugin_message_bytes(m),
        PacketView::BossBar(b) => boss_bar_bytes(b),
        PacketView::ChatCommand(c) => chat_command_bytes(c),
        PacketView::JoinGame(j) => join_game_bytes(j),
        PacketView::Respawn(r) => respawn_bytes(r),
    }
}

/// Whether the packet can be written under version `v`: a login start from
/// 1.20.2 on must carry a UUID.
pub open spec fn writable(p: PacketView, v: ProtocolVersion) -> bool {
    match p {
        PacketView::LoginStart(l) => uuid_mandatory(v) ==> l.1 is Some,
        PacketView::Raw(b) => b.len() >= 1,
        _ => true,
    }
}

/// The frame payload of a packet: a raw frame as it is; a typed packet as
/// the id the slice gives its kind, then its body. An error where the kind
/// is not defined in the slice.
pub open spec fn encode_packet_spec(reg: ProtocolRegistry, p: PacketView) -> Result<Seq<u8>, ProtocolError> {
    match view_kind(p) {
        None => Ok(body_bytes(p, reg.version)),
        Some(k) => match declared_id(k, reg.state, reg.direction, reg.version) {
            None => Err(ProtocolError::UnknownPacket),
            Some(id) => Ok(seq![id] + body_bytes(p, reg.version)),
        },
    }
}

/// Assembles the frame payload of a packet for the slice.
pub fn encode_packet(reg: &ProtocolRegistry, p: PacketType) -> (r: Result<RawPacket, ProtocolError>)
    requires
        writable(p@, reg.version),
    ensures
        match encode_packet_spec(*reg, p@) {
            Ok(b) => r matches Ok(raw) && raw.buffer@ == b && raw.wf(),
            Err(e) => r matches Err(x) && x == e,
        },
{
    let kind = match &p {
        PacketType::Raw(_) => None,
        PacketType::Handshake(_) => Some(PacketKind::Handshake),
        PacketType::StatusRequest(_) => Some(PacketKind::StatusRequest),
        PacketType::StatusResponse(_) => Some(PacketKind::StatusResponse),
        PacketType::Ping(_) => Some(PacketKind::Ping),
        PacketType::LoginStart(_) => Some(PacketKind::LoginStart),
        PacketType::EncryptionResponse(_) => Some(PacketKind::EncryptionResponse),
        PacketType::LoginPluginResponse(_) => Some(PacketKind::LoginPluginResponse),
        PacketType::EncryptionRequest(_) => Some(PacketKind::EncryptionRequest),
        PacketType::LoginSuccess(_) => Some(PacketKind::LoginSuccess),
        PacketType::SetCompression(_) => Some(PacketKind::SetCompression),
        PacketType::LoginPluginRequest(_) => Some(PacketKind::LoginPluginRequest),
        PacketType::Disconnect(_) => Some(PacketKind::Disconnect),
        PacketType::PluginMessage(_) => Some(PacketKind::PluginMessage),
        PacketType::BossBar(_) => Some(PacketKind::BossBar),
        PacketType::ChatCommand(_) => Some(PacketKind::ChatCommand),
        PacketType::JoinGame(_) => Some(PacketKind::JoinGame),
        PacketType::Respawn(_) => Some(PacketKind::Respawn),
    };
    let id = match kind {
        None => {
            return match p {
                PacketType::Raw(raw) => Ok(raw),
                _ => Err(ProtocolError::UnknownPacket),
            };
        },
        Some(k) => match reg.get_id(k) {
            Ok(id) => id,
            Err(e) => return Err(e),
        },
    };
    let mut dst: Vec<u8> = Vec::new();
    put_u8(&mut dst, id);
    let v = reg.version;
    match &p {
        PacketType::Raw(_) => {},
        PacketType::Handshake(x) => x.put_buf(&mut dst),
        PacketType::StatusRequest(_) => {},
        PacketType::StatusResponse(x) => x.put_buf(&mut dst),
        PacketType::Ping(x) => x.put_buf(&mut dst),
        PacketType::LoginStart(x) => x.put_buf(&mut dst, v),
        PacketType::EncryptionResponse(x) => x.put_buf(&mut dst),
        PacketType::LoginPluginResponse(x) => x.put_buf(&mut dst),
        PacketType::EncryptionRequest(x) => x.put_buf(&mut dst),
        PacketType::LoginSuccess(x) => x.put_buf(&mut dst),
        PacketType::SetCompression(x) => x.put_buf(&mut dst),
        PacketType::LoginPluginRequest(x) => x.put_buf(&mut dst),
        PacketType::Disconnect(x) => x.put_buf(&mut dst),
        PacketType::PluginMessage(x) => x.put_buf(&mut dst),
        PacketType::BossBar(x) => x.put_buf(&mut dst),
        PacketType::ChatCommand(x) => x.put_buf(&mut dst),
        PacketType::JoinGame(x) => x.put_buf(&mut dst),
        PacketType::Respawn(x) => x.put_buf(&mut dst),
    }
    assert(dst@ =~= seq![id] + body_bytes(p@, v));
    Ok(RawPacket { buffer: dst })
}

} // verus!
