//! The packet registry: which id each packet kind has on the wire, and which
//! kind a received id decodes as, by state, direction and protocol version.
use vstd::prelude::*;

use crate::error::ProtocolError;
use crate::protocol::{Direction, ProtocolVersion, State};

verus! {

/// The packet kinds the proxy knows by type.
#[derive(Clone, Copy, Debug, PartialEq, Eq, Structural)]
pub enum PacketKind {
    Handshake,
    StatusRequest,
    StatusResponse,
    Ping,
    Disconnect,
    LoginStart,
    EncryptionResponse,
    LoginPluginResponse,
    EncryptionRequest,
    LoginSuccess,
    SetCompression,
    LoginPluginRequest,
    PluginMessage,
    JoinGame,
    Respawn,
    BossBar,
    ChatCommand,
}

/// Number of packet kinds.
pub const KIND_COUNT: usize = 17;

/// Number of ids a registry slice holds decoders for.
pub const ID_COUNT: usize = 128;

/// The kinds in declaration order.
pub open spec fn kind_at(i: nat) -> PacketKind {
    if i == 0 {
        PacketKind::Handshake
    } else if i == 1 {
        PacketKind::StatusRequest
    } else if i == 2 {
        PacketKind::StatusResponse
    } else if i == 3 {
        PacketKind::Ping
    } else if i == 4 {
        PacketKind::Disconnect
    } else if i == 5 {
        PacketKind::LoginStart
    } else if i == 6 {
        PacketKind::EncryptionResponse
    } else if i == 7 {
        PacketKind::LoginPluginResponse
    } else if i == 8 {
        PacketKind::EncryptionRequest
    } else if i == 9 {
        PacketKind::LoginSuccess
    } else if i == 10 {
        PacketKind::SetCompression
    } else if i == 11 {
        PacketKind::LoginPluginRequest
    } else if i == 12 {
        PacketKind::PluginMessage
    } else if i == 13 {
        PacketKind::JoinGame
    } else if i == 14 {
        PacketKind::Respawn
    } else if i == 15 {
        PacketKind::BossBar
    } else {
        PacketKind::ChatCommand
    }
}

impl PacketKind {
    pub open spec fn index_spec(self) -> nat {
        match self {
            PacketKind::Handshake => 0,
            PacketKind::StatusRequest => 1,
            PacketKind::StatusResponse => 2,
            PacketKind::Ping => 3,
            PacketKind::Disconnect => 4,
            PacketKind::LoginStart => 5,
            PacketKind::EncryptionResponse => 6,
            PacketKind::LoginPluginResponse => 7,
            PacketKind::EncryptionRequest => 8,
            PacketKind::LoginSuccess => 9,
            PacketKind::SetCompression => 10,
            PacketKind::LoginPluginRequest => 11,
            PacketKind::PluginMessage => 12,
            PacketKind::JoinGame => 13,
            PacketKind::Respawn => 14,
            PacketKind::BossBar => 15,
            PacketKind::ChatCommand => 16,
        }
    }

    /// Whether a received frame of this kind is decoded into its packet
    /// rather than carried as raw bytes.
    pub open spec fn dispatched(self) -> bool {
        match self {
            PacketKind::Disconnect | PacketKind::EncryptionRequest | PacketKind::LoginSuccess
            | PacketKind::SetCompression | PacketKind::LoginPluginRequest
            | PacketKind::PluginMessage | PacketKind::BossBar | PacketKind::ChatCommand => true,
            _ => false,
        }
    }

    pub fn is_dispatched(&self) -> (r: bool)
        ensures
            r == self.dispatched(),
    {
        match self {
            PacketKind::Disconnect | PacketKind::EncryptionRequest | PacketKind::LoginSuccess
            | PacketKind::SetCompression | PacketKind::LoginPluginRequest
            | PacketKind::PluginMessage | PacketKind::BossBar | PacketKind::ChatCommand => true,
            _ => false,
        }
    }

    pub fn from_index(i: usize) -> (r: PacketKind)
        requires
            i < KIND_COUNT,
        ensures
            r == kind_at(i as nat),
            r.index_spec() == i,
    {
        if i == 0 {
            PacketKind::Handshake
        } else if i == 1 {
            PacketKind::StatusRequest
        } else if i == 2 {
            PacketKind::StatusResponse
        } else if i == 3 {
            PacketKind::Ping
        } else if i == 4 {
            PacketKind::Disconnect
        } else if i == 5 {
            PacketKind::LoginStart
        } else if i == 6 {
            PacketKind::EncryptionResponse
        } else if i == 7 {
            PacketKind::LoginPluginResponse
        } else if i == 8 {
            PacketKind::EncryptionRequest
        } else if i == 9 {
            PacketKind::LoginSuccess
        } else if i == 10 {
            PacketKind::SetCompression
        } else if i == 11 {
            PacketKind::LoginPluginRequest
        } else if i == 12 {
            PacketKind::PluginMessage
        } else if i == 13 {
            PacketKind::JoinGame
        } else if i == 14 {
            PacketKind::Respawn
        } else if i == 15 {
            PacketKind::BossBar
        } else {
            PacketKind::ChatCommand
        }
    }
}

pub proof fn lemma_kind_at(i: nat)
    requires
        i < KIND_COUNT,
    ensures
        kind_at(i).index_spec() == i,
{
}

pub proof fn lemma_kind_index(k: PacketKind)
    ensures
        k.index_spec() < KIND_COUNT,
        kind_at(k.index_spec()) == k,
{
}

/// Which id table a version uses in play: 0 before 1.19.2, where no play
/// packet is declared; then 1.19.2, 1.19.3, 1.19.4 to 1.20.1, 1.20.2, and
/// 1.20.3.
pub open spec fn play_era(v: ProtocolVersion) -> nat {
    let r = v.rank_spec();
    if r < ProtocolVersion::V1_19_2.rank_spec() {
        0
    } else if r < ProtocolVersion::V1_19_3.rank_spec() {
        1
    } else if r < ProtocolVersion::V1_19_4.rank_spec() {
        2
    } else if r < ProtocolVersion::V1_20_2.rank_spec() {
        3
    } else if r < ProtocolVersion::V1_20_3.rank_spec() {
        4
    } else {
        5
    }
}

/// The id of a clientbound play packet in each era, from 1.19.2 on.
pub open spec fn play_clientbound_id(k: PacketKind, era: nat) -> Option<u8> {
    if era == 0 {
        None
    } else {
        match k {
            PacketKind::Disconnect => Some(
                if era == 1 {
                    0x19u8
                } else if era == 2 {
                    0x17u8
                } else if era == 3 {
                    0x1au8
                } else {
                    0x1bu8
                },
            ),
            PacketKind::PluginMessage => Some(
                if era == 1 {
                    0x16u8
                } else if era == 2 {
                    0x15u8
                } else if era == 3 {
                    0x17u8
                } else {
                    0x18u8
                },
            ),
            PacketKind::JoinGame => Some(
                if era == 1 {
                    0x25u8
                } else if era == 2 {
                    0x24u8
                } else if era == 3 {
                    0x28u8
                } else {
                    0x29u8
                },
            ),
            PacketKind::Respawn => Some(
                if era == 1 {
                    0x3eu8
                } else if era == 2 {
                    0x3du8
                } else if era == 3 {
                    0x41u8
                } else if era == 4 {
                    0x43u8
                } else {
                    0x45u8
                },
            ),
            PacketKind::BossBar => Some(
                if era == 3 {
                    0x0bu8
                } else {
                    0x0au8
                },
            ),
            _ => None,
        }
    }
}

/// The declaration list: the id of kind `k` in the given state, direction
/// and version, where the kind is defined there. Handshake, status and login
/// ids do not vary with the version; play ids follow the play era.
pub open spec fn declared_id(k: PacketKind, s: State, d: Direction, v: ProtocolVersion) -> Option<u8> {
    match (k, s, d) {
        (PacketKind::Handshake, State::Handshake, Direction::Serverbound) => Some(0x00),
        (PacketKind::StatusRequest, State::Status, Direction::Serverbound) => Some(0x00),
        (PacketKind::StatusResponse, State::Status, Direction::Clientbound) => Some(0x00),
        (PacketKind::Ping, State::Status, _) => Some(0x01),
        (PacketKind::Disconnect, State::Login, Direction::Clientbound) => Some(0x00),
        (PacketKind::LoginStart, State::Login, Direction::Serverbound) => Some(0x00),
        (PacketKind::EncryptionResponse, State::Login, Direction::Serverbound) => Some(0x01),
        (PacketKind::LoginPluginResponse, State::Login, Direction::Serverbound) => Some(0x02),
        (PacketKind::EncryptionRequest, State::Login, Direction::Clientbound) => Some(0x01),
        (PacketKind::LoginSuccess, State::Login, Direction::Clientbound) => Some(0x02),
        (PacketKind::SetCompression, State::Login, Direction::Clientbound) => Some(0x03),
        (PacketKind::LoginPluginRequest, State::Login, Direction::Clientbound) => Some(0x04),
        (PacketKind::ChatCommand, State::Play, Direction::Serverbound) => if play_era(v) == 0 {
            None
        } else {
            Some(0x04)
        },
        (_, State::Play, Direction::Clientbound) => play_clientbound_id(k, play_era(v)),
        _ => None,
    }
}

/// The kind that id `id` decodes as, among the first `n` kinds: the last of
/// them that is dispatched and has that id.
pub open spec fn decoder_among(n: nat, s: State, d: Direction, v: ProtocolVersion, id: u8) -> Option<PacketKind>
    decreases n,
{
    if n == 0 {
        None
    } else {
        let k = kind_at((n - 1) as nat);
        if k.dispatched() && declared_id(k, s, d, v) == Some(id) {
            Some(k)
        } else {
            decoder_among((n - 1) as nat, s, d, v, id)
        }
    }
}

/// The kind that a received id decodes as; `None` means the frame is
/// carried as raw bytes.
pub open spec fn decoder_of(s: State, d: Direction, v: ProtocolVersion, id: u8) -> Option<PacketKind> {
    decoder_among(KIND_COUNT as nat, s, d, v, id)
}

fn era_of(v: ProtocolVersion) -> (r: u8)
    ensures
        r == play_era(v),
{
    if !v.at_least(ProtocolVersion::V1_19_2) {
        0
    } else if !v.at_least(ProtocolVersion::V1_19_3) {
        1
    } else if !v.at_least(ProtocolVersion::V1_19_4) {
        2
    } else if !v.at_least(ProtocolVersion::V1_20_2) {
        3
    } else if !v.at_least(ProtocolVersion::V1_20_3) {
        4
    } else {
        5
    }
}

/// The id of kind `k`, where it is defined in the given triple.
pub fn packet_id(k: PacketKind, s: State, d: Direction, v: ProtocolVersion) -> (r: Option<u8>)
    ensures
        r == declared_id(k, s, d, v),
{
    let era = era_of(v);
    match (k, s, d) {
        (PacketKind::Handshake, State::Handshake, Direction::Serverbound) => Some(0x00),
        (PacketKind::StatusRequest, State::Status, Direction::Serverbound) => Some(0x00),
        (PacketKind::StatusResponse, State::Status, Direction::Clientbound) => Some(0x00),
        (PacketKind::Ping, State::Status, _) => Some(0x01),
        (PacketKind::Disconnect, State::Login, Direction::Clientbound) => Some(0x00),
        (PacketKind::LoginStart, State::Login, Direction::Serverbound) => Some(0x00),
        (PacketKind::EncryptionResponse, State::Login, Direction::Serverbound) => Some(0x01),
        (PacketKind::LoginPluginResponse, State::Login, Direction::Serverbound) => Some(0x02),
        (PacketKind::EncryptionRequest, State::Login, Direction::Clientbound) => Some(0x01),
        (PacketKind::LoginSuccess, State::Login, Direction::Clientbound) => Some(0x02),
        (PacketKind::SetCompression, State::Login, Direction::Clientbound) => Some(0x03),
        (PacketKind::LoginPluginRequest, State::Login, Direction::Clientbound) => Some(0x04),
        (PacketKind::ChatCommand, State::Play, Direction::Serverbound) => if era == 0 {
            None
        } else {
            Some(0x04)
        },
        (_, State::Play, Direction::Clientbound) => {
            if era == 0 {
                return None;
            }
            match k {
                PacketKind::Disconnect => Some(
                    if era == 1 {
                        0x19
                    } else if era == 2 {
                        0x17
                    } else if era == 3 {
                        0x1a
                    } else {
                        0x1b
                    },
                ),
                PacketKind::PluginMessage => Some(
                    if era == 1 {
                        0x16
                    } else if era == 2 {
                        0x15
                    } else if era == 3 {
                        0x17
                    } else {
                        0x18
                    },
                ),
                PacketKind::JoinGame => Some(
                    if era == 1 {
                        0x25
                    } else if era == 2 {
                        0x24
                    } else if era == 3 {
                        0x28
                    } else {
                        0x29
                    },
                ),
                PacketKind::Respawn => Some(
                    if era == 1 {
                        0x3e
                    } else if era == 2 {
                        0x3d
                    } else if era == 3 {
                        0x41
                    } else if era == 4 {
                        0x43
                    } else {
                        0x45
                    },
                ),
                PacketKind::BossBar => Some(
                    if era == 3 {
                        0x0b
                    } else {
                        0x0a
                    },
                ),
                _ => None,
            }
        },
        _ => None,
    }
}

/// One slice of the registry: one state, direction and version. It maps
/// each id below 128 to the kind it decodes as.
pub struct ProtocolRegistry {
    pub state: State,
    pub direction: Direction,
    pub version: ProtocolVersion,
    pub decoders: Vec<Option<PacketKind>>,
}

impl ProtocolRegistry {
    pub open spec fn wf(&self) -> bool {
        &&& self.decoders@.len() == ID_COUNT
        &&& forall|id: int|
            0 <= id < ID_COUNT ==> #[trigger] self.decoders@[id] == decoder_of(
                self.state,
                self.direction,
                self.version,
                id as u8,
            )
    }

    /// Builds the slice from the declaration list, kind by kind, a later
    /// kind taking an id over from an earlier one.
    pub fn new(state: State, direction: Direction, version: ProtocolVersion) -> (r: Self)
        ensures
            r.wf(),
            r.state == state,
            r.direction == direction,
            r.version == version,
    {
        let mut decoders: Vec<Option<PacketKind>> = Vec::new();
        while decoders.len() < ID_COUNT
            invariant
                decoders@.len() <= ID_COUNT,
                forall|id: int| 0 <= id < decoders@.len() ==> #[trigger] decoders@[id] is None,
            decreases ID_COUNT - decoders@.len(),
        {
            decoders.push(None);
        }
        let mut i: usize = 0;
        while i < KIND_COUNT
            invariant
                i <= KIND_COUNT,
                decoders@.len() == ID_COUNT,
                forall|id: int|
                    0 <= id < ID_COUNT ==> #[trigger] decoders@[id] == decoder_among(
                        i as nat,
                        state,
                        direction,
                        version,
                        id as u8,
                    ),
            decreases KIND_COUNT - i,
        {
            let k = PacketKind::from_index(i);
            if k.is_dispatched() {
                match packet_id(k, state, direction, version) {
                    Some(id) => {
                        if (id as usize) < ID_COUNT {
                            decoders.set(id as usize, Some(k));
                        }
                    },
                    None => {},
                }
            }
            proof {
                assert forall|id: int| 0 <= id < ID_COUNT implies #[trigger] decoders@[id]
                    == decoder_among((i + 1) as nat, state, direction, version, id as u8) by {
                    assert((id as u8) as int == id);
                }
            }
            i = i + 1;
        }
        ProtocolRegistry { state, direction, version, decoders }
    }

    /// The kind a received id decodes as; `None` for a raw frame.
    pub fn get_packet(&self, id: u8) -> (r: Option<PacketKind>)
        requires
            self.wf(),
        ensures
            r == decoder_of(self.state, self.direction, self.version, id),
    {
        if (id as usize) < ID_COUNT {
            self.decoders[id as usize]
        } else {
            proof {
                lemma_decoder_small(KIND_COUNT as nat, self.state, self.direction, self.version, id);
            }
            None
        }
    }

    /// The id to send kind `k` with; an error where the kind is not defined
    /// for this slice.
    pub fn get_id(&self, k: PacketKind) -> (r: Result<u8, ProtocolError>)
        ensures
            match declared_id(k, self.state, self.direction, self.version) {
                Some(id) => r == Ok::<u8, ProtocolError>(id),
                None => r == Err::<u8, ProtocolError>(ProtocolError::UnknownPacket),
            },
    {
        match packet_id(k, self.state, self.direction, self.version) {
            Some(id) => Ok(id),
            None => Err(ProtocolError::UnknownPacket),
        }
    }
}

/// Every declared id is below 128, so no id at or above it decodes.
proof fn lemma_decoder_small(n: nat, s: State, d: Direction, v: ProtocolVersion, id: u8)
    requires
        id >= 128,
    ensures
        decoder_among(n, s, d, v, id) is None,
    decreases n,
{
    if n > 0 {
        let k = kind_at((n - 1) as nat);
        lemma_decoder_small((n - 1) as nat, s, d, v, id);
    }
}

proof fn lemma_decoder_among(n: nat, k: PacketKind, s: State, d: Direction, v: ProtocolVersion, id: u8)
    requires
        k.index_spec() < n <= KIND_COUNT,
        k.dispatched(),
        declared_id(k, s, d, v) == Some(id),
    ensures
        decoder_among(n, s, d, v, id) matches Some(j) && j.dispatched() && declared_id(j, s, d, v)
            == Some(id) && k.index_spec() <= j.index_spec(),
    decreases n,
{
    let j = kind_at((n - 1) as nat);
    lemma_kind_at((n - 1) as nat);
    if !(j.dispatched() && declared_id(j, s, d, v) == Some(id)) {
        lemma_decoder_among((n - 1) as nat, k, s, d, v, id);
    }
}

/// No two dispatched kinds share an id in any state, direction and version.
pub proof fn lemma_ids_distinct(k: PacketKind, o: PacketKind, s: State, d: Direction, v: ProtocolVersion)
    requires
        k != o,
        k.dispatched(),
        o.dispatched(),
        declared_id(k, s, d, v) is Some,
    ensures
        declared_id(o, s, d, v) != declared_id(k, s, d, v),
{
}

/// Typekey lookup and decoder lookup agree: for every dispatched kind with
/// an id in a (state, direction, version) triple, that id decodes as that
/// very kind there.
pub proof fn lemma_registry_coverage(k: PacketKind, s: State, d: Direction, v: ProtocolVersion)
    requires
        k.dispatched(),
        declared_id(k, s, d, v) is Some,
    ensures
        decoder_of(s, d, v, declared_id(k, s, d, v)->Some_0) == Some(k),
{
    let id = declared_id(k, s, d, v)->Some_0;
    lemma_kind_index(k);
    assert forall|o: PacketKind| o != k && o.dispatched() implies declared_id(o, s, d, v) != Some(
        id,
    ) by {
        lemma_ids_distinct(k, o, s, d, v);
    }
    lemma_decoder_among(KIND_COUNT as nat, k, s, d, v, id);
}

} // verus!
