//! Protocol states, directions and versions.
use vstd::prelude::*;

verus! {

/// The phase a connection is in; it decides which packets its ids name.
#[derive(Clone, Copy, Debug, PartialEq, Eq, Structural)]
pub enum State {
    Handshake,
    Status,
    Login,
    Play,
}

impl State {
    pub const HANDSHAKE: u8 = 0;
    pub const STATUS: u8 = 1;
    pub const LOGIN: u8 = 2;
    pub const PLAY: u8 = 3;

    pub open spec fn id_spec(self) -> u8 {
        match self {
            State::Handshake => 0,
            State::Status => 1,
            State::Login => 2,
            State::Play => 3,
        }
    }

    /// The state with wire number `id`.
    pub fn from_id(id: u8) -> (r: State)
        requires
            id <= 3,
        ensures
            r.id_spec() == id,
    {
        if id == Self::HANDSHAKE {
            State::Handshake
        } else if id == Self::STATUS {
            State::Status
        } else if id == Self::LOGIN {
            State::Login
        } else {
            State::Play
        }
    }
}

/// Which way packets travel: to the client or to the server.
#[derive(Clone, Copy, Debug, PartialEq, Eq, Structural)]
pub enum Direction {
    Clientbound,
    Serverbound,
}

impl Direction {
    pub const CLIENTBOUND: bool = true;
    pub const SERVERBOUND: bool = false;

    pub open spec fn opposite_spec(self) -> Direction {
        match self {
            Direction::Clientbound => Direction::Serverbound,
            Direction::Serverbound => Direction::Clientbound,
        }
    }

    /// The other direction.
    pub fn opposite(self) -> (r: Direction)
        ensures
            r == self.opposite_spec(),
    {
        match self {
            Direction::Clientbound => Direction::Serverbound,
            Direction::Serverbound => Direction::Clientbound,
        }
    }
}

/// Every known release from 1.7.2 to 1.20.3, in order, and `Unknown`
/// before them all.
#[derive(Clone, Copy, Debug, PartialEq, Eq, Structural)]
pub enum ProtocolVersion {
    Unknown,
    V1_7_2,
    V1_7_6,
    V1_8,
    V1_9,
    V1_9_1,
    V1_9_2,
    V1_9_4,
    V1_10,
    V1_11,
    V1_11_1,
    V1_12,
    V1_12_1,
    V1_12_2,
    V1_13,
    V1_13_1,
    V1_13_2,
    V1_14,
    V1_14_1,
    V1_14_2,
    V1_14_3,
    V1_14_4,
    V1_15,
    V1_15_1,
    V1_15_2,
    V1_16,
    V1_16_1,
    V1_16_2,
    V1_16_3,
    V1_16_4,
    V1_17,
    V1_17_1,
    V1_18,
    V1_18_2,
    V1_19,
    V1_19_2,
    V1_19_3,
    V1_19_4,
    V1_20,
    V1_20_2,
    V1_20_3,
}

pub const V1_20_3: i32 = 765;
pub const V1_20_2: i32 = 764;
pub const V1_20: i32 = 763;
pub const V1_19_4: i32 = 762;
pub const V1_19_3: i32 = 761;
pub const V1_19_2: i32 = 760;
pub const V1_19: i32 = 759;
pub const V1_18_2: i32 = 758;
pub const V1_18: i32 = 757;
pub const V1_17_1: i32 = 756;
pub const V1_17: i32 = 755;
pub const V1_16_4: i32 = 754;
pub const V1_16_3: i32 = 753;
pub const V1_16_2: i32 = 751;
pub const V1_16_1: i32 = 736;
pub const V1_16: i32 = 735;
pub const V1_15_2: i32 = 578;
pub const V1_15_1: i32 = 575;
pub const V1_15: i32 = 573;
pub const V1_14_4: i32 = 498;
pub const V1_14_3: i32 = 490;
pub const V1_14_2: i32 = 485;
pub const V1_14_1: i32 = 480;
pub const V1_14: i32 = 477;
pub const V1_13_2: i32 = 404;
pub const V1_13_1: i32 = 401;
pub const V1_13: i32 = 393;
pub const V1_12_2: i32 = 340;
pub const V1_12_1: i32 = 338;
pub const V1_12: i32 = 335;
pub const V1_11_1: i32 = 316;
pub const V1_11: i32 = 315;
pub const V1_10: i32 = 210;
pub const V1_9_4: i32 = 110;
pub const V1_9_2: i32 = 109;
pub const V1_9_1: i32 = 108;
pub const V1_9: i32 = 107;
pub const V1_8: i32 = 47;
pub const V1_7_6: i32 = 5;
pub const V1_7_2: i32 = 4;

/// Number of protocol versions, `Unknown` included.
pub const VERSION_COUNT: usize = 41;

impl ProtocolVersion {
    /// The version's place in release order; `Unknown` is 0.
    pub open spec fn rank_spec(self) -> nat {
        match self {
            ProtocolVersion::Unknown => 0,
            ProtocolVersion::V1_7_2 => 1,
            ProtocolVersion::V1_7_6 => 2,
            ProtocolVersion::V1_8 => 3,
            ProtocolVersion::V1_9 => 4,
            ProtocolVersion::V1_9_1 => 5,
            ProtocolVersion::V1_9_2 => 6,
            ProtocolVersion::V1_9_4 => 7,
            ProtocolVersion::V1_10 => 8,
            ProtocolVersion::V1_11 => 9,
            ProtocolVersion::V1_11_1 => 10,
            ProtocolVersion::V1_12 => 11,
            ProtocolVersion::V1_12_1 => 12,
            ProtocolVersion::V1_12_2 => 13,
            ProtocolVersion::V1_13 => 14,
            ProtocolVersion::V1_13_1 => 15,
            ProtocolVersion::V1_13_2 => 16,
            ProtocolVersion::V1_14 => 17,
            ProtocolVersion::V1_14_1 => 18,
            ProtocolVersion::V1_14_2 => 19,
            ProtocolVersion::V1_14_3 => 20,
            ProtocolVersion::V1_14_4 => 21,
            ProtocolVersion::V1_15 => 22,
            ProtocolVersion::V1_15_1 => 23,
            ProtocolVersion::V1_15_2 => 24,
            ProtocolVersion::V1_16 => 25,
            ProtocolVersion::V1_16_1 => 26,
            ProtocolVersion::V1_16_2 => 27,
            ProtocolVersion::V1_16_3 => 28,
            ProtocolVersion::V1_16_4 => 29,
            ProtocolVersion::V1_17 => 30,
            ProtocolVersion::V1_17_1 => 31,
            ProtocolVersion::V1_18 => 32,
            ProtocolVersion::V1_18_2 => 33,
            ProtocolVersion::V1_19 => 34,
            ProtocolVersion::V1_19_2 => 35,
            ProtocolVersion::V1_19_3 => 36,
            ProtocolVersion::V1_19_4 => 37,
            ProtocolVersion::V1_20 => 38,
            ProtocolVersion::V1_20_2 => 39,
            ProtocolVersion::V1_20_3 => 40,
        }
    }

    /// The protocol number of the version on the wire; -1 for `Unknown`.
    pub open spec fn number_spec(self) -> i32 {
        match self {
            ProtocolVersion::Unknown => -1i32,
            ProtocolVersion::V1_7_2 => V1_7_2,
            ProtocolVersion::V1_7_6 => V1_7_6,
            ProtocolVersion::V1_8 => V1_8,
            ProtocolVersion::V1_9 => V1_9,
            ProtocolVersion::V1_9_1 => V1_9_1,
            ProtocolVersion::V1_9_2 => V1_9_2,
            ProtocolVersion::V1_9_4 => V1_9_4,
            ProtocolVersion::V1_10 => V1_10,
            ProtocolVersion::V1_11 => V1_11,
            ProtocolVersion::V1_11_1 => V1_11_1,
            ProtocolVersion::V1_12 => V1_12,
            ProtocolVersion::V1_12_1 => V1_12_1,
            ProtocolVersion::V1_12_2 => V1_12_2,
            ProtocolVersion::V1_13 => V1_13,
            ProtocolVersion::V1_13_1 => V1_13_1,
            ProtocolVersion::V1_13_2 => V1_13_2,
            ProtocolVersion::V1_14 => V1_14,
            ProtocolVersion::V1_14_1 => V1_14_1,
            ProtocolVersion::V1_14_2 => V1_14_2,
            ProtocolVersion::V1_14_3 => V1_14_3,
            ProtocolVersion::V1_14_4 => V1_14_4,
            ProtocolVersion::V1_15 => V1_15,
            ProtocolVersion::V1_15_1 => V1_15_1,
            ProtocolVersion::V1_15_2 => V1_15_2,
            ProtocolVersion::V1_16 => V1_16,
            ProtocolVersion::V1_16_1 => V1_16_1,
            ProtocolVersion::V1_16_2 => V1_16_2,
            ProtocolVersion::V1_16_3 => V1_16_3,
            ProtocolVersion::V1_16_4 => V1_16_4,
            ProtocolVersion::V1_17 => V1_17,
            ProtocolVersion::V1_17_1 => V1_17_1,
            ProtocolVersion::V1_18 => V1_18,
            ProtocolVersion::V1_18_2 => V1_18_2,
            ProtocolVersion::V1_19 => V1_19,
            ProtocolVersion::V1_19_2 => V1_19_2,
            ProtocolVersion::V1_19_3 => V1_19_3,
            ProtocolVersion::V1_19_4 => V1_19_4,
            ProtocolVersion::V1_20 => V1_20,
            ProtocolVersion::V1_20_2 => V1_20_2,
            ProtocolVersion::V1_20_3 => V1_20_3,
        }
    }

    pub fn rank(&self) -> (r: usize)
        ensures
            r == self.rank_spec(),
            r < VERSION_COUNT,
    {
        match self {
            ProtocolVersion::Unknown => 0,
            ProtocolVersion::V1_7_2 => 1,
            ProtocolVersion::V1_7_6 => 2,
            ProtocolVersion::V1_8 => 3,
            ProtocolVersion::V1_9 => 4,
            ProtocolVersion::V1_9_1 => 5,
            ProtocolVersion::V1_9_2 => 6,
            ProtocolVersion::V1_9_4 => 7,
            ProtocolVersion::V1_10 => 8,
            ProtocolVersion::V1_11 => 9,
            ProtocolVersion::V1_11_1 => 10,
            ProtocolVersion::V1_12 => 11,
            ProtocolVersion::V1_12_1 => 12,
            ProtocolVersion::V1_12_2 => 13,
            ProtocolVersion::V1_13 => 14,
            ProtocolVersion::V1_13_1 => 15,
            ProtocolVersion::V1_13_2 => 16,
            ProtocolVersion::V1_14 => 17,
            ProtocolVersion::V1_14_1 => 18,
            ProtocolVersion::V1_14_2 => 19,
            ProtocolVersion::V1_14_3 => 20,
            ProtocolVersion::V1_14_4 => 21,
            ProtocolVersion::V1_15 => 22,
            ProtocolVersion::V1_15_1 => 23,
            ProtocolVersion::V1_15_2 => 24,
            ProtocolVersion::V1_16 => 25,
            ProtocolVersion::V1_16_1 => 26,
            ProtocolVersion::V1_16_2 => 27,
            ProtocolVersion::V1_16_3 => 28,
            ProtocolVersion::V1_16_4 => 29,
            ProtocolVersion::V1_17 => 30,
            ProtocolVersion::V1_17_1 => 31,
            ProtocolVersion::V1_18 => 32,
            ProtocolVersion::V1_18_2 => 33,
            ProtocolVersion::V1_19 => 34,
            ProtocolVersion::V1_19_2 => 35,
            ProtocolVersion::V1_19_3 => 36,
            ProtocolVersion::V1_19_4 => 37,
            ProtocolVersion::V1_20 => 38,
            ProtocolVersion::V1_20_2 => 39,
            ProtocolVersion::V1_20_3 => 40,
        }
    }

    /// The version of place `rank` in release order.
    pub fn from_rank(rank: usize) -> (r: ProtocolVersion)
        requires
            rank < VERSION_COUNT,
        ensures
            r.rank_spec() == rank,
    {
        if rank == 0 {
            ProtocolVersion::Unknown
        } else if rank == 1 {
            ProtocolVersion::V1_7_2
        } else if rank == 2 {
            ProtocolVersion::V1_7_6
        } else if rank == 3 {
            ProtocolVersion::V1_8
        } else if rank == 4 {
            ProtocolVersion::V1_9
        } else if rank == 5 {
            ProtocolVersion::V1_9_1
        } else if rank == 6 {
            ProtocolVersion::V1_9_2
        } else if rank == 7 {
            ProtocolVersion::V1_9_4
        } else if rank == 8 {
            ProtocolVersion::V1_10
        } else if rank == 9 {
            ProtocolVersion::V1_11
        } else if rank == 10 {
            ProtocolVersion::V1_11_1
        } else if rank == 11 {
            ProtocolVersion::V1_12
        } else if rank == 12 {
            ProtocolVersion::V1_12_1
        } else if rank == 13 {
            ProtocolVersion::V1_12_2
        } else if rank == 14 {
            ProtocolVersion::V1_13
        } else if rank == 15 {
            ProtocolVersion::V1_13_1
        } else if rank == 16 {
            ProtocolVersion::V1_13_2
        } else if rank == 17 {
            ProtocolVersion::V1_14
        } else if rank == 18 {
            ProtocolVersion::V1_14_1
        } else if rank == 19 {
            ProtocolVersion::V1_14_2
        } else if rank == 20 {
            ProtocolVersion::V1_14_3
        } else if rank == 21 {
            ProtocolVersion::V1_14_4
        } else if rank == 22 {
            ProtocolVersion::V1_15
        } else if rank == 23 {
            ProtocolVersion::V1_15_1
        } else if rank == 24 {
            ProtocolVersion::V1_15_2
        } else if rank == 25 {
            ProtocolVersion::V1_16
        } else if rank == 26 {
            ProtocolVersion::V1_16_1
        } else if rank == 27 {
            ProtocolVersion::V1_16_2
        } else if rank == 28 {
            ProtocolVersion::V1_16_3
        } else if rank == 29 {
            ProtocolVersion::V1_16_4
        } else if rank == 30 {
            ProtocolVersion::V1_17
        } else if rank == 31 {
            ProtocolVersion::V1_17_1
        } else if rank == 32 {
            ProtocolVersion::V1_18
        } else if rank == 33 {
            ProtocolVersion::V1_18_2
        } else if rank == 34 {
            ProtocolVersion::V1_19
        } else if rank == 35 {
            ProtocolVersion::V1_19_2
        } else if rank == 36 {
            ProtocolVersion::V1_19_3
        } else if rank == 37 {
            ProtocolVersion::V1_19_4
        } else if rank == 38 {
            ProtocolVersion::V1_20
        } else if rank == 39 {
            ProtocolVersion::V1_20_2
        } else {
            ProtocolVersion::V1_20_3
        }
    }

    /// Whether this version is `other` or a later one.
    pub fn at_least(&self, other: ProtocolVersion) -> (r: bool)
        ensures
            r == (self.rank_spec() >= other.rank_spec()),
    {
        self.rank() >= other.rank()
    }
}

/// The version whose protocol number is `id`; `Unknown` for any other number.
pub open spec fn version_of(id: i32) -> ProtocolVersion {
    if id == V1_20_3 {
        ProtocolVersion::V1_20_3
    } else if id == V1_20_2 {
        ProtocolVersion::V1_20_2
    } else if id == V1_20 {
        ProtocolVersion::V1_20
    } else if id == V1_19_4 {
        ProtocolVersion::V1_19_4
    } else if id == V1_19_3 {
        ProtocolVersion::V1_19_3
    } else if id == V1_19_2 {
        ProtocolVersion::V1_19_2
    } else if id == V1_19 {
        ProtocolVersion::V1_19
    } else if id == V1_18_2 {
        ProtocolVersion::V1_18_2
    } else if id == V1_18 {
        ProtocolVersion::V1_18
    } else if id == V1_17_1 {
        ProtocolVersion::V1_17_1
    } else if id == V1_17 {
        ProtocolVersion::V1_17
    } else if id == V1_16_4 {
        ProtocolVersion::V1_16_4
    } else if id == V1_16_3 {
        ProtocolVersion::V1_16_3
    } else if id == V1_16_2 {
        ProtocolVersion::V1_16_2
    } else if id == V1_16_1 {
        ProtocolVersion::V1_16_1
    } else if id == V1_16 {
        ProtocolVersion::V1_16
    } else if id == V1_15_2 {
        ProtocolVersion::V1_15_2
    } else if id == V1_15_1 {
        ProtocolVersion::V1_15_1
    } else if id == V1_15 {
        ProtocolVersion::V1_15
    } else if id == V1_14_4 {
        ProtocolVersion::V1_14_4
    } else if id == V1_14_3 {
        ProtocolVersion::V1_14_3
    } else if id == V1_14_2 {
        ProtocolVersion::V1_14_2
    } else if id == V1_14_1 {
        ProtocolVersion::V1_14_1
    } else if id == V1_14 {
        ProtocolVersion::V1_14
    } else if id == V1_13_2 {
        ProtocolVersion::V1_13_2
    } else if id == V1_13_1 {
        ProtocolVersion::V1_13_1
    } else if id == V1_13 {
        ProtocolVersion::V1_13
    } else if id == V1_12_2 {
        ProtocolVersion::V1_12_2
    } else if id == V1_12_1 {
        ProtocolVersion::V1_12_1
    } else if id == V1_12 {
        ProtocolVersion::V1_12
    } else if id == V1_11_1 {
        ProtocolVersion::V1_11_1
    } else if id == V1_11 {
        ProtocolVersion::V1_11
    } else if id == V1_10 {
        ProtocolVersion::V1_10
    } else if id == V1_9_4 {
        ProtocolVersion::V1_9_4
    } else if id == V1_9_2 {
        ProtocolVersion::V1_9_2
    } else if id == V1_9_1 {
        ProtocolVersion::V1_9_1
    } else if id == V1_9 {
        ProtocolVersion::V1_9
    } else if id == V1_8 {
        ProtocolVersion::V1_8
    } else if id == V1_7_6 {
        ProtocolVersion::V1_7_6
    } else if id == V1_7_2 {
        ProtocolVersion::V1_7_2
    } else {
        ProtocolVersion::Unknown
    }
}

impl vstd::std_specs::convert::FromSpecImpl<i32> for ProtocolVersion {
    open spec fn obeys_from_spec() -> bool {
        true
    }

    open spec fn from_spec(v: i32) -> Self {
        version_of(v)
    }
}

impl std::convert::From<i32> for ProtocolVersion {
    fn from(value: i32) -> Self {
        if value == V1_20_3 {
            ProtocolVersion::V1_20_3
        } else if value == V1_20_2 {
            ProtocolVersion::V1_20_2
        } else if value == V1_20 {
            ProtocolVersion::V1_20
        } else if value == V1_19_4 {
            ProtocolVersion::V1_19_4
        } else if value == V1_19_3 {
            ProtocolVersion::V1_19_3
        } else if value == V1_19_2 {
            ProtocolVersion::V1_19_2
        } else if value == V1_19 {
            ProtocolVersion::V1_19
        } else if value == V1_18_2 {
            ProtocolVersion::V1_18_2
        } else if value == V1_18 {
            ProtocolVersion::V1_18
        } else if value == V1_17_1 {
            ProtocolVersion::V1_17_1
        } else if value == V1_17 {
            ProtocolVersion::V1_17
        } else if value == V1_16_4 {
            ProtocolVersion::V1_16_4
        } else if value == V1_16_3 {
            ProtocolVersion::V1_16_3
        } else if value == V1_16_2 {
            ProtocolVersion::V1_16_2
        } else if value == V1_16_1 {
            ProtocolVersion::V1_16_1
        } else if value == V1_16 {
            ProtocolVersion::V1_16
        } else if value == V1_15_2 {
            ProtocolVersion::V1_15_2
        } else if value == V1_15_1 {
            ProtocolVersion::V1_15_1
        } else if value == V1_15 {
            ProtocolVersion::V1_15
        } else if value == V1_14_4 {
            ProtocolVersion::V1_14_4
        } else if value == V1_14_3 {
            ProtocolVersion::V1_14_3
        } else if value == V1_14_2 {
            ProtocolVersion::V1_14_2
        } else if value == V1_14_1 {
            ProtocolVersion::V1_14_1
        } else if value == V1_14 {
            ProtocolVersion::V1_14
        } else if value == V1_13_2 {
            ProtocolVersion::V1_13_2
        } else if value == V1_13_1 {
            ProtocolVersion::V1_13_1
        } else if value == V1_13 {
            ProtocolVersion::V1_13
        } else if value == V1_12_2 {
            ProtocolVersion::V1_12_2
        } else if value == V1_12_1 {
            ProtocolVersion::V1_12_1
        } else if value == V1_12 {
            ProtocolVersion::V1_12
        } else if value == V1_11_1 {
            ProtocolVersion::V1_11_1
        } else if value == V1_11 {
            ProtocolVersion::V1_11
        } else if value == V1_10 {
            ProtocolVersion::V1_10
        } else if value == V1_9_4 {
            ProtocolVersion::V1_9_4
        } else if value == V1_9_2 {
            ProtocolVersion::V1_9_2
        } else if value == V1_9_1 {
            ProtocolVersion::V1_9_1
        } else if value == V1_9 {
            ProtocolVersion::V1_9
        } else if value == V1_8 {
            ProtocolVersion::V1_8
        } else if value == V1_7_6 {
            ProtocolVersion::V1_7_6
        } else if value == V1_7_2 {
            ProtocolVersion::V1_7_2
        } else {
            ProtocolVersion::Unknown
        }
    }
}

impl vstd::std_specs::convert::FromSpecImpl<ProtocolVersion> for i32 {
    open spec fn obeys_from_spec() -> bool {
        true
    }

    open spec fn from_spec(v: ProtocolVersion) -> Self {
        v.number_spec()
    }
}

impl std::convert::From<ProtocolVersion> for i32 {
    fn from(val: ProtocolVersion) -> Self {
        match val {
            ProtocolVersion::Unknown => -1i32,
            ProtocolVersion::V1_7_2 => V1_7_2,
            ProtocolVersion::V1_7_6 => V1_7_6,
            ProtocolVersion::V1_8 => V1_8,
            ProtocolVersion::V1_9 => V1_9,
            ProtocolVersion::V1_9_1 => V1_9_1,
            ProtocolVersion::V1_9_2 => V1_9_2,
            ProtocolVersion::V1_9_4 => V1_9_4,
            ProtocolVersion::V1_10 => V1_10,
            ProtocolVersion::V1_11 => V1_11,
            ProtocolVersion::V1_11_1 => V1_11_1,
            ProtocolVersion::V1_12 => V1_12,
            ProtocolVersion::V1_12_1 => V1_12_1,
            ProtocolVersion::V1_12_2 => V1_12_2,
            ProtocolVersion::V1_13 => V1_13,
            ProtocolVersion::V1_13_1 => V1_13_1,
            ProtocolVersion::V1_13_2 => V1_13_2,
            ProtocolVersion::V1_14 => V1_14,
            ProtocolVersion::V1_14_1 => V1_14_1,
            ProtocolVersion::V1_14_2 => V1_14_2,
            ProtocolVersion::V1_14_3 => V1_14_3,
            ProtocolVersion::V1_14_4 => V1_14_4,
            ProtocolVersion::V1_15 => V1_15,
            ProtocolVersion::V1_15_1 => V1_15_1,
            ProtocolVersion::V1_15_2 => V1_15_2,
            ProtocolVersion::V1_16 => V1_16,
            ProtocolVersion::V1_16_1 => V1_16_1,
            ProtocolVersion::V1_16_2 => V1_16_2,
            ProtocolVersion::V1_16_3 => V1_16_3,
            ProtocolVersion::V1_16_4 => V1_16_4,
            ProtocolVersion::V1_17 => V1_17,
            ProtocolVersion::V1_17_1 => V1_17_1,
            ProtocolVersion::V1_18 => V1_18,
            ProtocolVersion::V1_18_2 => V1_18_2,
            ProtocolVersion::V1_19 => V1_19,
            ProtocolVersion::V1_19_2 => V1_19_2,
            ProtocolVersion::V1_19_3 => V1_19_3,
            ProtocolVersion::V1_19_4 => V1_19_4,
            ProtocolVersion::V1_20 => V1_20,
            ProtocolVersion::V1_20_2 => V1_20_2,
            ProtocolVersion::V1_20_3 => V1_20_3,
        }
    }
}

/// Every known version's protocol number leads back to it.
pub proof fn lemma_version_number_round_trip(v: ProtocolVersion)
    requires
        v != ProtocolVersion::Unknown,
    ensures
        version_of(v.number_spec()) == v,
{
}

} // verus!
