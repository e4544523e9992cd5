//! The decisions of a session: where the handshake leads, how a login is
//! answered, how the backend login proceeds, and what the bridge does with
//! each packet it reads.
use vstd::prelude::*;
use vstd::utf8::{encode_utf8, encode_utf8_decode_utf8};

use crate::buffer::{parse_string, put_slice, string_bytes, Reader};
use crate::component::{Component, Type};
use crate::error::ProtocolError;
use crate::handshake::{Handshake, NextState};
use crate::login::LoginStart;
use crate::online::{generate_offline_uuid, md5_of, md5_uuid_bytes, offline_seed, AuthError};
use crate::packet::PacketType;
use crate::join_game::JoinGame;
use crate::play::{BossBar, BossBarAction, BossBarActionView, PluginMessage, Respawn};
use crate::protocol::{version_of, ProtocolVersion, State};
use crate::varint::{put_uvarint, varint_bytes};

verus! {

/// The plugin channel whose payload names the server brand.
pub const BRAND_CHANNEL: &'static str = "minecraft:brand";

/// What the proxy appends to the backend's brand.
pub const BRAND_SUFFIX: &'static str = " inside a bike";

/// Longest brand read, in characters.
pub const BRAND_MAX: i32 = 32700;

/// The reason given to a client older than 1.19.2.
pub const OLD_VERSION_REASON: &'static str ="We support versions above 1.19.1";

/// Whether two strings hold the same characters.
pub fn same_text(a: &str, b: &str) -> (r: bool)
    ensures
        r == (a@ == b@),
{
    let r = crate::online::bytes_equal(a.as_bytes(), b.as_bytes());
    proof {
        encode_utf8_decode_utf8(a@);
        encode_utf8_decode_utf8(b@);
    }
    r
}

/// What a plugin message's data becomes: on the brand channel, the brand
/// string read from it with the suffix appended, written back as a string;
/// on any other channel, the data as it was.
pub open spec fn brand_rewrite_spec(channel: Seq<char>, data: Seq<u8>) -> Result<Seq<u8>, ProtocolError> {
    if channel != BRAND_CHANNEL@ {
        Ok(data)
    } else {
        match parse_string(data, BRAND_MAX) {
            Ok((brand, _)) => Ok(string_bytes(brand + BRAND_SUFFIX@)),
            Err(e) => Err(e),
        }
    }
}

proof fn lemma_encode_concat(a: Seq<char>, b: Seq<char>)
    ensures
        encode_utf8(a + b) == encode_utf8(a) + encode_utf8(b),
    decreases a.len(),
{
    if a.len() > 0 {
        assert((a + b).drop_first() =~= a.drop_first() + b);
        lemma_encode_concat(a.drop_first(), b);
        assert(encode_utf8(a + b) =~= encode_utf8(a) + encode_utf8(b));
    } else {
        assert(a + b =~= b);
    }
}

/// Rewrites the brand of a plugin message on the brand channel; any other
/// message comes back unchanged.
pub fn rewrite_brand(msg: PluginMessage) -> (r: Result<PluginMessage, ProtocolError>)
    ensures
        match brand_rewrite_spec(msg.channel@, msg.data@) {
            Ok(d) => r matches Ok(m) && m.channel@ == msg.channel@ && m.data@ == d,
            Err(e) => r matches Err(x) && x == e,
        },
{
    if !same_text(msg.channel.as_str(), BRAND_CHANNEL) {
        return Ok(msg);
    }
    let PluginMessage { channel, data } = msg;
    let ghost reader_start = data@;
    let mut reader = Reader::new(data);
    let brand = match reader.get_string(BRAND_MAX) {
        Ok(b) => b,
        Err(e) => return Err(e),
    };
    proof {
        crate::buffer::lemma_string_len(reader_start, BRAND_MAX);
        reveal_strlit(" inside a bike");
        vstd::utf8::is_ascii_chars_encode_utf8(BRAND_SUFFIX@);
    }
    let head = brand.as_str().as_bytes();
    let tail = BRAND_SUFFIX.as_bytes();
    let mut out: Vec<u8> = Vec::new();
    put_uvarint(&mut out, (head.len() as u64 + tail.len() as u64) as u32);
    put_slice(&mut out, head);
    put_slice(&mut out, tail);
    proof {
        lemma_encode_concat(brand@, BRAND_SUFFIX@);
        assert(out@ =~= string_bytes(brand@ + BRAND_SUFFIX@));
    }
    Ok(PluginMessage { channel, data: out })
}

/// The first index of `x` in `s`.
pub open spec fn first_index(s: Seq<u128>, x: u128) -> Option<nat>
    decreases s.len(),
{
    if s.len() == 0 {
        None
    } else if s[0] == x {
        Some(0)
    } else {
        match first_index(s.drop_first(), x) {
            Some(i) => Some(i + 1),
            None => None,
        }
    }
}

/// The tracked boss bars after a boss-bar packet: an added bar goes last; a
/// removed one is swapped out with the last; other actions change nothing.
pub open spec fn track_spec(bars: Seq<u128>, uuid: u128, action: BossBarActionView) -> Seq<u128> {
    match action {
        BossBarActionView::Add { .. } => bars.push(uuid),
        BossBarActionView::Remove => match first_index(bars, uuid) {
            Some(i) => bars.update(i as int, bars.last()).drop_last(),
            None => bars,
        },
        _ => bars,
    }
}

/// The state of one bridged session.
pub struct ConnectionInfo {
    pub username: String,
    pub uuid: u128,
    /// The boss bars the backend has shown and not removed.
    pub boss_bars: Vec<u128>,
}

impl ConnectionInfo {
    /// The session of a player: the UUID the client gave, or the offline one
    /// derived from the name.
    pub fn new(username: String, uuid: Option<u128>) -> (r: ConnectionInfo)
        ensures
            r.username@ == username@,
            r.boss_bars@.len() == 0,
            match uuid {
                Some(u) => r.uuid == u,
                None => r.uuid as nat == crate::buffer::be_value(
                    md5_uuid_bytes(md5_of(offline_seed(username@))),
                ),
            },
    {
        let uuid = match uuid {
            Some(u) => u,
            None => generate_offline_uuid(username.as_str()),
        };
        ConnectionInfo { username, uuid, boss_bars: Vec::new() }
    }

    /// Follows a boss-bar packet from the backend.
    pub fn track_boss_bar(&mut self, bar: &BossBar)
        ensures
            final(self).boss_bars@ == track_spec(old(self).boss_bars@, bar.uuid, bar.action@),
            final(self).username == old(self).username,
            final(self).uuid == old(self).uuid,
    {
        match &bar.action {
            BossBarAction::Add { .. } => self.boss_bars.push(bar.uuid),
            BossBarAction::Remove => {
                let mut i: usize = 0;
                let ghost s = self.boss_bars@;
                while i < self.boss_bars.len()
                    invariant
                        i <= s.len(),
                        self.boss_bars@ == s,
                        self.username == old(self).username,
                        self.uuid == old(self).uuid,
                        s == old(self).boss_bars@,
                        bar.action@ == BossBarActionView::Remove,
                        forall|j: int| 0 <= j < i ==> s[j] != bar.uuid,
                    decreases s.len() - i,
                {
                    if self.boss_bars[i] == bar.uuid {
                        proof {
                            lemma_first_index(s, bar.uuid, i as nat);
                        }
                        self.boss_bars.swap_remove(i);
                        assert(bar.action@ == BossBarActionView::Remove);
                        assert(first_index(s, bar.uuid) == Some(i as nat));
                        assert(self.boss_bars@ == s.update(i as int, s.last()).drop_last());
                        return;
                    }
                    i = i + 1;
                }
                proof {
                    lemma_first_index_none(s, bar.uuid);
                }
            },
            _ => {},
        }
    }

    /// Removes every tracked boss bar, and hands out the packets that remove
    /// them from the client, in tracking order.
    pub fn remove_boss_bars(&mut self) -> (r: Vec<BossBar>)
        ensures
            final(self).boss_bars@.len() == 0,
            final(self).username == old(self).username,
            final(self).uuid == old(self).uuid,
            r@.len() == old(self).boss_bars@.len(),
            forall|i: int|
                0 <= i < r@.len() ==> #[trigger] r@[i].uuid == old(self).boss_bars@[i]
                    && r@[i].action@ == BossBarActionView::Remove,
    {
        let mut out: Vec<BossBar> = Vec::new();
        let mut i: usize = 0;
        while i < self.boss_bars.len()
            invariant
                i <= self.boss_bars@.len(),
                self.boss_bars@ == old(self).boss_bars@,
                out@.len() == i,
                forall|j: int|
                    0 <= j < i ==> #[trigger] out@[j].uuid == old(self).boss_bars@[j]
                        && out@[j].action@ == BossBarActionView::Remove,
            decreases self.boss_bars@.len() - i,
        {
            out.push(BossBar { uuid: self.boss_bars[i], action: BossBarAction::Remove });
            i = i + 1;
        }
        self.boss_bars.clear();
        out
    }
}

proof fn lemma_first_index(s: Seq<u128>, x: u128, i: nat)
    requires
        i < s.len(),
        s[i as int] == x,
        forall|j: int| 0 <= j < i ==> s[j] != x,
    ensures
        first_index(s, x) == Some(i),
    decreases i,
{
    if i > 0 {
        lemma_first_index(s.drop_first(), x, (i - 1) as nat);
    }
}

proof fn lemma_first_index_none(s: Seq<u128>, x: u128)
    requires
        forall|j: int| 0 <= j < s.len() ==> s[j] != x,
    ensures
        first_index(s, x) is None,
    decreases s.len(),
{
    if s.len() > 0 {
        lemma_first_index_none(s.drop_first(), x);
    }
}

/// Boss-bar tracking keeps the bars shown and not yet removed: after
/// Add(u1), Add(u2), Remove(u1), Add(u3) on an empty session, with three
/// distinct bars, the session tracks u2 then u3.
pub proof fn lemma_boss_bar_tracking(u1: u128, u2: u128, u3: u128, add: BossBarActionView)
    requires
        add is Add,
        u1 != u2,
        u1 != u3,
        u2 != u3,
    ensures
        track_spec(
            track_spec(
                track_spec(track_spec(Seq::empty(), u1, add), u2, add),
                u1,
                BossBarActionView::Remove,
            ),
            u3,
            add,
        ) == seq![u2, u3],
{
    let s2 = seq![u1, u2];
    assert(track_spec(track_spec(Seq::empty(), u1, add), u2, add) =~= s2);
    assert(first_index(s2, u1) == Some(0nat));
    assert(s2.update(0, s2.last()).drop_last() =~= seq![u2]);
    assert(seq![u2].push(u3) =~= seq![u2, u3]);
}

/// What the clientbound half of the bridge does with a packet from the
/// backend.
pub enum ServerAction {
    /// Send it to the client.
    Forward(PacketType),
    /// Send it to the client, then end the session.
    ForwardAndClose(PacketType),
    /// Move the client to the fallback backend; the packet is the backend's
    /// disconnect.
    SwitchServer(PacketType),
}

impl ServerAction {
    pub open spec fn packet(&self) -> PacketType {
        match self {
            ServerAction::Forward(p) => *p,
            ServerAction::ForwardAndClose(p) => *p,
            ServerAction::SwitchServer(p) => *p,
        }
    }
}

/// The clientbound policy: the brand is rewritten, boss bars are tracked,
/// a disconnect ends the session or, with a fallback, moves it; everything
/// else is forwarded as it is.
pub fn handle_server_packet(info: &mut ConnectionInfo, packet: PacketType, has_fallback: bool) -> (r:
    Result<ServerAction, ProtocolError>)
    ensures
        final(info).username == old(info).username,
        final(info).uuid == old(info).uuid,
        match packet {
            PacketType::PluginMessage(m) => match brand_rewrite_spec(m.channel@, m.data@) {
                Ok(d) => r matches Ok(ServerAction::Forward(PacketType::PluginMessage(out)))
                    && out.channel@ == m.channel@ && out.data@ == d,
                Err(e) => r matches Err(x) && x == e,
            },
            PacketType::BossBar(b) => final(info).boss_bars@ == track_spec(
                old(info).boss_bars@,
                b.uuid,
                b.action@,
            ) && (r matches Ok(ServerAction::Forward(p)) && p@ == packet@),
            PacketType::Disconnect(_) => if has_fallback {
                r matches Ok(ServerAction::SwitchServer(p)) && p@ == packet@
            } else {
                r matches Ok(ServerAction::ForwardAndClose(p)) && p@ == packet@
            },
            _ => r matches Ok(ServerAction::Forward(p)) && p@ == packet@,
        },
        !(packet is BossBar) ==> final(info).boss_bars == old(info).boss_bars,
{
    match packet {
        PacketType::PluginMessage(m) => match rewrite_brand(m) {
            Ok(out) => Ok(ServerAction::Forward(PacketType::PluginMessage(out))),
            Err(e) => Err(e),
        },
        PacketType::BossBar(b) => {
            info.track_boss_bar(&b);
            Ok(ServerAction::Forward(PacketType::BossBar(b)))
        },
        PacketType::Disconnect(d) => {
            if has_fallback {
                Ok(ServerAction::SwitchServer(PacketType::Disconnect(d)))
            } else {
                Ok(ServerAction::ForwardAndClose(PacketType::Disconnect(d)))
            }
        },
        other => Ok(ServerAction::Forward(other)),
    }
}

/// What the client is sent when it is moved to the fallback backend: the
/// fallback's join game, a respawn derived from it, then one removal for
/// every tracked boss bar, in tracking order; the tracked bars are cleared.
pub fn switch_packets(join: JoinGame, info: &mut ConnectionInfo) -> (r: Vec<PacketType>)
    ensures
        r@.len() == 2 + old(info).boss_bars@.len(),
        r@[0] matches PacketType::JoinGame(j) && j@ == join@,
        r@[1] matches PacketType::Respawn(x) && x.dimension_type@ == join.dimension_type@
            && x.dimension_name@ == join.dimension_name@ && x.hashed_seed == join.hashed_seed
            && x.gamemode == join.gamemode && x.previous_gamemode == join.previous_gamemode
            && x.is_debug == join.is_debug && x.is_flat == join.is_flat && x.data_kept == 0
            && crate::play::death_view(x.last_death) == crate::play::death_view(join.last_death),
        forall|i: int|
            2 <= i < r@.len() ==> (#[trigger] r@[i] matches PacketType::BossBar(b) && b.uuid
                == old(info).boss_bars@[i - 2] && b.action@ == BossBarActionView::Remove),
        final(info).boss_bars@.len() == 0,
        final(info).username == old(info).username,
        final(info).uuid == old(info).uuid,
{
    let respawn = Respawn::from_joingame(&join);
    let mut out: Vec<PacketType> = Vec::new();
    out.push(PacketType::JoinGame(join));
    out.push(PacketType::Respawn(respawn));
    let ghost bars = info.boss_bars@;
    let mut i: usize = 0;
    while i < info.boss_bars.len()
        invariant
            i <= bars.len(),
            info.boss_bars@ == bars,
            bars == old(info).boss_bars@,
            info.username == old(info).username,
            info.uuid == old(info).uuid,
            out@.len() == 2 + i,
            out@[0] matches PacketType::JoinGame(j) && j@ == join@,
            out@[1] matches PacketType::Respawn(x) && x.dimension_type@ == join.dimension_type@
                && x.dimension_name@ == join.dimension_name@ && x.hashed_seed == join.hashed_seed
                && x.gamemode == join.gamemode && x.previous_gamemode == join.previous_gamemode
                && x.is_debug == join.is_debug && x.is_flat == join.is_flat && x.data_kept == 0
                && crate::play::death_view(x.last_death) == crate::play::death_view(
                join.last_death,
            ),
            forall|j: int|
                2 <= j < out@.len() ==> (#[trigger] out@[j] matches PacketType::BossBar(b)
                    && b.uuid == bars[j - 2] && b.action@ == BossBarActionView::Remove),
        decreases bars.len() - i,
    {
        let ghost before = out@;
        out.push(PacketType::BossBar(BossBar { uuid: info.boss_bars[i], action: BossBarAction::Remove }));
        assert forall|j: int| 2 <= j < out@.len() implies (#[trigger] out@[j] matches PacketType::BossBar(b)
            && b.uuid == bars[j - 2] && b.action@ == BossBarActionView::Remove) by {
            if j < before.len() {
                assert(out@[j] == before[j]);
            }
        }
        i = i + 1;
    }
    info.boss_bars.clear();
    out
}

/// Where a handshake leads: the version it names (`Unknown` for a number
/// the proxy does not know), and the state it asks for.
pub fn handshake_next(h: &Handshake) -> (r: (ProtocolVersion, State))
    ensures
        r.0 == version_of(h.protocol),
        r.1 == match h.state {
            NextState::Status => State::Status,
            NextState::Login => State::Login,
        },
{
    let v = ProtocolVersion::from(h.protocol);
    let s = match h.state {
        NextState::Status => State::Status,
        NextState::Login => State::Login,
    };
    (v, s)
}

/// How a login start is answered.
pub enum LoginDecision {
    /// Disconnect the client with this reason.
    Reject(Component),
    /// Run the online-mode key exchange first.
    Authenticate,
    /// Go on without authentication.
    Proceed,
}

/// The answer to a login start: a client older than 1.19.2 is turned away;
/// in online mode the key exchange comes next; otherwise the login goes on.
pub fn login_decision(version: ProtocolVersion, online: bool) -> (r: LoginDecision)
    ensures
        version.rank_spec() < ProtocolVersion::V1_19_2.rank_spec() ==> (r matches LoginDecision::Reject(c)
            && c.unstyled() && (c.content matches Some(Type::Text(t)) && t@ == OLD_VERSION_REASON@)),
        version.rank_spec() >= ProtocolVersion::V1_19_2.rank_spec() ==> (if online {
            r is Authenticate
        } else {
            r is Proceed
        }),
{
    if !version.at_least(ProtocolVersion::V1_19_2) {
        LoginDecision::Reject(Component::text(OLD_VERSION_REASON))
    } else if online {
        LoginDecision::Authenticate
    } else {
        LoginDecision::Proceed
    }
}

/// The compression threshold a session turns on: none where the configured
/// threshold is negative.
pub fn compression_threshold(threshold: i32) -> (r: Option<u32>)
    ensures
        threshold < 0 ==> r is None,
        threshold >= 0 ==> r == Some(threshold as u32),
{
    if threshold > -1 {
        Some(threshold as u32)
    } else {
        None
    }
}

/// What the proxy does with a packet of the backend's login.
pub enum BackendStep {
    /// Keep reading.
    Continue,
    /// Turn compression on with this threshold, then keep reading.
    EnableCompression(u32),
    /// The backend accepted the login: move to play.
    Joined,
    /// The backend refused the login with this reason.
    Disconnected(String),
    /// The backend asked for something the proxy does not do.
    Unsupported,
}

/// The backend-login policy: compression is followed, a login success joins,
/// a disconnect carries its reason back; encryption and login-plugin
/// requests and any other packet are not supported.
pub fn backend_login_step(packet: PacketType) -> (r: BackendStep)
    ensures
        match packet {
            PacketType::SetCompression(s) => if s.threshold >= 0 {
                r == BackendStep::EnableCompression(s.threshold as u32)
            } else {
                r is Continue
            },
            PacketType::LoginSuccess(_) => r is Joined,
            PacketType::Disconnect(d) => r matches BackendStep::Disconnected(reason) && reason@
                == d.reason@,
            _ => r is Unsupported,
        },
{
    match packet {
        PacketType::SetCompression(s) => match compression_threshold(s.threshold) {
            Some(t) => BackendStep::EnableCompression(t),
            None => BackendStep::Continue,
        },
        PacketType::LoginSuccess(_) => BackendStep::Joined,
        PacketType::Disconnect(d) => BackendStep::Disconnected(d.reason),
        _ => BackendStep::Unsupported,
    }
}

/// The packets that open a backend's login for a session: a handshake
/// naming the backend's address and port and asking for login, then the
/// player's login start carrying the session's UUID.
pub fn backend_login_packets(address: String, port: u16, version: ProtocolVersion, info: &ConnectionInfo) -> (r: (
    Handshake,
    LoginStart,
))
    ensures
        r.0.protocol == version.number_spec(),
        r.0.server_address@ == address@,
        r.0.port == port,
        r.0.state == NextState::Login,
        r.1.username@ == info.username@,
        r.1.uuid == Some(info.uuid),
{
    let protocol: i32 = i32::from(version);
    (
        Handshake { protocol, server_address: address, port, state: NextState::Login },
        LoginStart { username: info.username.clone(), uuid: Some(info.uuid) },
    )
}

/// What the session server's answer to a join check means.
pub enum JoinCheck {
    /// The player is authenticated.
    Joined,
    /// The client is to be disconnected with this reason.
    Refused(Component),
}

/// The reason given when the session server does not know the join.
pub const NOT_JOINED_REASON: &'static str = "Server is in online mode";

/// The reason given when the session server answers otherwise.
pub const SESSION_FAILED_REASON: &'static str = "Failed to authenticate with Mojang";

/// The meaning of the session server's HTTP status: 200 authenticates; 204
/// means the player did not join; any other status is a failure.
pub fn join_check(status: u16) -> (r: JoinCheck)
    ensures
        status == 200 ==> r is Joined,
        status == 204 ==> (r matches JoinCheck::Refused(c) && c.unstyled() && (c.content matches Some(
            Type::Text(t),
        ) && t@ == NOT_JOINED_REASON@)),
        status != 200 && status != 204 ==> (r matches JoinCheck::Refused(c) && c.unstyled() && (
        c.content matches Some(Type::Text(t)) && t@ == SESSION_FAILED_REASON@)),
{
    if status == 200 {
        JoinCheck::Joined
    } else if status == 204 {
        JoinCheck::Refused(Component::text(NOT_JOINED_REASON))
    } else {
        JoinCheck::Refused(Component::text(SESSION_FAILED_REASON))
    }
}

/// The reason given to a client whose encryption response is refused.
pub fn auth_failure_reason(e: AuthError) -> (r: Component)
    ensures
        r.unstyled(),
        r.content matches Some(Type::Text(t)) && t@ == match e {
            AuthError::InvalidVerifyToken => "Invalid verify token"@,
            AuthError::InvalidSharedSecret => "Invalid shared secret"@,
            AuthError::DecryptFailed => "Could not decrypt the encryption response"@,
        },
{
    match e {
        AuthError::InvalidVerifyToken => Component::text("Invalid verify token"),
        AuthError::InvalidSharedSecret => Component::text("Invalid shared secret"),
        AuthError::DecryptFailed => Component::text("Could not decrypt the encryption response"),
    }
}

} // verus!
