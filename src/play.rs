//! Packets of the play phase that the proxy reads or writes.
use vstd::prelude::*;

use crate::buffer::{
    be_bytes, bool_byte, byte_array_bytes, lemma_be_round_trip, lemma_pow256_values,
    lemma_primitive_prefix, lemma_primitive_round_trip, lemma_skip_append,
    lemma_skip_skip, parse_be, parse_byte_array,
    parse_json_text, parse_string, parse_u8, parse_varint, put_be, put_bool, put_byte_array,
    put_slice, put_string, put_u8, read_as, skip, string_bytes, view_result, Parsed, Reader,
};
use crate::error::ProtocolError;
use crate::login::IDENTIFIER_MAX;
use vstd::utf8::encode_utf8;
use crate::varint::{put_uvarint, put_varint, varint_bytes};

verus! {

broadcast use lemma_skip_skip, lemma_skip_append;

/// A message on a plugin channel; its data is kept as bytes.
pub struct PluginMessage {
    pub channel: String,
    pub data: Vec<u8>,
}

impl View for PluginMessage {
    type V = (Seq<char>, Seq<u8>);

    open spec fn view(&self) -> Self::V {
        (self.channel@, self.data@)
    }
}

/// A plugin message: the channel identifier, then the rest of the body.
#[verifier::opaque]
pub open spec fn parse_plugin_message(s: Seq<u8>) -> Parsed<(Seq<char>, Seq<u8>)> {
    match parse_string(s, IDENTIFIER_MAX) {
        Err(e) => Err(e),
        Ok((channel, n1)) => Ok(((channel, skip(s, n1)), s.len())),
    }
}

pub open spec fn plugin_message_bytes(m: (Seq<char>, Seq<u8>)) -> Seq<u8> {
    string_bytes(m.0) + m.1
}

impl PluginMessage {
    pub fn from_bytes(buf: &mut Reader) -> (r: Result<PluginMessage, ProtocolError>)
        requires
            old(buf).wf(),
        ensures
            final(buf).wf(),
            read_as(parse_plugin_message(old(buf).rest()), view_result(r), old(buf).rest(), final(buf).rest()),
    {
        reveal(parse_plugin_message);
        let ghost s0 = old(buf).rest();
        let channel = match buf.get_identifier() {
            Ok(v) => v,
            Err(e) => return Err(e),
        };
        let data = buf.rest_bytes();
        assert(buf.rest() =~= skip(s0, s0.len()));
        Ok(PluginMessage { channel, data })
    }

    pub fn put_buf(&self, dst: &mut Vec<u8>)
        ensures
            final(dst)@ == old(dst)@ + plugin_message_bytes(self@),
    {
        put_string(dst, self.channel.as_str());
        put_slice(dst, self.data.as_slice());
        assert(final(dst)@ =~= old(dst)@ + plugin_message_bytes(self@));
    }
}

#[derive(Clone, Copy, Debug, PartialEq, Eq, Structural)]
pub enum BossBarColor {
    Pink,
    Blue,
    Red,
    Green,
    Yellow,
    Purple,
    White,
}

impl BossBarColor {
    pub open spec fn id_spec(self) -> u8 {
        match self {
            BossBarColor::Pink => 0,
            BossBarColor::Blue => 1,
            BossBarColor::Red => 2,
            BossBarColor::Green => 3,
            BossBarColor::Yellow => 4,
            BossBarColor::Purple => 5,
            BossBarColor::White => 6,
        }
    }

    /// The colour of wire number `value`, which must be below 7.
    pub fn try_from_id(value: u8) -> (r: Result<BossBarColor, ProtocolError>)
        ensures
            value < 7 ==> (r matches Ok(c) && c.id_spec() == value),
            value >= 7 ==> r == Err::<BossBarColor, ProtocolError>(ProtocolError::InvalidTag),
    {
        if value == 0 {
            Ok(BossBarColor::Pink)
        } else if value == 1 {
            Ok(BossBarColor::Blue)
        } else if value == 2 {
            Ok(BossBarColor::Red)
        } else if value == 3 {
            Ok(BossBarColor::Green)
        } else if value == 4 {
            Ok(BossBarColor::Yellow)
        } else if value == 5 {
            Ok(BossBarColor::Purple)
        } else if value == 6 {
            Ok(BossBarColor::White)
        } else {
            Err(ProtocolError::InvalidTag)
        }
    }

    pub fn id(&self) -> (r: u8)
        ensures
            r == self.id_spec(),
    {
        match self {
            BossBarColor::Pink => 0,
            BossBarColor::Blue => 1,
            BossBarColor::Red => 2,
            BossBarColor::Green => 3,
            BossBarColor::Yellow => 4,
            BossBarColor::Purple => 5,
            BossBarColor::White => 6,
        }
    }
}

#[derive(Clone, Copy, Debug, PartialEq, Eq, Structural)]
pub enum BossBarDivision {
    NoDivision,
    SixNotches,
    TenNotches,
    TwelveNotches,
    TwentyNotches,
}

impl BossBarDivision {
    pub open spec fn id_spec(self) -> u8 {
        match self {
            BossBarDivision::NoDivision => 0,
            BossBarDivision::SixNotches => 1,
            BossBarDivision::TenNotches => 2,
            BossBarDivision::TwelveNotches => 3,
            BossBarDivision::TwentyNotches => 4,
        }
    }

    /// The division of wire number `value`, which must be below 5.
    pub fn try_from_id(value: u8) -> (r: Result<BossBarDivision, ProtocolError>)
        ensures
            value < 5 ==> (r matches Ok(d) && d.id_spec() == value),
            value >= 5 ==> r == Err::<BossBarDivision, ProtocolError>(ProtocolError::InvalidTag),
    {
        if value == 0 {
            Ok(BossBarDivision::NoDivision)
        } else if value == 1 {
            Ok(BossBarDivision::SixNotches)
        } else if value == 2 {
            Ok(BossBarDivision::TenNotches)
        } else if value == 3 {
            Ok(BossBarDivision::TwelveNotches)
        } else if value == 4 {
            Ok(BossBarDivision::TwentyNotches)
        } else {
            Err(ProtocolError::InvalidTag)
        }
    }

    pub fn id(&self) -> (r: u8)
        ensures
            r == self.id_spec(),
    {
        match self {
            BossBarDivision::NoDivision => 0,
            BossBarDivision::SixNotches => 1,
            BossBarDivision::TenNotches => 2,
            BossBarDivision::TwelveNotches => 3,
            BossBarDivision::TwentyNotches => 4,
        }
    }
}

/// What a boss-bar packet does. Health is kept as the bits of its
/// single-precision float; titles as the JSON text of their component.
pub enum BossBarAction {
    Add { title: String, health: u32, color: BossBarColor, division: BossBarDivision, flags: u8 },
    Remove,
    UpdateHealth(u32),
    UpdateTitle(String),
    UpdateStyle(BossBarColor, BossBarDivision),
    UpdateFlags(u8),
}

pub enum BossBarActionView {
    Add { title: Seq<char>, health: u32, color: BossBarColor, division: BossBarDivision, flags: u8 },
    Remove,
    UpdateHealth(u32),
    UpdateTitle(Seq<char>),
    UpdateStyle(BossBarColor, BossBarDivision),
    UpdateFlags(u8),
}

impl View for BossBarAction {
    type V = BossBarActionView;

    open spec fn view(&self) -> BossBarActionView {
        match self {
            BossBarAction::Add { title, health, color, division, flags } => BossBarActionView::Add {
                title: title@,
                health: *health,
                color: *color,
                division: *division,
                flags: *flags,
            },
            BossBarAction::Remove => BossBarActionView::Remove,
            BossBarAction::UpdateHealth(h) => BossBarActionView::UpdateHealth(*h),
            BossBarAction::UpdateTitle(t) => BossBarActionView::UpdateTitle(t@),
            BossBarAction::UpdateStyle(c, d) => BossBarActionView::UpdateStyle(*c, *d),
            BossBarAction::UpdateFlags(f) => BossBarActionView::UpdateFlags(*f),
        }
    }
}

pub struct BossBar {
    pub uuid: u128,
    pub action: BossBarAction,
}

impl View for BossBar {
    type V = (u128, BossBarActionView);

    open spec fn view(&self) -> Self::V {
        (self.uuid, self.action@)
    }
}

/// The colour of a wire number, where it names one.
pub open spec fn color_of(b: u8) -> Option<BossBarColor> {
    if b == 0 {
        Some(BossBarColor::Pink)
    } else if b == 1 {
        Some(BossBarColor::Blue)
    } else if b == 2 {
        Some(BossBarColor::Red)
    } else if b == 3 {
        Some(BossBarColor::Green)
    } else if b == 4 {
        Some(BossBarColor::Yellow)
    } else if b == 5 {
        Some(BossBarColor::Purple)
    } else if b == 6 {
        Some(BossBarColor::White)
    } else {
        None
    }
}

/// The division of a wire number, where it names one.
pub open spec fn division_of(b: u8) -> Option<BossBarDivision> {
    if b == 0 {
        Some(BossBarDivision::NoDivision)
    } else if b == 1 {
        Some(BossBarDivision::SixNotches)
    } else if b == 2 {
        Some(BossBarDivision::TenNotches)
    } else if b == 3 {
        Some(BossBarDivision::TwelveNotches)
    } else if b == 4 {
        Some(BossBarDivision::TwentyNotches)
    } else {
        None
    }
}

/// A colour byte then a division byte.
pub open spec fn parse_style(s: Seq<u8>) -> Parsed<(BossBarColor, BossBarDivision)> {
    match parse_u8(s) {
        Err(e) => Err(e),
        Ok((c, n1)) => match parse_u8(skip(s, n1)) {
            Err(e) => Err(e),
            Ok((d, n2)) => match color_of(c) {
                None => Err(ProtocolError::InvalidTag),
                Some(color) => match division_of(d) {
                    None => Err(ProtocolError::InvalidTag),
                    Some(division) => Ok(((color, division), n1 + n2)),
                },
            },
        },
    }
}

/// The action of a boss-bar packet, after its UUID.
#[verifier::opaque]
pub open spec fn parse_boss_bar_action(s: Seq<u8>) -> Parsed<BossBarActionView> {
    match parse_u8(s) {
        Err(e) => Err(e),
        Ok((tag, n1)) => {
            let t = skip(s, n1);
            if tag == 0 {
                match parse_json_text(t) {
                    Err(e) => Err(e),
                    Ok((title, n2)) => match parse_be(skip(t, n2), 4) {
                        Err(e) => Err(e),
                        Ok((health, n3)) => match parse_style(skip(t, n2 + n3)) {
                            Err(e) => Err(e),
                            Ok(((color, division), n4)) => match parse_u8(skip(t, n2 + n3 + n4)) {
                                Err(e) => Err(e),
                                Ok((flags, n5)) => Ok((
                                    BossBarActionView::Add {
                                        title,
                                        health: health as u32,
                                        color,
                                        division,
                                        flags,
                                    },
                                    n1 + n2 + n3 + n4 + n5,
                                )),
                            },
                        },
                    },
                }
            } else if tag == 1 {
                Ok((BossBarActionView::Remove, n1))
            } else if tag == 2 {
                match parse_be(t, 4) {
                    Err(e) => Err(e),
                    Ok((health, n2)) => Ok((BossBarActionView::UpdateHealth(health as u32), n1 + n2)),
                }
            } else if tag == 3 {
                match parse_json_text(t) {
                    Err(e) => Err(e),
                    Ok((title, n2)) => Ok((BossBarActionView::UpdateTitle(title), n1 + n2)),
                }
            } else if tag == 4 {
                match parse_style(t) {
                    Err(e) => Err(e),
                    Ok(((color, division), n2)) => Ok(
                        (BossBarActionView::UpdateStyle(color, division), n1 + n2),
                    ),
                }
            } else if tag == 5 {
                match parse_u8(t) {
                    Err(e) => Err(e),
                    Ok((flags, n2)) => Ok((BossBarActionView::UpdateFlags(flags), n1 + n2)),
                }
            } else {
                Err(ProtocolError::InvalidTag)
            }
        },
    }
}

/// A boss-bar packet: the bar's UUID, then its action.
#[verifier::opaque]
pub open spec fn parse_boss_bar(s: Seq<u8>) -> Parsed<(u128, BossBarActionView)> {
    match parse_be(s, 16) {
        Err(e) => Err(e),
        Ok((u, n1)) => match parse_boss_bar_action(skip(s, n1)) {
            Err(e) => Err(e),
            Ok((a, n2)) => Ok(((u as u128, a), n1 + n2)),
        },
    }
}

pub open spec fn boss_bar_action_bytes(a: BossBarActionView) -> Seq<u8> {
    match a {
        BossBarActionView::Add { title, health, color, division, flags } => seq![0u8]
            + string_bytes(title) + be_bytes(health as nat, 4) + seq![
            color.id_spec(),
            division.id_spec(),
            flags,
        ],
        BossBarActionView::Remove => seq![1u8],
        BossBarActionView::UpdateHealth(h) => seq![2u8] + be_bytes(h as nat, 4),
        BossBarActionView::UpdateTitle(t) => seq![3u8] + string_bytes(t),
        BossBarActionView::UpdateStyle(c, d) => seq![4u8, c.id_spec(), d.id_spec()],
        BossBarActionView::UpdateFlags(f) => seq![5u8, f],
    }
}

pub open spec fn boss_bar_bytes(b: (u128, BossBarActionView)) -> Seq<u8> {
    be_bytes(b.0 as nat, 16) + boss_bar_action_bytes(b.1)
}

proof fn lemma_style_prefix(s: Seq<u8>, t: Seq<u8>)
    requires
        parse_style(s) is Ok,
    ensures
        parse_style(s + t) == parse_style(s),
        parse_style(s)->Ok_0.1 <= s.len(),
{
    lemma_primitive_prefix(s, t, 0, 0);
    let n1 = parse_u8(s)->Ok_0.1;
    lemma_primitive_prefix(skip(s, n1), t, 0, 0);
}

proof fn lemma_boss_bar_action_prefix(s: Seq<u8>, t: Seq<u8>)
    requires
        parse_boss_bar_action(s) is Ok,
    ensures
        parse_boss_bar_action(s + t) == parse_boss_bar_action(s),
        parse_boss_bar_action(s)->Ok_0.1 <= s.len(),
{
    reveal(parse_boss_bar_action);
    lemma_primitive_prefix(s, t, 4, 0);
    let (tag, n1) = parse_u8(s)->Ok_0;
    let r = skip(s, n1);
    lemma_primitive_prefix(r, t, 4, 0);
    if tag == 0 {
        let n2 = parse_json_text(r)->Ok_0.1;
        lemma_primitive_prefix(skip(r, n2), t, 4, 0);
        let n3 = parse_be(skip(r, n2), 4)->Ok_0.1;
        lemma_style_prefix(skip(r, n2 + n3), t);
        let n4 = parse_style(skip(r, n2 + n3))->Ok_0.1;
        lemma_primitive_prefix(skip(r, n2 + n3 + n4), t, 0, 0);
    } else if tag == 4 {
        lemma_style_prefix(r, t);
    }
}

/// A boss-bar packet reads the same with bytes appended.
pub proof fn lemma_boss_bar_prefix(s: Seq<u8>, t: Seq<u8>)
    requires
        parse_boss_bar(s) is Ok,
    ensures
        parse_boss_bar(s + t) == parse_boss_bar(s),
{
    reveal(parse_boss_bar);
    lemma_primitive_prefix(s, t, 16, 0);
    let n1 = parse_be(s, 16)->Ok_0.1;
    lemma_boss_bar_action_prefix(skip(s, n1), t);
}

/// Whether every title an action carries fits a length prefix.
pub open spec fn action_fits(a: BossBarActionView) -> bool {
    match a {
        BossBarActionView::Add { title, .. } => encode_utf8(title).len() <= i32::MAX,
        BossBarActionView::UpdateTitle(title) => encode_utf8(title).len() <= i32::MAX,
        _ => true,
    }
}

proof fn lemma_style_round_trip(c: BossBarColor, d: BossBarDivision, t: Seq<u8>)
    ensures
        parse_style(seq![c.id_spec(), d.id_spec()] + t) == Ok::<
            ((BossBarColor, BossBarDivision), nat),
            ProtocolError,
        >(((c, d), 2nat)),
{
    let s = seq![c.id_spec(), d.id_spec()] + t;
    assert(s[0] == c.id_spec());
    assert(skip(s, 1)[0] == d.id_spec());
}

#[verifier::spinoff_prover]
#[verifier::rlimit(60)]
proof fn lemma_add_round_trip(
    title: Seq<char>,
    health: u32,
    color: BossBarColor,
    division: BossBarDivision,
    flags: u8,
    t: Seq<u8>,
)
    requires
        encode_utf8(title).len() <= i32::MAX,
    ensures
        ({
            let a = BossBarActionView::Add { title, health, color, division, flags };
            parse_boss_bar_action(boss_bar_action_bytes(a) + t) == Ok::<
                (BossBarActionView, nat),
                ProtocolError,
            >((a, boss_bar_action_bytes(a).len()))
        }),
{
    reveal(parse_boss_bar_action);
    lemma_pow256_values();
    let a = BossBarActionView::Add { title, health, color, division, flags };
    let s = boss_bar_action_bytes(a) + t;
    let r = skip(s, 1);
    let style = seq![color.id_spec(), division.id_spec()];
    let tail = style + (seq![flags] + t);
    let after_title = be_bytes(health as nat, 4) + tail;
    lemma_be_round_trip(health as nat, 4);
    assert(s =~= seq![0u8] + (string_bytes(title) + after_title));
    assert(s[0] == 0u8);
    assert(r =~= string_bytes(title) + after_title);
    lemma_primitive_round_trip(after_title, 0, 0, title, 0, false, 0);
    let n2 = string_bytes(title).len();
    assert(skip(r, n2) =~= after_title);
    lemma_primitive_round_trip(tail, health as nat, 4, title, 0, false, 0);
    assert(skip(r, n2 + 4) =~= tail);
    lemma_style_round_trip(color, division, seq![flags] + t);
    assert(skip(r, n2 + 4 + 2) =~= seq![flags] + t);
    assert(boss_bar_action_bytes(a).len() == 1 + n2 + 4 + 2 + 1);
}

proof fn lemma_action_round_trip(a: BossBarActionView, t: Seq<u8>)
    requires
        action_fits(a),
    ensures
        parse_boss_bar_action(boss_bar_action_bytes(a) + t) == Ok::<(BossBarActionView, nat), ProtocolError>(
            (a, boss_bar_action_bytes(a).len()),
        ),
{
    if let BossBarActionView::Add { title, health, color, division, flags } = a {
        lemma_add_round_trip(title, health, color, division, flags, t);
        return;
    }
    reveal(parse_boss_bar_action);
    lemma_pow256_values();
    let s = boss_bar_action_bytes(a) + t;
    let r = skip(s, 1);
    assert(s[0] == boss_bar_action_bytes(a)[0]);
    match a {
        BossBarActionView::UpdateHealth(h) => {
            assert(r =~= be_bytes(h as nat, 4) + t);
            lemma_primitive_round_trip(t, h as nat, 4, Seq::empty(), 0, false, 0);
            lemma_be_round_trip(h as nat, 4);
        },
        BossBarActionView::UpdateTitle(title) => {
            assert(r =~= string_bytes(title) + t);
            lemma_primitive_round_trip(t, 0, 0, title, 0, false, 0);
        },
        BossBarActionView::UpdateStyle(c, d) => {
            assert(r =~= seq![c.id_spec(), d.id_spec()] + t);
            lemma_style_round_trip(c, d, t);
        },
        BossBarActionView::UpdateFlags(f) => {
            assert(r =~= seq![f] + t);
        },
        _ => {},
    }
}

/// What `BossBar::put_buf` writes, `BossBar::from_bytes` reads back whole,
/// whatever follows it.
pub proof fn lemma_boss_bar_round_trip(b: (u128, BossBarActionView), t: Seq<u8>)
    requires
        action_fits(b.1),
    ensures
        parse_boss_bar(boss_bar_bytes(b) + t) == Ok::<((u128, BossBarActionView), nat), ProtocolError>(
            (b, boss_bar_bytes(b).len()),
        ),
{
    reveal(parse_boss_bar);
    lemma_pow256_values();
    let rest = boss_bar_action_bytes(b.1) + t;
    let s = boss_bar_bytes(b) + t;
    assert(s =~= be_bytes(b.0 as nat, 16) + rest);
    lemma_primitive_round_trip(rest, b.0 as nat, 16, Seq::empty(), 0, false, 0);
    lemma_be_round_trip(b.0 as nat, 16);
    assert(skip(s, 16) =~= rest);
    lemma_action_round_trip(b.1, t);
}

fn get_style(buf: &mut Reader) -> (r: Result<(BossBarColor, BossBarDivision), ProtocolError>)
    requires
        old(buf).wf(),
    ensures
        final(buf).wf(),
        read_as(parse_style(old(buf).rest()), r, old(buf).rest(), final(buf).rest()),
{
    let c = match buf.get_u8() {
        Ok(v) => v,
        Err(e) => return Err(e),
    };
    let d = match buf.get_u8() {
        Ok(v) => v,
        Err(e) => return Err(e),
    };
    let color = match BossBarColor::try_from_id(c) {
        Ok(v) => v,
        Err(e) => return Err(e),
    };
    let division = match BossBarDivision::try_from_id(d) {
        Ok(v) => v,
        Err(e) => return Err(e),
    };
    proof {
        assert(color_of(c) == Some(color));
        assert(division_of(d) == Some(division));
    }
    Ok((color, division))
}

fn get_boss_bar_action(buf: &mut Reader) -> (r: Result<BossBarAction, ProtocolError>)
    requires
        old(buf).wf(),
    ensures
        final(buf).wf(),
        read_as(parse_boss_bar_action(old(buf).rest()), view_result(r), old(buf).rest(), final(buf).rest()),
{
    reveal(parse_boss_bar_action);
    let tag = match buf.get_u8() {
        Ok(v) => v,
        Err(e) => return Err(e),
    };
    if tag == 0 {
        let title = match buf.get_component() {
            Ok(v) => v,
            Err(e) => return Err(e),
        };
        let health = match buf.get_be(4) {
            Ok(v) => v as u32,
            Err(e) => return Err(e),
        };
        let (color, division) = match get_style(buf) {
            Ok(v) => v,
            Err(e) => return Err(e),
        };
        let flags = match buf.get_u8() {
            Ok(v) => v,
            Err(e) => return Err(e),
        };
        Ok(BossBarAction::Add { title, health, color, division, flags })
    } else if tag == 1 {
        Ok(BossBarAction::Remove)
    } else if tag == 2 {
        match buf.get_be(4) {
            Ok(v) => Ok(BossBarAction::UpdateHealth(v as u32)),
            Err(e) => Err(e),
        }
    } else if tag == 3 {
        match buf.get_component() {
            Ok(v) => Ok(BossBarAction::UpdateTitle(v)),
            Err(e) => Err(e),
        }
    } else if tag == 4 {
        match get_style(buf) {
            Ok((c, d)) => Ok(BossBarAction::UpdateStyle(c, d)),
            Err(e) => Err(e),
        }
    } else if tag == 5 {
        match buf.get_u8() {
            Ok(v) => Ok(BossBarAction::UpdateFlags(v)),
            Err(e) => Err(e),
        }
    } else {
        Err(ProtocolError::InvalidTag)
    }
}

impl BossBar {
    pub fn from_bytes(buf: &mut Reader) -> (r: Result<BossBar, ProtocolError>)
        requires
            old(buf).wf(),
        ensures
            final(buf).wf(),
            read_as(parse_boss_bar(old(buf).rest()), view_result(r), old(buf).rest(), final(buf).rest()),
    {
        reveal(parse_boss_bar);
        let uuid = match buf.get_uuid() {
            Ok(v) => v,
            Err(e) => return Err(e),
        };
        match get_boss_bar_action(buf) {
            Ok(action) => Ok(BossBar { uuid, action }),
            Err(e) => Err(e),
        }
    }

    pub fn put_buf(&self, dst: &mut Vec<u8>)
        ensures
            final(dst)@ == old(dst)@ + boss_bar_bytes(self@),
    {
        put_be(dst, self.uuid, 16);
        match &self.action {
            BossBarAction::Add { title, health, color, division, flags } => {
                put_u8(dst, 0);
                put_string(dst, title.as_str());
                put_be(dst, *health as u128, 4);
                put_u8(dst, color.id());
                put_u8(dst, division.id());
                put_u8(dst, *flags);
            },
            BossBarAction::Remove => put_u8(dst, 1),
            BossBarAction::UpdateHealth(h) => {
                put_u8(dst, 2);
                put_be(dst, *h as u128, 4);
            },
            BossBarAction::UpdateTitle(t) => {
                put_u8(dst, 3);
                put_string(dst, t.as_str());
            },
            BossBarAction::UpdateStyle(c, d) => {
                put_u8(dst, 4);
                put_u8(dst, c.id());
                put_u8(dst, d.id());
            },
            BossBarAction::UpdateFlags(f) => {
                put_u8(dst, 5);
                put_u8(dst, *f);
            },
        }
        assert(final(dst)@ =~= old(dst)@ + boss_bar_bytes(self@));
    }
}

/// A command typed by the player, with its argument signatures.
pub struct ChatCommand {
    pub command: String,
    pub timestamp: i64,
    pub salt: i64,
    pub arguments: Vec<(String, Vec<u8>)>,
    pub message_count: i32,
    pub acknowledged: Vec<u8>,
}

pub open spec fn arguments_view(a: Seq<(String, Vec<u8>)>) -> Seq<(Seq<char>, Seq<u8>)> {
    Seq::new(a.len(), |i: int| (a[i].0@, a[i].1@))
}

impl View for ChatCommand {
    type V = (Seq<char>, i64, i64, Seq<(Seq<char>, Seq<u8>)>, i32, Seq<u8>);

    open spec fn view(&self) -> Self::V {
        (
            self.command@,
            self.timestamp,
            self.salt,
            arguments_view(self.arguments@),
            self.message_count,
            self.acknowledged@,
        )
    }
}

/// An argument signature: the argument's name, then its signature bytes.
#[verifier::opaque]
pub open spec fn parse_argument(s: Seq<u8>) -> Parsed<(Seq<char>, Seq<u8>)> {
    match parse_string(s, 256) {
        Err(e) => Err(e),
        Ok((name, n1)) => match parse_byte_array(skip(s, n1)) {
            Err(e) => Err(e),
            Ok((sig, n2)) => Ok(((name, sig), n1 + n2)),
        },
    }
}

/// `count` argument signatures one after the other.
pub open spec fn parse_arguments(s: Seq<u8>, count: nat) -> Parsed<Seq<(Seq<char>, Seq<u8>)>>
    decreases count,
{
    if count == 0 {
        Ok((Seq::empty(), 0))
    } else {
        match parse_argument(s) {
            Err(e) => Err(e),
            Ok((a, n)) => match parse_arguments(skip(s, n), (count - 1) as nat) {
                Err(e) => Err(e),
                Ok((rest, m)) => Ok((seq![a] + rest, n + m)),
            },
        }
    }
}

pub open spec fn parse_argument_array(s: Seq<u8>) -> Parsed<Seq<(Seq<char>, Seq<u8>)>> {
    match parse_varint(s) {
        Err(e) => Err(e),
        Ok((count, n1)) => if count < 0 {
            Err(ProtocolError::InvalidLength)
        } else {
            match parse_arguments(skip(s, n1), count as nat) {
                Err(e) => Err(e),
                Ok((a, n2)) => Ok((a, n1 + n2)),
            }
        },
    }
}

/// A chat command: the command of at most 256 characters, timestamp, salt,
/// argument signatures, message count, and the rest of the body as the
/// acknowledgement bits.
#[verifier::opaque]
pub open spec fn parse_chat_command(s: Seq<u8>) -> Parsed<
    (Seq<char>, i64, i64, Seq<(Seq<char>, Seq<u8>)>, i32, Seq<u8>),
> {
    match parse_string(s, 256) {
        Err(e) => Err(e),
        Ok((command, n1)) => match parse_be(skip(s, n1), 8) {
            Err(e) => Err(e),
            Ok((ts, n2)) => match parse_be(skip(s, n1 + n2), 8) {
                Err(e) => Err(e),
                Ok((salt, n3)) => match parse_argument_array(skip(s, n1 + n2 + n3)) {
                    Err(e) => Err(e),
                    Ok((args, n4)) => match parse_varint(skip(s, n1 + n2 + n3 + n4)) {
                        Err(e) => Err(e),
                        Ok((count, n5)) => Ok((
                            (
                                command,
                                (ts as u64) as i64,
                                (salt as u64) as i64,
                                args,
                                count,
                                skip(s, n1 + n2 + n3 + n4 + n5),
                            ),
                            s.len(),
                        )),
                    },
                },
            },
        },
    }
}

fn get_argument(buf: &mut Reader) -> (r: Result<(String, Vec<u8>), ProtocolError>)
    requires
        old(buf).wf(),
    ensures
        final(buf).wf(),
        read_as(
            parse_argument(old(buf).rest()),
            match r {
                Ok(a) => Ok((a.0@, a.1@)),
                Err(e) => Err(e),
            },
            old(buf).rest(),
            final(buf).rest(),
        ),
{
    reveal(parse_argument);
    let name = match buf.get_string(256) {
        Ok(v) => v,
        Err(e) => return Err(e),
    };
    match buf.get_bytes() {
        Ok(sig) => Ok((name, sig)),
        Err(e) => Err(e),
    }
}

fn get_arguments(buf: &mut Reader) -> (r: Result<Vec<(String, Vec<u8>)>, ProtocolError>)
    requires
        old(buf).wf(),
    ensures
        final(buf).wf(),
        read_as(
            parse_argument_array(old(buf).rest()),
            match r {
                Ok(v) => Ok(arguments_view(v@)),
                Err(e) => Err(e),
            },
            old(buf).rest(),
            final(buf).rest(),
        ),
{
    let ghost s0 = old(buf).rest();
    let count = match buf.get_varint() {
        Ok(v) => v,
        Err(e) => return Err(e),
    };
    if count < 0 {
        return Err(ProtocolError::InvalidLength);
    }
    let ghost n1 = (s0.len() - buf.rest().len()) as nat;
    let ghost s1 = buf.rest();
    let ghost mut used: nat = 0;
    let mut args: Vec<(String, Vec<u8>)> = Vec::new();
    let mut i: i32 = 0;
    assert(skip(s1, 0) =~= s1);
    while i < count
        invariant
            0 <= i <= count,
            buf.wf(),
            s1 == skip(s0, n1),
            s0 == old(buf).rest(),
            n1 <= s0.len(),
            parse_varint(s0) == Ok::<(i32, nat), ProtocolError>((count, n1)),
            used <= s1.len(),
            buf.rest() == skip(s1, used),
            args@.len() == i,
            parse_arguments(s1, count as nat) == crate::login::prepend_parsed(
                arguments_view(args@),
                used,
                parse_arguments(buf.rest(), (count - i) as nat),
            ),
        decreases count - i,
    {
        let ghost before = buf.rest();
        let ghost av = arguments_view(args@);
        let a = match get_argument(buf) {
            Ok(a) => a,
            Err(e) => {
                assert(parse_arguments(before, (count - i) as nat) == Err::<
                    (Seq<(Seq<char>, Seq<u8>)>, nat),
                    ProtocolError,
                >(e));
                assert(parse_arguments(s1, count as nat) == Err::<
                    (Seq<(Seq<char>, Seq<u8>)>, nat),
                    ProtocolError,
                >(e));
                return Err(e);
            },
        };
        proof {
            let n = (before.len() - buf.rest().len()) as nat;
            assert(arguments_view(args@.push(a)) =~= av + seq![(a.0@, a.1@)]);
            let tail = parse_arguments(buf.rest(), (count - i - 1) as nat);
            if let Ok((rest, m)) = tail {
                assert(av + (seq![(a.0@, a.1@)] + rest) =~= (av + seq![(a.0@, a.1@)]) + rest);
            }
            used = used + n;
        }
        args.push(a);
        i = i + 1;
    }
    proof {
        assert(arguments_view(args@) + Seq::empty() =~= arguments_view(args@));
    }
    Ok(args)
}

pub open spec fn arguments_bytes(a: Seq<(Seq<char>, Seq<u8>)>) -> Seq<u8>
    decreases a.len(),
{
    if a.len() == 0 {
        Seq::empty()
    } else {
        string_bytes(a[0].0) + byte_array_bytes(a[0].1) + arguments_bytes(a.drop_first())
    }
}

pub open spec fn chat_command_bytes(
    c: (Seq<char>, i64, i64, Seq<(Seq<char>, Seq<u8>)>, i32, Seq<u8>),
) -> Seq<u8> {
    string_bytes(c.0) + be_bytes((c.1 as u64) as nat, 8) + be_bytes((c.2 as u64) as nat, 8)
        + varint_bytes(c.3.len() as u32) + arguments_bytes(c.3) + varint_bytes(c.4 as u32) + c.5
}

impl ChatCommand {
    pub fn from_bytes(buf: &mut Reader) -> (r: Result<ChatCommand, ProtocolError>)
        requires
            old(buf).wf(),
        ensures
            final(buf).wf(),
            read_as(parse_chat_command(old(buf).rest()), view_result(r), old(buf).rest(), final(buf).rest()),
    {
        reveal(parse_chat_command);
        let ghost s0 = old(buf).rest();
        let command = match buf.get_string(256) {
            Ok(v) => v,
            Err(e) => return Err(e),
        };
        let timestamp = match buf.get_i64() {
            Ok(v) => v,
            Err(e) => return Err(e),
        };
        let salt = match buf.get_i64() {
            Ok(v) => v,
            Err(e) => return Err(e),
        };
        assert((timestamp as u64) as i64 == timestamp) by (bit_vector);
        assert((salt as u64) as i64 == salt) by (bit_vector);
        let arguments = match get_arguments(buf) {
            Ok(v) => v,
            Err(e) => return Err(e),
        };
        let message_count = match buf.get_varint() {
            Ok(v) => v,
            Err(e) => return Err(e),
        };
        let acknowledged = buf.rest_bytes();
        assert(buf.rest() =~= skip(s0, s0.len()));
        Ok(ChatCommand { command, timestamp, salt, arguments, message_count, acknowledged })
    }

    pub fn put_buf(&self, dst: &mut Vec<u8>)
        ensures
            final(dst)@ == old(dst)@ + chat_command_bytes(self@),
    {
        put_string(dst, self.command.as_str());
        put_be(dst, (self.timestamp as u64) as u128, 8);
        put_be(dst, (self.salt as u64) as u128, 8);
        put_uvarint(dst, self.arguments.len() as u32);
        let ghost head = dst@;
        let ghost all = arguments_view(self.arguments@);
        assert(all.subrange(0, all.len() as int) =~= all);
        let mut i: usize = 0;
        while i < self.arguments.len()
            invariant
                i <= self.arguments@.len(),
                all == arguments_view(self.arguments@),
                dst@ + arguments_bytes(all.subrange(i as int, all.len() as int)) == head
                    + arguments_bytes(all),
            decreases self.arguments@.len() - i,
        {
            let ghost rest = all.subrange(i as int, all.len() as int);
            assert(rest.drop_first() =~= all.subrange(i + 1, all.len() as int));
            let a = &self.arguments[i];
            put_string(dst, a.0.as_str());
            put_byte_array(dst, a.1.as_slice());
            i = i + 1;
        }
        assert(all.subrange(i as int, all.len() as int) =~= Seq::empty());
        put_varint(dst, self.message_count);
        put_slice(dst, self.acknowledged.as_slice());
        assert(final(dst)@ =~= old(dst)@ + chat_command_bytes(self@));
    }
}

/// Where and in which dimension the player last died.
pub struct Death {
    pub dimension_name: String,
    pub position: i64,
}

/// The packet that resets the client's world; the proxy builds it from a
/// join-game packet when it moves the client to another backend.
pub struct Respawn {
    pub dimension_type: String,
    pub dimension_name: String,
    pub hashed_seed: i64,
    pub gamemode: u8,
    pub previous_gamemode: u8,
    pub is_debug: bool,
    pub is_flat: bool,
    pub data_kept: u8,
    pub last_death: Option<Death>,
}

pub open spec fn death_bytes(d: Option<(Seq<char>, i64)>) -> Seq<u8> {
    match d {
        Some((name, pos)) => seq![1u8] + string_bytes(name) + be_bytes((pos as u64) as nat, 8),
        None => seq![0u8],
    }
}

pub open spec fn death_view(d: Option<Death>) -> Option<(Seq<char>, i64)> {
    match d {
        Some(d) => Some((d.dimension_name@, d.position)),
        None => None,
    }
}

pub fn put_death(dst: &mut Vec<u8>, death: &Option<Death>)
    ensures
        final(dst)@ == old(dst)@ + death_bytes(death_view(*death)),
{
    match death {
        Some(d) => {
            put_bool(dst, true);
            put_string(dst, d.dimension_name.as_str());
            put_be(dst, (d.position as u64) as u128, 8);
        },
        None => put_bool(dst, false),
    }
    assert(final(dst)@ =~= old(dst)@ + death_bytes(death_view(*death)));
}

pub type RespawnView = (Seq<char>, Seq<char>, i64, u8, u8, bool, bool, u8, Option<(Seq<char>, i64)>);

impl View for Respawn {
    type V = RespawnView;

    open spec fn view(&self) -> RespawnView {
        (
            self.dimension_type@,
            self.dimension_name@,
            self.hashed_seed,
            self.gamemode,
            self.previous_gamemode,
            self.is_debug,
            self.is_flat,
            self.data_kept,
            death_view(self.last_death),
        )
    }
}

pub open spec fn respawn_bytes(r: RespawnView) -> Seq<u8> {
    string_bytes(r.0) + string_bytes(r.1) + be_bytes((r.2 as u64) as nat, 8) + seq![
        r.3,
        r.4,
        bool_byte(r.5),
        bool_byte(r.6),
        r.7,
    ] + death_bytes(r.8)
}

impl Respawn {
    pub fn put_buf(&self, dst: &mut Vec<u8>)
        ensures
            final(dst)@ == old(dst)@ + respawn_bytes(self@),
    {
        put_string(dst, self.dimension_type.as_str());
        put_string(dst, self.dimension_name.as_str());
        put_be(dst, (self.hashed_seed as u64) as u128, 8);
        put_u8(dst, self.gamemode);
        put_u8(dst, self.previous_gamemode);
        put_bool(dst, self.is_debug);
        put_bool(dst, self.is_flat);
        put_u8(dst, self.data_kept);
        put_death(dst, &self.last_death);
        assert(final(dst)@ =~= old(dst)@ + respawn_bytes(self@));
    }
}

} // verus!
