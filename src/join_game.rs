//! The join-game packet, which the proxy reads from a fallback backend to
//! move a client over to it, and the respawn it derives from it.
use vstd::prelude::*;

use crate::buffer::{
    be_bytes, bool_byte, lemma_primitive_prefix, lemma_skip_append, lemma_skip_skip, parse_be, parse_bool, parse_string, parse_u8,
    parse_varint, put_be, put_bool, put_slice, put_string, put_u8, read_as, skip, string_bytes,
    view_result, Parsed, Reader,
};
use crate::error::ProtocolError;
use crate::login::IDENTIFIER_MAX;
use crate::nbt::root_len;
use crate::play::{death_bytes, death_view, put_death, Death, Respawn};
use crate::varint::{put_uvarint, put_varint, varint_bytes};

verus! {

broadcast use lemma_skip_skip, lemma_skip_append;

/// `count` identifiers one after the other.
pub open spec fn parse_identifiers(s: Seq<u8>, count: nat) -> Parsed<Seq<Seq<char>>>
    decreases count,
{
    if count == 0 {
        Ok((Seq::empty(), 0))
    } else {
        match parse_string(s, IDENTIFIER_MAX) {
            Err(e) => Err(e),
            Ok((x, n)) => match parse_identifiers(skip(s, n), (count - 1) as nat) {
                Err(e) => Err(e),
                Ok((xs, m)) => Ok((seq![x] + xs, n + m)),
            },
        }
    }
}

/// A length-prefixed array of identifiers.
#[verifier::opaque]
pub open spec fn parse_identifier_array(s: Seq<u8>) -> Parsed<Seq<Seq<char>>> {
    match parse_varint(s) {
        Err(e) => Err(e),
        Ok((count, n1)) => if count < 0 {
            Err(ProtocolError::InvalidLength)
        } else {
            match parse_identifiers(skip(s, n1), count as nat) {
                Err(e) => Err(e),
                Ok((xs, n2)) => Ok((xs, n1 + n2)),
            }
        },
    }
}

pub open spec fn strings_view(v: Seq<String>) -> Seq<Seq<char>> {
    Seq::new(v.len(), |i: int| v[i]@)
}

fn get_identifiers(buf: &mut Reader) -> (r: Result<Vec<String>, ProtocolError>)
    requires
        old(buf).wf(),
    ensures
        final(buf).wf(),
        read_as(
            parse_identifier_array(old(buf).rest()),
            match r {
                Ok(v) => Ok(strings_view(v@)),
                Err(e) => Err(e),
            },
            old(buf).rest(),
            final(buf).rest(),
        ),
{
    reveal(parse_identifier_array);
    let ghost s0 = old(buf).rest();
    let count = match buf.get_varint() {
        Ok(v) => v,
        Err(e) => return Err(e),
    };
    if count < 0 {
        return Err(ProtocolError::InvalidLength);
    }
    let ghost n1 = (s0.len() - buf.rest().len()) as nat;
    let ghost s1 = buf.rest();
    assert(parse_varint(s0) == Ok::<(i32, nat), ProtocolError>((count, n1)));
    let ghost mut used: nat = 0;
    let mut names: Vec<String> = Vec::new();
    let mut i: i32 = 0;
    assert(skip(s1, 0) =~= s1);
    while i < count
        invariant
            0 <= i <= count,
            buf.wf(),
            s1 == skip(s0, n1),
            s0 == old(buf).rest(),
            n1 <= s0.len(),
            parse_varint(s0) == Ok::<(i32, nat), ProtocolError>((count, n1)),
            used <= s1.len(),
            buf.rest() == skip(s1, used),
            names@.len() == i,
            parse_identifiers(s1, count as nat) == crate::login::prepend_parsed(
                strings_view(names@),
                used,
                parse_identifiers(buf.rest(), (count - i) as nat),
            ),
        decreases count - i,
    {
        let ghost before = buf.rest();
        let ghost nv = strings_view(names@);
        let x = match buf.get_identifier() {
            Ok(x) => x,
            Err(e) => {
                assert(parse_identifiers(before, (count - i) as nat) == Err::<
                    (Seq<Seq<char>>, nat),
                    ProtocolError,
                >(e));
                assert(parse_identifiers(s1, count as nat) == Err::<
                    (Seq<Seq<char>>, nat),
                    ProtocolError,
                >(e));
                reveal(parse_identifier_array);
                return Err(e);
            },
        };
        proof {
            let n = (before.len() - buf.rest().len()) as nat;
            assert(strings_view(names@.push(x)) =~= nv + seq![x@]);
            let tail = parse_identifiers(buf.rest(), (count - i - 1) as nat);
            if let Ok((xs, m)) = tail {
                assert(nv + (seq![x@] + xs) =~= (nv + seq![x@]) + xs);
            }
            used = used + n;
        }
        names.push(x);
        i = i + 1;
    }
    proof {
        assert(strings_view(names@) + Seq::empty() =~= strings_view(names@));
    }
    Ok(names)
}

pub open spec fn identifiers_bytes(v: Seq<Seq<char>>) -> Seq<u8>
    decreases v.len(),
{
    if v.len() == 0 {
        Seq::empty()
    } else {
        string_bytes(v[0]) + identifiers_bytes(v.drop_first())
    }
}

/// The join-game packet of 1.19.4. Its registry codec is kept as the NBT
/// bytes received.
pub struct JoinGame {
    pub entity_id: i32,
    pub is_hardcore: bool,
    pub gamemode: u8,
    pub previous_gamemode: u8,
    pub dimensions_names: Vec<String>,
    pub registry: Vec<u8>,
    pub dimension_type: String,
    pub dimension_name: String,
    pub hashed_seed: i64,
    pub max_players: i32,
    pub view_distance: i32,
    pub simulation_distance: i32,
    pub reduced_debug_info: bool,
    pub respawn_screen: bool,
    pub is_debug: bool,
    pub is_flat: bool,
    pub last_death: Option<Death>,
}

pub type JoinGameView = (
    (i32, bool, u8, u8),
    Seq<Seq<char>>,
    Seq<u8>,
    (Seq<char>, Seq<char>, i64),
    (i32, i32, i32),
    (bool, bool, bool, bool),
    Option<(Seq<char>, i64)>,
);

impl View for JoinGame {
    type V = JoinGameView;

    open spec fn view(&self) -> JoinGameView {
        (
            (self.entity_id, self.is_hardcore, self.gamemode, self.previous_gamemode),
            strings_view(self.dimensions_names@),
            self.registry@,
            (self.dimension_type@, self.dimension_name@, self.hashed_seed),
            (self.max_players, self.view_distance, self.simulation_distance),
            (self.reduced_debug_info, self.respawn_screen, self.is_debug, self.is_flat),
            death_view(self.last_death),
        )
    }
}

/// An NBT root compound, kept as its bytes.
#[verifier::opaque]
pub open spec fn parse_nbt(s: Seq<u8>) -> Parsed<Seq<u8>> {
    match root_len(s) {
        Some(k) => Ok((s.subrange(0, k as int), k)),
        None => Err(ProtocolError::InvalidTag),
    }
}

/// An optional death location: a flag, then a dimension and a position.
#[verifier::opaque]
pub open spec fn parse_death(s: Seq<u8>) -> Parsed<Option<(Seq<char>, i64)>> {
    match parse_bool(s) {
        Err(e) => Err(e),
        Ok((present, n1)) => if !present {
            Ok((None, n1))
        } else {
            match parse_string(skip(s, n1), IDENTIFIER_MAX) {
                Err(e) => Err(e),
                Ok((name, n2)) => match parse_be(skip(s, n1 + n2), 8) {
                    Err(e) => Err(e),
                    Ok((pos, n3)) => Ok((Some((name, (pos as u64) as i64)), n1 + n2 + n3)),
                },
            }
        },
    }
}

/// The head of a join game: entity id, hardcore flag, game modes.
#[verifier::opaque]
pub open spec fn parse_join_head(s: Seq<u8>) -> Parsed<(i32, bool, u8, u8)> {
    match parse_be(s, 4) {
        Err(e) => Err(e),
        Ok((id, n1)) => match parse_bool(skip(s, n1)) {
            Err(e) => Err(e),
            Ok((hardcore, n2)) => match parse_u8(skip(s, n1 + n2)) {
                Err(e) => Err(e),
                Ok((gm, n3)) => match parse_u8(skip(s, n1 + n2 + n3)) {
                    Err(e) => Err(e),
                    Ok((prev, n4)) => Ok(((((id as u32) as i32), hardcore, gm, prev), n1 + n2 + n3 + n4)),
                },
            },
        },
    }
}

/// The world of a join game: dimension type and name, hashed seed.
#[verifier::opaque]
pub open spec fn parse_join_world(s: Seq<u8>) -> Parsed<(Seq<char>, Seq<char>, i64)> {
    match parse_string(s, IDENTIFIER_MAX) {
        Err(e) => Err(e),
        Ok((t, n1)) => match parse_string(skip(s, n1), IDENTIFIER_MAX) {
            Err(e) => Err(e),
            Ok((name, n2)) => match parse_be(skip(s, n1 + n2), 8) {
                Err(e) => Err(e),
                Ok((seed, n3)) => Ok(((t, name, (seed as u64) as i64), n1 + n2 + n3)),
            },
        },
    }
}

/// Three varints: max players, view and simulation distance.
#[verifier::opaque]
pub open spec fn parse_join_limits(s: Seq<u8>) -> Parsed<(i32, i32, i32)> {
    match parse_varint(s) {
        Err(e) => Err(e),
        Ok((a, n1)) => match parse_varint(skip(s, n1)) {
            Err(e) => Err(e),
            Ok((b, n2)) => match parse_varint(skip(s, n1 + n2)) {
                Err(e) => Err(e),
                Ok((c, n3)) => Ok(((a, b, c), n1 + n2 + n3)),
            },
        },
    }
}

/// Four flags: reduced debug info, respawn screen, debug world, flat world.
#[verifier::opaque]
pub open spec fn parse_join_flags(s: Seq<u8>) -> Parsed<(bool, bool, bool, bool)> {
    match parse_bool(s) {
        Err(e) => Err(e),
        Ok((a, n1)) => match parse_bool(skip(s, n1)) {
            Err(e) => Err(e),
            Ok((b, n2)) => match parse_bool(skip(s, n1 + n2)) {
                Err(e) => Err(e),
                Ok((c, n3)) => match parse_bool(skip(s, n1 + n2 + n3)) {
                    Err(e) => Err(e),
                    Ok((d, n4)) => Ok(((a, b, c, d), n1 + n2 + n3 + n4)),
                },
            },
        },
    }
}

/// A join game, part by part.
#[verifier::opaque]
pub open spec fn parse_join_game(s: Seq<u8>) -> Parsed<JoinGameView> {
    match parse_join_head(s) {
        Err(e) => Err(e),
        Ok((head, n1)) => match parse_identifier_array(skip(s, n1)) {
            Err(e) => Err(e),
            Ok((dims, n2)) => match parse_nbt(skip(s, n1 + n2)) {
                Err(e) => Err(e),
                Ok((nbt, n3)) => match parse_join_world(skip(s, n1 + n2 + n3)) {
                    Err(e) => Err(e),
                    Ok((world, n4)) => match parse_join_limits(skip(s, n1 + n2 + n3 + n4)) {
                        Err(e) => Err(e),
                        Ok((limits, n5)) => match parse_join_flags(
                            skip(s, n1 + n2 + n3 + n4 + n5),
                        ) {
                            Err(e) => Err(e),
                            Ok((flags, n6)) => match parse_death(
                                skip(s, n1 + n2 + n3 + n4 + n5 + n6),
                            ) {
                                Err(e) => Err(e),
                                Ok((death, n7)) => Ok(
                                    (
                                        (head, dims, nbt, world, limits, flags, death),
                                        n1 + n2 + n3 + n4 + n5 + n6 + n7,
                                    ),
                                ),
                            },
                        },
                    },
                },
            },
        },
    }
}

#[verifier::opaque]
pub open spec fn join_head_bytes(h: (i32, bool, u8, u8)) -> Seq<u8> {
    be_bytes((h.0 as u32) as nat, 4) + seq![bool_byte(h.1), h.2, h.3]
}

#[verifier::opaque]
pub open spec fn join_world_bytes(w: (Seq<char>, Seq<char>, i64)) -> Seq<u8> {
    string_bytes(w.0) + string_bytes(w.1) + be_bytes((w.2 as u64) as nat, 8)
}

#[verifier::opaque]
pub open spec fn join_limits_bytes(l: (i32, i32, i32)) -> Seq<u8> {
    varint_bytes(l.0 as u32) + varint_bytes(l.1 as u32) + varint_bytes(l.2 as u32)
}

#[verifier::opaque]
pub open spec fn join_flags_bytes(f: (bool, bool, bool, bool)) -> Seq<u8> {
    seq![bool_byte(f.0), bool_byte(f.1), bool_byte(f.2), bool_byte(f.3)]
}

#[verifier::opaque]
pub open spec fn identifier_array_bytes(v: Seq<Seq<char>>) -> Seq<u8> {
    varint_bytes(v.len() as u32) + identifiers_bytes(v)
}

pub open spec fn join_game_bytes(j: JoinGameView) -> Seq<u8> {
    join_head_bytes(j.0) + identifier_array_bytes(j.1) + j.2 + join_world_bytes(j.3)
        + join_limits_bytes(j.4) + join_flags_bytes(j.5) + death_bytes(j.6)
}

fn get_join_head(buf: &mut Reader) -> (r: Result<(i32, bool, u8, u8), ProtocolError>)
    requires
        old(buf).wf(),
    ensures
        final(buf).wf(),
        read_as(parse_join_head(old(buf).rest()), r, old(buf).rest(), final(buf).rest()),
{
    reveal(parse_join_head);
    let entity_id = match buf.get_i32() {
        Ok(v) => v,
        Err(e) => return Err(e),
    };
    assert((entity_id as u32) as i32 == entity_id) by (bit_vector);
    let is_hardcore = match buf.get_bool() {
        Ok(v) => v,
        Err(e) => return Err(e),
    };
    let gamemode = match buf.get_u8() {
        Ok(v) => v,
        Err(e) => return Err(e),
    };
    match buf.get_u8() {
        Ok(previous) => Ok((entity_id, is_hardcore, gamemode, previous)),
        Err(e) => Err(e),
    }
}

fn get_join_world(buf: &mut Reader) -> (r: Result<(String, String, i64), ProtocolError>)
    requires
        old(buf).wf(),
    ensures
        final(buf).wf(),
        read_as(
            parse_join_world(old(buf).rest()),
            match r {
                Ok(w) => Ok((w.0@, w.1@, w.2)),
                Err(e) => Err(e),
            },
            old(buf).rest(),
            final(buf).rest(),
        ),
{
    reveal(parse_join_world);
    let dimension_type = match buf.get_identifier() {
        Ok(v) => v,
        Err(e) => return Err(e),
    };
    let dimension_name = match buf.get_identifier() {
        Ok(v) => v,
        Err(e) => return Err(e),
    };
    match buf.get_i64() {
        Ok(seed) => {
            assert((seed as u64) as i64 == seed) by (bit_vector);
            Ok((dimension_type, dimension_name, seed))
        },
        Err(e) => Err(e),
    }
}

fn get_join_limits(buf: &mut Reader) -> (r: Result<(i32, i32, i32), ProtocolError>)
    requires
        old(buf).wf(),
    ensures
        final(buf).wf(),
        read_as(parse_join_limits(old(buf).rest()), r, old(buf).rest(), final(buf).rest()),
{
    reveal(parse_join_limits);
    let a = match buf.get_varint() {
        Ok(v) => v,
        Err(e) => return Err(e),
    };
    let b = match buf.get_varint() {
        Ok(v) => v,
        Err(e) => return Err(e),
    };
    match buf.get_varint() {
        Ok(c) => Ok((a, b, c)),
        Err(e) => Err(e),
    }
}

fn get_join_flags(buf: &mut Reader) -> (r: Result<(bool, bool, bool, bool), ProtocolError>)
    requires
        old(buf).wf(),
    ensures
        final(buf).wf(),
        read_as(parse_join_flags(old(buf).rest()), r, old(buf).rest(), final(buf).rest()),
{
    reveal(parse_join_flags);
    let a = match buf.get_bool() {
        Ok(v) => v,
        Err(e) => return Err(e),
    };
    let b = match buf.get_bool() {
        Ok(v) => v,
        Err(e) => return Err(e),
    };
    let c = match buf.get_bool() {
        Ok(v) => v,
        Err(e) => return Err(e),
    };
    match buf.get_bool() {
        Ok(d) => Ok((a, b, c, d)),
        Err(e) => Err(e),
    }
}

fn put_identifiers(dst: &mut Vec<u8>, names: &Vec<String>)
    ensures
        final(dst)@ == old(dst)@ + identifier_array_bytes(strings_view(names@)),
{
    reveal(identifier_array_bytes);
    put_uvarint(dst, names.len() as u32);
    let ghost head = dst@;
    let ghost all = strings_view(names@);
    assert(all.subrange(0, all.len() as int) =~= all);
    let mut i: usize = 0;
    while i < names.len()
        invariant
            i <= names@.len(),
            all == strings_view(names@),
            dst@ + identifiers_bytes(all.subrange(i as int, all.len() as int)) == head
                + identifiers_bytes(all),
        decreases names@.len() - i,
    {
        let ghost rest = all.subrange(i as int, all.len() as int);
        assert(rest.drop_first() =~= all.subrange(i + 1, all.len() as int));
        put_string(dst, names[i].as_str());
        i = i + 1;
    }
    assert(all.subrange(i as int, all.len() as int) =~= Seq::<Seq<char>>::empty());
    assert(final(dst)@ =~= old(dst)@ + identifier_array_bytes(strings_view(names@)));
}

proof fn lemma_identifiers_prefix(s: Seq<u8>, t: Seq<u8>, count: nat)
    requires
        parse_identifiers(s, count) is Ok,
    ensures
        parse_identifiers(s + t, count) == parse_identifiers(s, count),
        parse_identifiers(s, count)->Ok_0.1 <= s.len(),
    decreases count,
{
    if count > 0 {
        lemma_primitive_prefix(s, t, 0, IDENTIFIER_MAX);
        let n = parse_string(s, IDENTIFIER_MAX)->Ok_0.1;
        lemma_identifiers_prefix(skip(s, n), t, (count - 1) as nat);
    }
}

proof fn lemma_groups_prefix(s: Seq<u8>, t: Seq<u8>)
    ensures
        parse_join_head(s) is Ok ==> parse_join_head(s + t) == parse_join_head(s)
            && parse_join_head(s)->Ok_0.1 <= s.len(),
        parse_identifier_array(s) is Ok ==> parse_identifier_array(s + t) == parse_identifier_array(s)
            && parse_identifier_array(s)->Ok_0.1 <= s.len(),
        parse_nbt(s) is Ok ==> parse_nbt(s + t) == parse_nbt(s) && parse_nbt(s)->Ok_0.1 <= s.len(),
        parse_join_world(s) is Ok ==> parse_join_world(s + t) == parse_join_world(s)
            && parse_join_world(s)->Ok_0.1 <= s.len(),
        parse_join_limits(s) is Ok ==> parse_join_limits(s + t) == parse_join_limits(s)
            && parse_join_limits(s)->Ok_0.1 <= s.len(),
        parse_join_flags(s) is Ok ==> parse_join_flags(s + t) == parse_join_flags(s)
            && parse_join_flags(s)->Ok_0.1 <= s.len(),
        parse_death(s) is Ok ==> parse_death(s + t) == parse_death(s) && parse_death(s)->Ok_0.1
            <= s.len(),
{
    reveal(parse_join_head);
    reveal(parse_identifier_array);
    reveal(parse_nbt);
    reveal(parse_join_world);
    reveal(parse_join_limits);
    reveal(parse_join_flags);
    reveal(parse_death);
    lemma_primitive_prefix(s, t, 4, IDENTIFIER_MAX);
    if let Ok((_, n1)) = parse_be(s, 4) {
        lemma_primitive_prefix(skip(s, n1), t, 0, 0);
        if let Ok((_, n2)) = parse_bool(skip(s, n1)) {
            lemma_primitive_prefix(skip(s, n1 + n2), t, 0, 0);
            if let Ok((_, n3)) = parse_u8(skip(s, n1 + n2)) {
                lemma_primitive_prefix(skip(s, n1 + n2 + n3), t, 0, 0);
            }
        }
    }
    if let Ok((count, n1)) = parse_varint(s) {
        if count >= 0 && parse_identifiers(skip(s, n1), count as nat) is Ok {
            lemma_identifiers_prefix(skip(s, n1), t, count as nat);
        }
    }
    if root_len(s) is Some {
        crate::nbt::lemma_root_prefix(s, t);
        crate::nbt::lemma_root_bound(s);
        let k = root_len(s)->Some_0;
        assert((s + t).subrange(0, k as int) =~= s.subrange(0, k as int));
    }
    if let Ok((_, n1)) = parse_string(s, IDENTIFIER_MAX) {
        lemma_primitive_prefix(skip(s, n1), t, 8, IDENTIFIER_MAX);
        if let Ok((_, n2)) = parse_string(skip(s, n1), IDENTIFIER_MAX) {
            lemma_primitive_prefix(skip(s, n1 + n2), t, 8, 0);
        }
    }
    if let Ok((_, n1)) = parse_varint(s) {
        lemma_primitive_prefix(skip(s, n1), t, 0, 0);
        if let Ok((_, n2)) = parse_varint(skip(s, n1)) {
            lemma_primitive_prefix(skip(s, n1 + n2), t, 0, 0);
        }
    }
    if let Ok((present, n1)) = parse_bool(s) {
        lemma_primitive_prefix(skip(s, n1), t, 8, IDENTIFIER_MAX);
        if let Ok((_, n2)) = parse_bool(skip(s, n1)) {
            lemma_primitive_prefix(skip(s, n1 + n2), t, 0, 0);
            if let Ok((_, n3)) = parse_bool(skip(s, n1 + n2)) {
                lemma_primitive_prefix(skip(s, n1 + n2 + n3), t, 0, 0);
            }
        }
        if let Ok((_, n2)) = parse_string(skip(s, n1), IDENTIFIER_MAX) {
            lemma_primitive_prefix(skip(s, n1 + n2), t, 8, 0);
        }
    }
}

/// A join game reads the same with bytes appended.
pub proof fn lemma_join_game_prefix(s: Seq<u8>, t: Seq<u8>)
    requires
        parse_join_game(s) is Ok,
    ensures
        parse_join_game(s + t) == parse_join_game(s),
{
    reveal(parse_join_game);
    lemma_groups_prefix(s, t);
    let n1 = parse_join_head(s)->Ok_0.1;
    lemma_groups_prefix(skip(s, n1), t);
    let n2 = parse_identifier_array(skip(s, n1))->Ok_0.1;
    lemma_groups_prefix(skip(s, n1 + n2), t);
    let n3 = parse_nbt(skip(s, n1 + n2))->Ok_0.1;
    lemma_groups_prefix(skip(s, n1 + n2 + n3), t);
    let n4 = parse_join_world(skip(s, n1 + n2 + n3))->Ok_0.1;
    lemma_groups_prefix(skip(s, n1 + n2 + n3 + n4), t);
    let n5 = parse_join_limits(skip(s, n1 + n2 + n3 + n4))->Ok_0.1;
    lemma_groups_prefix(skip(s, n1 + n2 + n3 + n4 + n5), t);
    let n6 = parse_join_flags(skip(s, n1 + n2 + n3 + n4 + n5))->Ok_0.1;
    lemma_groups_prefix(skip(s, n1 + n2 + n3 + n4 + n5 + n6), t);
}

fn get_nbt(buf: &mut Reader) -> (r: Result<Vec<u8>, ProtocolError>)
    requires
        old(buf).wf(),
    ensures
        final(buf).wf(),
        read_as(
            parse_nbt(old(buf).rest()),
            match r {
                Ok(v) => Ok(v@),
                Err(e) => Err(e),
            },
            old(buf).rest(),
            final(buf).rest(),
        ),
{
    reveal(parse_nbt);
    let ghost s0 = old(buf).rest();
    let start = buf.pos;
    let total = buf.data.len();
    assert(skip(buf.data@, start as nat) =~= s0);
    proof {
        crate::nbt::lemma_root_bound(s0);
    }
    match crate::nbt::skip_root(buf.data.as_slice(), start) {
        None => Err(ProtocolError::InvalidTag),
        Some(end) => {
            let k = end - start;
            assert(end <= total);
            let bytes = crate::buffer::copy_range(buf.data.as_slice(), start, end);
            buf.pos = end;
            assert(bytes@ =~= s0.subrange(0, k as int));
            assert(buf.rest() =~= skip(s0, k as nat));
            Ok(bytes)
        },
    }
}

fn get_death(buf: &mut Reader) -> (r: Result<Option<Death>, ProtocolError>)
    requires
        old(buf).wf(),
    ensures
        final(buf).wf(),
        read_as(
            parse_death(old(buf).rest()),
            match r {
                Ok(d) => Ok(death_view(d)),
                Err(e) => Err(e),
            },
            old(buf).rest(),
            final(buf).rest(),
        ),
{
    reveal(parse_death);
    let present = match buf.get_bool() {
        Ok(v) => v,
        Err(e) => return Err(e),
    };
    if !present {
        return Ok(None);
    }
    let dimension_name = match buf.get_identifier() {
        Ok(v) => v,
        Err(e) => return Err(e),
    };
    match buf.get_i64() {
        Ok(position) => {
            assert((position as u64) as i64 == position) by (bit_vector);
            Ok(Some(Death { dimension_name, position }))
        },
        Err(e) => Err(e),
    }
}

impl JoinGame {
    pub fn from_bytes(buf: &mut Reader) -> (r: Result<JoinGame, ProtocolError>)
        requires
            old(buf).wf(),
        ensures
            final(buf).wf(),
            read_as(parse_join_game(old(buf).rest()), view_result(r), old(buf).rest(), final(buf).rest()),
    {
        reveal(parse_join_game);
        let (entity_id, is_hardcore, gamemode, previous_gamemode) = match get_join_head(buf) {
            Ok(v) => v,
            Err(e) => return Err(e),
        };
        let dimensions_names = match get_identifiers(buf) {
            Ok(v) => v,
            Err(e) => return Err(e),
        };
        let registry = match get_nbt(buf) {
            Ok(v) => v,
            Err(e) => return Err(e),
        };
        let (dimension_type, dimension_name, hashed_seed) = match get_join_world(buf) {
            Ok(v) => v,
            Err(e) => return Err(e),
        };
        let (max_players, view_distance, simulation_distance) = match get_join_limits(buf) {
            Ok(v) => v,
            Err(e) => return Err(e),
        };
        let (reduced_debug_info, respawn_screen, is_debug, is_flat) = match get_join_flags(buf) {
            Ok(v) => v,
            Err(e) => return Err(e),
        };
        let last_death = match get_death(buf) {
            Ok(v) => v,
            Err(e) => return Err(e),
        };
        Ok(JoinGame {
            entity_id,
            is_hardcore,
            gamemode,
            previous_gamemode,
            dimensions_names,
            registry,
            dimension_type,
            dimension_name,
            hashed_seed,
            max_players,
            view_distance,
            simulation_distance,
            reduced_debug_info,
            respawn_screen,
            is_debug,
            is_flat,
            last_death,
        })
    }

    pub fn put_buf(&self, dst: &mut Vec<u8>)
        ensures
            final(dst)@ == old(dst)@ + join_game_bytes(self@),
    {
        put_join_head(dst, self.entity_id, self.is_hardcore, self.gamemode, self.previous_gamemode);
        put_identifiers(dst, &self.dimensions_names);
        put_slice(dst, self.registry.as_slice());
        put_join_world(dst, &self.dimension_type, &self.dimension_name, self.hashed_seed);
        put_join_limits(dst, self.max_players, self.view_distance, self.simulation_distance);
        put_join_flags(dst, self.reduced_debug_info, self.respawn_screen, self.is_debug, self.is_flat);
        put_death(dst, &self.last_death);
        assert(final(dst)@ =~= old(dst)@ + join_game_bytes(self@));
    }
}

fn put_join_head(dst: &mut Vec<u8>, entity_id: i32, hardcore: bool, gamemode: u8, previous: u8)
    ensures
        final(dst)@ == old(dst)@ + join_head_bytes((entity_id, hardcore, gamemode, previous)),
{
    reveal(join_head_bytes);
    put_be(dst, (entity_id as u32) as u128, 4);
    put_bool(dst, hardcore);
    put_u8(dst, gamemode);
    put_u8(dst, previous);
    assert(final(dst)@ =~= old(dst)@ + join_head_bytes((entity_id, hardcore, gamemode, previous)));
}

fn put_join_world(dst: &mut Vec<u8>, dimension_type: &String, dimension_name: &String, seed: i64)
    ensures
        final(dst)@ == old(dst)@ + join_world_bytes((dimension_type@, dimension_name@, seed)),
{
    reveal(join_world_bytes);
    put_string(dst, dimension_type.as_str());
    put_string(dst, dimension_name.as_str());
    put_be(dst, (seed as u64) as u128, 8);
    assert(final(dst)@ =~= old(dst)@ + join_world_bytes((dimension_type@, dimension_name@, seed)));
}

fn put_join_limits(dst: &mut Vec<u8>, a: i32, b: i32, c: i32)
    ensures
        final(dst)@ == old(dst)@ + join_limits_bytes((a, b, c)),
{
    reveal(join_limits_bytes);
    put_varint(dst, a);
    put_varint(dst, b);
    put_varint(dst, c);
    assert(final(dst)@ =~= old(dst)@ + join_limits_bytes((a, b, c)));
}

fn put_join_flags(dst: &mut Vec<u8>, a: bool, b: bool, c: bool, d: bool)
    ensures
        final(dst)@ == old(dst)@ + join_flags_bytes((a, b, c, d)),
{
    reveal(join_flags_bytes);
    put_bool(dst, a);
    put_bool(dst, b);
    put_bool(dst, c);
    put_bool(dst, d);
    assert(final(dst)@ =~= old(dst)@ + join_flags_bytes((a, b, c, d)));
}

impl Respawn {
    /// The respawn that resets the client to the world of a join game: same
    /// dimension, seed, game modes, flags and death location; nothing kept.
    pub fn from_joingame(packet: &JoinGame) -> (r: Respawn)
        ensures
            r.dimension_type@ == packet.dimension_type@,
            r.dimension_name@ == packet.dimension_name@,
            r.hashed_seed == packet.hashed_seed,
            r.gamemode == packet.gamemode,
            r.previous_gamemode == packet.previous_gamemode,
            r.is_debug == packet.is_debug,
            r.is_flat == packet.is_flat,
            r.data_kept == 0,
            death_view(r.last_death) == death_view(packet.last_death),
    {
        Respawn {
            dimension_type: packet.dimension_type.clone(),
            dimension_name: packet.dimension_name.clone(),
            hashed_seed: packet.hashed_seed,
            gamemode: packet.gamemode,
            previous_gamemode: packet.previous_gamemode,
            is_debug: packet.is_debug,
            is_flat: packet.is_flat,
            data_kept: 0,
            last_death: match &packet.last_death {
                Some(d) => Some(Death { dimension_name: d.dimension_name.clone(), position: d.position }),
                None => None,
            },
        }
    }
}

} // verus!
