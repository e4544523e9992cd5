//! Packets of the login phase.
use vstd::prelude::*;

use crate::buffer::{
    be_bytes, bool_byte, byte_array_bytes, lemma_primitive_prefix, lemma_skip_append,
    lemma_skip_skip, parse_be, parse_bool,
    parse_byte_array, parse_fixed_array, parse_json_text, parse_string, parse_varint, put_be,
    put_bool, put_byte_array, put_slice, put_string, read_as, skip, string_bytes, view_result,
    Parsed, Reader,
};
use crate::error::ProtocolError;
use crate::protocol::ProtocolVersion;
use crate::varint::{put_uvarint, put_varint, varint_bytes};

verus! {

broadcast use lemma_skip_skip, lemma_skip_append;

/// Longest user name, in characters.
pub const USERNAME_MAX: i32 = 16;

/// Longest identifier, in characters.
pub const IDENTIFIER_MAX: i32 = 32767;

/// Whether a login start carries the player's UUID as an optional field
/// (from 1.19.2 up to 1.20) rather than not at all or as a mandatory one.
pub open spec fn uuid_optional(v: ProtocolVersion) -> bool {
    v.rank_spec() >= ProtocolVersion::V1_19_2.rank_spec() && v.rank_spec()
        < ProtocolVersion::V1_20_2.rank_spec()
}

pub open spec fn uuid_mandatory(v: ProtocolVersion) -> bool {
    v.rank_spec() >= ProtocolVersion::V1_20_2.rank_spec()
}

pub struct LoginStart {
    pub username: String,
    pub uuid: Option<u128>,
}

impl View for LoginStart {
    type V = (Seq<char>, Option<u128>);

    open spec fn view(&self) -> Self::V {
        (self.username@, self.uuid)
    }
}

/// A login start: user name, then the UUID as the version asks for it.
#[verifier::opaque]
pub open spec fn parse_login_start(s: Seq<u8>, v: ProtocolVersion) -> Parsed<(Seq<char>, Option<u128>)> {
    match parse_string(s, USERNAME_MAX) {
        Err(e) => Err(e),
        Ok((name, n1)) => if uuid_mandatory(v) {
            match parse_be(skip(s, n1), 16) {
                Err(e) => Err(e),
                Ok((u, n2)) => Ok(((name, Some(u as u128)), n1 + n2)),
            }
        } else if uuid_optional(v) {
            match parse_bool(skip(s, n1)) {
                Err(e) => Err(e),
                Ok((present, n2)) => if present {
                    match parse_be(skip(s, n1 + n2), 16) {
                        Err(e) => Err(e),
                        Ok((u, n3)) => Ok(((name, Some(u as u128)), n1 + n2 + n3)),
                    }
                } else {
                    Ok(((name, None), n1 + n2))
                },
            }
        } else {
            Ok(((name, None), n1))
        },
    }
}

pub open spec fn login_start_bytes(l: (Seq<char>, Option<u128>), v: ProtocolVersion) -> Seq<u8> {
    if uuid_mandatory(v) {
        string_bytes(l.0) + be_bytes(l.1->Some_0 as nat, 16)
    } else if uuid_optional(v) {
        match l.1 {
            Some(u) => string_bytes(l.0) + seq![1u8] + be_bytes(u as nat, 16),
            None => string_bytes(l.0) + seq![0u8],
        }
    } else {
        string_bytes(l.0)
    }
}

impl LoginStart {
    pub fn from_bytes(buf: &mut Reader, version: ProtocolVersion) -> (r: Result<
        LoginStart,
        ProtocolError,
    >)
        requires
            old(buf).wf(),
        ensures
            final(buf).wf(),
            read_as(
                parse_login_start(old(buf).rest(), version),
                view_result(r),
                old(buf).rest(),
                final(buf).rest(),
            ),
    {
        reveal(parse_login_start);
        let username = match buf.get_string(USERNAME_MAX) {
            Ok(v) => v,
            Err(e) => return Err(e),
        };
        if version.at_least(ProtocolVersion::V1_20_2) {
            match buf.get_uuid() {
                Ok(u) => Ok(LoginStart { username, uuid: Some(u) }),
                Err(e) => Err(e),
            }
        } else if version.at_least(ProtocolVersion::V1_19_2) {
            let present = match buf.get_bool() {
                Ok(v) => v,
                Err(e) => return Err(e),
            };
            if present {
                match buf.get_uuid() {
                    Ok(u) => Ok(LoginStart { username, uuid: Some(u) }),
                    Err(e) => Err(e),
                }
            } else {
                Ok(LoginStart { username, uuid: None })
            }
        } else {
            Ok(LoginStart { username, uuid: None })
        }
    }

    /// Writes the packet as `version` lays it out; from 1.20.2 on, the UUID
    /// is mandatory.
    pub fn put_buf(&self, dst: &mut Vec<u8>, version: ProtocolVersion)
        requires
            uuid_mandatory(version) ==> self.uuid is Some,
        ensures
            final(dst)@ == old(dst)@ + login_start_bytes(self@, version),
    {
        put_string(dst, self.username.as_str());
        if version.at_least(ProtocolVersion::V1_20_2) {
            match self.uuid {
                Some(u) => put_be(dst, u, 16),
                None => {},
            }
        } else if version.at_least(ProtocolVersion::V1_19_2) {
            match self.uuid {
                Some(u) => {
                    put_bool(dst, true);
                    put_be(dst, u, 16);
                },
                None => put_bool(dst, false),
            }
        }
        assert(final(dst)@ =~= old(dst)@ + login_start_bytes(self@, version));
    }
}

/// A login start reads the same with bytes appended.
pub proof fn lemma_login_start_prefix(s: Seq<u8>, t: Seq<u8>, v: ProtocolVersion)
    requires
        parse_login_start(s, v) is Ok,
    ensures
        parse_login_start(s + t, v) == parse_login_start(s, v),
{
    reveal(parse_login_start);
    lemma_primitive_prefix(s, t, 0, USERNAME_MAX);
    let n1 = parse_string(s, USERNAME_MAX)->Ok_0.1;
    lemma_primitive_prefix(skip(s, n1), t, 16, 0);
    if uuid_optional(v) {
        let n2 = parse_bool(skip(s, n1))->Ok_0.1;
        lemma_primitive_prefix(skip(s, n1 + n2), t, 16, 0);
    }
}

/// A signed property of a game profile.
pub struct Property {
    pub name: String,
    pub value: String,
    pub signature: Option<String>,
}

impl View for Property {
    type V = (Seq<char>, Seq<char>, Option<Seq<char>>);

    open spec fn view(&self) -> Self::V {
        (
            self.name@,
            self.value@,
            match &self.signature {
                Some(s) => Some(s@),
                None => None,
            },
        )
    }
}

#[verifier::opaque]
pub open spec fn parse_property(s: Seq<u8>) -> Parsed<(Seq<char>, Seq<char>, Option<Seq<char>>)> {
    match parse_string(s, IDENTIFIER_MAX) {
        Err(e) => Err(e),
        Ok((name, n1)) => match parse_string(skip(s, n1), IDENTIFIER_MAX) {
            Err(e) => Err(e),
            Ok((value, n2)) => match parse_bool(skip(s, n1 + n2)) {
                Err(e) => Err(e),
                Ok((present, n3)) => if present {
                    match parse_string(skip(s, n1 + n2 + n3), IDENTIFIER_MAX) {
                        Err(e) => Err(e),
                        Ok((sig, n4)) => Ok(((name, value, Some(sig)), n1 + n2 + n3 + n4)),
                    }
                } else {
                    Ok(((name, value, None), n1 + n2 + n3))
                },
            },
        },
    }
}

pub open spec fn property_bytes(p: (Seq<char>, Seq<char>, Option<Seq<char>>)) -> Seq<u8> {
    string_bytes(p.0) + string_bytes(p.1) + match p.2 {
        Some(sig) => seq![1u8] + string_bytes(sig),
        None => seq![0u8],
    }
}

/// `count` properties one after the other.
pub open spec fn parse_properties(s: Seq<u8>, count: nat) -> Parsed<
    Seq<(Seq<char>, Seq<char>, Option<Seq<char>>)>,
>
    decreases count,
{
    if count == 0 {
        Ok((Seq::empty(), 0))
    } else {
        match parse_property(s) {
            Err(e) => Err(e),
            Ok((p, n)) => match parse_properties(skip(s, n), (count - 1) as nat) {
                Err(e) => Err(e),
                Ok((ps, m)) => Ok((seq![p] + ps, n + m)),
            },
        }
    }
}

/// A length-prefixed array of properties.
pub open spec fn parse_property_array(s: Seq<u8>) -> Parsed<
    Seq<(Seq<char>, Seq<char>, Option<Seq<char>>)>,
> {
    match parse_varint(s) {
        Err(e) => Err(e),
        Ok((count, n1)) => if count < 0 {
            Err(ProtocolError::InvalidLength)
        } else {
            match parse_properties(skip(s, n1), count as nat) {
                Err(e) => Err(e),
                Ok((ps, n2)) => Ok((ps, n1 + n2)),
            }
        },
    }
}

pub open spec fn properties_bytes(ps: Seq<(Seq<char>, Seq<char>, Option<Seq<char>>)>) -> Seq<u8>
    decreases ps.len(),
{
    if ps.len() == 0 {
        Seq::empty()
    } else {
        property_bytes(ps[0]) + properties_bytes(ps.drop_first())
    }
}

pub open spec fn properties_view(ps: Seq<Property>) -> Seq<(Seq<char>, Seq<char>, Option<Seq<char>>)> {
    Seq::new(ps.len(), |i: int| ps[i]@)
}

/// Prepends what was read so far to what the rest of the array reads as.
pub open spec fn prepend_parsed<T>(done: Seq<T>, used: nat, rest: Parsed<Seq<T>>) -> Parsed<Seq<T>> {
    match rest {
        Ok((more, m)) => Ok((done + more, used + m)),
        Err(e) => Err(e),
    }
}

proof fn lemma_property_prefix(s: Seq<u8>, t: Seq<u8>)
    requires
        parse_property(s) is Ok,
    ensures
        parse_property(s + t) == parse_property(s),
        parse_property(s)->Ok_0.1 <= s.len(),
{
    reveal(parse_property);
    lemma_primitive_prefix(s, t, 0, IDENTIFIER_MAX);
    let n1 = parse_string(s, IDENTIFIER_MAX)->Ok_0.1;
    lemma_primitive_prefix(skip(s, n1), t, 0, IDENTIFIER_MAX);
    let n2 = parse_string(skip(s, n1), IDENTIFIER_MAX)->Ok_0.1;
    lemma_primitive_prefix(skip(s, n1 + n2), t, 0, IDENTIFIER_MAX);
    let n3 = parse_bool(skip(s, n1 + n2))->Ok_0.1;
    lemma_primitive_prefix(skip(s, n1 + n2 + n3), t, 0, IDENTIFIER_MAX);
}

proof fn lemma_properties_prefix(s: Seq<u8>, t: Seq<u8>, count: nat)
    requires
        parse_properties(s, count) is Ok,
    ensures
        parse_properties(s + t, count) == parse_properties(s, count),
        parse_properties(s, count)->Ok_0.1 <= s.len(),
    decreases count,
{
    if count > 0 {
        lemma_property_prefix(s, t);
        let n = parse_property(s)->Ok_0.1;
        lemma_properties_prefix(skip(s, n), t, (count - 1) as nat);
    }
}

/// A property array reads the same with bytes appended.
pub proof fn lemma_property_array_prefix(s: Seq<u8>, t: Seq<u8>)
    requires
        parse_property_array(s) is Ok,
    ensures
        parse_property_array(s + t) == parse_property_array(s),
        parse_property_array(s)->Ok_0.1 <= s.len(),
{
    lemma_primitive_prefix(s, t, 0, 0);
    let (count, n1) = parse_varint(s)->Ok_0;
    lemma_properties_prefix(skip(s, n1), t, count as nat);
}

/// A login success reads the same with bytes appended.
pub proof fn lemma_login_success_prefix(s: Seq<u8>, t: Seq<u8>)
    requires
        parse_login_success(s) is Ok,
    ensures
        parse_login_success(s + t) == parse_login_success(s),
{
    reveal(parse_login_success);
    lemma_primitive_prefix(s, t, 16, USERNAME_MAX);
    let n1 = parse_be(s, 16)->Ok_0.1;
    lemma_primitive_prefix(skip(s, n1), t, 0, USERNAME_MAX);
    let n2 = parse_string(skip(s, n1), USERNAME_MAX)->Ok_0.1;
    lemma_property_array_prefix(skip(s, n1 + n2), t);
}

/// An encryption request reads the same with bytes appended.
pub proof fn lemma_encryption_request_prefix(s: Seq<u8>, t: Seq<u8>)
    requires
        parse_encryption_request(s) is Ok,
    ensures
        parse_encryption_request(s + t) == parse_encryption_request(s),
{
    reveal(parse_encryption_request);
    lemma_primitive_prefix(s, t, 0, 20);
    let n1 = parse_string(s, 20)->Ok_0.1;
    lemma_primitive_prefix(skip(s, n1), t, 4, 0);
    let n2 = parse_byte_array(skip(s, n1))->Ok_0.1;
    lemma_primitive_prefix(skip(s, n1 + n2), t, 4, 0);
}

/// An encryption response reads the same with bytes appended.
pub proof fn lemma_encryption_response_prefix(s: Seq<u8>, t: Seq<u8>)
    requires
        parse_encryption_response(s) is Ok,
    ensures
        parse_encryption_response(s + t) == parse_encryption_response(s),
{
    reveal(parse_encryption_response);
    lemma_primitive_prefix(s, t, 0, 0);
    let n1 = parse_byte_array(s)->Ok_0.1;
    lemma_primitive_prefix(skip(s, n1), t, 0, 0);
}

pub fn get_property(buf: &mut Reader) -> (r: Result<Property, ProtocolError>)
    requires
        old(buf).wf(),
    ensures
        final(buf).wf(),
        read_as(parse_property(old(buf).rest()), view_result(r), old(buf).rest(), final(buf).rest()),
{
    reveal(parse_property);
    let name = match buf.get_string(IDENTIFIER_MAX) {
        Ok(v) => v,
        Err(e) => return Err(e),
    };
    let value = match buf.get_string(IDENTIFIER_MAX) {
        Ok(v) => v,
        Err(e) => return Err(e),
    };
    let present = match buf.get_bool() {
        Ok(v) => v,
        Err(e) => return Err(e),
    };
    if present {
        match buf.get_string(IDENTIFIER_MAX) {
            Ok(sig) => Ok(Property { name, value, signature: Some(sig) }),
            Err(e) => Err(e),
        }
    } else {
        Ok(Property { name, value, signature: None })
    }
}

pub fn put_property(dst: &mut Vec<u8>, p: &Property)
    ensures
        final(dst)@ == old(dst)@ + property_bytes(p@),
{
    put_string(dst, p.name.as_str());
    put_string(dst, p.value.as_str());
    match &p.signature {
        Some(sig) => {
            put_bool(dst, true);
            put_string(dst, sig.as_str());
        },
        None => put_bool(dst, false),
    }
    assert(final(dst)@ =~= old(dst)@ + property_bytes(p@));
}

/// Reads a length-prefixed array of properties.
pub fn get_properties(buf: &mut Reader) -> (r: Result<Vec<Property>, ProtocolError>)
    requires
        old(buf).wf(),
    ensures
        final(buf).wf(),
        read_as(
            parse_property_array(old(buf).rest()),
            match r {
                Ok(v) => Ok(properties_view(v@)),
                Err(e) => Err(e),
            },
            old(buf).rest(),
            final(buf).rest(),
        ),
{
    let ghost s0 = old(buf).rest();
    let count = match buf.get_varint() {
        Ok(v) => v,
        Err(e) => return Err(e),
    };
    if count < 0 {
        return Err(ProtocolError::InvalidLength);
    }
    let ghost n1 = (s0.len() - buf.rest().len()) as nat;
    let ghost s1 = buf.rest();
    assert(parse_varint(s0) == Ok::<(i32, nat), ProtocolError>((count, n1)));
    let ghost mut used: nat = 0;
    let mut props: Vec<Property> = Vec::new();
    let mut i: i32 = 0;
    assert(skip(s1, 0) =~= s1);
    while i < count
        invariant
            0 <= i <= count,
            buf.wf(),
            s1 == skip(s0, n1),
            s0 == old(buf).rest(),
            n1 <= s0.len(),
            parse_varint(s0) == Ok::<(i32, nat), ProtocolError>((count, n1)),
            used <= s1.len(),
            buf.rest() == skip(s1, used),
            props@.len() == i,
            parse_properties(s1, count as nat) == prepend_parsed(
                properties_view(props@),
                used,
                parse_properties(buf.rest(), (count - i) as nat),
            ),
        decreases count - i,
    {
        let ghost before = buf.rest();
        let ghost pv = properties_view(props@);
        let p = match get_property(buf) {
            Ok(p) => p,
            Err(e) => {
                assert(parse_properties(before, (count - i) as nat) == Err::<
                    (Seq<(Seq<char>, Seq<char>, Option<Seq<char>>)>, nat),
                    ProtocolError,
                >(e));
                assert(parse_properties(s1, count as nat) == Err::<
                    (Seq<(Seq<char>, Seq<char>, Option<Seq<char>>)>, nat),
                    ProtocolError,
                >(e));
                assert(parse_property_array(s0) == Err::<
                    (Seq<(Seq<char>, Seq<char>, Option<Seq<char>>)>, nat),
                    ProtocolError,
                >(e));
                return Err(e);
            },
        };
        proof {
            let n = (before.len() - buf.rest().len()) as nat;
            assert(properties_view(props@.push(p)) =~= pv + seq![p@]);
            let tail = parse_properties(buf.rest(), (count - i - 1) as nat);
            if let Ok((ps, m)) = tail {
                assert(pv + (seq![p@] + ps) =~= (pv + seq![p@]) + ps);
            }
            used = used + n;
        }
        props.push(p);
        i = i + 1;
    }
    proof {
        assert(properties_view(props@) + Seq::empty() =~= properties_view(props@));
    }
    Ok(props)
}

pub fn put_properties(dst: &mut Vec<u8>, ps: &Vec<Property>)
    ensures
        final(dst)@ == old(dst)@ + varint_bytes(ps@.len() as u32) + properties_bytes(
            properties_view(ps@),
        ),
{
    let ghost start = dst@;
    put_uvarint(dst, ps.len() as u32);
    let ghost head = dst@;
    assert(properties_view(ps@).subrange(0, ps@.len() as int) =~= properties_view(ps@));
    let mut i: usize = 0;
    while i < ps.len()
        invariant
            i <= ps@.len(),
            dst@ + properties_bytes(properties_view(ps@).subrange(i as int, ps@.len() as int))
                == head + properties_bytes(properties_view(ps@)),
        decreases ps@.len() - i,
    {
        let ghost rest = properties_view(ps@).subrange(i as int, ps@.len() as int);
        assert(rest.drop_first() =~= properties_view(ps@).subrange(i + 1, ps@.len() as int));
        put_property(dst, &ps[i]);
        i = i + 1;
    }
    assert(properties_view(ps@).subrange(i as int, ps@.len() as int) =~= Seq::empty());
}

pub struct LoginSuccess {
    pub uuid: u128,
    pub username: String,
    pub properties: Vec<Property>,
}

impl View for LoginSuccess {
    type V = (u128, Seq<char>, Seq<(Seq<char>, Seq<char>, Option<Seq<char>>)>);

    open spec fn view(&self) -> Self::V {
        (self.uuid, self.username@, properties_view(self.properties@))
    }
}

#[verifier::opaque]
pub open spec fn parse_login_success(s: Seq<u8>) -> Parsed<
    (u128, Seq<char>, Seq<(Seq<char>, Seq<char>, Option<Seq<char>>)>),
> {
    match parse_be(s, 16) {
        Err(e) => Err(e),
        Ok((u, n1)) => match parse_string(skip(s, n1), USERNAME_MAX) {
            Err(e) => Err(e),
            Ok((name, n2)) => match parse_property_array(skip(s, n1 + n2)) {
                Err(e) => Err(e),
                Ok((ps, n3)) => Ok(((u as u128, name, ps), n1 + n2 + n3)),
            },
        },
    }
}

pub open spec fn login_success_bytes(
    l: (u128, Seq<char>, Seq<(Seq<char>, Seq<char>, Option<Seq<char>>)>),
) -> Seq<u8> {
    be_bytes(l.0 as nat, 16) + string_bytes(l.1) + varint_bytes(l.2.len() as u32)
        + properties_bytes(l.2)
}

impl LoginSuccess {
    pub fn from_bytes(buf: &mut Reader) -> (r: Result<LoginSuccess, ProtocolError>)
        requires
            old(buf).wf(),
        ensures
            final(buf).wf(),
            read_as(parse_login_success(old(buf).rest()), view_result(r), old(buf).rest(), final(buf).rest()),
    {
        reveal(parse_login_success);
        let uuid = match buf.get_uuid() {
            Ok(v) => v,
            Err(e) => return Err(e),
        };
        let username = match buf.get_string(USERNAME_MAX) {
            Ok(v) => v,
            Err(e) => return Err(e),
        };
        let properties = match get_properties(buf) {
            Ok(v) => v,
            Err(e) => return Err(e),
        };
        Ok(LoginSuccess { uuid, username, properties })
    }

    pub fn put_buf(&self, dst: &mut Vec<u8>)
        ensures
            final(dst)@ == old(dst)@ + login_success_bytes(self@),
    {
        put_be(dst, self.uuid, 16);
        put_string(dst, self.username.as_str());
        put_properties(dst, &self.properties);
        assert(final(dst)@ =~= old(dst)@ + login_success_bytes(self@));
    }
}

/// A disconnect: the reason, as the JSON text of a text component.
pub struct Disconnect {
    pub reason: String,
}

impl View for Disconnect {
    type V = Seq<char>;

    open spec fn view(&self) -> Self::V {
        self.reason@
    }
}

impl Disconnect {
    pub fn from_bytes(buf: &mut Reader) -> (r: Result<Disconnect, ProtocolError>)
        requires
            old(buf).wf(),
        ensures
            final(buf).wf(),
            read_as(parse_json_text(old(buf).rest()), view_result(r), old(buf).rest(), final(buf).rest()),
    {
        match buf.get_component() {
            Ok(reason) => Ok(Disconnect { reason }),
            Err(e) => Err(e),
        }
    }

    pub fn put_buf(&self, dst: &mut Vec<u8>)
        ensures
            final(dst)@ == old(dst)@ + string_bytes(self@),
    {
        put_string(dst, self.reason.as_str());
    }
}

pub struct SetCompression {
    pub threshold: i32,
}

impl View for SetCompression {
    type V = i32;

    open spec fn view(&self) -> Self::V {
        self.threshold
    }
}

impl SetCompression {
    pub fn from_bytes(buf: &mut Reader) -> (r: Result<SetCompression, ProtocolError>)
        requires
            old(buf).wf(),
        ensures
            final(buf).wf(),
            read_as(parse_varint(old(buf).rest()), view_result(r), old(buf).rest(), final(buf).rest()),
    {
        match buf.get_varint() {
            Ok(threshold) => Ok(SetCompression { threshold }),
            Err(e) => Err(e),
        }
    }

    pub fn put_buf(&self, dst: &mut Vec<u8>)
        ensures
            final(dst)@ == old(dst)@ + varint_bytes(self.threshold as u32),
    {
        put_varint(dst, self.threshold);
    }
}

pub struct EncryptionRequest {
    pub server_id: String,
    pub public_key: Vec<u8>,
    pub verify_token: Vec<u8>,
}

impl View for EncryptionRequest {
    type V = (Seq<char>, Seq<u8>, Seq<u8>);

    open spec fn view(&self) -> Self::V {
        (self.server_id@, self.public_key@, self.verify_token@)
    }
}

/// An encryption request: server id of at most 20 characters, public key,
/// verify token of exactly four bytes.
#[verifier::opaque]
pub open spec fn parse_encryption_request(s: Seq<u8>) -> Parsed<(Seq<char>, Seq<u8>, Seq<u8>)> {
    match parse_string(s, 20) {
        Err(e) => Err(e),
        Ok((id, n1)) => match parse_byte_array(skip(s, n1)) {
            Err(e) => Err(e),
            Ok((key, n2)) => match parse_fixed_array(skip(s, n1 + n2), 4) {
                Err(e) => Err(e),
                Ok((token, n3)) => Ok(((id, key, token), n1 + n2 + n3)),
            },
        },
    }
}

impl EncryptionRequest {
    pub fn from_bytes(buf: &mut Reader) -> (r: Result<EncryptionRequest, ProtocolError>)
        requires
            old(buf).wf(),
        ensures
            final(buf).wf(),
            read_as(parse_encryption_request(old(buf).rest()), view_result(r), old(buf).rest(), final(buf).rest()),
    {
        reveal(parse_encryption_request);
        let server_id = match buf.get_string(20) {
            Ok(v) => v,
            Err(e) => return Err(e),
        };
        let public_key = match buf.get_bytes() {
            Ok(v) => v,
            Err(e) => return Err(e),
        };
        let verify_token = match buf.get_byte_array(4) {
            Ok(v) => v,
            Err(e) => return Err(e),
        };
        Ok(EncryptionRequest { server_id, public_key, verify_token })
    }

    pub fn put_buf(&self, dst: &mut Vec<u8>)
        ensures
            final(dst)@ == old(dst)@ + string_bytes(self.server_id@) + byte_array_bytes(
                self.public_key@,
            ) + byte_array_bytes(self.verify_token@),
    {
        put_string(dst, self.server_id.as_str());
        put_byte_array(dst, self.public_key.as_slice());
        put_byte_array(dst, self.verify_token.as_slice());
    }
}

pub struct EncryptionResponse {
    pub shared_secret: Vec<u8>,
    pub verify_token: Vec<u8>,
}

impl View for EncryptionResponse {
    type V = (Seq<u8>, Seq<u8>);

    open spec fn view(&self) -> Self::V {
        (self.shared_secret@, self.verify_token@)
    }
}

#[verifier::opaque]
pub open spec fn parse_encryption_response(s: Seq<u8>) -> Parsed<(Seq<u8>, Seq<u8>)> {
    match parse_byte_array(s) {
        Err(e) => Err(e),
        Ok((secret, n1)) => match parse_byte_array(skip(s, n1)) {
            Err(e) => Err(e),
            Ok((token, n2)) => Ok(((secret, token), n1 + n2)),
        },
    }
}

impl EncryptionResponse {
    pub fn from_bytes(buf: &mut Reader) -> (r: Result<EncryptionResponse, ProtocolError>)
        requires
            old(buf).wf(),
        ensures
            final(buf).wf(),
            read_as(parse_encryption_response(old(buf).rest()), view_result(r), old(buf).rest(), final(buf).rest()),
    {
        reveal(parse_encryption_response);
        let shared_secret = match buf.get_bytes() {
            Ok(v) => v,
            Err(e) => return Err(e),
        };
        let verify_token = match buf.get_bytes() {
            Ok(v) => v,
            Err(e) => return Err(e),
        };
        Ok(EncryptionResponse { shared_secret, verify_token })
    }

    pub fn put_buf(&self, dst: &mut Vec<u8>)
        ensures
            final(dst)@ == old(dst)@ + byte_array_bytes(self.shared_secret@) + byte_array_bytes(
                self.verify_token@,
            ),
    {
        put_byte_array(dst, self.shared_secret.as_slice());
        put_byte_array(dst, self.verify_token.as_slice());
    }
}

pub struct LoginPluginRequest {
    pub message_id: i32,
    pub channel: String,
    pub data: Vec<u8>,
}

impl View for LoginPluginRequest {
    type V = (i32, Seq<char>, Seq<u8>);

    open spec fn view(&self) -> Self::V {
        (self.message_id, self.channel@, self.data@)
    }
}

/// A login plugin request, which exists from 1.13 on: message id, channel,
/// and the rest of the body as data.
#[verifier::opaque]
pub open spec fn parse_login_plugin_request(s: Seq<u8>, v: ProtocolVersion) -> Parsed<(i32, Seq<char>, Seq<u8>)> {
    if v.rank_spec() < ProtocolVersion::V1_13.rank_spec() {
        Err(ProtocolError::UnknownPacket)
    } else {
        match parse_varint(s) {
            Err(e) => Err(e),
            Ok((id, n1)) => match parse_string(skip(s, n1), IDENTIFIER_MAX) {
                Err(e) => Err(e),
                Ok((channel, n2)) => Ok(((id, channel, skip(s, n1 + n2)), s.len())),
            },
        }
    }
}

impl LoginPluginRequest {
    pub fn from_bytes(buf: &mut Reader, version: ProtocolVersion) -> (r: Result<LoginPluginRequest, ProtocolError>)
        requires
            old(buf).wf(),
        ensures
            final(buf).wf(),
            read_as(
                parse_login_plugin_request(old(buf).rest(), version),
                view_result(r),
                old(buf).rest(),
                final(buf).rest(),
            ),
    {
        reveal(parse_login_plugin_request);
        if !version.at_least(ProtocolVersion::V1_13) {
            return Err(ProtocolError::UnknownPacket);
        }
        let ghost s0 = old(buf).rest();
        let message_id = match buf.get_varint() {
            Ok(v) => v,
            Err(e) => return Err(e),
        };
        let channel = match buf.get_identifier() {
            Ok(v) => v,
            Err(e) => return Err(e),
        };
        let data = buf.rest_bytes();
        assert(buf.rest() =~= skip(s0, s0.len()));
        Ok(LoginPluginRequest { message_id, channel, data })
    }

    pub fn put_buf(&self, dst: &mut Vec<u8>)
        ensures
            final(dst)@ == old(dst)@ + varint_bytes(self.message_id as u32) + string_bytes(
                self.channel@,
            ) + self.data@,
    {
        put_varint(dst, self.message_id);
        put_string(dst, self.channel.as_str());
        put_slice(dst, self.data.as_slice());
    }
}

pub struct LoginPluginResponse {
    pub message_id: i32,
    pub successful: bool,
    pub data: Option<Vec<u8>>,
}

impl View for LoginPluginResponse {
    type V = (i32, bool, Option<Seq<u8>>);

    open spec fn view(&self) -> Self::V {
        (
            self.message_id,
            self.successful,
            match &self.data {
                Some(d) => Some(d@),
                None => None,
            },
        )
    }
}

/// A login plugin response: message id, success flag, and where it
/// succeeded and bytes are left, those bytes as data.
#[verifier::opaque]
pub open spec fn parse_login_plugin_response(s: Seq<u8>) -> Parsed<(i32, bool, Option<Seq<u8>>)> {
    match parse_varint(s) {
        Err(e) => Err(e),
        Ok((id, n1)) => match parse_bool(skip(s, n1)) {
            Err(e) => Err(e),
            Ok((ok, n2)) => if ok && n1 + n2 < s.len() {
                Ok(((id, ok, Some(skip(s, n1 + n2))), s.len()))
            } else {
                Ok(((id, ok, None), n1 + n2))
            },
        },
    }
}

impl LoginPluginResponse {
    pub fn from_bytes(buf: &mut Reader) -> (r: Result<LoginPluginResponse, ProtocolError>)
        requires
            old(buf).wf(),
        ensures
            final(buf).wf(),
            read_as(parse_login_plugin_response(old(buf).rest()), view_result(r), old(buf).rest(), final(buf).rest()),
    {
        reveal(parse_login_plugin_response);
        let ghost s0 = old(buf).rest();
        let message_id = match buf.get_varint() {
            Ok(v) => v,
            Err(e) => return Err(e),
        };
        let successful = match buf.get_bool() {
            Ok(v) => v,
            Err(e) => return Err(e),
        };
        if successful && buf.remaining() > 0 {
            let data = buf.rest_bytes();
            assert(buf.rest() =~= skip(s0, s0.len()));
            Ok(LoginPluginResponse { message_id, successful, data: Some(data) })
        } else {
            Ok(LoginPluginResponse { message_id, successful, data: None })
        }
    }

    pub fn put_buf(&self, dst: &mut Vec<u8>)
        ensures
            final(dst)@ == old(dst)@ + varint_bytes(self.message_id as u32) + seq![
                bool_byte(self.successful),
            ] + match &self.data {
                Some(d) => if self.successful {
                    d@
                } else {
                    Seq::empty()
                },
                None => Seq::empty(),
            },
    {
        put_varint(dst, self.message_id);
        put_bool(dst, self.successful);
        if self.successful {
            match &self.data {
                Some(d) => put_slice(dst, d.as_slice()),
                None => {},
            }
        }
        assert(final(dst)@ =~= old(dst)@ + varint_bytes(self.message_id as u32) + seq![
            bool_byte(self.successful),
        ] + match &self.data {
            Some(d) => if self.successful {
                d@
            } else {
                Seq::empty()
            },
            None => Seq::empty(),
        });
    }
}

/// The client's acknowledgement of a login success; it has no fields.
pub struct LoginAcknowledged;

} // verus!
