//! Typed readers and writers over a byte buffer.
//!
//! Each reader is described by a `parse_*` function over the unread bytes: it
//! gives the value read and how many bytes it takes, or the error.
use vstd::prelude::*;
use vstd::utf8::*;

use crate::error::ProtocolError;
use crate::varint::{
    lemma_varint_parse_bound, put_uvarint, read_varint, varint_bytes, varint_parse,
};

verus! {

pub type Parsed<T> = Result<(T, nat), ProtocolError>;

pub open spec fn pow256(k: nat) -> nat
    decreases k,
{
    if k == 0 {
        1
    } else {
        256 * pow256((k - 1) as nat)
    }
}

/// The unsigned big-endian value of `s`.
pub open spec fn be_value(s: Seq<u8>) -> nat
    decreases s.len(),
{
    if s.len() == 0 {
        0
    } else {
        be_value(s.drop_last()) * 256 + s.last() as nat
    }
}

/// The low `n` bytes of `x`, most significant first.
pub open spec fn be_bytes(x: nat, n: nat) -> Seq<u8>
    decreases n,
{
    if n == 0 {
        Seq::empty()
    } else {
        be_bytes(x / 256, (n - 1) as nat).push((x % 256) as u8)
    }
}

/// The bytes of a string on the wire: its UTF-8 length, then its UTF-8 bytes.
pub open spec fn string_bytes(s: Seq<char>) -> Seq<u8> {
    varint_bytes(encode_utf8(s).len() as u32) + encode_utf8(s)
}

/// The bytes of a byte array on the wire: its length, then its bytes.
pub open spec fn byte_array_bytes(b: Seq<u8>) -> Seq<u8> {
    varint_bytes(b.len() as u32) + b
}

pub open spec fn bool_byte(b: bool) -> u8 {
    if b {
        1
    } else {
        0
    }
}

/// `s` past its first `n` bytes.
pub open spec fn skip(s: Seq<u8>, n: nat) -> Seq<u8> {
    s.subrange(n as int, s.len() as int)
}

pub open spec fn parse_u8(s: Seq<u8>) -> Parsed<u8> {
    if s.len() >= 1 {
        Ok((s[0], 1))
    } else {
        Err(ProtocolError::UnexpectedEnd)
    }
}

/// An unsigned big-endian integer of `n` bytes.
pub open spec fn parse_be(s: Seq<u8>, n: nat) -> Parsed<nat> {
    if s.len() >= n {
        Ok((be_value(s.subrange(0, n as int)), n))
    } else {
        Err(ProtocolError::UnexpectedEnd)
    }
}

pub open spec fn parse_varint(s: Seq<u8>) -> Parsed<i32> {
    match varint_parse(s, 5) {
        Some((v, n)) => Ok((v as i32, n)),
        None => if s.len() >= 5 {
            Err(ProtocolError::VarintTooLong)
        } else {
            Err(ProtocolError::UnexpectedEnd)
        },
    }
}

pub open spec fn parse_bool(s: Seq<u8>) -> Parsed<bool> {
    match parse_u8(s) {
        Ok((b, n)) => if b == 0 {
            Ok((false, n))
        } else if b == 1 {
            Ok((true, n))
        } else {
            Err(ProtocolError::InvalidBool)
        },
        Err(e) => Err(e),
    }
}

/// A length-prefixed UTF-8 string of at most `3 * max` bytes.
pub open spec fn parse_string(s: Seq<u8>, max: i32) -> Parsed<Seq<char>> {
    match parse_varint(s) {
        Ok((len, h)) => if len < 0 {
            Err(ProtocolError::NegativeLength)
        } else if len > 3 * max {
            Err(ProtocolError::StringTooLong)
        } else if h + len > s.len() {
            Err(ProtocolError::UnexpectedEnd)
        } else if !valid_utf8(s.subrange(h as int, h + len)) {
            Err(ProtocolError::InvalidUtf8)
        } else {
            Ok((decode_utf8(s.subrange(h as int, h + len)), h + len as nat))
        },
        Err(e) => Err(e),
    }
}

/// A length-prefixed byte array that fits in what is left.
pub open spec fn parse_byte_array(s: Seq<u8>) -> Parsed<Seq<u8>> {
    match parse_varint(s) {
        Ok((len, h)) => if len < 0 || h + len > s.len() {
            Err(ProtocolError::InvalidLength)
        } else {
            Ok((s.subrange(h as int, h + len), h + len as nat))
        },
        Err(e) => Err(e),
    }
}

/// A length-prefixed byte array whose length must be `n`.
pub open spec fn parse_fixed_array(s: Seq<u8>, n: nat) -> Parsed<Seq<u8>> {
    match parse_varint(s) {
        Ok((len, h)) => if len != n || h + n > s.len() {
            Err(ProtocolError::InvalidLength)
        } else {
            Ok((s.subrange(h as int, (h + n) as int), h + n))
        },
        Err(e) => Err(e),
    }
}

/// A length-prefixed JSON text, kept as its UTF-8 text.
pub open spec fn parse_json_text(s: Seq<u8>) -> Parsed<Seq<char>> {
    match parse_varint(s) {
        Ok((len, h)) => if len < 0 || h + len > s.len() {
            Err(ProtocolError::InvalidLength)
        } else if !valid_utf8(s.subrange(h as int, h + len)) {
            Err(ProtocolError::InvalidUtf8)
        } else {
            Ok((decode_utf8(s.subrange(h as int, h + len)), h + len as nat))
        },
        Err(e) => Err(e),
    }
}

/// `r` is what a reader that the parse `p` describes returns, and `after` is
/// what it leaves of `before`.
pub open spec fn read_as<T>(p: Parsed<T>, r: Result<T, ProtocolError>, before: Seq<u8>, after: Seq<u8>) -> bool {
    match p {
        Ok((v, n)) => r == Ok::<T, ProtocolError>(v) && n <= before.len() && after == skip(before, n),
        Err(e) => r == Err::<T, ProtocolError>(e),
    }
}

/// The view of a reader's result.
pub open spec fn view_result<T: View>(r: Result<T, ProtocolError>) -> Result<T::V, ProtocolError> {
    match r {
        Ok(v) => Ok(v@),
        Err(e) => Err(e),
    }
}

pub broadcast proof fn lemma_skip_skip(s: Seq<u8>, a: nat, b: nat)
    requires
        a + b <= s.len(),
    ensures
        #[trigger] skip(skip(s, a), b) == skip(s, a + b),
{
    assert(skip(skip(s, a), b) =~= skip(s, a + b));
}

pub broadcast proof fn lemma_skip_append(s: Seq<u8>, t: Seq<u8>, n: nat)
    requires
        n <= s.len(),
    ensures
        #[trigger] skip(s + t, n) == skip(s, n) + t,
{
    assert(skip(s + t, n) =~= skip(s, n) + t);
}

/// The primitive readers read the same from a sequence with bytes appended,
/// wherever they succeed on it.
pub proof fn lemma_primitive_prefix(s: Seq<u8>, t: Seq<u8>, n: nat, max: i32)
    ensures
        parse_u8(s) is Ok ==> parse_u8(s + t) == parse_u8(s),
        parse_be(s, n) is Ok ==> parse_be(s + t, n) == parse_be(s, n),
        parse_varint(s) is Ok ==> parse_varint(s + t) == parse_varint(s),
        parse_bool(s) is Ok ==> parse_bool(s + t) == parse_bool(s),
        parse_string(s, max) is Ok ==> parse_string(s + t, max) == parse_string(s, max),
        parse_byte_array(s) is Ok ==> parse_byte_array(s + t) == parse_byte_array(s),
        parse_fixed_array(s, n) is Ok ==> parse_fixed_array(s + t, n) == parse_fixed_array(s, n),
        parse_json_text(s) is Ok ==> parse_json_text(s + t) == parse_json_text(s),
        parse_u8(s) matches Ok((_, k)) ==> k <= s.len(),
        parse_be(s, n) matches Ok((_, k)) ==> k <= s.len(),
        parse_varint(s) matches Ok((_, k)) ==> k <= s.len(),
        parse_bool(s) matches Ok((_, k)) ==> k <= s.len(),
        parse_string(s, max) matches Ok((_, k)) ==> k <= s.len(),
        parse_byte_array(s) matches Ok((_, k)) ==> k <= s.len(),
        parse_fixed_array(s, n) matches Ok((_, k)) ==> k <= s.len(),
        parse_json_text(s) matches Ok((_, k)) ==> k <= s.len(),
{
    let st = s + t;
    if s.len() >= 1 {
        assert(st[0] == s[0]);
    }
    if s.len() >= n {
        assert(st.subrange(0, n as int) =~= s.subrange(0, n as int));
    }
    if let Some((v, k)) = varint_parse(s, 5) {
        lemma_varint_parse_bound(s, 5);
        assert(st.subrange(0, k as int) =~= s.subrange(0, k as int));
        crate::codec::lemma_parse_prefix(s, st, 5);
        let len = v as i32;
        if len >= 0 && k + len <= s.len() {
            assert(st.subrange(k as int, k + len) =~= s.subrange(k as int, k + len));
        }
        if k + n <= s.len() {
            assert(st.subrange(k as int, (k + n) as int) =~= s.subrange(k as int, (k + n) as int));
        }
    }
}

pub proof fn lemma_be_round_trip(x: nat, n: nat)
    requires
        x < pow256(n),
    ensures
        be_bytes(x, n).len() == n,
        be_value(be_bytes(x, n)) == x,
    decreases n,
{
    if n > 0 {
        assert(x / 256 < pow256((n - 1) as nat));
        lemma_be_round_trip(x / 256, (n - 1) as nat);
        let b = be_bytes(x, n);
        assert(b.drop_last() =~= be_bytes(x / 256, (n - 1) as nat));
    }
}

/// What the writers write, the readers read back, whatever follows it.
pub proof fn lemma_primitive_round_trip(t: Seq<u8>, x: nat, n: nat, c: Seq<char>, max: i32, b: bool, v: i32)
    ensures
        x < pow256(n) ==> parse_be(be_bytes(x, n) + t, n) == Ok::<(nat, nat), ProtocolError>((x, n)),
        parse_bool(seq![bool_byte(b)] + t) == Ok::<(bool, nat), ProtocolError>((b, 1nat)),
        parse_varint(varint_bytes(v as u32) + t) == Ok::<(i32, nat), ProtocolError>(
            (v, varint_bytes(v as u32).len()),
        ),
        0 <= max <= 715827882 && encode_utf8(c).len() <= 3 * max ==> parse_string(string_bytes(c) + t, max)
            == Ok::<(Seq<char>, nat), ProtocolError>((c, string_bytes(c).len())),
        encode_utf8(c).len() <= i32::MAX ==> parse_json_text(string_bytes(c) + t) == Ok::<
            (Seq<char>, nat),
            ProtocolError,
        >((c, string_bytes(c).len())),
{
    if x < pow256(n) {
        lemma_be_round_trip(x, n);
        assert((be_bytes(x, n) + t).subrange(0, n as int) =~= be_bytes(x, n));
    }
    assert((seq![bool_byte(b)] + t)[0] == bool_byte(b));
    crate::varint::lemma_varint_round_trip(v as u32, t);
    assert((v as u32) as i32 == v) by (bit_vector);
    let e = encode_utf8(c);
    if e.len() <= i32::MAX {
        let l = e.len() as u32;
        let s = string_bytes(c) + t;
        crate::varint::lemma_varint_round_trip(l, e + t);
        assert(s =~= varint_bytes(l) + (e + t));
        let h = varint_bytes(l).len();
        assert(s.subrange(h as int, (h + e.len()) as int) =~= e);
        encode_utf8_valid_utf8(c);
        encode_utf8_decode_utf8(c);
        assert((l as i32) as int == e.len());
    }
}

/// A string read with limit `max` takes at most `3 * max` bytes as UTF-8.
pub proof fn lemma_string_len(s: Seq<u8>, max: i32)
    ensures
        parse_string(s, max) matches Ok((chars, n)) ==> encode_utf8(chars).len() <= 3 * max,
{
    if let Ok((len, h)) = parse_varint(s) {
        if len >= 0 && len <= 3 * max && h + len <= s.len() {
            let sub = s.subrange(h as int, h + len);
            if valid_utf8(sub) {
                decode_utf8_encode_utf8(sub);
            }
        }
    }
}

pub proof fn lemma_pow256_values()
    ensures
        pow256(1) == 0x100,
        pow256(2) == 0x1_0000,
        pow256(4) == 0x1_0000_0000,
        pow256(8) == 0x1_0000_0000_0000_0000,
        pow256(15) == 0x1_0000_0000_0000_0000_0000_0000_0000_00,
        pow256(16) == 0x1_0000_0000_0000_0000_0000_0000_0000_0000,
{
    reveal_with_fuel(pow256, 17);
}

pub proof fn lemma_pow256_mono(a: nat, b: nat)
    requires
        a <= b,
    ensures
        pow256(a) <= pow256(b),
    decreases b,
{
    if a < b {
        lemma_pow256_mono(a, (b - 1) as nat);
    }
}

/// Appends the bytes of `src`.
pub fn put_slice(dst: &mut Vec<u8>, src: &[u8])
    ensures
        final(dst)@ == old(dst)@ + src@,
{
    let ghost start = dst@;
    let mut i: usize = 0;
    while i < src.len()
        invariant
            i <= src@.len(),
            dst@ == start + src@.subrange(0, i as int),
        decreases src@.len() - i,
    {
        dst.push(src[i]);
        i = i + 1;
        assert(dst@ =~= start + src@.subrange(0, i as int));
    }
    assert(src@.subrange(0, i as int) =~= src@);
}

/// Copies `src[from..to]` into a new vector.
pub fn copy_range(src: &[u8], from: usize, to: usize) -> (r: Vec<u8>)
    requires
        from <= to <= src@.len(),
    ensures
        r@ == src@.subrange(from as int, to as int),
{
    let mut r: Vec<u8> = Vec::new();
    let mut i = from;
    while i < to
        invariant
            from <= i <= to <= src@.len(),
            r@ == src@.subrange(from as int, i as int),
        decreases to - i,
    {
        r.push(src[i]);
        i = i + 1;
        assert(r@ =~= src@.subrange(from as int, i as int));
    }
    r
}

pub fn put_u8(dst: &mut Vec<u8>, v: u8)
    ensures
        final(dst)@ == old(dst)@.push(v),
{
    dst.push(v);
}

/// Appends the low `n` bytes of `x`, most significant first.
pub fn put_be(dst: &mut Vec<u8>, x: u128, n: usize)
    requires
        n <= 16,
    ensures
        final(dst)@ == old(dst)@ + be_bytes(x as nat, n as nat),
{
    let mut tmp: Vec<u8> = Vec::new();
    while tmp.len() < n
        invariant
            tmp@.len() <= n,
        decreases n - tmp@.len(),
    {
        tmp.push(0);
    }
    let mut v = x;
    let mut k = n;
    while k > 0
        invariant
            k <= n,
            tmp@.len() == n,
            be_bytes(x as nat, n as nat) == be_bytes(v as nat, k as nat) + tmp@.subrange(
                k as int,
                n as int,
            ),
        decreases k,
    {
        let ghost old_tmp = tmp@;
        tmp.set(k - 1, (v % 256) as u8);
        assert(tmp@.subrange(k - 1, n as int) =~= seq![(v % 256) as u8] + old_tmp.subrange(
            k as int,
            n as int,
        ));
        assert(be_bytes(v as nat, k as nat) == be_bytes((v / 256) as nat, (k - 1) as nat).push(
            (v % 256) as u8,
        ));
        assert(be_bytes(v as nat, k as nat) + old_tmp.subrange(k as int, n as int) =~= be_bytes(
            (v / 256) as nat,
            (k - 1) as nat,
        ) + tmp@.subrange(k - 1, n as int));
        v = v / 256;
        k = k - 1;
    }
    assert(tmp@.subrange(0, n as int) =~= tmp@);
    put_slice(dst, tmp.as_slice());
}

pub fn put_bool(dst: &mut Vec<u8>, b: bool)
    ensures
        final(dst)@ == old(dst)@.push(bool_byte(b)),
{
    dst.push(if b {
        1
    } else {
        0
    });
}

/// Appends a string's UTF-8 length and bytes.
pub fn put_string(dst: &mut Vec<u8>, s: &str)
    ensures
        final(dst)@ == old(dst)@ + string_bytes(s@),
{
    let bytes = s.as_bytes();
    put_uvarint(dst, bytes.len() as u32);
    put_slice(dst, bytes);
    assert(final(dst)@ =~= old(dst)@ + string_bytes(s@));
}

/// Appends a byte array's length and bytes.
pub fn put_byte_array(dst: &mut Vec<u8>, b: &[u8])
    ensures
        final(dst)@ == old(dst)@ + byte_array_bytes(b@),
{
    put_uvarint(dst, b.len() as u32);
    put_slice(dst, b);
    assert(final(dst)@ =~= old(dst)@ + byte_array_bytes(b@));
}

/// Relies on `String::from_utf8`: it accepts exactly the byte vectors that
/// are valid UTF-8, and the string it returns holds those bytes.
#[verifier::external_body]
fn string_from_utf8(bytes: Vec<u8>) -> (r: Option<String>)
    ensures
        r is Some <==> valid_utf8(bytes@),
        r matches Some(s) ==> encode_utf8(s@) == bytes@,
{
    String::from_utf8(bytes).ok()
}

/// The unread part of a frame body.
pub struct Reader {
    pub data: Vec<u8>,
    pub pos: usize,
}

impl Reader {
    pub open spec fn wf(&self) -> bool {
        self.pos <= self.data@.len()
    }

    /// The bytes not read yet.
    pub open spec fn rest(&self) -> Seq<u8> {
        self.data@.subrange(self.pos as int, self.data@.len() as int)
    }

    pub fn new(data: Vec<u8>) -> (r: Reader)
        ensures
            r.wf(),
            r.rest() == data@,
    {
        let r = Reader { data, pos: 0 };
        assert(r.rest() =~= r.data@);
        r
    }

    pub fn remaining(&self) -> (r: usize)
        requires
            self.wf(),
        ensures
            r == self.rest().len(),
    {
        self.data.len() - self.pos
    }

    /// Takes every byte that is left.
    pub fn rest_bytes(&mut self) -> (r: Vec<u8>)
        requires
            old(self).wf(),
        ensures
            final(self).wf(),
            r@ == old(self).rest(),
            final(self).rest().len() == 0,
    {
        let r = copy_range(self.data.as_slice(), self.pos, self.data.len());
        self.pos = self.data.len();
        r
    }

    fn take(&mut self, n: usize) -> (r: Vec<u8>)
        requires
            old(self).wf(),
            n <= old(self).rest().len(),
        ensures
            final(self).wf(),
            r@ == old(self).rest().subrange(0, n as int),
            final(self).rest() == skip(old(self).rest(), n as nat),
            final(self).data == old(self).data,
    {
        let len = self.data.len();
        assert(self.pos + n <= len);
        let r = copy_range(self.data.as_slice(), self.pos, self.pos + n);
        self.pos = self.pos + n;
        assert(r@ =~= old(self).rest().subrange(0, n as int));
        assert(self.rest() =~= skip(old(self).rest(), n as nat));
        r
    }

    pub fn get_u8(&mut self) -> (r: Result<u8, ProtocolError>)
        requires
            old(self).wf(),
        ensures
            final(self).wf(),
            read_as(parse_u8(old(self).rest()), r, old(self).rest(), final(self).rest()),
    {
        if self.pos >= self.data.len() {
            return Err(ProtocolError::UnexpectedEnd);
        }
        let b = self.data[self.pos];
        self.pos = self.pos + 1;
        assert(self.rest() =~= skip(old(self).rest(), 1));
        Ok(b)
    }

    /// Reads an unsigned big-endian integer of `n` bytes.
    pub fn get_be(&mut self, n: usize) -> (r: Result<u128, ProtocolError>)
        requires
            old(self).wf(),
            n <= 16,
        ensures
            final(self).wf(),
            read_as(
                parse_be(old(self).rest(), n as nat),
                match r {
                    Ok(v) => Ok(v as nat),
                    Err(e) => Err(e),
                },
                old(self).rest(),
                final(self).rest(),
            ),
            r matches Ok(v) ==> v < pow256(n as nat),
    {
        if self.data.len() - self.pos < n {
            return Err(ProtocolError::UnexpectedEnd);
        }
        let ghost s = old(self).rest();
        let total = self.data.len();
        let mut acc: u128 = 0;
        let mut j: usize = 0;
        proof {
            lemma_pow256_values();
        }
        while j < n
            invariant
                j <= n <= 16,
                n <= s.len(),
                self.wf(),
                self.data == old(self).data,
                self.pos == old(self).pos,
                s == self.rest(),
                total == self.data@.len(),
                self.pos + n <= total,
                acc as nat == be_value(s.subrange(0, j as int)),
                acc < pow256(j as nat),
                pow256(15) == 0x1_0000_0000_0000_0000_0000_0000_0000_00,
            decreases n - j,
        {
            let b = self.data[self.pos + j];
            assert(b == s[j as int]);
            assert(s.subrange(0, j + 1).drop_last() =~= s.subrange(0, j as int));
            proof {
                lemma_pow256_mono(j as nat, 15);
                let p = pow256(j as nat);
                assert(acc * 256 + b < p * 256) by (nonlinear_arith)
                    requires
                        acc < p,
                        b < 256,
                ;
            }
            acc = acc * 256 + b as u128;
            j = j + 1;
        }
        self.pos = self.pos + n;
        assert(self.rest() =~= skip(s, n as nat));
        Ok(acc)
    }

    pub fn get_u16(&mut self) -> (r: Result<u16, ProtocolError>)
        requires
            old(self).wf(),
        ensures
            final(self).wf(),
            read_as(
                parse_be(old(self).rest(), 2),
                match r {
                    Ok(v) => Ok(v as nat),
                    Err(e) => Err(e),
                },
                old(self).rest(),
                final(self).rest(),
            ),
    {
        proof {
            lemma_pow256_values();
        }
        match self.get_be(2) {
            Ok(v) => Ok(v as u16),
            Err(e) => Err(e),
        }
    }

    pub fn get_i32(&mut self) -> (r: Result<i32, ProtocolError>)
        requires
            old(self).wf(),
        ensures
            final(self).wf(),
            read_as(
                parse_be(old(self).rest(), 4),
                match r {
                    Ok(v) => Ok((v as u32) as nat),
                    Err(e) => Err(e),
                },
                old(self).rest(),
                final(self).rest(),
            ),
    {
        proof {
            lemma_pow256_values();
        }
        match self.get_be(4) {
            Ok(v) => {
                let u = v as u32;
                assert((u as i32) as u32 == u) by (bit_vector);
                Ok(u as i32)
            },
            Err(e) => Err(e),
        }
    }

    pub fn get_i64(&mut self) -> (r: Result<i64, ProtocolError>)
        requires
            old(self).wf(),
        ensures
            final(self).wf(),
            read_as(
                parse_be(old(self).rest(), 8),
                match r {
                    Ok(v) => Ok((v as u64) as nat),
                    Err(e) => Err(e),
                },
                old(self).rest(),
                final(self).rest(),
            ),
    {
        proof {
            lemma_pow256_values();
        }
        match self.get_be(8) {
            Ok(v) => {
                let u = v as u64;
                assert((u as i64) as u64 == u) by (bit_vector);
                Ok(u as i64)
            },
            Err(e) => Err(e),
        }
    }

    /// Reads 16 raw bytes as a big-endian 128-bit value.
    pub fn get_uuid(&mut self) -> (r: Result<u128, ProtocolError>)
        requires
            old(self).wf(),
        ensures
            final(self).wf(),
            read_as(
                parse_be(old(self).rest(), 16),
                match r {
                    Ok(v) => Ok(v as nat),
                    Err(e) => Err(e),
                },
                old(self).rest(),
                final(self).rest(),
            ),
    {
        self.get_be(16)
    }

    pub fn get_varint(&mut self) -> (r: Result<i32, ProtocolError>)
        requires
            old(self).wf(),
        ensures
            final(self).wf(),
            read_as(parse_varint(old(self).rest()), r, old(self).rest(), final(self).rest()),
    {
        proof {
            lemma_varint_parse_bound(self.rest(), 5);
        }
        match read_varint(self.data.as_slice(), self.pos, 5) {
            Some((v, n)) => {
                let len = self.data.len();
                assert(self.pos + n <= len);
                self.pos = self.pos + n;
                assert(self.rest() =~= skip(old(self).rest(), n as nat));
                Ok(#[verifier::truncate] (v as i32))
            },
            None => {
                if self.data.len() - self.pos >= 5 {
                    Err(ProtocolError::VarintTooLong)
                } else {
                    Err(ProtocolError::UnexpectedEnd)
                }
            },
        }
    }

    pub fn get_bool(&mut self) -> (r: Result<bool, ProtocolError>)
        requires
            old(self).wf(),
        ensures
            final(self).wf(),
            read_as(parse_bool(old(self).rest()), r, old(self).rest(), final(self).rest()),
    {
        match self.get_u8() {
            Ok(0) => Ok(false),
            Ok(1) => Ok(true),
            Ok(_) => Err(ProtocolError::InvalidBool),
            Err(e) => Err(e),
        }
    }

    /// Reads a length-prefixed UTF-8 string of at most `3 * max` bytes.
    pub fn get_string(&mut self, max: i32) -> (r: Result<String, ProtocolError>)
        requires
            old(self).wf(),
            0 <= max <= 715827882,
        ensures
            final(self).wf(),
            read_as(
                parse_string(old(self).rest(), max),
                match r {
                    Ok(s) => Ok(s@),
                    Err(e) => Err(e),
                },
                old(self).rest(),
                final(self).rest(),
            ),
    {
        let ghost s0 = old(self).rest();
        let len = match self.get_varint() {
            Ok(len) => len,
            Err(e) => return Err(e),
        };
        if len < 0 {
            return Err(ProtocolError::NegativeLength);
        }
        if len > 3 * max {
            return Err(ProtocolError::StringTooLong);
        }
        if len as usize > self.remaining() {
            return Err(ProtocolError::UnexpectedEnd);
        }
        let ghost h = s0.len() - self.rest().len();
        let bytes = self.take(len as usize);
        assert(bytes@ =~= s0.subrange(h, h + len));
        assert(self.rest() =~= skip(s0, (h + len) as nat));
        match string_from_utf8(bytes) {
            Some(s) => {
                proof {
                    encode_utf8_decode_utf8(s@);
                }
                Ok(s)
            },
            None => Err(ProtocolError::InvalidUtf8),
        }
    }

    /// Reads an identifier: a string of at most 32767 characters.
    pub fn get_identifier(&mut self) -> (r: Result<String, ProtocolError>)
        requires
            old(self).wf(),
        ensures
            final(self).wf(),
            read_as(
                parse_string(old(self).rest(), 32767),
                match r {
                    Ok(s) => Ok(s@),
                    Err(e) => Err(e),
                },
                old(self).rest(),
                final(self).rest(),
            ),
    {
        self.get_string(32767)
    }

    /// Reads a length-prefixed byte array that fits in what is left.
    pub fn get_bytes(&mut self) -> (r: Result<Vec<u8>, ProtocolError>)
        requires
            old(self).wf(),
        ensures
            final(self).wf(),
            read_as(
                parse_byte_array(old(self).rest()),
                match r {
                    Ok(b) => Ok(b@),
                    Err(e) => Err(e),
                },
                old(self).rest(),
                final(self).rest(),
            ),
    {
        let ghost s0 = old(self).rest();
        let len = match self.get_varint() {
            Ok(len) => len,
            Err(e) => return Err(e),
        };
        if len < 0 || len as usize > self.remaining() {
            return Err(ProtocolError::InvalidLength);
        }
        let ghost h = s0.len() - self.rest().len();
        let bytes = self.take(len as usize);
        assert(bytes@ =~= s0.subrange(h, h + len));
        assert(self.rest() =~= skip(s0, (h + len) as nat));
        Ok(bytes)
    }

    /// Reads a length-prefixed byte array whose length must be `n`.
    pub fn get_byte_array(&mut self, n: usize) -> (r: Result<Vec<u8>, ProtocolError>)
        requires
            old(self).wf(),
            n <= i32::MAX,
        ensures
            final(self).wf(),
            read_as(
                parse_fixed_array(old(self).rest(), n as nat),
                match r {
                    Ok(b) => Ok(b@),
                    Err(e) => Err(e),
                },
                old(self).rest(),
                final(self).rest(),
            ),
    {
        let ghost s0 = old(self).rest();
        let len = match self.get_varint() {
            Ok(len) => len,
            Err(e) => return Err(e),
        };
        if len < 0 || len as usize != n || n > self.remaining() {
            return Err(ProtocolError::InvalidLength);
        }
        let ghost h = s0.len() - self.rest().len();
        let bytes = self.take(n);
        assert(bytes@ =~= s0.subrange(h, h + n));
        assert(self.rest() =~= skip(s0, (h + n) as nat));
        Ok(bytes)
    }

    /// Reads a length-prefixed JSON text component, as its text.
    pub fn get_component(&mut self) -> (r: Result<String, ProtocolError>)
        requires
            old(self).wf(),
        ensures
            final(self).wf(),
            read_as(
                parse_json_text(old(self).rest()),
                match r {
                    Ok(s) => Ok(s@),
                    Err(e) => Err(e),
                },
                old(self).rest(),
                final(self).rest(),
            ),
    {
        let ghost s0 = old(self).rest();
        let len = match self.get_varint() {
            Ok(len) => len,
            Err(e) => return Err(e),
        };
        if len < 0 || len as usize > self.remaining() {
            return Err(ProtocolError::InvalidLength);
        }
        let ghost h = s0.len() - self.rest().len();
        let bytes = self.take(len as usize);
        assert(bytes@ =~= s0.subrange(h, h + len));
        assert(self.rest() =~= skip(s0, (h + len) as nat));
        match string_from_utf8(bytes) {
            Some(s) => {
                proof {
                    encode_utf8_decode_utf8(s@);
                }
                Ok(s)
            },
            None => Err(ProtocolError::InvalidUtf8),
        }
    }
}

} // verus!
