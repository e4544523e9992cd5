//! Variable-length integers: seven value bits per byte, least significant
//! group first, high bit set on every byte but the last.
use vstd::prelude::*;

verus! {

/// Largest payload a frame may carry: the range of a three-byte varint.
pub const MAX_PACKET_SIZE: usize = 2097151;

/// Number of bytes the frame length prefix may take.
pub const MAX_HEADER_LENGTH: usize = 3;

pub open spec fn pow128(k: nat) -> nat
    decreases k,
{
    if k == 0 {
        1
    } else {
        128 * pow128((k - 1) as nat)
    }
}

/// The minimal encoding of `v`.
pub open spec fn varint_bytes(v: u32) -> Seq<u8>
    decreases v,
{
    if v < 128 {
        seq![v as u8]
    } else {
        seq![(v % 128 + 128) as u8] + varint_bytes(v / 128)
    }
}

/// Length of the minimal encoding of `v`.
pub open spec fn varint_len(v: u32) -> nat {
    if v < 0x80 {
        1
    } else if v < 0x4000 {
        2
    } else if v < 0x20_0000 {
        3
    } else if v < 0x1000_0000 {
        4
    } else {
        5
    }
}

/// The three-byte encoding of a value below 2^21, used for a length that is
/// written into a slot of fixed width.
pub open spec fn varint21_bytes(v: u32) -> Seq<u8> {
    seq![(v % 128 + 128) as u8, ((v / 128) % 128 + 128) as u8, (v / 16384) as u8]
}

/// Sum of the value bits of the first `k` bytes of `s`.
pub open spec fn group_sum(s: Seq<u8>, k: nat) -> nat
    decreases k,
{
    if k == 0 {
        0
    } else {
        group_sum(s, (k - 1) as nat) + (s[k - 1] % 128) as nat * pow128((k - 1) as nat)
    }
}

/// Index of the byte that ends a varint, searching from `j`, where the
/// varint may not extend past byte `lim` of `s`.
pub open spec fn varint_end(s: Seq<u8>, j: nat, lim: nat) -> Option<nat>
    decreases lim - j,
{
    if j >= lim || j >= s.len() {
        None
    } else if s[j as int] < 128 {
        Some(j)
    } else {
        varint_end(s, j + 1, lim)
    }
}

/// The varint at the start of `s`, of at most `lim` bytes: its value, cut to
/// 32 bits, and the number of bytes it takes. `None` where no byte among the
/// first `lim` (or among all of `s`, if shorter) ends it.
pub open spec fn varint_parse(s: Seq<u8>, lim: nat) -> Option<(u32, nat)> {
    match varint_end(s, 0, lim) {
        Some(e) => Some(((group_sum(s, e + 1) % 0x1_0000_0000) as u32, e + 1)),
        None => None,
    }
}

pub proof fn lemma_pow128_bounds(j: nat)
    requires
        j <= 5,
    ensures
        pow128(j) <= 34359738368,
        j <= 4 ==> pow128(j) <= 268435456,
        pow128(0) == 1,
        pow128(1) == 128,
        pow128(2) == 16384,
        pow128(3) == 2097152,
{
    reveal_with_fuel(pow128, 6);
}

proof fn lemma_end_shift(x: u8, s: Seq<u8>, j: nat, lim: nat)
    requires
        x >= 128,
    ensures
        varint_end(seq![x] + s, j + 1, lim + 1) == (match varint_end(s, j, lim) {
            Some(e) => Some(e + 1),
            None => None::<nat>,
        }),
    decreases lim - j,
{
    let xs = seq![x] + s;
    if j >= lim || j >= s.len() {
    } else {
        assert(xs[j + 1 as int] == s[j as int]);
        if s[j as int] >= 128 {
            lemma_end_shift(x, s, j + 1, lim);
        }
    }
}

proof fn lemma_sum_shift(x: u8, s: Seq<u8>, k: nat)
    requires
        k <= s.len(),
    ensures
        group_sum(seq![x] + s, k + 1) == (x % 128) as nat + 128 * group_sum(s, k),
    decreases k,
{
    let xs = seq![x] + s;
    if k == 0 {
        assert(xs[0] == x);
        assert(pow128(0) == 1);
        assert(group_sum(xs, 1) == group_sum(xs, 0) + (xs[0] % 128) as nat * pow128(0));
    } else {
        lemma_sum_shift(x, s, (k - 1) as nat);
        let d = (s[k - 1] % 128) as nat;
        assert(xs[k as int] == s[k - 1]);
        let p = pow128((k - 1) as nat);
        assert(pow128(k) == 128 * p);
        assert(d * (128 * p) == 128 * (d * p)) by (nonlinear_arith);
        assert(group_sum(xs, k) == (x % 128) as nat + 128 * group_sum(s, (k - 1) as nat));
        assert(((xs[k as int] % 128) as nat) == d);
        assert(group_sum(xs, k + 1) == group_sum(xs, k) + d * pow128(k));
        assert(group_sum(s, k) == group_sum(s, (k - 1) as nat) + d * p);
        assert(128 * group_sum(s, (k - 1) as nat) + 128 * (d * p) == 128 * (group_sum(
            s,
            (k - 1) as nat,
        ) + d * p)) by (nonlinear_arith);
    }
}

proof fn lemma_bytes_parse(v: u32, t: Seq<u8>, lim: nat)
    requires
        lim >= varint_len(v),
    ensures
        varint_bytes(v).len() == varint_len(v),
        varint_end(varint_bytes(v) + t, 0, lim) == Some((varint_len(v) - 1) as nat),
        group_sum(varint_bytes(v) + t, varint_len(v)) == v,
    decreases v,
{
    let s = varint_bytes(v) + t;
    if v < 128 {
        assert(s[0] == v as u8);
        assert(pow128(0) == 1);
        assert(group_sum(s, 1) == group_sum(s, 0) + (s[0] % 128) as nat * pow128(0));
    } else {
        let x = (v % 128 + 128) as u8;
        let w = v / 128;
        lemma_bytes_parse(w, t, (lim - 1) as nat);
        let s2 = varint_bytes(w) + t;
        assert(s =~= seq![x] + s2);
        lemma_end_shift(x, s2, 0, (lim - 1) as nat);
        assert(varint_end(s, 0, lim) == varint_end(s, 1, lim));
        lemma_sum_shift(x, s2, varint_len(w));
        assert(varint_len(v) == varint_len(w) + 1);
        assert(x % 128 == v % 128);
        assert(group_sum(s, varint_len(v)) == (x % 128) as nat + 128 * group_sum(s2, varint_len(w)));
    }
}

/// Reading back the encoding of any 32-bit value gives that value and the
/// encoded length, whatever bytes follow it; the encoded length is
/// `varint_len`.
pub proof fn lemma_varint_round_trip(v: u32, rest: Seq<u8>)
    ensures
        varint_bytes(v).len() == varint_len(v),
        1 <= varint_len(v) <= 5,
        varint_parse(varint_bytes(v) + rest, 5) == Some((v, varint_len(v))),
{
    lemma_bytes_parse(v, rest, 5);
}

pub proof fn lemma_varint_end_bound(s: Seq<u8>, j: nat, lim: nat)
    ensures
        varint_end(s, j, lim) matches Some(e) ==> j <= e && e < s.len() && e < lim,
    decreases lim - j,
{
    if j < lim && j < s.len() && s[j as int] >= 128 {
        lemma_varint_end_bound(s, j + 1, lim);
    }
}

/// A varint read from `s` takes at least one and at most `lim` bytes of `s`.
pub proof fn lemma_varint_parse_bound(s: Seq<u8>, lim: nat)
    ensures
        varint_parse(s, lim) matches Some((v, n)) ==> 1 <= n && n <= s.len() && n <= lim,
{
    lemma_varint_end_bound(s, 0, lim);
}

/// The minimal encoding of a frame length reads back within three bytes.
pub proof fn lemma_varint_round_trip_lim3(v: u32, rest: Seq<u8>)
    requires
        v <= MAX_PACKET_SIZE,
    ensures
        varint_len(v) <= 3,
        varint_parse(varint_bytes(v) + rest, 3) == Some((v, varint_len(v))),
{
    lemma_bytes_parse(v, rest, 3);
}

/// The three-byte encoding of a frame length reads back as that length.
pub proof fn lemma_varint21_parse(v: u32, rest: Seq<u8>)
    requires
        v <= MAX_PACKET_SIZE,
    ensures
        varint_parse(varint21_bytes(v) + rest, 3) == Some((v, 3nat)),
{
    let s = varint21_bytes(v) + rest;
    assert(s[0] == (v % 128 + 128) as u8);
    assert(s[1] == ((v / 128) % 128 + 128) as u8);
    assert(s[2] == (v / 16384) as u8);
    reveal_with_fuel(varint_end, 4);
    reveal_with_fuel(group_sum, 4);
    lemma_pow128_bounds(3);
    let a = v / 128;
    assert(a / 128 == v / 16384);
    assert(s[0] % 128 == v % 128);
    assert(s[1] % 128 == a % 128);
    assert(group_sum(s, 3) == (v % 128) as nat + (a % 128) as nat * 128 + (v / 16384) as nat * 16384);
    assert(v == v % 128 + 128 * a);
    assert(a == a % 128 + 128 * (a / 128));
}

/// Five bytes that all carry the continuation bit are no varint, whatever
/// follows them.
pub proof fn lemma_varint_too_long(s: Seq<u8>)
    requires
        s.len() >= 5,
        forall|i: int| 0 <= i < 5 ==> s[i] >= 128,
    ensures
        varint_parse(s, 5) is None,
{
    reveal_with_fuel(varint_end, 6);
}

/// Reads the varint that starts at `start` in `buf`, of at most `lim` bytes:
/// its value, cut to 32 bits, and its length.
pub fn read_varint(buf: &[u8], start: usize, lim: usize) -> (r: Option<(u32, usize)>)
    requires
        start <= buf@.len(),
        lim <= 5,
    ensures
        match r {
            Some((v, n)) => varint_parse(buf@.subrange(start as int, buf@.len() as int), lim as nat)
                == Some((v, n as nat)),
            None => varint_parse(buf@.subrange(start as int, buf@.len() as int), lim as nat) is None,
        },
{
    let ghost s = buf@.subrange(start as int, buf@.len() as int);
    let mut acc: u64 = 0;
    let mut mult: u64 = 1;
    let mut j: usize = 0;
    proof {
        lemma_pow128_bounds(0);
    }
    while j < lim && j < buf.len() - start
        invariant
            j <= lim <= 5,
            start <= buf@.len(),
            s == buf@.subrange(start as int, buf@.len() as int),
            acc == group_sum(s, j as nat),
            mult == pow128(j as nat),
            acc < mult,
            varint_end(s, 0, lim as nat) == varint_end(s, j as nat, lim as nat),
        decreases lim - j,
    {
        let b = buf[start + j];
        assert(b == s[j as int]);
        proof {
            lemma_pow128_bounds(j as nat);
            lemma_pow128_bounds((j + 1) as nat);
            assert(pow128((j + 1) as nat) == 128 * pow128(j as nat));
            let d = (b % 128) as nat;
            assert(acc + d * mult < 128 * mult) by (nonlinear_arith)
                requires
                    acc < mult,
                    d <= 127,
            ;
        }
        acc = acc + ((b % 128) as u64) * mult;
        if b < 128 {
            return Some(((acc % 0x1_0000_0000) as u32, j + 1));
        }
        mult = mult * 128;
        j = j + 1;
    }
    None
}

/// Appends the minimal encoding of `value`.
pub fn put_uvarint(dst: &mut Vec<u8>, value: u32)
    ensures
        final(dst)@ == old(dst)@ + varint_bytes(value),
{
    let ghost start = dst@;
    let mut v = value;
    while v >= 128
        invariant
            dst@ + varint_bytes(v) == start + varint_bytes(value),
        decreases v,
    {
        let ghost before = dst@;
        dst.push((v % 128 + 128) as u8);
        assert(dst@ + varint_bytes(v / 128) =~= before + varint_bytes(v));
        v = v / 128;
    }
    dst.push(v as u8);
    assert(dst@ =~= start + varint_bytes(value));
}

/// Appends the encoding of a signed value: that of its 32 bits.
pub fn put_varint(dst: &mut Vec<u8>, value: i32)
    ensures
        final(dst)@ == old(dst)@ + varint_bytes(value as u32),
{
    put_uvarint(dst, value as u32);
}

/// Appends the encoding of a frame length.
pub fn write_varint(dst: &mut Vec<u8>, value: u32)
    requires
        value <= MAX_PACKET_SIZE,
    ensures
        final(dst)@ == old(dst)@ + varint_bytes(value),
        varint_bytes(value).len() <= 3,
{
    proof {
        lemma_bytes_parse(value, Seq::empty(), 5);
    }
    put_uvarint(dst, value);
}

/// Appends a frame length in exactly three bytes.
pub fn write_21bit_varint(dst: &mut Vec<u8>, value: u32)
    requires
        value <= MAX_PACKET_SIZE,
    ensures
        final(dst)@ == old(dst)@ + varint21_bytes(value),
{
    dst.push((value % 128 + 128) as u8);
    dst.push(((value / 128) % 128 + 128) as u8);
    dst.push((value / 16384) as u8);
    assert(dst@ =~= old(dst)@ + varint21_bytes(value));
}

/// Length of a frame-length prefix: that of the minimal encoding, for the
/// values a frame length can take, and 3 above them.
pub fn varint_length(v: u32) -> (r: u32)
    ensures
        r == if varint_len(v) < 3 { varint_len(v) } else { 3 },
{
    if v <= 127 {
        1
    } else if v <= 16383 {
        2
    } else {
        3
    }
}

/// Length of the minimal encoding of `v`.
pub fn varint_length_usize(v: u32) -> (r: usize)
    ensures
        r == varint_len(v),
        r == varint_bytes(v).len(),
{
    proof {
        lemma_bytes_parse(v, Seq::empty(), 5);
    }
    if v <= 127 {
        1
    } else if v <= 16383 {
        2
    } else if v <= 2097151 {
        3
    } else if v <= 268435455 {
        4
    } else {
        5
    }
}

} // verus!
