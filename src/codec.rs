//! The framing codec: length framing, then optional zlib compression, with
//! optional AES-128/CFB8 encryption of the whole byte stream.
use vstd::prelude::*;

use crate::buffer::{copy_range, parse_varint, put_slice, skip, Reader};
use crate::error::ProtocolError;
use crate::varint::{
    group_sum, lemma_varint_parse_bound, lemma_varint_round_trip, read_varint, varint21_bytes,
    varint_bytes, varint_end, varint_len, varint_parse, write_21bit_varint, write_varint,
    MAX_HEADER_LENGTH, MAX_PACKET_SIZE,
};

verus! {

/// What libdeflate's zlib decompressor makes of `data` with an output buffer
/// of `cap` bytes: the inflated bytes, or `None` where it fails.
pub uninterp spec fn zlib_inflated(data: Seq<u8>, cap: nat) -> Option<Seq<u8>>;

/// What libdeflate's zlib compressor at compression level `level` makes of
/// `data`, given an output buffer of the compressor's bound for it.
pub uninterp spec fn zlib_deflated(level: i32, data: Seq<u8>) -> Option<Seq<u8>>;

/// Relies on `libdeflater::Decompressor::zlib_decompress`: it decompresses
/// into a buffer of `cap` bytes and returns the count written, or an error.
#[verifier::external_body]
fn zlib_decompress(data: &[u8], cap: usize) -> (r: Option<Vec<u8>>)
    ensures
        match r {
            Some(v) => zlib_inflated(data@, cap as nat) == Some(v@),
            None => zlib_inflated(data@, cap as nat) is None,
        },
{
    let mut out = vec![0u8; cap];
    match libdeflater::Decompressor::new().zlib_decompress(data, &mut out) {
        Ok(n) => {
            out.truncate(n);
            Some(out)
        },
        Err(_) => None,
    }
}

/// Relies on `libdeflater::Compressor::zlib_compress` at `level`, which
/// `CompressionLvl::new` accepts from 0 to 12, into a buffer of
/// `zlib_compress_bound` bytes. That bound is documented as a hard upper
/// bound on the output, so the compression succeeds.
#[verifier::external_body]
fn zlib_compress(level: i32, data: &[u8]) -> (r: Option<Vec<u8>>)
    requires
        0 <= level <= 12,
    ensures
        r is Some,
        match r {
            Some(v) => zlib_deflated(level, data@) == Some(v@),
            None => zlib_deflated(level, data@) is None,
        },
{
    let lvl = libdeflater::CompressionLvl::new(level).ok()?;
    let mut compressor = libdeflater::Compressor::new(lvl);
    let mut out = vec![0u8; compressor.zlib_compress_bound(data.len())];
    match compressor.zlib_compress(data, &mut out) {
        Ok(n) => {
            out.truncate(n);
            Some(out)
        },
        Err(_) => None,
    }
}

/// `openssl::symm::Crypter`, a cipher context, carried opaquely.
#[verifier::external_type_specification]
#[verifier::external_body]
pub struct ExCrypter(openssl::symm::Crypter);

/// Relies on `openssl::symm::Crypter::new` with AES-128/CFB8, encrypting,
/// with the key as IV. The key length is converted to a C int, which a
/// 16-byte key always fits.
#[verifier::external_body]
fn cfb8_encrypter(key: &[u8]) -> (r: Option<openssl::symm::Crypter>)
    requires
        key@.len() == 16,
{
    openssl::symm::Crypter::new(
        openssl::symm::Cipher::aes_128_cfb8(),
        openssl::symm::Mode::Encrypt,
        key,
        Some(key),
    ).ok()
}

/// Relies on `openssl::symm::Crypter::new` with AES-128/CFB8, decrypting,
/// with the key as IV.
#[verifier::external_body]
fn cfb8_decrypter(key: &[u8]) -> (r: Option<openssl::symm::Crypter>)
    requires
        key@.len() == 16,
{
    openssl::symm::Crypter::new(
        openssl::symm::Cipher::aes_128_cfb8(),
        openssl::symm::Mode::Decrypt,
        key,
        Some(key),
    ).ok()
}

/// Relies on `openssl::symm::Crypter::update`: it passes `data` through the
/// cipher into a buffer of `cap` bytes and returns the count written. It
/// panics where `cap` is below the cipher's need: the input length plus one
/// block (none for a stream mode such as CFB8), at most 16 bytes for AES,
/// and where the input or the buffer is longer than a C int can count.
#[verifier::external_body]
fn cipher_update(c: &mut openssl::symm::Crypter, data: &[u8], cap: usize) -> (r: Option<Vec<u8>>)
    requires
        cap >= data@.len() + 16,
        cap <= i32::MAX,
{
    let mut out = vec![0u8; cap];
    match c.update(data, &mut out) {
        Ok(n) => {
            out.truncate(n);
            Some(out)
        },
        Err(_) => None,
    }
}

/// The two cipher contexts of a connection, for its writes and for its
/// reads, both AES-128/CFB8 with the key as IV; `None` where either cannot
/// be made.
pub fn cipher_pair(key: &[u8]) -> (r: Option<(openssl::symm::Crypter, openssl::symm::Crypter)>)
    requires
        key@.len() == 16,
{
    let enc = match cfb8_encrypter(key) {
        Some(c) => c,
        None => return None,
    };
    match cfb8_decrypter(key) {
        Some(dec) => Some((enc, dec)),
        None => None,
    }
}

/// The compression level used for a configured one: the level itself from
/// 1 to 12, the compressor's default level 6 otherwise (-1 asks for it).
pub open spec fn effective_level(level: i32) -> i32 {
    if 1 <= level <= 12 {
        level
    } else {
        6
    }
}

pub fn compression_level(level: i32) -> (r: i32)
    ensures
        r == effective_level(level),
{
    if 1 <= level && level <= 12 {
        level
    } else {
        6
    }
}

/// A frame without compression: the payload's length, then the payload.
pub open spec fn frame_bytes(p: Seq<u8>) -> Seq<u8> {
    varint_bytes(p.len() as u32) + p
}

/// A frame with compression on: below the threshold, a zero marker and the
/// payload; at or above it, the payload's length and its deflated bytes,
/// behind a length prefix of exactly three bytes.
pub open spec fn compressed_frame_bytes(threshold: nat, level: i32, p: Seq<u8>) -> Option<Seq<u8>> {
    if p.len() < threshold {
        Some(varint_bytes((p.len() + 1) as u32) + seq![0u8] + p)
    } else {
        match zlib_deflated(effective_level(level), p) {
            Some(c) => {
                let body = varint_bytes(p.len() as u32) + c;
                Some(varint21_bytes(body.len() as u32) + body)
            },
            None => None,
        }
    }
}

/// The frame the encoder makes of payload `p`, before encryption.
pub open spec fn encode_spec(threshold: Option<usize>, level: i32, p: Seq<u8>) -> Result<Seq<u8>, ProtocolError> {
    if p.len() > MAX_PACKET_SIZE {
        Err(ProtocolError::FrameTooBig)
    } else {
        match threshold {
            None => Ok(frame_bytes(p)),
            Some(t) => if p.len() < t {
                if p.len() + 1 > MAX_PACKET_SIZE {
                    Err(ProtocolError::FrameTooBig)
                } else {
                    Ok(varint_bytes((p.len() + 1) as u32) + seq![0u8] + p)
                }
            } else {
                match zlib_deflated(effective_level(level), p) {
                    None => Err(ProtocolError::CompressFailed),
                    Some(c) => if varint_len(p.len() as u32) + c.len() > MAX_PACKET_SIZE {
                        Err(ProtocolError::FrameTooBig)
                    } else {
                        Ok(compressed_frame_bytes(t as nat, level, p).unwrap())
                    },
                }
            },
        }
    }
}

/// Splits a byte stream into the whole frames at its front: the frame
/// bodies, the number of bytes they take, and whether the stream is
/// malformed right after them (three length bytes without an end).
pub open spec fn frame_split(s: Seq<u8>) -> (Seq<Seq<u8>>, nat, bool)
    decreases s.len(),
{
    match varint_parse(s, 3) {
        Some((l, h)) => if 1 <= h && h + l <= s.len() {
            let rest = frame_split(skip(s, h + l as nat));
            (seq![s.subrange(h as int, h + l)] + rest.0, (h + l + rest.1) as nat, rest.2)
        } else {
            (Seq::empty(), 0, false)
        },
        None => (Seq::empty(), 0, s.len() >= 3),
    }
}

/// What the decoder hands out for a frame body: the body itself without
/// compression; with it, the body after its data-length marker, inflated
/// where the marker is not zero.
pub open spec fn unpack_spec(f: Seq<u8>, compression: bool) -> Result<Seq<u8>, ProtocolError> {
    if !compression {
        Ok(f)
    } else {
        match parse_varint(f) {
            Err(e) => Err(e),
            Ok((dl, h)) => if dl == 0 {
                Ok(skip(f, h))
            } else if dl < 0 {
                Err(ProtocolError::InvalidLength)
            } else {
                match zlib_inflated(skip(f, h), dl as nat) {
                    None => Err(ProtocolError::DecompressFailed),
                    Some(v) => if v.len() != dl {
                        Err(ProtocolError::CompressedBodyShorterThanDeclared)
                    } else {
                        Ok(v)
                    },
                }
            },
        }
    }
}

/// What the decoder hands out next, having handed out `consumed` frames of
/// the stream `received`: the next frame's payload; `None` while that frame
/// is not complete; an error where the stream is malformed there.
pub open spec fn next_frame(received: Seq<u8>, consumed: nat, compression: bool) -> Result<
    Option<Seq<u8>>,
    ProtocolError,
> {
    let (fs, _, bad) = frame_split(received);
    if consumed < fs.len() {
        match unpack_spec(fs[consumed as int], compression) {
            Ok(p) => Ok(Some(p)),
            Err(e) => Err(e),
        }
    } else if bad {
        Err(ProtocolError::VarintTooLong)
    } else {
        Ok(None)
    }
}

pub open spec fn frame_result_view(r: Result<Option<Vec<u8>>, ProtocolError>) -> Result<
    Option<Seq<u8>>,
    ProtocolError,
> {
    match r {
        Ok(Some(v)) => Ok(Some(v@)),
        Ok(None) => Ok(None),
        Err(e) => Err(e),
    }
}

proof fn lemma_end_prefix(s: Seq<u8>, t: Seq<u8>, j: nat, lim: nat, e: nat)
    requires
        varint_end(s, j, lim) == Some(e),
        e < t.len(),
        forall|i: int| 0 <= i <= e ==> #[trigger] t[i] == s[i],
    ensures
        varint_end(t, j, lim) == Some(e),
    decreases lim - j,
{
    crate::varint::lemma_varint_end_bound(s, j, lim);
    assert(t[j as int] == s[j as int]);
    if s[j as int] >= 128 {
        lemma_end_prefix(s, t, j + 1, lim, e);
    }
}

proof fn lemma_sum_prefix(s: Seq<u8>, t: Seq<u8>, k: nat)
    requires
        k <= s.len(),
        k <= t.len(),
        forall|i: int| 0 <= i < k ==> t[i] == s[i],
    ensures
        group_sum(t, k) == group_sum(s, k),
    decreases k,
{
    if k > 0 {
        lemma_sum_prefix(s, t, (k - 1) as nat);
    }
}

/// A varint reads the same from any sequence that starts with its bytes.
pub proof fn lemma_parse_prefix(s: Seq<u8>, t: Seq<u8>, lim: nat)
    requires
        varint_parse(s, lim) matches Some((v, n)) && n <= t.len() && t.subrange(0, n as int)
            == s.subrange(0, n as int),
    ensures
        varint_parse(t, lim) == varint_parse(s, lim),
{
    lemma_varint_parse_bound(s, lim);
    let n = varint_parse(s, lim)->Some_0.1;
    let e = (n - 1) as nat;
    assert forall|i: int| 0 <= i < n implies #[trigger] t[i] == s[i] by {
        assert(t.subrange(0, n as int)[i] == s.subrange(0, n as int)[i]);
    }
    lemma_end_prefix(s, t, 0, lim, e);
    lemma_sum_prefix(s, t, n);
}

/// Frames found in `a ++ b`, where `a` is whole frames only, are those of
/// `a` and then those of `b`.
proof fn lemma_split_concat(a: Seq<u8>, b: Seq<u8>)
    requires
        frame_split(a).1 == a.len(),
        !frame_split(a).2,
    ensures
        frame_split(a + b).0 == frame_split(a).0 + frame_split(b).0,
        frame_split(a + b).1 == a.len() + frame_split(b).1,
        frame_split(a + b).2 == frame_split(b).2,
    decreases a.len(),
{
    if a.len() == 0 {
        assert(a + b =~= b);
        assert(frame_split(a).0 + frame_split(b).0 =~= frame_split(b).0);
    } else {
        lemma_varint_parse_bound(a, 3);
        let (l, h) = varint_parse(a, 3)->Some_0;
        let ab = a + b;
        assert(ab.subrange(0, h as int) =~= a.subrange(0, h as int));
        lemma_parse_prefix(a, ab, 3);
        let k = (h + l) as nat;
        assert(skip(ab, k) =~= skip(a, k) + b);
        lemma_split_concat(skip(a, k), b);
        assert(ab.subrange(h as int, h + l) =~= a.subrange(h as int, h + l));
        assert(frame_split(ab).0 =~= frame_split(a).0 + frame_split(b).0);
    }
}

/// A frame of a payload `p` of at most the frame limit, preceded by `rest`
/// nothing, splits into exactly the body `p`.
proof fn lemma_single_frame(p: Seq<u8>)
    requires
        p.len() <= MAX_PACKET_SIZE,
    ensures
        frame_split(frame_bytes(p)) == (seq![p], frame_bytes(p).len(), false),
{
    let s = frame_bytes(p);
    lemma_varint_round_trip(p.len() as u32, p);
    crate::varint::lemma_varint_round_trip_lim3(p.len() as u32, p);
    let h = varint_len(p.len() as u32);
    assert(s.subrange(h as int, (h + p.len()) as int) =~= p);
    assert(skip(s, h + p.len()) =~= Seq::<u8>::empty());
    assert(frame_split(Seq::<u8>::empty()) == (Seq::<Seq<u8>>::empty(), 0nat, false));
    assert(seq![p] + Seq::<Seq<u8>>::empty() =~= seq![p]);
}

/// Framing without transforms loses nothing: for every payload within the
/// frame limit, the stream that the encoder writes splits into exactly one
/// frame, equal to the payload, with nothing left over and nothing malformed.
/// Since the decoder's input is the concatenation of what it was fed, this
/// holds however the stream is cut into chunks.
pub proof fn lemma_frame_round_trip(p: Seq<u8>)
    requires
        p.len() <= MAX_PACKET_SIZE,
    ensures
        encode_spec(None, 0, p) == Ok::<Seq<u8>, ProtocolError>(frame_bytes(p)),
        frame_split(frame_bytes(p)) == (seq![p], frame_bytes(p).len(), false),
        unpack_spec(p, false) == Ok::<Seq<u8>, ProtocolError>(p),
{
    lemma_single_frame(p);
}

proof fn lemma_end_cut(s: Seq<u8>, q: Seq<u8>, j: nat, lim: nat, e: nat)
    requires
        varint_end(s, j, lim) == Some(e),
        q.len() <= e,
        forall|i: int| 0 <= i < q.len() ==> #[trigger] q[i] == s[i],
    ensures
        varint_end(q, j, lim) is None,
    decreases lim - j,
{
    crate::varint::lemma_varint_end_bound(s, j, lim);
    if j < q.len() {
        assert(q[j as int] == s[j as int]);
        lemma_end_cut(s, q, j + 1, lim, e);
    }
}

/// No proper prefix of a frame's bytes holds a whole frame or reads as
/// malformed: a decoder fed any part of the stream short of its end hands
/// out nothing and reports no error.
pub proof fn lemma_frame_prefix(p: Seq<u8>, k: nat)
    requires
        p.len() <= MAX_PACKET_SIZE,
        k < frame_bytes(p).len(),
    ensures
        frame_split(frame_bytes(p).subrange(0, k as int)) == (Seq::<Seq<u8>>::empty(), 0nat, false),
{
    let s = frame_bytes(p);
    let q = s.subrange(0, k as int);
    crate::varint::lemma_varint_round_trip_lim3(p.len() as u32, p);
    lemma_varint_round_trip(p.len() as u32, p);
    let h = varint_len(p.len() as u32);
    lemma_varint_parse_bound(s, 3);
    assert(s.len() == h + p.len());
    if k < h {
        assert(varint_end(s, 0, 3) == Some((h - 1) as nat));
        lemma_end_cut(s, q, 0, 3, (h - 1) as nat);
        assert(varint_parse(q, 3) is None);
    } else {
        assert(q.subrange(0, h as int) =~= s.subrange(0, h as int));
        lemma_parse_prefix(s, q, 3);
    }
}

/// Framing with compression on: a payload below the threshold is framed as
/// its length plus one, a zero marker and the payload, and comes back whole;
/// one at or above it comes back as what the decompressor makes of what the
/// compressed and decompressed by zlib, so whole wherever zlib gives back
/// what it took. (An empty payload at a threshold of zero is the exception:
/// its zero data length reads as the marker of an uncompressed body.)
pub proof fn lemma_compressed_round_trip(threshold: usize, level: i32, p: Seq<u8>)
    requires
        encode_spec(Some(threshold), level, p) is Ok,
    ensures
        ({
            let f = encode_spec(Some(threshold), level, p)->Ok_0;
            let body = frame_split(f).0[0];
            &&& frame_split(f).0.len() == 1
            &&& frame_split(f).1 == f.len()
            &&& !frame_split(f).2
            &&& p.len() < threshold ==> f == varint_bytes((p.len() + 1) as u32) + seq![0u8] + p
                && unpack_spec(body, true) == Ok::<Seq<u8>, ProtocolError>(p)
            &&& p.len() >= threshold && p.len() > 0 ==> (zlib_inflated(
                zlib_deflated(effective_level(level), p)->Some_0,
                p.len(),
            ) == Some(p) ==> unpack_spec(body, true) == Ok::<Seq<u8>, ProtocolError>(p))
        }),
{
    if p.len() < threshold {
        lemma_below_threshold(threshold, level, p);
    } else {
        lemma_above_threshold(threshold, level, p);
    }
}

proof fn lemma_below_threshold(threshold: usize, level: i32, p: Seq<u8>)
    requires
        encode_spec(Some(threshold), level, p) is Ok,
        p.len() < threshold,
    ensures
        ({
            let f = encode_spec(Some(threshold), level, p)->Ok_0;
            &&& frame_split(f) == (seq![seq![0u8] + p], f.len(), false)
            &&& f == varint_bytes((p.len() + 1) as u32) + seq![0u8] + p
            &&& unpack_spec(seq![0u8] + p, true) == Ok::<Seq<u8>, ProtocolError>(p)
        }),
{
    let f = encode_spec(Some(threshold), level, p)->Ok_0;
    let body = seq![0u8] + p;
    assert(f =~= frame_bytes(body));
    lemma_single_frame(body);
    lemma_varint_round_trip(0, p);
    assert(varint_bytes(0) =~= seq![0u8]);
    assert(body =~= varint_bytes(0) + p);
    assert(parse_varint(body) == Ok::<(i32, nat), ProtocolError>((0i32, 1nat)));
    assert(skip(body, 1) =~= p);
}

proof fn lemma_above_threshold(threshold: usize, level: i32, p: Seq<u8>)
    requires
        encode_spec(Some(threshold), level, p) is Ok,
        p.len() >= threshold,
    ensures
        ({
            let f = encode_spec(Some(threshold), level, p)->Ok_0;
            let c = zlib_deflated(effective_level(level), p)->Some_0;
            let body = varint_bytes(p.len() as u32) + c;
            &&& frame_split(f) == (seq![body], f.len(), false)
            &&& p.len() > 0 ==> unpack_spec(body, true) == match zlib_inflated(c, p.len()) {
                None => Err(ProtocolError::DecompressFailed),
                Some(v) => if v.len() != p.len() {
                    Err(ProtocolError::CompressedBodyShorterThanDeclared)
                } else {
                    Ok(v)
                },
            }
        }),
{
    let f = encode_spec(Some(threshold), level, p)->Ok_0;
    let c = zlib_deflated(effective_level(level), p)->Some_0;
    let body = varint_bytes(p.len() as u32) + c;
    lemma_varint_round_trip(p.len() as u32, c);
    let bl = body.len() as u32;
    crate::varint::lemma_varint21_parse(bl, body);
    assert(f =~= varint21_bytes(bl) + body);
    let e = Seq::<u8>::empty();
    assert(f.subrange(3, (3 + body.len()) as int) =~= body);
    assert(skip(f, (3 + body.len()) as nat) =~= e);
    assert(frame_split(e) == (Seq::<Seq<u8>>::empty(), 0nat, false));
    assert(seq![body] + Seq::<Seq<u8>>::empty() =~= seq![body]);
    let hl = varint_len(p.len() as u32);
    assert(parse_varint(body) == Ok::<(i32, nat), ProtocolError>(((p.len() as u32) as i32, hl)));
    assert(skip(body, hl) =~= c);
}

/// The encoding half of the codec.
pub struct MinecraftEncoder {
    /// Compression threshold, once compression is on.
    pub threshold: Option<usize>,
    /// Compression level handed to the compressor.
    pub level: i32,
    pub cipher: Option<openssl::symm::Crypter>,
}

impl MinecraftEncoder {
    pub open spec fn encrypting(&self) -> bool {
        self.cipher is Some
    }

    pub fn new() -> (r: Self)
        ensures
            r.threshold is None,
            !r.encrypting(),
    {
        MinecraftEncoder { threshold: None, level: -1, cipher: None }
    }

    /// Turns compression on for every frame that follows.
    pub fn enable_compression(&mut self, threshold: u32, level: i32)
        ensures
            final(self).threshold == Some(threshold as usize),
            final(self).level == level,
            final(self).encrypting() == old(self).encrypting(),
    {
        self.threshold = Some(threshold as usize);
        self.level = level;
    }

    /// Turns AES-128/CFB8 encryption on, with the key as IV, for every byte
    /// that follows.
    pub fn enable_encryption(&mut self, key: &[u8]) -> (r: Result<(), ProtocolError>)
        requires
            key@.len() == 16,
        ensures
            final(self).threshold == old(self).threshold,
            final(self).level == old(self).level,
            r is Ok ==> final(self).encrypting(),
            r is Err ==> final(self).encrypting() == old(self).encrypting(),
    {
        match cfb8_encrypter(key) {
            Some(c) => {
                self.cipher = Some(c);
                Ok(())
            },
            None => Err(ProtocolError::CipherFailed),
        }
    }

    /// The frame of payload `p`, before encryption.
    pub fn frame(&self, p: &[u8]) -> (r: Result<Vec<u8>, ProtocolError>)
        ensures
            match encode_spec(self.threshold, self.level, p@) {
                Ok(f) => r matches Ok(v) && v@ == f,
                Err(e) => r == Err::<Vec<u8>, ProtocolError>(e),
            },
            r is Err ==> r == Err::<Vec<u8>, ProtocolError>(ProtocolError::FrameTooBig),
    {
        if p.len() > MAX_PACKET_SIZE {
            return Err(ProtocolError::FrameTooBig);
        }
        let len = p.len() as u32;
        let mut dst: Vec<u8> = Vec::new();
        match self.threshold {
            None => {
                write_varint(&mut dst, len);
                put_slice(&mut dst, p);
                Ok(dst)
            },
            Some(t) => {
                if p.len() < t {
                    if p.len() + 1 > MAX_PACKET_SIZE {
                        return Err(ProtocolError::FrameTooBig);
                    }
                    write_varint(&mut dst, len + 1);
                    dst.push(0u8);
                    put_slice(&mut dst, p);
                    assert(dst@ =~= varint_bytes((p@.len() + 1) as u32) + seq![0u8] + p@);
                    Ok(dst)
                } else {
                    let c = match zlib_compress(compression_level(self.level), p) {
                        Some(c) => c,
                        None => return Err(ProtocolError::CompressFailed),
                    };
                    let header = crate::varint::varint_length_usize(len);
                    if c.len() > MAX_PACKET_SIZE - header {
                        return Err(ProtocolError::FrameTooBig);
                    }
                    let mut body: Vec<u8> = Vec::new();
                    write_varint(&mut body, len);
                    put_slice(&mut body, c.as_slice());
                    write_21bit_varint(&mut dst, body.len() as u32);
                    put_slice(&mut dst, body.as_slice());
                    Ok(dst)
                }
            },
        }
    }

    /// The bytes to send for payload `p`: its frame, encrypted where
    /// encryption is on.
    pub fn encode(&mut self, p: &[u8]) -> (r: Result<Vec<u8>, ProtocolError>)
        ensures
            final(self).threshold == old(self).threshold,
            final(self).level == old(self).level,
            final(self).encrypting() == old(self).encrypting(),
            !old(self).encrypting() ==> match encode_spec(old(self).threshold, old(self).level, p@) {
                Ok(f) => r matches Ok(v) && v@ == f,
                Err(e) => r == Err::<Vec<u8>, ProtocolError>(e),
            },
            old(self).encrypting() ==> (encode_spec(old(self).threshold, old(self).level, p@) is Err
                ==> r is Err),
    {
        let f = match self.frame(p) {
            Ok(f) => f,
            Err(e) => return Err(e),
        };
        match &mut self.cipher {
            None => Ok(f),
            Some(c) => {
                if f.len() > (i32::MAX as usize) - 16 {
                    return Err(ProtocolError::CipherFailed);
                }
                let cap = f.len() + 16;
                match cipher_update(c, f.as_slice(), cap) {
                    Some(out) => Ok(out),
                    None => Err(ProtocolError::CipherFailed),
                }
            },
        }
    }
}

/// The decoding half of the codec. It holds the received bytes that do not
/// yet form a whole frame.
pub struct MinecraftDecoder {
    pub buffer: Vec<u8>,
    /// Whether frame bodies carry a data-length marker.
    pub compression: bool,
    pub cipher: Option<openssl::symm::Crypter>,
    /// Every byte received so far, after decryption.
    pub received: Ghost<Seq<u8>>,
    /// The bytes of the frames handed out so far.
    pub done: Ghost<Seq<u8>>,
}

impl MinecraftDecoder {
    pub open spec fn wf(&self) -> bool {
        &&& self.received@ == self.done@ + self.buffer@
        &&& frame_split(self.done@).1 == self.done@.len()
        &&& !frame_split(self.done@).2
    }

    pub open spec fn decrypting(&self) -> bool {
        self.cipher is Some
    }

    /// The number of frames handed out so far.
    pub open spec fn consumed(&self) -> nat {
        frame_split(self.done@).0.len()
    }

    pub fn new() -> (r: Self)
        ensures
            r.wf(),
            r.received@.len() == 0,
            r.consumed() == 0,
            !r.compression,
            !r.decrypting(),
    {
        let r = MinecraftDecoder {
            buffer: Vec::new(),
            compression: false,
            cipher: None,
            received: Ghost(Seq::empty()),
            done: Ghost(Seq::empty()),
        };
        assert(r.received@ =~= r.done@ + r.buffer@);
        r
    }

    /// Every frame handed out from now on carries a data-length marker.
    pub fn enable_compression(&mut self)
        requires
            old(self).wf(),
        ensures
            final(self).wf(),
            final(self).compression,
            final(self).received == old(self).received,
            final(self).done == old(self).done,
            final(self).decrypting() == old(self).decrypting(),
    {
        self.compression = true;
    }

    /// Every byte fed from now on is decrypted with AES-128/CFB8, with the
    /// key as IV.
    pub fn enable_encryption(&mut self, key: &[u8]) -> (r: Result<(), ProtocolError>)
        requires
            old(self).wf(),
            key@.len() == 16,
        ensures
            final(self).wf(),
            final(self).compression == old(self).compression,
            final(self).received == old(self).received,
            final(self).done == old(self).done,
            r is Ok ==> final(self).decrypting(),
            r is Err ==> final(self).decrypting() == old(self).decrypting(),
    {
        match cfb8_decrypter(key) {
            Some(c) => {
                self.cipher = Some(c);
                Ok(())
            },
            None => Err(ProtocolError::CipherFailed),
        }
    }

    /// Takes bytes read from the peer. Without decryption they extend the
    /// received stream as they are; with it, their decryption does.
    pub fn feed(&mut self, chunk: &[u8]) -> (r: Result<(), ProtocolError>)
        requires
            old(self).wf(),
        ensures
            final(self).wf(),
            final(self).compression == old(self).compression,
            final(self).decrypting() == old(self).decrypting(),
            final(self).done == old(self).done,
            !old(self).decrypting() ==> r is Ok && final(self).received@ == old(self).received@
                + chunk@,
            old(self).decrypting() ==> (r is Ok ==> final(self).received@.subrange(
                0,
                old(self).received@.len() as int,
            ) == old(self).received@),
            r is Err ==> final(self).received == old(self).received,
    {
        match &mut self.cipher {
            None => {
                put_slice(&mut self.buffer, chunk);
                self.received = Ghost(self.received@ + chunk@);
                assert(self.received@ =~= self.done@ + self.buffer@);
                Ok(())
            },
            Some(c) => {
                if chunk.len() > (i32::MAX as usize) - 16 {
                    return Err(ProtocolError::CipherFailed);
                }
                let cap = chunk.len() + 16;
                match cipher_update(c, chunk, cap) {
                    Some(plain) => {
                        put_slice(&mut self.buffer, plain.as_slice());
                        self.received = Ghost(self.received@ + plain@);
                        assert(self.received@ =~= self.done@ + self.buffer@);
                        assert(self.received@.subrange(0, old(self).received@.len() as int)
                            =~= old(self).received@);
                        Ok(())
                    },
                    None => Err(ProtocolError::CipherFailed),
                }
            },
        }
    }

    /// Hands out the next frame of the received stream, as `unpack_spec`
    /// describes it; `None` while that frame is not complete; an error where
    /// the stream is malformed at that point.
    pub fn decode(&mut self) -> (r: Result<Option<Vec<u8>>, ProtocolError>)
        requires
            old(self).wf(),
        ensures
            final(self).wf(),
            final(self).received == old(self).received,
            final(self).compression == old(self).compression,
            final(self).decrypting() == old(self).decrypting(),
            frame_result_view(r) == next_frame(
                old(self).received@,
                old(self).consumed(),
                old(self).compression,
            ),
            final(self).consumed() == if old(self).consumed() < frame_split(
                old(self).received@,
            ).0.len() {
                old(self).consumed() + 1
            } else {
                old(self).consumed()
            },
    {
        proof {
            lemma_split_concat(self.done@, self.buffer@);
            lemma_varint_parse_bound(self.buffer@, 3);
        }
        let ghost b = self.buffer@;
        assert(self.buffer@.subrange(0, self.buffer@.len() as int) =~= self.buffer@);
        let (len, h) = match read_varint(self.buffer.as_slice(), 0, MAX_HEADER_LENGTH) {
            Some((v, h)) => (v as usize, h),
            None => {
                if self.buffer.len() >= MAX_HEADER_LENGTH {
                    return Err(ProtocolError::VarintTooLong);
                }
                return Ok(None);
            },
        };
        if len > self.buffer.len() - h {
            return Ok(None);
        }
        let end = h + len;
        let frame = copy_range(self.buffer.as_slice(), h, end);
        let rest = self.buffer.split_off(end);
        let ghost head = self.buffer@;
        self.buffer = rest;
        proof {
            let d0 = self.done@;
            assert(head =~= b.subrange(0, end as int));
            assert(head.subrange(0, h as int) =~= b.subrange(0, h as int));
            lemma_parse_prefix(b, head, 3);
            assert(skip(head, end as nat) =~= Seq::<u8>::empty());
            assert(frame_split(Seq::<u8>::empty()) == (Seq::<Seq<u8>>::empty(), 0nat, false));
            assert(head.subrange(h as int, end as int) =~= frame@);
            assert(frame_split(head).0 =~= seq![frame@]);
            lemma_split_concat(d0, head);
            self.done = Ghost(d0 + head);
            assert(self.received@ =~= self.done@ + self.buffer@);
        }
        match self.unpack(frame) {
            Ok(p) => Ok(Some(p)),
            Err(e) => Err(e),
        }
    }

    /// Checks the decoder at the end of the stream: no frame may be left
    /// half received.
    pub fn finish(&self) -> (r: Result<(), ProtocolError>)
        requires
            self.wf(),
        ensures
            r is Ok <==> self.received@.len() == self.done@.len(),
            r is Err ==> r == Err::<(), ProtocolError>(ProtocolError::ConnectionClosedMidFrame),
    {
        if self.buffer.len() == 0 {
            Ok(())
        } else {
            Err(ProtocolError::ConnectionClosedMidFrame)
        }
    }

    fn unpack(&self, frame: Vec<u8>) -> (r: Result<Vec<u8>, ProtocolError>)
        ensures
            match unpack_spec(frame@, self.compression) {
                Ok(p) => r matches Ok(v) && v@ == p,
                Err(e) => r == Err::<Vec<u8>, ProtocolError>(e),
            },
    {
        if !self.compression {
            return Ok(frame);
        }
        let mut reader = Reader::new(frame);
        let dl = match reader.get_varint() {
            Ok(dl) => dl,
            Err(e) => return Err(e),
        };
        if dl == 0 {
            return Ok(reader.rest_bytes());
        }
        if dl < 0 {
            return Err(ProtocolError::InvalidLength);
        }
        let data = reader.rest_bytes();
        match zlib_decompress(data.as_slice(), dl as usize) {
            None => Err(ProtocolError::DecompressFailed),
            Some(v) => {
                if v.len() != dl as usize {
                    Err(ProtocolError::CompressedBodyShorterThanDeclared)
                } else {
                    Ok(v)
                }
            },
        }
    }
}

} // verus!
