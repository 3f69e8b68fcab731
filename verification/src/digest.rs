//! SHA-256 digests in lowercase hex, and the big-endian, length-prefixed byte
//! framing that the durable identities are hashed over.

use vstd::prelude::*;
use crate::text::push_char;

verus! {

/// The SHA-256 digest of a byte sequence (32 bytes).
pub uninterp spec fn sha256_of(data: Seq<u8>) -> Seq<u8>;

/// Calls `sha2::Sha256::digest`; claims that the result is the SHA-256 digest
/// of exactly `data`, named [`sha256_of`], and that it is 32 bytes long
/// (`Sha256`'s output size is `U32`).
#[verifier::external_body]
fn sha256_digest(data: &[u8]) -> (out: Vec<u8>)
    ensures
        out@ == sha256_of(data@),
        out@.len() == 32,
{
    <sha2::Sha256 as sha2::Digest>::digest(data).to_vec()
}

/// The lowercase hex character of a nibble.
pub open spec fn hex_char(d: int) -> char {
    if d < 10 {
        crate::text::digit_char(d)
    } else if d == 10 {
        'a'
    } else if d == 11 {
        'b'
    } else if d == 12 {
        'c'
    } else if d == 13 {
        'd'
    } else if d == 14 {
        'e'
    } else {
        'f'
    }
}

/// Lowercase hex of a byte sequence, two characters per byte, high nibble
/// first.
pub open spec fn hex_encode(bytes: Seq<u8>) -> Seq<char>
    decreases bytes.len(),
{
    if bytes.len() == 0 {
        Seq::empty()
    } else {
        let last = bytes.last();
        hex_encode(bytes.drop_last()) + seq![hex_char((last / 16) as int), hex_char((last % 16) as int)]
    }
}

/// A hex encoding has two characters per byte.
pub proof fn lemma_hex_encode_len(bytes: Seq<u8>)
    ensures
        hex_encode(bytes).len() == 2 * bytes.len(),
    decreases bytes.len(),
{
    if bytes.len() > 0 {
        lemma_hex_encode_len(bytes.drop_last());
    }
}

fn nibble_to_char(d: u8) -> (c: char)
    requires
        d < 16,
    ensures
        c == hex_char(d as int),
{
    if d < 10 {
        crate::text::digit_to_char(d as u64)
    } else if d == 10 {
        'a'
    } else if d == 11 {
        'b'
    } else if d == 12 {
        'c'
    } else if d == 13 {
        'd'
    } else if d == 14 {
        'e'
    } else {
        'f'
    }
}

/// Appends the lowercase hex encoding of `bytes`.
pub fn push_hex(s: &mut String, bytes: &[u8])
    ensures
        final(s)@ == old(s)@ + hex_encode(bytes@),
{
    let mut i: usize = 0;
    while i < bytes.len()
        invariant
            i <= bytes@.len(),
            s@ == old(s)@ + hex_encode(bytes@.take(i as int)),
        decreases bytes@.len() - i,
    {
        let b = bytes[i];
        push_char(s, nibble_to_char(b / 16));
        push_char(s, nibble_to_char(b % 16));
        proof {
            let next = bytes@.take(i + 1);
            assert(next.drop_last() =~= bytes@.take(i as int));
            assert(next.last() == b);
        }
        i = i + 1;
    }
    assert(bytes@.take(bytes@.len() as int) =~= bytes@);
}

/// Lowercase hex encoding of `bytes` as a new string.
pub fn hex_string(bytes: &[u8]) -> (r: String)
    ensures
        r@ == hex_encode(bytes@),
{
    let mut s = String::new();
    push_hex(&mut s, bytes);
    assert(s@ =~= hex_encode(bytes@));
    s
}

/// The lowercase hex SHA-256 digest of `data`.
pub open spec fn sha256_hex_spec(data: Seq<u8>) -> Seq<char> {
    hex_encode(sha256_of(data))
}

/// Lowercase hex SHA-256 of `data`: 64 characters.
pub fn sha256_hex(data: &[u8]) -> (r: String)
    ensures
        r@ == sha256_hex_spec(data@),
        r@.len() == 64,
{
    let digest = sha256_digest(data);
    proof {
        lemma_hex_encode_len(digest@);
    }
    hex_string(digest.as_slice())
}

/// The big-endian encoding of `n` in `k` bytes (the low `k` bytes of `n`).
pub open spec fn be_bytes(n: nat, k: nat) -> Seq<u8>
    decreases k,
{
    if k == 0 {
        Seq::empty()
    } else {
        be_bytes(n / 256, (k - 1) as nat).push((n % 256) as u8)
    }
}

/// A `k`-byte encoding has `k` bytes.
pub proof fn lemma_be_bytes_len(n: nat, k: nat)
    ensures
        be_bytes(n, k).len() == k,
    decreases k,
{
    if k > 0 {
        lemma_be_bytes_len(n / 256, (k - 1) as nat);
    }
}

/// Appends the big-endian encoding of `n` in `k` bytes.
pub fn push_be(v: &mut Vec<u8>, n: u64, k: usize)
    ensures
        final(v)@ == old(v)@ + be_bytes(n as nat, k as nat),
    decreases k,
{
    if k > 0 {
        push_be(v, n / 256, k - 1);
        v.push((n % 256) as u8);
        assert(final(v)@ =~= old(v)@ + be_bytes(n as nat, k as nat));
    } else {
        assert(final(v)@ =~= old(v)@ + be_bytes(n as nat, k as nat));
    }
}

/// The two's-complement big-endian bytes of a signed 64-bit integer
/// (`i64::to_be_bytes`).
pub open spec fn i64_be(n: i64) -> Seq<u8> {
    be_bytes((n as u64) as nat, 8)
}

/// A byte string framed by its length as a big-endian `u64` (8 bytes).
pub open spec fn frame64(bytes: Seq<u8>) -> Seq<u8> {
    be_bytes(bytes.len(), 8) + bytes
}

/// A byte string framed by its length as a big-endian `u32` (4 bytes),
/// the length saturating at `u32::MAX`.
pub open spec fn frame32(bytes: Seq<u8>) -> Seq<u8> {
    let len = if bytes.len() <= u32::MAX { bytes.len() } else { u32::MAX as nat };
    be_bytes(len, 4) + bytes
}

/// Appends `bytes` framed by its length as a big-endian `u64`.
pub fn push_len_prefixed(buf: &mut Vec<u8>, bytes: &[u8])
    ensures
        final(buf)@ == old(buf)@ + frame64(bytes@),
{
    push_be(buf, bytes.len() as u64, 8);
    let ghost mid = buf@;
    let mut i: usize = 0;
    while i < bytes.len()
        invariant
            i <= bytes@.len(),
            buf@ == mid + bytes@.take(i as int),
        decreases bytes@.len() - i,
    {
        buf.push(bytes[i]);
        proof {
            assert(bytes@.take(i + 1) =~= bytes@.take(i as int).push(bytes@[i as int]));
        }
        i = i + 1;
    }
    assert(bytes@.take(bytes@.len() as int) =~= bytes@);
    assert(buf@ =~= old(buf)@ + frame64(bytes@));
}

/// Appends `bytes` framed by its length as a big-endian `u32`, saturating.
pub fn push_len_prefixed32(buf: &mut Vec<u8>, bytes: &[u8])
    ensures
        final(buf)@ == old(buf)@ + frame32(bytes@),
{
    let len: u64 = if bytes.len() as u64 <= 0xffff_ffffu64 { bytes.len() as u64 } else { 0xffff_ffffu64 };
    push_be(buf, len, 4);
    let ghost mid = buf@;
    let mut i: usize = 0;
    while i < bytes.len()
        invariant
            i <= bytes@.len(),
            buf@ == mid + bytes@.take(i as int),
        decreases bytes@.len() - i,
    {
        buf.push(bytes[i]);
        proof {
            assert(bytes@.take(i + 1) =~= bytes@.take(i as int).push(bytes@[i as int]));
        }
        i = i + 1;
    }
    assert(bytes@.take(bytes@.len() as int) =~= bytes@);
    assert(buf@ =~= old(buf)@ + frame32(bytes@));
}

/// The big-endian bytes of `n` (`i64::to_be_bytes`).
pub fn i64_be_bytes(n: i64) -> (r: Vec<u8>)
    ensures
        r@ == i64_be(n),
{
    let mut v: Vec<u8> = Vec::new();
    push_be(&mut v, n as u64, 8);
    assert(v@ =~= i64_be(n));
    v
}

/// `256` to the power `k`.
pub open spec fn pow256(k: nat) -> nat
    decreases k,
{
    if k == 0 {
        1
    } else {
        256 * pow256((k - 1) as nat)
    }
}

/// Two numbers below `256^k` with the same `k` big-endian bytes are equal.
pub proof fn lemma_be_bytes_injective(n: nat, m: nat, k: nat)
    requires
        n < pow256(k),
        m < pow256(k),
        be_bytes(n, k) == be_bytes(m, k),
    ensures
        n == m,
    decreases k,
{
    if k > 0 {
        let a = be_bytes(n / 256, (k - 1) as nat);
        let b = be_bytes(m / 256, (k - 1) as nat);
        assert(be_bytes(n, k) == a.push((n % 256) as u8));
        assert(be_bytes(m, k) == b.push((m % 256) as u8));
        assert(a == be_bytes(n, k).drop_last());
        assert(b == be_bytes(m, k).drop_last());
        assert((n % 256) as u8 == be_bytes(n, k).last());
        assert((m % 256) as u8 == be_bytes(m, k).last());
        assert(n / 256 < pow256((k - 1) as nat)) by (nonlinear_arith)
            requires
                n < 256 * pow256((k - 1) as nat),
        ;
        assert(m / 256 < pow256((k - 1) as nat)) by (nonlinear_arith)
            requires
                m < 256 * pow256((k - 1) as nat),
        ;
        lemma_be_bytes_injective(n / 256, m / 256, (k - 1) as nat);
        assert(n == 256 * (n / 256) + n % 256) by (nonlinear_arith);
        assert(m == 256 * (m / 256) + m % 256) by (nonlinear_arith);
    }
}

/// `256^8` is `2^64`.
pub proof fn lemma_pow256_8()
    ensures
        pow256(8) == 0x1_0000_0000_0000_0000,
{
    reveal_with_fuel(pow256, 9);
}

/// A byte string framed by its 8-byte length can be split off again: two
/// framed strings followed by anything are equal only when the strings and
/// what follows are equal.
pub proof fn lemma_frame64_split(x: Seq<u8>, y: Seq<u8>, r1: Seq<u8>, r2: Seq<u8>)
    requires
        x.len() <= u64::MAX,
        y.len() <= u64::MAX,
        frame64(x) + r1 == frame64(y) + r2,
    ensures
        x == y,
        r1 == r2,
{
    lemma_be_bytes_len(x.len(), 8);
    lemma_be_bytes_len(y.len(), 8);
    lemma_pow256_8();
    let s = frame64(x) + r1;
    let t = frame64(y) + r2;
    assert(s.take(8) =~= be_bytes(x.len(), 8));
    assert(t.take(8) =~= be_bytes(y.len(), 8));
    lemma_be_bytes_injective(x.len(), y.len(), 8);
    assert(s.subrange(8, 8 + x.len() as int) =~= x);
    assert(t.subrange(8, 8 + y.len() as int) =~= y);
    assert(s.skip(8 + x.len() as int) =~= r1);
    assert(t.skip(8 + y.len() as int) =~= r2);
}

/// The big-endian bytes of two signed integers are equal only when the
/// integers are.
pub proof fn lemma_i64_be_injective(a: i64, b: i64)
    requires
        i64_be(a) == i64_be(b),
    ensures
        a == b,
{
    lemma_pow256_8();
    lemma_be_bytes_injective((a as u64) as nat, (b as u64) as nat, 8);
    assert((a as u64) == (b as u64) ==> a == b) by (bit_vector);
}

/// Five framed byte strings in a row determine each of them.
pub proof fn lemma_frames_split5(
    a1: Seq<u8>,
    a2: Seq<u8>,
    a3: Seq<u8>,
    a4: Seq<u8>,
    a5: Seq<u8>,
    b1: Seq<u8>,
    b2: Seq<u8>,
    b3: Seq<u8>,
    b4: Seq<u8>,
    b5: Seq<u8>,
)
    requires
        a1.len() <= u64::MAX && a2.len() <= u64::MAX && a3.len() <= u64::MAX && a4.len() <= u64::MAX
            && a5.len() <= u64::MAX,
        b1.len() <= u64::MAX && b2.len() <= u64::MAX && b3.len() <= u64::MAX && b4.len() <= u64::MAX
            && b5.len() <= u64::MAX,
        frame64(a1) + frame64(a2) + frame64(a3) + frame64(a4) + frame64(a5) == frame64(b1) + frame64(b2)
            + frame64(b3) + frame64(b4) + frame64(b5),
    ensures
        a1 == b1 && a2 == b2 && a3 == b3 && a4 == b4 && a5 == b5,
{
    let (f1, f2, f3, f4, f5) = (frame64(a1), frame64(a2), frame64(a3), frame64(a4), frame64(a5));
    let (g1, g2, g3, g4, g5) = (frame64(b1), frame64(b2), frame64(b3), frame64(b4), frame64(b5));
    assert(f1 + f2 + f3 + f4 + f5 =~= f1 + (f2 + (f3 + (f4 + f5))));
    assert(g1 + g2 + g3 + g4 + g5 =~= g1 + (g2 + (g3 + (g4 + g5))));
    lemma_frame64_split(a1, b1, f2 + (f3 + (f4 + f5)), g2 + (g3 + (g4 + g5)));
    lemma_frame64_split(a2, b2, f3 + (f4 + f5), g3 + (g4 + g5));
    lemma_frame64_split(a3, b3, f4 + f5, g4 + g5);
    lemma_frame64_split(a4, b4, f5, g5);
    assert(f5 =~= f5 + Seq::<u8>::empty());
    assert(g5 =~= g5 + Seq::<u8>::empty());
    lemma_frame64_split(a5, b5, Seq::<u8>::empty(), Seq::<u8>::empty());
}

/// Four framed byte strings in a row determine each of them.
pub proof fn lemma_frames_split4(
    a1: Seq<u8>,
    a2: Seq<u8>,
    a3: Seq<u8>,
    a4: Seq<u8>,
    b1: Seq<u8>,
    b2: Seq<u8>,
    b3: Seq<u8>,
    b4: Seq<u8>,
)
    requires
        a1.len() <= u64::MAX && a2.len() <= u64::MAX && a3.len() <= u64::MAX && a4.len() <= u64::MAX,
        b1.len() <= u64::MAX && b2.len() <= u64::MAX && b3.len() <= u64::MAX && b4.len() <= u64::MAX,
        frame64(a1) + frame64(a2) + frame64(a3) + frame64(a4) == frame64(b1) + frame64(b2) + frame64(b3)
            + frame64(b4),
    ensures
        a1 == b1 && a2 == b2 && a3 == b3 && a4 == b4,
{
    let (f1, f2, f3, f4) = (frame64(a1), frame64(a2), frame64(a3), frame64(a4));
    let (g1, g2, g3, g4) = (frame64(b1), frame64(b2), frame64(b3), frame64(b4));
    assert(f1 + f2 + f3 + f4 =~= f1 + (f2 + (f3 + f4)));
    assert(g1 + g2 + g3 + g4 =~= g1 + (g2 + (g3 + g4)));
    lemma_frame64_split(a1, b1, f2 + (f3 + f4), g2 + (g3 + g4));
    lemma_frame64_split(a2, b2, f3 + f4, g3 + g4);
    lemma_frame64_split(a3, b3, f4, g4);
    assert(f4 =~= f4 + Seq::<u8>::empty());
    assert(g4 =~= g4 + Seq::<u8>::empty());
    lemma_frame64_split(a4, b4, Seq::<u8>::empty(), Seq::<u8>::empty());
}

/// Three framed byte strings in a row determine each of them.
pub proof fn lemma_frames_split3(a1: Seq<u8>, a2: Seq<u8>, a3: Seq<u8>, b1: Seq<u8>, b2: Seq<u8>, b3: Seq<u8>)
    requires
        a1.len() <= u64::MAX && a2.len() <= u64::MAX && a3.len() <= u64::MAX,
        b1.len() <= u64::MAX && b2.len() <= u64::MAX && b3.len() <= u64::MAX,
        frame64(a1) + frame64(a2) + frame64(a3) == frame64(b1) + frame64(b2) + frame64(b3),
    ensures
        a1 == b1 && a2 == b2 && a3 == b3,
{
    let (f1, f2, f3) = (frame64(a1), frame64(a2), frame64(a3));
    let (g1, g2, g3) = (frame64(b1), frame64(b2), frame64(b3));
    assert(f1 + f2 + f3 =~= f1 + (f2 + f3));
    assert(g1 + g2 + g3 =~= g1 + (g2 + g3));
    lemma_frame64_split(a1, b1, f2 + f3, g2 + g3);
    lemma_frame64_split(a2, b2, f3, g3);
    assert(f3 =~= f3 + Seq::<u8>::empty());
    assert(g3 =~= g3 + Seq::<u8>::empty());
    lemma_frame64_split(a3, b3, Seq::<u8>::empty(), Seq::<u8>::empty());
}

/// `256^4` is `2^32`.
pub proof fn lemma_pow256_4()
    ensures
        pow256(4) == 0x1_0000_0000,
{
    reveal_with_fuel(pow256, 5);
}

/// A byte string framed by its 4-byte length (below `2^32`) can be split
/// off again.
pub proof fn lemma_frame32_split(x: Seq<u8>, y: Seq<u8>, r1: Seq<u8>, r2: Seq<u8>)
    requires
        x.len() < u32::MAX,
        y.len() < u32::MAX,
        frame32(x) + r1 == frame32(y) + r2,
    ensures
        x == y,
        r1 == r2,
{
    lemma_be_bytes_len(x.len(), 4);
    lemma_be_bytes_len(y.len(), 4);
    lemma_pow256_4();
    let s = frame32(x) + r1;
    let t = frame32(y) + r2;
    assert(s.take(4) =~= be_bytes(x.len(), 4));
    assert(t.take(4) =~= be_bytes(y.len(), 4));
    lemma_be_bytes_injective(x.len(), y.len(), 4);
    assert(s.subrange(4, 4 + x.len() as int) =~= x);
    assert(t.subrange(4, 4 + y.len() as int) =~= y);
    assert(s.skip(4 + x.len() as int) =~= r1);
    assert(t.skip(4 + y.len() as int) =~= r2);
}

/// A 4-byte header, three framed byte strings and a tail, in a row,
/// determine each of them.
pub proof fn lemma_header_frames32_split(
    va: Seq<u8>,
    a1: Seq<u8>,
    a2: Seq<u8>,
    a3: Seq<u8>,
    ta: Seq<u8>,
    vb: Seq<u8>,
    b1: Seq<u8>,
    b2: Seq<u8>,
    b3: Seq<u8>,
    tb: Seq<u8>,
)
    requires
        va.len() == 4 && vb.len() == 4,
        a1.len() < u32::MAX && a2.len() < u32::MAX && a3.len() < u32::MAX,
        b1.len() < u32::MAX && b2.len() < u32::MAX && b3.len() < u32::MAX,
        va + frame32(a1) + frame32(a2) + frame32(a3) + ta == vb + frame32(b1) + frame32(b2) + frame32(b3) + tb,
    ensures
        va == vb && a1 == b1 && a2 == b2 && a3 == b3 && ta == tb,
{
    let (f1, f2, f3) = (frame32(a1), frame32(a2), frame32(a3));
    let (g1, g2, g3) = (frame32(b1), frame32(b2), frame32(b3));
    let s = va + f1 + f2 + f3 + ta;
    let t = vb + g1 + g2 + g3 + tb;
    assert(s.take(4) =~= va);
    assert(t.take(4) =~= vb);
    assert(s.skip(4) =~= f1 + (f2 + (f3 + ta)));
    assert(t.skip(4) =~= g1 + (g2 + (g3 + tb)));
    lemma_frame32_split(a1, b1, f2 + (f3 + ta), g2 + (g3 + tb));
    lemma_frame32_split(a2, b2, f3 + ta, g3 + tb);
    lemma_frame32_split(a3, b3, ta, tb);
}

} // verus!
