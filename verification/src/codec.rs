//! Fixed-width integers on the wire, and reading pieces out of a buffer.

use vstd::prelude::*;

verus! {

/// The four bytes of `x`, least significant first.
pub open spec fn u32_le(x: u32) -> Seq<u8> {
    seq![
        (x % 256) as u8,
        (x / 256 % 256) as u8,
        (x / 65536 % 256) as u8,
        (x / 16777216) as u8,
    ]
}

/// The number that four bytes spell, least significant first.
pub open spec fn u32_from_le(b: Seq<u8>) -> u32
    recommends
        b.len() == 4,
{
    (b[0] as int + b[1] as int * 256 + b[2] as int * 65536 + b[3] as int * 16777216) as u32
}

/// The four bytes of `x`, most significant first.
pub open spec fn u32_be(x: u32) -> Seq<u8> {
    seq![
        (x / 16777216) as u8,
        (x / 65536 % 256) as u8,
        (x / 256 % 256) as u8,
        (x % 256) as u8,
    ]
}

/// The number that four bytes spell, most significant first.
pub open spec fn u32_from_be(b: Seq<u8>) -> u32
    recommends
        b.len() == 4,
{
    (b[3] as int + b[2] as int * 256 + b[1] as int * 65536 + b[0] as int * 16777216) as u32
}

/// The eight bytes of `x`, least significant first.
pub open spec fn u64_le(x: u64) -> Seq<u8> {
    u32_le((x % 0x1_0000_0000) as u32) + u32_le((x / 0x1_0000_0000) as u32)
}

/// The number that eight bytes spell, least significant first.
pub open spec fn u64_from_le(b: Seq<u8>) -> u64
    recommends
        b.len() == 8,
{
    (u32_from_le(b.subrange(0, 4)) as int + u32_from_le(b.subrange(4, 8)) as int * 0x1_0000_0000) as u64
}

/// The eight bytes of `x`, most significant first.
pub open spec fn u64_be(x: u64) -> Seq<u8> {
    u32_be((x / 0x1_0000_0000) as u32) + u32_be((x % 0x1_0000_0000) as u32)
}

/// The number that eight bytes spell, most significant first.
pub open spec fn u64_from_be(b: Seq<u8>) -> u64
    recommends
        b.len() == 8,
{
    (u32_from_be(b.subrange(4, 8)) as int + u32_from_be(b.subrange(0, 4)) as int * 0x1_0000_0000) as u64
}

/// A `u32` is the sum of its four base-256 digits.
proof fn lemma_u32_digits(x: u32)
    ensures
        x == (x % 256) + (x / 256 % 256) * 256 + (x / 65536 % 256) * 65536 + (x / 16777216) * 16777216,
        x / 16777216 < 256,
{
    assert(x == (x % 256) + (x / 256 % 256) * 256 + (x / 65536 % 256) * 65536 + (x / 16777216)
        * 16777216 && x / 16777216 < 256) by (bit_vector);
}

/// Four base-256 digits are the digits of the number they add up to.
proof fn lemma_digits_u32(b0: u32, b1: u32, b2: u32, b3: u32)
    requires
        b0 < 256,
        b1 < 256,
        b2 < 256,
        b3 < 256,
    ensures
        b0 + b1 * 256 + b2 * 65536 + b3 * 16777216 <= u32::MAX,
        ({
            let y = (b0 + b1 * 256 + b2 * 65536 + b3 * 16777216) as u32;
            &&& y % 256 == b0
            &&& y / 256 % 256 == b1
            &&& y / 65536 % 256 == b2
            &&& y / 16777216 == b3
        }),
{
    assert(b0 < 256 && b1 < 256 && b2 < 256 && b3 < 256 ==> ({
        let y = (b0 + b1 * 256 + b2 * 65536 + b3 * 16777216) as u32;
        &&& b0 + b1 * 256 + b2 * 65536 + b3 * 16777216 <= 0xffff_ffff
        &&& y % 256 == b0
        &&& y / 256 % 256 == b1
        &&& y / 65536 % 256 == b2
        &&& y / 16777216 == b3
    })) by (bit_vector);
}

/// Decoding a little-endian `u32` undoes encoding it, and back.
pub proof fn lemma_u32_le_round_trip(x: u32, b: Seq<u8>)
    ensures
        u32_le(x).len() == 4,
        u32_from_le(u32_le(x)) == x,
        b.len() == 4 ==> u32_le(u32_from_le(b)) == b,
{
    lemma_u32_digits(x);
    if b.len() == 4 {
        lemma_digits_u32(b[0] as u32, b[1] as u32, b[2] as u32, b[3] as u32);
        assert(u32_le(u32_from_le(b)) =~= b);
    }
}

/// Decoding a big-endian `u32` undoes encoding it, and back.
pub proof fn lemma_u32_be_round_trip(x: u32, b: Seq<u8>)
    ensures
        u32_be(x).len() == 4,
        u32_from_be(u32_be(x)) == x,
        b.len() == 4 ==> u32_be(u32_from_be(b)) == b,
{
    lemma_u32_digits(x);
    if b.len() == 4 {
        lemma_digits_u32(b[3] as u32, b[2] as u32, b[1] as u32, b[0] as u32);
        assert(u32_be(u32_from_be(b)) =~= b);
    }
}

/// A `u64` splits into two halves of 32 bits, and two halves make a `u64`.
proof fn lemma_u64_halves(x: u64, lo: u32, hi: u32)
    ensures
        x == (x % 0x1_0000_0000) + (x / 0x1_0000_0000) * 0x1_0000_0000,
        x / 0x1_0000_0000 <= u32::MAX,
        lo + hi * 0x1_0000_0000 <= u64::MAX,
        ((lo + hi * 0x1_0000_0000) as u64) % 0x1_0000_0000 == lo,
        ((lo + hi * 0x1_0000_0000) as u64) / 0x1_0000_0000 == hi,
{
    assert(x == (x % 0x1_0000_0000) + (x / 0x1_0000_0000) * 0x1_0000_0000 && x / 0x1_0000_0000
        <= 0xffff_ffff) by (bit_vector);
    assert(lo + hi * 0x1_0000_0000 <= 0xffff_ffff_ffff_ffff && ((lo + hi * 0x1_0000_0000) as u64)
        % 0x1_0000_0000 == lo && ((lo + hi * 0x1_0000_0000) as u64) / 0x1_0000_0000 == hi)
        by (bit_vector);
}

/// Decoding a little-endian `u64` undoes encoding it, and back.
pub proof fn lemma_u64_le_round_trip(x: u64, b: Seq<u8>)
    ensures
        u64_le(x).len() == 8,
        u64_from_le(u64_le(x)) == x,
        b.len() == 8 ==> u64_le(u64_from_le(b)) == b,
{
    let lo = (x % 0x1_0000_0000) as u32;
    let hi = (x / 0x1_0000_0000) as u32;
    lemma_u64_halves(x, lo, hi);
    lemma_u32_le_round_trip(lo, b.subrange(0, 4));
    lemma_u32_le_round_trip(hi, b.subrange(4, 8));
    assert(u64_le(x).subrange(0, 4) =~= u32_le(lo));
    assert(u64_le(x).subrange(4, 8) =~= u32_le(hi));
    if b.len() == 8 {
        let l = u32_from_le(b.subrange(0, 4));
        let h = u32_from_le(b.subrange(4, 8));
        lemma_u64_halves(0, l, h);
        assert(u64_le(u64_from_le(b)) == b.subrange(0, 4) + b.subrange(4, 8));
        assert(b.subrange(0, 4) + b.subrange(4, 8) =~= b);
    }
}

/// Decoding a big-endian `u64` undoes encoding it, and back.
pub proof fn lemma_u64_be_round_trip(x: u64, b: Seq<u8>)
    ensures
        u64_be(x).len() == 8,
        u64_from_be(u64_be(x)) == x,
        b.len() == 8 ==> u64_be(u64_from_be(b)) == b,
{
    let lo = (x % 0x1_0000_0000) as u32;
    let hi = (x / 0x1_0000_0000) as u32;
    lemma_u64_halves(x, lo, hi);
    lemma_u32_be_round_trip(lo, b.subrange(4, 8));
    lemma_u32_be_round_trip(hi, b.subrange(0, 4));
    assert(u64_be(x).subrange(0, 4) =~= u32_be(hi));
    assert(u64_be(x).subrange(4, 8) =~= u32_be(lo));
    if b.len() == 8 {
        let l = u32_from_be(b.subrange(4, 8));
        let h = u32_from_be(b.subrange(0, 4));
        lemma_u64_halves(0, l, h);
        assert(u64_be(u64_from_be(b)) == b.subrange(0, 4) + b.subrange(4, 8));
        assert(b.subrange(0, 4) + b.subrange(4, 8) =~= b);
    }
}

/// Splits the first `n` bytes off `b`: what was read and what is left,
/// or nothing where `b` is shorter.
pub open spec fn read_fixed(b: Seq<u8>, n: nat) -> Option<(Seq<u8>, Seq<u8>)> {
    if b.len() >= n {
        Some((b.take(n as int), b.skip(n as int)))
    } else {
        None
    }
}

/// Reads a little-endian `u32` off the front of `b`.
pub open spec fn read_u32_le(b: Seq<u8>) -> Option<(u32, Seq<u8>)> {
    match read_fixed(b, 4) {
        Some((v, rest)) => Some((u32_from_le(v), rest)),
        None => None,
    }
}

/// Reads a little-endian `u64` off the front of `b`.
pub open spec fn read_u64_le(b: Seq<u8>) -> Option<(u64, Seq<u8>)> {
    match read_fixed(b, 8) {
        Some((v, rest)) => Some((u64_from_le(v), rest)),
        None => None,
    }
}

/// Reads a big-endian `u32` off the front of `b`.
pub open spec fn read_u32_be(b: Seq<u8>) -> Option<(u32, Seq<u8>)> {
    match read_fixed(b, 4) {
        Some((v, rest)) => Some((u32_from_be(v), rest)),
        None => None,
    }
}

/// Reads a big-endian `u64` off the front of `b`.
pub open spec fn read_u64_be(b: Seq<u8>) -> Option<(u64, Seq<u8>)> {
    match read_fixed(b, 8) {
        Some((v, rest)) => Some((u64_from_be(v), rest)),
        None => None,
    }
}

/// Reads a byte string that is preceded by its length as a little-endian
/// `u64`.
pub open spec fn read_prefixed(b: Seq<u8>) -> Option<(Seq<u8>, Seq<u8>)> {
    match read_u64_le(b) {
        Some((n, rest)) => read_fixed(rest, n as nat),
        None => None,
    }
}

/// `x` preceded by its length as a little-endian `u64`.
pub open spec fn prefixed(x: Seq<u8>) -> Seq<u8> {
    u64_le(x.len() as u64) + x
}

/// Reading `x.len()` bytes off `x + rest` gives `x` and leaves `rest`.
pub proof fn lemma_read_fixed(x: Seq<u8>, rest: Seq<u8>)
    ensures
        read_fixed(x + rest, x.len()) == Some((x, rest)),
{
    assert((x + rest).take(x.len() as int) =~= x);
    assert((x + rest).skip(x.len() as int) =~= rest);
}

/// What was read off the front, followed by what is left, is what was
/// there.
pub proof fn lemma_read_fixed_parts(b: Seq<u8>, n: nat)
    ensures
        read_fixed(b, n) matches Some((v, rest)) ==> v.len() == n && b == v + rest,
{
    if b.len() >= n {
        assert(b =~= b.take(n as int) + b.skip(n as int));
    }
}

/// Reading a length-prefixed string off `prefixed(x) + rest` gives `x` and
/// leaves `rest`.
pub proof fn lemma_read_prefixed(x: Seq<u8>, rest: Seq<u8>)
    requires
        x.len() <= u64::MAX,
    ensures
        read_prefixed(prefixed(x) + rest) == Some((x, rest)),
{
    let n = x.len() as u64;
    lemma_u64_le_round_trip(n, Seq::empty());
    assert(prefixed(x) + rest =~= u64_le(n) + (x + rest));
    lemma_read_fixed(u64_le(n), x + rest);
    lemma_read_fixed(x, rest);
}

/// A length-prefixed string that was read, followed by what is left, is
/// what was there.
pub proof fn lemma_read_prefixed_parts(b: Seq<u8>)
    ensures
        read_prefixed(b) matches Some((x, rest)) ==> x.len() <= u64::MAX && b == prefixed(x) + rest,
{
    lemma_read_fixed_parts(b, 8);
    if let Some((n, tail)) = read_u64_le(b) {
        lemma_read_fixed_parts(tail, n as nat);
        if let Some((x, rest)) = read_fixed(tail, n as nat) {
            lemma_u64_le_round_trip(0, b.take(8));
            assert(b =~= prefixed(x) + rest);
        }
    }
}

/// Appends `x` in little-endian order.
pub fn put_u32_le(out: &mut Vec<u8>, x: u32)
    ensures
        final(out)@ == old(out)@ + u32_le(x),
{
    out.push((x % 256) as u8);
    out.push((x / 256 % 256) as u8);
    out.push((x / 65536 % 256) as u8);
    out.push((x / 16777216) as u8);
    assert(out@ =~= old(out)@ + u32_le(x));
}

/// Appends `x` in big-endian order.
pub fn put_u32_be(out: &mut Vec<u8>, x: u32)
    ensures
        final(out)@ == old(out)@ + u32_be(x),
{
    out.push((x / 16777216) as u8);
    out.push((x / 65536 % 256) as u8);
    out.push((x / 256 % 256) as u8);
    out.push((x % 256) as u8);
    assert(out@ =~= old(out)@ + u32_be(x));
}

/// Appends `x` in little-endian order.
pub fn put_u64_le(out: &mut Vec<u8>, x: u64)
    ensures
        final(out)@ == old(out)@ + u64_le(x),
{
    put_u32_le(out, (x % 0x1_0000_0000) as u32);
    put_u32_le(out, (x / 0x1_0000_0000) as u32);
    assert(out@ =~= old(out)@ + u64_le(x));
}

/// Appends `x` in big-endian order.
pub fn put_u64_be(out: &mut Vec<u8>, x: u64)
    ensures
        final(out)@ == old(out)@ + u64_be(x),
{
    put_u32_be(out, (x / 0x1_0000_0000) as u32);
    put_u32_be(out, (x % 0x1_0000_0000) as u32);
    assert(out@ =~= old(out)@ + u64_be(x));
}

/// Appends all of `data`.
pub fn put_bytes(out: &mut Vec<u8>, data: &[u8])
    ensures
        final(out)@ == old(out)@ + data@,
{
    out.extend_from_slice(data);
}

/// Reads a little-endian `u32` at `at`.
pub fn get_u32_le(bytes: &[u8], at: usize) -> (x: u32)
    requires
        at + 4 <= bytes@.len(),
    ensures
        x == u32_from_le(bytes@.subrange(at as int, at + 4)),
{
    let b0 = bytes[at] as u32;
    let b1 = bytes[at + 1] as u32;
    let b2 = bytes[at + 2] as u32;
    let b3 = bytes[at + 3] as u32;
    b0 + b1 * 256 + b2 * 65536 + b3 * 16777216
}

/// Reads a big-endian `u32` at `at`.
pub fn get_u32_be(bytes: &[u8], at: usize) -> (x: u32)
    requires
        at + 4 <= bytes@.len(),
    ensures
        x == u32_from_be(bytes@.subrange(at as int, at + 4)),
{
    let b0 = bytes[at] as u32;
    let b1 = bytes[at + 1] as u32;
    let b2 = bytes[at + 2] as u32;
    let b3 = bytes[at + 3] as u32;
    b3 + b2 * 256 + b1 * 65536 + b0 * 16777216
}

/// Reads a little-endian `u64` at `at`.
pub fn get_u64_le(bytes: &[u8], at: usize) -> (x: u64)
    requires
        at + 8 <= bytes@.len(),
    ensures
        x == u64_from_le(bytes@.subrange(at as int, at + 8)),
{
    let _ = bytes.len();
    let lo = get_u32_le(bytes, at) as u64;
    let hi = get_u32_le(bytes, at + 4) as u64;
    proof {
        let b = bytes@.subrange(at as int, at + 8);
        assert(b.subrange(0, 4) =~= bytes@.subrange(at as int, at + 4));
        assert(b.subrange(4, 8) =~= bytes@.subrange(at + 4, at + 8));
    }
    lo + hi * 0x1_0000_0000
}

/// Reads a big-endian `u64` at `at`.
pub fn get_u64_be(bytes: &[u8], at: usize) -> (x: u64)
    requires
        at + 8 <= bytes@.len(),
    ensures
        x == u64_from_be(bytes@.subrange(at as int, at + 8)),
{
    let _ = bytes.len();
    let hi = get_u32_be(bytes, at) as u64;
    let lo = get_u32_be(bytes, at + 4) as u64;
    proof {
        let b = bytes@.subrange(at as int, at + 8);
        assert(b.subrange(0, 4) =~= bytes@.subrange(at as int, at + 4));
        assert(b.subrange(4, 8) =~= bytes@.subrange(at + 4, at + 8));
    }
    lo + hi * 0x1_0000_0000
}

/// Copies the `len` bytes at `at` out of `bytes`.
pub fn get_bytes(bytes: &[u8], at: usize, len: usize) -> (out: Vec<u8>)
    requires
        at + len <= bytes@.len(),
    ensures
        out@ == bytes@.subrange(at as int, at + len),
{
    let _ = bytes.len();
    let mut out: Vec<u8> = Vec::new();
    out.extend_from_slice(vstd::slice::slice_subrange(bytes, at, at + len));
    assert(out@ =~= bytes@.subrange(at as int, at + len));
    out
}

/// Copies the `N` bytes at `at` out of `bytes` into an array.
pub fn get_array<const N: usize>(bytes: &[u8], at: usize) -> (out: [u8; N])
    requires
        at + N <= bytes@.len(),
    ensures
        out@ == bytes@.subrange(at as int, at + N),
{
    let _ = bytes.len();
    let mut out = [0u8; N];
    let mut i: usize = 0;
    while i < N
        invariant
            i <= N,
            at + N <= bytes@.len() <= usize::MAX,
            forall|j: int| 0 <= j < i ==> out@[j] == bytes@[at + j],
        decreases N - i,
    {
        out[i] = bytes[at + i];
        i += 1;
    }
    assert(out@ =~= bytes@.subrange(at as int, at + N));
    out
}

/// Whether two byte strings hold the same bytes.
pub fn bytes_equal(a: &[u8], b: &[u8]) -> (same: bool)
    ensures
        same == (a@ == b@),
{
    if a.len() != b.len() {
        return false;
    }
    let mut i: usize = 0;
    while i < a.len()
        invariant
            i <= a@.len(),
            a@.len() == b@.len(),
            forall|j: int| 0 <= j < i ==> a@[j] == b@[j],
        decreases a@.len() - i,
    {
        if a[i] != b[i] {
            return false;
        }
        i += 1;
    }
    assert(a@ =~= b@);
    true
}

/// Reads `N` bytes at `pos`. Gives them and the place after them.
pub fn take_array<const N: usize>(bytes: &[u8], pos: usize) -> (out: Option<([u8; N], usize)>)
    requires
        pos <= bytes@.len(),
    ensures
        match read_fixed(bytes@.skip(pos as int), N as nat) {
            Some((v, rest)) => out matches Some((a, next)) && a@ == v && next == pos + N
                && next <= bytes@.len() && bytes@.skip(next as int) == rest,
            None => out is None,
        },
{
    let len = bytes.len();
    if len - pos < N {
        return None;
    }
    let a = get_array::<N>(bytes, pos);
    proof {
        let b = bytes@.skip(pos as int);
        assert(b.take(N as int) =~= bytes@.subrange(pos as int, pos + N));
        assert(b.skip(N as int) =~= bytes@.skip(pos + N));
    }
    Some((a, pos + N))
}

/// Reads a little-endian `u32` at `pos`.
pub fn take_u32_le(bytes: &[u8], pos: usize) -> (out: Option<(u32, usize)>)
    requires
        pos <= bytes@.len(),
    ensures
        match read_u32_le(bytes@.skip(pos as int)) {
            Some((v, rest)) => out matches Some((x, next)) && x == v && next == pos + 4
                && next <= bytes@.len() && bytes@.skip(next as int) == rest,
            None => out is None,
        },
{
    let len = bytes.len();
    if len - pos < 4 {
        return None;
    }
    let v = get_u32_le(bytes, pos);
    proof {
        let b = bytes@.skip(pos as int);
        assert(b.take(4) =~= bytes@.subrange(pos as int, pos + 4));
        assert(b.skip(4) =~= bytes@.skip(pos + 4));
    }
    Some((v, pos + 4))
}

/// Reads a little-endian `u64` at `pos`.
pub fn take_u64_le(bytes: &[u8], pos: usize) -> (out: Option<(u64, usize)>)
    requires
        pos <= bytes@.len(),
    ensures
        match read_u64_le(bytes@.skip(pos as int)) {
            Some((v, rest)) => out matches Some((x, next)) && x == v && next == pos + 8
                && next <= bytes@.len() && bytes@.skip(next as int) == rest,
            None => out is None,
        },
{
    let len = bytes.len();
    if len - pos < 8 {
        return None;
    }
    let v = get_u64_le(bytes, pos);
    proof {
        let b = bytes@.skip(pos as int);
        assert(b.take(8) =~= bytes@.subrange(pos as int, pos + 8));
        assert(b.skip(8) =~= bytes@.skip(pos + 8));
    }
    Some((v, pos + 8))
}

/// Reads a length-prefixed byte string at `pos`.
pub fn take_prefixed(bytes: &[u8], pos: usize) -> (out: Option<(Vec<u8>, usize)>)
    requires
        pos <= bytes@.len(),
    ensures
        match read_prefixed(bytes@.skip(pos as int)) {
            Some((v, rest)) => out matches Some((x, next)) && x@ == v && pos <= next
                <= bytes@.len() && bytes@.skip(next as int) == rest,
            None => out is None,
        },
{
    let len = bytes.len();
    match take_u64_le(bytes, pos) {
        None => None,
        Some((n, at)) => {
            if ((len - at) as u64) < n {
                return None;
            }
            let count = n as usize;
            let x = get_bytes(bytes, at, count);
            proof {
                let b = bytes@.skip(at as int);
                assert(b.take(count as int) =~= bytes@.subrange(at as int, at + count));
                assert(b.skip(count as int) =~= bytes@.skip(at + count));
            }
            Some((x, at + count))
        },
    }
}

/// Appends `data` preceded by its length.
pub fn put_prefixed(out: &mut Vec<u8>, data: &[u8])
    ensures
        final(out)@ == old(out)@ + prefixed(data@),
{
    put_u64_le(out, data.len() as u64);
    put_bytes(out, data);
    assert(out@ =~= old(out)@ + prefixed(data@));
}

/// Reads a big-endian `u32` at `pos`.
pub fn take_u32_be(bytes: &[u8], pos: usize) -> (out: Option<(u32, usize)>)
    requires
        pos <= bytes@.len(),
    ensures
        match read_u32_be(bytes@.skip(pos as int)) {
            Some((v, rest)) => out matches Some((x, next)) && x == v && next == pos + 4
                && next <= bytes@.len() && bytes@.skip(next as int) == rest,
            None => out is None,
        },
{
    let len = bytes.len();
    if len - pos < 4 {
        return None;
    }
    let v = get_u32_be(bytes, pos);
    proof {
        let b = bytes@.skip(pos as int);
        assert(b.take(4) =~= bytes@.subrange(pos as int, pos + 4));
        assert(b.skip(4) =~= bytes@.skip(pos + 4));
    }
    Some((v, pos + 4))
}

/// Reads a big-endian `u64` at `pos`.
pub fn take_u64_be(bytes: &[u8], pos: usize) -> (out: Option<(u64, usize)>)
    requires
        pos <= bytes@.len(),
    ensures
        match read_u64_be(bytes@.skip(pos as int)) {
            Some((v, rest)) => out matches Some((x, next)) && x == v && next == pos + 8
                && next <= bytes@.len() && bytes@.skip(next as int) == rest,
            None => out is None,
        },
{
    let len = bytes.len();
    if len - pos < 8 {
        return None;
    }
    let v = get_u64_be(bytes, pos);
    proof {
        let b = bytes@.skip(pos as int);
        assert(b.take(8) =~= bytes@.subrange(pos as int, pos + 8));
        assert(b.skip(8) =~= bytes@.skip(pos + 8));
    }
    Some((v, pos + 8))
}

/// Reads `len` bytes at `pos`.
pub fn take_bytes(bytes: &[u8], pos: usize, len: usize) -> (out: Option<(Vec<u8>, usize)>)
    requires
        pos <= bytes@.len(),
    ensures
        match read_fixed(bytes@.skip(pos as int), len as nat) {
            Some((v, rest)) => out matches Some((x, next)) && x@ == v && next == pos + len
                && next <= bytes@.len() && bytes@.skip(next as int) == rest,
            None => out is None,
        },
{
    let total = bytes.len();
    if total - pos < len {
        return None;
    }
    let x = get_bytes(bytes, pos, len);
    proof {
        let b = bytes@.skip(pos as int);
        assert(b.take(len as int) =~= bytes@.subrange(pos as int, pos + len));
        assert(b.skip(len as int) =~= bytes@.skip(pos + len));
    }
    Some((x, pos + len))
}

} // verus!
