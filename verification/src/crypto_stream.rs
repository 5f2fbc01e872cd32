//! The chunked envelope: a framed header, then the compressed payload cut
//! into chunks that are sealed one by one, each bound to its place in the
//! stream, then a terminator.

use vstd::prelude::*;
use vstd::utf8::encode_utf8;
use crate::codec::{
    lemma_read_fixed, lemma_read_prefixed, lemma_u32_be_round_trip, lemma_u32_le_round_trip,
    get_array, lemma_u64_be_round_trip, lemma_u64_le_round_trip, prefixed, put_bytes, put_prefixed,
    put_u32_be, put_u32_le, put_u64_le, read_fixed, read_prefixed, read_u32_be,
    read_u32_le, read_u64_be, read_u64_le, take_array, take_bytes, take_prefixed, take_u32_be,
    take_u32_le, take_u64_be, take_u64_le, u32_be, u32_from_be, u32_le, u64_be, u64_le,
};
use crate::container::{bool_bytes, lemma_bool_round_trip, read_bool, take_bool, InnerPayload, PayloadView};
use crate::crypto::{
    key_wrapped, lemma_wrapped_key_unwraps, unwrap_file_key, unwrapped_key,
};
use crate::error::VaultError;
use crate::keys::{opt_view, wrapping_key, MasterKey};
use crate::primitives::aead::{aead_opened, aead_sealed, open, seal, seals, TAG_LEN};
use crate::primitives::compress::{compress_data, compresses, decompress_data, zstd_compressed, zstd_expanded};
use crate::primitives::random::{keystream, os_random, seeded_bytes};
use crate::primitives::wipe::wipe;
use crate::stream_steps::{
    begin_stream, begun_header, behind, close_stream, front, header_length,
    lemma_steps_open_the_envelope, open_frame, open_header, seal_next, OpenedHeader,
};
use crate::text::{decode, decoded, lemma_decode_encoded};

verus! {

/// The version tag of the chunked envelope.
pub const STREAM_VERSION: u32 = 5;

/// The chunk size used where none is asked for: 1 MiB.
pub const DEFAULT_CHUNK_SIZE: u32 = 0x10_0000;

/// The largest chunk size: 1 GiB, so that a sealed chunk fits one buffer
/// also where addresses have 32 bits.
pub const MAX_CHUNK_SIZE: u32 = 0x4000_0000;

/// The length prefix that marks the terminator in place of a chunk.
pub const TERMINATOR_MARK: u32 = 0xFFFF_FFFF;

/// Whether `n` is a power of two.
pub open spec fn is_power_of_two(n: u32) -> bool {
    n > 0 && n & sub_one(n) == 0
}

/// `n - 1` for a positive `n`.
pub open spec fn sub_one(n: u32) -> u32 {
    (n - 1) as u32
}

/// Whether `n` can be the chunk size of a stream: a power of two, at most
/// the largest chunk size.
pub open spec fn valid_chunk_size(n: u32) -> bool {
    is_power_of_two(n) && n <= MAX_CHUNK_SIZE
}

/// Whether `n` can be the chunk size of a stream.
pub fn check_chunk_size(n: u32) -> (valid: bool)
    ensures
        valid == valid_chunk_size(n),
{
    n > 0 && n & (n - 1) == 0 && n <= MAX_CHUNK_SIZE
}

/// The header of a chunked envelope.
#[derive(Debug)]
pub struct StreamHeader {
    pub validation_nonce: [u8; 12],
    pub encrypted_validation_tag: Vec<u8>,
    pub key_wrapping_nonce: [u8; 12],
    pub encrypted_file_key: Vec<u8>,
    pub uses_keyfile: bool,
    pub stream_salt: [u8; 8],
    pub chunk_size: u32,
    pub original_length: Option<u64>,
    pub filename: String,
}

/// The mathematical value of a [`StreamHeader`].
pub struct StreamHeaderView {
    pub validation_nonce: Seq<u8>,
    pub encrypted_validation_tag: Seq<u8>,
    pub key_wrapping_nonce: Seq<u8>,
    pub encrypted_file_key: Seq<u8>,
    pub uses_keyfile: bool,
    pub stream_salt: Seq<u8>,
    pub chunk_size: u32,
    pub original_length: Option<u64>,
    pub filename: Seq<char>,
}

impl StreamHeaderView {
    /// Nonces are 12 bytes, the salt is 8, and the variable fields are
    /// short enough for their length to be written down.
    pub open spec fn wf(self) -> bool {
        &&& self.validation_nonce.len() == 12
        &&& self.key_wrapping_nonce.len() == 12
        &&& self.stream_salt.len() == 8
        &&& self.encrypted_validation_tag.len() <= u64::MAX
        &&& self.encrypted_file_key.len() <= u64::MAX
        &&& encode_utf8(self.filename).len() <= u64::MAX
    }
}

impl View for StreamHeader {
    type V = StreamHeaderView;

    open spec fn view(&self) -> StreamHeaderView {
        StreamHeaderView {
            validation_nonce: self.validation_nonce@,
            encrypted_validation_tag: self.encrypted_validation_tag@,
            key_wrapping_nonce: self.key_wrapping_nonce@,
            encrypted_file_key: self.encrypted_file_key@,
            uses_keyfile: self.uses_keyfile,
            stream_salt: self.stream_salt@,
            chunk_size: self.chunk_size,
            original_length: self.original_length,
            filename: self.filename@,
        }
    }
}

/// An optional length on the wire: a zero byte, or a one byte and the
/// length as a little-endian `u64`.
pub open spec fn opt_len_bytes(len: Option<u64>) -> Seq<u8> {
    match len {
        None => seq![0u8],
        Some(n) => seq![1u8] + u64_le(n),
    }
}

/// Reads an optional length off the front of `b`.
pub open spec fn read_opt_len(b: Seq<u8>) -> Option<(Option<u64>, Seq<u8>)> {
    match read_fixed(b, 1) {
        None => None,
        Some((v, rest)) => if v[0] == 0 {
            Some((None, rest))
        } else if v[0] == 1 {
            match read_u64_le(rest) {
                None => None,
                Some((n, after)) => Some((Some(n), after)),
            }
        } else {
            None
        },
    }
}

/// A stream header on the wire: its fields in their fixed order.
pub open spec fn stream_header_bytes(h: StreamHeaderView) -> Seq<u8> {
    h.validation_nonce + (prefixed(h.encrypted_validation_tag) + (h.key_wrapping_nonce + (prefixed(
        h.encrypted_file_key,
    ) + (bool_bytes(h.uses_keyfile) + (h.stream_salt + (u32_le(h.chunk_size) + (opt_len_bytes(
        h.original_length,
    ) + prefixed(encode_utf8(h.filename)))))))))
}

/// The four fields of a header that hold the wrapped file key.
pub struct WrappedKeyView {
    pub validation_nonce: Seq<u8>,
    pub encrypted_validation_tag: Seq<u8>,
    pub key_wrapping_nonce: Seq<u8>,
    pub encrypted_file_key: Seq<u8>,
}

/// Reads the fields that hold the wrapped file key off the front of `b`.
#[verifier::opaque]
pub open spec fn read_wrapped_key(b: Seq<u8>) -> Option<(WrappedKeyView, Seq<u8>)> {
    match read_fixed(b, 12) {
        None => None,
        Some((validation_nonce, b1)) => match read_prefixed(b1) {
            None => None,
            Some((encrypted_validation_tag, b2)) => match read_fixed(b2, 12) {
                None => None,
                Some((key_wrapping_nonce, b3)) => match read_prefixed(b3) {
                    None => None,
                    Some((encrypted_file_key, b4)) => Some(
                        (
                            WrappedKeyView {
                                validation_nonce,
                                encrypted_validation_tag,
                                key_wrapping_nonce,
                                encrypted_file_key,
                            },
                            b4,
                        ),
                    ),
                },
            },
        },
    }
}

/// Reads a stream header off the front of `b`.
#[verifier::opaque]
pub open spec fn read_stream_header(b: Seq<u8>) -> Option<(StreamHeaderView, Seq<u8>)> {
    match read_wrapped_key(b) {
        None => None,
        Some((w, b4)) => match read_bool(b4) {
            None => None,
            Some((uses_keyfile, b5)) => match read_fixed(b5, 8) {
                None => None,
                Some((stream_salt, b6)) => match read_u32_le(b6) {
                    None => None,
                    Some((chunk_size, b7)) => match read_opt_len(b7) {
                        None => None,
                        Some((original_length, b8)) => match read_prefixed(b8) {
                            None => None,
                            Some((name, b9)) => match decoded(name) {
                                None => None,
                                Some(filename) => Some(
                                    (
                                        StreamHeaderView {
                                            validation_nonce: w.validation_nonce,
                                            encrypted_validation_tag: w.encrypted_validation_tag,
                                            key_wrapping_nonce: w.key_wrapping_nonce,
                                            encrypted_file_key: w.encrypted_file_key,
                                            uses_keyfile,
                                            stream_salt,
                                            chunk_size,
                                            original_length,
                                            filename,
                                        },
                                        b9,
                                    ),
                                ),
                            },
                        },
                    },
                },
            },
        },
    }
}

/// Reading an optional length that was written gives it back.
pub proof fn lemma_opt_len_round_trip(len: Option<u64>, rest: Seq<u8>)
    ensures
        read_opt_len(opt_len_bytes(len) + rest) == Some((len, rest)),
{
    match len {
        None => {
            lemma_read_fixed(seq![0u8], rest);
        },
        Some(n) => {
            assert(opt_len_bytes(len) + rest =~= seq![1u8] + (u64_le(n) + rest));
            lemma_read_fixed(seq![1u8], u64_le(n) + rest);
            lemma_u64_le_round_trip(n, Seq::empty());
            lemma_read_fixed(u64_le(n), rest);
        },
    }
}

/// Reading the wrapped-key fields that were written gives them back and
/// leaves what follows.
proof fn lemma_wrapped_key_round_trip(w: WrappedKeyView, rest: Seq<u8>)
    requires
        w.validation_nonce.len() == 12,
        w.key_wrapping_nonce.len() == 12,
        w.encrypted_validation_tag.len() <= u64::MAX,
        w.encrypted_file_key.len() <= u64::MAX,
    ensures
        read_wrapped_key(
            w.validation_nonce + (prefixed(w.encrypted_validation_tag) + (w.key_wrapping_nonce + (
            prefixed(w.encrypted_file_key) + rest))),
        ) == Some((w, rest)),
{
    reveal(read_wrapped_key);
    let t3 = prefixed(w.encrypted_file_key) + rest;
    let t2 = w.key_wrapping_nonce + t3;
    let t1 = prefixed(w.encrypted_validation_tag) + t2;
    lemma_read_fixed(w.validation_nonce, t1);
    lemma_read_prefixed(w.encrypted_validation_tag, t2);
    lemma_read_fixed(w.key_wrapping_nonce, t3);
    lemma_read_prefixed(w.encrypted_file_key, rest);
}

/// Reading a stream header that was written gives the header back and
/// leaves nothing.
pub proof fn lemma_stream_header_round_trip(h: StreamHeaderView)
    requires
        h.wf(),
    ensures
        read_stream_header(stream_header_bytes(h)) == Some((h, Seq::<u8>::empty())),
{
    reveal(read_stream_header);
    let name = encode_utf8(h.filename);
    let t8 = prefixed(name);
    let t7 = opt_len_bytes(h.original_length) + t8;
    let t6 = u32_le(h.chunk_size) + t7;
    let t5 = h.stream_salt + t6;
    let t4 = bool_bytes(h.uses_keyfile) + t5;
    let w = WrappedKeyView {
        validation_nonce: h.validation_nonce,
        encrypted_validation_tag: h.encrypted_validation_tag,
        key_wrapping_nonce: h.key_wrapping_nonce,
        encrypted_file_key: h.encrypted_file_key,
    };
    lemma_wrapped_key_round_trip(w, t4);
    assert(read_wrapped_key(stream_header_bytes(h)) == Some((w, t4)));
    lemma_bool_round_trip(h.uses_keyfile, t5);
    lemma_read_fixed(h.stream_salt, t6);
    lemma_u32_le_round_trip(h.chunk_size, Seq::empty());
    lemma_read_fixed(u32_le(h.chunk_size), t7);
    assert(read_u32_le(t6) == Some((h.chunk_size, t7)));
    lemma_opt_len_round_trip(h.original_length, t8);
    assert(t8 =~= prefixed(name) + Seq::<u8>::empty());
    lemma_read_prefixed(name, Seq::empty());
    lemma_decode_encoded(h.filename);
}

/// Reads an optional length at `pos`.
fn take_opt_len(bytes: &[u8], pos: usize) -> (out: Option<(Option<u64>, usize)>)
    requires
        pos <= bytes@.len(),
    ensures
        match read_opt_len(bytes@.skip(pos as int)) {
            Some((v, rest)) => out matches Some((n, next)) && n == v && pos <= next <= bytes@.len()
                && bytes@.skip(next as int) == rest,
            None => out is None,
        },
{
    match take_array::<1>(bytes, pos) {
        None => None,
        Some((v, next)) => if v[0] == 0 {
            Some((None, next))
        } else if v[0] == 1 {
            match take_u64_le(bytes, next) {
                None => None,
                Some((n, after)) => Some((Some(n), after)),
            }
        } else {
            None
        },
    }
}

impl StreamHeader {
    /// The header in its wire form.
    pub fn to_bytes(&self) -> (out: Vec<u8>)
        ensures
            out@ == stream_header_bytes(self@),
    {
        let mut tail: Vec<u8> = Vec::new();
        tail.push(if self.uses_keyfile { 1u8 } else { 0u8 });
        put_bytes(&mut tail, self.stream_salt.as_slice());
        put_u32_le(&mut tail, self.chunk_size);
        match self.original_length {
            None => {
                tail.push(0u8);
            },
            Some(n) => {
                tail.push(1u8);
                put_u64_le(&mut tail, n);
            },
        }
        put_prefixed(&mut tail, self.filename.as_str().as_bytes());
        let ghost t4 = bool_bytes(self.uses_keyfile) + (self.stream_salt@ + (u32_le(self.chunk_size)
            + (opt_len_bytes(self.original_length) + prefixed(encode_utf8(self.filename@)))));
        assert(tail@ =~= t4);
        let mut out: Vec<u8> = Vec::new();
        put_bytes(&mut out, self.validation_nonce.as_slice());
        put_prefixed(&mut out, self.encrypted_validation_tag.as_slice());
        put_bytes(&mut out, self.key_wrapping_nonce.as_slice());
        put_prefixed(&mut out, self.encrypted_file_key.as_slice());
        let ghost head = out@;
        put_bytes(&mut out, tail.as_slice());
        proof {
            let a = self.validation_nonce@;
            let b = prefixed(self.encrypted_validation_tag@);
            let c = self.key_wrapping_nonce@;
            let d = prefixed(self.encrypted_file_key@);
            assert(head =~= a + b + c + d);
            assert((a + b + c + d) + t4 =~= a + (b + (c + (d + t4))));
        }
        out
    }

    /// Reads a header off the front of `bytes`. Gives the header and how
    /// many bytes it took.
    pub fn from_bytes(bytes: &[u8]) -> (out: Option<(StreamHeader, usize)>)
        ensures
            match read_stream_header(bytes@) {
                Some((v, rest)) => out matches Some((h, taken)) && h@ == v && h@.wf() && taken
                    <= bytes@.len() && bytes@.skip(taken as int) == rest,
                None => out is None,
            },
    {
        proof {
            reveal(read_stream_header);
        }
        let (validation_nonce, encrypted_validation_tag, key_wrapping_nonce, encrypted_file_key, p4) =
            match take_wrapped_key(bytes) {
            Some(r) => r,
            None => { return None; },
        };
        let (uses_keyfile, p5) = match take_bool(bytes, p4) {
            Some(r) => r,
            None => { return None; },
        };
        let (stream_salt, p6) = match take_array::<8>(bytes, p5) {
            Some(r) => r,
            None => { return None; },
        };
        let (chunk_size, p7) = match take_u32_le(bytes, p6) {
            Some(r) => r,
            None => { return None; },
        };
        let (original_length, p8) = match take_opt_len(bytes, p7) {
            Some(r) => r,
            None => { return None; },
        };
        let (name, p9) = match take_prefixed(bytes, p8) {
            Some(r) => r,
            None => { return None; },
        };
        let ghost name_view = name@;
        let filename = match decode(name) {
            Some(f) => f,
            None => { return None; },
        };
        proof {
            crate::text::lemma_encode_decoded(name_view);
            crate::codec::lemma_read_prefixed_parts(bytes@.skip(p8 as int));
            assert(encode_utf8(filename@) == name_view);
            assert(name_view.len() <= u64::MAX);
            crate::codec::lemma_read_prefixed_parts(bytes@.skip(p8 as int));
        }
        Some(
            (
                StreamHeader {
                    validation_nonce,
                    encrypted_validation_tag,
                    key_wrapping_nonce,
                    encrypted_file_key,
                    uses_keyfile,
                    stream_salt,
                    chunk_size,
                    original_length,
                    filename,
                },
                p9,
            ),
        )
    }
}

/// Reads the fields that hold the wrapped file key off the front of
/// `bytes`.
fn take_wrapped_key(bytes: &[u8]) -> (out: Option<([u8; 12], Vec<u8>, [u8; 12], Vec<u8>, usize)>)
    ensures
        match read_wrapped_key(bytes@) {
            Some((w, rest)) => out matches Some((vn, evt, kwn, efk, next)) && vn@
                == w.validation_nonce && evt@ == w.encrypted_validation_tag && kwn@
                == w.key_wrapping_nonce && efk@ == w.encrypted_file_key && next <= bytes@.len()
                && bytes@.skip(next as int) == rest && evt@.len() <= u64::MAX && efk@.len()
                <= u64::MAX,
            None => out is None,
        },
{
    proof {
        reveal(read_wrapped_key);
        assert(bytes@.skip(0) =~= bytes@);
    }
    let total = bytes.len();
    let (validation_nonce, p1) = match take_array::<12>(bytes, 0) {
        Some(r) => r,
        None => { return None; },
    };
    let (encrypted_validation_tag, p2) = match take_prefixed(bytes, p1) {
        Some(r) => r,
        None => { return None; },
    };
    let (key_wrapping_nonce, p3) = match take_array::<12>(bytes, p2) {
        Some(r) => r,
        None => { return None; },
    };
    let (encrypted_file_key, p4) = match take_prefixed(bytes, p3) {
        Some(r) => r,
        None => { return None; },
    };
    Some((validation_nonce, encrypted_validation_tag, key_wrapping_nonce, encrypted_file_key, p4))
}

/// The nonce of the chunk at `index`: the stream salt, then the index as
/// a big-endian `u32`.
pub open spec fn chunk_nonce(salt: Seq<u8>, index: u32) -> Seq<u8> {
    salt + u32_be(index)
}

/// What identifies the file in every chunk's associated data: the first
/// 16 bytes of the sealed validation tag.
pub open spec fn file_tag(encrypted_validation_tag: Seq<u8>) -> Seq<u8> {
    if encrypted_validation_tag.len() >= 16 {
        encrypted_validation_tag.take(16)
    } else {
        encrypted_validation_tag
    }
}

/// The associated data of the chunk at `index`: the index as a
/// big-endian `u32`, one byte that says whether the chunk is the last,
/// and the file's tag.
pub open spec fn chunk_aad(index: u32, is_final: bool, tag: Seq<u8>) -> Seq<u8> {
    u32_be(index) + bool_bytes(is_final) + tag
}

/// Chunks at different places have different nonces.
pub proof fn lemma_chunk_nonces_differ(salt: Seq<u8>, a: u32, b: u32)
    requires
        a != b,
    ensures
        chunk_nonce(salt, a) != chunk_nonce(salt, b),
{
    lemma_u32_be_round_trip(a, Seq::empty());
    lemma_u32_be_round_trip(b, Seq::empty());
    let na = chunk_nonce(salt, a);
    let nb = chunk_nonce(salt, b);
    if na == nb {
        assert(na.skip(salt.len() as int) =~= u32_be(a));
        assert(nb.skip(salt.len() as int) =~= u32_be(b));
    }
}

/// The associated data of a chunk tells its place, and whether it is the
/// last: two chunks agree on it only if they agree on both.
pub proof fn lemma_chunk_aad_differ(a: u32, a_final: bool, b: u32, b_final: bool, tag: Seq<u8>)
    requires
        a != b || a_final != b_final,
    ensures
        chunk_aad(a, a_final, tag) != chunk_aad(b, b_final, tag),
{
    lemma_u32_be_round_trip(a, Seq::empty());
    lemma_u32_be_round_trip(b, Seq::empty());
    let x = chunk_aad(a, a_final, tag);
    let y = chunk_aad(b, b_final, tag);
    if x == y {
        assert(x.take(4) =~= u32_be(a));
        assert(y.take(4) =~= u32_be(b));
        assert(x[4] == bool_bytes(a_final)[0]);
        assert(y[4] == bool_bytes(b_final)[0]);
    }
}

/// What the chunks of one stream are sealed with.
pub struct ChunkKeys {
    pub file_key: Seq<u8>,
    pub salt: Seq<u8>,
    pub tag: Seq<u8>,
}

/// The sealed form of the chunk at `index`.
pub open spec fn sealed_chunk(k: ChunkKeys, index: u32, is_final: bool, chunk: Seq<u8>) -> Seq<u8> {
    aead_sealed(k.file_key, chunk_nonce(k.salt, index), chunk_aad(index, is_final, k.tag), chunk)
}

/// What opening `sealed` as the chunk at `index` gives.
pub open spec fn opened_chunk(k: ChunkKeys, index: u32, is_final: bool, sealed: Seq<u8>) -> Option<Seq<u8>> {
    aead_opened(k.file_key, chunk_nonce(k.salt, index), chunk_aad(index, is_final, k.tag), sealed)
}

/// That `sealed` is the sealed form of `chunk` at `index` and opens to it
/// again there.
pub open spec fn chunk_seals(k: ChunkKeys, index: u32, is_final: bool, chunk: Seq<u8>, sealed: Seq<u8>) -> bool {
    seals(k.file_key, chunk_nonce(k.salt, index), chunk_aad(index, is_final, k.tag), chunk, sealed)
}

/// A sealed chunk on the wire: its length as a big-endian `u32`, then its
/// bytes.
pub open spec fn frame(sealed: Seq<u8>) -> Seq<u8> {
    u32_be(sealed.len() as u32) + sealed
}

/// What ends a stream: the terminator mark and the final flag.
pub open spec fn terminator() -> Seq<u8> {
    seq![0xffu8, 0xff, 0xff, 0xff, 0x01]
}

/// The frames of `data` cut into chunks of `size` bytes, sealed from
/// `index` on, and the terminator. The last chunk holds what is left,
/// which is nothing where `data` is empty; it alone is marked final.
pub open spec fn sealed_stream(k: ChunkKeys, data: Seq<u8>, size: nat, index: nat) -> Seq<u8>
    decreases data.len(),
{
    if size == 0 || data.len() <= size {
        frame(sealed_chunk(k, index as u32, true, data)) + terminator()
    } else {
        frame(sealed_chunk(k, index as u32, false, data.take(size as int))) + sealed_stream(
            k,
            data.skip(size as int),
            size,
            index + 1,
        )
    }
}

/// Whether the chunks of `len` bytes, counted from `index` on, all have
/// an index that fits 32 bits.
pub open spec fn stream_fits(len: nat, size: nat, index: nat) -> bool
    decreases len,
{
    &&& index <= u32::MAX
    &&& (size == 0 || len <= size || stream_fits((len - size) as nat, size, index + 1))
}

/// That every chunk of the stream came out of the cipher for exactly its
/// place: each sealed chunk opens again, at its index and with its final
/// flag, to the chunk it was sealed from.
pub open spec fn stream_seals(k: ChunkKeys, data: Seq<u8>, size: nat, index: nat) -> bool
    decreases data.len(),
{
    if size == 0 || data.len() <= size {
        chunk_seals(k, index as u32, true, data, sealed_chunk(k, index as u32, true, data))
    } else {
        &&& chunk_seals(
            k,
            index as u32,
            false,
            data.take(size as int),
            sealed_chunk(k, index as u32, false, data.take(size as int)),
        )
        &&& stream_seals(k, data.skip(size as int), size, index + 1)
    }
}

/// After the last chunk: the final flag must follow the terminator mark,
/// and nothing may follow the flag.
pub open spec fn closed(after_mark: Seq<u8>, plain: Seq<u8>) -> Result<Seq<u8>, VaultError> {
    match read_fixed(after_mark, 1) {
        None => Err(VaultError::ChunkAuthFailure),
        Some((flag, rest)) => if flag[0] != 1 {
            Err(VaultError::ChunkAuthFailure)
        } else if rest.len() > 0 {
            Err(VaultError::TrailingData)
        } else {
            Ok(plain)
        },
    }
}

/// `plain` put in front of what the rest of a stream opens to.
pub open spec fn prepended(plain: Seq<u8>, rest: Result<Seq<u8>, VaultError>) -> Result<Seq<u8>, VaultError> {
    match rest {
        Ok(r) => Ok(plain + r),
        Err(e) => Err(e),
    }
}

/// What reading one chunk off the front of a stream gives.
pub enum ChunkStep {
    /// The chunk is the last: these are its bytes, and the stream closed
    /// properly after it.
    Last(Seq<u8>),
    /// Another chunk follows: these are the chunk's bytes, and this is
    /// the rest of the stream.
    More(Seq<u8>, Seq<u8>),
    /// The stream fails here.
    Failed(VaultError),
}

/// Reads the chunk at `index` off the front of `b`. A chunk is the last
/// exactly when the terminator mark follows it. A stream that ends
/// early, a chunk that does not authenticate at its place, and a
/// terminator in the place of a chunk are all chunk failures.
pub open spec fn next_chunk(k: ChunkKeys, b: Seq<u8>, index: u32) -> ChunkStep {
    match read_u32_be(b) {
        None => ChunkStep::Failed(VaultError::ChunkAuthFailure),
        Some((len, r1)) => if len == TERMINATOR_MARK {
            ChunkStep::Failed(VaultError::ChunkAuthFailure)
        } else {
            match read_fixed(r1, len as nat) {
                None => ChunkStep::Failed(VaultError::ChunkAuthFailure),
                Some((sealed, r2)) => match read_u32_be(r2) {
                    None => ChunkStep::Failed(VaultError::ChunkAuthFailure),
                    Some((next, r3)) => if next == TERMINATOR_MARK {
                        match opened_chunk(k, index, true, sealed) {
                            None => ChunkStep::Failed(VaultError::ChunkAuthFailure),
                            Some(plain) => match closed(r3, plain) {
                                Ok(p) => ChunkStep::Last(p),
                                Err(e) => ChunkStep::Failed(e),
                            },
                        }
                    } else {
                        match opened_chunk(k, index, false, sealed) {
                            None => ChunkStep::Failed(VaultError::ChunkAuthFailure),
                            Some(plain) => ChunkStep::More(plain, r2),
                        }
                    },
                },
            }
        },
    }
}

/// What opening the chunks in `b` gives, from the chunk at `index` on:
/// the bytes of all chunks in order, or the first failure met. More
/// chunks than 32 bits can count are a chunk failure.
#[verifier::opaque]
pub open spec fn opened_stream(k: ChunkKeys, b: Seq<u8>, index: nat) -> Result<Seq<u8>, VaultError>
    decreases b.len(),
{
    if index > u32::MAX {
        Err(VaultError::ChunkAuthFailure)
    } else {
        match next_chunk(k, b, index as u32) {
            ChunkStep::Failed(e) => Err(e),
            ChunkStep::Last(plain) => Ok(plain),
            ChunkStep::More(plain, rest) => if rest.len() < b.len() {
                prepended(plain, opened_stream(k, rest, index + 1))
            } else {
                Err(VaultError::ChunkAuthFailure)
            },
        }
    }
}

/// What is left after a chunk is shorter than what was there.
pub proof fn lemma_next_chunk_consumes(k: ChunkKeys, b: Seq<u8>, index: u32)
    ensures
        next_chunk(k, b, index) matches ChunkStep::More(_, rest) ==> rest.len() + 4 <= b.len(),
{
}

/// Opening a stream is reading its chunks one after the other.
pub proof fn lemma_opened_stream_step(k: ChunkKeys, b: Seq<u8>, index: nat)
    ensures
        opened_stream(k, b, index) == (if index > u32::MAX {
            Err::<Seq<u8>, VaultError>(VaultError::ChunkAuthFailure)
        } else {
            match next_chunk(k, b, index as u32) {
                ChunkStep::Failed(e) => Err(e),
                ChunkStep::Last(plain) => Ok(plain),
                ChunkStep::More(plain, rest) => prepended(plain, opened_stream(k, rest, index + 1)),
            }
        }),
{
    reveal_with_fuel(opened_stream, 1);
    if index <= u32::MAX {
        lemma_next_chunk_consumes(k, b, index as u32);
    }
}

/// Reading the frame of a sealed chunk gives the chunk and leaves what
/// follows.
proof fn lemma_read_frame(sealed: Seq<u8>, rest: Seq<u8>)
    requires
        sealed.len() < TERMINATOR_MARK,
    ensures
        read_u32_be(frame(sealed) + rest) == Some((sealed.len() as u32, sealed + rest)),
        read_fixed(sealed + rest, sealed.len()) == Some((sealed, rest)),
{
    let n = sealed.len() as u32;
    lemma_u32_be_round_trip(n, Seq::empty());
    assert(frame(sealed) + rest =~= u32_be(n) + (sealed + rest));
    lemma_read_fixed(u32_be(n), sealed + rest);
    lemma_read_fixed(sealed, rest);
}

/// The terminator reads as the terminator mark, then the final flag, then
/// nothing.
proof fn lemma_read_terminator()
    ensures
        read_u32_be(terminator()) == Some((TERMINATOR_MARK, seq![1u8])),
        closed(seq![1u8], Seq::empty()) == Ok::<Seq<u8>, VaultError>(Seq::empty()),
{
    let mark = seq![0xffu8, 0xff, 0xff, 0xff];
    assert(terminator() =~= mark + seq![1u8]);
    lemma_read_fixed(mark, seq![1u8]);
    assert(u32_from_be(mark) == TERMINATOR_MARK);
    lemma_read_fixed(seq![1u8], Seq::empty());
    assert(seq![1u8] + Seq::<u8>::empty() =~= seq![1u8]);
}

/// A sealed stream starts with the frame of a chunk, never with the
/// terminator.
proof fn lemma_stream_starts_with_frame(k: ChunkKeys, data: Seq<u8>, size: nat, index: nat)
    requires
        0 < size <= MAX_CHUNK_SIZE,
        stream_seals(k, data, size, index),
    ensures
        read_u32_be(sealed_stream(k, data, size, index)) matches Some((len, _)) && len != TERMINATOR_MARK,
{
    if data.len() <= size {
        let sealed = sealed_chunk(k, index as u32, true, data);
        lemma_read_frame(sealed, terminator());
    } else {
        let sealed = sealed_chunk(k, index as u32, false, data.take(size as int));
        lemma_read_frame(sealed, sealed_stream(k, data.skip(size as int), size, index + 1));
    }
}

/// Opening a stream that holds one last chunk and the terminator gives
/// what the chunk opens to.
pub proof fn lemma_open_last_chunk(k: ChunkKeys, sealed: Seq<u8>, index: nat)
    requires
        sealed.len() < TERMINATOR_MARK,
        index <= u32::MAX,
    ensures
        opened_stream(k, frame(sealed) + terminator(), index) == (match opened_chunk(
            k,
            index as u32,
            true,
            sealed,
        ) {
            Some(plain) => Ok::<Seq<u8>, VaultError>(plain),
            None => Err(VaultError::ChunkAuthFailure),
        }),
{
    lemma_opened_stream_step(k, frame(sealed) + terminator(), index);
    lemma_read_frame(sealed, terminator());
    lemma_read_terminator();
    lemma_read_fixed(seq![1u8], Seq::empty());
    assert(seq![1u8] + Seq::<u8>::empty() =~= seq![1u8]);
}

/// Opening a stream that starts with a chunk that another chunk follows
/// gives what the chunk opens to, then what the rest opens to.
pub proof fn lemma_open_inner_chunk(k: ChunkKeys, sealed: Seq<u8>, rest: Seq<u8>, index: nat)
    requires
        sealed.len() < TERMINATOR_MARK,
        index <= u32::MAX,
        read_u32_be(rest) matches Some((next, _)) && next != TERMINATOR_MARK,
    ensures
        opened_stream(k, frame(sealed) + rest, index) == (match opened_chunk(
            k,
            index as u32,
            false,
            sealed,
        ) {
            Some(plain) => prepended(plain, opened_stream(k, rest, index + 1)),
            None => Err(VaultError::ChunkAuthFailure),
        }),
{
    lemma_opened_stream_step(k, frame(sealed) + rest, index);
    lemma_read_frame(sealed, rest);
}

/// Opening undoes sealing, chunk by chunk: a stream whose chunks were
/// sealed at their places opens to the bytes it was cut from.
pub proof fn lemma_stream_round_trip(k: ChunkKeys, data: Seq<u8>, size: nat, index: nat)
    requires
        0 < size <= MAX_CHUNK_SIZE,
        stream_fits(data.len(), size, index),
        stream_seals(k, data, size, index),
    ensures
        opened_stream(k, sealed_stream(k, data, size, index), index) == Ok::<Seq<u8>, VaultError>(data),
    decreases data.len(),
{
    if data.len() <= size {
        let sealed = sealed_chunk(k, index as u32, true, data);
        lemma_open_last_chunk(k, sealed, index);
    } else {
        let head = data.take(size as int);
        let tail = data.skip(size as int);
        let sealed = sealed_chunk(k, index as u32, false, head);
        let rest = sealed_stream(k, tail, size, index + 1);
        lemma_stream_starts_with_frame(k, tail, size, index + 1);
        lemma_open_inner_chunk(k, sealed, rest, index);
        lemma_stream_round_trip(k, tail, size, index + 1);
        assert(head + tail =~= data);
    }
}

/// Builds the nonce of the chunk at `index`.
pub fn build_chunk_nonce(salt: &[u8; 8], index: u32) -> (nonce: [u8; 12])
    ensures
        nonce@ == chunk_nonce(salt@, index),
{
    let mut bytes: Vec<u8> = Vec::new();
    put_bytes(&mut bytes, salt.as_slice());
    put_u32_be(&mut bytes, index);
    proof {
        lemma_u32_be_round_trip(index, Seq::empty());
    }
    let nonce = get_array::<12>(bytes.as_slice(), 0);
    assert(nonce@ =~= chunk_nonce(salt@, index));
    nonce
}

/// Builds the associated data of the chunk at `index`.
pub fn build_chunk_aad(index: u32, is_final: bool, tag: &[u8]) -> (aad: Vec<u8>)
    ensures
        aad@ == chunk_aad(index, is_final, tag@),
{
    let mut aad: Vec<u8> = Vec::new();
    put_u32_be(&mut aad, index);
    aad.push(if is_final { 1u8 } else { 0u8 });
    put_bytes(&mut aad, tag);
    assert(aad@ =~= chunk_aad(index, is_final, tag@));
    aad
}

/// Takes the file's tag from the sealed validation tag.
pub fn take_file_tag(encrypted_validation_tag: &[u8]) -> (tag: Vec<u8>)
    ensures
        tag@ == file_tag(encrypted_validation_tag@),
{
    if encrypted_validation_tag.len() >= 16 {
        let tag = crate::codec::get_bytes(encrypted_validation_tag, 0, 16);
        assert(tag@ =~= encrypted_validation_tag@.take(16));
        tag
    } else {
        let tag = crate::codec::get_bytes(encrypted_validation_tag, 0, encrypted_validation_tag.len());
        assert(tag@ =~= encrypted_validation_tag@);
        tag
    }
}

/// The keys of a stream as the contracts speak of them.
pub open spec fn keys_of(file_key: Seq<u8>, salt: Seq<u8>, tag: Seq<u8>) -> ChunkKeys {
    ChunkKeys { file_key, salt, tag }
}

/// Whether a chunk of `len` bytes can be sealed and framed, with a file
/// tag of `tag_len` bytes.
pub open spec fn frameable(len: int, tag_len: int) -> bool {
    len <= MAX_CHUNK_SIZE && 5 + tag_len <= crate::primitives::aead::max_input_len()
}

/// Seals one chunk at its place and frames it. A chunk longer than the
/// largest chunk size is refused.
pub fn seal_frame(
    file_key: &[u8; 32],
    salt: &[u8; 8],
    tag: &[u8],
    index: u32,
    is_final: bool,
    chunk: &[u8],
) -> (out: Result<Vec<u8>, VaultError>)
    ensures
        out is Ok <==> frameable(chunk@.len() as int, tag@.len() as int),
        out matches Ok(bytes) ==> {
            &&& bytes@ == frame(sealed_chunk(keys_of(file_key@, salt@, tag@), index, is_final, chunk@))
            &&& chunk_seals(
                keys_of(file_key@, salt@, tag@),
                index,
                is_final,
                chunk@,
                sealed_chunk(keys_of(file_key@, salt@, tag@), index, is_final, chunk@),
            )
            &&& sealed_chunk(keys_of(file_key@, salt@, tag@), index, is_final, chunk@).len() == chunk@.len()
                + TAG_LEN
        },
        out matches Err(e) ==> e == VaultError::SizeLimitExceeded,
{
    if chunk.len() > MAX_CHUNK_SIZE as usize {
        return Err(VaultError::SizeLimitExceeded);
    }
    let nonce = build_chunk_nonce(salt, index);
    let aad = build_chunk_aad(index, is_final, tag);
    proof {
        lemma_u32_be_round_trip(index, Seq::empty());
    }
    let sealed = match seal(file_key, &nonce, aad.as_slice(), chunk) {
        Ok(s) => s,
        Err(e) => { return Err(e); },
    };
    let mut out: Vec<u8> = Vec::new();
    put_u32_be(&mut out, sealed.len() as u32);
    put_bytes(&mut out, sealed.as_slice());
    assert(out@ =~= frame(sealed@));
    Ok(out)
}

/// Appends the terminator.
pub fn put_terminator(out: &mut Vec<u8>)
    ensures
        final(out)@ == old(out)@ + terminator(),
{
    out.push(0xff);
    out.push(0xff);
    out.push(0xff);
    out.push(0xff);
    out.push(0x01);
    assert(out@ =~= old(out)@ + terminator());
}

/// Cuts `data` into chunks of `chunk_size` bytes, seals each at its place
/// and writes the frames and the terminator. Fails exactly where there
/// are more chunks than 32 bits can count.
fn seal_stream_body(
    file_key: &[u8; 32],
    salt: &[u8; 8],
    tag: &[u8],
    data: &[u8],
    chunk_size: u32,
) -> (out: Result<Vec<u8>, VaultError>)
    requires
        valid_chunk_size(chunk_size),
        tag@.len() <= 16,
    ensures
        out is Ok <==> stream_fits(data@.len(), chunk_size as nat, 0),
        out matches Ok(body) ==> {
            &&& body@ == sealed_stream(keys_of(file_key@, salt@, tag@), data@, chunk_size as nat, 0)
            &&& stream_seals(keys_of(file_key@, salt@, tag@), data@, chunk_size as nat, 0)
        },
        out matches Err(e) ==> e == VaultError::SizeLimitExceeded,
{
    let ghost k = keys_of(file_key@, salt@, tag@);
    let ghost size = chunk_size as nat;
    let total = data.len();
    let step = chunk_size as usize;
    let mut body: Vec<u8> = Vec::new();
    let mut pos: usize = 0;
    let mut index: u32 = 0;
    proof {
        assert(data@.skip(0) =~= data@);
        assert(body@ + sealed_stream(k, data@, size, 0) =~= sealed_stream(k, data@, size, 0));
    }
    loop
        invariant
            pos <= total,
            total == data@.len(),
            step == chunk_size,
            size == chunk_size as nat,
            valid_chunk_size(chunk_size),
            tag@.len() <= 16,
            k == keys_of(file_key@, salt@, tag@),
            sealed_stream(k, data@, size, 0) == body@ + sealed_stream(
                k,
                data@.skip(pos as int),
                size,
                index as nat,
            ),
            stream_seals(k, data@.skip(pos as int), size, index as nat) ==> stream_seals(k, data@, size, 0),
            stream_fits(data@.len(), size, 0) == stream_fits((total - pos) as nat, size, index as nat),
        decreases total - pos,
    {
        let ghost rest = data@.skip(pos as int);
        let left = total - pos;
        if left <= step {
            let chunk = vstd::slice::slice_subrange(data, pos, total);
            assert(chunk@ =~= rest);
            let frame_bytes = match seal_next(file_key, salt, tag, index, chunk, false) {
                Ok((f, _)) => f,
                Err(_) => Vec::new(),
            };
            put_bytes(&mut body, frame_bytes.as_slice());
            put_terminator(&mut body);
            proof {
                assert(body@ =~= sealed_stream(k, data@, size, 0));
            }
            return Ok(body);
        }
        if index == u32::MAX {
            proof {
                reveal_with_fuel(stream_fits, 2);
            }
            return Err(VaultError::SizeLimitExceeded);
        }
        let chunk = vstd::slice::slice_subrange(data, pos, pos + step);
        proof {
            assert(chunk@ =~= rest.take(size as int));
            assert(rest.skip(size as int) =~= data@.skip(pos + step));
        }
        let ghost before = body@;
        let frame_bytes = match seal_next(file_key, salt, tag, index, chunk, true) {
            Ok((f, _)) => f,
            Err(_) => Vec::new(),
        };
        put_bytes(&mut body, frame_bytes.as_slice());
        proof {
            let next = sealed_stream(k, data@.skip(pos + step), size, (index + 1) as nat);
            assert(before + (frame_bytes@ + next) =~= body@ + next);
        }
        pos = pos + step;
        index = index + 1;
    }
}

/// The random values that go into one stream.
pub struct StreamMaterial {
    pub file_key: [u8; 32],
    pub stream_salt: [u8; 8],
    pub key_wrapping_nonce: [u8; 12],
    pub validation_nonce: [u8; 12],
}

/// The mathematical value of a [`StreamMaterial`].
pub struct StreamMaterialView {
    pub file_key: Seq<u8>,
    pub stream_salt: Seq<u8>,
    pub key_wrapping_nonce: Seq<u8>,
    pub validation_nonce: Seq<u8>,
}

impl View for StreamMaterial {
    type V = StreamMaterialView;

    open spec fn view(&self) -> StreamMaterialView {
        StreamMaterialView {
            file_key: self.file_key@,
            stream_salt: self.stream_salt@,
            key_wrapping_nonce: self.key_wrapping_nonce@,
            validation_nonce: self.validation_nonce@,
        }
    }
}

/// The keys that the chunks of a stream are sealed with, given its file
/// key and its header.
pub open spec fn stream_keys(file_key: Seq<u8>, h: StreamHeaderView) -> ChunkKeys {
    keys_of(file_key, h.stream_salt, file_tag(h.encrypted_validation_tag))
}

/// A stream on the wire: version, the header's length as a big-endian
/// `u64`, the header, and the body.
pub open spec fn v5_framed(h: StreamHeaderView, body: Seq<u8>) -> Seq<u8> {
    u32_le(STREAM_VERSION) + (u64_be(stream_header_bytes(h).len() as u64) + (stream_header_bytes(h)
        + body))
}

/// Splits a stream into its header and its body. Fewer than four bytes,
/// or a version other than 5, is an unsupported version; a stream that
/// ends before its header does is a chunk failure; a header that does
/// not follow the format, does not fill its frame, or names a chunk size
/// that is not valid, is malformed.
#[verifier::opaque]
pub open spec fn read_v5_frame(bytes: Seq<u8>) -> Result<(StreamHeaderView, Seq<u8>), VaultError> {
    match read_u32_le(bytes) {
        None => Err(VaultError::UnsupportedVersion),
        Some((version, b1)) => if version != STREAM_VERSION {
            Err(VaultError::UnsupportedVersion)
        } else {
            match read_u64_be(b1) {
                None => Err(VaultError::ChunkAuthFailure),
                Some((header_len, b2)) => match read_fixed(b2, header_len as nat) {
                    None => Err(VaultError::ChunkAuthFailure),
                    Some((hb, body)) => match read_stream_header(hb) {
                        None => Err(VaultError::Malformed),
                        Some((h, extra)) => if extra.len() != 0 || !valid_chunk_size(h.chunk_size) {
                            Err(VaultError::Malformed)
                        } else {
                            Ok((h, body))
                        },
                    },
                },
            }
        },
    }
}

/// What the header and body of a stream open to: the payload, or the
/// first failure met.
pub open spec fn v5_opened(
    master_key: Seq<u8>,
    keyfile: Option<Seq<u8>>,
    h: StreamHeaderView,
    body: Seq<u8>,
) -> Result<PayloadView, VaultError> {
    if h.uses_keyfile && keyfile is None {
        Err(VaultError::KeyfileRequired)
    } else {
        match unwrapped_key(
            wrapping_key(master_key, keyfile),
            h.validation_nonce,
            h.encrypted_validation_tag,
            h.key_wrapping_nonce,
            h.encrypted_file_key,
        ) {
            Err(e) => Err(e),
            Ok(fk) => match opened_stream(stream_keys(fk, h), body, 0) {
                Err(e) => Err(e),
                Ok(compressed) => match zstd_expanded(compressed) {
                    None => Err(VaultError::Malformed),
                    Some(data) => if h.original_length matches Some(n) && n != data.len() {
                        Err(VaultError::IntegrityFailure)
                    } else {
                        Ok(PayloadView { filename: h.filename, content: data })
                    },
                },
            },
        }
    }
}

/// What opening a chunked envelope gives.
pub open spec fn v5_decrypted(master_key: Seq<u8>, keyfile: Option<Seq<u8>>, bytes: Seq<u8>) -> Result<
    PayloadView,
    VaultError,
> {
    match read_v5_frame(bytes) {
        Err(e) => Err(e),
        Ok((h, body)) => v5_opened(master_key, keyfile, h, body),
    }
}

/// Splitting a stream that was framed gives its header and body back.
pub proof fn lemma_v5_frame_round_trip(h: StreamHeaderView, body: Seq<u8>)
    requires
        h.wf(),
        valid_chunk_size(h.chunk_size),
        stream_header_bytes(h).len() <= u64::MAX,
    ensures
        read_v5_frame(v5_framed(h, body)) == Ok::<(StreamHeaderView, Seq<u8>), VaultError>((h, body)),
{
    reveal(read_v5_frame);
    let hb = stream_header_bytes(h);
    let n = hb.len() as u64;
    let t2 = hb + body;
    let t1 = u64_be(n) + t2;
    lemma_u32_le_round_trip(STREAM_VERSION, Seq::empty());
    lemma_read_fixed(u32_le(STREAM_VERSION), t1);
    lemma_u64_be_round_trip(n, Seq::empty());
    lemma_read_fixed(u64_be(n), t2);
    lemma_read_fixed(hb, body);
    lemma_stream_header_round_trip(h);
}

/// The header of the stream that sealing gives.
pub open spec fn v5_header(
    master_key: Seq<u8>,
    keyfile: Option<Seq<u8>>,
    filename: Seq<char>,
    data: Seq<u8>,
    chunk_size: u32,
    m: StreamMaterialView,
) -> StreamHeaderView {
    let wk = wrapping_key(master_key, keyfile);
    StreamHeaderView {
        validation_nonce: m.validation_nonce,
        encrypted_validation_tag: aead_sealed(
            wk,
            m.validation_nonce,
            Seq::empty(),
            crate::crypto::validation_magic(),
        ),
        key_wrapping_nonce: m.key_wrapping_nonce,
        encrypted_file_key: aead_sealed(wk, m.key_wrapping_nonce, Seq::empty(), m.file_key),
        uses_keyfile: keyfile is Some,
        stream_salt: m.stream_salt,
        chunk_size,
        original_length: Some(data.len() as u64),
        filename,
    }
}

/// That `bytes` is what sealing `data` as a stream gives: the header and
/// the body are the ones that the inputs determine, and the wrapped key,
/// every chunk and the compressed frame came out of the cipher and the
/// compressor for exactly these inputs.
#[verifier::opaque]
pub open spec fn sealed_as_v5(
    master_key: Seq<u8>,
    keyfile: Option<Seq<u8>>,
    filename: Seq<char>,
    data: Seq<u8>,
    level: i32,
    chunk_size: u32,
    m: StreamMaterialView,
    bytes: Seq<u8>,
) -> bool {
    let h = v5_header(master_key, keyfile, filename, data, chunk_size, m);
    &&& valid_chunk_size(chunk_size)
    &&& h.wf()
    &&& stream_header_bytes(h).len() <= u64::MAX
    &&& data.len() <= u64::MAX
    &&& zstd_compressed(data, level) matches Some(frame)
    &&& compresses(data, level, frame)
    &&& stream_fits(frame.len(), chunk_size as nat, 0)
    &&& key_wrapped(
        master_key,
        keyfile,
        m.file_key,
        h.validation_nonce,
        h.encrypted_validation_tag,
        h.key_wrapping_nonce,
        h.encrypted_file_key,
    )
    &&& stream_seals(stream_keys(m.file_key, h), frame, chunk_size as nat, 0)
    &&& bytes == v5_framed(
        h,
        sealed_stream(stream_keys(m.file_key, h), frame, chunk_size as nat, 0),
    )
}

/// Opening undoes sealing: a stream that sealing gave for a payload, at
/// any valid chunk size and any compression level, opens under the same
/// master key and keyfile to that payload, byte for byte.
pub proof fn lemma_v5_round_trip(
    master_key: Seq<u8>,
    keyfile: Option<Seq<u8>>,
    filename: Seq<char>,
    data: Seq<u8>,
    level: i32,
    chunk_size: u32,
    m: StreamMaterialView,
    bytes: Seq<u8>,
)
    requires
        sealed_as_v5(master_key, keyfile, filename, data, level, chunk_size, m, bytes),
    ensures
        v5_decrypted(master_key, keyfile, bytes) == Ok::<PayloadView, VaultError>(
            PayloadView { filename, content: data },
        ),
{
    reveal(sealed_as_v5);
    let h = v5_header(master_key, keyfile, filename, data, chunk_size, m);
    let frame = zstd_compressed(data, level)->Some_0;
    let k = stream_keys(m.file_key, h);
    let body = sealed_stream(k, frame, chunk_size as nat, 0);
    lemma_v5_frame_round_trip(h, body);
    lemma_wrapped_key_unwraps(
        master_key,
        keyfile,
        m.file_key,
        h.validation_nonce,
        h.encrypted_validation_tag,
        h.key_wrapping_nonce,
        h.encrypted_file_key,
    );
    lemma_stream_round_trip(k, frame, chunk_size as nat, 0);
}

/// A stream that sealing gave does not open without the keyfile it was
/// sealed with.
pub proof fn lemma_v5_keyfile_required(
    master_key: Seq<u8>,
    keyfile: Seq<u8>,
    filename: Seq<char>,
    data: Seq<u8>,
    level: i32,
    chunk_size: u32,
    m: StreamMaterialView,
    bytes: Seq<u8>,
)
    requires
        sealed_as_v5(master_key, Some(keyfile), filename, data, level, chunk_size, m, bytes),
    ensures
        v5_decrypted(master_key, None, bytes) == Err::<PayloadView, VaultError>(VaultError::KeyfileRequired),
{
    reveal(sealed_as_v5);
    let h = v5_header(master_key, Some(keyfile), filename, data, chunk_size, m);
    let frame = zstd_compressed(data, level)->Some_0;
    let body = sealed_stream(stream_keys(m.file_key, h), frame, chunk_size as nat, 0);
    lemma_v5_frame_round_trip(h, body);
}

/// Opens one sealed chunk at its place.
pub fn open_chunk(
    file_key: &[u8; 32],
    salt: &[u8; 8],
    tag: &[u8],
    index: u32,
    is_final: bool,
    sealed: &[u8],
) -> (out: Option<Vec<u8>>)
    ensures
        opened_chunk(keys_of(file_key@, salt@, tag@), index, is_final, sealed@) == (match out {
            Some(p) => Some(p@),
            None => None,
        }),
{
    let nonce = build_chunk_nonce(salt, index);
    let aad = build_chunk_aad(index, is_final, tag);
    open(file_key, &nonce, aad.as_slice(), sealed)
}

/// What reading one chunk at a place in a buffer gave.
enum ChunkRead {
    /// The chunk is the last, and the stream closed properly after it.
    Last(Vec<u8>),
    /// Another chunk follows, at the place given.
    More(Vec<u8>, usize),
    /// The stream fails here.
    Failed(VaultError),
}

/// Reads the chunk at `index` at `pos`.
fn read_next_chunk(
    file_key: &[u8; 32],
    salt: &[u8; 8],
    tag: &[u8],
    bytes: &[u8],
    pos: usize,
    index: u32,
) -> (out: ChunkRead)
    requires
        pos <= bytes@.len(),
    ensures
        match next_chunk(keys_of(file_key@, salt@, tag@), bytes@.skip(pos as int), index) {
            ChunkStep::Last(p) => out matches ChunkRead::Last(q) && q@ == p,
            ChunkStep::More(p, rest) => out matches ChunkRead::More(q, next) && q@ == p && pos < next
                <= bytes@.len() && bytes@.skip(next as int) == rest,
            ChunkStep::Failed(e) => out matches ChunkRead::Failed(f) && f == e,
        },
{
    let total = bytes.len();
    let (len, p1) = match take_u32_be(bytes, pos) {
        Some(r) => r,
        None => { return ChunkRead::Failed(VaultError::ChunkAuthFailure); },
    };
    if len == TERMINATOR_MARK {
        return ChunkRead::Failed(VaultError::ChunkAuthFailure);
    }
    let (sealed, p2) = match take_bytes(bytes, p1, len as usize) {
        Some(r) => r,
        None => { return ChunkRead::Failed(VaultError::ChunkAuthFailure); },
    };
    let (next, p3) = match take_u32_be(bytes, p2) {
        Some(r) => r,
        None => { return ChunkRead::Failed(VaultError::ChunkAuthFailure); },
    };
    let (plain, last) = match open_frame(file_key, salt, tag, index, sealed.as_slice(), next) {
        Ok(r) => r,
        Err(e) => { return ChunkRead::Failed(e); },
    };
    if last {
        let after_mark = vstd::slice::slice_subrange(bytes, p3, total);
        assert(after_mark@ =~= bytes@.skip(p3 as int));
        return match close_stream(after_mark, None, 0) {
            Ok(_) => ChunkRead::Last(plain),
            Err(e) => ChunkRead::Failed(e),
        };
    }
    ChunkRead::More(plain, p2)
}

/// Opens the chunks in `bytes` from `start` on, in order, and gives their
/// bytes one after the other.
fn open_stream_body(file_key: &[u8; 32], salt: &[u8; 8], tag: &[u8], bytes: &[u8], start: usize) -> (out:
    Result<Vec<u8>, VaultError>)
    requires
        start <= bytes@.len(),
    ensures
        opened_stream(keys_of(file_key@, salt@, tag@), bytes@.skip(start as int), 0) == (match out {
            Ok(p) => Ok(p@),
            Err(e) => Err(e),
        }),
{
    let ghost k = keys_of(file_key@, salt@, tag@);
    let ghost whole = opened_stream(k, bytes@.skip(start as int), 0);
    let total = bytes.len();
    let mut pos = start;
    let mut index: u32 = 0;
    let mut acc: Vec<u8> = Vec::new();
    proof {
        let first = opened_stream(k, bytes@.skip(pos as int), index as nat);
        assert(prepended(acc@, first) == first) by {
            if let Ok(r) = first {
                assert(acc@ + r =~= r);
            }
        }
    }
    loop
        invariant
            start <= pos <= total,
            total == bytes@.len(),
            k == keys_of(file_key@, salt@, tag@),
            whole == opened_stream(k, bytes@.skip(start as int), 0),
            whole == prepended(acc@, opened_stream(k, bytes@.skip(pos as int), index as nat)),
        decreases total - pos,
    {
        proof {
            lemma_opened_stream_step(k, bytes@.skip(pos as int), index as nat);
        }
        match read_next_chunk(file_key, salt, tag, bytes, pos, index) {
            ChunkRead::Failed(e) => {
                return Err(e);
            },
            ChunkRead::Last(plain) => {
                put_bytes(&mut acc, plain.as_slice());
                return Ok(acc);
            },
            ChunkRead::More(plain, next) => {
                let ghost before = acc@;
                put_bytes(&mut acc, plain.as_slice());
                proof {
                    let rest = opened_stream(k, bytes@.skip(next as int), (index + 1) as nat);
                    assert(prepended(before, prepended(plain@, rest)) == prepended(acc@, rest)) by {
                        if let Ok(r) = rest {
                            assert(before + (plain@ + r) =~= acc@ + r);
                        }
                    }
                    lemma_opened_stream_step(k, bytes@.skip(next as int), (index + 1) as nat);
                }
                if index == u32::MAX {
                    return Err(VaultError::ChunkAuthFailure);
                }
                index = index + 1;
                pos = next;
            },
        }
    }
}

/// When a payload can be sealed as a stream: the chunk size is valid, the
/// compressor accepts the payload, and the chunks can be counted in 32
/// bits.
pub open spec fn can_seal_stream(data: Seq<u8>, level: i32, chunk_size: u32) -> bool {
    &&& valid_chunk_size(chunk_size)
    &&& zstd_compressed(data, level) matches Some(frame)
    &&& stream_fits(frame.len(), chunk_size as nat, 0)
}

/// Why sealing a payload as a stream fails, where it does.
pub open spec fn seal_stream_failure(data: Seq<u8>, level: i32, chunk_size: u32) -> VaultError {
    if !valid_chunk_size(chunk_size) {
        VaultError::InvalidChunkSize
    } else if zstd_compressed(data, level) is None {
        VaultError::CompressionFailure
    } else {
        VaultError::SizeLimitExceeded
    }
}

/// Seals a payload as a chunked envelope with the given random material.
pub fn seal_stream(
    master_key: &MasterKey,
    keyfile: Option<&[u8]>,
    filename: &str,
    data: &[u8],
    compression_level: i32,
    chunk_size: u32,
    material: &StreamMaterial,
) -> (out: Result<Vec<u8>, VaultError>)
    ensures
        out is Ok <==> can_seal_stream(data@, compression_level, chunk_size),
        out matches Ok(bytes) ==> sealed_as_v5(
            master_key@,
            opt_view(keyfile),
            filename@,
            data@,
            compression_level,
            chunk_size,
            material@,
            bytes@,
        ) && v5_decrypted(master_key@, opt_view(keyfile), bytes@) == Ok::<PayloadView, VaultError>(
            PayloadView { filename: filename@, content: data@ },
        ),
        out matches Err(e) ==> e == seal_stream_failure(data@, compression_level, chunk_size),
{
    let total = data.len();
    let begun = match begin_stream(master_key, keyfile, filename, total as u64, chunk_size, material) {
        Ok(b) => b,
        Err(e) => { return Err(e); },
    };
    let compressed = match compress_data(data, compression_level) {
        Ok(f) => f,
        Err(_) => { return Err(VaultError::CompressionFailure); },
    };
    let body = match seal_stream_body(
        &material.file_key,
        &material.stream_salt,
        begun.tag.as_slice(),
        compressed.as_slice(),
        chunk_size,
    ) {
        Ok(b) => b,
        Err(_) => { return Err(VaultError::SizeLimitExceeded); },
    };
    let mut out: Vec<u8> = begun.start;
    let ghost start = out@;
    put_bytes(&mut out, body.as_slice());
    proof {
        reveal(sealed_as_v5);
        let h = v5_header(master_key@, opt_view(keyfile), filename@, data@, chunk_size, material@);
        assert(h == begun_header(
            master_key@,
            opt_view(keyfile),
            filename@,
            total as u64,
            chunk_size,
            material@,
        ));
        assert(start + body@ =~= v5_framed(h, body@));
        lemma_v5_round_trip(
            master_key@,
            opt_view(keyfile),
            filename@,
            data@,
            compression_level,
            chunk_size,
            material@,
            out@,
        );
    }
    Ok(out)
}

/// The material that a seed gives: the stream salt and the two nonces are
/// the first 32 bytes of the seed's keystream, salt first; the file key
/// never comes from the seed.
pub open spec fn seeded_stream_material(seed: Seq<u8>, file_key: Seq<u8>) -> StreamMaterialView {
    let stream = keystream(seed, 0, 32);
    StreamMaterialView {
        file_key,
        stream_salt: stream.subrange(0, 8),
        key_wrapping_nonce: stream.subrange(8, 20),
        validation_nonce: stream.subrange(20, 32),
    }
}

/// Draws the random material for one stream: the file key always from the
/// operating system, the salt and the nonces from the seed where there is
/// one.
pub fn draw_stream_material(entropy_seed: Option<[u8; 32]>) -> (out: Result<StreamMaterial, VaultError>)
    ensures
        out matches Err(e) ==> e == VaultError::IOFailure,
        out matches Ok(m) ==> (entropy_seed matches Some(seed) ==> m@ == seeded_stream_material(
            seed@,
            m@.file_key,
        )),
{
    let file_key = match os_random::<32>() {
        Some(k) => k,
        None => { return Err(VaultError::IOFailure); },
    };
    match entropy_seed {
        Some(seed) => {
            let stream = seeded_bytes(&seed, 0, 32);
            Ok(
                StreamMaterial {
                    file_key,
                    stream_salt: get_array::<8>(stream.as_slice(), 0),
                    key_wrapping_nonce: get_array::<12>(stream.as_slice(), 8),
                    validation_nonce: get_array::<12>(stream.as_slice(), 20),
                },
            )
        },
        None => {
            let stream_salt = match os_random::<8>() {
                Some(n) => n,
                None => { return Err(VaultError::IOFailure); },
            };
            let key_wrapping_nonce = match os_random::<12>() {
                Some(n) => n,
                None => { return Err(VaultError::IOFailure); },
            };
            let validation_nonce = match os_random::<12>() {
                Some(n) => n,
                None => { return Err(VaultError::IOFailure); },
            };
            Ok(StreamMaterial { file_key, stream_salt, key_wrapping_nonce, validation_nonce })
        },
    }
}

/// That the header of the stream `bytes` holds the salt and the nonces
/// that `seed` gives: of the first 32 bytes of the seed's keystream the
/// first 8 are the stream salt, the next 12 the key-wrapping nonce and
/// the last 12 the validation nonce.
pub open spec fn header_drawn_from(bytes: Seq<u8>, seed: Seq<u8>) -> bool {
    read_v5_frame(bytes) matches Ok((h, _)) && h.stream_salt == keystream(seed, 0, 32).subrange(0, 8)
        && h.key_wrapping_nonce == keystream(seed, 0, 32).subrange(8, 20) && h.validation_nonce
        == keystream(seed, 0, 32).subrange(20, 32)
}

/// A stream that was sealed with the material of a seed carries the
/// seed's salt and nonces in its header, whatever the file key.
pub proof fn lemma_seeded_stream_header(
    master_key: Seq<u8>,
    keyfile: Option<Seq<u8>>,
    filename: Seq<char>,
    data: Seq<u8>,
    level: i32,
    chunk_size: u32,
    seed: Seq<u8>,
    file_key: Seq<u8>,
    bytes: Seq<u8>,
)
    requires
        sealed_as_v5(
            master_key,
            keyfile,
            filename,
            data,
            level,
            chunk_size,
            seeded_stream_material(seed, file_key),
            bytes,
        ),
    ensures
        header_drawn_from(bytes, seed),
{
    reveal(sealed_as_v5);
    let m = seeded_stream_material(seed, file_key);
    let h = v5_header(master_key, keyfile, filename, data, chunk_size, m);
    let frame = zstd_compressed(data, level)->Some_0;
    lemma_v5_frame_round_trip(h, sealed_stream(stream_keys(m.file_key, h), frame, chunk_size as nat, 0));
}

/// Seals a payload as a chunked envelope. The file key comes from the
/// operating system; the salt and the nonces come from `entropy_seed`
/// where one is given, so that the same seed gives the same salt and
/// nonces.
pub fn encrypt_stream(
    master_key: &MasterKey,
    keyfile: Option<&[u8]>,
    filename: &str,
    data: &[u8],
    entropy_seed: Option<[u8; 32]>,
    compression_level: i32,
    chunk_size: u32,
) -> (out: Result<Vec<u8>, VaultError>)
    ensures
        out matches Ok(bytes) ==> {
            &&& can_seal_stream(data@, compression_level, chunk_size)
            &&& exists|m: StreamMaterialView| #[trigger]
                sealed_as_v5(
                    master_key@,
                    opt_view(keyfile),
                    filename@,
                    data@,
                    compression_level,
                    chunk_size,
                    m,
                    bytes@,
                )
            &&& v5_decrypted(master_key@, opt_view(keyfile), bytes@) == Ok::<PayloadView, VaultError>(
                PayloadView { filename: filename@, content: data@ },
            )
            &&& entropy_seed matches Some(seed) ==> header_drawn_from(bytes@, seed@)
        },
        out matches Err(e) ==> {
            ||| e == VaultError::IOFailure
            ||| !can_seal_stream(data@, compression_level, chunk_size) && e == seal_stream_failure(
                data@,
                compression_level,
                chunk_size,
            )
        },
{
    let mut material = match draw_stream_material(entropy_seed) {
        Ok(m) => m,
        Err(e) => { return Err(e); },
    };
    let out = seal_stream(master_key, keyfile, filename, data, compression_level, chunk_size, &material);
    proof {
        if out is Ok && entropy_seed is Some {
            lemma_seeded_stream_header(
                master_key@,
                opt_view(keyfile),
                filename@,
                data@,
                compression_level,
                chunk_size,
                entropy_seed->Some_0@,
                material@.file_key,
                out->Ok_0@,
            );
        }
    }
    wipe(&mut material.file_key);
    out
}

/// Splits the bytes of a stream into its header and the place where its
/// body starts.
pub fn split_stream(bytes: &[u8]) -> (out: Result<(StreamHeader, usize), VaultError>)
    ensures
        match read_v5_frame(bytes@) {
            Ok((h, body)) => out matches Ok((header, start)) && header@ == h && start <= bytes@.len()
                && bytes@.skip(start as int) == body,
            Err(e) => out matches Err(f) && f == e,
        },
{
    proof {
        reveal(read_v5_frame);
        assert(bytes@.skip(0) =~= bytes@);
    }
    let total = bytes.len();
    let (version, p1) = match take_u32_le(bytes, 0) {
        Some(r) => r,
        None => { return Err(VaultError::UnsupportedVersion); },
    };
    if version != STREAM_VERSION {
        return Err(VaultError::UnsupportedVersion);
    }
    let (header_len, p2) = match take_u64_be(bytes, p1) {
        Some(r) => r,
        None => { return Err(VaultError::ChunkAuthFailure); },
    };
    if ((total - p2) as u64) < header_len {
        return Err(VaultError::ChunkAuthFailure);
    }
    let span = header_len as usize;
    let region = vstd::slice::slice_subrange(bytes, p2, p2 + span);
    proof {
        let b2 = bytes@.skip(p2 as int);
        assert(region@ =~= b2.take(span as int));
        assert(b2.skip(span as int) =~= bytes@.skip(p2 + span));
    }
    let (header, taken) = match StreamHeader::from_bytes(region) {
        Some(r) => r,
        None => { return Err(VaultError::Malformed); },
    };
    if taken != span || !check_chunk_size(header.chunk_size) {
        return Err(VaultError::Malformed);
    }
    Ok((header, p2 + span))
}

/// Opens a chunked envelope.
pub fn decrypt_stream(master_key: &MasterKey, keyfile: Option<&[u8]>, bytes: &[u8]) -> (out: Result<
    InnerPayload,
    VaultError,
>)
    ensures
        v5_decrypted(master_key@, opt_view(keyfile), bytes@) == (match out {
            Ok(p) => Ok(p@),
            Err(e) => Err(e),
        }),
{
    let total = bytes.len();
    let start_len: usize = if total >= 12 { 12 } else { total };
    let start = vstd::slice::slice_subrange(bytes, 0, start_len);
    proof {
        lemma_steps_open_the_envelope(master_key@, opt_view(keyfile), bytes@);
        assert(start@ =~= front(bytes@, 12));
    }
    let header_len = match header_length(start) {
        Ok(n) => n,
        Err(e) => { return Err(e); },
    };
    let left = total - 12;
    let span: usize = if left as u64 >= header_len { header_len as usize } else { left };
    let header_bytes = vstd::slice::slice_subrange(bytes, 12, 12 + span);
    proof {
        assert(header_bytes@ =~= front(behind(bytes@, 12), header_len as nat));
    }
    let OpenedHeader { header, mut file_key, tag } = match open_header(
        master_key,
        keyfile,
        header_len,
        header_bytes,
    ) {
        Ok(o) => o,
        Err(e) => { return Err(e); },
    };
    let body_start = 12 + span;
    proof {
        assert(bytes@.skip(body_start as int) =~= behind(behind(bytes@, 12), header_len as nat));
    }
    let opened = open_stream_body(&file_key, &header.stream_salt, tag.as_slice(), bytes, body_start);
    wipe(&mut file_key);
    let compressed = match opened {
        Ok(c) => c,
        Err(e) => { return Err(e); },
    };
    let content = match decompress_data(compressed.as_slice()) {
        Ok(d) => d,
        Err(_) => { return Err(VaultError::Malformed); },
    };
    match header.original_length {
        Some(n) => {
            if n != content.len() as u64 {
                return Err(VaultError::IntegrityFailure);
            }
        },
        None => {},
    }
    Ok(InnerPayload { filename: header.filename, content })
}

} // verus!
