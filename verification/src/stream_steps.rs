//! The chunked envelope taken one step at a time, for a caller that reads
//! and writes a file too large to hold: each function here decides one
//! step from the bytes that were read, and says what to write or what
//! comes next. The laws at the end show that the steps, run over the
//! bytes of a whole stream, give what opening and sealing the stream at
//! once gives.

use vstd::prelude::*;
use crate::codec::{
    put_bytes, put_u32_le, put_u64_be, read_fixed, read_u32_be, read_u32_le, read_u64_be,
    take_array, take_u32_be, take_u32_le, take_u64_be,
};
use crate::container::PayloadView;
use crate::crypto::{key_wrapped, unwrap_file_key, unwrapped_key, wrap_file_key};
use crate::crypto_stream::{
    check_chunk_size, chunk_seals, closed, file_tag, frame, frameable, keys_of, lemma_opened_stream_step,
    open_chunk, opened_chunk, opened_stream, prepended, read_stream_header,
    read_v5_frame, seal_frame, sealed_chunk, sealed_stream, stream_fits, stream_header_bytes,
    stream_keys, take_file_tag, terminator, v5_decrypted, v5_framed, valid_chunk_size, ChunkKeys,
    StreamHeader, StreamHeaderView, StreamMaterial, StreamMaterialView, STREAM_VERSION,
    TERMINATOR_MARK,
};
use crate::error::VaultError;
use crate::keys::{opt_view, wrapping_key, MasterKey};
use crate::primitives::aead::{aead_sealed, TAG_LEN};
use crate::primitives::compress::zstd_expanded;

verus! {

/// What a reader gets that asks for `n` bytes of `b`: the first `n`, or
/// all of `b` where it is shorter.
pub open spec fn front(b: Seq<u8>, n: nat) -> Seq<u8> {
    if b.len() >= n {
        b.take(n as int)
    } else {
        b
    }
}

/// What is left of `b` for the next read after `n` bytes were asked for.
pub open spec fn behind(b: Seq<u8>, n: nat) -> Seq<u8> {
    if b.len() >= n {
        b.skip(n as int)
    } else {
        Seq::empty()
    }
}

/// What the first twelve bytes of a stream say: the length of the header
/// that follows. Fewer than four bytes, or a version other than 5, is an
/// unsupported version; a stream that ends within the length is a chunk
/// failure.
pub open spec fn header_length_of(start: Seq<u8>) -> Result<u64, VaultError> {
    match read_u32_le(start) {
        None => Err(VaultError::UnsupportedVersion),
        Some((version, b1)) => if version != STREAM_VERSION {
            Err(VaultError::UnsupportedVersion)
        } else {
            match read_u64_be(b1) {
                None => Err(VaultError::ChunkAuthFailure),
                Some((n, _)) => Ok(n),
            }
        },
    }
}

/// Reads the version and the header's length from the start of a stream:
/// `start` is what could be read of its first twelve bytes.
pub fn header_length(start: &[u8]) -> (out: Result<u64, VaultError>)
    ensures
        out == header_length_of(start@),
{
    assert(start@.skip(0) =~= start@);
    let (version, p1) = match take_u32_le(start, 0) {
        Some(r) => r,
        None => { return Err(VaultError::UnsupportedVersion); },
    };
    if version != STREAM_VERSION {
        return Err(VaultError::UnsupportedVersion);
    }
    match take_u64_be(start, p1) {
        Some((n, _)) => Ok(n),
        None => Err(VaultError::ChunkAuthFailure),
    }
}

/// What the header of a stream opens to: the header and the file key. A
/// header cut short is a chunk failure; one that does not follow the
/// format, does not fill its frame or names a chunk size that is not
/// valid is malformed; then the keyfile is asked for where the header
/// wants one; then the key is unwrapped.
pub open spec fn header_opened(
    master_key: Seq<u8>,
    keyfile: Option<Seq<u8>>,
    header_len: u64,
    header_bytes: Seq<u8>,
) -> Result<(StreamHeaderView, Seq<u8>), VaultError> {
    if header_bytes.len() != header_len {
        Err(VaultError::ChunkAuthFailure)
    } else {
        match read_stream_header(header_bytes) {
            None => Err(VaultError::Malformed),
            Some((h, extra)) => if extra.len() != 0 || !valid_chunk_size(h.chunk_size) {
                Err(VaultError::Malformed)
            } else if h.uses_keyfile && keyfile is None {
                Err(VaultError::KeyfileRequired)
            } else {
                match unwrapped_key(
                    wrapping_key(master_key, keyfile),
                    h.validation_nonce,
                    h.encrypted_validation_tag,
                    h.key_wrapping_nonce,
                    h.encrypted_file_key,
                ) {
                    Err(e) => Err(e),
                    Ok(fk) => Ok((h, fk)),
                }
            },
        }
    }
}

/// The header of a stream that is being read, with the key and the tag
/// that its chunks open with.
pub struct OpenedHeader {
    pub header: StreamHeader,
    pub file_key: [u8; 32],
    pub tag: Vec<u8>,
}

/// Opens the header of a stream: `header_bytes` is what could be read of
/// the `header_len` bytes after the first twelve.
pub fn open_header(master_key: &MasterKey, keyfile: Option<&[u8]>, header_len: u64, header_bytes: &[u8]) -> (out:
    Result<OpenedHeader, VaultError>)
    ensures
        match header_opened(master_key@, opt_view(keyfile), header_len, header_bytes@) {
            Ok((h, fk)) => out matches Ok(o) && o.header@ == h && o.file_key@ == fk && o.tag@ == file_tag(
                h.encrypted_validation_tag,
            ),
            Err(e) => out matches Err(f) && f == e,
        },
{
    let got = header_bytes.len();
    if got as u64 != header_len {
        return Err(VaultError::ChunkAuthFailure);
    }
    let (header, taken) = match StreamHeader::from_bytes(header_bytes) {
        Some(r) => r,
        None => { return Err(VaultError::Malformed); },
    };
    if taken != got || !check_chunk_size(header.chunk_size) {
        return Err(VaultError::Malformed);
    }
    if header.uses_keyfile && keyfile.is_none() {
        return Err(VaultError::KeyfileRequired);
    }
    let file_key = match unwrap_file_key(
        master_key,
        keyfile,
        &header.validation_nonce,
        header.encrypted_validation_tag.as_slice(),
        &header.key_wrapping_nonce,
        header.encrypted_file_key.as_slice(),
    ) {
        Ok(k) => k,
        Err(e) => { return Err(e); },
    };
    let tag = take_file_tag(header.encrypted_validation_tag.as_slice());
    Ok(OpenedHeader { header, file_key, tag })
}

/// What the four bytes in front of a chunk say: its length. Fewer than
/// four bytes, or the terminator mark in the place of a chunk, is a chunk
/// failure.
pub open spec fn chunk_length_of(prefix: Seq<u8>) -> Result<u32, VaultError> {
    match read_u32_be(prefix) {
        None => Err(VaultError::ChunkAuthFailure),
        Some((len, _)) => if len == TERMINATOR_MARK {
            Err(VaultError::ChunkAuthFailure)
        } else {
            Ok(len)
        },
    }
}

/// Reads the length of the next chunk: `prefix` is what could be read of
/// the four bytes in front of it.
pub fn chunk_length(prefix: &[u8]) -> (out: Result<u32, VaultError>)
    ensures
        out == chunk_length_of(prefix@),
{
    assert(prefix@.skip(0) =~= prefix@);
    match take_u32_be(prefix, 0) {
        Some((len, _)) => if len == TERMINATOR_MARK {
            Err(VaultError::ChunkAuthFailure)
        } else {
            Ok(len)
        },
        None => Err(VaultError::ChunkAuthFailure),
    }
}

/// What a sealed chunk opens to at `index`, given the four bytes that
/// follow it as a number: the chunk is the last exactly where they are
/// the terminator mark, and it must open as such.
pub open spec fn frame_opened(k: ChunkKeys, index: u32, sealed: Seq<u8>, next_prefix: u32) -> Result<
    (Seq<u8>, bool),
    VaultError,
> {
    match opened_chunk(k, index, next_prefix == TERMINATOR_MARK, sealed) {
        Some(p) => Ok((p, next_prefix == TERMINATOR_MARK)),
        None => Err(VaultError::ChunkAuthFailure),
    }
}

/// Opens the sealed chunk at `index`. Gives its bytes and whether it is
/// the last.
pub fn open_frame(
    file_key: &[u8; 32],
    salt: &[u8; 8],
    tag: &[u8],
    index: u32,
    sealed: &[u8],
    next_prefix: u32,
) -> (out: Result<(Vec<u8>, bool), VaultError>)
    ensures
        match frame_opened(keys_of(file_key@, salt@, tag@), index, sealed@, next_prefix) {
            Ok((p, is_last)) => out matches Ok((plain, last)) && plain@ == p && last == is_last,
            Err(e) => out matches Err(f) && f == e,
        },
{
    let last = next_prefix == TERMINATOR_MARK;
    match open_chunk(file_key, salt, tag, index, last, sealed) {
        Some(plain) => Ok((plain, last)),
        None => Err(VaultError::ChunkAuthFailure),
    }
}

/// One step of reading: what the chunk at `index` gives, where `sealed`
/// is what could be read of its `len` bytes and `next` what could be read
/// of the four bytes after it. A chunk cut short is a chunk failure, and
/// so is a chunk that would need an index beyond 32 bits after it. With
/// the chunk's bytes comes the index of the next chunk, or nothing after
/// the last.
pub open spec fn frame_read(k: ChunkKeys, index: u32, len: u32, sealed: Seq<u8>, next: Seq<u8>) -> Result<
    (Seq<u8>, Option<u32>),
    VaultError,
> {
    if sealed.len() != len {
        Err(VaultError::ChunkAuthFailure)
    } else {
        match read_u32_be(next) {
            None => Err(VaultError::ChunkAuthFailure),
            Some((mark, _)) => match frame_opened(k, index, sealed, mark) {
                Err(e) => Err(e),
                Ok((plain, last)) => if last {
                    Ok((plain, None))
                } else if index == u32::MAX {
                    Err(VaultError::ChunkAuthFailure)
                } else {
                    Ok((plain, Some((index + 1) as u32)))
                },
            },
        }
    }
}

/// Takes one step of reading a stream.
pub fn read_frame(
    file_key: &[u8; 32],
    salt: &[u8; 8],
    tag: &[u8],
    index: u32,
    len: u32,
    sealed: &[u8],
    next: &[u8],
) -> (out: Result<(Vec<u8>, Option<u32>), VaultError>)
    ensures
        match frame_read(keys_of(file_key@, salt@, tag@), index, len, sealed@, next@) {
            Ok((p, following)) => out matches Ok((plain, i)) && plain@ == p && i == following,
            Err(e) => out matches Err(f) && f == e,
        },
{
    let got = sealed.len();
    if got as u64 != len as u64 {
        return Err(VaultError::ChunkAuthFailure);
    }
    assert(next@.skip(0) =~= next@);
    let mark = match take_u32_be(next, 0) {
        Some((m, _)) => m,
        None => { return Err(VaultError::ChunkAuthFailure); },
    };
    let (plain, last) = match open_frame(file_key, salt, tag, index, sealed, mark) {
        Ok(r) => r,
        Err(e) => { return Err(e); },
    };
    if last {
        Ok((plain, None))
    } else if index == u32::MAX {
        Err(VaultError::ChunkAuthFailure)
    } else {
        Ok((plain, Some(index + 1)))
    }
}

/// Whether a stream ends as it must: the final flag follows the
/// terminator mark, nothing follows the flag, and where the header holds
/// the payload's length, that many bytes were written.
pub open spec fn stream_closed(after_mark: Seq<u8>, original_length: Option<u64>, written: u64) -> Result<
    (),
    VaultError,
> {
    match closed(after_mark, Seq::empty()) {
        Err(e) => Err(e),
        Ok(_) => if original_length matches Some(n) && n != written {
            Err(VaultError::IntegrityFailure)
        } else {
            Ok(())
        },
    }
}

/// Checks the end of a stream: `after_mark` is what could be read after
/// the terminator mark (two bytes are enough to tell), and `written` is
/// the number of bytes of payload that were restored.
pub fn close_stream(after_mark: &[u8], original_length: Option<u64>, written: u64) -> (out: Result<
    (),
    VaultError,
>)
    ensures
        out == stream_closed(after_mark@, original_length, written),
{
    assert(after_mark@.skip(0) =~= after_mark@);
    let (flag, p1) = match take_array::<1>(after_mark, 0) {
        Some(r) => r,
        None => { return Err(VaultError::ChunkAuthFailure); },
    };
    if flag[0] != 1 {
        return Err(VaultError::ChunkAuthFailure);
    }
    if p1 < after_mark.len() {
        return Err(VaultError::TrailingData);
    }
    match original_length {
        Some(n) => if n != written {
            Err(VaultError::IntegrityFailure)
        } else {
            Ok(())
        },
        None => Ok(()),
    }
}

/// The header of the stream that is begun for a payload of
/// `original_length` bytes.
pub open spec fn begun_header(
    master_key: Seq<u8>,
    keyfile: Option<Seq<u8>>,
    filename: Seq<char>,
    original_length: u64,
    chunk_size: u32,
    m: StreamMaterialView,
) -> StreamHeaderView {
    let wk = wrapping_key(master_key, keyfile);
    StreamHeaderView {
        validation_nonce: m.validation_nonce,
        encrypted_validation_tag: aead_sealed(
            wk,
            m.validation_nonce,
            Seq::empty(),
            crate::crypto::validation_magic(),
        ),
        key_wrapping_nonce: m.key_wrapping_nonce,
        encrypted_file_key: aead_sealed(wk, m.key_wrapping_nonce, Seq::empty(), m.file_key),
        uses_keyfile: keyfile is Some,
        stream_salt: m.stream_salt,
        chunk_size,
        original_length: Some(original_length),
        filename,
    }
}

/// What a stream starts with, and the tag that its chunks are bound to.
pub struct BegunStream {
    /// The version, the header's length and the header, as they go on
    /// the wire.
    pub start: Vec<u8>,
    pub tag: Vec<u8>,
}

/// Begins a stream: wraps the file key, builds the header and gives the
/// bytes that the stream starts with. Refused exactly where the chunk
/// size is not valid.
pub fn begin_stream(
    master_key: &MasterKey,
    keyfile: Option<&[u8]>,
    filename: &str,
    original_length: u64,
    chunk_size: u32,
    material: &StreamMaterial,
) -> (out: Result<BegunStream, VaultError>)
    ensures
        out is Ok <==> valid_chunk_size(chunk_size),
        out matches Ok(begun) ==> ({
            let h = begun_header(
                master_key@,
                opt_view(keyfile),
                filename@,
                original_length,
                chunk_size,
                material@,
            );
            &&& h.wf()
            &&& stream_header_bytes(h).len() <= u64::MAX
            &&& begun.start@ == v5_framed(h, Seq::empty())
            &&& begun.tag@ == file_tag(h.encrypted_validation_tag)
            &&& begun.tag@.len() <= 16
            &&& key_wrapped(
                master_key@,
                opt_view(keyfile),
                material@.file_key,
                h.validation_nonce,
                h.encrypted_validation_tag,
                h.key_wrapping_nonce,
                h.encrypted_file_key,
            )
        }),
        out matches Err(e) ==> e == VaultError::InvalidChunkSize,
{
    if !check_chunk_size(chunk_size) {
        return Err(VaultError::InvalidChunkSize);
    }
    let (encrypted_validation_tag, encrypted_file_key) = wrap_file_key(
        master_key,
        keyfile,
        &material.file_key,
        &material.validation_nonce,
        &material.key_wrapping_nonce,
    );
    let tag = take_file_tag(encrypted_validation_tag.as_slice());
    let header = StreamHeader {
        validation_nonce: material.validation_nonce,
        encrypted_validation_tag,
        key_wrapping_nonce: material.key_wrapping_nonce,
        encrypted_file_key,
        uses_keyfile: keyfile.is_some(),
        stream_salt: material.stream_salt,
        chunk_size,
        original_length: Some(original_length),
        filename: filename.to_owned(),
    };
    let header_bytes = header.to_bytes();
    let mut start: Vec<u8> = Vec::new();
    put_u32_le(&mut start, STREAM_VERSION);
    put_u64_be(&mut start, header_bytes.len() as u64);
    put_bytes(&mut start, header_bytes.as_slice());
    proof {
        let h = begun_header(
            master_key@,
            opt_view(keyfile),
            filename@,
            original_length,
            chunk_size,
            material@,
        );
        assert(header@ == h);
        assert(start@ =~= v5_framed(h, Seq::empty()));
    }
    Ok(BegunStream { start, tag })
}

/// One step of writing: the frame of `chunk` sealed at `index`, marked
/// final exactly where nothing follows it, and the index of the chunk
/// that follows. A chunk longer than the largest chunk size is refused,
/// and so is one that would need an index beyond 32 bits after it.
pub open spec fn next_sealed(k: ChunkKeys, index: u32, chunk: Seq<u8>, more_follows: bool) -> Result<
    (Seq<u8>, Option<u32>),
    VaultError,
> {
    if !frameable(chunk.len() as int, k.tag.len() as int) || (more_follows && index == u32::MAX) {
        Err(VaultError::SizeLimitExceeded)
    } else {
        Ok(
            (
                frame(sealed_chunk(k, index, !more_follows, chunk)),
                if more_follows {
                    Some((index + 1) as u32)
                } else {
                    None
                },
            ),
        )
    }
}

/// Takes one step of writing a stream. The frame that comes back opens
/// again at its place.
pub fn seal_next(
    file_key: &[u8; 32],
    salt: &[u8; 8],
    tag: &[u8],
    index: u32,
    chunk: &[u8],
    more_follows: bool,
) -> (out: Result<(Vec<u8>, Option<u32>), VaultError>)
    ensures
        match next_sealed(keys_of(file_key@, salt@, tag@), index, chunk@, more_follows) {
            Ok((f, following)) => out matches Ok((bytes, i)) && bytes@ == f && i == following,
            Err(e) => out matches Err(f) && f == e,
        },
        out is Ok ==> chunk_seals(
            keys_of(file_key@, salt@, tag@),
            index,
            !more_follows,
            chunk@,
            sealed_chunk(keys_of(file_key@, salt@, tag@), index, !more_follows, chunk@),
        ),
        out is Ok ==> sealed_chunk(keys_of(file_key@, salt@, tag@), index, !more_follows, chunk@).len()
            == chunk@.len() + TAG_LEN,
{
    if more_follows && index == u32::MAX {
        return Err(VaultError::SizeLimitExceeded);
    }
    let bytes = match seal_frame(file_key, salt, tag, index, !more_follows, chunk) {
        Ok(b) => b,
        Err(e) => { return Err(e); },
    };
    if more_follows {
        Ok((bytes, Some(index + 1)))
    } else {
        Ok((bytes, None))
    }
}

/// What a reader gives that takes a stream's body `b` in steps, from the
/// chunk at `index` on: it asks for four bytes and takes the chunk's
/// length from them, asks for the chunk and the four bytes after it and
/// takes a step of reading, and goes on from those four bytes until a
/// step says that the chunk was the last; then it checks the end of the
/// stream on what follows the terminator mark. The result is the bytes of
/// all chunks in order, or the first failure.
pub open spec fn opened_in_steps(
    k: ChunkKeys,
    b: Seq<u8>,
    index: u32,
    original_length: Option<u64>,
    written: u64,
) -> Result<Seq<u8>, VaultError>
    decreases b.len(),
{
    match chunk_length_of(front(b, 4)) {
        Err(e) => Err(e),
        Ok(len) => {
            let b1 = behind(b, 4);
            let b2 = behind(b1, len as nat);
            match frame_read(k, index, len, front(b1, len as nat), front(b2, 4)) {
                Err(e) => Err(e),
                Ok((plain, following)) => match following {
                    None => match stream_closed(front(behind(b2, 4), 2), original_length, written) {
                        Err(e) => Err(e),
                        Ok(_) => Ok(plain),
                    },
                    Some(i) => if b2.len() < b.len() {
                        prepended(plain, opened_in_steps(k, b2, i, original_length, written))
                    } else {
                        Err(VaultError::ChunkAuthFailure)
                    },
                },
            }
        },
    }
}

/// What opening a stream's body and then checking the length restored
/// gives.
pub open spec fn opened_and_checked(
    k: ChunkKeys,
    b: Seq<u8>,
    index: nat,
    original_length: Option<u64>,
    written: u64,
) -> Result<Seq<u8>, VaultError> {
    match opened_stream(k, b, index) {
        Err(e) => Err(e),
        Ok(p) => if original_length matches Some(n) && n != written {
            Err(VaultError::IntegrityFailure)
        } else {
            Ok(p)
        },
    }
}

/// Reading a stream's body in steps gives what opening it at once gives,
/// chunk for chunk and failure for failure, with the check of the length
/// at the end.
pub proof fn lemma_steps_open_the_stream(
    k: ChunkKeys,
    b: Seq<u8>,
    index: u32,
    original_length: Option<u64>,
    written: u64,
)
    ensures
        opened_in_steps(k, b, index, original_length, written) == opened_and_checked(
            k,
            b,
            index as nat,
            original_length,
            written,
        ),
    decreases b.len(),
{
    lemma_opened_stream_step(k, b, index as nat);
    if let Ok(len) = chunk_length_of(front(b, 4)) {
        assert(b.len() >= 4);
        assert(front(b, 4).skip(0) =~= front(b, 4));
        assert(read_u32_be(b) matches Some((l, r1)) && l == len && r1 == behind(b, 4));
        let b1 = behind(b, 4);
        let b2 = behind(b1, len as nat);
        if b1.len() >= len && b2.len() >= 4 {
            let sealed = front(b1, len as nat);
            assert(read_fixed(b1, len as nat) == Some((sealed, b2)));
            assert(read_u32_be(front(b2, 4)) matches Some((m, _)) && read_u32_be(b2) matches Some((n, r3))
                && m == n && r3 == behind(b2, 4));
            let mark = read_u32_be(b2)->Some_0.0;
            let b3 = behind(b2, 4);
            if mark == TERMINATOR_MARK {
                if let Some(plain) = opened_chunk(k, index, true, sealed) {
                    lemma_close_on_two_bytes(b3, plain);
                }
            } else if let Some(plain) = opened_chunk(k, index, false, sealed) {
                if index < u32::MAX {
                    lemma_steps_open_the_stream(k, b2, (index + 1) as u32, original_length, written);
                    lemma_prepended_checked(
                        plain,
                        opened_stream(k, b2, index as nat + 1),
                        original_length,
                        written,
                    );
                } else {
                    lemma_opened_stream_step(k, b2, index as nat + 1);
                }
            }
        } else {
            assert(read_fixed(b1, len as nat) is None || read_u32_be(b2) is None);
        }
    } else {
        assert(front(b, 4).skip(0) =~= front(b, 4));
        assert(read_u32_be(b) matches Some((l, _)) ==> l == TERMINATOR_MARK);
    }
}

/// The end of a stream can be told from the two bytes after the
/// terminator mark.
proof fn lemma_close_on_two_bytes(after_mark: Seq<u8>, plain: Seq<u8>)
    ensures
        closed(front(after_mark, 2), Seq::empty()) is Ok <==> closed(after_mark, plain) is Ok,
        closed(after_mark, plain) matches Ok(p) ==> p == plain,
        closed(after_mark, plain) matches Err(e) ==> closed(front(after_mark, 2), Seq::empty()) == Err::<
            Seq<u8>,
            VaultError,
        >(e),
{
    let two = front(after_mark, 2);
    if after_mark.len() >= 1 {
        assert(two[0] == after_mark[0]);
        assert(two.take(1)[0] == after_mark.take(1)[0]);
    }
}

/// Checking the length after the chunks were put together is checking it
/// at the end.
proof fn lemma_prepended_checked(
    plain: Seq<u8>,
    rest: Result<Seq<u8>, VaultError>,
    original_length: Option<u64>,
    written: u64,
)
    ensures
        prepended(
            plain,
            match rest {
                Err(e) => Err(e),
                Ok(p) => if original_length matches Some(n) && n != written {
                    Err(VaultError::IntegrityFailure)
                } else {
                    Ok(p)
                },
            },
        ) == (match prepended(plain, rest) {
            Err(e) => Err(e),
            Ok(p) => if original_length matches Some(n) && n != written {
                Err(VaultError::IntegrityFailure)
            } else {
                Ok(p)
            },
        }),
{
}

/// What a writer gives that cuts `data` into chunks of `size` bytes and
/// takes a step of writing for each, from `index` on, a chunk being the
/// last where no more than `size` bytes are left, and then writes the
/// terminator.
pub open spec fn sealed_in_steps(k: ChunkKeys, data: Seq<u8>, size: nat, index: u32) -> Result<
    Seq<u8>,
    VaultError,
>
    decreases data.len(),
{
    if size == 0 || data.len() <= size {
        match next_sealed(k, index, data, false) {
            Err(e) => Err(e),
            Ok((f, _)) => Ok(f + terminator()),
        }
    } else {
        match next_sealed(k, index, data.take(size as int), true) {
            Err(e) => Err(e),
            Ok((f, following)) => match following {
                Some(i) => prepended(f, sealed_in_steps(k, data.skip(size as int), size, i)),
                None => Ok(f + terminator()),
            },
        }
    }
}

/// Writing a stream's body in steps gives what sealing it at once gives,
/// and fails exactly where the chunks cannot be counted in 32 bits.
pub proof fn lemma_steps_seal_the_stream(k: ChunkKeys, data: Seq<u8>, size: u32, index: u32)
    requires
        valid_chunk_size(size),
        k.tag.len() <= 16,
    ensures
        sealed_in_steps(k, data, size as nat, index) == (if stream_fits(
            data.len(),
            size as nat,
            index as nat,
        ) {
            Ok::<Seq<u8>, VaultError>(sealed_stream(k, data, size as nat, index as nat))
        } else {
            Err::<Seq<u8>, VaultError>(VaultError::SizeLimitExceeded)
        }),
    decreases data.len(),
{
    if data.len() > size {
        if index < u32::MAX {
            lemma_steps_seal_the_stream(k, data.skip(size as int), size, (index + 1) as u32);
        } else {
            reveal_with_fuel(stream_fits, 2);
        }
    }
}

/// Reading the start of a stream in steps, then its body, gives what
/// opening the stream at once gives: the version and the header's length
/// from the first twelve bytes, the header and the file key from the
/// bytes that follow, the chunks from the rest.
pub proof fn lemma_steps_open_the_envelope(master_key: Seq<u8>, keyfile: Option<Seq<u8>>, bytes: Seq<u8>)
    ensures
        v5_decrypted(master_key, keyfile, bytes) == (match header_length_of(front(bytes, 12)) {
            Err(e) => Err(e),
            Ok(len) => match header_opened(
                master_key,
                keyfile,
                len,
                front(behind(bytes, 12), len as nat),
            ) {
                Err(e) => Err(e),
                Ok((h, fk)) => match opened_stream(
                    stream_keys(fk, h),
                    behind(behind(bytes, 12), len as nat),
                    0,
                ) {
                    Err(e) => Err(e),
                    Ok(compressed) => match zstd_expanded(compressed) {
                        None => Err(VaultError::Malformed),
                        Some(data) => if h.original_length matches Some(n) && n != data.len() {
                            Err(VaultError::IntegrityFailure)
                        } else {
                            Ok(PayloadView { filename: h.filename, content: data })
                        },
                    },
                },
            },
        }),
{
    reveal(read_v5_frame);
    let start = front(bytes, 12);
    if bytes.len() >= 4 {
        assert(start.take(4) =~= bytes.take(4));
        if bytes.len() >= 12 {
            assert(start.skip(4).take(8) =~= bytes.skip(4).take(8));
            assert(bytes.skip(4).skip(8) =~= bytes.skip(12));
        } else {
            assert(start.skip(4).len() < 8);
        }
    }
}

} // verus!
