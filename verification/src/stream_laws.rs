//! What holds of every chunked envelope: a stream that was cut short, or
//! whose chunks changed places, does not open.

use vstd::prelude::*;
use crate::codec::{
    lemma_u32_be_round_trip, lemma_u32_le_round_trip, lemma_u64_be_round_trip, read_fixed,
    read_u32_be, u32_be, u32_from_be, u32_le, u64_be,
};
use crate::container::PayloadView;
use crate::crypto::lemma_wrapped_key_unwraps;
use crate::crypto_stream::{
    frame, lemma_open_inner_chunk, lemma_opened_stream_step, lemma_stream_header_round_trip,
    next_chunk, opened_chunk, opened_stream, read_v5_frame, sealed_as_v5, sealed_chunk,
    sealed_stream, stream_fits, stream_header_bytes, stream_keys, stream_seals, terminator,
    v5_decrypted, v5_framed, v5_header, valid_chunk_size, ChunkKeys, ChunkStep, StreamMaterialView,
    MAX_CHUNK_SIZE, STREAM_VERSION, TERMINATOR_MARK,
};
use crate::error::VaultError;
use crate::primitives::compress::zstd_compressed;

verus! {

/// Cutting `a + b` within or at the end of `a` leaves a part of `a`;
/// cutting it later leaves `a` and a part of `b`.
pub proof fn lemma_take_concat(a: Seq<u8>, b: Seq<u8>, cut: int)
    requires
        0 <= cut <= a.len() + b.len(),
    ensures
        cut <= a.len() ==> (a + b).take(cut) == a.take(cut),
        cut >= a.len() ==> (a + b).take(cut) == a + b.take(cut - a.len()),
{
    if cut <= a.len() {
        assert((a + b).take(cut) =~= a.take(cut));
    }
    if cut >= a.len() {
        assert((a + b).take(cut) =~= a + b.take(cut - a.len()));
    }
}

/// Reading a fixed part off a buffer that was cut after it gives the
/// part, and leaves what the cut left.
pub proof fn lemma_read_fixed_cut(a: Seq<u8>, b: Seq<u8>, cut: int)
    requires
        a.len() <= cut <= a.len() + b.len(),
    ensures
        read_fixed((a + b).take(cut), a.len()) == Some((a, b.take(cut - a.len()))),
{
    lemma_take_concat(a, b, cut);
    crate::codec::lemma_read_fixed(a, b.take(cut - a.len()));
}

/// The first frame of a sealed stream: the sealed chunk it holds, and
/// what follows it.
pub open spec fn first_sealed(k: ChunkKeys, data: Seq<u8>, size: nat, index: nat) -> Seq<u8> {
    if data.len() <= size {
        sealed_chunk(k, index as u32, true, data)
    } else {
        sealed_chunk(k, index as u32, false, data.take(size as int))
    }
}

/// What follows the first frame of a sealed stream.
pub open spec fn after_first(k: ChunkKeys, data: Seq<u8>, size: nat, index: nat) -> Seq<u8> {
    if data.len() <= size {
        terminator()
    } else {
        sealed_stream(k, data.skip(size as int), size, index + 1)
    }
}

/// A sealed stream is the length of its first chunk, the chunk, and what
/// follows.
pub proof fn lemma_stream_parts(k: ChunkKeys, data: Seq<u8>, size: nat, index: nat)
    requires
        0 < size <= MAX_CHUNK_SIZE,
        stream_seals(k, data, size, index),
    ensures
        first_sealed(k, data, size, index).len() < TERMINATOR_MARK,
        u32_be(first_sealed(k, data, size, index).len() as u32).len() == 4,
        sealed_stream(k, data, size, index) == u32_be(first_sealed(k, data, size, index).len() as u32)
            + (first_sealed(k, data, size, index) + after_first(k, data, size, index)),
{
    let sealed = first_sealed(k, data, size, index);
    let rest = after_first(k, data, size, index);
    lemma_u32_be_round_trip(sealed.len() as u32, Seq::empty());
    assert(frame(sealed) + rest =~= u32_be(sealed.len() as u32) + (sealed + rest));
}

/// What reading the first chunk of a stream gives when the stream was cut
/// within its first frame or within the four bytes after it: a chunk
/// failure.
proof fn lemma_cut_in_first_frame(k: ChunkKeys, sealed: Seq<u8>, rest: Seq<u8>, index: u32, cut: int)
    requires
        sealed.len() < TERMINATOR_MARK,
        0 <= cut < 4 + sealed.len() + 4,
        cut <= 4 + sealed.len() + rest.len(),
    ensures
        next_chunk(k, (u32_be(sealed.len() as u32) + (sealed + rest)).take(cut), index)
            == ChunkStep::Failed(VaultError::ChunkAuthFailure),
{
    let n = sealed.len() as u32;
    lemma_u32_be_round_trip(n, Seq::empty());
    let whole = u32_be(n) + (sealed + rest);
    if cut >= 4 {
        lemma_read_fixed_cut(u32_be(n), sealed + rest, cut);
        if cut - 4 >= sealed.len() {
            lemma_read_fixed_cut(sealed, rest, cut - 4);
        } else {
            assert((sealed + rest).take(cut - 4).len() < sealed.len());
        }
    } else {
        assert(whole.take(cut).len() < 4);
    }
}

/// What reading the first chunk of a stream gives when the stream was cut
/// at least four bytes into what follows the first frame.
proof fn lemma_cut_after_first_frame(k: ChunkKeys, sealed: Seq<u8>, rest: Seq<u8>, index: u32, cut: int)
    requires
        sealed.len() < TERMINATOR_MARK,
        4 + sealed.len() + 4 <= cut <= 4 + sealed.len() + rest.len(),
    ensures
        read_u32_be((u32_be(sealed.len() as u32) + (sealed + rest)).take(cut)) == Some(
            (sealed.len() as u32, (sealed + rest).take(cut - 4)),
        ),
        read_fixed((sealed + rest).take(cut - 4), sealed.len()) == Some(
            (sealed, rest.take(cut - 4 - sealed.len())),
        ),
        read_u32_be(rest.take(cut - 4 - sealed.len())) matches Some((next, after)) && read_u32_be(rest)
            matches Some((same, _)) && next == same && after == rest.take(cut - 4 - sealed.len()).skip(4),
{
    let n = sealed.len() as u32;
    lemma_u32_be_round_trip(n, Seq::empty());
    lemma_read_fixed_cut(u32_be(n), sealed + rest, cut);
    lemma_read_fixed_cut(sealed, rest, cut - 4);
    let c2 = cut - 4 - sealed.len();
    assert(rest.take(c2).take(4) =~= rest.take(4));
}

/// A stream that was cut short anywhere does not open: the chunks before
/// the cut open, and then the stream fails with a chunk failure.
pub proof fn lemma_truncated_body_fails(k: ChunkKeys, data: Seq<u8>, size: nat, index: nat, cut: int)
    requires
        0 < size <= MAX_CHUNK_SIZE,
        stream_fits(data.len(), size, index),
        stream_seals(k, data, size, index),
        0 <= cut < sealed_stream(k, data, size, index).len(),
    ensures
        opened_stream(k, sealed_stream(k, data, size, index).take(cut), index) == Err::<
            Seq<u8>,
            VaultError,
        >(VaultError::ChunkAuthFailure),
    decreases data.len(),
{
    let sealed = first_sealed(k, data, size, index);
    let rest = after_first(k, data, size, index);
    let whole = sealed_stream(k, data, size, index);
    lemma_stream_parts(k, data, size, index);
    let short = whole.take(cut);
    lemma_opened_stream_step(k, short, index);
    if cut < 4 + sealed.len() + 4 {
        lemma_cut_in_first_frame(k, sealed, rest, index as u32, cut);
    } else {
        lemma_cut_after_first_frame(k, sealed, rest, index as u32, cut);
        let c2 = cut - 4 - sealed.len();
        if data.len() <= size {
            // what follows is the terminator, cut after its mark: the flag is missing
            assert(c2 == 4);
            let mark = seq![0xffu8, 0xff, 0xff, 0xff];
            assert(terminator().take(4) =~= mark);
            assert(u32_from_be(mark) == TERMINATOR_MARK);
            assert(rest.take(c2).skip(4).len() == 0);
        } else {
            let tail = data.skip(size as int);
            crate::crypto_stream::lemma_stream_round_trip(k, tail, size, index + 1);
            lemma_stream_parts(k, tail, size, index + 1);
            let next_sealed = first_sealed(k, tail, size, index + 1);
            lemma_u32_be_round_trip(next_sealed.len() as u32, Seq::empty());
            crate::codec::lemma_read_fixed(
                u32_be(next_sealed.len() as u32),
                next_sealed + after_first(k, tail, size, index + 1),
            );
            lemma_truncated_body_fails(k, tail, size, index + 1, c2);
        }
    }
}

/// What splitting a framed stream gives after it was cut: an unsupported
/// version where fewer than four bytes are left, a chunk failure where
/// the cut falls before the end of the header, and else the header and
/// what is left of the body.
pub proof fn lemma_cut_frame(h: crate::crypto_stream::StreamHeaderView, body: Seq<u8>, cut: int)
    requires
        h.wf(),
        valid_chunk_size(h.chunk_size),
        stream_header_bytes(h).len() <= u64::MAX,
        0 <= cut <= v5_framed(h, body).len(),
    ensures
        v5_framed(h, body).len() == 12 + stream_header_bytes(h).len() + body.len(),
        read_v5_frame(v5_framed(h, body).take(cut)) == (if cut < 4 {
            Err::<(crate::crypto_stream::StreamHeaderView, Seq<u8>), VaultError>(
                VaultError::UnsupportedVersion,
            )
        } else if cut < 12 + stream_header_bytes(h).len() {
            Err(VaultError::ChunkAuthFailure)
        } else {
            Ok((h, body.take(cut - 12 - stream_header_bytes(h).len())))
        }),
{
    reveal(read_v5_frame);
    let hb = stream_header_bytes(h);
    let n = hb.len() as u64;
    let t2 = hb + body;
    let t1 = u64_be(n) + t2;
    let whole = v5_framed(h, body);
    lemma_u32_le_round_trip(STREAM_VERSION, Seq::empty());
    lemma_u64_be_round_trip(n, Seq::empty());
    if cut < 4 {
        assert(whole.take(cut).len() < 4);
    } else {
        lemma_read_fixed_cut(u32_le(STREAM_VERSION), t1, cut);
        if cut < 12 {
            assert(t1.take(cut - 4).len() < 8);
        } else {
            lemma_read_fixed_cut(u64_be(n), t2, cut - 4);
            if cut < 12 + hb.len() {
                assert(t2.take(cut - 12).len() < hb.len());
            } else {
                lemma_read_fixed_cut(hb, body, cut - 12);
                lemma_stream_header_round_trip(h);
            }
        }
    }
}

/// Cutting any number of bytes off the end of a chunked envelope is never
/// silent: what is left opens neither to the payload nor to any other;
/// it fails with a chunk failure, or, where not even the version is
/// left, as an unsupported version.
pub proof fn lemma_truncation_detected(
    master_key: Seq<u8>,
    keyfile: Option<Seq<u8>>,
    filename: Seq<char>,
    data: Seq<u8>,
    level: i32,
    chunk_size: u32,
    m: StreamMaterialView,
    bytes: Seq<u8>,
    cut: int,
)
    requires
        sealed_as_v5(master_key, keyfile, filename, data, level, chunk_size, m, bytes),
        0 <= cut < bytes.len(),
    ensures
        v5_decrypted(master_key, keyfile, bytes.take(cut)) == Err::<PayloadView, VaultError>(
            if cut < 4 {
                VaultError::UnsupportedVersion
            } else {
                VaultError::ChunkAuthFailure
            },
        ),
{
    reveal(sealed_as_v5);
    let h = v5_header(master_key, keyfile, filename, data, chunk_size, m);
    let frame = zstd_compressed(data, level)->Some_0;
    let k = stream_keys(m.file_key, h);
    let body = sealed_stream(k, frame, chunk_size as nat, 0);
    lemma_cut_frame(h, body, cut);
    let hb = stream_header_bytes(h);
    if cut >= 12 + hb.len() {
        lemma_wrapped_key_unwraps(
            master_key,
            keyfile,
            m.file_key,
            h.validation_nonce,
            h.encrypted_validation_tag,
            h.key_wrapping_nonce,
            h.encrypted_file_key,
        );
        lemma_truncated_body_fails(k, frame, chunk_size as nat, 0, cut - 12 - hb.len());
    }
}

/// The sealed chunks of a stream, in order.
pub open spec fn sealed_chunks(k: ChunkKeys, data: Seq<u8>, size: nat, index: nat) -> Seq<Seq<u8>>
    decreases data.len(),
{
    if size == 0 || data.len() <= size {
        seq![sealed_chunk(k, index as u32, true, data)]
    } else {
        seq![sealed_chunk(k, index as u32, false, data.take(size as int))] + sealed_chunks(
            k,
            data.skip(size as int),
            size,
            index + 1,
        )
    }
}

/// A list of sealed chunks on the wire: their frames in order, then the
/// terminator.
pub open spec fn framed_chunks(chunks: Seq<Seq<u8>>) -> Seq<u8>
    decreases chunks.len(),
{
    if chunks.len() == 0 {
        terminator()
    } else {
        frame(chunks[0]) + framed_chunks(chunks.drop_first())
    }
}

/// `chunks` with the chunks at `a` and `b` in each other's place.
pub open spec fn swapped(chunks: Seq<Seq<u8>>, a: int, b: int) -> Seq<Seq<u8>> {
    chunks.update(a, chunks[b]).update(b, chunks[a])
}

/// A sealed stream is the frames of its sealed chunks and the
/// terminator.
pub proof fn lemma_stream_is_framed_chunks(k: ChunkKeys, data: Seq<u8>, size: nat, index: nat)
    ensures
        sealed_stream(k, data, size, index) == framed_chunks(sealed_chunks(k, data, size, index)),
        sealed_chunks(k, data, size, index).len() >= 1,
    decreases data.len(),
{
    reveal_with_fuel(framed_chunks, 2);
    if size == 0 || data.len() <= size {
        let one = seq![sealed_chunk(k, index as u32, true, data)];
        assert(one.drop_first() =~= Seq::<Seq<u8>>::empty());
    } else {
        let head = sealed_chunk(k, index as u32, false, data.take(size as int));
        let tail = sealed_chunks(k, data.skip(size as int), size, index + 1);
        lemma_stream_is_framed_chunks(k, data.skip(size as int), size, index + 1);
        assert((seq![head] + tail).drop_first() =~= tail);
    }
}

/// Every sealed chunk of a stream is short enough to be framed, and every
/// chunk but the last opens at its own place as a chunk that is not the
/// last. There are no more chunks than 32 bits can count.
pub proof fn lemma_sealed_chunk_facts(k: ChunkKeys, data: Seq<u8>, size: nat, index: nat, i: int)
    requires
        0 < size <= MAX_CHUNK_SIZE,
        stream_fits(data.len(), size, index),
        stream_seals(k, data, size, index),
        0 <= i < sealed_chunks(k, data, size, index).len(),
    ensures
        sealed_chunks(k, data, size, index)[i].len() < TERMINATOR_MARK,
        index + i <= u32::MAX,
        i + 1 < sealed_chunks(k, data, size, index).len() ==> opened_chunk(
            k,
            (index + i) as u32,
            false,
            sealed_chunks(k, data, size, index)[i],
        ) is Some,
    decreases data.len(),
{
    if data.len() <= size {
    } else {
        let tail = data.skip(size as int);
        lemma_stream_is_framed_chunks(k, tail, size, index + 1);
        if i > 0 {
            lemma_sealed_chunk_facts(k, tail, size, index + 1, i - 1);
        }
    }
}

/// A list of framed chunks does not open if, at a place that is not the
/// last, the chunk does not authenticate, while the chunks before it do.
pub proof fn lemma_list_fails_at(k: ChunkKeys, chunks: Seq<Seq<u8>>, start: nat, a: int)
    requires
        0 <= a,
        a + 1 < chunks.len(),
        start + a <= u32::MAX,
        forall|i: int| 0 <= i <= a + 1 ==> (#[trigger] chunks[i]).len() < TERMINATOR_MARK,
        forall|i: int| 0 <= i < a ==> opened_chunk(k, (start + i) as u32, false, #[trigger] chunks[i]) is Some,
        opened_chunk(k, (start + a) as u32, false, chunks[a]) is None,
    ensures
        opened_stream(k, framed_chunks(chunks), start) == Err::<Seq<u8>, VaultError>(
            VaultError::ChunkAuthFailure,
        ),
    decreases a,
{
    reveal_with_fuel(framed_chunks, 2);
    let rest = chunks.drop_first();
    let after = framed_chunks(rest);
    assert(rest[0] == chunks[1]);
    assert(chunks[1].len() < TERMINATOR_MARK);
    // what follows the first frame starts with the frame of the next chunk
    let next = rest[0];
    lemma_u32_be_round_trip(next.len() as u32, Seq::empty());
    assert(after == frame(next) + framed_chunks(rest.drop_first()));
    assert(after =~= u32_be(next.len() as u32) + (next + framed_chunks(rest.drop_first())));
    crate::codec::lemma_read_fixed(
        u32_be(next.len() as u32),
        next + framed_chunks(rest.drop_first()),
    );
    assert(chunks[0].len() < TERMINATOR_MARK);
    lemma_open_inner_chunk(k, chunks[0], after, start);
    if a > 0 {
        assert forall|i: int| 0 <= i <= a implies (#[trigger] rest[i]).len() < TERMINATOR_MARK by {
            assert(rest[i] == chunks[i + 1]);
        }
        assert forall|i: int| 0 <= i < a - 1 implies opened_chunk(
            k,
            (start + 1 + i) as u32,
            false,
            #[trigger] rest[i],
        ) is Some by {
            assert(rest[i] == chunks[i + 1]);
        }
        assert(rest[a - 1] == chunks[a]);
        lemma_list_fails_at(k, rest, start + 1, a - 1);
    }
}

/// Two chunks of a stream in each other's place: the stream does not
/// open. It fails at the first of the two places, where a chunk is
/// presented under the nonce and associated data of another place. That
/// the cipher rejects it there is what it does for every sealed text
/// presented under a nonce or associated data other than its own, save
/// for a forged one; the law asks for it of this chunk.
pub proof fn lemma_swapped_chunks_fail(k: ChunkKeys, data: Seq<u8>, size: nat, a: int, b: int)
    requires
        0 < size <= MAX_CHUNK_SIZE,
        stream_fits(data.len(), size, 0),
        stream_seals(k, data, size, 0),
        0 <= a < b < sealed_chunks(k, data, size, 0).len(),
        opened_chunk(k, a as u32, false, sealed_chunks(k, data, size, 0)[b]) is None,
    ensures
        opened_stream(k, framed_chunks(swapped(sealed_chunks(k, data, size, 0), a, b)), 0) == Err::<
            Seq<u8>,
            VaultError,
        >(VaultError::ChunkAuthFailure),
{
    let chunks = sealed_chunks(k, data, size, 0);
    let moved = swapped(chunks, a, b);
    assert forall|i: int| 0 <= i <= a + 1 implies (#[trigger] moved[i]).len() < TERMINATOR_MARK by {
        lemma_sealed_chunk_facts(k, data, size, 0, i);
        lemma_sealed_chunk_facts(k, data, size, 0, a);
        lemma_sealed_chunk_facts(k, data, size, 0, b);
    }
    assert forall|i: int| 0 <= i < a implies opened_chunk(k, (0 + i) as u32, false, #[trigger] moved[i]) is Some by {
        lemma_sealed_chunk_facts(k, data, size, 0, i);
    }
    lemma_sealed_chunk_facts(k, data, size, 0, a);
    lemma_list_fails_at(k, moved, 0, a);
}

/// The keys that the chunks of a sealed envelope are sealed with.
pub open spec fn v5_keys(
    master_key: Seq<u8>,
    keyfile: Option<Seq<u8>>,
    filename: Seq<char>,
    data: Seq<u8>,
    chunk_size: u32,
    m: StreamMaterialView,
) -> ChunkKeys {
    stream_keys(m.file_key, v5_header(master_key, keyfile, filename, data, chunk_size, m))
}

/// The sealed chunks of a sealed envelope, in order.
pub open spec fn v5_chunks(
    master_key: Seq<u8>,
    keyfile: Option<Seq<u8>>,
    filename: Seq<char>,
    data: Seq<u8>,
    level: i32,
    chunk_size: u32,
    m: StreamMaterialView,
) -> Seq<Seq<u8>> {
    sealed_chunks(
        v5_keys(master_key, keyfile, filename, data, chunk_size, m),
        zstd_compressed(data, level)->Some_0,
        chunk_size as nat,
        0,
    )
}

/// Swapping two chunks of a chunked envelope gives a chunk failure: the
/// envelope with its chunks at `a` and `b` in each other's place does not
/// open, provided the cipher rejects the chunk from `b` at place `a`.
pub proof fn lemma_swap_detected(
    master_key: Seq<u8>,
    keyfile: Option<Seq<u8>>,
    filename: Seq<char>,
    data: Seq<u8>,
    level: i32,
    chunk_size: u32,
    m: StreamMaterialView,
    bytes: Seq<u8>,
    a: int,
    b: int,
)
    requires
        sealed_as_v5(master_key, keyfile, filename, data, level, chunk_size, m, bytes),
        0 <= a < b < v5_chunks(master_key, keyfile, filename, data, level, chunk_size, m).len(),
        opened_chunk(
            v5_keys(master_key, keyfile, filename, data, chunk_size, m),
            a as u32,
            false,
            v5_chunks(master_key, keyfile, filename, data, level, chunk_size, m)[b],
        ) is None,
    ensures
        bytes == v5_framed(
            v5_header(master_key, keyfile, filename, data, chunk_size, m),
            framed_chunks(v5_chunks(master_key, keyfile, filename, data, level, chunk_size, m)),
        ),
        v5_decrypted(
            master_key,
            keyfile,
            v5_framed(
                v5_header(master_key, keyfile, filename, data, chunk_size, m),
                framed_chunks(
                    swapped(v5_chunks(master_key, keyfile, filename, data, level, chunk_size, m), a, b),
                ),
            ),
        ) == Err::<PayloadView, VaultError>(VaultError::ChunkAuthFailure),
{
    reveal(sealed_as_v5);
    let h = v5_header(master_key, keyfile, filename, data, chunk_size, m);
    let frame = zstd_compressed(data, level)->Some_0;
    let k = stream_keys(m.file_key, h);
    let chunks = sealed_chunks(k, frame, chunk_size as nat, 0);
    lemma_stream_is_framed_chunks(k, frame, chunk_size as nat, 0);
    let body = framed_chunks(swapped(chunks, a, b));
    crate::crypto_stream::lemma_v5_frame_round_trip(h, body);
    lemma_wrapped_key_unwraps(
        master_key,
        keyfile,
        m.file_key,
        h.validation_nonce,
        h.encrypted_validation_tag,
        h.key_wrapping_nonce,
        h.encrypted_file_key,
    );
    lemma_swapped_chunks_fail(k, frame, chunk_size as nat, a, b);
}

} // verus!
