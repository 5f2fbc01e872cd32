//! The rules of the commands: which reader an envelope is for, where the
//! files of an operation go, and how a batch of items is worked through
//! and reported on.

use vstd::prelude::*;
use crate::compression::{already_compressed, level_for, level_for_file, CompressionMode};
use crate::container::{read_container, EncryptedFileContainer, InnerPayload, PayloadView};
use crate::crypto::{decrypt_file_with_master_key, v4_decrypted};
use crate::crypto_stream::{
    can_seal_stream, decrypt_stream, encrypt_stream, read_v5_frame, seal_stream_failure,
    header_drawn_from, sealed_as_v5, v5_decrypted, StreamMaterialView,
};
use crate::error::VaultError;
use crate::legacy::{decrypt_legacy, legacy_decrypted, read_legacy, LegacyContainer};
use crate::keys::{opt_view, MasterKey};
use crate::paths::{
    file_name, find_name_start, is_unique_name_for, name_chars, name_start, names_of, parent_part, push_chars,
    to_chars, unique_name,
};
use crate::state::SessionState;

verus! {

/// The outcome of one item of a batch.
#[derive(Debug, Clone)]
pub struct BatchItemResult {
    /// The item's file name.
    pub name: String,
    /// Whether the operation succeeded on it.
    pub success: bool,
    /// What to show the user.
    pub message: String,
}

impl BatchItemResult {
    /// The outcome of an item that went through.
    pub fn succeeded(name: String, message: String) -> (item: BatchItemResult)
        ensures
            item.name@ == name@,
            item.success,
            item.message@ == message@,
    {
        BatchItemResult { name, success: true, message }
    }

    /// The outcome of an item that failed.
    pub fn failed(name: String, message: String) -> (item: BatchItemResult)
        ensures
            item.name@ == name@,
            !item.success,
            item.message@ == message@,
    {
        BatchItemResult { name, success: false, message }
    }
}

/// The formats that an envelope file can be in.
#[derive(Clone, Copy, Debug, PartialEq, Eq, Structural)]
pub enum EnvelopeKind {
    /// The whole-payload envelope, version 4.
    WholePayload,
    /// The chunked envelope, version 5.
    Streaming,
    /// The whole-payload envelopes of versions 2 and 3, which are still
    /// read.
    Legacy,
}

/// Which format a file is in, going by its first four bytes read as a
/// little-endian number: 2 and 3 are the older envelopes, 4 the
/// whole-payload envelope, 5 the chunked one.
pub open spec fn envelope_kind(bytes: Seq<u8>) -> Result<EnvelopeKind, VaultError> {
    match crate::codec::read_u32_le(bytes) {
        None => Err(VaultError::UnsupportedVersion),
        Some((version, _)) => if version == 4 {
            Ok(EnvelopeKind::WholePayload)
        } else if version == 5 {
            Ok(EnvelopeKind::Streaming)
        } else if version == 2 || version == 3 {
            Ok(EnvelopeKind::Legacy)
        } else {
            Err(VaultError::UnsupportedVersion)
        },
    }
}

/// Looks at the first four bytes of a file and tells which reader it is
/// for: versions 2 and 3 go to the reader of the older envelopes, 4 to
/// the whole-payload reader, 5 to the chunked one. A file shorter than
/// four bytes, or any other version, is unsupported.
pub fn detect_version(bytes: &[u8]) -> (out: Result<EnvelopeKind, VaultError>)
    ensures
        out == envelope_kind(bytes@),
{
    assert(bytes@.skip(0) =~= bytes@);
    match crate::codec::take_u32_le(bytes, 0) {
        None => Err(VaultError::UnsupportedVersion),
        Some((version, _)) => if version == 4 {
            Ok(EnvelopeKind::WholePayload)
        } else if version == 5 {
            Ok(EnvelopeKind::Streaming)
        } else if version == 2 || version == 3 {
            Ok(EnvelopeKind::Legacy)
        } else {
            Err(VaultError::UnsupportedVersion)
        },
    }
}

/// What opening an envelope of either format gives: the format is told
/// from the first four bytes, and the envelope is opened by the reader
/// for it.
pub open spec fn opened_envelope(master_key: Seq<u8>, keyfile: Option<Seq<u8>>, bytes: Seq<u8>) -> Result<
    PayloadView,
    VaultError,
> {
    match envelope_kind(bytes) {
        Err(e) => Err(e),
        Ok(EnvelopeKind::WholePayload) => match read_container(bytes) {
            Err(e) => Err(e),
            Ok(c) => v4_decrypted(master_key, keyfile, c),
        },
        Ok(EnvelopeKind::Streaming) => v5_decrypted(master_key, keyfile, bytes),
        Ok(EnvelopeKind::Legacy) => match read_legacy(bytes) {
            Err(e) => Err(e),
            Ok(c) => legacy_decrypted(master_key, keyfile, c),
        },
    }
}

/// Opens an envelope of either format.
pub fn unlock_bytes(master_key: &MasterKey, keyfile: Option<&[u8]>, bytes: &[u8]) -> (out: Result<
    InnerPayload,
    VaultError,
>)
    ensures
        opened_envelope(master_key@, opt_view(keyfile), bytes@) == (match out {
            Ok(p) => Ok(p@),
            Err(e) => Err(e),
        }),
{
    match detect_version(bytes) {
        Err(e) => Err(e),
        Ok(EnvelopeKind::WholePayload) => match EncryptedFileContainer::load(bytes) {
            Err(e) => Err(e),
            Ok(c) => decrypt_file_with_master_key(master_key, keyfile, &c),
        },
        Ok(EnvelopeKind::Streaming) => decrypt_stream(master_key, keyfile, bytes),
        Ok(EnvelopeKind::Legacy) => match LegacyContainer::load(bytes) {
            Err(e) => Err(e),
            Ok(c) => decrypt_legacy(master_key, keyfile, &c),
        },
    }
}

/// A stream that opens is told to be one by its first four bytes.
pub proof fn lemma_stream_is_detected(master_key: Seq<u8>, keyfile: Option<Seq<u8>>, bytes: Seq<u8>)
    requires
        v5_decrypted(master_key, keyfile, bytes) is Ok,
    ensures
        envelope_kind(bytes) == Ok::<EnvelopeKind, VaultError>(EnvelopeKind::Streaming),
        opened_envelope(master_key, keyfile, bytes) == v5_decrypted(master_key, keyfile, bytes),
{
    reveal(read_v5_frame);
}

/// The level at which an item of this name is compressed in `mode`.
pub open spec fn lock_level(mode: CompressionMode, name: Seq<char>) -> i32 {
    level_for(mode, already_compressed(name))
}

/// Seals one payload as a chunked envelope, at the level that `mode`
/// gives for its name, with the salt and the nonces of `entropy_seed`
/// where one is given. Sealing succeeds only where the chunk size is
/// valid, the compressor accepts the payload at that level and the
/// chunks can be counted; where one of these fails, the failure says
/// which. Beyond that only the operating system's random source can
/// fail.
pub fn lock_bytes(
    master_key: &MasterKey,
    keyfile: Option<&[u8]>,
    name: &str,
    content: &[u8],
    entropy_seed: Option<[u8; 32]>,
    mode: CompressionMode,
    chunk_size: u32,
) -> (out: Result<Vec<u8>, VaultError>)
    ensures
        out matches Ok(bytes) ==> {
            &&& can_seal_stream(content@, lock_level(mode, name@), chunk_size)
            &&& exists|m: StreamMaterialView| #[trigger]
                sealed_as_v5(
                    master_key@,
                    opt_view(keyfile),
                    name@,
                    content@,
                    lock_level(mode, name@),
                    chunk_size,
                    m,
                    bytes@,
                )
            &&& v5_decrypted(master_key@, opt_view(keyfile), bytes@) == Ok::<PayloadView, VaultError>(
                PayloadView { filename: name@, content: content@ },
            )
            &&& opened_envelope(master_key@, opt_view(keyfile), bytes@) == Ok::<PayloadView, VaultError>(
                PayloadView { filename: name@, content: content@ },
            )
            &&& entropy_seed matches Some(seed) ==> header_drawn_from(bytes@, seed@)
        },
        out matches Err(e) ==> {
            ||| e == VaultError::IOFailure
            ||| !can_seal_stream(content@, lock_level(mode, name@), chunk_size) && e
                == seal_stream_failure(content@, lock_level(mode, name@), chunk_size)
        },
{
    let level = level_for_file(mode, name);
    let out = encrypt_stream(master_key, keyfile, name, content, entropy_seed, level, chunk_size);
    proof {
        if out is Ok {
            lemma_stream_is_detected(master_key@, opt_view(keyfile), out->Ok_0@);
        }
    }
    out
}

/// One item to be locked: a name and the bytes that go under it.
#[derive(Debug)]
pub struct LockItem {
    pub name: String,
    pub content: Vec<u8>,
}

/// What locking one item gave: the report, and the envelope where it
/// succeeded.
#[derive(Debug)]
pub struct LockOutcome {
    pub result: BatchItemResult,
    pub envelope: Option<Vec<u8>>,
}

/// That `outcome` is what locking `item` gave: it reports on that item,
/// it reports success exactly where it holds an envelope, and the
/// envelope opens to the item under the same keys and carries the salt
/// and the nonces of the seed, where there is one. An item fails only
/// where it cannot be sealed, with the wording of the reason, or where
/// the random source fails, with the wording of that.
pub open spec fn is_lock_outcome(
    outcome: LockOutcome,
    item: LockItem,
    master_key: Seq<u8>,
    keyfile: Option<Seq<u8>>,
    entropy_seed: Option<[u8; 32]>,
    mode: CompressionMode,
    chunk_size: u32,
) -> bool {
    &&& outcome.result.name@ == item.name@
    &&& outcome.result.success == outcome.envelope is Some
    &&& outcome.envelope matches Some(bytes) ==> opened_envelope(master_key, keyfile, bytes@) == Ok::<
        PayloadView,
        VaultError,
    >(PayloadView { filename: item.name@, content: item.content@ })
    &&& outcome.envelope is Some ==> can_seal_stream(item.content@, lock_level(mode, item.name@), chunk_size)
    &&& outcome.envelope matches Some(bytes) ==> (entropy_seed matches Some(seed) ==> header_drawn_from(
        bytes@,
        seed@,
    ))
    &&& outcome.envelope is None ==> {
        ||| outcome.result.message@ == VaultError::IOFailure.message_text()
        ||| !can_seal_stream(item.content@, lock_level(mode, item.name@), chunk_size)
            && outcome.result.message@ == seal_stream_failure(
            item.content@,
            lock_level(mode, item.name@),
            chunk_size,
        ).message_text()
    }
}

/// Locks a batch of items with the key of the session. The items are
/// taken in the order given and every one is reported on, at its place:
/// an item that fails does not keep the ones after it from being locked.
/// With a locked session nothing is done.
pub fn lock_items(
    session: &SessionState,
    keyfile: Option<&[u8]>,
    items: &Vec<LockItem>,
    entropy_seed: Option<[u8; 32]>,
    mode: CompressionMode,
    chunk_size: u32,
) -> (out: Result<Vec<LockOutcome>, VaultError>)
    ensures
        match session@ {
            None => out == Err::<Vec<LockOutcome>, VaultError>(VaultError::SessionLocked),
            Some(key) => out matches Ok(outcomes) && outcomes@.len() == items@.len() && forall|i: int|
                0 <= i < items@.len() ==> is_lock_outcome(
                    #[trigger] outcomes@[i],
                    items@[i],
                    key,
                    opt_view(keyfile),
                    entropy_seed,
                    mode,
                    chunk_size,
                ),
        },
{
    let mut master_key = match session.get_mk() {
        Ok(k) => k,
        Err(e) => { return Err(e); },
    };
    let mut outcomes: Vec<LockOutcome> = Vec::new();
    let mut i: usize = 0;
    while i < items.len()
        invariant
            i <= items@.len(),
            outcomes@.len() == i,
            session@ == Some(master_key@),
            forall|j: int|
                0 <= j < i ==> is_lock_outcome(
                    #[trigger] outcomes@[j],
                    items@[j],
                    master_key@,
                    opt_view(keyfile),
                    entropy_seed,
                    mode,
                    chunk_size,
                ),
        decreases items@.len() - i,
    {
        let item = &items[i];
        let name = item.name.clone();
        let outcome = match lock_bytes(
            &master_key,
            keyfile,
            item.name.as_str(),
            item.content.as_slice(),
            entropy_seed,
            mode,
            chunk_size,
        ) {
            Ok(bytes) => LockOutcome {
                result: BatchItemResult::succeeded(name, "Locked".to_owned()),
                envelope: Some(bytes),
            },
            Err(e) => LockOutcome { result: BatchItemResult::failed(name, e.message()), envelope: None },
        };
        outcomes.push(outcome);
        i += 1;
    }
    let ghost key = master_key@;
    master_key.erase();
    Ok(outcomes)
}

/// One item to be unlocked: the name of the envelope file and its bytes.
#[derive(Debug)]
pub struct LockedItem {
    pub name: String,
    pub bytes: Vec<u8>,
}

/// What unlocking one item gave: the report, and the payload where it
/// succeeded.
#[derive(Debug)]
pub struct UnlockOutcome {
    pub result: BatchItemResult,
    pub payload: Option<InnerPayload>,
}

/// That `outcome` is what unlocking `item` gave: it reports on that item,
/// and it holds the payload exactly where the envelope opens, and reports
/// success exactly then.
pub open spec fn is_unlock_outcome(
    outcome: UnlockOutcome,
    item: LockedItem,
    master_key: Seq<u8>,
    keyfile: Option<Seq<u8>>,
) -> bool {
    &&& outcome.result.name@ == item.name@
    &&& outcome.result.success == outcome.payload is Some
    &&& match opened_envelope(master_key, keyfile, item.bytes@) {
        Ok(p) => outcome.payload matches Some(q) && q@ == p,
        Err(e) => outcome.payload is None && outcome.result.message@ == e.message_text(),
    }
}

/// Unlocks a batch of envelopes with the key of the session, each by the
/// reader for its format. The items are taken in the order given and
/// every one is reported on, at its place. With a locked session nothing
/// is done.
pub fn unlock_items(session: &SessionState, keyfile: Option<&[u8]>, items: &Vec<LockedItem>) -> (out: Result<
    Vec<UnlockOutcome>,
    VaultError,
>)
    ensures
        match session@ {
            None => out == Err::<Vec<UnlockOutcome>, VaultError>(VaultError::SessionLocked),
            Some(key) => out matches Ok(outcomes) && outcomes@.len() == items@.len() && forall|i: int|
                0 <= i < items@.len() ==> is_unlock_outcome(
                    #[trigger] outcomes@[i],
                    items@[i],
                    key,
                    opt_view(keyfile),
                ),
        },
{
    let mut master_key = match session.get_mk() {
        Ok(k) => k,
        Err(e) => { return Err(e); },
    };
    let mut outcomes: Vec<UnlockOutcome> = Vec::new();
    let mut i: usize = 0;
    while i < items.len()
        invariant
            i <= items@.len(),
            outcomes@.len() == i,
            session@ == Some(master_key@),
            forall|j: int|
                0 <= j < i ==> is_unlock_outcome(
                    #[trigger] outcomes@[j],
                    items@[j],
                    master_key@,
                    opt_view(keyfile),
                ),
        decreases items@.len() - i,
    {
        let item = &items[i];
        let name = item.name.clone();
        let outcome = match unlock_bytes(&master_key, keyfile, item.bytes.as_slice()) {
            Ok(payload) => UnlockOutcome {
                result: BatchItemResult::succeeded(name, "Unlocked".to_owned()),
                payload: Some(payload),
            },
            Err(e) => UnlockOutcome { result: BatchItemResult::failed(name, e.message()), payload: None },
        };
        outcomes.push(outcome);
        i += 1;
    }
    master_key.erase();
    Ok(outcomes)
}

/// Where the files of one lock operation go.
#[derive(Debug)]
pub struct LockPlan {
    /// The name of the item, for reports.
    pub name: String,
    /// The compressor level.
    pub level: i32,
    /// For a directory: where the archive of its tree is put while it is
    /// being sealed.
    pub archive_path: Option<String>,
    /// Where the envelope is written.
    pub output_path: String,
}

/// `name` followed by `suffix`.
fn with_suffix(name: &Vec<char>, from: usize, suffix: &str) -> (out: String)
    requires
        from <= name@.len(),
    ensures
        out@ == name@.skip(from as int) + suffix@,
{
    let tail = to_chars(suffix);
    let mut out = String::new();
    push_chars(&mut out, name, from, name.len());
    push_chars(&mut out, &tail, 0, tail.len());
    assert(out@ =~= name@.skip(from as int) + suffix@);
    out
}

/// `parent` followed by `name`.
fn under(path: &Vec<char>, parent_len: usize, name: &str) -> (out: String)
    requires
        parent_len <= path@.len(),
    ensures
        out@ == path@.take(parent_len as int) + name@,
{
    let tail = to_chars(name);
    let mut out = String::new();
    push_chars(&mut out, path, 0, parent_len);
    push_chars(&mut out, &tail, 0, tail.len());
    assert(out@ =~= path@.take(parent_len as int) + name@);
    out
}

/// Plans the locking of the item at `file_path`, given the names already
/// present in its directory. The envelope goes beside the item, under the
/// item's name with `.qre` added; the archive of a directory goes beside
/// it too, under its name with `.zip` added; each under the first name of
/// its kind that is free. The level is what `mode` gives for the item's
/// name.
pub fn plan_lock(file_path: &str, is_dir: bool, mode: CompressionMode, siblings: &Vec<String>) -> (plan:
    LockPlan)
    ensures
        plan.name@ == file_name(file_path@),
        plan.level == level_for(mode, already_compressed(file_path@)),
        plan.archive_path is Some == is_dir,
        plan.archive_path matches Some(a) ==> a@ == parent_part(file_path@) + a@.skip(
            name_start(file_path@),
        ) && is_unique_name_for(
            a@.skip(name_start(file_path@)),
            file_name(file_path@) + ".zip"@,
            names_of(siblings@),
        ),
        plan.output_path@ == parent_part(file_path@) + plan.output_path@.skip(name_start(file_path@)),
        is_unique_name_for(
            plan.output_path@.skip(name_start(file_path@)),
            file_name(file_path@) + ".qre"@,
            names_of(siblings@),
        ),
{
    let chars = to_chars(file_path);
    let at = find_name_start(&chars);
    let last = name_chars(&chars);
    let name = with_suffix(&last, 0, "");
    proof {
        reveal_strlit("");
    }
    assert(name@ =~= file_name(file_path@));
    let level = level_for_file(mode, file_path);
    let archive_path = if is_dir {
        let wanted = with_suffix(&last, 0, ".zip");
        let free = unique_name(wanted.as_str(), siblings);
        let path = under(&chars, at, free.as_str());
        proof {
            assert(path@.skip(at as int) =~= free@);
        }
        Some(path)
    } else {
        None
    };
    let wanted = with_suffix(&last, 0, ".qre");
    let free = unique_name(wanted.as_str(), siblings);
    let output_path = under(&chars, at, free.as_str());
    proof {
        assert(output_path@.skip(at as int) =~= free@);
    }
    LockPlan { name, level, archive_path, output_path }
}

/// Where the payload of an envelope is restored to: beside the envelope,
/// under the last component of the name the payload carries, or the first
/// numbered name that is free. Directories named in the payload's name
/// are not followed.
pub fn plan_unlock_output(envelope_path: &str, payload_filename: &str, siblings: &Vec<String>) -> (out: String)
    ensures
        out@ == parent_part(envelope_path@) + out@.skip(name_start(envelope_path@)),
        is_unique_name_for(
            out@.skip(name_start(envelope_path@)),
            file_name(payload_filename@),
            names_of(siblings@),
        ),
{
    let chars = to_chars(envelope_path);
    let at = find_name_start(&chars);
    let payload_chars = to_chars(payload_filename);
    let last = name_chars(&payload_chars);
    let wanted = with_suffix(&last, 0, "");
    proof {
        reveal_strlit("");
    }
    assert(wanted@ =~= file_name(payload_filename@));
    let free = unique_name(wanted.as_str(), siblings);
    let out = under(&chars, at, free.as_str());
    proof {
        assert(out@.skip(at as int) =~= free@);
    }
    out
}

/// The words picked from `words`, one for each number of `picks`, each
/// the word at the number's remainder, with hyphens between them.
pub open spec fn passphrase_text(words: Seq<Seq<char>>, picks: Seq<u64>) -> Seq<char>
    decreases picks.len(),
{
    if picks.len() == 0 || words.len() == 0 {
        Seq::empty()
    } else if picks.len() == 1 {
        words[picks[0] as int % words.len() as int]
    } else {
        passphrase_text(words, picks.drop_last()) + seq!['-'] + words[picks.last() as int
            % words.len() as int]
    }
}

/// Builds a passphrase from a word list and random numbers: one word for
/// each number, hyphens between the words.
pub fn generate_passphrase(words: &Vec<String>, picks: &Vec<u64>) -> (out: String)
    ensures
        out@ == passphrase_text(names_of(words@), picks@),
{
    let mut out = String::new();
    if words.len() == 0 {
        return out;
    }
    let count = words.len() as u64;
    let mut i: usize = 0;
    assert(picks@.take(0) =~= Seq::<u64>::empty());
    while i < picks.len()
        invariant
            i <= picks@.len(),
            count == words@.len(),
            count > 0,
            out@ == passphrase_text(names_of(words@), picks@.take(i as int)),
        decreases picks@.len() - i,
    {
        let total = words.len();
        let pick = picks[i] % count;
        assert(pick < total);
        let at = pick as usize;
        let word = &words[at];
        proof {
            let sofar = picks@.take(i + 1);
            assert(sofar.drop_last() =~= picks@.take(i as int));
            assert(sofar.last() == picks@[i as int]);
            assert(at as int == picks@[i as int] as int % words@.len() as int);
            assert(names_of(words@)[at as int] == word@);
        }
        if i > 0 {
            crate::text::string_push(&mut out, '-');
        }
        let chars = to_chars(word.as_str());
        let ghost before = out@;
        push_chars(&mut out, &chars, 0, chars.len());
        assert(out@ =~= before + word@);
        i += 1;
    }
    assert(picks@.take(i as int) =~= picks@);
    out
}

/// Whether `s` starts with two hyphens.
pub open spec fn is_option(s: Seq<char>) -> bool {
    s.len() >= 2 && s[0] == '-' && s[1] == '-'
}

/// The file that the program was started on: its first argument after
/// its own name, unless that is an option.
pub open spec fn startup_file(args: Seq<Seq<char>>) -> Option<Seq<char>> {
    if args.len() > 1 && !is_option(args[1]) {
        Some(args[1])
    } else {
        None
    }
}

/// Tells which file the program was started on, from its arguments.
pub fn get_startup_file(args: &Vec<String>) -> (out: Option<String>)
    ensures
        startup_file(names_of(args@)) == (match out {
            Some(p) => Some(p@),
            None => None,
        }),
{
    if args.len() > 1 {
        let chars = to_chars(args[1].as_str());
        let option = chars.len() >= 2 && chars[0] == '-' && chars[1] == '-';
        if !option {
            return Some(args[1].clone());
        }
    }
    None
}

} // verus!
