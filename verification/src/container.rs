//! The whole-payload envelope: one payload, compressed, sealed under a
//! fresh file key that is itself wrapped under the wrapping key.

use vstd::prelude::*;
use vstd::utf8::encode_utf8;
use crate::codec::{
    lemma_read_fixed, lemma_read_prefixed, lemma_u32_le_round_trip, prefixed, put_bytes,
    put_prefixed, put_u32_le, read_fixed, read_prefixed, read_u32_le, take_array, take_prefixed,
    take_u32_le, u32_le,
};
use crate::error::VaultError;
use crate::text::{decode, decoded, lemma_decode_encoded};

verus! {

/// The version tag of the whole-payload envelope.
pub const CONTAINER_VERSION: u32 = 4;

/// What an envelope carries: a file's name and its bytes.
#[derive(Debug)]
pub struct InnerPayload {
    pub filename: String,
    pub content: Vec<u8>,
}

/// The mathematical value of an [`InnerPayload`].
pub struct PayloadView {
    pub filename: Seq<char>,
    pub content: Seq<u8>,
}

impl View for InnerPayload {
    type V = PayloadView;

    open spec fn view(&self) -> PayloadView {
        PayloadView { filename: self.filename@, content: self.content@ }
    }
}

/// The header of a whole-payload envelope.
#[derive(Debug)]
pub struct EncryptedFileHeader {
    pub validation_nonce: [u8; 12],
    pub encrypted_validation_tag: Vec<u8>,
    pub key_wrapping_nonce: [u8; 12],
    pub encrypted_file_key: Vec<u8>,
    pub body_nonce: [u8; 12],
    pub uses_keyfile: bool,
    pub original_hash: Option<[u8; 32]>,
}

/// The mathematical value of an [`EncryptedFileHeader`].
pub struct HeaderView {
    pub validation_nonce: Seq<u8>,
    pub encrypted_validation_tag: Seq<u8>,
    pub key_wrapping_nonce: Seq<u8>,
    pub encrypted_file_key: Seq<u8>,
    pub body_nonce: Seq<u8>,
    pub uses_keyfile: bool,
    pub original_hash: Option<Seq<u8>>,
}

impl HeaderView {
    /// Nonces are 12 bytes, the hash is 32, and the two sealed fields are
    /// short enough for their length to be written down.
    pub open spec fn wf(self) -> bool {
        &&& self.validation_nonce.len() == 12
        &&& self.key_wrapping_nonce.len() == 12
        &&& self.body_nonce.len() == 12
        &&& self.encrypted_validation_tag.len() <= u64::MAX
        &&& self.encrypted_file_key.len() <= u64::MAX
        &&& self.original_hash matches Some(h) ==> h.len() == 32
    }
}

impl View for EncryptedFileHeader {
    type V = HeaderView;

    open spec fn view(&self) -> HeaderView {
        HeaderView {
            validation_nonce: self.validation_nonce@,
            encrypted_validation_tag: self.encrypted_validation_tag@,
            key_wrapping_nonce: self.key_wrapping_nonce@,
            encrypted_file_key: self.encrypted_file_key@,
            body_nonce: self.body_nonce@,
            uses_keyfile: self.uses_keyfile,
            original_hash: match self.original_hash {
                Some(h) => Some(h@),
                None => None,
            },
        }
    }
}

/// A whole-payload envelope.
#[derive(Debug)]
pub struct EncryptedFileContainer {
    pub version: u32,
    pub header: EncryptedFileHeader,
    pub ciphertext: Vec<u8>,
}

/// The mathematical value of an [`EncryptedFileContainer`].
pub struct ContainerView {
    pub version: u32,
    pub header: HeaderView,
    pub ciphertext: Seq<u8>,
}

impl ContainerView {
    /// The header is well formed and the ciphertext is short enough for
    /// its length to be written down.
    pub open spec fn wf(self) -> bool {
        &&& self.header.wf()
        &&& self.ciphertext.len() <= u64::MAX
    }
}

impl View for EncryptedFileContainer {
    type V = ContainerView;

    open spec fn view(&self) -> ContainerView {
        ContainerView { version: self.version, header: self.header@, ciphertext: self.ciphertext@ }
    }
}

/// A payload on the wire: name and content, each preceded by its length.
pub open spec fn payload_bytes(p: PayloadView) -> Seq<u8> {
    prefixed(encode_utf8(p.filename)) + prefixed(p.content)
}

/// Reads a payload off the front of `b`. Bytes after it are left alone.
pub open spec fn read_payload(b: Seq<u8>) -> Option<PayloadView> {
    match read_prefixed(b) {
        None => None,
        Some((name, rest)) => match decoded(name) {
            None => None,
            Some(filename) => match read_prefixed(rest) {
                None => None,
                Some((content, _)) => Some(PayloadView { filename, content }),
            },
        },
    }
}

/// A flag on the wire: one byte, zero or one.
pub open spec fn bool_bytes(flag: bool) -> Seq<u8> {
    seq![if flag { 1u8 } else { 0u8 }]
}

/// Reads a flag off the front of `b`. Any byte but zero and one is
/// refused.
pub open spec fn read_bool(b: Seq<u8>) -> Option<(bool, Seq<u8>)> {
    match read_fixed(b, 1) {
        None => None,
        Some((v, rest)) => if v[0] == 0 {
            Some((false, rest))
        } else if v[0] == 1 {
            Some((true, rest))
        } else {
            None
        },
    }
}

/// An optional hash on the wire: a zero byte, or a one byte and the hash.
pub open spec fn opt_hash_bytes(hash: Option<Seq<u8>>) -> Seq<u8> {
    match hash {
        None => seq![0u8],
        Some(h) => seq![1u8] + h,
    }
}

/// Reads an optional hash off the front of `b`.
pub open spec fn read_opt_hash(b: Seq<u8>) -> Option<(Option<Seq<u8>>, Seq<u8>)> {
    match read_fixed(b, 1) {
        None => None,
        Some((v, rest)) => if v[0] == 0 {
            Some((None, rest))
        } else if v[0] == 1 {
            match read_fixed(rest, 32) {
                None => None,
                Some((h, after)) => Some((Some(h), after)),
            }
        } else {
            None
        },
    }
}

/// A header on the wire: its fields in their fixed order.
pub open spec fn header_bytes(h: HeaderView) -> Seq<u8> {
    h.validation_nonce + prefixed(h.encrypted_validation_tag) + h.key_wrapping_nonce + prefixed(
        h.encrypted_file_key,
    ) + h.body_nonce + bool_bytes(h.uses_keyfile) + opt_hash_bytes(h.original_hash)
}

/// Reads a header off the front of `b`.
#[verifier::opaque]
pub open spec fn read_header(b: Seq<u8>) -> Option<(HeaderView, Seq<u8>)> {
    match read_fixed(b, 12) {
        None => None,
        Some((validation_nonce, b1)) => match read_prefixed(b1) {
            None => None,
            Some((encrypted_validation_tag, b2)) => match read_fixed(b2, 12) {
                None => None,
                Some((key_wrapping_nonce, b3)) => match read_prefixed(b3) {
                    None => None,
                    Some((encrypted_file_key, b4)) => match read_fixed(b4, 12) {
                        None => None,
                        Some((body_nonce, b5)) => match read_bool(b5) {
                            None => None,
                            Some((uses_keyfile, b6)) => match read_opt_hash(b6) {
                                None => None,
                                Some((original_hash, b7)) => Some(
                                    (
                                        HeaderView {
                                            validation_nonce,
                                            encrypted_validation_tag,
                                            key_wrapping_nonce,
                                            encrypted_file_key,
                                            body_nonce,
                                            uses_keyfile,
                                            original_hash,
                                        },
                                        b7,
                                    ),
                                ),
                            },
                        },
                    },
                },
            },
        },
    }
}

/// An envelope on the wire: version, header, then the ciphertext preceded
/// by its length.
pub open spec fn container_bytes(c: ContainerView) -> Seq<u8> {
    u32_le(c.version) + header_bytes(c.header) + prefixed(c.ciphertext)
}

/// Reads an envelope off the front of `b`. Bytes after it are left alone.
pub open spec fn read_container(b: Seq<u8>) -> Result<ContainerView, VaultError> {
    match read_u32_le(b) {
        None => Err(VaultError::UnsupportedVersion),
        Some((version, b1)) => if version != CONTAINER_VERSION {
            Err(VaultError::UnsupportedVersion)
        } else {
            match read_header(b1) {
                None => Err(VaultError::Malformed),
                Some((header, b2)) => match read_prefixed(b2) {
                    None => Err(VaultError::Malformed),
                    Some((ciphertext, _)) => Ok(ContainerView { version, header, ciphertext }),
                },
            }
        },
    }
}

/// Reading a payload that was written gives the payload back, whatever
/// follows it.
pub proof fn lemma_payload_round_trip(p: PayloadView, rest: Seq<u8>)
    requires
        encode_utf8(p.filename).len() <= u64::MAX,
        p.content.len() <= u64::MAX,
    ensures
        read_payload(payload_bytes(p) + rest) == Some(p),
{
    let name = encode_utf8(p.filename);
    assert(payload_bytes(p) + rest =~= prefixed(name) + (prefixed(p.content) + rest));
    lemma_read_prefixed(name, prefixed(p.content) + rest);
    lemma_decode_encoded(p.filename);
    lemma_read_prefixed(p.content, rest);
}

/// Reading a flag that was written gives the flag back.
pub proof fn lemma_bool_round_trip(flag: bool, rest: Seq<u8>)
    ensures
        read_bool(bool_bytes(flag) + rest) == Some((flag, rest)),
{
    lemma_read_fixed(bool_bytes(flag), rest);
}

/// Reading an optional hash that was written gives it back.
pub proof fn lemma_opt_hash_round_trip(hash: Option<Seq<u8>>, rest: Seq<u8>)
    requires
        hash matches Some(h) ==> h.len() == 32,
    ensures
        read_opt_hash(opt_hash_bytes(hash) + rest) == Some((hash, rest)),
{
    match hash {
        None => {
            lemma_read_fixed(seq![0u8], rest);
        },
        Some(h) => {
            assert(opt_hash_bytes(hash) + rest =~= seq![1u8] + (h + rest));
            lemma_read_fixed(seq![1u8], h + rest);
            lemma_read_fixed(h, rest);
        },
    }
}

/// Concatenation does not depend on how it is bracketed.
proof fn lemma_concat_assoc(a: Seq<u8>, b: Seq<u8>, c: Seq<u8>)
    ensures
        (a + b) + c == a + (b + c),
{
    assert((a + b) + c =~= a + (b + c));
}

/// A header followed by `rest`, bracketed from the right.
spec fn header_then(h: HeaderView, rest: Seq<u8>) -> Seq<u8> {
    h.validation_nonce + (prefixed(h.encrypted_validation_tag) + (h.key_wrapping_nonce + (prefixed(
        h.encrypted_file_key,
    ) + (h.body_nonce + (bool_bytes(h.uses_keyfile) + (opt_hash_bytes(h.original_hash) + rest))))))
}

proof fn lemma_header_then(h: HeaderView, rest: Seq<u8>)
    ensures
        header_bytes(h) + rest == header_then(h, rest),
{
    let s1 = h.validation_nonce;
    let s2 = s1 + prefixed(h.encrypted_validation_tag);
    let s3 = s2 + h.key_wrapping_nonce;
    let s4 = s3 + prefixed(h.encrypted_file_key);
    let s5 = s4 + h.body_nonce;
    let s6 = s5 + bool_bytes(h.uses_keyfile);
    let t6 = opt_hash_bytes(h.original_hash) + rest;
    let t5 = bool_bytes(h.uses_keyfile) + t6;
    let t4 = h.body_nonce + t5;
    let t3 = prefixed(h.encrypted_file_key) + t4;
    let t2 = h.key_wrapping_nonce + t3;
    lemma_concat_assoc(s6, opt_hash_bytes(h.original_hash), rest);
    lemma_concat_assoc(s5, bool_bytes(h.uses_keyfile), t6);
    lemma_concat_assoc(s4, h.body_nonce, t5);
    lemma_concat_assoc(s3, prefixed(h.encrypted_file_key), t4);
    lemma_concat_assoc(s2, h.key_wrapping_nonce, t3);
    lemma_concat_assoc(s1, prefixed(h.encrypted_validation_tag), t2);
}

/// Reading a header that was written gives the header back, and leaves
/// what follows it.
pub proof fn lemma_header_round_trip(h: HeaderView, rest: Seq<u8>)
    requires
        h.wf(),
    ensures
        read_header(header_bytes(h) + rest) == Some((h, rest)),
{
    reveal(read_header);
    let t7 = rest;
    let t6 = opt_hash_bytes(h.original_hash) + t7;
    let t5 = bool_bytes(h.uses_keyfile) + t6;
    let t4 = h.body_nonce + t5;
    let t3 = prefixed(h.encrypted_file_key) + t4;
    let t2 = h.key_wrapping_nonce + t3;
    let t1 = prefixed(h.encrypted_validation_tag) + t2;
    lemma_header_then(h, rest);
    assert(header_bytes(h) + rest == h.validation_nonce + t1);
    lemma_read_fixed(h.validation_nonce, t1);
    lemma_read_prefixed(h.encrypted_validation_tag, t2);
    lemma_read_fixed(h.key_wrapping_nonce, t3);
    lemma_read_prefixed(h.encrypted_file_key, t4);
    lemma_read_fixed(h.body_nonce, t5);
    lemma_bool_round_trip(h.uses_keyfile, t6);
    lemma_opt_hash_round_trip(h.original_hash, t7);
}

/// Reading an envelope that was written gives the envelope back, whatever
/// follows it.
pub proof fn lemma_container_round_trip(c: ContainerView, rest: Seq<u8>)
    requires
        c.wf(),
        c.version == CONTAINER_VERSION,
    ensures
        read_container(container_bytes(c) + rest) == Ok::<ContainerView, VaultError>(c),
{
    let t2 = prefixed(c.ciphertext) + rest;
    let t1 = header_bytes(c.header) + t2;
    lemma_concat_assoc(u32_le(c.version) + header_bytes(c.header), prefixed(c.ciphertext), rest);
    lemma_concat_assoc(u32_le(c.version), header_bytes(c.header), t2);
    lemma_u32_le_round_trip(c.version, Seq::empty());
    lemma_read_fixed(u32_le(c.version), t1);
    lemma_header_round_trip(c.header, t2);
    lemma_read_prefixed(c.ciphertext, rest);
}

/// A flag that was read, followed by what is left, is what was there.
pub proof fn lemma_read_bool_parts(b: Seq<u8>)
    ensures
        read_bool(b) matches Some((flag, rest)) ==> b == bool_bytes(flag) + rest,
{
    crate::codec::lemma_read_fixed_parts(b, 1);
    if let Some((flag, rest)) = read_bool(b) {
        assert(b.take(1) =~= bool_bytes(flag));
    }
}

/// An optional hash that was read, followed by what is left, is what was
/// there.
pub proof fn lemma_read_opt_hash_parts(b: Seq<u8>)
    ensures
        read_opt_hash(b) matches Some((hash, rest)) ==> b == opt_hash_bytes(hash) + rest && (hash
            matches Some(h) ==> h.len() == 32),
{
    crate::codec::lemma_read_fixed_parts(b, 1);
    if let Some((hash, rest)) = read_opt_hash(b) {
        let tail = b.skip(1);
        match hash {
            None => {
                assert(b.take(1) =~= seq![0u8]);
            },
            Some(h) => {
                crate::codec::lemma_read_fixed_parts(tail, 32);
                assert(b.take(1) =~= seq![1u8]);
                assert(b =~= (seq![1u8] + h) + rest);
            },
        }
    }
}

/// A header that was read, followed by what is left, is what was there:
/// every header has one wire form only.
pub proof fn lemma_read_header_parts(b: Seq<u8>)
    ensures
        read_header(b) matches Some((h, rest)) ==> h.wf() && b == header_bytes(h) + rest,
{
    reveal(read_header);
    crate::codec::lemma_read_fixed_parts(b, 12);
    if let Some((h, rest)) = read_header(b) {
        let b1 = b.skip(12);
        crate::codec::lemma_read_prefixed_parts(b1);
        let b2 = read_prefixed(b1)->Some_0.1;
        crate::codec::lemma_read_fixed_parts(b2, 12);
        let b3 = b2.skip(12);
        crate::codec::lemma_read_prefixed_parts(b3);
        let b4 = read_prefixed(b3)->Some_0.1;
        crate::codec::lemma_read_fixed_parts(b4, 12);
        let b5 = b4.skip(12);
        lemma_read_bool_parts(b5);
        let b6 = read_bool(b5)->Some_0.1;
        lemma_read_opt_hash_parts(b6);
        lemma_header_then(h, rest);
    }
}

/// An envelope that was read is the start of what was there: the bytes
/// begin with the one wire form of the envelope.
pub proof fn lemma_read_container_parts(b: Seq<u8>)
    ensures
        read_container(b) matches Ok(c) ==> c.wf() && c.version == CONTAINER_VERSION && container_bytes(
            c,
        ).is_prefix_of(b),
{
    crate::codec::lemma_read_fixed_parts(b, 4);
    if let Ok(c) = read_container(b) {
        let b1 = b.skip(4);
        lemma_u32_le_round_trip(0, b.take(4));
        lemma_read_header_parts(b1);
        let b2 = read_header(b1)->Some_0.1;
        crate::codec::lemma_read_prefixed_parts(b2);
        let rest = read_prefixed(b2)->Some_0.1;
        lemma_concat_assoc(u32_le(c.version) + header_bytes(c.header), prefixed(c.ciphertext), rest);
        lemma_concat_assoc(u32_le(c.version), header_bytes(c.header), prefixed(c.ciphertext) + rest);
        assert(b == container_bytes(c) + rest);
        assert(container_bytes(c) =~= b.subrange(0, container_bytes(c).len() as int));
    }
}

/// Reads a flag at `pos`.
pub(crate) fn take_bool(bytes: &[u8], pos: usize) -> (out: Option<(bool, usize)>)
    requires
        pos <= bytes@.len(),
    ensures
        match read_bool(bytes@.skip(pos as int)) {
            Some((v, rest)) => out matches Some((flag, next)) && flag == v && next == pos + 1
                && next <= bytes@.len() && bytes@.skip(next as int) == rest,
            None => out is None,
        },
{
    match take_array::<1>(bytes, pos) {
        None => None,
        Some((v, next)) => if v[0] == 0 {
            Some((false, next))
        } else if v[0] == 1 {
            Some((true, next))
        } else {
            None
        },
    }
}

/// Reads an optional hash at `pos`.
fn take_opt_hash(bytes: &[u8], pos: usize) -> (out: Option<(Option<[u8; 32]>, usize)>)
    requires
        pos <= bytes@.len(),
    ensures
        match read_opt_hash(bytes@.skip(pos as int)) {
            Some((v, rest)) => out matches Some((h, next)) && pos <= next <= bytes@.len()
                && bytes@.skip(next as int) == rest && v == (match h {
                Some(a) => Some(a@),
                None => None,
            }),
            None => out is None,
        },
{
    match take_array::<1>(bytes, pos) {
        None => None,
        Some((v, next)) => if v[0] == 0 {
            Some((None, next))
        } else if v[0] == 1 {
            match take_array::<32>(bytes, next) {
                None => None,
                Some((h, after)) => Some((Some(h), after)),
            }
        } else {
            None
        },
    }
}

/// Reads a header at `pos`.
fn take_header(bytes: &[u8], pos: usize) -> (out: Option<(EncryptedFileHeader, usize)>)
    requires
        pos <= bytes@.len(),
    ensures
        match read_header(bytes@.skip(pos as int)) {
            Some((v, rest)) => out matches Some((h, next)) && h@ == v && h@.wf() && pos <= next
                <= bytes@.len() && bytes@.skip(next as int) == rest,
            None => out is None,
        },
{
    proof {
        reveal(read_header);
    }
    let (validation_nonce, p1) = match take_array::<12>(bytes, pos) {
        Some(r) => r,
        None => { return None; },
    };
    let (encrypted_validation_tag, p2) = match take_prefixed(bytes, p1) {
        Some(r) => r,
        None => { return None; },
    };
    let (key_wrapping_nonce, p3) = match take_array::<12>(bytes, p2) {
        Some(r) => r,
        None => { return None; },
    };
    let (encrypted_file_key, p4) = match take_prefixed(bytes, p3) {
        Some(r) => r,
        None => { return None; },
    };
    let (body_nonce, p5) = match take_array::<12>(bytes, p4) {
        Some(r) => r,
        None => { return None; },
    };
    let (uses_keyfile, p6) = match take_bool(bytes, p5) {
        Some(r) => r,
        None => { return None; },
    };
    let (original_hash, p7) = match take_opt_hash(bytes, p6) {
        Some(r) => r,
        None => { return None; },
    };
    Some(
        (
            EncryptedFileHeader {
                validation_nonce,
                encrypted_validation_tag,
                key_wrapping_nonce,
                encrypted_file_key,
                body_nonce,
                uses_keyfile,
                original_hash,
            },
            p7,
        ),
    )
}

impl EncryptedFileHeader {
    /// Appends the header in its wire form.
    pub fn write_to(&self, out: &mut Vec<u8>)
        ensures
            final(out)@ == old(out)@ + header_bytes(self@),
    {
        let ghost before = out@;
        put_bytes(out, self.validation_nonce.as_slice());
        put_prefixed(out, self.encrypted_validation_tag.as_slice());
        put_bytes(out, self.key_wrapping_nonce.as_slice());
        put_prefixed(out, self.encrypted_file_key.as_slice());
        put_bytes(out, self.body_nonce.as_slice());
        out.push(if self.uses_keyfile { 1u8 } else { 0u8 });
        match &self.original_hash {
            None => {
                out.push(0u8);
            },
            Some(h) => {
                out.push(1u8);
                put_bytes(out, h.as_slice());
            },
        }
        assert(out@ =~= before + header_bytes(self@));
    }
}

impl InnerPayload {
    /// The payload in its wire form.
    pub fn to_bytes(&self) -> (out: Vec<u8>)
        ensures
            out@ == payload_bytes(self@),
    {
        let mut out: Vec<u8> = Vec::new();
        put_prefixed(&mut out, self.filename.as_str().as_bytes());
        put_prefixed(&mut out, self.content.as_slice());
        assert(out@ =~= payload_bytes(self@));
        out
    }

    /// Reads a payload off the front of `bytes`.
    pub fn from_bytes(bytes: &[u8]) -> (out: Option<InnerPayload>)
        ensures
            read_payload(bytes@) == (match out {
                Some(p) => Some(p@),
                None => None,
            }),
    {
        assert(bytes@.skip(0) =~= bytes@);
        let (name, p1) = match take_prefixed(bytes, 0) {
            Some(r) => r,
            None => { return None; },
        };
        let filename = match decode(name) {
            Some(f) => f,
            None => { return None; },
        };
        let (content, _) = match take_prefixed(bytes, p1) {
            Some(r) => r,
            None => { return None; },
        };
        Some(InnerPayload { filename, content })
    }
}

impl EncryptedFileContainer {
    /// The envelope in its wire form: what is written to a file.
    pub fn save(&self) -> (out: Vec<u8>)
        ensures
            out@ == container_bytes(self@),
    {
        let mut out: Vec<u8> = Vec::new();
        put_u32_le(&mut out, self.version);
        self.header.write_to(&mut out);
        put_prefixed(&mut out, self.ciphertext.as_slice());
        assert(out@ =~= container_bytes(self@));
        out
    }

    /// Reads an envelope from the bytes of a file. Fewer than four bytes,
    /// or a version other than 4, is an unsupported version; anything else
    /// that does not follow the format is malformed.
    pub fn load(bytes: &[u8]) -> (out: Result<EncryptedFileContainer, VaultError>)
        ensures
            read_container(bytes@) == (match out {
                Ok(c) => Ok(c@),
                Err(e) => Err(e),
            }),
            out matches Ok(c) ==> c@.wf(),
    {
        assert(bytes@.skip(0) =~= bytes@);
        let _ = bytes.len();
        let (version, p1) = match take_u32_le(bytes, 0) {
            Some(r) => r,
            None => { return Err(VaultError::UnsupportedVersion); },
        };
        if version != CONTAINER_VERSION {
            return Err(VaultError::UnsupportedVersion);
        }
        let (header, p2) = match take_header(bytes, p1) {
            Some(r) => r,
            None => { return Err(VaultError::Malformed); },
        };
        let (ciphertext, _) = match take_prefixed(bytes, p2) {
            Some(r) => r,
            None => { return Err(VaultError::Malformed); },
        };
        Ok(EncryptedFileContainer { version, header, ciphertext })
    }
}

} // verus!
