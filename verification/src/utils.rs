//! Sizes and keyfiles.

use vstd::prelude::*;
use crate::crypto::MAX_FILE_SIZE;
use crate::error::VaultError;
use crate::keys::{hash_blocks, joined};
use crate::paths::to_chars;
use crate::primitives::hash::sha256;

verus! {

/// What was found at one place of a walked directory tree, as far as its
/// size goes.
#[derive(Clone, Copy, Debug)]
pub struct SizedEntry {
    /// Whether the entry is a regular file. Only files count.
    pub is_file: bool,
    /// The length of the entry in bytes.
    pub len: u64,
}

/// The bytes that the files among the first `count` entries hold
/// together.
pub open spec fn size_of_files(entries: Seq<SizedEntry>, count: int) -> int
    decreases count,
{
    if count <= 0 {
        0
    } else {
        size_of_files(entries, count - 1) + (if entries[count - 1].is_file {
            entries[count - 1].len as int
        } else {
            0
        })
    }
}

/// Sizes only grow as more entries are counted.
pub proof fn lemma_size_grows(entries: Seq<SizedEntry>, fewer: int, more: int)
    requires
        0 <= fewer <= more,
    ensures
        0 <= size_of_files(entries, fewer) <= size_of_files(entries, more),
    decreases more,
{
    if fewer < more {
        lemma_size_grows(entries, fewer, more - 1);
    } else if more > 0 {
        lemma_size_grows(entries, fewer - 1, more - 1);
    }
}

/// Adds up the sizes of the files of a walked directory tree. A total
/// that does not fit 64 bits is beyond every limit.
pub fn get_dir_size(entries: &Vec<SizedEntry>) -> (out: Result<u64, VaultError>)
    ensures
        match out {
            Ok(total) => total == size_of_files(entries@, entries@.len() as int),
            Err(e) => e == VaultError::SizeLimitExceeded && size_of_files(
                entries@,
                entries@.len() as int,
            ) > u64::MAX,
        },
{
    let mut total: u64 = 0;
    let mut i: usize = 0;
    while i < entries.len()
        invariant
            i <= entries@.len(),
            total == size_of_files(entries@, i as int),
        decreases entries@.len() - i,
    {
        if entries[i].is_file {
            match total.checked_add(entries[i].len) {
                Some(t) => {
                    total = t;
                },
                None => {
                    proof {
                        lemma_size_grows(entries@, i + 1, entries@.len() as int);
                    }
                    return Err(VaultError::SizeLimitExceeded);
                },
            }
        }
        i += 1;
    }
    Ok(total)
}

/// Holds a size against the limit of what one item may hold.
pub fn check_size_limit(total_size: u64) -> (out: Result<(), VaultError>)
    ensures
        total_size <= MAX_FILE_SIZE ==> out is Ok,
        total_size > MAX_FILE_SIZE ==> out == Err::<(), VaultError>(VaultError::SizeLimitExceeded),
{
    if total_size > MAX_FILE_SIZE {
        Err(VaultError::SizeLimitExceeded)
    } else {
        Ok(())
    }
}

/// Whether `c` is white space.
pub open spec fn is_space(c: char) -> bool {
    ||| ('\u{9}' <= c && c <= '\u{d}')
    ||| c == ' '
    ||| c == '\u{85}'
    ||| c == '\u{a0}'
    ||| c == '\u{1680}'
    ||| ('\u{2000}' <= c && c <= '\u{200a}')
    ||| c == '\u{2028}'
    ||| c == '\u{2029}'
    ||| c == '\u{202f}'
    ||| c == '\u{205f}'
    ||| c == '\u{3000}'
}

/// Whether `s` holds nothing but white space.
pub open spec fn is_blank(s: Seq<char>) -> bool {
    forall|i: int| 0 <= i < s.len() ==> is_space(#[trigger] s[i])
}

/// Whether a keyfile was asked for: a path was given, and it is not
/// blank.
pub open spec fn keyfile_wanted(path: Option<Seq<char>>) -> bool {
    match path {
        Some(p) => !is_blank(p),
        None => false,
    }
}

/// Whether `s` holds nothing but white space.
pub fn check_blank(s: &str) -> (blank: bool)
    ensures
        blank == is_blank(s@),
{
    let chars = to_chars(s);
    let mut i: usize = 0;
    while i < chars.len()
        invariant
            i <= chars@.len(),
            chars@ == s@,
            forall|j: int| 0 <= j < i ==> is_space(#[trigger] s@[j]),
        decreases chars@.len() - i,
    {
        let c = chars[i];
        let space = ('\u{9}' <= c && c <= '\u{d}') || c == ' ' || c == '\u{85}' || c == '\u{a0}' || c
            == '\u{1680}' || ('\u{2000}' <= c && c <= '\u{200a}') || c == '\u{2028}' || c
            == '\u{2029}' || c == '\u{202f}' || c == '\u{205f}' || c == '\u{3000}';
        if !space {
            assert(!is_space(s@[i as int]));
            return false;
        }
        i += 1;
    }
    true
}

/// The view of an optional path.
pub open spec fn opt_path(path: Option<&str>) -> Option<Seq<char>> {
    match path {
        Some(p) => Some(p@),
        None => None,
    }
}

/// Processes the keyfile, given the path that was asked for and the
/// blocks that were read from it: without a path, or with a blank one,
/// there is no keyfile; else the keyfile's hash is the digest of the
/// blocks' bytes.
pub fn process_keyfile(path: Option<&str>, blocks: &Vec<Vec<u8>>) -> (out: Option<[u8; 32]>)
    ensures
        match out {
            Some(h) => keyfile_wanted(opt_path(path)) && h@ == sha256(joined(blocks.deep_view())),
            None => !keyfile_wanted(opt_path(path)),
        },
{
    match path {
        None => None,
        Some(p) => {
            if check_blank(p) {
                None
            } else {
                Some(hash_blocks(blocks))
            }
        },
    }
}

} // verus!
