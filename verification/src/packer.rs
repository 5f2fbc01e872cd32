//! Packing a directory tree into one archive, so that it can be sealed as
//! one stream.

use vstd::prelude::*;
use crate::error::VaultError;
use crate::paths::{find_name_start, name_start, parent_part, to_chars};
use crate::primitives::archive::{
    archive_add_directory, archive_add_file, archive_entries, archive_finish, archive_new,
    archive_settings, directory_accepted, file_accepted, has_valid_time, stored_directory_name,
    zip_archive,
    ArchiveEntry, ArchiveSettings,
};
use crate::text::string_push;

verus! {

/// What was found at a path while a directory tree was walked.
#[derive(Clone, Copy, Debug, PartialEq, Eq, Structural)]
pub enum WalkedKind {
    File,
    Directory,
    /// Neither of the two: left out of the archive.
    Other,
}

/// One entry of a walked directory tree, in the order of the walk.
#[derive(Debug)]
pub struct WalkedEntry {
    /// The path as the walk gave it. It starts with the path of the root.
    pub path: String,
    pub kind: WalkedKind,
    /// The bytes of a file. Empty for anything else.
    pub content: Vec<u8>,
}

/// `c` with a backslash made a forward slash.
pub open spec fn slashed(c: char) -> char {
    if c == '\\' {
        '/'
    } else {
        c
    }
}

/// The name an entry has in the archive: its path from the parent of the
/// root on, so that it starts with the root's own name, with forward
/// slashes. Nothing where the path does not lie under that parent.
pub open spec fn entry_name(root: Seq<char>, path: Seq<char>) -> Option<Seq<char>> {
    let parent = parent_part(root);
    if parent.is_prefix_of(path) {
        Some(path.skip(parent.len() as int).map_values(|c: char| slashed(c)))
    } else {
        None
    }
}

/// What goes into the archive for one walked entry: a file under its
/// name, a directory under its name with a slash at the end; nothing for
/// what is neither file nor directory, and nothing for a directory
/// without a name.
pub open spec fn packed_entry(name: Seq<char>, kind: WalkedKind, content: Seq<u8>) -> Option<ArchiveEntry> {
    match kind {
        WalkedKind::File => Some((name, Some(content))),
        WalkedKind::Directory => if name.len() > 0 {
            Some((stored_directory_name(name), None))
        } else {
            None
        },
        WalkedKind::Other => None,
    }
}

/// The entries of the archive for the first `count` walked entries, in
/// the order of the walk, or nothing where one of their paths does not
/// lie under the parent of the root.
pub open spec fn packed(root: Seq<char>, walked: Seq<WalkedEntry>, count: int) -> Option<Seq<ArchiveEntry>>
    decreases count,
{
    if count <= 0 {
        Some(Seq::empty())
    } else {
        match packed(root, walked, count - 1) {
            None => None,
            Some(before) => {
                let e = walked[count - 1];
                match entry_name(root, e.path@) {
                    None => None,
                    Some(name) => match packed_entry(name, e.kind, e.content@) {
                        Some(entry) => Some(before.push(entry)),
                        None => Some(before),
                    },
                }
            },
        }
    }
}

/// Computes the name an entry has in the archive.
pub fn archive_name(root: &Vec<char>, path: &str) -> (out: Option<String>)
    ensures
        entry_name(root@, path@) == (match out {
            Some(n) => Some(n@),
            None => None,
        }),
{
    let chars = to_chars(path);
    let parent_len = find_name_start(root);
    if chars.len() < parent_len {
        return None;
    }
    let ghost parent = parent_part(root@);
    let mut i: usize = 0;
    while i < parent_len
        invariant
            i <= parent_len,
            parent_len == name_start(root@),
            parent_len <= root@.len(),
            parent_len <= chars@.len(),
            chars@ == path@,
            forall|j: int| 0 <= j < i ==> chars@[j] == root@[j],
        decreases parent_len - i,
    {
        if chars[i] != root[i] {
            assert(path@.subrange(0, parent_len as int)[i as int] != parent_part(root@)[i as int]);
            return None;
        }
        i += 1;
    }
    assert(chars@.subrange(0, parent_len as int) =~= parent_part(root@));
    let mut name = String::new();
    let mut j = parent_len;
    let ghost tail = chars@.skip(parent_len as int);
    assert(name@ =~= tail.take(0).map_values(|c: char| slashed(c)));
    while j < chars.len()
        invariant
            parent_len <= j <= chars@.len(),
            tail == chars@.skip(parent_len as int),
            name@ == tail.take(j - parent_len).map_values(|c: char| slashed(c)),
        decreases chars@.len() - j,
    {
        let c = chars[j];
        string_push(&mut name, if c == '\\' { '/' } else { c });
        assert(name@ =~= tail.take(j + 1 - parent_len).map_values(|c: char| slashed(c)));
        j += 1;
    }
    assert(tail.take(j - parent_len) =~= tail);
    Some(name)
}

/// How the packer writes its entries: stored as they are, with the
/// permissions `rwxr-xr-x`, all dated to the first day the format has, so
/// that one tree always gives one archive.
pub open spec fn packer_settings() -> ArchiveSettings {
    ArchiveSettings {
        method: 0,
        permissions: 0o755,
        year: 1980,
        month: 1,
        day: 1,
        hour: 0,
        minute: 0,
        second: 0,
    }
}

/// The settings of the packer.
pub fn stored_settings() -> (out: ArchiveSettings)
    ensures
        out == packer_settings(),
        has_valid_time(out),
{
    ArchiveSettings {
        method: 0,
        permissions: 0o755,
        year: 1980,
        month: 1,
        day: 1,
        hour: 0,
        minute: 0,
        second: 0,
    }
}

/// Whether an archive that holds `before` takes `entry` as its next one.
pub open spec fn entry_accepted(settings: ArchiveSettings, before: Seq<ArchiveEntry>, entry: ArchiveEntry) -> bool {
    match entry.1 {
        Some(bytes) => file_accepted(settings, before, entry.0, bytes),
        None => directory_accepted(settings, before, entry.0),
    }
}

/// Whether an archive takes the first `count` of `entries`, one after
/// the other.
pub open spec fn writer_accepts(settings: ArchiveSettings, entries: Seq<ArchiveEntry>, count: int) -> bool {
    forall|i: int| 0 <= i < count ==> entry_accepted(settings, entries.take(i), #[trigger] entries[i])
}

/// The archive of a walked tree: nothing where a path does not lie under
/// the root's parent, where the archive refuses an entry, or where it
/// cannot be finished.
pub open spec fn packed_archive(root: Seq<char>, walked: Seq<WalkedEntry>) -> Option<Seq<u8>> {
    match packed(root, walked, walked.len() as int) {
        Some(entries) => if writer_accepts(packer_settings(), entries, entries.len() as int) {
            zip_archive(packer_settings(), entries)
        } else {
            None
        },
        None => None,
    }
}

/// Packs a walked directory tree into one archive in memory. Entries are
/// written in the order of the walk, files stored as they are, each
/// directory as an entry of its own, under names that start with the
/// root's own name. A path that does not lie under the root's parent is
/// refused before anything is written; any other failure is the
/// archive's.
pub fn zip_directory_to_memory(root: &str, walked: &Vec<WalkedEntry>) -> (out: Result<Vec<u8>, VaultError>)
    ensures
        packed_archive(root@, walked@) == (match out {
            Ok(bytes) => Some(bytes@),
            Err(_) => None,
        }),
        out matches Err(e) ==> e == (if packed(root@, walked@, walked@.len() as int) is None {
            VaultError::InvalidPath
        } else {
            VaultError::ArchiveFailure
        }),
{
    let root_chars = to_chars(root);
    // names first, so that a path out of place is found before anything is written
    let mut names: Vec<Option<String>> = Vec::new();
    let mut i: usize = 0;
    while i < walked.len()
        invariant
            i <= walked@.len(),
            root_chars@ == root@,
            names@.len() == i,
            packed(root@, walked@, i as int) is Some,
            forall|j: int| 0 <= j < i ==> (#[trigger] names@[j] matches Some(n) && entry_name(
                root@,
                walked@[j].path@,
            ) == Some(n@)),
        decreases walked@.len() - i,
    {
        match archive_name(&root_chars, walked[i].path.as_str()) {
            None => {
                proof {
                    lemma_packed_none(root@, walked@, i as int + 1, walked@.len() as int);
                }
                return Err(VaultError::InvalidPath);
            },
            Some(n) => {
                names.push(Some(n));
            },
        }
        i += 1;
    }
    let settings = stored_settings();
    let ghost all = packed(root@, walked@, walked@.len() as int)->Some_0;
    let mut writer = match archive_new(&settings) {
        Some(w) => w,
        None => { return Err(VaultError::ArchiveFailure); },
    };
    let mut k: usize = 0;
    while k < walked.len()
        invariant
            k <= walked@.len(),
            names@.len() == walked@.len(),
            forall|j: int| 0 <= j < walked@.len() ==> (#[trigger] names@[j] matches Some(n) && entry_name(
                root@,
                walked@[j].path@,
            ) == Some(n@)),
            packed(root@, walked@, k as int) == Some(archive_entries(writer)),
            packed(root@, walked@, walked@.len() as int) == Some(all),
            archive_settings(writer) == packer_settings(),
            writer_accepts(packer_settings(), all, archive_entries(writer).len() as int),
        decreases walked@.len() - k,
    {
        let entry = &walked[k];
        let name = match &names[k] {
            Some(n) => n,
            None => { return Err(VaultError::InvalidPath); },
        };
        let ghost before = archive_entries(writer);
        proof {
            lemma_packed_grows(root@, walked@, k as int, walked@.len() as int);
            lemma_packed_grows(root@, walked@, k as int + 1, walked@.len() as int);
            assert(all.take(before.len() as int) =~= before);
            assert(names@[k as int] matches Some(n) && entry_name(root@, walked@[k as int].path@) == Some(n@));
            let next = packed(root@, walked@, k as int + 1)->Some_0;
            assert(next.is_prefix_of(all));
            match packed_entry(name@, entry.kind, entry.content@) {
                Some(e) => {
                    assert(next == before.push(e));
                    assert(next[before.len() as int] == e);
                    assert(all[before.len() as int] == e);
                },
                None => {
                    assert(next == before);
                },
            }
        }
        match entry.kind {
            WalkedKind::File => {
                if !archive_add_file(&mut writer, name.as_str(), entry.content.as_slice()) {
                    assert(!entry_accepted(packer_settings(), all.take(before.len() as int), all[before.len() as int]));
                    return Err(VaultError::ArchiveFailure);
                }
            },
            WalkedKind::Directory => {
                if name.as_str().unicode_len() > 0 {
                    if !archive_add_directory(&mut writer, name.as_str()) {
                        assert(!entry_accepted(
                            packer_settings(),
                            all.take(before.len() as int),
                            all[before.len() as int],
                        ));
                        return Err(VaultError::ArchiveFailure);
                    }
                }
            },
            WalkedKind::Other => {},
        }
        k += 1;
    }
    assert(archive_entries(writer) == all);
    match archive_finish(writer) {
        Some(bytes) => Ok(bytes),
        None => Err(VaultError::ArchiveFailure),
    }
}

/// Once the entries up to some place cannot be packed, no longer run of
/// entries can.
pub proof fn lemma_packed_none(root: Seq<char>, walked: Seq<WalkedEntry>, at: int, count: int)
    requires
        0 <= at <= count,
        packed(root, walked, at) is None,
    ensures
        packed(root, walked, count) is None,
    decreases count - at,
{
    if at < count {
        lemma_packed_none(root, walked, at, count - 1);
    }
}

/// The archive holds its entries in the order of the walk: an entry that
/// was walked earlier is not written later.
pub proof fn lemma_packed_grows(root: Seq<char>, walked: Seq<WalkedEntry>, fewer: int, more: int)
    requires
        0 <= fewer <= more,
        packed(root, walked, more) is Some,
    ensures
        packed(root, walked, fewer) matches Some(first) && first.is_prefix_of(
            packed(root, walked, more)->Some_0,
        ),
    decreases more - fewer,
{
    if fewer < more {
        lemma_packed_grows(root, walked, fewer, more - 1);
    }
}

} // verus!
