//! The bookmarks sub-vault.

use vstd::prelude::*;
use crate::error::VaultError;
use crate::paths::{push_chars, to_chars};
use crate::primitives::ids::fresh_uuid;

verus! {

/// One bookmark.
#[derive(Debug, Clone)]
pub struct BookmarkEntry {
    /// Identifies the bookmark for updates and deletions.
    pub id: String,
    /// The title shown in the list.
    pub title: String,
    /// The address the bookmark points to.
    pub url: String,
    /// The folder path the bookmark is filed under.
    pub category: String,
    /// When the bookmark was created, in milliseconds since the epoch.
    pub created_at: i64,
    /// Whether the bookmark is pinned to the top.
    pub is_pinned: bool,
    /// The colour of the bookmark's card, as a hex code.
    pub color: String,
}

/// The list of all bookmarks.
#[derive(Debug)]
pub struct BookmarksVault {
    pub entries: Vec<BookmarkEntry>,
}

impl BookmarksVault {
    /// An empty bookmarks vault.
    pub fn new() -> (vault: BookmarksVault)
        ensures
            vault.entries@.len() == 0,
    {
        BookmarksVault { entries: Vec::new() }
    }
}

/// What a node of a browser's bookmark tree is.
#[derive(Clone, Copy, Debug, PartialEq, Eq, Structural)]
pub enum NodeKind {
    /// A bookmark.
    Url,
    /// A folder of bookmarks and folders.
    Folder,
    /// Anything else. It is passed over.
    Other,
}

/// A node of a browser's bookmark tree.
#[derive(Debug)]
pub struct BookmarkNode {
    pub kind: NodeKind,
    /// The node's name, where it has one.
    pub name: Option<String>,
    /// The address of a bookmark, where it has one.
    pub url: Option<String>,
    /// What the node holds.
    pub children: Vec<BookmarkNode>,
}

/// A bookmark found in a browser's tree: its title, its address, and the
/// folders it was found under.
pub struct FoundBookmark {
    pub title: Seq<char>,
    pub url: Seq<char>,
    pub category: Seq<char>,
}

/// The text of an optional string, or `fallback` where there is none.
pub open spec fn text_or(s: Option<String>, fallback: Seq<char>) -> Seq<char> {
    match s {
        Some(t) => t@,
        None => fallback,
    }
}

/// The category of what a folder holds: the folder's name after the
/// category it is found under.
pub open spec fn folder_category(category: Seq<char>, folder: BookmarkNode) -> Seq<char> {
    category + " > "@ + text_or(folder.name, "Folder"@)
}

/// The bookmarks among the first `count` nodes that `node` holds, with
/// those of the folders among them, in the order of the tree. A bookmark
/// without an address is passed over.
pub open spec fn found_in(node: BookmarkNode, category: Seq<char>, count: nat) -> Seq<FoundBookmark>
    decreases node, count,
{
    if count == 0 || count > node.children@.len() {
        Seq::empty()
    } else {
        let child = node.children@[count - 1];
        found_in(node, category, (count - 1) as nat) + (match child.kind {
            NodeKind::Url => if text_or(child.url, Seq::empty()).len() > 0 {
                seq![
                    FoundBookmark {
                        title: text_or(child.name, "Untitled"@),
                        url: text_or(child.url, Seq::empty()),
                        category,
                    },
                ]
            } else {
                Seq::empty()
            },
            NodeKind::Folder => found_in(child, folder_category(category, child), child.children@.len()),
            NodeKind::Other => Seq::empty(),
        })
    }
}

/// What was found, as far as an entry tells it.
pub open spec fn found_of(entries: Seq<BookmarkEntry>) -> Seq<FoundBookmark> {
    entries.map_values(
        |e: BookmarkEntry| FoundBookmark { title: e.title@, url: e.url@, category: e.category@ },
    )
}

/// The colour that imported bookmarks get.
pub open spec fn import_color() -> Seq<char> {
    "#10b981"@
}

/// That entries are fresh imports: created at `now`, not pinned, in the
/// import colour.
pub open spec fn all_imported(entries: Seq<BookmarkEntry>, now: i64) -> bool {
    forall|i: int|
        0 <= i < entries.len() ==> (#[trigger] entries[i]).created_at == now && !entries[i].is_pinned
            && entries[i].color@ == import_color()
}

/// `a`, then ` > `, then `b`.
fn join_category(a: &str, b: &str) -> (out: String)
    ensures
        out@ == a@ + " > "@ + b@,
{
    let first = to_chars(a);
    let mid = to_chars(" > ");
    let last = to_chars(b);
    let mut out = String::new();
    push_chars(&mut out, &first, 0, first.len());
    push_chars(&mut out, &mid, 0, mid.len());
    push_chars(&mut out, &last, 0, last.len());
    assert(out@ =~= a@ + " > "@ + b@);
    out
}

/// Walks what `node` holds and adds every bookmark found to `results`,
/// filed under `category`; what a folder holds is filed under the
/// folder's name after `category`. Each entry gets a fresh identifier.
/// What `results` held before stays in front. The walk fails only where
/// the operating system's random source does, and then stops.
pub fn parse_node(node: &BookmarkNode, category: &str, now: i64, results: &mut Vec<BookmarkEntry>) -> (out:
    Result<(), VaultError>)
    ensures
        final(results)@.len() >= old(results)@.len(),
        final(results)@.take(old(results)@.len() as int) == old(results)@,
        out is Ok ==> found_of(final(results)@.skip(old(results)@.len() as int)) == found_in(
            *node,
            category@,
            node.children@.len(),
        ),
        all_imported(final(results)@.skip(old(results)@.len() as int), now),
        out matches Err(e) ==> e == VaultError::IOFailure,
    decreases node,
{
    let ghost start = results@;
    let ghost n = start.len() as int;
    let mut i: usize = 0;
    proof {
        assert(results@.skip(n) =~= Seq::<BookmarkEntry>::empty());
        assert(found_of(results@.skip(n)) =~= found_in(*node, category@, 0));
        assert(results@.take(n) =~= start);
    }
    while i < node.children.len()
        invariant
            i <= node.children@.len(),
            n == start.len(),
            start == old(results)@,
            results@.len() >= n,
            results@.take(n) == start,
            found_of(results@.skip(n)) == found_in(*node, category@, i as nat),
            all_imported(results@.skip(n), now),
        decreases node.children@.len() - i,
    {
        let child = &node.children[i];
        let ghost before = results@;
        match child.kind {
            NodeKind::Url => {
                let url = match &child.url {
                    Some(u) => u.clone(),
                    None => String::new(),
                };
                if to_chars(url.as_str()).len() > 0 {
                    let title = match &child.name {
                        Some(n) => n.clone(),
                        None => "Untitled".to_owned(),
                    };
                    let id = match fresh_uuid() {
                        Ok(id) => id,
                        Err(e) => { return Err(e); },
                    };
                    results.push(
                        BookmarkEntry {
                            id,
                            title,
                            url,
                            category: category.to_owned(),
                            created_at: now,
                            is_pinned: false,
                            color: "#10b981".to_owned(),
                        },
                    );
                    proof {
                        let found = FoundBookmark {
                            title: text_or(child.name, "Untitled"@),
                            url: text_or(child.url, Seq::empty()),
                            category: category@,
                        };
                        assert(results@.skip(n) =~= before.skip(n).push(results@.last()));
                        assert(found_of(results@.skip(n)) =~= found_of(before.skip(n)).push(found));
                        assert(found_of(before.skip(n)).push(found) =~= found_in(*node, category@, i as nat)
                            + seq![found]);
                        assert(results@.take(n) =~= before.take(n));
                    }
                } else {
                    proof {
                        assert(found_in(*node, category@, i as nat) + Seq::<FoundBookmark>::empty()
                            =~= found_in(*node, category@, i as nat));
                    }
                }
            },
            NodeKind::Folder => {
                let name = match &child.name {
                    Some(n) => n.clone(),
                    None => "Folder".to_owned(),
                };
                let inner = join_category(category, name.as_str());
                let walked = parse_node(child, inner.as_str(), now, results);
                proof {
                    let m = before.len() as int;
                    assert(results@.take(n) =~= results@.take(m).take(n));
                    assert(results@.skip(n) =~= before.skip(n) + results@.skip(m)) by {
                        assert(results@.take(m) == before);
                        assert(results@ =~= results@.take(m) + results@.skip(m));
                    }
                    assert(found_of(results@.skip(n)) =~= found_of(before.skip(n)) + found_of(
                        results@.skip(m),
                    ));
                }
                match walked {
                    Ok(()) => {},
                    Err(e) => { return Err(e); },
                }
            },
            NodeKind::Other => {
                proof {
                    assert(found_in(*node, category@, i as nat) + Seq::<FoundBookmark>::empty()
                        =~= found_in(*node, category@, i as nat));
                }
            },
        }
        i += 1;
    }
    Ok(())
}

/// Turns the three roots of a browser's bookmark tree into entries: the
/// bookmarks bar, the other bookmarks and the mobile bookmarks, in this
/// order, each under its own name. A root that is missing adds nothing.
/// Fails only where the operating system's random source does.
pub fn import_chrome_bookmarks(
    bookmark_bar: Option<&BookmarkNode>,
    other: Option<&BookmarkNode>,
    synced: Option<&BookmarkNode>,
    now: i64,
) -> (out: Result<Vec<BookmarkEntry>, VaultError>)
    ensures
        out matches Ok(entries) ==> found_of(entries@) == roots_found(bookmark_bar, "Bookmarks Bar"@)
            + roots_found(other, "Other Bookmarks"@) + roots_found(synced, "Mobile Bookmarks"@)
            && all_imported(entries@, now),
        out matches Err(e) ==> e == VaultError::IOFailure,
{
    let mut entries: Vec<BookmarkEntry> = Vec::new();
    match add_root(bookmark_bar, "Bookmarks Bar", now, &mut entries) {
        Ok(()) => {},
        Err(e) => { return Err(e); },
    }
    match add_root(other, "Other Bookmarks", now, &mut entries) {
        Ok(()) => {},
        Err(e) => { return Err(e); },
    }
    match add_root(synced, "Mobile Bookmarks", now, &mut entries) {
        Ok(()) => {},
        Err(e) => { return Err(e); },
    }
    proof {
        let a = roots_found(bookmark_bar, "Bookmarks Bar"@);
        let b = roots_found(other, "Other Bookmarks"@);
        let c = roots_found(synced, "Mobile Bookmarks"@);
        assert(Seq::<FoundBookmark>::empty() + a + b + c =~= a + b + c);
    }
    Ok(entries)
}

/// Adds what is found under one root, where the root is there.
fn add_root(root: Option<&BookmarkNode>, category: &str, now: i64, entries: &mut Vec<BookmarkEntry>) -> (out:
    Result<(), VaultError>)
    requires
        all_imported(old(entries)@, now),
    ensures
        out is Ok ==> found_of(final(entries)@) == found_of(old(entries)@) + roots_found(root, category@),
        all_imported(final(entries)@, now),
        out matches Err(e) ==> e == VaultError::IOFailure,
{
    let ghost before = entries@;
    match root {
        Some(node) => {
            let walked = parse_node(node, category, now, entries);
            proof {
                let m = before.len() as int;
                assert(entries@ =~= entries@.take(m) + entries@.skip(m));
                assert(found_of(entries@) =~= found_of(before) + found_of(entries@.skip(m)));
                assert forall|i: int| 0 <= i < entries@.len() implies (#[trigger] entries@[i]).created_at
                    == now && !entries@[i].is_pinned && entries@[i].color@ == import_color() by {
                    if i < m {
                        assert(entries@[i] == entries@.take(m)[i]);
                    } else {
                        assert(entries@[i] == entries@.skip(m)[i - m]);
                    }
                }
            }
            walked
        },
        None => {
            assert(found_of(before) + Seq::<FoundBookmark>::empty() =~= found_of(before));
            Ok(())
        },
    }
}

/// What is found under one root, or nothing where the root is missing.
pub open spec fn roots_found(root: Option<&BookmarkNode>, category: Seq<char>) -> Seq<FoundBookmark> {
    match root {
        Some(node) => found_in(*node, category, node.children@.len()),
        None => Seq::empty(),
    }
}

} // verus!
