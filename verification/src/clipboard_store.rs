//! The clipboard sub-vault: recent clipboard contents, kept for a limited
//! time.

use vstd::prelude::*;
use vstd::utf8::encode_utf8;
use crate::paths::{push_chars, to_chars};
use crate::primitives::pattern::{regex_is_match, regex_matches};
use crate::text::{
    char_is_alphanumeric, char_is_lowercase, char_is_numeric, char_is_uppercase, string_push,
    unicode_alphanumeric, unicode_lowercase, unicode_numeric, unicode_uppercase,
};

verus! {

/// One captured clipboard content.
#[derive(Debug, Clone)]
pub struct ClipboardEntry {
    /// Identifies the entry.
    pub id: String,
    /// The captured text.
    pub content: String,
    /// A short form of the text for lists.
    pub preview: String,
    /// What the text looks like: a password, a card number, plain text.
    pub category: String,
    /// When the text was captured, in milliseconds since the epoch.
    pub created_at: i64,
}

/// The list of captured clipboard contents, newest first.
#[derive(Debug)]
pub struct ClipboardVault {
    pub entries: Vec<ClipboardEntry>,
}

/// Milliseconds in one hour.
pub const MS_PER_HOUR: u64 = 3_600_000;

/// Whether an entry created at `created_at` is still within its retention
/// time at `now`.
pub open spec fn is_fresh(created_at: i64, now: i64, retention_hours: u64) -> bool {
    now - created_at < retention_hours * MS_PER_HOUR
}

impl ClipboardVault {
    /// An empty clipboard vault.
    pub fn new() -> (vault: ClipboardVault)
        ensures
            vault.entries@.len() == 0,
    {
        ClipboardVault { entries: Vec::new() }
    }

    /// Drops the entries that are older than the retention time and keeps
    /// the others in their order. Says whether anything was dropped, so
    /// that the caller knows whether to store the vault again.
    pub fn prune_expired(&mut self, now: i64, retention_hours: u64) -> (changed: bool)
        ensures
            final(self).entries@ == old(self).entries@.filter(
                |e: ClipboardEntry| is_fresh(e.created_at, now, retention_hours),
            ),
            changed == (final(self).entries@.len() != old(self).entries@.len()),
    {
        let ghost keep = |e: ClipboardEntry| is_fresh(e.created_at, now, retention_hours);
        let ghost before = self.entries@;
        let total = self.entries.len();
        let mut i: usize = 0;
        let ghost mut k: int = 0;
        proof {
            reveal(Seq::filter);
            assert(before.take(0).filter(keep) =~= self.entries@.take(0));
            assert(self.entries@.skip(0) =~= before.skip(0));
        }
        while i < self.entries.len()
            invariant
                0 <= k <= before.len(),
                i <= self.entries@.len(),
                self.entries@.len() - i == before.len() - k,
                self.entries@.take(i as int) == before.take(k).filter(keep),
                self.entries@.skip(i as int) == before.skip(k),
                keep == (|e: ClipboardEntry| is_fresh(e.created_at, now, retention_hours)),
            decreases before.len() - k,
        {
            let ghost current = self.entries@;
            assert(current[i as int] == current.skip(i as int)[0]);
            assert(before[k] == before.skip(k)[0]);
            let age = now as i128 - self.entries[i].created_at as i128;
            let fresh = age < retention_hours as i128 * 3_600_000i128;
            proof {
                reveal(Seq::filter);
                assert(before.take(k + 1).drop_last() =~= before.take(k));
                assert(before.take(k + 1).last() == before[k]);
                assert(fresh == keep(before[k]));
            }
            proof {
                assert(current.skip(i + 1) =~= current.skip(i as int).skip(1));
                assert(before.skip(k + 1) =~= before.skip(k).skip(1));
            }
            if fresh {
                proof {
                    assert(current.take(i + 1) =~= current.take(i as int).push(current[i as int]));
                }
                i += 1;
            } else {
                self.entries.remove(i);
                proof {
                    assert(self.entries@.take(i as int) =~= current.take(i as int));
                    assert(self.entries@.skip(i as int) =~= current.skip(i + 1));
                }
            }
            proof {
                k = k + 1;
            }
        }
        proof {
            assert(self.entries@.take(i as int) =~= self.entries@);
            assert(before.take(k) =~= before);
        }
        total != self.entries.len()
    }
}

/// What a captured text looks like.
#[derive(Clone, Copy, Debug, PartialEq, Eq, Structural)]
pub enum ContentCategory {
    CreditCard,
    CryptoAddress,
    PotentialPassword,
    ApiKey,
    Text,
}

/// What is counted and noticed in one pass over a text.
pub struct TextFacts {
    /// How many characters are numeric.
    pub numeric: nat,
    /// How many characters are ASCII hex digits.
    pub hex: nat,
    /// How many characters are hyphens.
    pub hyphens: nat,
    pub has_space: bool,
    pub has_upper: bool,
    pub has_lower: bool,
    /// Whether a character is neither a letter nor numeric.
    pub has_special: bool,
}

/// Whether `c` is an ASCII hex digit, of either case.
pub open spec fn is_ascii_hex(c: char) -> bool {
    ('0' <= c && c <= '9') || ('a' <= c && c <= 'f') || ('A' <= c && c <= 'F')
}

/// The facts of the first `count` characters of `text`.
pub open spec fn facts_of(text: Seq<char>, count: int) -> TextFacts
    decreases count,
{
    if count <= 0 {
        TextFacts {
            numeric: 0,
            hex: 0,
            hyphens: 0,
            has_space: false,
            has_upper: false,
            has_lower: false,
            has_special: false,
        }
    } else {
        let f = facts_of(text, count - 1);
        let c = text[count - 1];
        TextFacts {
            numeric: if unicode_numeric(c) { f.numeric + 1 } else { f.numeric },
            hex: if is_ascii_hex(c) { f.hex + 1 } else { f.hex },
            hyphens: if c == '-' { f.hyphens + 1 } else { f.hyphens },
            has_space: f.has_space || c == ' ',
            has_upper: f.has_upper || unicode_uppercase(c),
            has_lower: f.has_lower || unicode_lowercase(c),
            has_special: f.has_special || !unicode_alphanumeric(c),
        }
    }
}

/// The pattern that a card number matches: 13 to 19 digits, with spaces
/// or hyphens between them, standing alone.
pub open spec fn card_pattern() -> Seq<char> {
    "\\b(?:\\d[ -]*?){13,19}\\b"@
}

/// What a text looks like. The first of these that holds decides:
/// a card number; the address of a crypto wallet; a token made of hex
/// digits and hyphens; an API key; a password. Anything else is text.
pub open spec fn category_of(text: Seq<char>) -> ContentCategory {
    let f = facts_of(text, text.len() as int);
    let len = encode_utf8(text).len();
    if regex_matches(card_pattern(), text) == Some(true) && 13 <= f.numeric <= 19 {
        ContentCategory::CreditCard
    } else if ("0x"@.is_prefix_of(text) && len == 42) || ("1"@.is_prefix_of(text) && 26 <= len <= 35) {
        ContentCategory::CryptoAddress
    } else if len >= 16 && f.hyphens >= 1 && f.hex + f.hyphens == len {
        ContentCategory::PotentialPassword
    } else if "sk-"@.is_prefix_of(text) || "ghp_"@.is_prefix_of(text) || (len > 30 && !f.has_space) {
        ContentCategory::ApiKey
    } else if !f.has_space && f.has_upper && f.has_lower && f.numeric > 0 && len >= 8 {
        ContentCategory::PotentialPassword
    } else if !f.has_space && f.has_lower && f.numeric > 0 && f.has_special && len >= 10 {
        ContentCategory::PotentialPassword
    } else {
        ContentCategory::Text
    }
}

/// The name of a category, as it is stored.
pub open spec fn category_label(category: ContentCategory) -> Seq<char> {
    match category {
        ContentCategory::CreditCard => "Credit Card"@,
        ContentCategory::CryptoAddress => "Crypto Address"@,
        ContentCategory::PotentialPassword => "Potential Password"@,
        ContentCategory::ApiKey => "API Key"@,
        ContentCategory::Text => "Text"@,
    }
}

/// What was counted in a text, as machine numbers.
struct Counted {
    numeric: usize,
    hex: usize,
    hyphens: usize,
    has_space: bool,
    has_upper: bool,
    has_lower: bool,
    has_special: bool,
}

/// Goes over a text once and counts.
fn count_facts(chars: &Vec<char>) -> (out: Counted)
    ensures
        out.numeric == facts_of(chars@, chars@.len() as int).numeric,
        out.hex == facts_of(chars@, chars@.len() as int).hex,
        out.hyphens == facts_of(chars@, chars@.len() as int).hyphens,
        out.has_space == facts_of(chars@, chars@.len() as int).has_space,
        out.has_upper == facts_of(chars@, chars@.len() as int).has_upper,
        out.has_lower == facts_of(chars@, chars@.len() as int).has_lower,
        out.has_special == facts_of(chars@, chars@.len() as int).has_special,
{
    let mut out = Counted {
        numeric: 0,
        hex: 0,
        hyphens: 0,
        has_space: false,
        has_upper: false,
        has_lower: false,
        has_special: false,
    };
    let mut i: usize = 0;
    while i < chars.len()
        invariant
            i <= chars@.len(),
            out.numeric == facts_of(chars@, i as int).numeric,
            out.hex == facts_of(chars@, i as int).hex,
            out.hyphens == facts_of(chars@, i as int).hyphens,
            out.has_space == facts_of(chars@, i as int).has_space,
            out.has_upper == facts_of(chars@, i as int).has_upper,
            out.has_lower == facts_of(chars@, i as int).has_lower,
            out.has_special == facts_of(chars@, i as int).has_special,
            out.numeric <= i,
            out.hex <= i,
            out.hyphens <= i,
        decreases chars@.len() - i,
    {
        let c = chars[i];
        if char_is_numeric(c) {
            out.numeric = out.numeric + 1;
        }
        if ('0' <= c && c <= '9') || ('a' <= c && c <= 'f') || ('A' <= c && c <= 'F') {
            out.hex = out.hex + 1;
        }
        if c == '-' {
            out.hyphens = out.hyphens + 1;
        }
        if c == ' ' {
            out.has_space = true;
        }
        if char_is_uppercase(c) {
            out.has_upper = true;
        }
        if char_is_lowercase(c) {
            out.has_lower = true;
        }
        if !char_is_alphanumeric(c) {
            out.has_special = true;
        }
        i += 1;
    }
    out
}

/// Whether `chars` starts with the characters of `literal`.
fn starts_with(chars: &Vec<char>, literal: &str) -> (yes: bool)
    ensures
        yes == literal@.is_prefix_of(chars@),
{
    let word = to_chars(literal);
    if word.len() > chars.len() {
        return false;
    }
    let mut i: usize = 0;
    while i < word.len()
        invariant
            i <= word@.len(),
            word@.len() <= chars@.len(),
            word@ == literal@,
            forall|j: int| 0 <= j < i ==> word@[j] == chars@[j],
        decreases word@.len() - i,
    {
        if word[i] != chars[i] {
            assert(chars@.subrange(0, word@.len() as int)[i as int] != word@[i as int]);
            return false;
        }
        i += 1;
    }
    assert(word@ =~= chars@.subrange(0, word@.len() as int));
    true
}

/// Tells what a text looks like.
pub fn categorize(text: &str) -> (category: ContentCategory)
    ensures
        category == category_of(text@),
{
    let chars = to_chars(text);
    let f = count_facts(&chars);
    let len = text.as_bytes().len();
    let card = match regex_is_match("\\b(?:\\d[ -]*?){13,19}\\b", text) {
        Some(m) => m,
        None => false,
    };
    if card && 13 <= f.numeric && f.numeric <= 19 {
        ContentCategory::CreditCard
    } else if (starts_with(&chars, "0x") && len == 42) || (starts_with(&chars, "1") && 26 <= len && len
        <= 35) {
        ContentCategory::CryptoAddress
    } else if len >= 16 && f.hyphens >= 1 && f.hex as u128 + f.hyphens as u128 == len as u128 {
        ContentCategory::PotentialPassword
    } else if starts_with(&chars, "sk-") || starts_with(&chars, "ghp_") || (len > 30 && !f.has_space) {
        ContentCategory::ApiKey
    } else if !f.has_space && f.has_upper && f.has_lower && f.numeric > 0 && len >= 8 {
        ContentCategory::PotentialPassword
    } else if !f.has_space && f.has_lower && f.numeric > 0 && f.has_special && len >= 10 {
        ContentCategory::PotentialPassword
    } else {
        ContentCategory::Text
    }
}

/// The name of a category, as it is stored.
pub fn label_of(category: ContentCategory) -> (label: String)
    ensures
        label@ == category_label(category),
{
    match category {
        ContentCategory::CreditCard => "Credit Card".to_owned(),
        ContentCategory::CryptoAddress => "Crypto Address".to_owned(),
        ContentCategory::PotentialPassword => "Potential Password".to_owned(),
        ContentCategory::ApiKey => "API Key".to_owned(),
        ContentCategory::Text => "Text".to_owned(),
    }
}

/// Tells what a text looks like, by name.
pub fn analyze_content(text: &str) -> (out: Option<String>)
    ensures
        out matches Some(label) && label@ == category_label(category_of(text@)),
{
    Some(label_of(categorize(text)))
}

/// How many characters a preview shows of a longer text.
pub const PREVIEW_LEN: usize = 20;

/// `c` with a line feed made a space.
pub open spec fn on_one_line(c: char) -> char {
    if c == '\n' {
        ' '
    } else {
        c
    }
}

/// The short form of a text: the text itself up to 20 characters, else
/// its first 20 characters on one line and three dots.
pub open spec fn preview_of(text: Seq<char>) -> Seq<char> {
    if text.len() > PREVIEW_LEN {
        text.take(PREVIEW_LEN as int).map_values(|c: char| on_one_line(c)) + "..."@
    } else {
        text
    }
}

/// Makes the entry for a captured text, with the identifier and the time
/// given.
pub fn create_entry(text: &str, id: String, created_at: i64) -> (entry: ClipboardEntry)
    ensures
        entry.id@ == id@,
        entry.content@ == text@,
        entry.preview@ == preview_of(text@),
        entry.category@ == category_label(category_of(text@)),
        entry.created_at == created_at,
{
    let category = label_of(categorize(text));
    let chars = to_chars(text);
    let preview = if chars.len() > PREVIEW_LEN {
        let mut short = String::new();
        let mut i: usize = 0;
        assert(short@ =~= chars@.take(0).map_values(|c: char| on_one_line(c)));
        while i < PREVIEW_LEN
            invariant
                i <= PREVIEW_LEN < chars@.len(),
                short@ == chars@.take(i as int).map_values(|c: char| on_one_line(c)),
            decreases PREVIEW_LEN - i,
        {
            let c = chars[i];
            string_push(&mut short, if c == '\n' { ' ' } else { c });
            assert(short@ =~= chars@.take(i + 1).map_values(|c: char| on_one_line(c)));
            i += 1;
        }
        let dots = to_chars("...");
        let ghost before = short@;
        push_chars(&mut short, &dots, 0, dots.len());
        assert(short@ =~= before + "..."@);
        short
    } else {
        text.to_owned()
    };
    ClipboardEntry { id, content: text.to_owned(), preview, category, created_at }
}

} // verus!
