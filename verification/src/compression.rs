//! Compression modes and the level each one selects.

use vstd::prelude::*;
use crate::paths::{extension, file_name, fold_extension, is_word, to_chars};
use crate::text::folded;

verus! {

/// How hard the compressor should work on an input.
#[derive(Clone, Copy, Debug, PartialEq, Eq, Structural)]
pub enum CompressionMode {
    /// Spend no effort on the choice of a level: level 0. The payload
    /// still goes through the compressor, which takes level 0 for its
    /// default level; an envelope always holds a compressed frame, so
    /// there is no way to keep the bytes as they are.
    Store,
    /// Pick a level from the file's extension.
    Auto,
    /// Spend as much effort as the compressor offers.
    Extreme,
}

/// The level that `mode` selects, given whether the input already is in a
/// compressed format. Level 0, for the store mode, is the compressor's
/// own default.
pub open spec fn level_for(mode: CompressionMode, already_compressed: bool) -> i32 {
    match mode {
        CompressionMode::Store => 0,
        CompressionMode::Extreme => 19,
        CompressionMode::Auto => if already_compressed { 1 } else { 3 },
    }
}

/// Computes the compressor level for `mode`.
pub fn compression_level(mode: CompressionMode, already_compressed: bool) -> (level: i32)
    ensures
        level == level_for(mode, already_compressed),
{
    match mode {
        CompressionMode::Store => 0,
        CompressionMode::Extreme => 19,
        CompressionMode::Auto => if already_compressed { 1 } else { 3 },
    }
}

/// Whether `ext`, in lowercase, names a format that already is compressed.
pub open spec fn is_compressed_extension(ext: Seq<char>) -> bool {
    ||| ext == "jpg"@
    ||| ext == "jpeg"@
    ||| ext == "png"@
    ||| ext == "gif"@
    ||| ext == "webp"@
    ||| ext == "zip"@
    ||| ext == "7z"@
    ||| ext == "rar"@
    ||| ext == "gz"@
    ||| ext == "bz2"@
    ||| ext == "xz"@
    ||| ext == "mp4"@
    ||| ext == "mkv"@
    ||| ext == "mov"@
    ||| ext == "avi"@
    ||| ext == "webm"@
    ||| ext == "mp3"@
    ||| ext == "aac"@
    ||| ext == "flac"@
    ||| ext == "wav"@
    ||| ext == "pdf"@
}

/// Whether a file of this name already is in a compressed format, going
/// by its extension without regard to case.
pub open spec fn already_compressed(filename: Seq<char>) -> bool {
    match extension(file_name(filename)) {
        Some(ext) => is_compressed_extension(ext.map_values(|c: char| folded(c))),
        None => false,
    }
}

/// Whether a file of this name already is in a compressed format.
pub fn is_already_compressed(filename: &str) -> (compressed: bool)
    ensures
        compressed == already_compressed(filename@),
{
    let lowered = match fold_extension(filename) {
        Some(e) => e,
        None => { return false; },
    };
    is_word(&lowered, "jpg") || is_word(&lowered, "jpeg") || is_word(&lowered, "png") || is_word(
        &lowered,
        "gif",
    ) || is_word(&lowered, "webp") || is_word(&lowered, "zip") || is_word(&lowered, "7z")
        || is_word(&lowered, "rar") || is_word(&lowered, "gz") || is_word(&lowered, "bz2")
        || is_word(&lowered, "xz") || is_word(&lowered, "mp4") || is_word(&lowered, "mkv")
        || is_word(&lowered, "mov") || is_word(&lowered, "avi") || is_word(&lowered, "webm")
        || is_word(&lowered, "mp3") || is_word(&lowered, "aac") || is_word(&lowered, "flac")
        || is_word(&lowered, "wav") || is_word(&lowered, "pdf")
}

/// The mode that a name stands for: `store`, `extreme`, and `auto` for
/// anything else.
pub open spec fn mode_named(name: Seq<char>) -> CompressionMode {
    if name == "store"@ {
        CompressionMode::Store
    } else if name == "extreme"@ {
        CompressionMode::Extreme
    } else {
        CompressionMode::Auto
    }
}

/// Reads a compression mode from its name.
pub fn mode_from_name(name: &str) -> (mode: CompressionMode)
    ensures
        mode == mode_named(name@),
{
    let chars = to_chars(name);
    if is_word(&chars, "store") {
        CompressionMode::Store
    } else if is_word(&chars, "extreme") {
        CompressionMode::Extreme
    } else {
        CompressionMode::Auto
    }
}

/// The compressor level for a file: what the mode says, where `auto`
/// goes by the file's name.
pub fn level_for_file(mode: CompressionMode, filename: &str) -> (level: i32)
    ensures
        level == level_for(mode, already_compressed(filename@)),
{
    match mode {
        CompressionMode::Store => 0,
        CompressionMode::Extreme => 19,
        CompressionMode::Auto => if is_already_compressed(filename) { 1 } else { 3 },
    }
}

} // verus!
