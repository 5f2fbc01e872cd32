//! Metadata in files: what a file of a given type is reported to carry,
//! where the cleaned copy goes, and which parts of a file are metadata.

use vstd::prelude::*;
use crate::error::VaultError;
use crate::paths::{
    extension, file_name, find_dot, find_name_start, fold_extension, is_word,
    lemma_dot_index_bounds, name_chars, parent_part, push_chars, stem, to_chars,
};
use crate::text::folded;

verus! {

/// What a file was found to carry.
#[derive(Debug)]
pub struct MetadataReport {
    pub has_gps: bool,
    pub has_author: bool,
    pub camera_info: Option<String>,
    pub software_info: Option<String>,
    pub creation_date: Option<String>,
    pub file_type: String,
}

/// What was read from the EXIF block of an image, as far as the report
/// needs it.
#[derive(Debug)]
pub struct ExifFacts {
    /// Whether a GPS latitude is present.
    pub has_gps_latitude: bool,
    /// The camera model, as displayed.
    pub model: Option<String>,
    /// The date and time, as displayed.
    pub date_time: Option<String>,
    /// Whether an artist is named.
    pub has_artist: bool,
    /// Whether a copyright notice is present.
    pub has_copyright: bool,
}

/// The kinds of file that are told apart by extension.
#[derive(Clone, Copy, Debug, PartialEq, Eq, Structural)]
pub enum FileKind {
    Jpeg,
    Png,
    /// An image that can be analysed, but not cleaned: WebP or TIFF.
    OtherImage,
    Pdf,
    /// A word-processor, spreadsheet or presentation document.
    Office,
    Zip,
    Unsupported,
}

/// The kind that a lowercase extension stands for.
pub open spec fn kind_of_extension(ext: Seq<char>) -> FileKind {
    if ext == "jpg"@ || ext == "jpeg"@ {
        FileKind::Jpeg
    } else if ext == "png"@ {
        FileKind::Png
    } else if ext == "webp"@ || ext == "tiff"@ {
        FileKind::OtherImage
    } else if ext == "pdf"@ {
        FileKind::Pdf
    } else if ext == "docx"@ || ext == "xlsx"@ || ext == "pptx"@ {
        FileKind::Office
    } else if ext == "zip"@ {
        FileKind::Zip
    } else {
        FileKind::Unsupported
    }
}

/// The extension of a path in lowercase, or the empty string where it has
/// none.
pub open spec fn lowered_extension(path: Seq<char>) -> Seq<char> {
    match extension(file_name(path)) {
        Some(ext) => ext.map_values(|c: char| folded(c)),
        None => Seq::empty(),
    }
}

/// The kind of the file at `path`, going by its extension without regard
/// to case.
pub open spec fn kind_of(path: Seq<char>) -> FileKind {
    kind_of_extension(lowered_extension(path))
}

/// The extension of a path in lowercase.
pub fn lowercase_extension(path: &str) -> (out: Vec<char>)
    ensures
        out@ == lowered_extension(path@),
{
    match fold_extension(path) {
        Some(e) => e,
        None => Vec::new(),
    }
}

/// Tells the kind of a file from its path.
pub fn classify(path: &str) -> (kind: FileKind)
    ensures
        kind == kind_of(path@),
{
    let ext = lowercase_extension(path);
    if is_word(&ext, "jpg") || is_word(&ext, "jpeg") {
        FileKind::Jpeg
    } else if is_word(&ext, "png") {
        FileKind::Png
    } else if is_word(&ext, "webp") || is_word(&ext, "tiff") {
        FileKind::OtherImage
    } else if is_word(&ext, "pdf") {
        FileKind::Pdf
    } else if is_word(&ext, "docx") || is_word(&ext, "xlsx") || is_word(&ext, "pptx") {
        FileKind::Office
    } else if is_word(&ext, "zip") {
        FileKind::Zip
    } else {
        FileKind::Unsupported
    }
}

/// Whether files of this kind can be analysed.
pub open spec fn can_analyze(kind: FileKind) -> bool {
    kind == FileKind::Jpeg || kind == FileKind::Png || kind == FileKind::OtherImage || kind
        == FileKind::Pdf || kind == FileKind::Office
}

/// Whether files of this kind can be cleaned.
pub open spec fn can_clean(kind: FileKind) -> bool {
    kind == FileKind::Jpeg || kind == FileKind::Png || kind == FileKind::Pdf || kind
        == FileKind::Office || kind == FileKind::Zip
}

/// Whether files of this kind are images, whose EXIF block is read.
pub open spec fn is_image(kind: FileKind) -> bool {
    kind == FileKind::Jpeg || kind == FileKind::Png || kind == FileKind::OtherImage
}

/// The view of an optional string.
pub open spec fn opt_text(s: Option<String>) -> Option<Seq<char>> {
    match s {
        Some(t) => Some(t@),
        None => None,
    }
}

/// Reports what the file at `path` carries. For an image the report
/// follows what was read from its EXIF block; an image without a readable
/// block is reported clean. Documents are reported as carrying an author
/// and the name of the software family that writes them.
pub fn analyze_file(path: &str, exif: Option<ExifFacts>) -> (out: Result<MetadataReport, VaultError>)
    ensures
        out is Ok <==> can_analyze(kind_of(path@)),
        out matches Err(e) ==> e == VaultError::UnsupportedFileType,
        out matches Ok(r) ==> {
            if is_image(kind_of(path@)) {
                &&& r.file_type@ == "Image"@
                &&& r.software_info is None
                &&& match exif {
                    Some(x) => {
                        &&& r.has_gps == x.has_gps_latitude
                        &&& r.has_author == (x.has_artist || x.has_copyright)
                        &&& opt_text(r.camera_info) == opt_text(x.model)
                        &&& opt_text(r.creation_date) == opt_text(x.date_time)
                    },
                    None => !r.has_gps && !r.has_author && r.camera_info is None && r.creation_date is None,
                }
            } else {
                &&& !r.has_gps
                &&& r.has_author
                &&& r.camera_info is None
                &&& r.creation_date is None
                &&& kind_of(path@) == FileKind::Pdf ==> r.file_type@ == "PDF Document"@ && opt_text(
                    r.software_info,
                ) == Some("PDF Generator"@)
                &&& kind_of(path@) == FileKind::Office ==> r.file_type@ == "Office Document"@
                    && opt_text(r.software_info) == Some("Microsoft Office"@)
            }
        },
{
    match classify(path) {
        FileKind::Jpeg | FileKind::Png | FileKind::OtherImage => Ok(analyze_image(exif)),
        FileKind::Pdf => Ok(analyze_pdf()),
        FileKind::Office => Ok(analyze_office()),
        _ => Err(VaultError::UnsupportedFileType),
    }
}

/// The report for an image.
pub fn analyze_image(exif: Option<ExifFacts>) -> (r: MetadataReport)
    ensures
        r.file_type@ == "Image"@,
        r.software_info is None,
        match exif {
            Some(x) => {
                &&& r.has_gps == x.has_gps_latitude
                &&& r.has_author == (x.has_artist || x.has_copyright)
                &&& opt_text(r.camera_info) == opt_text(x.model)
                &&& opt_text(r.creation_date) == opt_text(x.date_time)
            },
            None => !r.has_gps && !r.has_author && r.camera_info is None && r.creation_date is None,
        },
{
    match exif {
        Some(x) => MetadataReport {
            has_gps: x.has_gps_latitude,
            has_author: x.has_artist || x.has_copyright,
            camera_info: x.model,
            software_info: None,
            creation_date: x.date_time,
            file_type: "Image".to_owned(),
        },
        None => MetadataReport {
            has_gps: false,
            has_author: false,
            camera_info: None,
            software_info: None,
            creation_date: None,
            file_type: "Image".to_owned(),
        },
    }
}

/// The report for a PDF document.
pub fn analyze_pdf() -> (r: MetadataReport)
    ensures
        !r.has_gps,
        r.has_author,
        r.camera_info is None,
        r.creation_date is None,
        opt_text(r.software_info) == Some("PDF Generator"@),
        r.file_type@ == "PDF Document"@,
{
    MetadataReport {
        has_gps: false,
        has_author: true,
        camera_info: None,
        software_info: Some("PDF Generator".to_owned()),
        creation_date: None,
        file_type: "PDF Document".to_owned(),
    }
}

/// The report for an office document.
pub fn analyze_office() -> (r: MetadataReport)
    ensures
        !r.has_gps,
        r.has_author,
        r.camera_info is None,
        r.creation_date is None,
        opt_text(r.software_info) == Some("Microsoft Office"@),
        r.file_type@ == "Office Document"@,
{
    MetadataReport {
        has_gps: false,
        has_author: true,
        camera_info: None,
        software_info: Some("Microsoft Office".to_owned()),
        creation_date: None,
        file_type: "Office Document".to_owned(),
    }
}

/// Where the cleaned copy of `path` goes: beside it, under the stem with
/// `_clean` added and the extension in lowercase.
pub open spec fn cleaned_path(path: Seq<char>) -> Seq<char> {
    parent_part(path) + stem(file_name(path)) + "_clean."@ + lowered_extension(path)
}

/// What is to be done to clean a file.
#[derive(Debug)]
pub struct CleanPlan {
    /// How the file is to be cleaned: by its kind.
    pub kind: FileKind,
    /// Where the cleaned copy is written.
    pub output_path: String,
}

/// Plans the cleaning of the file at `path`: tells how it is to be
/// cleaned and where the cleaned copy goes.
pub fn remove_metadata(path: &str) -> (out: Result<CleanPlan, VaultError>)
    ensures
        out is Ok <==> can_clean(kind_of(path@)),
        out matches Err(e) ==> e == VaultError::UnsupportedFileType,
        out matches Ok(plan) ==> plan.kind == kind_of(path@) && plan.output_path@ == cleaned_path(path@),
{
    let kind = classify(path);
    match kind {
        FileKind::Jpeg | FileKind::Png | FileKind::Pdf | FileKind::Office | FileKind::Zip => {},
        _ => { return Err(VaultError::UnsupportedFileType); },
    }
    let chars = to_chars(path);
    let start = find_name_start(&chars);
    let name = name_chars(&chars);
    assert(name@.skip(0) =~= name@);
    let stem_len = match find_dot(&name, 0) {
        Some(i) => if i == 0 {
            name.len()
        } else {
            i
        },
        None => name.len(),
    };
    let ext = lowercase_extension(path);
    let mut output_path = String::new();
    push_chars(&mut output_path, &chars, 0, start);
    push_chars(&mut output_path, &name, 0, stem_len);
    let suffix = to_chars("_clean.");
    push_chars(&mut output_path, &suffix, 0, suffix.len());
    push_chars(&mut output_path, &ext, 0, ext.len());
    proof {
        lemma_dot_index_bounds(name@);
        assert(chars@.subrange(0, start as int) =~= parent_part(path@));
        assert(name@.subrange(0, stem_len as int) =~= stem(name@));
        assert(suffix@.subrange(0, suffix@.len() as int) =~= suffix@);
        assert(ext@.subrange(0, ext@.len() as int) =~= ext@);
        assert(output_path@ =~= cleaned_path(path@));
    }
    Ok(CleanPlan { kind, output_path })
}

/// Whether a JPEG segment with this marker is metadata: an application
/// segment other than the first (EXIF, XMP, IPTC and the like), or a
/// comment.
pub open spec fn is_jpeg_metadata(marker: u8) -> bool {
    (0xE1 <= marker && marker <= 0xEF) || marker == 0xFE
}

/// Whether a JPEG segment is kept when a file is cleaned.
pub fn keep_jpeg_segment(marker: u8) -> (keep: bool)
    ensures
        keep == !is_jpeg_metadata(marker),
{
    !((0xE1 <= marker && marker <= 0xEF) || marker == 0xFE)
}

/// Whether a PNG chunk of this type is metadata.
pub open spec fn is_png_metadata(kind: Seq<u8>) -> bool {
    ||| kind == seq![0x65u8, 0x58, 0x49, 0x66]
    ||| kind == seq![0x74u8, 0x45, 0x58, 0x74]
    ||| kind == seq![0x7au8, 0x54, 0x58, 0x74]
    ||| kind == seq![0x69u8, 0x54, 0x58, 0x74]
    ||| kind == seq![0x74u8, 0x49, 0x4d, 0x45]
    ||| kind == seq![0x70u8, 0x48, 0x59, 0x73]
    ||| kind == seq![0x69u8, 0x43, 0x43, 0x50]
    ||| kind == seq![0x63u8, 0x48, 0x52, 0x4d]
    ||| kind == seq![0x73u8, 0x52, 0x47, 0x42]
    ||| kind == seq![0x67u8, 0x41, 0x4d, 0x41]
    ||| kind == seq![0x62u8, 0x4b, 0x47, 0x44]
    ||| kind == seq![0x68u8, 0x69, 0x73, 0x74]
}

/// Whether `kind` is the four bytes given.
fn is_chunk(kind: &[u8; 4], a: u8, b: u8, c: u8, d: u8) -> (same: bool)
    ensures
        same == (kind@ == seq![a, b, c, d]),
{
    let same = kind[0] == a && kind[1] == b && kind[2] == c && kind[3] == d;
    proof {
        if same {
            assert(kind@ =~= seq![a, b, c, d]);
        } else {
            assert(seq![a, b, c, d][0] == a);
            assert(seq![a, b, c, d][1] == b);
            assert(seq![a, b, c, d][2] == c);
            assert(seq![a, b, c, d][3] == d);
        }
    }
    same
}

/// Whether a PNG chunk is kept when a file is cleaned.
pub fn keep_png_chunk(kind: &[u8; 4]) -> (keep: bool)
    ensures
        keep == !is_png_metadata(kind@),
{
    !(is_chunk(kind, 0x65, 0x58, 0x49, 0x66) || is_chunk(kind, 0x74, 0x45, 0x58, 0x74) || is_chunk(
        kind,
        0x7a,
        0x54,
        0x58,
        0x74,
    ) || is_chunk(kind, 0x69, 0x54, 0x58, 0x74) || is_chunk(kind, 0x74, 0x49, 0x4d, 0x45)
        || is_chunk(kind, 0x70, 0x48, 0x59, 0x73) || is_chunk(kind, 0x69, 0x43, 0x43, 0x50)
        || is_chunk(kind, 0x63, 0x48, 0x52, 0x4d) || is_chunk(kind, 0x73, 0x52, 0x47, 0x42)
        || is_chunk(kind, 0x67, 0x41, 0x4d, 0x41) || is_chunk(kind, 0x62, 0x4b, 0x47, 0x44)
        || is_chunk(kind, 0x68, 0x69, 0x73, 0x74))
}

/// The `len` characters of `hay` that start at `at`.
pub open spec fn window(hay: Seq<char>, at: int, len: nat) -> Seq<char> {
    hay.subrange(at, at + len)
}

/// Whether `needle` occurs somewhere in `hay`.
pub open spec fn occurs_in(needle: Seq<char>, hay: Seq<char>) -> bool {
    exists|i: int| 0 <= i && i + needle.len() <= hay.len() && #[trigger] window(hay, i, needle.len()) == needle
}

/// Whether `needle` stands in `hay` at `at`.
fn occurs_at(hay: &Vec<char>, needle: &Vec<char>, at: usize) -> (found: bool)
    requires
        at + needle@.len() <= hay@.len(),
    ensures
        found == (window(hay@, at as int, needle@.len()) == needle@),
{
    let n = needle.len();
    let total = hay.len();
    let mut j: usize = 0;
    while j < n
        invariant
            j <= n,
            n == needle@.len(),
            at + n <= hay@.len(),
            total == hay@.len(),
            forall|k: int| 0 <= k < j ==> hay@[at + k] == needle@[k],
        decreases n - j,
    {
        if hay[at + j] != needle[j] {
            assert(hay@.subrange(at as int, at + n)[j as int] != needle@[j as int]);
            return false;
        }
        j += 1;
    }
    assert(hay@.subrange(at as int, at + n) =~= needle@);
    true
}

/// Whether `needle` occurs somewhere in `hay`.
pub fn contains_text(hay: &Vec<char>, needle: &str) -> (found: bool)
    ensures
        found == occurs_in(needle@, hay@),
{
    let word = to_chars(needle);
    if word.len() > hay.len() {
        return false;
    }
    let last = hay.len() - word.len();
    let mut i: usize = 0;
    loop
        invariant
            i <= last,
            last == hay@.len() - word@.len(),
            word@ == needle@,
            forall|k: int| 0 <= k < i ==> #[trigger] window(hay@, k, word@.len()) != word@,
        decreases last - i,
    {
        if occurs_at(hay, &word, i) {
            return true;
        }
        if i == last {
            return false;
        }
        i += 1;
    }
}

/// Whether an entry of an office document holds document properties:
/// the core, the application or the custom properties.
pub open spec fn is_office_metadata(name: Seq<char>) -> bool {
    ||| occurs_in("docProps/core.xml"@, name)
    ||| occurs_in("docProps/app.xml"@, name)
    ||| occurs_in("docProps/custom.xml"@, name)
}

/// Whether an entry of an office document is kept when it is cleaned.
pub fn keep_office_entry(name: &str) -> (keep: bool)
    ensures
        keep == !is_office_metadata(name@),
{
    let chars = to_chars(name);
    !(contains_text(&chars, "docProps/core.xml") || contains_text(&chars, "docProps/app.xml")
        || contains_text(&chars, "docProps/custom.xml"))
}

} // verus!
