//! Writing ZIP archives into memory, entry by entry.

use vstd::prelude::*;

verus! {

/// How the entries of an archive are written: the number of the
/// compression method as the format has it, the permission bits, and the
/// time of last change that every entry carries.
#[derive(Clone, Copy, Debug, PartialEq, Eq)]
pub struct ArchiveSettings {
    pub method: u16,
    pub permissions: u32,
    pub year: u16,
    pub month: u8,
    pub day: u8,
    pub hour: u8,
    pub minute: u8,
    pub second: u8,
}

/// One entry of an archive: the name it is held under and, for a file,
/// its bytes; a directory has none.
pub type ArchiveEntry = (Seq<char>, Option<Seq<u8>>);

/// Whether `year` has a 29th of February, for the years that the format
/// can hold.
pub open spec fn is_leap_year(year: u16) -> bool {
    year % 4 == 0 && (year % 25 != 0 || year % 16 == 0)
}

/// The number of days of a month.
pub open spec fn days_in_month(year: u16, month: u8) -> int {
    if month == 2 {
        if is_leap_year(year) {
            29
        } else {
            28
        }
    } else if month == 4 || month == 6 || month == 9 || month == 11 {
        30
    } else {
        31
    }
}

/// Whether the format can hold the time that the settings give: a day
/// that exists, from 1980 to 2107, and a time of day (a leap second is
/// let through).
pub open spec fn has_valid_time(settings: ArchiveSettings) -> bool {
    &&& 1980 <= settings.year <= 2107
    &&& 1 <= settings.month <= 12
    &&& 1 <= settings.day <= days_in_month(settings.year, settings.month)
    &&& settings.hour <= 23
    &&& settings.minute <= 59
    &&& settings.second <= 60
}

/// A ZIP archive being written into memory, together with the options
/// that each of its entries is written with. Both are values of `zip`;
/// what the library knows of them is what `archive_entries` and
/// `archive_settings` name.
#[verifier::external_body]
pub struct ArchiveWriter {
    inner: zip::ZipWriter<std::io::Cursor<Vec<u8>>>,
    options: zip::write::SimpleFileOptions,
}

/// The entries written to an archive so far, in order.
pub uninterp spec fn archive_entries(writer: ArchiveWriter) -> Seq<ArchiveEntry>;

/// The settings that an archive was begun with.
pub uninterp spec fn archive_settings(writer: ArchiveWriter) -> ArchiveSettings;

/// Whether an archive with these settings that holds the entries
/// `before` takes a file of this name and these bytes as its next entry.
pub uninterp spec fn file_accepted(
    settings: ArchiveSettings,
    before: Seq<ArchiveEntry>,
    name: Seq<char>,
    bytes: Seq<u8>,
) -> bool;

/// Whether an archive with these settings that holds the entries
/// `before` takes a directory as its next entry, to be held under
/// `name`.
pub uninterp spec fn directory_accepted(settings: ArchiveSettings, before: Seq<ArchiveEntry>, name: Seq<char>) -> bool;

/// The bytes of the finished archive that holds `entries`, written with
/// `settings`, or nothing where it cannot be finished.
pub uninterp spec fn zip_archive(settings: ArchiveSettings, entries: Seq<ArchiveEntry>) -> Option<Seq<u8>>;

/// Calls `ZipWriter::new` of `zip` on an empty buffer, and builds the
/// options for its entries with `DateTime::from_date_and_time`,
/// `CompressionMethod::from_u16` and the setters of `FileOptions`.
/// Trusted: the time is refused exactly where it is not one the format
/// can hold; a new archive holds no entries and keeps its settings.
#[verifier::external_body]
pub(crate) fn archive_new(settings: &ArchiveSettings) -> (out: Option<ArchiveWriter>)
    ensures
        out is Some <==> has_valid_time(*settings),
        out matches Some(w) ==> archive_entries(w) == Seq::<ArchiveEntry>::empty(),
        out matches Some(w) ==> archive_settings(w) == *settings,
{
    let s = settings;
    let stamp = zip::DateTime::from_date_and_time(s.year, s.month, s.day, s.hour, s.minute, s.second).ok()?;
    #[allow(deprecated)]
    let method = zip::CompressionMethod::from_u16(s.method);
    let options = zip::write::SimpleFileOptions::default()
        .compression_method(method)
        .last_modified_time(stamp)
        .unix_permissions(s.permissions);
    Some(ArchiveWriter { inner: zip::ZipWriter::new(std::io::Cursor::new(Vec::new())), options })
}

/// Calls `ZipWriter::start_file` and `write_all` of `zip`. Trusted:
/// whether both succeed depends on the settings, the entries held and
/// the new entry alone; where they do, the archive holds one more entry,
/// a file of this name and these bytes, after the ones it held.
#[verifier::external_body]
pub(crate) fn archive_add_file(writer: &mut ArchiveWriter, name: &str, bytes: &[u8]) -> (ok: bool)
    ensures
        ok == file_accepted(archive_settings(*old(writer)), archive_entries(*old(writer)), name@, bytes@),
        ok ==> archive_entries(*final(writer)) == archive_entries(*old(writer)).push((name@, Some(bytes@))),
        archive_settings(*final(writer)) == archive_settings(*old(writer)),
{
    writer.inner.start_file(name, writer.options).is_ok()
        && std::io::Write::write_all(&mut writer.inner, bytes).is_ok()
}

/// The name that an archive holds a directory under: the name given,
/// with a forward slash added unless it ends in a slash of either kind
/// already.
pub open spec fn stored_directory_name(name: Seq<char>) -> Seq<char> {
    if name.len() > 0 && (name.last() == '/' || name.last() == '\\') {
        name
    } else {
        name.push('/')
    }
}

/// Calls `ZipWriter::add_directory` of `zip`. Trusted: whether it
/// succeeds depends on the settings, the entries held and the name that
/// the directory is stored under alone; where it does, the archive holds
/// one more entry, a directory under that name, after the ones it held.
#[verifier::external_body]
pub(crate) fn archive_add_directory(writer: &mut ArchiveWriter, name: &str) -> (ok: bool)
    ensures
        ok == directory_accepted(
            archive_settings(*old(writer)),
            archive_entries(*old(writer)),
            stored_directory_name(name@),
        ),
        ok ==> archive_entries(*final(writer)) == archive_entries(*old(writer)).push(
            (stored_directory_name(name@), None),
        ),
        archive_settings(*final(writer)) == archive_settings(*old(writer)),
{
    writer.inner.add_directory(name, writer.options).is_ok()
}

/// Calls `ZipWriter::finish` of `zip`. Trusted: what it gives depends on
/// the settings and the entries written alone.
#[verifier::external_body]
pub(crate) fn archive_finish(writer: ArchiveWriter) -> (out: Option<Vec<u8>>)
    ensures
        zip_archive(archive_settings(writer), archive_entries(writer)) == (match out {
            Some(bytes) => Some(bytes@),
            None => None,
        }),
{
    writer.inner.finish().ok().map(|cursor| cursor.into_inner())
}

} // verus!
