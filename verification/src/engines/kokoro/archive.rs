//! What the engine uses of the `zip` crate, with what it takes on trust about it.

use vstd::prelude::*;

verus! {

/// A ZIP archive opened over some reader.
#[verifier::external_type_specification]
#[verifier::external_body]
#[verifier::reject_recursive_types(R)]
pub struct ExZipArchive<R>(zip::ZipArchive<R>);

/// An in-memory reader.
#[verifier::external_type_specification]
#[verifier::external_body]
#[verifier::reject_recursive_types(T)]
pub struct ExCursor<T>(std::io::Cursor<T>);

/// One entry of an archive, as reading it turns out.
pub struct EntryView {
    /// The entry's name as stored, directories ending in `/`.
    pub name: Seq<char>,
    /// The entry's decompressed bytes, or why they cannot be read.
    pub data: Result<Seq<u8>, Seq<char>>,
}

/// What an opened archive holds: for each index the entry, or why it cannot be opened.
pub uninterp spec fn archive_entries(
    archive: zip::ZipArchive<std::io::Cursor<Vec<u8>>>,
) -> Seq<Result<EntryView, Seq<char>>>;

/// What the bytes of a file hold when read as a ZIP archive: its entries, or
/// why it is no archive.
pub uninterp spec fn zip_read(bytes: Seq<u8>) -> Result<
    Seq<Result<EntryView, Seq<char>>>,
    Seq<char>,
>;

/// Calls `ZipArchive::new` on a cursor over `bytes`. Trusted: whether the
/// bytes are an archive, and what it holds, depends on the bytes alone; an
/// error is handed out as the text it displays.
#[verifier::external_body]
pub(crate) fn open_archive(bytes: Vec<u8>) -> (r: Result<
    zip::ZipArchive<std::io::Cursor<Vec<u8>>>,
    String,
>)
    ensures
        match r {
            Ok(archive) => zip_read(bytes@) == Ok::<Seq<Result<EntryView, Seq<char>>>, Seq<char>>(
                archive_entries(archive),
            ),
            Err(reason) => zip_read(bytes@) == Err::<Seq<Result<EntryView, Seq<char>>>, Seq<char>>(
                reason@,
            ),
        },
{
    match zip::ZipArchive::new(std::io::Cursor::new(bytes)) {
        Ok(archive) => Ok(archive),
        Err(e) => Err(e.to_string()),
    }
}

/// Calls `ZipArchive::len`: the number of entries.
#[verifier::external_body]
pub(crate) fn entry_count(archive: &zip::ZipArchive<std::io::Cursor<Vec<u8>>>) -> (n: usize)
    ensures
        n == archive_entries(*archive).len(),
{
    archive.len()
}

/// Calls `ZipArchive::by_index` and takes the entry's `name`. Trusted:
/// opening an entry leaves what the archive holds unchanged, and gives the
/// name stored for that index, or the error as the text it displays.
#[verifier::external_body]
pub(crate) fn entry_name(
    archive: &mut zip::ZipArchive<std::io::Cursor<Vec<u8>>>,
    index: usize,
) -> (r: Result<String, String>)
    ensures
        archive_entries(*final(archive)) == archive_entries(*old(archive)),
        index < archive_entries(*old(archive)).len() ==> match r {
            Ok(name) => archive_entries(*old(archive))[index as int] matches Ok(entry)
                && entry.name == name@,
            Err(reason) => archive_entries(*old(archive))[index as int] == Err::<
                EntryView,
                Seq<char>,
            >(reason@),
        },
{
    match archive.by_index(index) {
        Ok(file) => Ok(file.name().to_string()),
        Err(e) => Err(e.to_string()),
    }
}

/// Calls `ZipArchive::by_index` and reads the entry to its end. Trusted:
/// reading leaves what the archive holds unchanged, and gives the bytes of
/// the entry at that index, or the error as the text it displays.
#[verifier::external_body]
pub(crate) fn entry_data(
    archive: &mut zip::ZipArchive<std::io::Cursor<Vec<u8>>>,
    index: usize,
) -> (r: Result<Vec<u8>, String>)
    ensures
        archive_entries(*final(archive)) == archive_entries(*old(archive)),
        index < archive_entries(*old(archive)).len() ==> (archive_entries(
            *old(archive),
        )[index as int] matches Ok(entry) ==> match r {
            Ok(data) => entry.data == Ok::<Seq<u8>, Seq<char>>(data@),
            Err(reason) => entry.data == Err::<Seq<u8>, Seq<char>>(reason@),
        }),
{
    let mut data = Vec::new();
    match archive.by_index(index) {
        Ok(mut file) => match std::io::Read::read_to_end(&mut file, &mut data) {
            Ok(_) => Ok(data),
            Err(e) => Err(e.to_string()),
        },
        Err(e) => Err(e.to_string()),
    }
}

} // verus!
