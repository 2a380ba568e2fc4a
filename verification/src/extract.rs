use vstd::prelude::*;

use crate::errors::OdtError;

verus! {

/// Whether the archive reader accepts `b` as a valid archive. Reading a
/// fully materialized byte string is deterministic, so this depends on the
/// bytes alone.
pub uninterp spec fn zip_ok(b: Seq<u8>) -> bool;

/// How many entries the archive holds.
pub uninterp spec fn zip_len(b: Seq<u8>) -> nat;

/// The name of entry `i`, or `None` when the reader refuses the entry.
pub uninterp spec fn zip_entry_name(b: Seq<u8>, i: int) -> Option<Seq<char>>;

/// The text of entry `i`, or `None` when the entry cannot be decompressed
/// and decoded as text.
pub uninterp spec fn zip_entry_text(b: Seq<u8>, i: int) -> Option<Seq<char>>;

/// Relies on `zip::ZipArchive::new` and `zip::ZipArchive::len` on in-memory
/// bytes: whether the bytes form a valid archive, and how many entries its
/// central directory lists, depend on the bytes alone.
#[verifier::external_body]
fn archive_len(bytes: &Vec<u8>) -> (r: Result<usize, OdtError>)
    ensures
        r is Ok <==> zip_ok(bytes@),
        r matches Ok(n) ==> n as nat == zip_len(bytes@),
        r matches Err(e) ==> e is ArchiveError,
{
    match zip::ZipArchive::new(std::io::Cursor::new(bytes.as_slice())) {
        Ok(archive) => Ok(archive.len()),
        Err(e) => Err(OdtError::ArchiveError(e.to_string())),
    }
}

/// Relies on `zip::ZipArchive::by_index` and `zip::read::ZipFile::name`:
/// entries stand in central-directory order, and an entry's name is a
/// function of the archive bytes and the index alone.
#[verifier::external_body]
fn archive_entry_name(bytes: &Vec<u8>, i: usize) -> (r: Result<String, OdtError>)
    requires
        zip_ok(bytes@),
        (i as nat) < zip_len(bytes@),
    ensures
        r is Ok <==> zip_entry_name(bytes@, i as int) is Some,
        r matches Ok(n) ==> n@ == zip_entry_name(bytes@, i as int)->0,
        r matches Err(e) ==> e is ArchiveError,
{
    let mut archive = match zip::ZipArchive::new(std::io::Cursor::new(bytes.as_slice())) {
        Ok(a) => a,
        Err(e) => return Err(OdtError::ArchiveError(e.to_string())),
    };
    let r = match archive.by_index(i) {
        Ok(entry) => Ok(entry.name().to_string()),
        Err(e) => Err(OdtError::ArchiveError(e.to_string())),
    };
    r
}

/// Relies on `zip::ZipArchive::by_index` and `std::io::Read::read_to_string`
/// on a contained entry: decompressing and decoding a whole entry of a fully
/// materialized archive is a function of the bytes and the index alone.
#[verifier::external_body]
fn archive_entry_text(bytes: &Vec<u8>, i: usize) -> (r: Result<String, OdtError>)
    requires
        zip_ok(bytes@),
        (i as nat) < zip_len(bytes@),
    ensures
        r is Ok <==> zip_entry_text(bytes@, i as int) is Some,
        r matches Ok(t) ==> t@ == zip_entry_text(bytes@, i as int)->0,
        r matches Err(e) ==> e is ArchiveError,
{
    let mut archive = match zip::ZipArchive::new(std::io::Cursor::new(bytes.as_slice())) {
        Ok(a) => a,
        Err(e) => return Err(OdtError::ArchiveError(e.to_string())),
    };
    let mut entry = match archive.by_index(i) {
        Ok(f) => f,
        Err(e) => return Err(OdtError::ArchiveError(e.to_string())),
    };
    let mut text = String::new();
    match std::io::Read::read_to_string(&mut entry, &mut text) {
        Ok(_n) => Ok(text),
        Err(e) => Err(OdtError::ArchiveError(e.to_string())),
    }
}

/// How a scan for the designated entry ends: its index, or the knowledge
/// that it is absent, or an entry whose name the reader refused.
pub enum EntryFind {
    Found(int),
    Missing,
    Unreadable,
}

/// The first entry at or after `i` named exactly `content.xml`.
pub open spec fn find_entry(b: Seq<u8>, i: int) -> EntryFind
    decreases zip_len(b) - i,
{
    if i < 0 || i >= zip_len(b) {
        EntryFind::Missing
    } else {
        match zip_entry_name(b, i) {
            None => EntryFind::Unreadable,
            Some(n) => if n == "content.xml"@ {
                EntryFind::Found(i)
            } else {
                find_entry(b, i + 1)
            },
        }
    }
}

/// The text the extractor owes for the archive `b`: the designated entry's
/// text, the empty document when the entry is absent, or an archive failure.
pub open spec fn extract_spec(b: Seq<u8>) -> Result<Seq<char>, ()> {
    if !zip_ok(b) {
        Err(())
    } else {
        match find_entry(b, 0) {
            EntryFind::Found(j) => match zip_entry_text(b, j) {
                Some(t) => Ok(t),
                None => Err(()),
            },
            EntryFind::Missing => Ok(Seq::empty()),
            EntryFind::Unreadable => Err(()),
        }
    }
}

/// Scans the archive in entry order and returns the text of the first entry
/// named exactly `content.xml`; an absent entry is an empty document, a
/// refused archive or entry is an archive failure.
pub fn extract_content(bytes: &Vec<u8>) -> (r: Result<String, OdtError>)
    ensures
        extract_spec(bytes@) matches Ok(t) ==> (r matches Ok(s) && s@ == t),
        extract_spec(bytes@) is Err ==> (r matches Err(e) && e is ArchiveError),
{
    let n = match archive_len(bytes) {
        Ok(n) => n,
        Err(e) => {
            return Err(e);
        },
    };
    let target: String = "content.xml".to_owned();
    let mut i: usize = 0;
    while i < n
        invariant
            zip_ok(bytes@),
            n as nat == zip_len(bytes@),
            i <= n,
            target@ == "content.xml"@,
            find_entry(bytes@, 0) == find_entry(bytes@, i as int),
        decreases n - i,
    {
        match archive_entry_name(bytes, i) {
            Ok(nm) => {
                if nm == target {
                    match archive_entry_text(bytes, i) {
                        Ok(t) => {
                            return Ok(t);
                        },
                        Err(e) => {
                            return Err(e);
                        },
                    }
                }
            },
            Err(e) => {
                return Err(e);
            },
        }
        i = i + 1;
    }
    proof {
        assert(find_entry(bytes@, n as int) is Missing);
    }
    Ok(String::new())
}

} // verus!
