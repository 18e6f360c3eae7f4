//! Access to ZIP containers, shared by the Office extractors.
//!
//! The `zip` crate reads the archive from an in-memory cursor; every
//! failure path of the used calls returns an error, none panics.  Each
//! call's result is a function of the buffer (and entry index) alone,
//! so the results carry names that the extractors' contracts build on.

use vstd::prelude::*;

verus! {

/// What opening the container gives for a buffer: its entry count, or
/// the error text when it cannot be opened.  A function of the buffer
/// alone.
pub uninterp spec fn zip_count_result(bytes: Seq<u8>) -> Result<int, Seq<char>>;

/// What the name of entry `i` of the container is, or the error text
/// when the entry cannot be opened.  A function of the buffer and the
/// index alone.
pub uninterp spec fn zip_entry_name_of(bytes: Seq<u8>, i: int) -> Result<Seq<char>, Seq<char>>;

/// What entry `i` of the container decompresses to as text, or the
/// error text when it cannot be read or is not UTF-8.  A function of
/// the buffer and the index alone.
pub uninterp spec fn zip_entry_text_of(bytes: Seq<u8>, i: int) -> Result<Seq<char>, Seq<char>>;

/// The model of a count handed back by the container.
pub open spec fn count_view(r: Result<usize, String>) -> Result<int, Seq<char>> {
    match r {
        Ok(n) => Ok(n as int),
        Err(e) => Err(e@),
    }
}

/// Relies on `zip::ZipArchive::new` and `len`: the number of entries of
/// the archive read from an in-memory cursor.
#[verifier::external_body]
pub(crate) fn zip_entry_count(data: &[u8]) -> (r: Result<usize, String>)
    ensures
        count_view(r) == zip_count_result(data@),
{
    match zip::ZipArchive::new(std::io::Cursor::new(data)) {
        Ok(a) => Ok(a.len()),
        Err(e) => Err(e.to_string()),
    }
}

/// Relies on `zip::ZipArchive::by_index` and `ZipFile::name`: the name
/// of entry `i`, in central-directory order.
#[verifier::external_body]
pub(crate) fn zip_entry_name(data: &[u8], i: usize) -> (r: Result<String, String>)
    ensures
        crate::errors::str_result_view(r) == zip_entry_name_of(data@, i as int),
{
    let mut a = zip::ZipArchive::new(std::io::Cursor::new(data)).map_err(|e| e.to_string())?;
    let r = match a.by_index(i) {
        Ok(f) => Ok(f.name().to_string()),
        Err(e) => Err(e.to_string()),
    };
    r
}

/// Relies on `zip::ZipArchive::by_index` and `Read::read_to_string`:
/// entry `i` decompressed and decoded as UTF-8 text.  Corrupt
/// compressed data and wrong checksums surface as errors here, never as
/// aborts.
#[verifier::external_body]
pub(crate) fn zip_entry_text(data: &[u8], i: usize) -> (r: Result<String, String>)
    ensures
        crate::errors::str_result_view(r) == zip_entry_text_of(data@, i as int),
{
    let mut a = zip::ZipArchive::new(std::io::Cursor::new(data)).map_err(|e| e.to_string())?;
    let mut f = a.by_index(i).map_err(|e| e.to_string())?;
    let mut s = String::new();
    std::io::Read::read_to_string(&mut f, &mut s).map_err(|e| e.to_string())?;
    Ok(s)
}

} // verus!
