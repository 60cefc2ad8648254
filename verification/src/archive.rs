use vstd::prelude::*;

verus! {

/// The entry names a zip archive holds, in the order its central directory
/// stores them, or nothing when the bytes are not a readable archive. The
/// outcome depends on the archive bytes alone.
pub uninterp spec fn zip_entry_names(data: Seq<u8>) -> Option<Seq<Seq<char>>>;

/// The decompressed content of the named entry of a zip archive, or nothing
/// when the archive is unreadable, the entry is absent, or its data cannot
/// be decompressed. The outcome depends on the bytes and the name alone.
pub uninterp spec fn zip_entry_bytes(data: Seq<u8>, name: Seq<char>) -> Option<Seq<u8>>;

/// Relies on `zip::ZipArchive`: `new` over an in-memory cursor parses the
/// archive's central directory, and `file_names` yields the stored entry
/// names in a fixed order determined by that directory.
#[verifier::external_body]
pub(crate) fn list_zip_entries(data: &Vec<u8>) -> (r: Result<Vec<String>, String>)
    ensures
        r is Ok <==> zip_entry_names(data@) is Some,
        r matches Ok(v) ==> v.deep_view() == zip_entry_names(data@).unwrap(),
{
    match zip::ZipArchive::new(std::io::Cursor::new(data.as_slice())) {
        Ok(archive) => Ok(archive.file_names().map(|n| n.to_string()).collect()),
        Err(e) => Err(format!("{}", e)),
    }
}

/// Relies on `zip::ZipArchive`: `new` over an in-memory cursor, `by_name`
/// (exact-name lookup of one entry), and a full read of the entry's
/// decompressed content.
#[verifier::external_body]
pub(crate) fn read_zip_entry(data: &Vec<u8>, name: &str) -> (r: Result<Vec<u8>, String>)
    ensures
        r is Ok <==> zip_entry_bytes(data@, name@) is Some,
        r matches Ok(v) ==> v@ == zip_entry_bytes(data@, name@).unwrap(),
{
    let mut archive = match zip::ZipArchive::new(std::io::Cursor::new(data.as_slice())) {
        Ok(a) => a,
        Err(e) => return Err(format!("{}", e)),
    };
    let mut entry = match archive.by_name(name) {
        Ok(f) => f,
        Err(e) => return Err(format!("{}", e)),
    };
    let mut buf: Vec<u8> = Vec::new();
    match std::io::Read::read_to_end(&mut entry, &mut buf) {
        Ok(_) => Ok(buf),
        Err(e) => Err(format!("{}", e)),
    }
}

} // verus!
