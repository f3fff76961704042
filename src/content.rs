//! The content resolver: from a package member to the content callers see.

use vstd::prelude::*;
use vstd::string::StrSliceExecFns;
use crate::package::{Package, package_entries, gunzip_of, read_entry, gunzip};

verus! {

/// The failures of the cache; every one is returned, none ends the process.
#[derive(Debug, Clone, Copy, PartialEq, Eq, Structural)]
pub enum CacheError {
    /// The bytes handed to `load_slpk` are not a zip container, or the path
    /// names no file.
    ArchiveOpen,
    /// No archive of that name is loaded.
    NotFound,
    /// The archive has no member of that path.
    EntryNotFound,
    /// The member cannot be read, or its gzip stream is malformed.
    Decode,
}

/// The suffix that marks a gzip-compressed member.
pub open spec fn gz_suffix() -> Seq<char> {
    seq!['.', 'g', 'z']
}

/// Whether an entry path ends with `.gz`.
pub open spec fn is_gz(path: Seq<char>) -> bool {
    path.len() >= 3 && path.subrange(path.len() - 3, path.len() as int) == gz_suffix()
}

/// The content of a member whose stored bytes are `raw`: inflated where the
/// path ends with `.gz`, unchanged otherwise.
pub open spec fn content_of(path: Seq<char>, raw: Seq<u8>) -> Result<Seq<u8>, CacheError> {
    if is_gz(path) {
        match gunzip_of(raw) {
            Some(d) => Ok(d),
            None => Err(CacheError::Decode),
        }
    } else {
        Ok(raw)
    }
}

/// What resolving `path` in a package with the given entries returns.
pub open spec fn resolve(entries: Map<Seq<char>, Option<Seq<u8>>>, path: Seq<char>) -> Result<Seq<u8>, CacheError> {
    if !entries.contains_key(path) {
        Err(CacheError::EntryNotFound)
    } else {
        match entries[path] {
            Some(raw) => content_of(path, raw),
            None => Err(CacheError::Decode),
        }
    }
}

/// The view of a byte result.
pub open spec fn bytes_result(r: Result<Vec<u8>, CacheError>) -> Result<Seq<u8>, CacheError> {
    match r {
        Ok(v) => Ok(v@),
        Err(e) => Err(e),
    }
}

/// Whether `path` ends with `.gz`; decides on the name alone, never on the bytes.
pub fn is_gzip_entry(path: &str) -> (r: bool)
    ensures
        r == is_gz(path@),
{
    let n = path.unicode_len();
    if n < 3 {
        return false;
    }
    let r = path.get_char(n - 3) == '.' && path.get_char(n - 2) == 'g' && path.get_char(n - 1) == 'z';
    proof {
        let s = path@.subrange(n - 3, n as int);
        if r {
            assert(s =~= gz_suffix());
        } else {
            assert(s[0] != '.' || s[1] != 'g' || s[2] != 'z');
        }
    }
    r
}

/// The content of a member read as `raw` under `path`: the gzip payload for
/// a `.gz` path, the bytes themselves otherwise.
pub fn decode_content(path: &str, raw: Vec<u8>) -> (r: Result<Vec<u8>, CacheError>)
    ensures
        bytes_result(r) == content_of(path@, raw@),
{
    if is_gzip_entry(path) {
        match gunzip(raw.as_slice()) {
            Some(d) => Ok(d),
            None => Err(CacheError::Decode),
        }
    } else {
        Ok(raw)
    }
}

/// Resolves `path` in `archive`: reads the member and decodes it.
pub fn resolve_entry(archive: &mut Package, path: &str) -> (r: Result<Vec<u8>, CacheError>)
    ensures
        package_entries(*final(archive)) == package_entries(*old(archive)),
        bytes_result(r) == resolve(package_entries(*old(archive)), path@),
{
    match read_entry(archive, path) {
        Ok(raw) => decode_content(path, raw),
        Err(zip::result::ZipError::FileNotFound) => Err(CacheError::EntryNotFound),
        Err(_) => Err(CacheError::Decode),
    }
}

} // verus!
