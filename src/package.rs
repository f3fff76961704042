//! The zip container and gzip streams, as seen through the outside crates.

use std::io::Read;
use vstd::prelude::*;

verus! {

/// The reader an archive is opened over: the archive's bytes, held in memory.
#[verifier::external_type_specification]
#[verifier::external_body]
#[verifier::reject_recursive_types(T)]
pub struct ExCursor<T>(std::io::Cursor<T>);

/// An opened zip archive (`zip::ZipArchive`).
#[verifier::external_type_specification]
#[verifier::external_body]
#[verifier::reject_recursive_types(R)]
pub struct ExZipArchive<R>(zip::ZipArchive<R>);

/// An I/O failure, carried inside `zip::result::ZipError::Io`.
#[verifier::external_type_specification]
#[verifier::external_body]
pub struct ExIoError(std::io::Error);

/// The error of the zip crate; its variants are visible to verified code.
#[verifier::external_type_specification]
pub struct ExZipError(zip::result::ZipError);

/// A package opened from its bytes.
pub type Package = zip::ZipArchive<std::io::Cursor<Vec<u8>>>;

/// What a package holds: each member name listed in its central directory,
/// mapped to the bytes that reading the member yields, or to `None` where
/// the member cannot be read (unsupported method, encrypted, corrupt data).
pub uninterp spec fn package_entries(p: Package) -> Map<Seq<char>, Option<Seq<u8>>>;

/// What the zip container `data` holds, as `package_entries` gives it for
/// the package opened from `data`, or `None` where `data` is no zip container.
pub uninterp spec fn zip_listing(data: Seq<u8>) -> Option<Map<Seq<char>, Option<Seq<u8>>>>;

/// The payload of the first gzip member of `b`, or `None` where `b` is not a
/// well-formed gzip stream.
pub uninterp spec fn gunzip_of(b: Seq<u8>) -> Option<Seq<u8>>;

/// Relies on `zip::ZipArchive::new`, which parses the central directory of
/// the bytes it is given and fails on anything that is not a zip container;
/// what it yields depends on those bytes alone.
#[verifier::external_body]
pub(crate) fn open_package(data: Vec<u8>) -> (r: Result<Package, zip::result::ZipError>)
    ensures
        match r {
            Ok(p) => zip_listing(data@) == Some(package_entries(p)),
            Err(_) => zip_listing(data@) is None,
        },
{
    zip::ZipArchive::new(std::io::Cursor::new(data))
}

/// Relies on `zip::ZipArchive::by_name_decrypt`, called with the empty
/// password, and on reading the `ZipFile` it returns to its end:
/// `FileNotFound` exactly when the name is not listed, another error when
/// the member is listed but cannot be read (a refused password included),
/// and otherwise the member's bytes. Unlike `by_name`, it hands a refused
/// password back as a value instead of unwrapping it. With only the
/// `deflate` feature, every compression method it cannot read is refused
/// as unsupported before a reader is made. Reading only moves the reader;
/// the listing stays.
#[verifier::external_body]
pub(crate) fn read_entry(p: &mut Package, name: &str) -> (r: Result<Vec<u8>, zip::result::ZipError>)
    ensures
        package_entries(*final(p)) == package_entries(*old(p)),
        match r {
            Ok(v) => package_entries(*old(p)).contains_key(name@)
                && package_entries(*old(p))[name@] == Some(v@),
            Err(zip::result::ZipError::FileNotFound) => !package_entries(*old(p)).contains_key(name@),
            Err(_) => package_entries(*old(p)).contains_key(name@)
                && package_entries(*old(p))[name@] is None,
        },
{
    let mut file = match p.by_name_decrypt(name, &[])? {
        Ok(file) => file,
        Err(_) => return Err(zip::result::ZipError::UnsupportedArchive(zip::result::ZipError::PASSWORD_REQUIRED)),
    };
    let mut bytes: Vec<u8> = Vec::new();
    match file.read_to_end(&mut bytes) {
        Ok(_) => Ok(bytes),
        Err(e) => Err(zip::result::ZipError::Io(e)),
    }
}

/// Relies on `flate2::read::GzDecoder` read to its end: the payload of the
/// first gzip member, or an error where the stream is malformed.
#[verifier::external_body]
pub(crate) fn gunzip(raw: &[u8]) -> (r: Option<Vec<u8>>)
    ensures
        match r {
            Some(v) => gunzip_of(raw@) == Some(v@),
            None => gunzip_of(raw@) is None,
        },
{
    let mut bytes: Vec<u8> = Vec::new();
    match flate2::read::GzDecoder::new(raw).read_to_end(&mut bytes) {
        Ok(_) => Some(bytes),
        Err(_) => None,
    }
}

} // verus!
