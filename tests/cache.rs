use std::io::{Cursor, Write};

use flate2::write::GzEncoder;
use flate2::Compression;
use slpk_server::cache::{archive_name, names_file, Cache};
use slpk_server::content::{decode_content, is_gzip_entry, resolve_entry, CacheError};
use zip::write::FileOptions;
use zip::ZipWriter;

const JPEG: [u8; 6] = [0xFF, 0xD8, 0xFF, 0xE0, 0x00, 0x10];

fn gzip(data: &[u8]) -> Vec<u8> {
    let mut enc = GzEncoder::new(Vec::new(), Compression::default());
    enc.write_all(data).unwrap();
    enc.finish().unwrap()
}

fn zip_of(entries: &[(&str, Vec<u8>)]) -> Vec<u8> {
    let mut w = ZipWriter::new(Cursor::new(Vec::new()));
    for (name, bytes) in entries {
        w.start_file(*name, FileOptions::default()).unwrap();
        w.write_all(bytes).unwrap();
    }
    w.finish().unwrap().into_inner()
}

fn tile_package() -> Vec<u8> {
    zip_of(&[
        ("3dSceneLayer.json.gz", gzip(b"{\"id\":1}")),
        ("nodes/0/textures/0_0.jpg", JPEG.to_vec()),
        ("nodes/0/broken.json.gz", b"not a gzip stream".to_vec()),
        ("nodes/1/3dNodeIndexDocument.json.gz", gzip(b"{\"id\":\"1\"}")),
    ])
}

fn loaded() -> Cache {
    let mut cache = Cache::new();
    let name = cache.load_slpk("./slpk/tile.pkg", tile_package()).unwrap();
    assert_eq!(name, "tile.pkg");
    cache
}

#[test]
fn gzip_entry_is_inflated() {
    let mut cache = loaded();
    let r = cache.read_file("tile.pkg", "3dSceneLayer.json.gz").unwrap();
    assert_eq!(r, b"{\"id\":1}".to_vec());
}

#[test]
fn raw_entry_is_returned_unchanged() {
    let mut cache = loaded();
    let r = cache.read_file("tile.pkg", "nodes/0/textures/0_0.jpg").unwrap();
    assert_eq!(r, JPEG.to_vec());
}

#[test]
fn missing_entry_is_entry_not_found() {
    let mut cache = loaded();
    let r = cache.read_file("tile.pkg", "nodes/0/missing.json.gz");
    assert_eq!(r, Err(CacheError::EntryNotFound));
}

#[test]
fn unknown_archive_is_not_found() {
    let mut cache = loaded();
    assert_eq!(cache.read_file("other.pkg", "3dSceneLayer.json.gz"), Err(CacheError::NotFound));
    let mut empty = Cache::new();
    assert_eq!(empty.read_file("tile.pkg", "3dSceneLayer.json.gz"), Err(CacheError::NotFound));
}

#[test]
fn malformed_gzip_is_decode_error() {
    let mut cache = loaded();
    assert_eq!(cache.read_file("tile.pkg", "nodes/0/broken.json.gz"), Err(CacheError::Decode));
    assert_eq!(cache.read_file("tile.pkg", "nodes/0/broken.json.gz"), Err(CacheError::Decode));
    assert_eq!(cache.resolver_runs(), 2);
}

#[test]
fn second_read_is_identical_and_not_resolved_again() {
    let mut cache = loaded();
    assert_eq!(cache.resolver_runs(), 0);
    let first = cache.read_file("tile.pkg", "3dSceneLayer.json.gz").unwrap();
    assert_eq!(cache.resolver_runs(), 1);
    let second = cache.read_file("tile.pkg", "3dSceneLayer.json.gz").unwrap();
    assert_eq!(cache.resolver_runs(), 1);
    assert_eq!(first, second);
}

#[test]
fn failed_lookup_runs_no_resolver() {
    let mut cache = loaded();
    assert_eq!(cache.read_file("nope.pkg", "3dSceneLayer.json.gz"), Err(CacheError::NotFound));
    assert_eq!(cache.resolver_runs(), 0);
}

#[test]
fn removed_archive_is_not_found() {
    let mut cache = loaded();
    cache.read_file("tile.pkg", "3dSceneLayer.json.gz").unwrap();
    cache.read_file("tile.pkg", "nodes/0/textures/0_0.jpg").unwrap();
    cache.remove(&String::from("tile.pkg"));
    assert_eq!(cache.read_file("tile.pkg", "3dSceneLayer.json.gz"), Err(CacheError::NotFound));
    assert_eq!(cache.read_file("tile.pkg", "nodes/0/textures/0_0.jpg"), Err(CacheError::NotFound));
    assert!(cache.get("tile.pkg").is_err());
}

#[test]
fn removing_unknown_name_changes_nothing() {
    let mut cache = loaded();
    cache.remove(&String::from("other.pkg"));
    assert_eq!(cache.read_file("tile.pkg", "nodes/0/textures/0_0.jpg").unwrap(), JPEG.to_vec());
}

#[test]
fn interleaved_reads_of_distinct_entries_stay_correct() {
    let mut cache = loaded();
    cache.load_slpk("b.pkg", zip_of(&[("a.bin.gz", gzip(&[1, 2, 3])), ("c.txt", vec![9, 9])])).unwrap();
    for _ in 0..3 {
        assert_eq!(cache.read_file("tile.pkg", "3dSceneLayer.json.gz").unwrap(), b"{\"id\":1}".to_vec());
        assert_eq!(cache.read_file("b.pkg", "a.bin.gz").unwrap(), vec![1, 2, 3]);
        assert_eq!(cache.read_file("tile.pkg", "nodes/0/textures/0_0.jpg").unwrap(), JPEG.to_vec());
        assert_eq!(cache.read_file("b.pkg", "c.txt").unwrap(), vec![9, 9]);
    }
    assert_eq!(cache.resolver_runs(), 4);
}

#[test]
fn reloading_a_name_replaces_it_and_drops_its_cache() {
    let mut cache = loaded();
    cache.read_file("tile.pkg", "nodes/0/textures/0_0.jpg").unwrap();
    let name = cache.load_slpk("elsewhere/tile.pkg", zip_of(&[("nodes/0/textures/0_0.jpg", vec![7])])).unwrap();
    assert_eq!(name, "tile.pkg");
    assert_eq!(cache.read_file("tile.pkg", "nodes/0/textures/0_0.jpg").unwrap(), vec![7]);
    assert_eq!(cache.resolver_runs(), 2);
    assert_eq!(cache.read_file("tile.pkg", "3dSceneLayer.json.gz"), Err(CacheError::EntryNotFound));
}

#[test]
fn bytes_that_are_no_zip_do_not_load() {
    let mut cache = Cache::new();
    assert_eq!(cache.load_slpk("tile.pkg", b"plain text".to_vec()), Err(CacheError::ArchiveOpen));
    assert_eq!(cache.read_file("tile.pkg", "3dSceneLayer.json.gz"), Err(CacheError::NotFound));
}

#[test]
fn path_without_file_name_does_not_load() {
    let mut cache = Cache::new();
    assert_eq!(cache.load_slpk("slpk/", tile_package()), Err(CacheError::ArchiveOpen));
    assert_eq!(cache.load_slpk("", tile_package()), Err(CacheError::ArchiveOpen));
    assert_eq!(cache.load_slpk("a/..", tile_package()), Err(CacheError::ArchiveOpen));
    assert_eq!(cache.load_slpk("a/.", tile_package()), Err(CacheError::ArchiveOpen));
    assert_eq!(cache.get("..").err(), Some(CacheError::NotFound));
}

#[test]
fn file_names_exclude_dot_entries() {
    assert!(names_file("tile.pkg"));
    assert!(names_file(".slpk"));
    assert!(names_file("..."));
    assert!(names_file("a"));
    assert!(!names_file(""));
    assert!(!names_file("."));
    assert!(!names_file(".."));
}

#[test]
fn loaded_entries_are_those_of_the_bytes() {
    let mut cache = Cache::new();
    let data = zip_of(&[("only.txt", vec![5, 6])]);
    let mut archive = zip::ZipArchive::new(Cursor::new(data.clone())).unwrap();
    let direct = resolve_entry(&mut archive, "only.txt");
    assert_eq!(cache.load_slpk("dir/one.pkg", data).unwrap(), "one.pkg");
    assert_eq!(cache.read_file("one.pkg", "only.txt"), direct);
    assert_eq!(cache.read_file("one.pkg", "other.txt"), Err(CacheError::EntryNotFound));
}

#[test]
fn archive_name_is_the_file_name() {
    assert_eq!(archive_name("./slpk/tile.pkg"), "tile.pkg");
    assert_eq!(archive_name("tile.pkg"), "tile.pkg");
    assert_eq!(archive_name("a/b/"), "");
}

#[test]
fn get_finds_loaded_archives_only() {
    let cache = loaded();
    assert_eq!(cache.get("tile.pkg").unwrap().len(), 4);
    assert_eq!(cache.get("x.pkg").err(), Some(CacheError::NotFound));
}

#[test]
fn gzip_suffix_decides_on_the_name() {
    assert!(is_gzip_entry("a.json.gz"));
    assert!(is_gzip_entry(".gz"));
    assert!(!is_gzip_entry("gz"));
    assert!(!is_gzip_entry("a.jpg"));
    assert!(!is_gzip_entry("a.gz.bin"));
}

#[test]
fn decode_content_inflates_gz_paths_only() {
    let packed = gzip(b"hello");
    assert_eq!(decode_content("x.gz", packed.clone()), Ok(b"hello".to_vec()));
    assert_eq!(decode_content("x.bin", packed.clone()), Ok(packed));
    assert_eq!(decode_content("x.gz", vec![0xFF, 0xD8]), Err(CacheError::Decode));
}

#[test]
fn resolve_entry_reads_and_decodes() {
    let mut archive = zip::ZipArchive::new(Cursor::new(tile_package())).unwrap();
    assert_eq!(resolve_entry(&mut archive, "3dSceneLayer.json.gz"), Ok(b"{\"id\":1}".to_vec()));
    assert_eq!(resolve_entry(&mut archive, "nodes/0/textures/0_0.jpg"), Ok(JPEG.to_vec()));
    assert_eq!(resolve_entry(&mut archive, "nope"), Err(CacheError::EntryNotFound));
}
