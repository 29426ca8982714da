//! Checks of the crate-metadata helpers against real archives and real
//! compression.

use clif_lower::metadata::{
    compress_metadata, metadata_kind, CrateType, CraneliftMetadataLoader, MetadataKind,
};
use std::io::Read;

const METADATA_FILENAME: &[u8] = b"rust.metadata.bin";

fn archive_with(members: &[(&[u8], &[u8])]) -> Vec<u8> {
    let mut builder = ar::Builder::new(Vec::new());
    for (name, data) in members {
        let header = ar::Header::new(name.to_vec(), data.len() as u64);
        builder.append(&header, *data).unwrap();
    }
    builder.into_inner().unwrap()
}

fn members_of(data: &[u8]) -> Vec<(Vec<u8>, Vec<u8>)> {
    let mut archive = ar::Archive::new(data);
    let mut out = Vec::new();
    while let Some(entry_result) = archive.next_entry() {
        let mut entry = entry_result.unwrap();
        let identifier = entry.header().identifier().to_vec();
        let mut contents = Vec::new();
        std::io::copy(&mut entry, &mut contents).unwrap();
        out.push((identifier, contents));
    }
    out
}

#[test]
fn rlib_metadata_is_the_named_member() {
    let archive = archive_with(&[
        (b"other.o", b"not metadata"),
        (METADATA_FILENAME, b"the crate metadata"),
        (b"trailing.o", b"also not metadata"),
    ]);
    let entries = members_of(&archive);
    let loader = CraneliftMetadataLoader;
    let found = loader.get_rlib_metadata(&entries, METADATA_FILENAME).unwrap();
    assert_eq!(found, b"the crate metadata");
}

#[test]
fn first_member_with_the_name_wins() {
    let entries = vec![
        (METADATA_FILENAME.to_vec(), b"first".to_vec()),
        (METADATA_FILENAME.to_vec(), b"second".to_vec()),
    ];
    let loader = CraneliftMetadataLoader;
    assert_eq!(loader.get_rlib_metadata(&entries, METADATA_FILENAME).unwrap(), b"first");
}

#[test]
fn rlib_without_metadata_member_is_an_error() {
    let archive = archive_with(&[(b"other.o", b"not metadata")]);
    let entries = members_of(&archive);
    let loader = CraneliftMetadataLoader;
    let r = loader.get_rlib_metadata(&entries, METADATA_FILENAME);
    assert_eq!(r, Err("couldn't find metadata entry".to_string()));
}

#[test]
fn compressed_metadata_round_trips_through_inflate() {
    let version = b"rust\x00\x00\x00\x05";
    let payload: Vec<u8> = (0u32..2000).map(|i| (i % 256) as u8).collect();
    let out = compress_metadata(version, &payload);
    assert_eq!(&out[..version.len()], version);
    let mut decoder = flate2::read::DeflateDecoder::new(&out[version.len()..]);
    let mut back = Vec::new();
    decoder.read_to_end(&mut back).unwrap();
    assert_eq!(back, payload);
}

#[test]
fn metadata_kind_takes_the_most_demanding_crate_type() {
    assert_eq!(metadata_kind(&vec![]), MetadataKind::NoMetadata);
    assert_eq!(
        metadata_kind(&vec![CrateType::Executable, CrateType::Staticlib, CrateType::Cdylib]),
        MetadataKind::NoMetadata
    );
    assert_eq!(
        metadata_kind(&vec![CrateType::Executable, CrateType::Rlib]),
        MetadataKind::Uncompressed
    );
    assert_eq!(
        metadata_kind(&vec![CrateType::Rlib, CrateType::Dylib, CrateType::Executable]),
        MetadataKind::Compressed
    );
    assert_eq!(metadata_kind(&vec![CrateType::ProcMacro]), MetadataKind::Compressed);
}
