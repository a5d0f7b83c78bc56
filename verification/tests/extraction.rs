use std::io::{Cursor, Write};

use flate2::write::GzEncoder;
use flate2::Compression;
use zed_registry::files::{extract_file, max_inflated_bytes, ExtractError, MAX_SERVED_FILE_BYTES};
use zed_registry::publish::ArtifactFormat;

fn tiny_archive() -> Vec<u8> {
    let encoder = GzEncoder::new(Vec::new(), Compression::default());
    let mut builder = tar::Builder::new(encoder);
    let data = b"body { color: orange }";
    let mut header = tar::Header::new_gnu();
    header.set_size(data.len() as u64);
    header.set_mode(0o644);
    header.set_cksum();
    builder.append_data(&mut header, "pkg/dist/style.css", data.as_slice()).unwrap();
    builder.into_inner().unwrap().finish().unwrap()
}

fn tiny_zip() -> Vec<u8> {
    let mut writer = zip::ZipWriter::new(Cursor::new(Vec::new()));
    writer.start_file("pkg/dist/style.css", zip::write::SimpleFileOptions::default()).unwrap();
    writer.write_all(b"body { color: orange }").unwrap();
    writer.finish().unwrap().into_inner()
}

/// A tar.gz whose only entry declares `declared` bytes but carries none.
fn lying_archive(declared: u64) -> Vec<u8> {
    let mut encoder = GzEncoder::new(Vec::new(), Compression::default());
    let mut header = tar::Header::new_gnu();
    header.set_path("pkg/huge.bin").unwrap();
    header.set_size(declared);
    header.set_mode(0o644);
    header.set_cksum();
    encoder.write_all(header.as_bytes()).unwrap();
    encoder.finish().unwrap()
}

/// A tar.gz of `entries` highly-compressible entries of `each` bytes.
fn compressible_archive(entries: usize, each: usize) -> Vec<u8> {
    let encoder = GzEncoder::new(Vec::new(), Compression::default());
    let mut builder = tar::Builder::new(encoder);
    let zeros = vec![0u8; each];
    for i in 0..entries {
        let mut header = tar::Header::new_gnu();
        header.set_path(format!("pkg/filler-{i}.bin")).unwrap();
        header.set_size(each as u64);
        header.set_mode(0o644);
        header.set_cksum();
        builder.append(&header, &zeros[..]).unwrap();
    }
    builder.into_inner().unwrap().finish().unwrap()
}

fn default_budget() -> u64 {
    max_inflated_bytes(None)
}

#[test]
fn extracts_by_relative_path() {
    let archive = tiny_archive();
    let found = extract_file(&archive, ArtifactFormat::TarGz, "dist/style.css", default_budget()).unwrap();
    assert_eq!(found.unwrap(), b"body { color: orange }");
    assert!(extract_file(&archive, ArtifactFormat::TarGz, "missing.css", default_budget()).unwrap().is_none());
}

#[test]
fn zip_extracts_by_relative_path() {
    let archive = tiny_zip();
    let found = extract_file(&archive, ArtifactFormat::Zip, "dist/style.css", default_budget()).unwrap();
    assert_eq!(found.unwrap(), b"body { color: orange }");
    assert!(extract_file(&archive, ArtifactFormat::Zip, "missing.css", default_budget()).unwrap().is_none());
}

#[test]
fn rejects_oversized_declared_entry() {
    let archive = lying_archive(MAX_SERVED_FILE_BYTES + 1);
    let err = extract_file(&archive, ArtifactFormat::TarGz, "huge.bin", default_budget()).unwrap_err();
    assert!(matches!(err, ExtractError::TooLarge));
}

#[test]
fn aggregate_inflation_budget_stops_a_gzip_bomb() {
    // 64 MiB inflated, ~64 KiB on the wire.
    let archive = compressible_archive(64, 1024 * 1024);
    assert!(archive.len() < 1024 * 1024, "bomb should be tiny compressed, got {} bytes", archive.len());

    // Budget below the inflated size: the scan is cut off.
    let err = extract_file(&archive, ArtifactFormat::TarGz, "not-here.bin", max_inflated_bytes(Some("8388608")))
        .unwrap_err();
    assert!(matches!(err, ExtractError::InflationBudgetExceeded), "expected budget stop, got {err:?}");

    // Budget above it: an honest (if large) archive scans cleanly to a miss.
    let found =
        extract_file(&archive, ArtifactFormat::TarGz, "not-here.bin", max_inflated_bytes(Some("134217728"))).unwrap();
    assert!(found.is_none());
}

#[test]
fn budget_does_not_affect_normal_extraction() {
    let archive = tiny_archive();
    let found = extract_file(&archive, ArtifactFormat::TarGz, "dist/style.css", default_budget()).unwrap();
    assert_eq!(found.unwrap(), b"body { color: orange }");
}

#[test]
fn an_entry_found_before_the_budget_runs_out_is_served() {
    let mut builder = tar::Builder::new(GzEncoder::new(Vec::new(), Compression::default()));
    let mut header = tar::Header::new_gnu();
    header.set_size(2);
    header.set_mode(0o644);
    header.set_cksum();
    builder.append_data(&mut header, "pkg/a.txt", &b"ok"[..]).unwrap();
    let zeros = vec![0u8; 4 * 1024 * 1024];
    let mut header = tar::Header::new_gnu();
    header.set_size(zeros.len() as u64);
    header.set_mode(0o644);
    header.set_cksum();
    builder.append_data(&mut header, "pkg/big.bin", &zeros[..]).unwrap();
    let archive = builder.into_inner().unwrap().finish().unwrap();
    let found = extract_file(&archive, ArtifactFormat::TarGz, "a.txt", 1024 * 1024).unwrap();
    assert_eq!(found.unwrap(), b"ok");
    assert!(matches!(
        extract_file(&archive, ArtifactFormat::TarGz, "missing.txt", 1024 * 1024),
        Err(ExtractError::InflationBudgetExceeded)
    ));
}

#[test]
fn corrupt_gzip_is_an_archive_error() {
    match extract_file(b"definitely not gzip", ArtifactFormat::TarGz, "a.txt", default_budget()) {
        Err(ExtractError::Archive(message)) => assert!(!message.is_empty()),
        other => panic!("expected an archive error, got {other:?}"),
    }
}
