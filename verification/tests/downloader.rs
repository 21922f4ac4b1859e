use ci_mirrors::downloader::{
    check_download, check_hash, download_url, fetch_message, fetched_message, format_size,
    legacy_fetch_message, DownloadError, Sha256Writer,
};
use ci_mirrors::entry::MirrorFile;
use ci_mirrors::source::{Source, SourceUrl};
use ci_mirrors::utils::{hex_of, to_hex, Sha256};

const ABC: &str = "ba7816bf8f01cfea414140de5dae2223b00361a396177a9cb410ff61f20015ad";
const EMPTY: &str = "e3b0c44298fc1c149afbf4c8996fb92427ae41e4649b934ca495991b7852b855";

fn managed(name: &str, sha256: &str, source: &str) -> MirrorFile {
    MirrorFile {
        name: String::from(name),
        sha256: String::from(sha256),
        source: Source::Url(SourceUrl::parse(source).unwrap()),
        rename_from: None,
    }
}

#[test]
fn hex_has_two_lower_case_digits_to_a_byte() {
    assert_eq!(hex_of(&[]), "");
    assert_eq!(hex_of(&[0x00, 0x0a, 0xa0, 0xff, 0x10, 0x01]), "000aa0ff1001");
    assert_eq!(hex_of(&[0xde, 0xad, 0xbe, 0xef]), "deadbeef");
}

#[test]
fn the_digest_of_nothing() {
    assert_eq!(to_hex(&Sha256::new()), EMPTY);
}

#[test]
fn the_digest_of_abc() {
    let mut hasher = Sha256::new();
    hasher.update(b"abc");
    assert_eq!(to_hex(&hasher), ABC);
    assert_eq!(hasher.digest().len(), 32);
}

#[test]
fn the_digest_does_not_depend_on_how_the_input_is_cut() {
    let mut hasher = Sha256::new();
    hasher.update(b"a");
    hasher.update(b"");
    hasher.update(b"bc");
    assert_eq!(to_hex(&hasher), ABC);
    // Taking the digest leaves the hasher as it was.
    assert_eq!(to_hex(&hasher), ABC);
    hasher.update(b"d");
    assert_ne!(to_hex(&hasher), ABC);
}

#[test]
fn the_writer_hashes_and_counts_what_was_written() {
    let mut writer = Sha256Writer::new();
    assert_eq!(writer.len(), 0);
    assert_eq!(writer.hex_digest(), EMPTY);
    // Only the bytes that the writer below accepted count.
    writer.record(b"abXYZ", 2);
    writer.record(b"c", 1);
    writer.record(b"ignored", 0);
    assert_eq!(writer.len(), 3);
    assert_eq!(writer.hex_digest(), ABC);
    assert_eq!(to_hex(writer.sha256()), ABC);
    assert_eq!(to_hex(&writer.into_sha256()), ABC);
}

#[test]
fn content_with_the_declared_hash_is_accepted() {
    let file = managed("abc.txt", ABC, "https://example.com/abc.txt");
    let mut writer = Sha256Writer::new();
    writer.record(b"abc", 3);
    assert_eq!(check_download(&file, &writer), Ok(()));
    assert_eq!(writer.len(), 3);
}

#[test]
fn content_with_another_hash_is_refused() {
    let file = managed("abc.txt", ABC, "https://example.com/abc.txt");
    let mut writer = Sha256Writer::new();
    writer.record(b"abcd", 4);
    let fault = check_download(&file, &writer).unwrap_err();
    assert_eq!(
        fault,
        DownloadError::HashMismatch {
            url: String::from("https://example.com/abc.txt"),
            expected: String::from(ABC),
            downloaded: String::from(
                "88d4266fd4e6338d13b845fcf289579d209c897823b9217da3e161936f031589"
            ),
        }
    );
    assert_eq!(
        fault.message(),
        format!(
            "the hash of https://example.com/abc.txt doesn't match (expected {ABC}, downloaded 88d4266fd4e6338d13b845fcf289579d209c897823b9217da3e161936f031589)"
        )
    );
    // The count is that of the bytes that came, whatever their hash.
    assert_eq!(writer.len(), 4);
}

#[test]
fn hashes_are_compared_letter_for_letter() {
    let file = managed("a", "ABC", "https://example.com/a");
    assert!(check_hash(&file, "abc").is_err());
    assert!(check_hash(&file, "ABC").is_ok());
    assert!(check_hash(&file, "ABC ").is_err());
}

#[test]
fn a_legacy_file_cannot_be_fetched() {
    let file = MirrorFile {
        name: String::from("old/thing.zip"),
        sha256: String::from("1"),
        source: Source::Legacy,
        rename_from: None,
    };
    let fault = DownloadError::Legacy { name: String::from("old/thing.zip") };
    assert_eq!(download_url(&file).unwrap_err(), fault);
    assert_eq!(check_hash(&file, "1").unwrap_err(), fault);
    assert_eq!(fault.message(), "cannot download legacy file old/thing.zip");
    assert_eq!(legacy_fetch_message("x"), "cannot download legacy file x");
}

#[test]
fn a_managed_file_is_fetched_from_its_url() {
    let file = managed("a", "1", "https://example.com/dl/a?x=1");
    assert_eq!(download_url(&file).unwrap().as_str(), "https://example.com/dl/a?x=1");
    assert_eq!(
        fetch_message(download_url(&file).unwrap().as_str()),
        "downloading https://example.com/dl/a?x=1..."
    );
}

#[test]
fn sizes_are_shown_with_two_decimals() {
    assert_eq!(format_size(0), "0.00 bytes");
    assert_eq!(format_size(1), "1.00 bytes");
    assert_eq!(format_size(999), "999.00 bytes");
    assert_eq!(format_size(1000), "1.00 kB");
    assert_eq!(format_size(1500), "1.50 kB");
    assert_eq!(format_size(1234), "1.23 kB");
    assert_eq!(format_size(1236), "1.24 kB");
    assert_eq!(format_size(999_999), "1000.00 kB");
    assert_eq!(format_size(1_000_000), "1.00 MB");
    assert_eq!(format_size(123_456_789), "123.46 MB");
    assert_eq!(format_size(1_000_000_000), "1.00 GB");
    assert_eq!(format_size(999_999_999_999), "1000.00 GB");
    assert_eq!(format_size(1_000_000_000_000), "1.00 TB");
    assert_eq!(format_size(5_432_100_000_000_000), "5432.10 TB");
}

#[test]
fn a_size_half_way_goes_to_the_even_hundredth() {
    assert_eq!(format_size(1125), "1.12 kB");
    assert_eq!(format_size(1135), "1.14 kB");
    assert_eq!(format_size(1005), "1.00 kB");
    assert_eq!(format_size(1_015_000), "1.02 MB");
}

#[test]
fn the_end_of_a_fetch_is_reported_with_the_size() {
    assert_eq!(fetched_message(2048), "  -> success! the size is 2.05 kB");
}
