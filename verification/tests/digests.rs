use dko_launcher::digest::{format_download_size, sha256_text, Download, DownloadError};
use dko_launcher::install::game_download_message;
use dko_launcher::launch::launcher_download_message;

const EMPTY: &str = "e3b0c44298fc1c149afbf4c8996fb92427ae41e4649b934ca495991b7852b855";
const ABC: &str = "ba7816bf8f01cfea414140de5dae2223b00361a396177a9cb410ff61f20015ad";

#[test]
fn digests_are_sha256_in_hexadecimal() {
    assert_eq!(sha256_text(b""), EMPTY);
    assert_eq!(sha256_text(b"abc"), ABC);
}

#[test]
fn intact_downloads_are_handed_out() {
    let mut download = Download::new(3, &ABC.to_uppercase());
    assert_eq!(download.take(b"a").ok(), Some(1));
    assert_eq!(download.take(b"bc").ok(), Some(3));
    assert_eq!(download.finish().ok(), Some(b"abc".to_vec()));
}

#[test]
fn long_downloads_end_at_once() {
    let mut download = Download::new(2, ABC);
    assert_eq!(download.take(b"ab").ok(), Some(2));
    let error = download.take(b"c").err().unwrap();
    assert!(matches!(error, DownloadError::TooLong));
    assert_eq!(error.message(), "downloaded managed file exceeds its declared size");
    assert_eq!(download.body, b"ab");
}

#[test]
fn damaged_downloads_are_refused() {
    let mut download = Download::new(3, EMPTY);
    download.take(b"abc").ok().unwrap();
    assert_eq!(
        download.finish().err().unwrap().message(),
        format!(
            "downloaded managed file failed integrity verification: expected size 3 and SHA-256 {EMPTY}, received size 3 and SHA-256 {ABC}"
        )
    );
    let short = Download::new(1, EMPTY);
    assert!(short.finish().is_err());
}

fn with_floats(bytes: u64) -> String {
    if bytes >= 1024 * 1024 {
        format!("{:.1} MB", bytes as f64 / (1024.0 * 1024.0))
    } else if bytes >= 1024 {
        format!("{:.1} KB", bytes as f64 / 1024.0)
    } else {
        format!("{bytes} B")
    }
}

#[test]
fn sizes_are_written_with_one_decimal() {
    assert_eq!(format_download_size(0), "0 B");
    assert_eq!(format_download_size(1023), "1023 B");
    assert_eq!(format_download_size(1024), "1.0 KB");
    assert_eq!(format_download_size(1536), "1.5 KB");
    assert_eq!(format_download_size(1024 * 1024), "1.0 MB");
    assert_eq!(format_download_size(1_300_000_000), "1239.8 MB");
}

#[test]
fn sizes_are_rounded_as_doubles_are() {
    let mut samples: Vec<u64> = (0..20000).collect();
    samples.extend((0..4000).map(|i| 1024 * 1024 + i * 26214));
    samples.extend((0..64).map(|i| 1u64 << i));
    samples.extend((0..64).map(|i| (1u64 << i).wrapping_sub(1)));
    samples.extend([u64::MAX, u64::MAX - 1024, u64::MAX - 1025, (1 << 53) + 1, (1 << 53) + 3, (1 << 60) + 64, (1 << 60) + 192]);
    for bytes in samples {
        assert_eq!(format_download_size(bytes), with_floats(bytes), "{bytes}");
    }
}

#[test]
fn download_messages() {
    assert_eq!(game_download_message("A.pak", 1536, 1024 * 1024), "Downloading game update: A.pak — 1.5 KB / 1.0 MB");
    assert_eq!(launcher_download_message(0, 10), "Downloading launcher update — 0 B / 10 B");
}
