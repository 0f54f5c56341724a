use diffcopy::engine::sync;
use diffcopy::file_model::ByteReader;
use diffcopy::file_model::SyncFile;

/// Deterministic pseudorandom bytes for the large scenarios.
fn pseudorandom_bytes(seed: u64, len: usize) -> Vec<u8> {
    let mut state: u64 = seed.wrapping_mul(6364136223846793005).wrapping_add(1442695040888963407);
    let mut out: Vec<u8> = Vec::with_capacity(len);
    for _ in 0..len {
        state = state.wrapping_mul(6364136223846793005).wrapping_add(1442695040888963407);
        out.push((state >> 33) as u8);
    }
    out
}

#[test]
fn full_match() {
    let wanted = b"foo\nbar\n";
    let mut source = ByteReader::new(wanted.to_vec());
    let mut dest = SyncFile::new(wanted.to_vec());
    let bytes_copied = sync(&mut source, &mut dest);
    assert_eq!(bytes_copied, wanted.len() as u64);
    assert_eq!(dest.bytes().as_slice(), &wanted[..]);
}

#[test]
fn partial_match() {
    let wanted = b"foo\nbar\n";
    let mut source = ByteReader::new(wanted.to_vec());
    let mut dest = SyncFile::new(b"foo\nbaz\n".to_vec());
    let bytes_copied = sync(&mut source, &mut dest);
    assert_eq!(bytes_copied, wanted.len() as u64);
    assert_eq!(dest.bytes().as_slice(), &wanted[..]);
}

#[test]
fn no_match() {
    let wanted = b"foo\nbar\n";
    let mut source = ByteReader::new(wanted.to_vec());
    let mut dest = SyncFile::new(b"yes\nope\n".to_vec());
    let bytes_copied = sync(&mut source, &mut dest);
    assert_eq!(bytes_copied, wanted.len() as u64);
    assert_eq!(dest.bytes().as_slice(), &wanted[..]);
}

#[test]
fn empty_file() {
    let wanted = b"foo\nbar\n";
    let mut source = ByteReader::new(wanted.to_vec());
    let mut dest = SyncFile::new(Vec::new());
    let bytes_copied = sync(&mut source, &mut dest);
    assert_eq!(bytes_copied, wanted.len() as u64);
    assert_eq!(dest.bytes().as_slice(), &wanted[..]);
}

#[test]
fn actual_needs_trim() {
    let wanted = b"foo\nbar\n";
    let mut source = ByteReader::new(wanted.to_vec());
    let mut dest = SyncFile::new(b"foo\nbar\nbaz\n".to_vec());
    let bytes_copied = sync(&mut source, &mut dest);
    assert_eq!(bytes_copied, wanted.len() as u64);
    assert_eq!(dest.bytes().as_slice(), &wanted[..]);
}

#[test]
fn large_match() {
    let wanted = pseudorandom_bytes(1, 200_000);
    let mut source = ByteReader::new(wanted.clone());
    let mut dest = SyncFile::new(wanted.clone());
    let bytes_copied = sync(&mut source, &mut dest);
    assert_eq!(bytes_copied, wanted.len() as u64);
    assert_eq!(dest.bytes().as_slice(), &wanted[..]);
    assert_eq!(dest.bytes_written(), 0);
}

#[test]
fn large_partial_match() {
    let wanted = pseudorandom_bytes(2, 200_000);
    let mut actual_start = wanted.clone();
    // Same bytes until deep into the stream, then a diverging, shorter tail.
    actual_start.truncate(150_000);
    actual_start.extend_from_slice(&pseudorandom_bytes(3, 20_000));
    let mut source = ByteReader::new(wanted.clone());
    let mut dest = SyncFile::new(actual_start);
    let bytes_copied = sync(&mut source, &mut dest);
    assert_eq!(bytes_copied, wanted.len() as u64);
    assert_eq!(dest.bytes().as_slice(), &wanted[..]);
}

#[test]
fn large_complete_mismatch() {
    let wanted = pseudorandom_bytes(4, 200_000);
    let actual_start = pseudorandom_bytes(5, 200_000);
    let mut source = ByteReader::new(wanted.clone());
    let mut dest = SyncFile::new(actual_start);
    let bytes_copied = sync(&mut source, &mut dest);
    assert_eq!(bytes_copied, wanted.len() as u64);
    assert_eq!(dest.bytes().as_slice(), &wanted[..]);
}
