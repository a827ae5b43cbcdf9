use rccopy::algorithm::Algorithm;
use rccopy::digest::{checksum_in_chunks, checksum_of, checksum_of_chunks, HashEngine};

#[test]
fn md5_of_known_messages() {
    assert_eq!(checksum_of(Algorithm::Md5, b"").unwrap(), "d41d8cd98f00b204e9800998ecf8427e");
    assert_eq!(
        checksum_of(Algorithm::Md5, b"hello world").unwrap(),
        "5eb63bbbe01eeed093cb22bb8f5acdc3"
    );
}

#[test]
fn sha1_of_known_messages() {
    assert_eq!(
        checksum_of(Algorithm::Sha1, b"").unwrap(),
        "da39a3ee5e6b4b0d3255bfef95601890afd80709"
    );
    assert_eq!(
        checksum_of(Algorithm::Sha1, b"hello world").unwrap(),
        "2aae6c35c94fcfb415dbe95f408b9ce91ee846ed"
    );
}

#[test]
fn xxh64_of_known_messages() {
    assert_eq!(checksum_of(Algorithm::Xxh64, b"").unwrap(), "ef46db3751d8e999");
    assert_eq!(
        checksum_of(Algorithm::Xxh64, b"0123456789abcdef").unwrap(),
        format!("{:016x}", xxhash_rust::xxh64::xxh64(b"0123456789abcdef", 0))
    );
}

#[test]
fn checksum_does_not_depend_on_chunking() {
    let mut data: Vec<u8> = Vec::new();
    let mut i: u32 = 0;
    while i < 1000 {
        data.push((i * 7 + 3) as u8);
        i += 1;
    }
    for algorithm in [Algorithm::Md5, Algorithm::Sha1, Algorithm::Xxh64] {
        let whole = checksum_of(algorithm, &data).unwrap();
        for size in [0usize, 1, 2, 3, 31, 32, 33, 63, 64, 65, 999, 1000, 1001, 5000] {
            assert_eq!(checksum_in_chunks(algorithm, &data, size).unwrap(), whole);
        }
        let chunks = vec![data[..10].to_vec(), Vec::new(), data[10..700].to_vec(), data[700..].to_vec()];
        assert_eq!(checksum_of_chunks(algorithm, &chunks).unwrap(), whole);
        let mut engine = HashEngine::new(algorithm);
        for byte in data.iter() {
            engine.update(&[*byte]).unwrap();
        }
        assert_eq!(engine.finalize(), whole);
    }
}

#[test]
fn checksum_width_is_fixed_per_algorithm() {
    for (algorithm, width) in [(Algorithm::Md5, 32usize), (Algorithm::Sha1, 40), (Algorithm::Xxh64, 16)] {
        let text = checksum_of(algorithm, b"abc").unwrap();
        assert_eq!(text.len(), width);
        assert_eq!(algorithm.hex_width(), width);
        assert!(text.chars().all(|c| c.is_ascii_digit() || ('a'..='f').contains(&c)));
    }
}

#[test]
fn xxh64_digest_keeps_leading_zeros() {
    // Search a short message whose hash starts with a zero digit.
    let mut n: u32 = 0;
    loop {
        let message = n.to_le_bytes();
        let hash = xxhash_rust::xxh64::xxh64(&message, 0);
        if hash >> 60 == 0 {
            let text = checksum_of(Algorithm::Xxh64, &message).unwrap();
            assert_eq!(text.len(), 16);
            assert!(text.starts_with('0'));
            assert_eq!(text, format!("{:016x}", hash));
            break;
        }
        n += 1;
    }
}
