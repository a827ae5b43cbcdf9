use rccopy::algorithm::Algorithm;
use rccopy::digest::checksum_of;
use rccopy::throughput::{ThroughputMeter, SAMPLE_INTERVAL_NANOS, WINDOW_SIZE};
use rccopy::transfer::{copy_bytes, Transfer, CHUNK_SIZE};

#[test]
fn chunk_size_is_eight_mebibytes() {
    assert_eq!(CHUNK_SIZE, 1024 * 1024 * 8);
}

#[test]
fn transfer_without_algorithm_gives_no_checksum() {
    let mut transfer = Transfer::begin(None);
    assert_eq!(transfer.on_chunk(b"0123456789abcdef", 5), Ok(None));
    assert!(transfer.finish().is_none());
}

#[test]
fn transfer_checksum_is_that_of_the_whole_stream() {
    let data: Vec<u8> = (0..10_000u32).map(|i| (i % 251) as u8).collect();
    for algorithm in [Algorithm::Md5, Algorithm::Sha1, Algorithm::Xxh64] {
        let mut transfer = Transfer::begin(Some(algorithm));
        for chunk in data.chunks(777) {
            transfer.on_chunk(chunk, 1).unwrap();
        }
        let checksum = transfer.finish().unwrap();
        assert_eq!(checksum.algorithm, algorithm);
        assert_eq!(checksum.text, checksum_of(algorithm, &data).unwrap());
    }
}

#[test]
fn transfer_of_nothing_gives_the_checksum_of_the_empty_stream() {
    let checksum = Transfer::begin(Some(Algorithm::Xxh64)).finish().unwrap();
    assert_eq!(checksum.text, "ef46db3751d8e999");
}

#[test]
fn transfer_reports_a_rate_once_the_interval_has_passed() {
    let mut transfer = Transfer::begin(None);
    let chunk = vec![0u8; 1000];
    assert_eq!(transfer.on_chunk(&chunk, SAMPLE_INTERVAL_NANOS), Ok(None));
    // 2000 bytes in a fifth of a second: 10000 bytes per second.
    assert_eq!(transfer.on_chunk(&chunk, 200_000_000), Ok(Some(10_000)));
    // The count started again: 1000 bytes in a second.
    assert_eq!(transfer.on_chunk(&chunk, 1_000_000_000), Ok(Some((10_000 + 1_000) / 2)));
}

#[test]
fn meter_counts_within_the_interval_and_samples_past_it() {
    let mut meter = ThroughputMeter::new();
    assert_eq!(meter.record(500, 0), None);
    assert_eq!(meter.record(500, SAMPLE_INTERVAL_NANOS), None);
    assert_eq!(meter.record(0, SAMPLE_INTERVAL_NANOS + 1), Some(1000 * 1_000_000_000 / (SAMPLE_INTERVAL_NANOS + 1)));
}

#[test]
fn meter_window_keeps_the_last_ten_samples() {
    let mut meter = ThroughputMeter::new();
    let second: u64 = 1_000_000_000;
    let mut sum: u64 = 0;
    let mut i: u64 = 1;
    while i <= WINDOW_SIZE as u64 {
        sum += i * 100;
        assert_eq!(meter.record(i * 100, second), Some(sum / i));
        i += 1;
    }
    // The eleventh sample pushes the first (100) out.
    assert_eq!(meter.record(1100, second), Some((sum - 100 + 1100) / 10));
    // The twelfth pushes the second (200) out.
    assert_eq!(meter.record(0, second), Some((sum - 100 - 200 + 1100) / 10));
}

#[test]
fn meter_rates_stop_at_the_largest_value() {
    let mut meter = ThroughputMeter::new();
    assert_eq!(meter.record(u64::MAX, 0), None);
    assert_eq!(meter.record(u64::MAX, 0), None);
    assert_eq!(meter.record(0, SAMPLE_INTERVAL_NANOS + 1), Some(u64::MAX));
    assert_eq!(meter.record(0, u64::MAX), Some(u64::MAX / 2));
}

#[test]
fn copy_replaces_what_the_destination_held() {
    let mut destination = vec![9u8; 100];
    let checksum = copy_bytes(b"0123456789abcdef", &mut destination, Some(Algorithm::Md5)).unwrap().unwrap();
    assert_eq!(destination, b"0123456789abcdef");
    assert_eq!(checksum.algorithm, Algorithm::Md5);
    assert_eq!(checksum.text, checksum_of(Algorithm::Md5, b"0123456789abcdef").unwrap());
    assert_eq!(copy_bytes(b"", &mut destination, None), Ok(None));
    assert!(destination.is_empty());
}

#[test]
fn copy_of_more_than_one_chunk_arrives_whole() {
    let mut source = vec![0u8; CHUNK_SIZE + CHUNK_SIZE / 2 + 3];
    let mut i: usize = 0;
    while i < source.len() {
        source[i] = (i % 253) as u8;
        i += 4099;
    }
    let mut destination = Vec::new();
    let checksum = copy_bytes(&source, &mut destination, Some(Algorithm::Xxh64)).unwrap().unwrap();
    assert!(destination == source);
    assert_eq!(checksum.text, format!("{:016x}", xxhash_rust::xxh64::xxh64(&source, 0)));
}
