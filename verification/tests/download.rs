use zou::RangeBytes;
use zou::download::{apply_chunks, effective_worker_count, partition, write_at};

#[test]
fn partition_even_split() {
    let ranges = partition(10_000, 4);
    assert_eq!(
        ranges,
        vec![
            RangeBytes(0, 2500),
            RangeBytes(2500, 5000),
            RangeBytes(5000, 7500),
            RangeBytes(7500, 10_000),
        ]
    );
}

#[test]
fn partition_last_range_absorbs_remainder() {
    let ranges = partition(10, 3);
    assert_eq!(
        ranges,
        vec![RangeBytes(0, 3), RangeBytes(3, 6), RangeBytes(6, 10)]
    );
    let sizes: Vec<u64> = ranges.iter().map(|r| r.1 - r.0).collect();
    assert_eq!(sizes, vec![3, 3, 4]);
}

#[test]
fn partition_zero_length_yields_no_chunk() {
    assert_eq!(partition(0, 8), vec![]);
}

#[test]
fn partition_more_workers_than_bytes() {
    let ranges = partition(2, 4);
    assert_eq!(ranges.len(), 4);
    assert_eq!(ranges[3], RangeBytes(0, 2));
    for w in ranges.windows(2) {
        assert!(w[0].1 <= w[1].0);
    }
}

#[test]
fn partition_single_worker() {
    assert_eq!(partition(7, 1), vec![RangeBytes(0, 7)]);
}

#[test]
fn effective_worker_count_forces_one_without_partial_content() {
    assert_eq!(effective_worker_count(false, 8), 1);
    assert_eq!(effective_worker_count(true, 8), 8);
    assert_eq!(partition(10_000, effective_worker_count(false, 8)).len(), 1);
}

#[test]
fn write_at_touches_only_its_window() {
    let mut out = vec![7u8; 10];
    write_at(&mut out, 3, &vec![1, 2, 3]);
    assert_eq!(out, vec![7, 7, 7, 1, 2, 3, 7, 7, 7, 7]);
}

#[test]
fn full_download_assembles_every_byte() {
    let content_length: u64 = 10_000;
    let workers = effective_worker_count(true, 4);
    let ranges = partition(content_length, workers);
    assert_eq!(ranges.len(), 4);
    let expected: Vec<u8> = (0..content_length).map(|i| (i % 251) as u8).collect();
    let chunks: Vec<Option<Vec<u8>>> = ranges
        .iter()
        .map(|r| Some(expected[r.0 as usize..r.1 as usize].to_vec()))
        .collect();
    let mut out = vec![0u8; content_length as usize];
    let ok = apply_chunks(&mut out, &ranges, &chunks);
    assert!(ok);
    assert_eq!(out.len(), 10_000);
    assert_eq!(out, expected);
}

#[test]
fn one_failed_chunk_taints_the_download() {
    let content_length: u64 = 1_000;
    let ranges = partition(content_length, 4);
    let expected: Vec<u8> = (0..content_length).map(|i| (i % 251) as u8).collect();
    let chunks: Vec<Option<Vec<u8>>> = ranges
        .iter()
        .enumerate()
        .map(|(i, r)| {
            if i == 2 {
                None
            } else {
                Some(expected[r.0 as usize..r.1 as usize].to_vec())
            }
        })
        .collect();
    let mut out = vec![0xAAu8; content_length as usize];
    let ok = apply_chunks(&mut out, &ranges, &chunks);
    assert!(!ok);
    // the other three ranges were still written out
    for (i, r) in ranges.iter().enumerate() {
        for p in r.0..r.1 {
            if i == 2 {
                assert_eq!(out[p as usize], 0xAA);
            } else {
                assert_eq!(out[p as usize], expected[p as usize]);
            }
        }
    }
}

#[test]
fn zero_length_download_trivially_succeeds() {
    let ranges = partition(0, 4);
    let chunks: Vec<Option<Vec<u8>>> = Vec::new();
    let mut out: Vec<u8> = Vec::new();
    assert!(apply_chunks(&mut out, &ranges, &chunks));
    assert!(out.is_empty());
}
