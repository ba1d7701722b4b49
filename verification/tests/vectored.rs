//! Tests of the scatter/gather logic behind the vectored read and write
//! paths.

use mio_uds_windows::vectored::{gather, scatter, total_capacity};

#[test]
fn gather_concatenates_in_order() {
    let bufs = vec![b"ab".to_vec(), b"".to_vec(), b"cde".to_vec()];
    assert_eq!(gather(&bufs), b"abcde".to_vec());
}

#[test]
fn gather_of_nothing_is_empty() {
    let bufs: Vec<Vec<u8>> = Vec::new();
    assert_eq!(gather(&bufs), Vec::<u8>::new());
}

#[test]
fn scatter_fills_each_buffer_entirely_before_the_next() {
    let data = b"abcdef".to_vec();
    let caps = vec![2usize, 3usize, 4usize];
    let out = scatter(&data, &caps);
    assert_eq!(out.len(), 3);
    assert_eq!(out[0], b"ab".to_vec());
    assert_eq!(out[1], b"cde".to_vec());
    assert_eq!(out[2], b"f".to_vec());
}

#[test]
fn scatter_leaves_trailing_buffers_empty() {
    let data = b"ab".to_vec();
    let caps = vec![4usize, 4usize];
    let out = scatter(&data, &caps);
    assert_eq!(out[0], b"ab".to_vec());
    assert_eq!(out[1], Vec::<u8>::new());
}

#[test]
fn scatter_then_gather_round_trips() {
    let data = b"the quick brown fox".to_vec();
    let caps = vec![1usize, 5usize, 0usize, 7usize, 100usize];
    let out = scatter(&data, &caps);
    assert_eq!(gather(&out), data);
}

#[test]
fn total_capacity_sums_and_saturates() {
    assert_eq!(total_capacity(&vec![1usize, 2, 3]), 6);
    assert_eq!(total_capacity(&Vec::new()), 0);
    assert_eq!(total_capacity(&vec![usize::MAX, 5]), usize::MAX);
}
