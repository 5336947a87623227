//! Reassembling a file from reads that return in chunks of varying sizes.

use jvm_getter::reader::ByteAccumulator;

fn source(len: usize) -> Vec<u8> {
    (0..len).map(|i| (i * 7 + 3) as u8).collect()
}

/// Feeds `acc` slices of `src` whose lengths cycle through `sizes`, the way
/// a file whose reads return short would, until the accumulator is
/// satisfied.
fn feed_in_chunks(acc: &mut ByteAccumulator, src: &[u8], sizes: &[usize]) {
    let mut pos = 0usize;
    let mut turn = 0usize;
    while acc.wants_more() {
        let want = acc.remaining();
        let step = sizes[turn % sizes.len()].min(want).min(src.len() - pos);
        turn += 1;
        let chunk = src[pos..pos + step].to_vec();
        pos += step;
        acc.push_chunk(&chunk);
        if step == 0 {
            break;
        }
    }
}

#[test]
fn chunked_reads_match_single_read() {
    let src = source(100);
    for sizes in [&[1usize][..], &[7, 3, 1][..], &[13][..], &[100][..], &[64, 64][..]] {
        let mut acc = ByteAccumulator::new(src.len());
        feed_in_chunks(&mut acc, &src, sizes);
        assert_eq!(acc.into_bytes(), src);
    }
}

#[test]
fn whole_file_in_one_chunk() {
    let src = source(37);
    let mut acc = ByteAccumulator::new(src.len());
    acc.push_chunk(&src);
    assert!(!acc.wants_more());
    assert_eq!(acc.into_bytes(), src);
}

#[test]
fn an_empty_read_ends_accumulation_short() {
    // A read that returns no bytes before the expected total is reached ends
    // the accumulation; the buffer is handed on short, exactly as read.
    let src = source(50);
    let mut acc = ByteAccumulator::new(src.len());
    acc.push_chunk(&src[..20].to_vec());
    assert!(acc.wants_more());
    assert_eq!(acc.remaining(), 30);
    acc.push_chunk(&Vec::new());
    assert!(!acc.wants_more());
    assert_eq!(acc.into_bytes(), src[..20].to_vec());
}

#[test]
fn remaining_counts_down_to_zero() {
    let mut acc = ByteAccumulator::new(10);
    assert_eq!(acc.remaining(), 10);
    acc.push_chunk(&vec![1, 2, 3, 4]);
    assert_eq!(acc.remaining(), 6);
    acc.push_chunk(&vec![5, 6, 7, 8, 9, 10]);
    assert_eq!(acc.remaining(), 0);
    assert!(!acc.wants_more());
}

#[test]
fn empty_file_reads_empty() {
    let mut acc = ByteAccumulator::new(0);
    assert!(!acc.wants_more());
    assert_eq!(acc.remaining(), 0);
    assert_eq!(acc.into_bytes(), Vec::<u8>::new());
}
