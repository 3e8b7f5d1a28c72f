use elite_trader::scored_buf::{ScoredCircularBuffer, Sort};

fn new_buffer_desc() -> ScoredCircularBuffer<usize> {
    let mut buffer = ScoredCircularBuffer::new(2, Sort::Descending);
    buffer.push(1, 1);
    buffer.push(3, 3);
    buffer.push(5, 5);

    buffer.push(2, 2);
    buffer.push(4, 4);
    buffer.push(6, 6);

    buffer
}

fn new_buffer_asc() -> ScoredCircularBuffer<usize> {
    let mut buffer = ScoredCircularBuffer::new(2, Sort::Ascending);
    buffer.push(6, 6);
    buffer.push(4, 4);
    buffer.push(2, 2);

    buffer.push(5, 5);
    buffer.push(3, 3);
    buffer.push(1, 1);

    buffer
}

#[derive(PartialEq, Debug, Clone)]
struct BucketTest {
    val: usize,
    bkt: usize,
}

fn new_buffer_bucketed(sort: Sort) -> ScoredCircularBuffer<BucketTest> {
    let mut buffer = ScoredCircularBuffer::new(2, sort);

    buffer.push_bucket(BucketTest { val: 4, bkt: 1 }, 4, 1);
    buffer.push_bucket(BucketTest { val: 2, bkt: 1 }, 2, 1);
    buffer.push_bucket(BucketTest { val: 1, bkt: 1 }, 1, 1);

    buffer.push_bucket(BucketTest { val: 5, bkt: 2 }, 5, 2);
    buffer.push_bucket(BucketTest { val: 3, bkt: 2 }, 3, 2);

    buffer
}

#[test]
fn test_sort_desc() {
    let buffer_desc = new_buffer_desc();
    let mut desc_sort = buffer_desc.sort();
    println!("{:?}", desc_sort);
    let mut desc_sort_iter = desc_sort.drain(..);
    assert_eq!(desc_sort_iter.next(), Some(&6));
    assert_eq!(desc_sort_iter.next(), Some(&5));
    assert_eq!(desc_sort_iter.next(), None);
}

#[test]
fn test_sort_mut_desc() {
    let mut buffer_desc = new_buffer_desc();
    let mut desc_sort = buffer_desc.sort_mut();
    println!("{:?}", desc_sort);
    let mut desc_sort_iter = desc_sort.drain(..);
    assert_eq!(desc_sort_iter.next(), Some(6));
    assert_eq!(desc_sort_iter.next(), Some(5));
    assert_eq!(desc_sort_iter.next(), None);
}

#[test]
fn test_sort_asc() {
    let buffer_desc = new_buffer_asc();
    let mut desc_sort = buffer_desc.sort();
    let mut desc_sort_iter = desc_sort.drain(..);
    assert_eq!(desc_sort_iter.next(), Some(&1));
    assert_eq!(desc_sort_iter.next(), Some(&2));
    assert_eq!(desc_sort_iter.next(), None);
}

#[test]
fn test_sort_mut_asc() {
    let mut buffer_desc = new_buffer_asc();
    let mut desc_sort = buffer_desc.sort_mut();
    let mut desc_sort_iter = desc_sort.drain(..);
    assert_eq!(desc_sort_iter.next(), Some(1));
    assert_eq!(desc_sort_iter.next(), Some(2));
    assert_eq!(desc_sort_iter.next(), None);
}

#[test]
fn test_sort_bucket_asc() {
    let buffer_desc = new_buffer_bucketed(Sort::Ascending);
    let mut desc_sort = buffer_desc.sort();
    let mut desc_sort_iter = desc_sort.drain(..);
    assert_eq!(desc_sort_iter.next(), Some(&BucketTest { val: 1, bkt: 1 }));
    assert_eq!(desc_sort_iter.next(), Some(&BucketTest { val: 3, bkt: 2 }));
    assert_eq!(desc_sort_iter.next(), None);
}

#[test]
fn test_sort_bucket_desc() {
    let buffer_desc = new_buffer_bucketed(Sort::Descending);
    let mut desc_sort = buffer_desc.sort();
    let mut desc_sort_iter = desc_sort.drain(..);
    assert_eq!(desc_sort_iter.next(), Some(&BucketTest { val: 5, bkt: 2 }));
    assert_eq!(desc_sort_iter.next(), Some(&BucketTest { val: 4, bkt: 1 }));
    assert_eq!(desc_sort_iter.next(), None);
}

#[test]
fn test_len_never_exceeds_capacity() {
    let mut buffer: ScoredCircularBuffer<u32> = ScoredCircularBuffer::new(3, Sort::Descending);
    for k in 0..50u64 {
        buffer.push(k as u32, k);
        assert!(buffer.len() <= buffer.capacity());
    }
    assert_eq!(buffer.len(), 3);
}

#[test]
fn test_increasing_pushes_keep_top_k() {
    // After K+1 strictly increasing pushes in descending mode the buffer
    // holds exactly the top K scores.
    let mut buffer: ScoredCircularBuffer<u64> = ScoredCircularBuffer::new(3, Sort::Descending);
    for k in 1..=4u64 {
        buffer.push(k, k);
    }
    assert_eq!(buffer.len(), 3);
    let best = buffer.sort_mut();
    assert_eq!(best, vec![4, 3, 2]);
}

#[test]
fn test_bucket_keeps_best_per_key() {
    let mut buffer: ScoredCircularBuffer<u64> = ScoredCircularBuffer::new(4, Sort::Descending);
    buffer.push_bucket(10, 10, 7);
    buffer.push_bucket(90, 90, 7);
    buffer.push_bucket(40, 40, 7);
    assert_eq!(buffer.len(), 1);
    let best = buffer.sort_mut();
    assert_eq!(best, vec![90]);
}

#[test]
fn test_push_opt() {
    let mut buffer: ScoredCircularBuffer<u64> = ScoredCircularBuffer::new(2, Sort::Descending);
    buffer.push_opt(5, Some(5));
    buffer.push_opt(9, None);
    assert_eq!(buffer.len(), 1);
}

#[test]
fn test_append_merges() {
    let mut a: ScoredCircularBuffer<u64> = ScoredCircularBuffer::new(2, Sort::Descending);
    a.push(1, 1);
    a.push(2, 2);
    let mut b: ScoredCircularBuffer<u64> = ScoredCircularBuffer::new(2, Sort::Descending);
    b.push(3, 3);
    b.push(4, 4);
    a.append(&mut b);
    assert_eq!(b.len(), 0);
    let best = a.sort_mut();
    assert_eq!(best, vec![4, 3]);
}
