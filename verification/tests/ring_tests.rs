use earworm::ring::RingBuffer;

#[test]
fn delay_reads_back_what_was_written() {
    let mut ring = RingBuffer::new(5, 0i32);
    for v in 1..=3 {
        ring.write_and_advance(v);
    }
    assert_eq!(ring.read_delayed(1), 3);
    assert_eq!(ring.read_delayed(2), 2);
    assert_eq!(ring.read_delayed(3), 1);
    assert_eq!(ring.read_delayed(4), 0);
    // Delays beyond the ring are capped at its size less one.
    assert_eq!(ring.read_delayed(100), ring.read_delayed(4));
    // A delay of 0 reads the slot the next write fills, the oldest value.
    assert_eq!(ring.read_delayed(0), 0);
}

#[test]
fn write_position_wraps() {
    let mut ring = RingBuffer::new(3, 0u8);
    assert_eq!(ring.write_pos(), 0);
    ring.write_and_advance(1);
    ring.write_and_advance(2);
    ring.write_and_advance(3);
    assert_eq!(ring.write_pos(), 0);
    ring.write_and_advance(4);
    assert_eq!(ring.values(), &vec![4, 2, 3]);
    assert_eq!(ring.len(), 3);
}

#[test]
fn history_shifts_by_one_per_write() {
    let mut ring = RingBuffer::new(6, 0i64);
    for v in 10..20 {
        let before = ring.read_delayed(2);
        ring.write_and_advance(v);
        assert_eq!(ring.read_delayed(3), before);
        assert_eq!(ring.read_delayed(1), v);
    }
}

#[test]
fn single_slot_ring() {
    let mut ring = RingBuffer::new(1, 7u8);
    assert_eq!(ring.read_delayed(5), 7);
    ring.write_and_advance(9);
    assert_eq!(ring.read_delayed(0), 9);
    assert_eq!(ring.write_pos(), 0);
}

/// One step of a fully wet delay line without feedback: play the tap, then
/// store the input.
fn delay_step(ring: &mut RingBuffer<i32>, delay: usize, input: i32) -> i32 {
    let out = ring.tap(delay, input);
    ring.write_and_advance(input);
    out
}

#[test]
fn delay_line_plays_input_back_later() {
    let xs: Vec<i32> = (1..=12).collect();
    for d in 0..5usize {
        let mut ring = RingBuffer::new(5, 0i32);
        for (n, &x) in xs.iter().enumerate() {
            let expected = if n >= d { xs[n - d] } else { 0 };
            assert_eq!(delay_step(&mut ring, d, x), expected, "delay {} at sample {}", d, n);
        }
    }
}

#[test]
fn zero_delay_plays_the_input_itself() {
    let mut ring = RingBuffer::new(4, 0i32);
    assert_eq!(delay_step(&mut ring, 0, 11), 11);
    assert_eq!(delay_step(&mut ring, 0, -3), -3);
    assert_eq!(ring.tap(0, 42), 42);
    // A non-zero tap still reads the history.
    assert_eq!(ring.tap(1, 42), -3);
    assert_eq!(ring.tap(2, 42), 11);
}
