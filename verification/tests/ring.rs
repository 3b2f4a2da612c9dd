use fast_audio_resampler::{next_power_of_two, RingBuffer};

#[test]
fn preserves_absolute_lookup_across_wrap_and_growth() {
    let mut ring = RingBuffer::<i32>::with_capacity(4);
    for value in 0..6 {
        ring.push(value);
    }
    assert_eq!(ring.start_frame(), 2);
    assert_eq!(ring.get(1), None);
    assert_eq!(ring.get(2), Some(2));
    assert_eq!(ring.get(5), Some(5));

    ring.ensure_capacity(10);
    for value in 6..10 {
        ring.push(value);
    }
    assert_eq!(ring.get(2), Some(2));
    assert_eq!(ring.get(9), Some(9));
}

#[test]
fn push_then_get_reads_back_the_value() {
    let mut ring = RingBuffer::<i16>::with_capacity(3);
    ring.push(7);
    assert_eq!(ring.end_frame(), 1);
    assert_eq!(ring.get(0), Some(7));
    assert_eq!(ring.get(1), None);
    assert_eq!(ring.get(-1), None);
}

#[test]
fn zero_capacity_holds_one_frame() {
    let mut ring = RingBuffer::<i16>::with_capacity(0);
    assert_eq!(ring.capacity(), 1);
    ring.push(1);
    ring.push(2);
    assert_eq!(ring.start_frame(), 1);
    assert_eq!(ring.get(0), None);
    assert_eq!(ring.get(1), Some(2));
}

#[test]
fn growth_rounds_up_to_a_power_of_two_and_keeps_frames() {
    let mut ring = RingBuffer::<i16>::with_capacity(3);
    for value in 0..5 {
        ring.push(value);
    }
    assert_eq!(ring.start_frame(), 2);
    ring.ensure_capacity(5);
    assert_eq!(ring.capacity(), 8);
    assert_eq!(ring.start_frame(), 2);
    assert_eq!(ring.end_frame(), 5);
    assert_eq!(ring.get(2), Some(2));
    assert_eq!(ring.get(3), Some(3));
    assert_eq!(ring.get(4), Some(4));
    ring.ensure_capacity(4);
    assert_eq!(ring.capacity(), 8);
}

#[test]
fn discard_before_clamps_to_the_window() {
    let mut ring = RingBuffer::<i16>::with_capacity(8);
    for value in 0..6 {
        ring.push(value * 10);
    }
    ring.discard_before(3);
    assert_eq!(ring.start_frame(), 3);
    assert_eq!(ring.get(2), None);
    assert_eq!(ring.get(3), Some(30));
    ring.discard_before(1);
    assert_eq!(ring.start_frame(), 3);
    ring.discard_before(100);
    assert_eq!(ring.start_frame(), 6);
    assert_eq!(ring.end_frame(), 6);
    assert_eq!(ring.get(5), None);
}

#[test]
fn clone_keeps_contents() {
    let mut ring = RingBuffer::<i16>::with_capacity(2);
    ring.push(4);
    ring.push(5);
    ring.push(6);
    let copy = ring.clone();
    assert_eq!(copy.start_frame(), 1);
    assert_eq!(copy.get(1), Some(5));
    assert_eq!(copy.get(2), Some(6));
}

#[test]
fn next_power_of_two_values() {
    assert_eq!(next_power_of_two(0), 1);
    assert_eq!(next_power_of_two(1), 1);
    assert_eq!(next_power_of_two(10), 16);
    assert_eq!(next_power_of_two(16), 16);
    assert_eq!(next_power_of_two(17), 32);
}
