use techmino_replay_toolkit::{_create_vlqs, append_vlqs, extract_vlqs};

fn cases() -> Vec<(Vec<u8>, Vec<u64>)> {
    vec![
        (vec![0x00], vec![0x00]),
        (vec![0x01], vec![0x01]),
        (vec![0x7F], vec![0x7F]),
        (vec![0x81, 0x00], vec![0x80]),
        (vec![0xC0, 0x00], vec![0x2000]),
        (vec![0xFF, 0x7F], vec![0x3FFF]),
        (vec![0x81, 0x80, 0x00], vec![0x4000]),
        (vec![0xFF, 0xFF, 0x7F], vec![0x1FFFFF]),
        (vec![0xFF, 0xFF, 0x7F, 0xFF, 0xFF, 0x7F], vec![0x1FFFFF, 0x1FFFFF]),
        (vec![0x81, 0x80, 0x80, 0x00], vec![0x200000]),
        (vec![0x01, 0x01, 0x01], vec![1, 1, 1]),
        (vec![0x8F, 0x00], vec![1920]),
    ]
}

#[test]
fn test_vlq_extraction() {
    for (input, expected) in cases() {
        assert_eq!(extract_vlqs(&input), expected);
    }
}

#[test]
fn test_vlq_creation() {
    for (expected, values) in cases() {
        assert_eq!(_create_vlqs(&values), expected);
    }
}

#[test]
fn test_vlq_append() {
    for (expected, values) in cases() {
        let mut vec = Vec::new();
        append_vlqs(&mut vec, &values);
        assert_eq!(vec, expected);
    }
}

#[test]
fn append_keeps_what_the_buffer_held() {
    let mut buffer = vec![b'{', b'}', 10];
    append_vlqs(&mut buffer, &[0x80, 0]);
    assert_eq!(buffer, vec![b'{', b'}', 10, 0x81, 0x00, 0x00]);
}

#[test]
fn empty_stream_and_empty_values() {
    assert_eq!(extract_vlqs(&[]), Vec::<u64>::new());
    assert_eq!(_create_vlqs(&[]), Vec::<u8>::new());
}

#[test]
fn largest_value_takes_ten_bytes() {
    let bytes = _create_vlqs(&[u64::MAX]);
    assert_eq!(bytes, vec![0x81, 0xFF, 0xFF, 0xFF, 0xFF, 0xFF, 0xFF, 0xFF, 0xFF, 0x7F]);
    assert_eq!(extract_vlqs(&bytes), vec![u64::MAX]);
}

#[test]
fn sixty_three_bits_take_nine_bytes() {
    let value = (1u64 << 63) - 1;
    let bytes = _create_vlqs(&[value]);
    assert_eq!(bytes, vec![0xFF, 0xFF, 0xFF, 0xFF, 0xFF, 0xFF, 0xFF, 0xFF, 0x7F]);
    assert_eq!(extract_vlqs(&bytes), vec![value]);
}

#[test]
fn vlq_round_trip_on_values() {
    let values: Vec<u64> = vec![0, 1, 127, 128, 255, 256, 16383, 16384, 1 << 32, u64::MAX - 1, 0, 5];
    assert_eq!(extract_vlqs(&_create_vlqs(&values)), values);
}

#[test]
fn unfinished_last_number_is_dropped() {
    assert_eq!(extract_vlqs(&[0x05, 0x81]), vec![5]);
    assert_eq!(extract_vlqs(&[0x81, 0x80]), Vec::<u64>::new());
}

#[test]
fn bits_beyond_sixty_four_are_lost() {
    // eleven groups: the first group's bits leave the top of the accumulator
    let bytes = [0xFF, 0x80, 0x80, 0x80, 0x80, 0x80, 0x80, 0x80, 0x80, 0x80, 0x01];
    assert_eq!(extract_vlqs(&bytes), vec![1]);
}
