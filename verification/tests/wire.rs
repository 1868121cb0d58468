use dfs_host::wire::{append_bytes, put_blob, put_i32, put_text, put_u8, put_varint};

fn varint(v: u64) -> Vec<u8> {
    let mut out = Vec::new();
    put_varint(&mut out, v);
    out
}

#[test]
fn small_integers_take_one_byte() {
    assert_eq!(varint(0), vec![0]);
    assert_eq!(varint(1), vec![1]);
    assert_eq!(varint(250), vec![250]);
}

#[test]
fn sixteen_bit_integers_take_a_marker_and_two_bytes() {
    assert_eq!(varint(251), vec![251, 251, 0]);
    assert_eq!(varint(0x1234), vec![251, 0x34, 0x12]);
    assert_eq!(varint(0xffff), vec![251, 0xff, 0xff]);
}

#[test]
fn thirty_two_bit_integers_take_a_marker_and_four_bytes() {
    assert_eq!(varint(0x1_0000), vec![252, 0, 0, 1, 0]);
    assert_eq!(varint(0x1234_5678), vec![252, 0x78, 0x56, 0x34, 0x12]);
    assert_eq!(varint(0xffff_ffff), vec![252, 0xff, 0xff, 0xff, 0xff]);
}

#[test]
fn larger_integers_take_a_marker_and_eight_bytes() {
    assert_eq!(varint(0x1_0000_0000), vec![253, 0, 0, 0, 0, 1, 0, 0, 0]);
    assert_eq!(
        varint(u64::MAX),
        vec![253, 0xff, 0xff, 0xff, 0xff, 0xff, 0xff, 0xff, 0xff]
    );
}

#[test]
fn varint_is_what_bincode_writes() {
    for v in [0u64, 7, 250, 251, 252, 65_535, 65_536, 1 << 31, 1 << 32, u64::MAX - 1] {
        let expected = bincode::encode_to_vec(v, bincode::config::standard()).unwrap();
        assert_eq!(varint(v), expected);
    }
}

#[test]
fn signed_integers_are_written_in_zigzag() {
    let mut out = Vec::new();
    put_i32(&mut out, 0);
    put_i32(&mut out, -1);
    put_i32(&mut out, 1);
    put_i32(&mut out, -2);
    put_i32(&mut out, 30);
    assert_eq!(out, vec![0, 1, 2, 3, 60]);
    for v in [0i32, -1, 1, 125, 126, -126, 40_000, i32::MAX, i32::MIN] {
        let mut mine = Vec::new();
        put_i32(&mut mine, v);
        let expected = bincode::encode_to_vec(v, bincode::config::standard()).unwrap();
        assert_eq!(mine, expected);
    }
}

#[test]
fn text_and_bytes_carry_their_length_in_front() {
    let mut out = Vec::new();
    put_text(&mut out, "hi");
    put_blob(&mut out, &[9, 8, 4, 2]);
    put_u8(&mut out, 42);
    assert_eq!(out, vec![2, b'h', b'i', 4, 9, 8, 4, 2, 42]);
    let expected = bincode::encode_to_vec(
        ("hi", vec![9u8, 8, 4, 2], 42u8),
        bincode::config::standard(),
    )
    .unwrap();
    assert_eq!(out, expected);
}

#[test]
fn text_length_counts_bytes_not_characters() {
    let mut out = Vec::new();
    put_text(&mut out, "é");
    assert_eq!(out, vec![2, 0xc3, 0xa9]);
}

#[test]
fn append_bytes_keeps_what_was_there() {
    let mut out = vec![1, 2];
    append_bytes(&mut out, &[3, 4, 5]);
    append_bytes(&mut out, &[]);
    assert_eq!(out, vec![1, 2, 3, 4, 5]);
}
