use dfs_host::framing::{contains_end_sequence, send_end_serial, FrameAssembler, END_SERIAL};

#[test]
fn the_sentinel_is_four_bytes() {
    assert_eq!(END_SERIAL, [0, 0, 0, 1]);
    let mut out = vec![9];
    send_end_serial(&mut out);
    assert_eq!(out, vec![9, 0, 0, 0, 1]);
}

#[test]
fn finds_first_sentinel() {
    assert_eq!(contains_end_sequence(&[0, 0, 0, 1]), Some(0));
    assert_eq!(contains_end_sequence(&[9, 0, 0, 0, 1, 0, 0, 0, 1]), Some(1));
    assert_eq!(contains_end_sequence(&[0, 0, 0, 0, 0, 1]), Some(2));
    assert_eq!(contains_end_sequence(&[5, 6, 7, 0, 0, 0, 1]), Some(3));
}

#[test]
fn finds_no_sentinel_where_there_is_none() {
    assert_eq!(contains_end_sequence(&[]), None);
    assert_eq!(contains_end_sequence(&[0, 0, 1]), None);
    assert_eq!(contains_end_sequence(&[0, 0, 1, 0]), None);
    assert_eq!(contains_end_sequence(&[0, 0, 0, 2, 1]), None);
    assert_eq!(contains_end_sequence(&[1, 0, 0, 0]), None);
}

#[test]
fn a_closed_body_is_cut_where_it_ends() {
    for body in [vec![], vec![0], vec![0, 0, 0], vec![1, 2, 3], vec![0, 60, 0, 0]] {
        let mut framed = body.clone();
        send_end_serial(&mut framed);
        assert_eq!(contains_end_sequence(&framed), Some(body.len()));
    }
}

#[test]
fn a_response_in_one_chunk() {
    let mut a = FrameAssembler::new();
    assert_eq!(a.feed(&[0, 2, b'h', b'i', 0, 0, 0, 1]), Some(vec![vec![0, 2, b'h', b'i']]));
}

#[test]
fn an_empty_response_has_no_segment() {
    let mut a = FrameAssembler::new();
    assert_eq!(a.feed(&[0, 0, 0, 1]), Some(vec![]));
}

#[test]
fn a_response_over_several_chunks() {
    let mut a = FrameAssembler::new();
    assert_eq!(a.feed(&[1, 2, 3, 4, 5]), None);
    assert_eq!(a.feed(&[6, 7]), None);
    let done = a.feed(&[8, 0, 0, 0, 1]).unwrap();
    assert_eq!(done.concat(), vec![1, 2, 3, 4, 5, 6, 7, 8]);
}

#[test]
fn a_sentinel_split_over_chunks_is_found() {
    for cut in 1..4 {
        let mut a = FrameAssembler::new();
        let stream = [0u8, 60, 9, 0, 0, 0, 1];
        let at = 3 + cut;
        assert_eq!(a.feed(&stream[..at]), None);
        let done = a.feed(&stream[at..]).unwrap();
        assert_eq!(done.concat(), vec![0, 60, 9]);
    }
}

#[test]
fn a_sentinel_that_comes_byte_by_byte_is_found() {
    let mut a = FrameAssembler::new();
    let stream = [7u8, 0, 0, 0, 1];
    for b in &stream[..4] {
        assert_eq!(a.feed(&[*b]), None);
    }
    let done = a.feed(&stream[4..]).unwrap();
    assert_eq!(done.concat(), vec![7]);
}

#[test]
fn the_assembler_starts_anew_after_a_response() {
    let mut a = FrameAssembler::new();
    assert_eq!(a.feed(&[1, 0, 0]), None);
    assert_eq!(a.feed(&[0, 1, 99]).unwrap().concat(), vec![1]);
    assert_eq!(a.feed(&[2, 0, 0, 0, 1]).unwrap().concat(), vec![2]);
}

#[test]
fn empty_chunks_change_nothing() {
    let mut a = FrameAssembler::new();
    assert_eq!(a.feed(&[]), None);
    assert_eq!(a.feed(&[4, 0]), None);
    assert_eq!(a.feed(&[]), None);
    assert_eq!(a.feed(&[0, 0, 1]).unwrap().concat(), vec![4]);
}
