use dfs_host::error::ErrorKind;
use dfs_host::request::NodeAttr;
use dfs_host::response::{
    deserialize_response_from_buff, map_code, send_dir_entry_to_conn, send_err_to_conn,
    send_ok_to_conn, take_response, Payload, PayloadKind,
};

fn ok(p: &Payload) -> Vec<u8> {
    let mut out = Vec::new();
    send_ok_to_conn(&mut out, p);
    out
}

fn err(e: ErrorKind) -> Vec<u8> {
    let mut out = Vec::new();
    send_err_to_conn(&mut out, e);
    out
}

#[test]
fn exact_bytes_of_responses() {
    assert_eq!(ok(&Payload::Unit), vec![0]);
    assert_eq!(ok(&Payload::Count(2)), vec![0, 2]);
    assert_eq!(ok(&Payload::Count(300)), vec![0, 251, 44, 1]);
    assert_eq!(ok(&Payload::Text("a/b".to_string())), vec![0, 3, b'a', b'/', b'b']);
    let attr = NodeAttr { mode: 0o644, ty: 8, size: 5, blocks: 1 };
    assert_eq!(ok(&Payload::Attr(attr)), vec![0, 251, 0xa4, 0x01, 8, 5, 1]);
    // NotFound has code 30, which zigzag turns into 60
    assert_eq!(err(ErrorKind::NotFound), vec![1, 60]);
    assert_eq!(err(ErrorKind::AddrInUse), vec![1, 2]);
    assert_eq!(err(ErrorKind::WriteZero), vec![1, 86]);
}

#[test]
fn responses_are_spelled_as_bincode_spells_them() {
    let cfg = bincode::config::standard();
    let r: Result<u64, i32> = Ok(70_000);
    assert_eq!(ok(&Payload::Count(70_000)), bincode::encode_to_vec(r, cfg).unwrap());
    let r: Result<(), i32> = Ok(());
    assert_eq!(ok(&Payload::Unit), bincode::encode_to_vec(r, cfg).unwrap());
    let r: Result<String, i32> = Ok("x/y".to_string());
    assert_eq!(ok(&Payload::Text("x/y".to_string())), bincode::encode_to_vec(r, cfg).unwrap());
    let r: Result<(u16, u8, u64, u64), i32> = Ok((0o755, 4, 4096, 8));
    let attr = NodeAttr { mode: 0o755, ty: 4, size: 4096, blocks: 8 };
    assert_eq!(ok(&Payload::Attr(attr)), bincode::encode_to_vec(r, cfg).unwrap());
    let r: Result<(), i32> = Err(ErrorKind::PermissionDenied.code());
    assert_eq!(err(ErrorKind::PermissionDenied), bincode::encode_to_vec(r, cfg).unwrap());
}

#[test]
fn dir_entries_are_spelled_as_bincode_spells_them() {
    let mut out = Vec::new();
    send_dir_entry_to_conn(&mut out, 4, "sub");
    assert_eq!(out, vec![4, 3, b's', b'u', b'b']);
    let expected = bincode::encode_to_vec((4u8, "sub"), bincode::config::standard()).unwrap();
    assert_eq!(out, expected);
}

#[test]
fn responses_read_back() {
    let attr = NodeAttr { mode: 0o600, ty: 8, size: 1 << 40, blocks: 77 };
    let cases = vec![
        (PayloadKind::Unit, Payload::Unit),
        (PayloadKind::Count, Payload::Count(0)),
        (PayloadKind::Count, Payload::Count(u64::MAX)),
        (PayloadKind::Text, Payload::Text(String::new())),
        (PayloadKind::Text, Payload::Text("dir/é".to_string())),
        (PayloadKind::Attr, Payload::Attr(attr)),
    ];
    for (kind, payload) in cases {
        let bytes = ok(&payload);
        assert_eq!(take_response(kind, &bytes), Some((Ok(payload.clone()), bytes.len())));
        assert_eq!(deserialize_response_from_buff(&bytes, bytes.len(), kind), Some(Ok(payload)));
    }
}

#[test]
fn failures_read_back_whatever_payload_is_expected() {
    for kind in [PayloadKind::Unit, PayloadKind::Count, PayloadKind::Text, PayloadKind::Attr] {
        let bytes = err(ErrorKind::AlreadyExists);
        assert_eq!(take_response(kind, &bytes), Some((Err(3), bytes.len())));
    }
}

#[test]
fn malformed_responses_are_refused() {
    assert_eq!(take_response(PayloadKind::Unit, &[]), None);
    assert_eq!(take_response(PayloadKind::Unit, &[2]), None);
    assert_eq!(take_response(PayloadKind::Count, &[0]), None);
    assert_eq!(take_response(PayloadKind::Text, &[0, 3, b'a']), None);
    assert_eq!(take_response(PayloadKind::Attr, &[0, 1, 8, 5]), None);
    // a mode spelled with four bytes does not fit sixteen bits
    assert_eq!(take_response(PayloadKind::Attr, &[0, 252, 1, 0, 0, 0, 8, 5, 1]), None);
    assert_eq!(take_response(PayloadKind::Unit, &[1]), None);
    assert_eq!(deserialize_response_from_buff(&[0], 2, PayloadKind::Unit), None);
}

#[test]
fn bytes_behind_a_response_are_left_alone() {
    assert_eq!(
        take_response(PayloadKind::Count, &[0, 2, b'h', b'i']),
        Some((Ok(Payload::Count(2)), 2))
    );
}

#[test]
fn codes_become_kinds() {
    assert_eq!(map_code(Ok(Payload::Count(4))), Ok(Payload::Count(4)));
    assert_eq!(map_code(Err(30)), Err(ErrorKind::NotFound));
    assert_eq!(map_code(Err(43)), Err(ErrorKind::WriteZero));
}

#[test]
fn unknown_codes_become_invalid_data() {
    assert_eq!(map_code(Err(0)), Err(ErrorKind::InvalidData));
    assert_eq!(map_code(Err(-1)), Err(ErrorKind::InvalidData));
    assert_eq!(map_code(Err(1000)), Err(ErrorKind::InvalidData));
}
