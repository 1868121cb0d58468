use dfs_host::error::ErrorKind;
use dfs_host::file_index::FileIndex;
use dfs_host::peer::{deserialize_node_request_from_buff, take_peer_action, PeerAction};

fn s(x: &str) -> String {
    x.to_string()
}

fn samples() -> Vec<PeerAction> {
    vec![
        PeerAction::SerializedAction(vec![]),
        PeerAction::SerializedAction(vec![2, b'/', b'a', 0]),
        PeerAction::InitIndex(vec![]),
        PeerAction::InitIndex(vec![(s("a"), 0), (s("b/c"), 70_000)]),
        PeerAction::InsertIndex(vec![(s("new"), 1)]),
        PeerAction::RemoveIndex(vec![s("x"), s("y/z")]),
        PeerAction::RemoveIndex(vec![]),
        PeerAction::UpdateIndex(vec![(s("x"), s("y"))]),
    ]
}

#[test]
fn peer_actions_read_back() {
    for action in samples() {
        let bytes = action.encode();
        assert_eq!(take_peer_action(&bytes), Some((action.clone(), bytes.len())));
        assert_eq!(deserialize_node_request_from_buff(&bytes, bytes.len()), Ok(action));
    }
}

#[test]
fn exact_bytes_of_peer_actions() {
    assert_eq!(PeerAction::SerializedAction(vec![7, 8]).encode(), vec![0, 2, 7, 8]);
    assert_eq!(
        PeerAction::InitIndex(vec![(s("a"), 0), (s("b"), 300)]).encode(),
        vec![1, 2, 1, b'a', 0, 1, b'b', 251, 44, 1]
    );
    assert_eq!(PeerAction::InsertIndex(vec![(s("n"), 1)]).encode(), vec![2, 1, 1, b'n', 1]);
    assert_eq!(PeerAction::RemoveIndex(vec![s("x")]).encode(), vec![3, 1, 1, b'x']);
    assert_eq!(
        PeerAction::UpdateIndex(vec![(s("x"), s("yz"))]).encode(),
        vec![4, 1, 1, b'x', 2, b'y', b'z']
    );
}

#[test]
fn peer_actions_are_spelled_as_bincode_spells_them() {
    let cfg = bincode::config::standard();
    let mine = PeerAction::SerializedAction(vec![1, 2, 3]).encode();
    assert_eq!(mine, bincode::encode_to_vec((0u32, vec![1u8, 2, 3]), cfg).unwrap());
    let mine = PeerAction::InsertIndex(vec![(s("p"), 70_000), (s("q"), 1)]).encode();
    let expected = bincode::encode_to_vec((2u32, vec![(s("p"), 70_000u32), (s("q"), 1u32)]), cfg);
    assert_eq!(mine, expected.unwrap());
    let mine = PeerAction::RemoveIndex(vec![s("p"), s("q")]).encode();
    assert_eq!(mine, bincode::encode_to_vec((3u32, vec![s("p"), s("q")]), cfg).unwrap());
    let mine = PeerAction::UpdateIndex(vec![(s("p"), s("q"))]).encode();
    assert_eq!(mine, bincode::encode_to_vec((4u32, vec![(s("p"), s("q"))]), cfg).unwrap());
}

#[test]
fn malformed_peer_actions_are_invalid_data() {
    assert_eq!(deserialize_node_request_from_buff(&[], 0), Err(ErrorKind::InvalidData));
    assert_eq!(deserialize_node_request_from_buff(&[5], 1), Err(ErrorKind::InvalidData));
    assert_eq!(deserialize_node_request_from_buff(&[0, 3, 1], 3), Err(ErrorKind::InvalidData));
    assert_eq!(deserialize_node_request_from_buff(&[1, 1, 1, b'a'], 4), Err(ErrorKind::InvalidData));
    assert_eq!(deserialize_node_request_from_buff(&[3, 2, 1, b'a'], 4), Err(ErrorKind::InvalidData));
    assert_eq!(deserialize_node_request_from_buff(&[4, 1, 1, b'a'], 4), Err(ErrorKind::InvalidData));
    assert_eq!(deserialize_node_request_from_buff(&[3, 0], 3), Err(ErrorKind::InvalidData));
    // an owner spelled with eight bytes does not fit a host identity
    assert_eq!(
        deserialize_node_request_from_buff(&[2, 1, 1, b'a', 253, 1, 0, 0, 0, 0, 0, 0, 0], 13),
        Err(ErrorKind::InvalidData)
    );
    // a count far beyond what follows
    assert_eq!(
        deserialize_node_request_from_buff(&[3, 253, 255, 255, 255, 255, 255, 255, 255, 255], 10),
        Err(ErrorKind::InvalidData)
    );
}

#[test]
fn only_the_bytes_read_count_for_peer_actions() {
    let mut buff = vec![0u8; 1024];
    let bytes = PeerAction::RemoveIndex(vec![s("x")]).encode();
    buff[..bytes.len()].copy_from_slice(&bytes);
    assert_eq!(
        deserialize_node_request_from_buff(&buff, bytes.len()),
        Ok(PeerAction::RemoveIndex(vec![s("x")]))
    );
}

#[test]
fn index_actions_change_the_replica() {
    let mut index = FileIndex::new();
    PeerAction::InsertIndex(vec![(s("a"), 1), (s("b"), 2)]).apply_to(&mut index);
    assert_eq!(index.get("a"), Some(1));
    assert_eq!(index.get("b"), Some(2));
    PeerAction::UpdateIndex(vec![(s("a"), s("c"))]).apply_to(&mut index);
    assert_eq!(index.get("a"), None);
    assert_eq!(index.get("c"), Some(1));
    PeerAction::RemoveIndex(vec![s("b")]).apply_to(&mut index);
    assert_eq!(index.get("b"), None);
    PeerAction::SerializedAction(vec![1, 2]).apply_to(&mut index);
    assert_eq!(index.snapshot(), vec![(s("c"), 1)]);
    PeerAction::InitIndex(vec![(s("z"), 0)]).apply_to(&mut index);
    assert_eq!(index.snapshot(), vec![(s("z"), 0)]);
}

#[test]
fn an_insert_of_a_known_path_overwrites() {
    let mut index = FileIndex::new();
    index.insert(s("a"), 1);
    PeerAction::InsertIndex(vec![(s("a"), 2)]).apply_to(&mut index);
    assert_eq!(index.get("a"), Some(2));
}

#[test]
fn changes_of_unknown_paths_are_skipped() {
    let mut index = FileIndex::new();
    index.insert(s("a"), 1);
    PeerAction::RemoveIndex(vec![s("ghost")]).apply_to(&mut index);
    PeerAction::UpdateIndex(vec![(s("ghost"), s("b"))]).apply_to(&mut index);
    assert_eq!(index.snapshot(), vec![(s("a"), 1)]);
}

#[test]
fn a_copy_is_the_same_action() {
    for action in samples() {
        assert_eq!(action.duplicate(), action);
    }
}
