use dfs_host::conn_utils::Outcome;
use dfs_host::error::IoErrorKind;
use dfs_host::file_index::FileIndex;
use dfs_host::node_conn::{DfsNodeInConn, DfsNodeOutConn, PeerStep};
use dfs_host::peer::PeerAction;
use dfs_host::request::{Action, Create, Read, Request};

fn s(x: &str) -> String {
    x.to_string()
}

const INVALID: [u8; 6] = [1, 34, 0, 0, 0, 1];

#[test]
fn the_identity_is_kept() {
    assert_eq!(DfsNodeInConn::new(3).get_node_id(), 3);
}

#[test]
fn index_actions_are_applied_and_acknowledged() {
    let inbound = DfsNodeInConn::new(1);
    let mut index = FileIndex::new();
    let actions = vec![
        PeerAction::InsertIndex(vec![(s("a"), 0)]),
        PeerAction::UpdateIndex(vec![(s("a"), s("b"))]),
        PeerAction::RemoveIndex(vec![s("zzz")]),
        PeerAction::InitIndex(vec![(s("c"), 2)]),
    ];
    let expected = vec![
        vec![(s("a"), 0)],
        vec![(s("b"), 0)],
        vec![(s("b"), 0)],
        vec![(s("c"), 2)],
    ];
    for (action, after) in actions.into_iter().zip(expected) {
        let wire = action.encode();
        let step = inbound.handle_conn(&wire, wire.len(), &mut index);
        assert_eq!(step, PeerStep::Reply(vec![0, 0, 0, 0, 1]));
        assert_eq!(index.snapshot(), after);
    }
}

#[test]
fn what_cannot_be_read_is_answered_and_closed() {
    let inbound = DfsNodeInConn::new(1);
    let mut index = FileIndex::new();
    index.insert(s("a"), 0);
    for wire in [vec![9u8], vec![0, 5, 1], vec![0, 2, 0, 13], vec![2, 1], vec![0]] {
        let step = inbound.handle_conn(&wire, wire.len(), &mut index);
        assert_eq!(step, PeerStep::Reply(INVALID.to_vec()));
    }
    assert_eq!(inbound.handle_conn(&[2, 0], 3, &mut index), PeerStep::Reply(INVALID.to_vec()));
    assert_eq!(index.snapshot(), vec![(s("a"), 0)]);
}

#[test]
fn nothing_read_means_the_peer_is_gone() {
    let inbound = DfsNodeInConn::new(1);
    let mut index = FileIndex::new();
    assert_eq!(inbound.handle_conn(&[0u8; 16], 0, &mut index), PeerStep::Close);
}

#[test]
fn a_forwarded_request_is_carried_out_here() {
    let inbound = DfsNodeInConn::new(1);
    let mut index = FileIndex::new();
    let req = Request::new("/f", Action::Read(Read { offset: 0, length: 4 }));
    let wire = PeerAction::SerializedAction(req.encode()).encode();
    let step = inbound.handle_conn(&wire, wire.len(), &mut index);
    assert_eq!(step, PeerStep::Local(req.clone()));
    let mut conn = Vec::new();
    let told = inbound.finish(&req, &Outcome::Data(b"data".to_vec()), &mut index, &mut conn);
    assert_eq!(told, None);
    assert_eq!(conn, vec![0, 4, b'd', b'a', b't', b'a', 0, 0, 0, 1]);
}

#[test]
fn a_failure_is_still_closed_by_the_sentinel() {
    let inbound = DfsNodeInConn::new(1);
    let mut index = FileIndex::new();
    let req = Request::new("/f", Action::Read(Read { offset: 0, length: 4 }));
    let mut conn = Vec::new();
    let outcome = Outcome::Failed(IoErrorKind::NotFound);
    assert_eq!(inbound.finish(&req, &outcome, &mut index, &mut conn), None);
    assert_eq!(conn, vec![1, 60, 0, 0, 0, 1]);
}

#[test]
fn a_forwarded_creation_enters_the_index_of_the_owner() {
    let inbound = DfsNodeInConn::new(4);
    let mut index = FileIndex::new();
    let req = Request::new("/d", Action::Create(Create { path: "n", ty: 8 }));
    let mut conn = Vec::new();
    let told = inbound.finish(&req, &Outcome::Done, &mut index, &mut conn);
    assert_eq!(told, Some(PeerAction::InsertIndex(vec![(s("d/n"), 4)])));
    assert_eq!(index.get("d/n"), Some(4));
    assert_eq!(conn, vec![0, 0, 0, 0, 1]);
}

#[test]
fn forwarded_requests_that_need_no_file_are_answered_at_once() {
    let inbound = DfsNodeInConn::new(1);
    for action in [Action::Release, Action::Fsync] {
        let wire = Request::new("/a/b", action).encode();
        assert_eq!(inbound.serve_forwarded(&wire), PeerStep::Reply(vec![0, 0, 0, 0, 1]));
    }
    let wire = Request::new("/a/b", Action::GetParent).encode();
    assert_eq!(inbound.serve_forwarded(&wire), PeerStep::Reply(vec![0, 1, b'a', 0, 0, 0, 1]));
}

#[test]
fn the_worker_writes_the_action_and_collects_the_response() {
    let mut worker = DfsNodeOutConn::new();
    let action = PeerAction::RemoveIndex(vec![s("x")]);
    assert_eq!(worker.request_bytes(&action), vec![3, 1, 1, b'x']);
    assert_eq!(worker.handle_conn(&[0, 0]), None);
    assert_eq!(worker.handle_conn(&[0, 0, 1]), Some(vec![vec![0]]));
}

#[test]
fn the_init_action_lists_the_index() {
    let worker = DfsNodeOutConn::new();
    let mut index = FileIndex::new();
    index.insert(s("a"), 0);
    index.insert(s("b"), 1);
    match worker.send_init_index(&index) {
        PeerAction::InitIndex(mut pairs) => {
            pairs.sort();
            assert_eq!(pairs, vec![(s("a"), 0), (s("b"), 1)]);
        }
        _ => panic!("not an init action"),
    }
}
