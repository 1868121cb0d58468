use dfs_host::peer::PeerAction;
use dfs_host::queue_request::{MessageQueue, RequestFuture, ResponseFromPeer};

fn insert(path: &str) -> PeerAction {
    PeerAction::InsertIndex(vec![(path.to_string(), 0)])
}

fn echo(action: &PeerAction) -> ResponseFromPeer {
    vec![action.encode()]
}

#[test]
fn a_new_future_is_not_done() {
    let _fut: RequestFuture = RequestFuture::new(insert("a"));
}

#[test]
fn nothing_to_work_on_in_an_empty_queue() {
    let mut q = MessageQueue::new();
    assert!(!q.pop_to_work(echo));
    assert_eq!(q.take_response(0), None);
}

#[test]
fn tickets_count_up() {
    let mut q = MessageQueue::new();
    assert_eq!(q.submit(insert("a")), Some(0));
    assert_eq!(q.submit(insert("b")), Some(1));
    assert_eq!(q.submit(insert("c")), Some(2));
}

#[test]
fn requests_are_served_in_the_order_of_submission() {
    let mut q = MessageQueue::new();
    let a = q.submit(insert("a")).unwrap();
    let b = q.submit(insert("b")).unwrap();
    let mut seen: Vec<PeerAction> = Vec::new();
    assert!(q.pop_to_work(|act: &PeerAction| {
        seen.push(act.clone());
        vec![vec![1]]
    }));
    assert!(q.pop_to_work(|act: &PeerAction| {
        seen.push(act.clone());
        vec![vec![2]]
    }));
    assert!(!q.pop_to_work(echo));
    assert_eq!(seen, vec![insert("a"), insert("b")]);
    assert_eq!(q.take_response(b), Some(vec![vec![2]]));
    assert_eq!(q.take_response(a), Some(vec![vec![1]]));
}

#[test]
fn a_response_is_collected_once() {
    let mut q = MessageQueue::new();
    let t = q.submit(insert("a")).unwrap();
    assert_eq!(q.take_response(t), None);
    assert!(q.pop_to_work(echo));
    assert_eq!(q.take_response(t), Some(vec![insert("a").encode()]));
    assert_eq!(q.take_response(t), None);
}

#[test]
fn a_response_pairs_with_its_own_request() {
    let mut q = MessageQueue::new();
    let tickets: Vec<u64> = (0..5).map(|i| q.submit(insert(&format!("f{}", i))).unwrap()).collect();
    for _ in 0..5 {
        assert!(q.pop_to_work(echo));
    }
    for (i, t) in tickets.into_iter().enumerate().rev() {
        assert_eq!(q.take_response(t), Some(vec![insert(&format!("f{}", i)).encode()]));
    }
}

#[test]
fn submit_and_wait_returns_the_response_to_its_own_request() {
    let mut q = MessageQueue::new();
    let early = q.submit(insert("early")).unwrap();
    let got = q.submit_and_wait(insert("mine"), &echo);
    assert_eq!(got, Some(vec![insert("mine").encode()]));
    // the request that waited before was served first and keeps its response
    assert_eq!(q.take_response(early), Some(vec![insert("early").encode()]));
    assert!(!q.pop_to_work(echo));
}
