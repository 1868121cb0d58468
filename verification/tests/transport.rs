use dfs_host::transport::{Transport, TransportError};

struct Loopback {
    block: std::sync::Mutex<Vec<u8>>,
}

impl Transport for Loopback {
    fn nid(&self) -> u64 {
        0
    }

    fn num_nodes(&self) -> u64 {
        1
    }

    fn get(&self, _nid: u64, _bid: u64, buf: &mut [u8]) -> Result<usize, TransportError> {
        let block = self.block.lock().unwrap();
        let n = buf.len().min(block.len());
        buf[..n].copy_from_slice(&block[..n]);
        Ok(n)
    }

    fn set(&self, _nid: u64, _bid: u64, buf: &[u8]) -> Result<(), TransportError> {
        *self.block.lock().unwrap() = buf.to_vec();
        Ok(())
    }

    fn next_bid(&self) -> Option<u64> {
        None
    }
}

#[test]
fn a_transport_supports_only_what_it_says() {
    let t = Loopback { block: std::sync::Mutex::new(Vec::new()) };
    assert_eq!(t.nid(), 0);
    assert_eq!(t.num_nodes(), 1);
    assert_eq!(t.next_bid(), None);
    assert!(t.set(0, 0, &[1, 2, 3]).is_ok());
    let mut buf = [0u8; 2];
    assert!(matches!(t.get(0, 0, &mut buf), Ok(2)));
    assert_eq!(buf, [1, 2]);
    assert!(matches!(t.discard(0, 0), Err(TransportError::NotSupported)));
    assert!(matches!(t.compare_and_swap(0, 0, &[1], &[2]), Err(TransportError::NotSupported)));
}
