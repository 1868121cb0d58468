//! The transport over which a host reaches the blocks of another host.

use vstd::prelude::*;

verus! {

/// Why a transport refused an operation.
#[derive(Clone, Debug)]
pub enum TransportError {
    NotSupported,
}

/// A transport that moves blocks between the hosts of a cluster.
pub trait Transport: Send + Sync {
    /// The identity of this host.
    fn nid(&self) -> u64;

    /// The number of hosts.
    fn num_nodes(&self) -> u64;

    /// Reads the block `bid` of host `nid` into `buf`.
    fn get(&self, nid: u64, bid: u64, buf: &mut [u8]) -> Result<usize, TransportError>;

    /// Writes `buf` to the block `bid` of host `nid`.
    fn set(&self, nid: u64, bid: u64, buf: &[u8]) -> Result<(), TransportError>;

    /// A block that is not in use, if there is one.
    fn next_bid(&self) -> Option<u64>;

    /// Marks a block as unused. A transport that does not say otherwise
    /// does not support this: it refuses with `NotSupported`.
    fn discard(&self, nid: u64, bid: u64) -> (done: Result<(), TransportError>)
        default_ensures
            done matches Err(TransportError::NotSupported),
    {
        Err(TransportError::NotSupported)
    }

    /// Replaces the block `bid` of host `nid` by `new` where it holds
    /// `current`. A transport that does not say otherwise does not support
    /// this: it refuses with `NotSupported`.
    fn compare_and_swap(&self, nid: u64, bid: u64, current: &[u8], new: &[u8]) -> (done: Result<
        (),
        TransportError,
    >)
        default_ensures
            done matches Err(TransportError::NotSupported),
    {
        Err(TransportError::NotSupported)
    }
}

} // verus!
