//! Request routing and replication engine of a distributed file system host.
//!
//! Every host exports a directory subtree, keeps a replica of the cluster-wide
//! file index and serves clients over a binary wire protocol. This crate holds
//! the protocol, the index, the peer rendezvous queue and the routing rules;
//! sockets, threads and the host file system are left to the caller, which
//! hands in bytes and outcomes and gets bytes and decisions back.

pub mod client_conn;
pub mod conn_utils;
pub mod error;
pub mod file_index;
pub mod framing;
pub mod host;
pub mod laws;
pub mod node_conn;
pub mod path;
pub mod peer;
pub mod queue_request;
pub mod request;
pub mod response;
pub mod transport;
pub mod wire;
