//! The meta service of the kernel RDMA syscall layer, as verified code: the
//! request kinds and their wire tags, the byte images of the requests and
//! replies that travel between nodes, the table of registered DC endpoints,
//! the handlers that serve the three requests, the requests that a caller
//! builds, and the decision logic of the vmalloc-backed allocator.
pub mod protocol;
pub mod payload;
pub mod reply;
pub mod meta_kv;
pub mod handler;
pub mod caller;
pub mod allocator;
pub mod connect;
pub mod tasks;

pub use protocol::{Gid, RPCReqType, GID_LEN};
