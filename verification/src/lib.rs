//! The decisions of a `cpu(1)`-style remote execution system.

pub mod addr;
pub mod chunk;
pub mod client;
pub mod cmd;
pub mod ctext;
pub mod launch;
pub mod log_line;
pub mod namespace;
pub mod number;
pub mod poll;
pub mod rpc;
pub mod server;
pub mod session_id;
pub mod ssh;
pub mod text;

pub use addr::Addr;
pub use namespace::parse_namespace;
pub use namespace::LOCAL_ROOT_MOUNT;
pub use namespace::NINEP_MOUNT;
