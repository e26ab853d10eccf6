//! The protocol of remote procedure calls.

pub mod message;
pub mod rpc_client;
pub mod rpc_server;
pub mod status;

pub use message::Empty;
pub use message::NinepForwardRequest;
pub use message::P9cpuBytes;
pub use message::P9cpuSessionId;
pub use message::P9cpuStdinRequest;
pub use message::P9cpuWaitResponse;
pub use message::PrependedStream;
pub use message::StartRequest;
pub use status::Status;
