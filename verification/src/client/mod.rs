//! The client: it starts one command on a server and serves it until it ends.

pub mod copy;
pub mod error;
pub mod reader;
pub mod session;
pub mod writer;

pub use error::P9cpuClientError;
pub use error::WaitError;
pub use reader::StreamReader;
pub use session::P9cpuClient;
pub use session::SessionInfo;
pub use writer::SenderWriter;
