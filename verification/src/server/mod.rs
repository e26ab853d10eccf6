//! The server: it keeps sessions, and works out what to do for each command.

pub mod command;
pub mod error;
pub mod forward;
pub mod mount;
pub mod pre_exec;
pub mod serve;
pub mod session;

pub use error::P9cpuServerError;
pub use mount::MountParams;
pub use serve::rpc_based;
pub use serve::ssh_based;
pub use serve::P9cpuServerT;
pub use session::P9cpuServerInner;
pub use session::PendingSession;
pub use session::Session;
