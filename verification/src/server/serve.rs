//! What a server serves, and where.

use vstd::prelude::*;

use crate::addr;
use crate::addr::Addr;
use crate::rpc::rpc_server::RpcServer;
use crate::ssh::ssh_server::SshServer;

verus! {

/// How client and server talk.
#[derive(Debug, Clone, Copy, PartialEq, Eq, Structural)]
pub enum Protocol {
    /// Remote procedure calls.
    Rpc,
    /// Secure shell.
    Ssh,
}

/// What is to be served, and where.
#[derive(Debug, PartialEq, Eq)]
pub struct ServePlan {
    pub protocol: Protocol,
    pub addr: Addr,
}

/// A server that can be put on the network.
pub trait P9cpuServerT {
    /// How it talks to its clients.
    spec fn protocol(&self) -> Protocol;

    /// Whether it can serve at an address.
    spec fn can_serve(&self, addr: addr::AddrView) -> bool;

    /// What it serves at `addr`.
    fn serve(&self, addr: Addr) -> (r: ServePlan)
        requires
            self.can_serve(addr@),
        ensures
            r.protocol == self.protocol(),
            r.addr == addr,
    ;
}

/// The server of remote procedure calls.
pub fn rpc_based() -> (r: RpcServer)
    ensures
        r == (RpcServer {  }),
{
    RpcServer {  }
}

/// The server over a secure shell.
pub fn ssh_based() -> (r: SshServer)
    ensures
        r == (SshServer {  }),
{
    SshServer {  }
}

/// Each server talks in its own way. Remote procedure calls are served at every address, a
/// secure shell at every one that is no path.
pub proof fn servers_are_told_apart(rpc: RpcServer, ssh: SshServer, addr: addr::AddrView)
    ensures
        rpc.protocol() == Protocol::Rpc,
        ssh.protocol() == Protocol::Ssh,
        rpc.can_serve(addr),
        ssh.can_serve(addr) <==> addr is Tcp || addr is Vsock,
{
}

} // verus!
