//! Where a server listens and a client connects.

use vstd::prelude::*;
use vstd::string::*;

use crate::number;
use crate::text;

verus! {

/// An address of the internet.
#[derive(Debug, PartialEq, Eq)]
pub struct SocketAddr {
    /// The host, as text and without brackets.
    pub ip: String,
    pub port: u16,
}

/// An address between a virtual machine and its host.
#[derive(Debug, Clone, Copy, PartialEq, Eq, Structural)]
pub struct VsockAddr {
    pub cid: u32,
    pub port: u32,
}

/// An address of a server.
#[derive(Debug, PartialEq, Eq)]
pub enum Addr {
    /// On the internet.
    Tcp(SocketAddr),
    /// In a virtual machine, or on its host.
    Vsock(VsockAddr),
    /// At a path on the same machine.
    Uds(String),
}

/// The value of an [`Addr`].
pub enum AddrView {
    Tcp(Seq<char>, u16),
    Vsock(u32, u32),
    Uds(Seq<char>),
}

impl View for Addr {
    type V = AddrView;

    open spec fn view(&self) -> AddrView {
        match self {
            Addr::Tcp(a) => AddrView::Tcp(a.ip@, a.port),
            Addr::Vsock(a) => AddrView::Vsock(a.cid, a.port),
            Addr::Uds(path) => AddrView::Uds(path@),
        }
    }
}

/// The resource that calls to a server at the address name. Where the connection is made
/// otherwise, the name stands for nothing.
pub open spec fn endpoint_of(addr: AddrView) -> Seq<char> {
    match addr {
        AddrView::Tcp(ip, port) => "http://"@ + ip + ":"@ + text::decimal(port as nat),
        AddrView::Vsock(_, _) => "http://[::]:50051"@,
        AddrView::Uds(_) => "http://[::]:50051"@,
    }
}

impl Addr {
    /// The resource that calls to a server at the address name.
    pub fn endpoint(&self) -> (r: String)
        ensures
            r@ == endpoint_of(self@),
    {
        match self {
            Addr::Tcp(a) => {
                let mut out = "http://".to_owned();
                out.append(a.ip.as_str());
                out.append(":");
                out.append(text::decimal_text(a.port as u64).as_str());
                out
            },
            Addr::Vsock(_) => "http://[::]:50051".to_owned(),
            Addr::Uds(_) => "http://[::]:50051".to_owned(),
        }
    }
}

/// A kind of network.
#[derive(Debug, Clone, Copy, PartialEq, Eq, Structural)]
pub enum Net {
    Tcp,
    Vsock,
    Unix,
}

/// The port that is used where none is given.
pub const DEFAULT_PORT: u32 = 17010;

/// An address as it is asked for: one of the internet is a text that is still to be read.
#[derive(Debug, PartialEq, Eq)]
pub enum Target {
    Tcp(String),
    Vsock(VsockAddr),
    Uds(String),
}

/// The value of a [`Target`].
pub enum TargetView {
    Tcp(Seq<char>),
    Vsock(u32, u32),
    Uds(Seq<char>),
}

impl View for Target {
    type V = TargetView;

    open spec fn view(&self) -> TargetView {
        match self {
            Target::Tcp(t) => TargetView::Tcp(t@),
            Target::Vsock(a) => TargetView::Vsock(a.cid, a.port),
            Target::Uds(path) => TargetView::Uds(path@),
        }
    }
}

/// The number that names a virtual machine.
pub open spec fn cid_of(host: Seq<char>) -> Result<int, number::NumberError> {
    number::number(host, 0, u32::MAX as int)
}

/// What a client connects to.
pub open spec fn client_target_of(net: Net, host: Seq<char>, port: u32) -> TargetView {
    match net {
        Net::Tcp => TargetView::Tcp(host + ":"@ + text::decimal(port as nat)),
        Net::Vsock => TargetView::Vsock(cid_of(host)->Ok_0 as u32, port),
        Net::Unix => TargetView::Uds(host),
    }
}

/// What a client connects to, from its network, host and port. A virtual machine is named
/// by a number.
pub fn client_target(net: Net, host: String, port: u32) -> (r: Target)
    requires
        net == Net::Vsock ==> cid_of(host@) is Ok,
    ensures
        r@ == client_target_of(net, host@, port),
        net == Net::Unix ==> (r matches Target::Uds(path) && path@ == host@),
        net == Net::Vsock ==> (r matches Target::Vsock(a) && a.port == port && cid_of(host@)
            == Ok::<int, number::NumberError>(a.cid as int)),
{
    match net {
        Net::Tcp => {
            let mut out = host;
            out.append(":");
            out.append(text::decimal_text(port as u64).as_str());
            Target::Tcp(out)
        },
        Net::Vsock => {
            let cid: u32 = match number::parse_u32(host.as_str()) {
                Ok(n) => n,
                Err(_) => 0,
            };
            Target::Vsock(VsockAddr { cid, port })
        },
        Net::Unix => Target::Uds(host),
    }
}

/// The value of `vsock::VMADDR_CID_ANY`: the one that Linux gives to any machine.
#[verifier::external_body]
fn vmaddr_cid_any() -> (r: u32)
    ensures
        r == 0xffff_ffff,
{
    vsock::VMADDR_CID_ANY
}

/// Where a server listens.
pub open spec fn server_target_of(net: Net, uds: Option<Seq<char>>, port: u32) -> TargetView {
    match net {
        Net::Tcp => TargetView::Tcp("[::]:"@ + text::decimal(port as nat)),
        Net::Vsock => TargetView::Vsock(0xffff_ffff, port),
        Net::Unix => TargetView::Uds(uds->0),
    }
}

/// The text of a path that may be absent.
pub open spec fn optional_text(s: Option<String>) -> Option<Seq<char>> {
    match s {
        Some(s) => Some(s@),
        None => None,
    }
}

/// Where a server listens, from its network, path and port: on all addresses of the
/// network.
pub fn server_target(net: Net, uds: Option<String>, port: u32) -> (r: Target)
    requires
        net == Net::Unix ==> uds is Some,
    ensures
        r@ == server_target_of(net, optional_text(uds), port),
        net == Net::Unix ==> (r matches Target::Uds(path) && path@ == uds->0@),
        net == Net::Vsock ==> (r matches Target::Vsock(a) && a.port == port),
{
    match net {
        Net::Tcp => {
            let mut out = "[::]:".to_owned();
            out.append(text::decimal_text(port as u64).as_str());
            Target::Tcp(out)
        },
        Net::Vsock => Target::Vsock(VsockAddr { cid: vmaddr_cid_any(), port }),
        Net::Unix => Target::Uds(uds.unwrap()),
    }
}

/// A port that is written after a text reads back from what stands after the text.
proof fn lemma_written_port(start: Seq<char>, port: nat, hi: int)
    requires
        port <= hi,
    ensures
        (start + text::decimal(port)).take(start.len() as int) == start,
        (start + text::decimal(port)).skip(start.len() as int) == text::decimal(port),
        number::number(text::decimal(port), 0, hi) == Ok::<int, number::NumberError>(port as int),
{
    number::printed_number_reads_back(port as int, 0, hi);
    assert((start + text::decimal(port)).take(start.len() as int) =~= start);
    assert((start + text::decimal(port)).skip(start.len() as int) =~= text::decimal(port));
}

/// The server listens where it is told: on all addresses of the internet, at the port,
/// which reads back from the text; for every virtual machine, at the port; or at the path.
pub proof fn server_listens_where_it_is_told(uds: Option<Seq<char>>, port: u32)
    ensures
        server_target_of(Net::Tcp, uds, port) matches TargetView::Tcp(t) && {
            &&& t.take(5) == seq!['[', ':', ':', ']', ':']
            &&& t.skip(5) == text::decimal(port as nat)
            &&& number::number(t.skip(5), 0, u32::MAX as int) == Ok::<int, number::NumberError>(
                port as int,
            )
        },
        server_target_of(Net::Vsock, uds, port) matches TargetView::Vsock(cid, p) && cid
            == u32::MAX && p == port,
        uds matches Some(path) ==> (server_target_of(Net::Unix, uds, port) matches TargetView::Uds(
            t,
        ) && t == path),
{
    reveal_strlit("[::]:");
    let start = "[::]:"@;
    assert(start =~= seq!['[', ':', ':', ']', ':']);
    lemma_written_port(start, port as nat, u32::MAX as int);
}

/// Servers with different ports listen at different places, whatever the network, unless
/// it is a path that they listen at.
pub proof fn ports_are_told_apart(net: Net, uds: Option<Seq<char>>, a: u32, b: u32)
    requires
        net != Net::Unix,
        server_target_of(net, uds, a) == server_target_of(net, uds, b),
    ensures
        a == b,
{
    server_listens_where_it_is_told(uds, a);
    server_listens_where_it_is_told(uds, b);
}

/// The client connects where it is told: to the host at the port, which reads back from
/// what stands after the host and a colon; to the virtual machine of the number that the
/// host is, at the port; or to the path.
pub proof fn client_connects_where_it_is_told(host: Seq<char>, port: u32)
    ensures
        client_target_of(Net::Tcp, host, port) matches TargetView::Tcp(t) && {
            &&& t.len() > host.len() + 1
            &&& t.take(host.len() as int) == host
            &&& t[host.len() as int] == ':'
            &&& t.skip(host.len() as int + 1) == text::decimal(port as nat)
            &&& number::number(t.skip(host.len() as int + 1), 0, u32::MAX as int) == Ok::<
                int,
                number::NumberError,
            >(port as int)
        },
        number::number(host, 0, u32::MAX as int) matches Ok(n) ==> (client_target_of(
            Net::Vsock,
            host,
            port,
        ) matches TargetView::Vsock(cid, p) && cid == n && p == port),
        client_target_of(Net::Unix, host, port) matches TargetView::Uds(t) && t == host,
{
    reveal_strlit(":");
    let start = host + ":"@;
    assert(":"@ =~= seq![':']);
    lemma_written_port(start, port as nat, u32::MAX as int);
    text::printed_digits(port as nat);
    let t = start + text::decimal(port as nat);
    assert(t.take(host.len() as int) =~= host);
    number::lemma_numbers_are_in_range(host, 0, u32::MAX as int);
}

/// A client that is told the port of a server names the port that the server listens at.
pub proof fn client_and_server_agree_on_the_port(host: Seq<char>, uds: Option<Seq<char>>, port: u32)
    ensures
        client_target_of(Net::Tcp, host, port) matches TargetView::Tcp(c) && (server_target_of(
            Net::Tcp,
            uds,
            port,
        ) matches TargetView::Tcp(s) && c.skip(host.len() as int + 1) == s.skip(5)),
        client_target_of(Net::Vsock, host, port) matches TargetView::Vsock(_, c)
            && (server_target_of(Net::Vsock, uds, port) matches TargetView::Vsock(_, s) && c == s),
{
    client_connects_where_it_is_told(host, port);
    server_listens_where_it_is_told(uds, port);
}

/// Calls name the host and the port of an address of the internet, each of which can be
/// read back. For other addresses the name is always the same.
pub proof fn calls_name_the_address(ip: Seq<char>, port: u16, other: AddrView)
    requires
        other !is Tcp,
    ensures
        ({
            let t = endpoint_of(AddrView::Tcp(ip, port));
            &&& t.len() > ip.len() + 8
            &&& t.take(7) == seq!['h', 't', 't', 'p', ':', '/', '/']
            &&& t.subrange(7, 7 + ip.len() as int) == ip
            &&& t[7 + ip.len() as int] == ':'
            &&& t.skip(8 + ip.len() as int) == text::decimal(port as nat)
            &&& number::number(t.skip(8 + ip.len() as int), 0, u16::MAX as int) == Ok::<
                int,
                number::NumberError,
            >(port as int)
        }),
        endpoint_of(other) == "http://[::]:50051"@,
{
    reveal_strlit("http://");
    reveal_strlit(":");
    let start = "http://"@ + ip + ":"@;
    lemma_written_port(start, port as nat, u16::MAX as int);
    text::printed_digits(port as nat);
    let t = endpoint_of(AddrView::Tcp(ip, port));
    assert(t.take(7) =~= seq!['h', 't', 't', 'p', ':', '/', '/']);
    assert(t.subrange(7, 7 + ip.len() as int) =~= ip);
}

} // verus!
