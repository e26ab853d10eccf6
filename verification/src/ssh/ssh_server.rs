//! A server over a secure shell.

use vstd::prelude::*;
use vstd::string::*;

use crate::addr;
use crate::addr::Addr;
use crate::cmd::CommandReq;
use crate::server::error;
use crate::server::error::P9cpuServerError;
use crate::server::serve::P9cpuServerT;
use crate::server::serve::Protocol;
use crate::server::serve::ServePlan;
use crate::server::session;
use crate::server::session::P9cpuServerInner;
use crate::server::session::StartPlan;
use crate::ssh::channel;
use crate::ssh::channel::ChannelMsg;
use crate::ssh::ssh_client;

verus! {

/// What can go wrong over a secure shell. Where it came from elsewhere, its text is kept.
#[derive(Debug, PartialEq, Eq)]
pub enum SshError {
    /// The connection failed.
    Russh(String),
    /// The server refused a request.
    Cpud(P9cpuServerError),
    /// A request could not be read.
    InvalidProto(String),
    /// Reading or writing failed.
    Io(String),
}

/// The value of an [`SshError`].
pub enum SshFault {
    Russh(Seq<char>),
    Cpud(error::ServerFault),
    InvalidProto(Seq<char>),
    Io(Seq<char>),
}

impl View for SshError {
    type V = SshFault;

    open spec fn view(&self) -> SshFault {
        match self {
            SshError::Russh(e) => SshFault::Russh(e@),
            SshError::Cpud(e) => SshFault::Cpud(e@),
            SshError::InvalidProto(e) => SshFault::InvalidProto(e@),
            SshError::Io(e) => SshFault::Io(e@),
        }
    }
}

impl SshFault {
    /// What went wrong, in words.
    pub open spec fn text(self) -> Seq<char> {
        match self {
            SshFault::Russh(e) => "russh lib error: "@ + e,
            SshFault::Cpud(e) => "cpud error: "@ + e.text(),
            SshFault::InvalidProto(e) => "Invalid data: "@ + e,
            SshFault::Io(e) => "IO error: "@ + e,
        }
    }
}

impl SshError {
    /// Says what went wrong.
    pub fn message(&self) -> (r: String)
        ensures
            r@ == self@.text(),
    {
        match self {
            SshError::Russh(e) => {
                let mut out = "russh lib error: ".to_owned();
                out.append(e.as_str());
                out
            },
            SshError::Cpud(e) => {
                let mut out = "cpud error: ".to_owned();
                out.append(e.message().as_str());
                out
            },
            SshError::InvalidProto(e) => {
                let mut out = "Invalid data: ".to_owned();
                out.append(e.as_str());
                out
            },
            SshError::Io(e) => {
                let mut out = "IO error: ".to_owned();
                out.append(e.as_str());
                out
            },
        }
    }
}

/// How long a client whose key is refused waits for the answer, in seconds.
pub const AUTH_REJECTION_SECS: u64 = 3;

/// The server over a secure shell.
#[derive(Debug, Clone, Copy, PartialEq, Eq, Structural)]
pub struct SshServer {}

impl P9cpuServerT for SshServer {
    open spec fn protocol(&self) -> Protocol {
        Protocol::Ssh
    }

    /// It serves at no path.
    open spec fn can_serve(&self, addr: addr::AddrView) -> bool {
        addr !is Uds
    }

    fn serve(&self, addr: Addr) -> (r: ServePlan) {
        ServePlan { protocol: Protocol::Ssh, addr }
    }
}

/// The requests of one connection to a server.
#[derive(Debug)]
pub struct ServerHandler<F, C, H> {
    pub inner: P9cpuServerInner<F, C, H>,
}

impl<F, C, H> ServerHandler<F, C, H> {
    /// A connection without sessions.
    pub fn new() -> (r: ServerHandler<F, C, H>)
        ensures
            r.inner@ == (session::Table::<F, C, H> { sessions: Map::empty(), pending: Map::empty() }),
    {
        ServerHandler { inner: P9cpuServerInner::new() }
    }

    /// Opens the session of a channel.
    pub fn channel_open_session(&mut self, channel: u128) -> (r: Result<bool, SshError>)
        ensures
            match old(self).inner@.dial_answer(channel) {
                Ok(_) => r == Ok::<bool, SshError>(true),
                Err(e) => r matches Err(f) && f@ == SshFault::Cpud(e),
            },
            final(self).inner@ == old(self).inner@.dialled(channel),
    {
        match self.inner.dial(channel) {
            Ok(_) => Ok(true),
            Err(e) => Err(SshError::Cpud(e)),
        }
    }

    /// Where bytes for the input of the session of a channel are written to.
    pub fn data(&self, channel: u128) -> (r: Result<&F, SshError>)
        ensures
            match self.inner@.session(channel) {
                Ok(s) => r matches Ok(f) && *f == s.stdin,
                Err(e) => r matches Err(f) && f@ == SshFault::Cpud(e),
            },
    {
        match self.inner.stdin(channel) {
            Ok(f) => Ok(f),
            Err(e) => Err(SshError::Cpud(e)),
        }
    }

    /// Whether the owner of a key may log in: each may.
    pub fn auth_publickey(&self) -> (r: bool)
        ensures
            r,
    {
        true
    }

    /// Takes the command of the session of a channel, to be started.
    pub fn exec_request(&mut self, channel: u128, req: CommandReq) -> (r: Result<
        StartPlan<H>,
        SshError,
    >)
        ensures
            match old(self).inner@.start_answer(req@, channel) {
                Ok(plan) => r matches Ok(p) && p@ == plan,
                Err(e) => r matches Err(f) && f@ == SshFault::Cpud(e),
            },
            r matches Ok(p) ==> {
                &&& p.plan.program == req.program && p.plan.args == req.args
                &&& p.plan.envs == req.envs && p.plan.tty == req.tty
            },
            final(self).inner@ == old(self).inner@.start_taken(channel),
    {
        match self.inner.start(req, channel) {
            Ok(plan) => Ok(plan),
            Err(e) => Err(SshError::Cpud(e)),
        }
    }
}

/// The message that carries output of a command.
pub fn output_message(data: Vec<u8>) -> (r: ChannelMsg)
    ensures
        r@ == channel::MsgView::Data(data@),
        r == ChannelMsg::Data(data),
{
    ChannelMsg::Data(data)
}

/// The message that carries error output of a command.
pub fn error_message(data: Vec<u8>) -> (r: ChannelMsg)
    ensures
        r@ == channel::MsgView::ExtendedData(data@, channel::EXT_STDERR),
        r == ChannelMsg::ExtendedData(data, 1),
{
    ChannelMsg::ExtendedData(data, channel::EXT_STDERR)
}

/// The message that says how a command ended.
pub open spec fn end_message_of(result: Result<i32, error::ServerFault>) -> channel::MsgView {
    match result {
        Ok(code) => channel::MsgView::ExitStatus(channel::status_of_code(code) as u32),
        Err(e) => channel::MsgView::ExtendedData(
            vstd::utf8::encode_utf8(e.text()),
            channel::EXT_WAIT_ERROR,
        ),
    }
}

/// The message that says how a command ended: its exit code, or the words of the error.
pub fn end_message(result: Result<i32, P9cpuServerError>) -> (r: ChannelMsg)
    ensures
        r@ == end_message_of(session::answer_view(result)),
        result matches Ok(code) ==> (r matches ChannelMsg::ExitStatus(status) && (status - code)
            % 0x1_0000_0000 == 0),
        result matches Err(e) ==> (r matches ChannelMsg::ExtendedData(data, ext) && ext == 2
            && data@ == vstd::utf8::encode_utf8(e@.text())),
{
    match result {
        Ok(code) => ChannelMsg::ExitStatus(channel::status_from_code(code)),
        Err(e) => ChannelMsg::ExtendedData(
            e.message().as_str().as_bytes_vec(),
            channel::EXT_WAIT_ERROR,
        ),
    }
}

/// A client learns how its command ended: the exit code that the server knows, whatever
/// it is, or the words of the error of the server.
pub proof fn end_of_command_arrives(result: Result<i32, error::ServerFault>)
    ensures
        ssh_client::message_action(end_message_of(result)) == ssh_client::ActionView::Report(
            match result {
                Ok(code) => Ok::<int, ssh_client::SshFault>(code as int),
                Err(e) => Err(ssh_client::SshFault::WaitError(e.text())),
            },
        ),
{
    if let Err(e) = result {
        vstd::utf8::encode_utf8_valid_utf8(e.text());
        vstd::utf8::encode_utf8_decode_utf8(e.text());
    }
}

/// A client gets the output of its command as output, and the error output as error
/// output.
pub proof fn output_arrives(data: Seq<u8>)
    ensures
        ssh_client::message_action(channel::MsgView::Data(data))
            == ssh_client::ActionView::Output(data),
        ssh_client::message_action(channel::MsgView::ExtendedData(data, channel::EXT_STDERR))
            == ssh_client::ActionView::ErrorOutput(data),
{
}

/// The exit code of the process is what the client is told, whatever it is. Without a code,
/// or where the process could not be waited for, it is told the words of the server.
pub proof fn exit_code_arrives(code: i32, e: Seq<char>)
    ensures
        ssh_client::message_action(end_message_of(session::exit_answer(Ok(Some(code)))))
            == ssh_client::ActionView::Report(Ok::<int, ssh_client::SshFault>(code as int)),
        ssh_client::message_action(end_message_of(session::exit_answer(Ok(None))))
            == ssh_client::ActionView::Report(
            Err(ssh_client::SshFault::WaitError("Command exited without return code."@)),
        ),
        ssh_client::message_action(end_message_of(session::exit_answer(Err(e))))
            == ssh_client::ActionView::Report(
            Err(ssh_client::SshFault::WaitError("Command error: "@ + e)),
        ),
{
    session::exit_code_is_given_back(code, e);
    end_of_command_arrives(session::exit_answer(Ok(Some(code))));
    end_of_command_arrives(session::exit_answer(Ok(None)));
    end_of_command_arrives(session::exit_answer(Err(e)));
}

/// The end of a command is told by an exit status with the 32 bits of its code, or by the
/// words of the error, which are marked by two.
pub proof fn end_is_told_by_status_or_words(code: i32, e: error::ServerFault)
    ensures
        end_message_of(Ok(code)) matches channel::MsgView::ExitStatus(status) && (status - code)
            % 0x1_0000_0000 == 0,
        end_message_of(Err(e)) == channel::MsgView::ExtendedData(
            vstd::utf8::encode_utf8(e.text()),
            2,
        ),
{
    channel::codes_and_statuses_are_the_same_bits(code, 0);
}

/// An error is told with the words of its cause, whole and at the end.
pub proof fn connection_errors_tell_their_cause(e: Seq<char>, fault: error::ServerFault)
    ensures
        SshFault::Russh(e).text() == "russh lib error: "@ + e,
        SshFault::Cpud(fault).text() == "cpud error: "@ + fault.text(),
        SshFault::InvalidProto(e).text() == "Invalid data: "@ + e,
        SshFault::Io(e).text() == "IO error: "@ + e,
{
}

/// A client whose key is refused waits for three seconds.
pub proof fn refused_keys_wait()
    ensures
        AUTH_REJECTION_SECS == 3,
{
}

} // verus!
