//! A client of remote procedure calls.

use vstd::prelude::*;
use vstd::string::*;

use crate::client::error;
use crate::client::error::P9cpuClientError;
use crate::cmd;
use crate::cmd::CommandReq;
use crate::poll::Polled;
use crate::rpc::message;
use crate::rpc::message::P9cpuBytes;
use crate::rpc::message::P9cpuSessionId;
use crate::rpc::message::P9cpuStdinRequest;
use crate::rpc::message::P9cpuWaitResponse;
use crate::rpc::message::StartRequest;
use crate::rpc::message::StdinFrames;
use crate::session_id;

verus! {

/// A task whose result is a result: failing to be waited for is one more error.
#[derive(Debug)]
pub struct TryOrErrInto<F> {
    /// The task.
    pub future: F,
}

impl<F> TryOrErrInto<F> {
    /// The answer, from what polling the task gave.
    pub fn poll<R, E1: From<E2>, E2>(&self, polled: Polled<Result<Result<R, E1>, E2>>) -> (r: Polled<
        Result<R, E1>,
    >)
        ensures
            match polled {
                Polled::Pending => r is Pending,
                Polled::Ready(Ok(inner)) => r == Polled::Ready(inner),
                Polled::Ready(Err(e)) => r matches Polled::Ready(Err(converted)) && call_ensures(
                    E1::from,
                    (e,),
                    converted,
                ),
            },
    {
        match polled {
            Polled::Pending => Polled::Pending,
            Polled::Ready(Ok(inner)) => Polled::Ready(inner),
            Polled::Ready(Err(e)) => Polled::Ready(Err(E1::from(e))),
        }
    }
}

/// What can go wrong with a call, with the text of what went wrong.
#[derive(Debug, PartialEq, Eq)]
pub enum RpcError {
    /// The server refused it, or could not be reached.
    Rpc(String),
    /// The server gave an impossible id.
    InvalidUuid(String),
    /// A task could not be waited for.
    JoinError(String),
}

/// The value of an [`RpcError`].
pub enum RpcFault {
    Rpc(Seq<char>),
    InvalidUuid(Seq<char>),
    JoinError(Seq<char>),
}

impl View for RpcError {
    type V = RpcFault;

    open spec fn view(&self) -> RpcFault {
        match self {
            RpcError::Rpc(e) => RpcFault::Rpc(e@),
            RpcError::InvalidUuid(e) => RpcFault::InvalidUuid(e@),
            RpcError::JoinError(e) => RpcFault::JoinError(e@),
        }
    }
}

impl RpcFault {
    /// What went wrong, in words.
    pub open spec fn text(self) -> Seq<char> {
        match self {
            RpcFault::Rpc(e) => "RPC error: "@ + e,
            RpcFault::InvalidUuid(e) => "Invalid UUID: "@ + e,
            RpcFault::JoinError(e) => "Task join error: "@ + e,
        }
    }
}

impl RpcError {
    /// Says what went wrong.
    pub fn message(&self) -> (r: String)
        ensures
            r@ == self@.text(),
    {
        match self {
            RpcError::Rpc(e) => {
                let mut out = "RPC error: ".to_owned();
                out.append(e.as_str());
                out
            },
            RpcError::InvalidUuid(e) => {
                let mut out = "Invalid UUID: ".to_owned();
                out.append(e.as_str());
                out
            },
            RpcError::JoinError(e) => {
                let mut out = "Task join error: ".to_owned();
                out.append(e.as_str());
                out
            },
        }
    }
}

// A `String` has no spec constructor: what `from` gives is stated, over the views, in
// its own `ensures`.
impl vstd::std_specs::convert::FromSpecImpl<RpcError> for P9cpuClientError {
    open spec fn obeys_from_spec() -> bool {
        false
    }

    open spec fn from_spec(e: RpcError) -> P9cpuClientError {
        arbitrary()
    }
}

impl From<RpcError> for P9cpuClientError {
    /// The connection failed, for this reason.
    fn from(e: RpcError) -> (r: P9cpuClientError)
        ensures
            r@ == error::ClientFault::Inner(e@.text()),
    {
        P9cpuClientError::Inner(e.message())
    }
}

/// A connection to a server.
#[derive(Debug)]
pub struct RpcClient<Ch> {
    /// The channel over which calls are made.
    pub channel: Ch,
}

impl<Ch> RpcClient<Ch> {
    /// A client over an open channel.
    pub fn new(channel: Ch) -> (r: RpcClient<Ch>)
        ensures
            r.channel == channel,
    {
        RpcClient { channel }
    }

    /// What a call gave, from the answer of the server or the words of an error.
    pub fn answered<A>(&self, reply: Result<A, String>) -> (r: Result<A, RpcError>)
        ensures
            match reply {
                Ok(a) => r == Ok::<A, RpcError>(a),
                Err(e) => r matches Err(f) && f@ == RpcFault::Rpc(e@),
            },
    {
        match reply {
            Ok(a) => Ok(a),
            Err(e) => Err(RpcError::Rpc(e)),
        }
    }

    /// The session that was opened, from what the call gave.
    pub fn dial(&self, reply: Result<P9cpuSessionId, String>) -> (r: Result<u128, RpcError>)
        ensures
            match reply {
                Ok(reply) => match session_id::id_of_bytes(reply.id@) {
                    Ok(sid) => r == Ok::<u128, RpcError>(sid),
                    Err(e) => r matches Err(f) && f@ == RpcFault::InvalidUuid(e),
                },
                Err(e) => r matches Err(f) && f@ == RpcFault::Rpc(e@),
            },
    {
        match self.answered(reply) {
            Ok(reply) => match session_id::id_from_bytes(reply.id.as_slice()) {
                Ok(sid) => Ok(sid),
                Err(e) => Err(RpcError::InvalidUuid(e)),
            },
            Err(e) => Err(e),
        }
    }

    /// The first frame for the input of a session, with what frames the rest. Without any
    /// item no call is made.
    pub fn stdin(&self, sid: u128, first: Option<Vec<u8>>) -> (r: Option<
        (P9cpuStdinRequest, StdinFrames),
    >)
        ensures
            match first {
                Some(data) => r matches Some((frame, rest)) && message::is_frame_of(
                    frame@,
                    Some(sid),
                    data@,
                ) && rest.sid is None,
                None => r is None,
            },
    {
        match first {
            Some(data) => {
                let mut frames = StdinFrames::new(sid);
                let frame = frames.frame(data);
                Some((frame, frames))
            },
            None => None,
        }
    }

    /// How the input of a session ended, from what the call gave. Without a call it ended
    /// well.
    pub fn stdin_done(&self, reply: Option<Result<(), String>>) -> (r: Result<(), RpcError>)
        ensures
            match reply {
                Some(Err(e)) => r matches Err(f) && f@ == RpcFault::Rpc(e@),
                _ => r == Ok::<(), RpcError>(()),
            },
    {
        match reply {
            Some(reply) => self.answered(reply),
            None => Ok(()),
        }
    }

    /// The exit code of a command, from what the call gave.
    pub fn wait(&self, reply: Result<P9cpuWaitResponse, String>) -> (r: Result<i32, RpcError>)
        ensures
            match reply {
                Ok(reply) => r == Ok::<i32, RpcError>(reply.code),
                Err(e) => r matches Err(f) && f@ == RpcFault::Rpc(e@),
            },
    {
        match self.answered(reply) {
            Ok(reply) => Ok(reply.code),
            Err(e) => Err(e),
        }
    }

    /// The request to start a command in a session.
    pub fn start(&self, sid: u128, command: CommandReq) -> (r: StartRequest)
        ensures
            session_id::are_bytes_of(r.id@, sid),
            r.cmd == Some(command),
    {
        StartRequest { id: session_id::id_to_bytes(sid), cmd: Some(command) }
    }

    /// The request for something of a session: its output, its error output, or its exit
    /// code.
    pub fn session_request(&self, sid: u128) -> (r: P9cpuSessionId)
        ensures
            session_id::are_bytes_of(r.id@, sid),
    {
        P9cpuSessionId { id: session_id::id_to_bytes(sid) }
    }
}

/// A stream of single bytes from the server.
#[derive(Debug)]
pub struct ByteStream<I> {
    /// The stream of the call.
    pub inner: I,
}

impl<I> ByteStream<I> {
    /// The answer, from what polling the stream of the call gave.
    pub fn poll_next(&self, item: Polled<Option<Result<u8, String>>>) -> (r: Polled<
        Option<Result<u8, RpcError>>,
    >)
        ensures
            match item {
                Polled::Pending => r is Pending,
                Polled::Ready(None) => r == Polled::<Option<Result<u8, RpcError>>>::Ready(None),
                Polled::Ready(Some(Ok(b))) => r == Polled::<Option<Result<u8, RpcError>>>::Ready(
                    Some(Ok(b)),
                ),
                Polled::Ready(Some(Err(e))) => r matches Polled::Ready(Some(Err(f))) && f@
                    == RpcFault::Rpc(e@),
            },
    {
        match item {
            Polled::Pending => Polled::Pending,
            Polled::Ready(None) => Polled::Ready(None),
            Polled::Ready(Some(Ok(b))) => Polled::Ready(Some(Ok(b))),
            Polled::Ready(Some(Err(e))) => Polled::Ready(Some(Err(RpcError::Rpc(e)))),
        }
    }
}

/// A stream of byte strings from the server.
#[derive(Debug)]
pub struct ByteVecStream<I> {
    /// The stream of the call.
    pub inner: I,
    pub session: u128,
    /// What is streamed.
    pub name: &'static str,
}

impl<I> ByteVecStream<I> {
    /// The answer, from what polling the stream of the call gave. An error ends the stream.
    pub fn poll_next(&self, item: Polled<Option<Result<P9cpuBytes, String>>>) -> (r: Polled<
        Option<Vec<u8>>,
    >)
        ensures
            r == (match item {
                Polled::Pending => Polled::<Option<Vec<u8>>>::Pending,
                Polled::Ready(Some(Ok(b))) => Polled::Ready(Some(b.data)),
                Polled::Ready(_) => Polled::Ready(None),
            }),
    {
        match item {
            Polled::Pending => Polled::Pending,
            Polled::Ready(None) => Polled::Ready(None),
            Polled::Ready(Some(Ok(b))) => Polled::Ready(Some(Vec::from(b))),
            Polled::Ready(Some(Err(_))) => Polled::Ready(None),
        }
    }
}

/// An error of a call is told with the words of its cause, whole and at the end.
pub proof fn call_errors_tell_their_cause(e: Seq<char>)
    ensures
        RpcFault::Rpc(e).text() == "RPC error: "@ + e,
        RpcFault::InvalidUuid(e).text() == "Invalid UUID: "@ + e,
        RpcFault::JoinError(e).text() == "Task join error: "@ + e,
{
}

} // verus!
