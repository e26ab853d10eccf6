//! A server of remote procedure calls.

use vstd::prelude::*;
use vstd::string::*;

use crate::addr;
use crate::addr::Addr;
use crate::client;
use crate::cmd;
use crate::rpc::message;
use crate::rpc::message::NinepForwardRequest;
use crate::rpc::message::P9cpuSessionId;
use crate::rpc::message::P9cpuStdinRequest;
use crate::rpc::message::P9cpuWaitResponse;
use crate::rpc::message::StartRequest;
use crate::rpc::status;
use crate::rpc::status::Status;
use crate::server::error;
use crate::server::serve::P9cpuServerT;
use crate::server::serve::Protocol;
use crate::server::serve::ServePlan;
use crate::server::session;
use crate::server::session::P9cpuServerInner;
use crate::server::session::StartPlan;
use crate::session_id;

verus! {

/// The server of remote procedure calls.
#[derive(Debug, Clone, Copy, PartialEq, Eq, Structural)]
pub struct RpcServer {}

impl P9cpuServerT for RpcServer {
    open spec fn protocol(&self) -> Protocol {
        Protocol::Rpc
    }

    open spec fn can_serve(&self, addr: addr::AddrView) -> bool {
        true
    }

    fn serve(&self, addr: Addr) -> (r: ServePlan) {
        ServePlan { protocol: Protocol::Rpc, addr }
    }
}

/// The calls of a server.
#[derive(Debug)]
pub struct P9cpuService<F, C, H> {
    pub inner: P9cpuServerInner<F, C, H>,
}

/// An answer of the sessions as the answer to a call.
pub open spec fn call_answer<A>(answer: Result<A, error::ServerFault>) -> Result<
    A,
    status::StatusView,
> {
    match answer {
        Ok(a) => Ok(a),
        Err(e) => Err(status::internal(e)),
    }
}

/// The running session that a request names.
pub open spec fn named_session<F, C, H>(t: session::Table<F, C, H>, id: Seq<u8>) -> Result<
    session::SessionView<F, C, H>,
    status::StatusView,
> {
    match message::requested_id(id) {
        Ok(sid) => call_answer(t.session(sid)),
        Err(e) => Err(e),
    }
}

/// The value of a command that may be absent.
pub open spec fn optional_command(c: Option<cmd::CommandReq>) -> Option<cmd::CommandView> {
    match c {
        Some(c) => Some(c@),
        None => None,
    }
}

/// The answer to the call to start a command. Without a command it is refused first.
pub open spec fn start_call<F, C, H>(
    t: session::Table<F, C, H>,
    id: Seq<u8>,
    command: Option<cmd::CommandView>,
) -> Result<session::StartView<H>, status::StatusView> {
    match command {
        None => Err(status::invalid_argument("No cmd provided."@)),
        Some(command) => match message::requested_id(id) {
            Ok(sid) => call_answer(t.start_answer(command, sid)),
            Err(e) => Err(e),
        },
    }
}

/// The sessions after that call: one that is refused for what it holds changes nothing.
pub open spec fn after_start_call<F, C, H>(
    t: session::Table<F, C, H>,
    id: Seq<u8>,
    command: Option<cmd::CommandView>,
) -> session::Table<F, C, H> {
    match message::requested_id(id) {
        Ok(sid) if command is Some => t.start_taken(sid),
        _ => t,
    }
}

/// The answer to a stream for the input of a command: the session, and the first bytes.
pub open spec fn stdin_call<F, C, H>(
    t: session::Table<F, C, H>,
    first: Option<Result<message::Frame, status::StatusView>>,
) -> Result<(u128, Seq<u8>, F), status::StatusView> {
    match message::opened(first) {
        Ok((sid, data)) => match t.session(sid) {
            Ok(s) => Ok((sid, data, s.stdin)),
            Err(e) => Err(status::internal(e)),
        },
        Err(e) => Err(e),
    }
}

/// The answer to a stream from the file system of a client: the session.
pub open spec fn forward_call<F, C, H>(
    t: session::Table<F, C, H>,
    first: Option<Result<message::Frame, status::StatusView>>,
) -> Result<u128, status::StatusView> {
    match message::opened(first) {
        Ok((sid, _)) => match t.forward_answer(sid) {
            Ok(_) => Ok(sid),
            Err(e) => Err(status::internal(e)),
        },
        Err(e) => Err(e),
    }
}

/// The answer to the call for a session, where its new id is `sid`.
pub open spec fn is_dial_reply<F, C, H>(
    t: session::Table<F, C, H>,
    sid: u128,
    r: Result<P9cpuSessionId, Status>,
) -> bool {
    match t.dial_answer(sid) {
        Ok(_) => r matches Ok(reply) && session_id::are_bytes_of(reply.id@, sid),
        Err(e) => r matches Err(s) && s@ == status::internal(e),
    }
}

impl<F, C, H> P9cpuService<F, C, H> {
    /// The calls of a server without sessions.
    pub fn new() -> (r: P9cpuService<F, C, H>)
        ensures
            r.inner@ == (session::Table::<F, C, H> { sessions: Map::empty(), pending: Map::empty() }),
    {
        P9cpuService { inner: P9cpuServerInner::new() }
    }

    /// Opens a session with the id `sid`.
    pub fn dial_as(&mut self, sid: u128) -> (r: Result<P9cpuSessionId, Status>)
        ensures
            is_dial_reply(old(self).inner@, sid, r),
            final(self).inner@ == old(self).inner@.dialled(sid),
    {
        match self.inner.dial(sid) {
            Ok(_) => Ok(P9cpuSessionId { id: session_id::id_to_bytes(sid) }),
            Err(e) => Err(Status::from(e)),
        }
    }

    /// Opens a session with a new id, which is drawn at random.
    pub fn dial(&mut self) -> (r: Result<P9cpuSessionId, Status>)
        ensures
            exists|sid: u128| #[trigger]
                session_id::is_random_id(sid) && is_dial_reply(old(self).inner@, sid, r)
                    && final(self).inner@ == old(self).inner@.dialled(sid),
    {
        let sid = session_id::uuid_new_v4();
        self.dial_as(sid)
    }

    /// Takes a command to be started.
    pub fn start(&mut self, request: StartRequest) -> (r: Result<StartPlan<H>, Status>)
        ensures
            match r {
                Ok(plan) => start_call(
                    old(self).inner@,
                    request.id@,
                    optional_command(request.cmd),
                ) == Ok::<session::StartView<H>, status::StatusView>(plan@),
                Err(e) => start_call(
                    old(self).inner@,
                    request.id@,
                    optional_command(request.cmd),
                ) == Err::<session::StartView<H>, status::StatusView>(e@),
            },
            r matches Ok(start) ==> (request.cmd matches Some(command) && {
                &&& start.plan.program == command.program && start.plan.args == command.args
                &&& start.plan.envs == command.envs && start.plan.tty == command.tty
            }),
            final(self).inner@ == after_start_call(
                old(self).inner@,
                request.id@,
                optional_command(request.cmd),
            ),
    {
        let command = match request.cmd {
            Some(c) => c,
            None => return Err(Status::invalid_argument("No cmd provided.".to_owned())),
        };
        let sid = match message::vec_to_uuid(&request.id) {
            Ok(sid) => sid,
            Err(e) => return Err(e),
        };
        match self.inner.start(command, sid) {
            Ok(plan) => Ok(plan),
            Err(e) => Err(Status::from(e)),
        }
    }

    /// Takes a stream for the input of a command, from its first frame: the session, the
    /// bytes of that frame, and where they are written to.
    pub fn stdin(&self, first: Option<Result<P9cpuStdinRequest, Status>>) -> (r: Result<
        (u128, Vec<u8>, &F),
        Status,
    >)
        ensures
            match r {
                Ok((sid, data, f)) => stdin_call(self.inner@, message::arrived_view(first)) == Ok::<
                    (u128, Seq<u8>, F),
                    status::StatusView,
                >((sid, data@, *f)),
                Err(e) => stdin_call(self.inner@, message::arrived_view(first)) == Err::<
                    (u128, Seq<u8>, F),
                    status::StatusView,
                >(e@),
            },
    {
        match message::open_stdin(first) {
            Ok((sid, data)) => match self.inner.stdin(sid) {
                Ok(f) => Ok((sid, data, f)),
                Err(e) => Err(Status::from(e)),
            },
            Err(e) => Err(e),
        }
    }

    /// Where the output of the session that a request names is read from.
    pub fn stdout(&self, request: &P9cpuSessionId) -> (r: Result<&F, Status>)
        ensures
            match r {
                Ok(f) => named_session(self.inner@, request.id@) matches Ok(s) && s.stdout == *f,
                Err(e) => named_session(self.inner@, request.id@) == Err::<
                    session::SessionView<F, C, H>,
                    status::StatusView,
                >(e@),
            },
    {
        match message::vec_to_uuid(&request.id) {
            Ok(sid) => match self.inner.stdout_st(sid) {
                Ok(f) => Ok(f),
                Err(e) => Err(Status::from(e)),
            },
            Err(e) => Err(e),
        }
    }

    /// Where the error output of the session that a request names is read from, if it has
    /// one.
    pub fn stderr(&self, request: &P9cpuSessionId) -> (r: Result<Option<&F>, Status>)
        ensures
            match r {
                Ok(Some(f)) => named_session(self.inner@, request.id@) matches Ok(s) && s.stderr
                    == Some(*f),
                Ok(None) => named_session(self.inner@, request.id@) matches Ok(s) && s.stderr is None,
                Err(e) => named_session(self.inner@, request.id@) == Err::<
                    session::SessionView<F, C, H>,
                    status::StatusView,
                >(e@),
            },
    {
        match message::vec_to_uuid(&request.id) {
            Ok(sid) => match self.inner.stderr_st(sid) {
                Ok(f) => Ok(f),
                Err(e) => Err(Status::from(e)),
            },
            Err(e) => Err(e),
        }
    }

    /// Takes a stream from the file system of a client, from its first frame: the session
    /// for which it is forwarded.
    pub fn ninep_forward(&self, first: Option<Result<NinepForwardRequest, Status>>) -> (r: Result<
        u128,
        Status,
    >)
        ensures
            match r {
                Ok(sid) => forward_call(self.inner@, message::ninep_arrived_view(first)) == Ok::<
                    u128,
                    status::StatusView,
                >(sid),
                Err(e) => forward_call(self.inner@, message::ninep_arrived_view(first)) == Err::<
                    u128,
                    status::StatusView,
                >(e@),
            },
    {
        match message::open_ninep(first) {
            Ok(sid) => match self.inner.ninep_forward(sid) {
                Ok(_) => Ok(sid),
                Err(e) => Err(Status::from(e)),
            },
            Err(e) => Err(e),
        }
    }

    /// The process of the session that a request names, to be waited for.
    pub fn wait(&self, request: &P9cpuSessionId) -> (r: Result<&C, Status>)
        ensures
            match r {
                Ok(c) => named_session(self.inner@, request.id@) matches Ok(s) && s.child == *c,
                Err(e) => named_session(self.inner@, request.id@) == Err::<
                    session::SessionView<F, C, H>,
                    status::StatusView,
                >(e@),
            },
    {
        match message::vec_to_uuid(&request.id) {
            Ok(sid) => match self.inner.wait(sid) {
                Ok(c) => Ok(c),
                Err(e) => Err(Status::from(e)),
            },
            Err(e) => Err(e),
        }
    }

    /// Begins to wait for the tasks that serve a session, whose process is gone.
    pub fn exited(&mut self, sid: u128) -> (r: Result<(), Status>)
        requires
            old(self).inner@.session(sid) matches Ok(s) ==> s.tasks.can_begin(),
        ensures
            match call_answer(old(self).inner@.exited_answer(sid)) {
                Ok(_) => r == Ok::<(), Status>(()),
                Err(e) => r matches Err(s) && s@ == e,
            },
            final(self).inner@ == old(self).inner@.exited(sid),
    {
        match self.inner.exited(sid) {
            Ok(_) => Ok(()),
            Err(e) => Err(Status::from(e)),
        }
    }

    /// Forgets a session whose tasks were waited for, and answers the call for its exit
    /// code.
    pub fn wait_done(&mut self, sid: u128, status: Result<Option<i32>, String>) -> (r: Result<
        P9cpuWaitResponse,
        Status,
    >)
        requires
            old(self).inner@.can_forget(sid),
        ensures
            match call_answer(session::exit_answer(session::status_view(status))) {
                Ok(code) => r == Ok::<P9cpuWaitResponse, Status>(P9cpuWaitResponse { code }),
                Err(e) => r matches Err(s) && s@ == e,
            },
            status matches Ok(Some(code)) ==> r == Ok::<P9cpuWaitResponse, Status>(
                P9cpuWaitResponse { code },
            ),
            !(status matches Ok(Some(_))) ==> r is Err,
            final(self).inner@ == old(self).inner@.ended(sid),
    {
        match self.inner.wait_done(sid, status) {
            Ok(code) => Ok(P9cpuWaitResponse { code }),
            Err(e) => Err(Status::from(e)),
        }
    }
}

/// A session that a client opened is the one that its later requests name.
pub proof fn opened_session_is_named(id: Seq<u8>, sid: u128)
    requires
        session_id::are_bytes_of(id, sid),
    ensures
        message::requested_id(id) == Ok::<u128, status::StatusView>(sid),
{
}

/// A request that names no session that runs is refused with the words of the server.
pub proof fn request_for_no_session_is_refused<F, C, H>(
    t: session::Table<F, C, H>,
    id: Seq<u8>,
    sid: u128,
)
    requires
        session_id::are_bytes_of(id, sid),
        !t.sessions.contains_key(sid),
    ensures
        named_session(t, id) == Err::<session::SessionView<F, C, H>, status::StatusView>(
            status::internal(error::ServerFault::SessionNotExist),
        ),
        error::ServerFault::SessionNotExist.text() == "Session does not exist"@,
{
}

/// What the sessions answer is the answer to the call. A refusal is a failure of the
/// server, in its words.
pub proof fn calls_are_answered_by_the_sessions<A>(answer: Result<A, error::ServerFault>)
    ensures
        answer matches Ok(a) ==> call_answer(answer) == Ok::<A, status::StatusView>(a),
        answer matches Err(e) ==> (call_answer(answer) matches Err(s) && s.code
            == status::StatusCode::Internal && s.message == e.text()),
{
}

/// Calls that name a session reach that session and no other: its output, its error output
/// and its process; its input, with the bytes that came first; its start; and the
/// forwarding for it. What the session cannot do is refused as the sessions say.
pub proof fn calls_reach_the_named_session<F, C, H>(
    t: session::Table<F, C, H>,
    frame: message::Frame,
    id: Seq<u8>,
    sid: u128,
    command: cmd::CommandView,
)
    requires
        session_id::are_bytes_of(id, sid),
        frame.id == Some(id),
    ensures
        named_session(t, id) == call_answer(t.session(sid)),
        start_call(t, id, Some(command)) == call_answer(t.start_answer(command, sid)),
        after_start_call(t, id, Some(command)) == t.start_taken(sid),
        match t.session(sid) {
            Ok(s) => stdin_call(t, Some(Ok(frame))) == Ok::<(u128, Seq<u8>, F), status::StatusView>(
                (sid, frame.data, s.stdin),
            ),
            Err(e) => stdin_call(t, Some(Ok(frame))) == Err::<
                (u128, Seq<u8>, F),
                status::StatusView,
            >(status::internal(e)),
        },
        match t.forward_answer(sid) {
            Ok(_) => forward_call(t, Some(Ok(frame))) == Ok::<u128, status::StatusView>(sid),
            Err(e) => forward_call(t, Some(Ok(frame))) == Err::<u128, status::StatusView>(
                status::internal(e),
            ),
        },
{
}

/// Calls that name no session are refused as requests that make no sense, and change
/// nothing. So is a start without a command, whatever it names.
pub proof fn calls_without_a_session_are_refused<F, C, H>(
    t: session::Table<F, C, H>,
    first: Option<Result<message::Frame, status::StatusView>>,
    id: Seq<u8>,
    command: Option<cmd::CommandView>,
)
    ensures
        id.len() != 16 ==> (named_session(t, id) matches Err(e) && e.code
            == status::StatusCode::InvalidArgument),
        id.len() != 16 ==> (start_call(t, id, command) matches Err(e) && e.code
            == status::StatusCode::InvalidArgument) && after_start_call(t, id, command) == t,
        command is None ==> start_call(t, id, command) == Err::<
            session::StartView<H>,
            status::StatusView,
        >(status::invalid_argument("No cmd provided."@)) && after_start_call(t, id, command) == t,
        message::opened(first) matches Err(e) ==> stdin_call(t, first) == Err::<
            (u128, Seq<u8>, F),
            status::StatusView,
        >(e) && forward_call(t, first) == Err::<u128, status::StatusView>(e),
{
    message::sessions_are_named_by_sixteen_bytes(id);
}

/// The code that the client reports is the code of the process: it reaches the client as it
/// is, and is an error exactly if it is not zero. A process without a code, and one that
/// could not be waited for, are told in the words of the server.
pub proof fn exit_code_reaches_the_client(code: i32, e: Seq<char>)
    ensures
        call_answer(session::exit_answer(Ok(Some(code)))) == Ok::<i32, status::StatusView>(code),
        call_answer(session::exit_answer(Ok(None))) == Err::<i32, status::StatusView>(
            status::internal(error::ServerFault::NoReturnCode),
        ),
        call_answer(session::exit_answer(Err(e))) == Err::<i32, status::StatusView>(
            status::internal(error::ServerFault::CommandError(e)),
        ),
        ({
            let reply = match call_answer(session::exit_answer(Ok(Some(code)))) {
                Ok(c) => Ok::<i32, Seq<char>>(c),
                Err(s) => Err(s.message),
            };
            client::session::reply_result(reply) == (if code == 0 {
                Ok::<(), client::error::WaitFault>(())
            } else {
                Err(
                    client::error::WaitFault::Client(
                        client::error::ClientFault::NonZeroExitCode(code),
                    ),
                )
            })
        }),
{
    session::exit_code_is_given_back(code, e);
    client::session::exit_code_is_reported(code);
}

/// A dial is answered with the sixteen bytes of the id under which the session is open
/// then, or refused in the words of the server.
pub proof fn dial_is_answered_with_the_id<F, C, H>(
    t: session::Table<F, C, H>,
    sid: u128,
    r: Result<P9cpuSessionId, Status>,
)
    requires
        is_dial_reply(t, sid, r),
    ensures
        r is Ok <==> !t.pending.contains_key(sid),
        r matches Ok(reply) ==> message::requested_id(reply.id@) == Ok::<u128, status::StatusView>(
            sid,
        ) && t.dialled(sid).pending.contains_key(sid),
        r matches Err(s) ==> s@.code == status::StatusCode::Internal && s@.message
            == "Duplicate session id"@,
{
}

} // verus!
