//! The sessions of a server.
//!
//! A session is dialled, may have the file system of its client forwarded, is then
//! started, and ends when its command was waited for. What the system gives it (its
//! input and output, its process, the tasks that serve it) is held here and not
//! looked into.

use std::collections::HashMap;
use vstd::prelude::*;

use crate::cmd;
use crate::cmd::CommandReq;
use crate::server::command;
use crate::server::command::CommandPlan;
use crate::server::error;
use crate::server::error::P9cpuServerError;

verus! {

broadcast use vstd::std_specs::hash::group_hash_axioms;

/// The ends of the input and output of a new process that the server holds.
#[derive(Debug)]
pub enum ChildStdio<F> {
    /// Three pipes: to its input, from its output, from its error output.
    Piped(F, F, F),
    /// A terminal, twice: to write to and to read from.
    Pty(F, F),
}

/// The tasks that serve a session. They stay listed when they have ended. While the
/// session is waited for, those that were listed at its beginning are, one after the
/// other; tasks that come later are not.
#[derive(Debug)]
pub struct Tasks<H> {
    list: Vec<H>,
    ended: usize,
    until: Option<usize>,
}

/// The value of a [`Tasks`].
#[verifier::ext_equal]
pub struct TasksView<H> {
    pub list: Seq<H>,
    /// How many of them, from the first on, were waited for and have ended.
    pub ended: nat,
    /// How many of them, from the first on, are waited for, if a wait is in course.
    pub until: Option<nat>,
}

impl<H> View for Tasks<H> {
    type V = TasksView<H>;

    closed spec fn view(&self) -> TasksView<H> {
        TasksView {
            list: self.list@,
            ended: self.ended as nat,
            until: match self.until {
                Some(n) => Some(n as nat),
                None => None,
            },
        }
    }
}

impl<H> TasksView<H> {
    /// Tasks that were not waited for.
    pub open spec fn new(list: Seq<H>) -> TasksView<H> {
        TasksView { list, ended: 0, until: None }
    }

    /// Whether a wait can begin: none is in course, and none has taken a task before.
    pub open spec fn can_begin(self) -> bool {
        self.until is None && self.ended == 0
    }

    /// Whether every task that the wait in course is for has ended.
    pub open spec fn is_over(self) -> bool {
        self.until == Some(self.ended)
    }

    /// The tasks with one more.
    pub open spec fn pushed(self, task: H) -> TasksView<H> {
        TasksView { list: self.list.push(task), ..self }
    }

    /// The tasks once a wait has begun.
    pub open spec fn begun(self) -> TasksView<H> {
        TasksView { until: Some(self.list.len()), ..self }
    }

    /// The tasks once one more of them has ended.
    pub open spec fn one_ended(self) -> TasksView<H> {
        TasksView { ended: self.ended + 1, ..self }
    }

    /// The tasks once the wait was given up.
    pub open spec fn given_up(self) -> TasksView<H> {
        TasksView { until: None, ..self }
    }
}

/// Whether a wait for the tasks of a session can begin.
#[derive(Debug, Clone, Copy, PartialEq, Eq, Structural)]
pub enum Joining {
    /// It can.
    Ready,
    /// Another wait is in course.
    Busy,
    /// An earlier wait was given up after it had taken a task.
    Spent,
}

impl<H> Tasks<H> {
    #[verifier::type_invariant]
    spec fn in_list(self) -> bool {
        &&& self.ended <= self.list@.len()
        &&& self.until matches Some(n) ==> self.ended <= n <= self.list@.len()
    }

    /// Tasks that were not waited for.
    pub fn new(list: Vec<H>) -> (r: Tasks<H>)
        ensures
            r@ == TasksView::new(list@),
    {
        Tasks { list, ended: 0, until: None }
    }

    fn push(self, task: H) -> (r: Tasks<H>)
        ensures
            r@ == self@.pushed(task),
    {
        proof {
            use_type_invariant(&self);
        }
        let Tasks { list, ended, until } = self;
        let mut list = list;
        list.push(task);
        Tasks { list, ended, until }
    }

    fn begin(self) -> (r: Tasks<H>)
        ensures
            r@ == self@.begun(),
    {
        proof {
            use_type_invariant(&self);
        }
        let Tasks { list, ended, until: _ } = self;
        let count: usize = list.len();
        Tasks { list, ended, until: Some(count) }
    }

    fn end_one(self) -> (r: Tasks<H>)
        requires
            self@.until matches Some(n) && self@.ended < n,
        ensures
            r@ == self@.one_ended(),
    {
        proof {
            use_type_invariant(&self);
        }
        let Tasks { list, ended, until } = self;
        Tasks { list, ended: ended + 1, until }
    }

    fn give_up(self) -> (r: Tasks<H>)
        ensures
            r@ == self@.given_up(),
    {
        proof {
            use_type_invariant(&self);
        }
        let Tasks { list, ended, until: _ } = self;
        Tasks { list, ended, until: None }
    }

    /// Whether a wait can begin.
    pub fn joining(&self) -> (r: Joining)
        ensures
            r == joining_of(self@),
    {
        if self.until.is_some() {
            Joining::Busy
        } else if self.ended > 0 {
            Joining::Spent
        } else {
            Joining::Ready
        }
    }

    /// The task that the wait in course is at. Nothing means that all have ended.
    pub fn current(&self) -> (r: Option<&H>)
        requires
            self@.until is Some,
        ensures
            match r {
                Some(task) => {
                    &&& self@.ended < self@.until->0 <= self@.list.len()
                    &&& *task == self@.list[self@.ended as int]
                },
                None => self@.is_over(),
            },
    {
        proof {
            use_type_invariant(self);
        }
        let until: usize = self.until.unwrap();
        if self.ended < until {
            Some(&self.list[self.ended])
        } else {
            None
        }
    }
}

/// Whether a wait for the tasks can begin.
pub open spec fn joining_of<H>(tasks: TasksView<H>) -> Joining {
    if tasks.until is Some {
        Joining::Busy
    } else if tasks.ended > 0 {
        Joining::Spent
    } else {
        Joining::Ready
    }
}

/// A session whose command runs.
#[derive(Debug)]
pub struct Session<F, C, H> {
    pub stdin: F,
    pub stdout: F,
    /// A terminal has no error output of its own.
    pub stderr: Option<F>,
    pub child: C,
    /// The tasks that are waited for at the end.
    pub tasks: Tasks<H>,
}

/// The value of a [`Session`].
#[verifier::ext_equal]
pub struct SessionView<F, C, H> {
    pub stdin: F,
    pub stdout: F,
    pub stderr: Option<F>,
    pub child: C,
    pub tasks: TasksView<H>,
}

impl<F, C, H> View for Session<F, C, H> {
    type V = SessionView<F, C, H>;

    open spec fn view(&self) -> SessionView<F, C, H> {
        SessionView {
            stdin: self.stdin,
            stdout: self.stdout,
            stderr: self.stderr,
            child: self.child,
            tasks: self.tasks@,
        }
    }
}

impl<F, C, H> Session<F, C, H> {
    /// The session of a new process.
    pub fn new(stdio: ChildStdio<F>, child: C, handles: Vec<H>) -> (r: Session<F, C, H>)
        ensures
            r@ == (match stdio {
                ChildStdio::Piped(stdin, stdout, stderr) => SessionView {
                    stdin,
                    stdout,
                    stderr: Some(stderr),
                    child,
                    tasks: TasksView::new(handles@),
                },
                ChildStdio::Pty(writer, reader) => SessionView {
                    stdin: writer,
                    stdout: reader,
                    stderr: None,
                    child,
                    tasks: TasksView::new(handles@),
                },
            }),
    {
        match stdio {
            ChildStdio::Piped(stdin, stdout, stderr) => Session {
                stdin,
                stdout,
                stderr: Some(stderr),
                child,
                tasks: Tasks::new(handles),
            },
            ChildStdio::Pty(writer, reader) => Session {
                stdin: writer,
                stdout: reader,
                stderr: None,
                child,
                tasks: Tasks::new(handles),
            },
        }
    }
}

/// A session that is dialled and not started.
#[derive(Debug)]
pub struct PendingSession<H> {
    /// The port on which the file system of the client is forwarded, and the task
    /// that forwards it.
    pub ninep: Option<(u16, H)>,
}

/// The sessions of a server, by id.
#[derive(Debug)]
pub struct P9cpuServerInner<F, C, H> {
    sessions: HashMap<u128, Session<F, C, H>>,
    pending: HashMap<u128, PendingSession<H>>,
}

/// The value of a [`P9cpuServerInner`].
#[verifier::ext_equal]
pub struct Table<F, C, H> {
    pub sessions: Map<u128, SessionView<F, C, H>>,
    pub pending: Map<u128, PendingSession<H>>,
}

impl<F, C, H> View for P9cpuServerInner<F, C, H> {
    type V = Table<F, C, H>;

    closed spec fn view(&self) -> Table<F, C, H> {
        Table {
            sessions: self.sessions@.map_values(|s: Session<F, C, H>| s@),
            pending: self.pending@,
        }
    }
}

/// How a session is started: how its command is run, and the tasks that serve it so far.
#[derive(Debug)]
pub struct StartPlan<H> {
    pub plan: CommandPlan,
    pub handles: Vec<H>,
}

/// The value of a [`StartPlan`].
#[verifier::ext_equal]
pub struct StartView<H> {
    pub plan: command::PlanView,
    pub handles: Seq<H>,
}

impl<H> View for StartPlan<H> {
    type V = StartView<H>;

    open spec fn view(&self) -> StartView<H> {
        StartView { plan: self.plan@, handles: self.handles@ }
    }
}

impl<F, C, H> Table<F, C, H> {
    /// The answer to a dial.
    pub open spec fn dial_answer(self, sid: u128) -> Result<(), error::ServerFault> {
        if self.pending.contains_key(sid) {
            Err(error::ServerFault::DuplicateId)
        } else {
            Ok(())
        }
    }

    /// The sessions after a dial.
    pub open spec fn dialled(self, sid: u128) -> Table<F, C, H> {
        if self.pending.contains_key(sid) {
            self
        } else {
            Table { pending: self.pending.insert(sid, PendingSession { ninep: None }), ..self }
        }
    }

    /// The answer to a request to forward the file system of a client.
    pub open spec fn forward_answer(self, sid: u128) -> Result<(), error::ServerFault> {
        if self.pending.contains_key(sid) {
            Ok(())
        } else {
            Err(error::ServerFault::SessionNotExist)
        }
    }

    /// The sessions once the file system of a client is forwarded.
    pub open spec fn forwarded(self, sid: u128, port: u16, handle: H) -> Table<F, C, H> {
        if self.pending.contains_key(sid) {
            Table {
                pending: self.pending.insert(sid, PendingSession { ninep: Some((port, handle)) }),
                ..self
            }
        } else {
            self
        }
    }

    /// The answer to a request to start a command.
    pub open spec fn start_answer(self, command: cmd::CommandView, sid: u128) -> Result<
        StartView<H>,
        error::ServerFault,
    > {
        if !self.pending.contains_key(sid) {
            Err(error::ServerFault::SessionNotExist)
        } else if self.sessions.contains_key(sid) {
            Err(error::ServerFault::DuplicateId)
        } else {
            match self.pending[sid].ninep {
                None => match command::plan_of(command, None) {
                    Ok(plan) => Ok(StartView { plan, handles: Seq::empty() }),
                    Err(e) => Err(e),
                },
                Some((port, handle)) => match command::plan_of(command, Some(port)) {
                    Ok(plan) => Ok(StartView { plan, handles: seq![handle] }),
                    Err(e) => Err(e),
                },
            }
        }
    }

    /// The sessions after such a request: whatever the answer, it uses up the dial.
    pub open spec fn start_taken(self, sid: u128) -> Table<F, C, H> {
        Table { pending: self.pending.remove(sid), ..self }
    }

    /// The sessions once the command of a session runs.
    pub open spec fn started(self, sid: u128, session: SessionView<F, C, H>) -> Table<F, C, H> {
        Table { sessions: self.sessions.insert(sid, session), ..self }
    }

    /// The answer to a question about a running session.
    pub open spec fn session(self, sid: u128) -> Result<
        SessionView<F, C, H>,
        error::ServerFault,
    > {
        if self.sessions.contains_key(sid) {
            Ok(self.sessions[sid])
        } else {
            Err(error::ServerFault::SessionNotExist)
        }
    }

    /// The sessions once one more task serves a running session.
    pub open spec fn attached(self, sid: u128, handle: H) -> Table<F, C, H> {
        if self.sessions.contains_key(sid) {
            let was = self.sessions[sid];
            Table {
                sessions: self.sessions.insert(
                    sid,
                    SessionView { tasks: was.tasks.pushed(handle), ..was },
                ),
                ..self
            }
        } else {
            self
        }
    }

    /// The sessions where the tasks of a running session are these.
    pub open spec fn with_tasks(self, sid: u128, tasks: TasksView<H>) -> Table<F, C, H> {
        let was = self.sessions[sid];
        Table { sessions: self.sessions.insert(sid, SessionView { tasks, ..was }), ..self }
    }

    /// The answer to a wait whose process is gone.
    pub open spec fn exited_answer(self, sid: u128) -> Result<(), error::ServerFault> {
        match self.session(sid) {
            Ok(_) => Ok(()),
            Err(e) => Err(e),
        }
    }

    /// The sessions once the wait for the tasks of a session has begun.
    pub open spec fn exited(self, sid: u128) -> Table<F, C, H> {
        match self.session(sid) {
            Ok(s) => self.with_tasks(sid, s.tasks.begun()),
            Err(_) => self,
        }
    }

    /// The sessions once one more task of a session has ended.
    pub open spec fn joined(self, sid: u128) -> Table<F, C, H> {
        match self.session(sid) {
            Ok(s) => self.with_tasks(sid, s.tasks.one_ended()),
            Err(_) => self,
        }
    }

    /// The sessions once the wait for a session was given up.
    pub open spec fn given_up(self, sid: u128) -> Table<F, C, H> {
        match self.session(sid) {
            Ok(s) => self.with_tasks(sid, s.tasks.given_up()),
            Err(_) => self,
        }
    }

    /// Whether a session can be forgotten: it is waited for, and every task that the wait
    /// is for has ended.
    pub open spec fn can_forget(self, sid: u128) -> bool {
        self.session(sid) matches Ok(s) && s.tasks.is_over()
    }

    /// The sessions without one that has ended.
    pub open spec fn ended(self, sid: u128) -> Table<F, C, H> {
        Table { sessions: self.sessions.remove(sid), ..self }
    }
}

/// The value of the answer to who waited for a session.
pub open spec fn answer_view(r: Result<i32, P9cpuServerError>) -> Result<i32, error::ServerFault> {
    match r {
        Ok(code) => Ok(code),
        Err(e) => Err(e@),
    }
}

/// Whether `r` is the wanted answer that carries nothing.
pub open spec fn is_answer(
    r: Result<(), P9cpuServerError>,
    answer: Result<(), error::ServerFault>,
) -> bool {
    match r {
        Ok(_) => answer == Ok::<(), error::ServerFault>(()),
        Err(e) => answer == Err::<(), error::ServerFault>(e@),
    }
}

impl<F, C, H> P9cpuServerInner<F, C, H> {
    /// A server without sessions.
    pub fn new() -> (r: P9cpuServerInner<F, C, H>)
        ensures
            r@ == (Table::<F, C, H> { sessions: Map::empty(), pending: Map::empty() }),
    {
        let r = P9cpuServerInner { sessions: HashMap::new(), pending: HashMap::new() };
        assert(r@ =~= Table::<F, C, H> { sessions: Map::empty(), pending: Map::empty() });
        r
    }

    /// Opens a session.
    pub fn dial(&mut self, sid: u128) -> (r: Result<(), P9cpuServerError>)
        ensures
            is_answer(r, old(self)@.dial_answer(sid)),
            final(self)@ == old(self)@.dialled(sid),
    {
        if self.pending.contains_key(&sid) {
            return Err(P9cpuServerError::DuplicateId);
        }
        self.pending.insert(sid, PendingSession { ninep: None });
        Ok(())
    }

    /// Whether the file system of a client can be forwarded for a session.
    pub fn ninep_forward(&self, sid: u128) -> (r: Result<(), P9cpuServerError>)
        ensures
            is_answer(r, self@.forward_answer(sid)),
    {
        if self.pending.contains_key(&sid) {
            Ok(())
        } else {
            Err(P9cpuServerError::SessionNotExist)
        }
    }

    /// Notes the port on which the file system of a client is forwarded, and the task
    /// that forwards it. A later forwarding takes the place of an earlier one.
    pub fn ninep_ready(&mut self, sid: u128, port: u16, handle: H) -> (r: Result<
        (),
        P9cpuServerError,
    >)
        ensures
            is_answer(r, old(self)@.forward_answer(sid)),
            final(self)@ == old(self)@.forwarded(sid, port, handle),
    {
        if !self.pending.contains_key(&sid) {
            return Err(P9cpuServerError::SessionNotExist);
        }
        self.pending.insert(sid, PendingSession { ninep: Some((port, handle)) });
        Ok(())
    }

    /// Takes a session to be started and works out how its command is run. Whether or
    /// not it can be, the session is not dialled any more.
    pub fn start(&mut self, command: CommandReq, sid: u128) -> (r: Result<
        StartPlan<H>,
        P9cpuServerError,
    >)
        ensures
            match r {
                Ok(plan) => old(self)@.start_answer(command@, sid) == Ok::<
                    StartView<H>,
                    error::ServerFault,
                >(plan@),
                Err(e) => old(self)@.start_answer(command@, sid) == Err::<
                    StartView<H>,
                    error::ServerFault,
                >(e@),
            },
            r matches Ok(start) ==> {
                &&& start.plan.program == command.program && start.plan.args == command.args
                &&& start.plan.envs == command.envs && start.plan.tty == command.tty
            },
            final(self)@ == old(self)@.start_taken(sid),
    {
        let ghost was = self@;
        let taken = self.pending.remove(&sid);
        assert(self@ =~= was.start_taken(sid));
        let ninep = match taken {
            None => return Err(P9cpuServerError::SessionNotExist),
            Some(PendingSession { ninep }) => ninep,
        };
        if self.sessions.contains_key(&sid) {
            return Err(P9cpuServerError::DuplicateId);
        }
        let mut handles: Vec<H> = Vec::new();
        let mut ninep_port: Option<u16> = None;
        match ninep {
            Some((port, handle)) => {
                ninep_port = Some(port);
                handles.push(handle);
                assert(handles@ =~= seq![handle]);
            },
            None => {},
        }
        match command::make_cmd(command, ninep_port) {
            Ok(plan) => Ok(StartPlan { plan, handles }),
            Err(e) => Err(e),
        }
    }

    /// Enters a session whose command runs now. No session with the id runs already.
    pub fn started(&mut self, sid: u128, session: Session<F, C, H>)
        requires
            !old(self)@.sessions.contains_key(sid),
        ensures
            final(self)@ == old(self)@.started(sid, session@),
    {
        let ghost was = self@;
        let ghost entered = session@;
        self.sessions.insert(sid, session);
        assert(self@ =~= was.started(sid, entered));
    }

    /// A running session.
    pub fn get_session(&self, sid: u128) -> (r: Result<&Session<F, C, H>, P9cpuServerError>)
        ensures
            match r {
                Ok(s) => self@.session(sid) == Ok::<SessionView<F, C, H>, error::ServerFault>(s@),
                Err(e) => self@.session(sid) == Err::<SessionView<F, C, H>, error::ServerFault>(
                    e@,
                ),
            },
    {
        match self.sessions.get(&sid) {
            Some(s) => Ok(s),
            None => Err(P9cpuServerError::SessionNotExist),
        }
    }

    /// Where the input of a running session is written to.
    pub fn stdin(&self, sid: u128) -> (r: Result<&F, P9cpuServerError>)
        ensures
            match r {
                Ok(f) => self@.session(sid) matches Ok(s) && s.stdin == *f,
                Err(e) => self@.session(sid) == Err::<SessionView<F, C, H>, error::ServerFault>(
                    e@,
                ),
            },
    {
        match self.get_session(sid) {
            Ok(s) => Ok(&s.stdin),
            Err(e) => Err(e),
        }
    }

    /// Where the output of a running session is read from.
    pub fn stdout_st(&self, sid: u128) -> (r: Result<&F, P9cpuServerError>)
        ensures
            match r {
                Ok(f) => self@.session(sid) matches Ok(s) && s.stdout == *f,
                Err(e) => self@.session(sid) == Err::<SessionView<F, C, H>, error::ServerFault>(
                    e@,
                ),
            },
    {
        match self.get_session(sid) {
            Ok(s) => Ok(&s.stdout),
            Err(e) => Err(e),
        }
    }

    /// Where the error output of a running session is read from, if it has one.
    pub fn stderr_st(&self, sid: u128) -> (r: Result<Option<&F>, P9cpuServerError>)
        ensures
            match r {
                Ok(Some(f)) => self@.session(sid) matches Ok(s) && s.stderr == Some(*f),
                Ok(None) => self@.session(sid) matches Ok(s) && s.stderr is None,
                Err(e) => self@.session(sid) == Err::<SessionView<F, C, H>, error::ServerFault>(
                    e@,
                ),
            },
    {
        match self.get_session(sid) {
            Ok(s) => match &s.stderr {
                Some(f) => Ok(Some(f)),
                None => Ok(None),
            },
            Err(e) => Err(e),
        }
    }

    /// The process of a running session, to be waited for.
    pub fn wait(&self, sid: u128) -> (r: Result<&C, P9cpuServerError>)
        ensures
            match r {
                Ok(c) => self@.session(sid) matches Ok(s) && s.child == *c,
                Err(e) => self@.session(sid) == Err::<SessionView<F, C, H>, error::ServerFault>(
                    e@,
                ),
            },
    {
        match self.get_session(sid) {
            Ok(s) => Ok(&s.child),
            Err(e) => Err(e),
        }
    }

    /// Notes one more task that serves a running session.
    pub fn attach(&mut self, sid: u128, handle: H) -> (r: Result<(), P9cpuServerError>)
        ensures
            match r {
                Ok(_) => old(self)@.session(sid) is Ok,
                Err(e) => old(self)@.session(sid) == Err::<
                    SessionView<F, C, H>,
                    error::ServerFault,
                >(e@),
            },
            final(self)@ == old(self)@.attached(sid, handle),
    {
        let ghost was = self@;
        match self.sessions.remove(&sid) {
            Some(session) => {
                let Session { stdin, stdout, stderr, child, tasks } = session;
                let tasks = tasks.push(handle);
                self.sessions.insert(sid, Session { stdin, stdout, stderr, child, tasks });
                assert(self@ =~= was.attached(sid, handle));
                Ok(())
            },
            None => {
                assert(self@ =~= was);
                Err(P9cpuServerError::SessionNotExist)
            },
        }
    }

    /// Whether a wait for the tasks of a session can begin.
    pub fn joining(&self, sid: u128) -> (r: Result<Joining, P9cpuServerError>)
        ensures
            match r {
                Ok(state) => self@.session(sid) matches Ok(s) && state == joining_of(s.tasks),
                Err(e) => self@.session(sid) == Err::<SessionView<F, C, H>, error::ServerFault>(
                    e@,
                ),
            },
    {
        match self.get_session(sid) {
            Ok(s) => Ok(s.tasks.joining()),
            Err(e) => Err(e),
        }
    }

    /// Begins to wait for the tasks that serve a session, whose process is gone.
    pub fn exited(&mut self, sid: u128) -> (r: Result<(), P9cpuServerError>)
        requires
            old(self)@.session(sid) matches Ok(s) ==> s.tasks.can_begin(),
        ensures
            is_answer(r, old(self)@.exited_answer(sid)),
            final(self)@ == old(self)@.exited(sid),
    {
        let ghost was = self@;
        match self.sessions.remove(&sid) {
            Some(session) => {
                let Session { stdin, stdout, stderr, child, tasks } = session;
                let tasks = tasks.begin();
                self.sessions.insert(sid, Session { stdin, stdout, stderr, child, tasks });
                assert(self@ =~= was.exited(sid));
                Ok(())
            },
            None => {
                assert(self@ =~= was);
                Err(P9cpuServerError::SessionNotExist)
            },
        }
    }

    /// The task that the wait for a session is at. Nothing means that all have ended.
    pub fn next_task(&self, sid: u128) -> (r: Option<&H>)
        requires
            self@.session(sid) matches Ok(s) && s.tasks.until is Some,
        ensures
            match r {
                Some(task) => {
                    let tasks = self@.sessions[sid].tasks;
                    &&& tasks.ended < tasks.until->0 <= tasks.list.len()
                    &&& *task == tasks.list[tasks.ended as int]
                },
                None => self@.can_forget(sid),
            },
    {
        match self.sessions.get(&sid) {
            Some(session) => session.tasks.current(),
            None => None,
        }
    }

    /// Notes that the task that the wait for a session was at has ended, well or not: that
    /// is only reported.
    pub fn joined(&mut self, sid: u128)
        requires
            old(self)@.session(sid) matches Ok(s) && (s.tasks.until matches Some(n)
                && s.tasks.ended < n),
        ensures
            final(self)@ == old(self)@.joined(sid),
    {
        let ghost was = self@;
        match self.sessions.remove(&sid) {
            Some(session) => {
                let Session { stdin, stdout, stderr, child, tasks } = session;
                let tasks = tasks.end_one();
                self.sessions.insert(sid, Session { stdin, stdout, stderr, child, tasks });
                assert(self@ =~= was.joined(sid));
            },
            None => {},
        }
    }

    /// Notes that the wait for a session was given up. Its tasks stay listed.
    pub fn given_up(&mut self, sid: u128)
        ensures
            final(self)@ == old(self)@.given_up(sid),
    {
        let ghost was = self@;
        match self.sessions.remove(&sid) {
            Some(session) => {
                let Session { stdin, stdout, stderr, child, tasks } = session;
                let tasks = tasks.give_up();
                self.sessions.insert(sid, Session { stdin, stdout, stderr, child, tasks });
                assert(self@ =~= was.given_up(sid));
            },
            None => {
                assert(self@ =~= was);
            },
        }
    }

    /// Forgets a session whose tasks were waited for, and gives its exit code, from what
    /// waiting for its process gave: the code, none if a signal ended it, or the text of
    /// an error.
    pub fn wait_done(&mut self, sid: u128, status: Result<Option<i32>, String>) -> (r: Result<
        i32,
        P9cpuServerError,
    >)
        requires
            old(self)@.can_forget(sid),
        ensures
            answer_view(r) == exit_answer(status_view(status)),
            match status {
                Ok(Some(code)) => r == Ok::<i32, P9cpuServerError>(code),
                Ok(None) => r == Err::<i32, P9cpuServerError>(P9cpuServerError::NoReturnCode),
                Err(e) => r matches Err(f) && f@ == error::ServerFault::CommandError(e@),
            },
            final(self)@ == old(self)@.ended(sid),
    {
        let ghost was = self@;
        self.sessions.remove(&sid);
        assert(self@ =~= was.ended(sid));
        match status {
            Ok(Some(code)) => Ok(code),
            Ok(None) => Err(P9cpuServerError::NoReturnCode),
            Err(e) => Err(P9cpuServerError::CommandError(e)),
        }
    }
}

impl<F, C, H> Default for P9cpuServerInner<F, C, H> {
    /// A server without sessions.
    fn default() -> (r: P9cpuServerInner<F, C, H>)
        ensures
            r@ == (Table::<F, C, H> { sessions: Map::empty(), pending: Map::empty() }),
    {
        P9cpuServerInner::new()
    }
}

/// The exit code of a command, from what waiting for it gave.
pub open spec fn exit_answer(status: Result<Option<i32>, Seq<char>>) -> Result<
    i32,
    error::ServerFault,
> {
    match status {
        Ok(Some(code)) => Ok(code),
        Ok(None) => Err(error::ServerFault::NoReturnCode),
        Err(e) => Err(error::ServerFault::CommandError(e)),
    }
}

/// The value of what waiting for a process gave.
pub open spec fn status_view(status: Result<Option<i32>, String>) -> Result<
    Option<i32>,
    Seq<char>,
> {
    match status {
        Ok(code) => Ok(code),
        Err(e) => Err(e@),
    }
}

/// An id that was dialled cannot be dialled again before it is started, and the
/// attempt changes nothing.
pub proof fn dialled_id_is_taken<F, C, H>(t: Table<F, C, H>, sid: u128)
    ensures
        t.dialled(sid).dial_answer(sid) == Err::<(), error::ServerFault>(
            error::ServerFault::DuplicateId,
        ),
        t.dialled(sid).dialled(sid) == t.dialled(sid),
{
}

/// Whatever the answer to a start, another start of the same id finds no session,
/// and the id can be dialled again.
pub proof fn start_uses_up_the_dial<F, C, H>(
    t: Table<F, C, H>,
    sid: u128,
    command: cmd::CommandView,
)
    ensures
        t.start_taken(sid).start_answer(command, sid) == Err::<
            StartView<H>,
            error::ServerFault,
        >(error::ServerFault::SessionNotExist),
        t.start_taken(sid).dial_answer(sid) == Ok::<(), error::ServerFault>(()),
{
}

/// A session that was dialled and whose file system is forwarded is started with
/// that port, and the task that forwards is the first that serves it.
pub proof fn forwarded_port_is_used<F, C, H>(
    t: Table<F, C, H>,
    sid: u128,
    port: u16,
    handle: H,
    command: cmd::CommandView,
)
    requires
        !t.sessions.contains_key(sid),
        command::plan_of(command, Some(port)) is Ok,
    ensures
        t.dialled(sid).forwarded(sid, port, handle).start_answer(command, sid) == Ok::<
            StartView<H>,
            error::ServerFault,
        >(
            StartView {
                plan: command::plan_of(command, Some(port))->Ok_0,
                handles: seq![handle],
            },
        ),
{
}

/// Without forwarding, a dialled session is started without a port.
pub proof fn plain_start<F, C, H>(t: Table<F, C, H>, sid: u128, command: cmd::CommandView)
    requires
        !t.pending.contains_key(sid),
        !t.sessions.contains_key(sid),
        command::plan_of(command, None) is Ok,
    ensures
        t.dialled(sid).start_answer(command, sid) == Ok::<StartView<H>, error::ServerFault>(
            StartView { plan: command::plan_of(command, None)->Ok_0, handles: Seq::empty() },
        ),
{
}

/// A running id can be dialled, but not started again: that is refused, and the
/// running session stays as it is.
pub proof fn running_id_is_not_started_again<F, C, H>(
    t: Table<F, C, H>,
    sid: u128,
    command: cmd::CommandView,
)
    requires
        t.sessions.contains_key(sid),
    ensures
        t.dialled(sid).start_answer(command, sid) == Err::<StartView<H>, error::ServerFault>(
            error::ServerFault::DuplicateId,
        ),
        t.dialled(sid).start_taken(sid).session(sid) == t.session(sid),
{
}

/// A session that was started is found with what it was started with.
pub proof fn started_session_is_found<F, C, H>(
    t: Table<F, C, H>,
    sid: u128,
    session: SessionView<F, C, H>,
)
    ensures
        t.started(sid, session).session(sid) == Ok::<SessionView<F, C, H>, error::ServerFault>(
            session,
        ),
{
}

/// Tasks are listed in the order in which they came.
pub proof fn tasks_are_listed_in_order<F, C, H>(
    t: Table<F, C, H>,
    sid: u128,
    session: SessionView<F, C, H>,
    first: H,
    second: H,
)
    ensures
        t.started(sid, session).attached(sid, first).attached(sid, second).session(sid) == Ok::<
            SessionView<F, C, H>,
            error::ServerFault,
        >(SessionView { tasks: session.tasks.pushed(first).pushed(second), ..session }),
{
}

/// An ended session is gone, and its id can be dialled and started anew.
pub proof fn ended_session_is_gone<F, C, H>(
    t: Table<F, C, H>,
    sid: u128,
    command: cmd::CommandView,
)
    requires
        !t.pending.contains_key(sid),
        command::plan_of(command, None) is Ok,
    ensures
        t.ended(sid).session(sid) == Err::<SessionView<F, C, H>, error::ServerFault>(
            error::ServerFault::SessionNotExist,
        ),
        t.ended(sid).dial_answer(sid) == Ok::<(), error::ServerFault>(()),
        t.ended(sid).dialled(sid).start_answer(command, sid) is Ok,
{
}

/// What can happen to the tasks of a session.
pub enum TaskEvent<H> {
    /// One more came to serve the session.
    Attached(H),
    /// The process is gone, and a wait begins.
    Exited,
    /// The task that the wait is at has ended.
    Joined,
    /// The wait was given up.
    GivenUp,
}

/// Whether it can happen.
pub open spec fn can_happen<H>(tasks: TasksView<H>, event: TaskEvent<H>) -> bool {
    match event {
        TaskEvent::Exited => tasks.can_begin(),
        TaskEvent::Joined => tasks.until matches Some(n) && tasks.ended < n,
        _ => true,
    }
}

/// The tasks after it.
pub open spec fn after_event<H>(tasks: TasksView<H>, event: TaskEvent<H>) -> TasksView<H> {
    match event {
        TaskEvent::Attached(task) => tasks.pushed(task),
        TaskEvent::Exited => tasks.begun(),
        TaskEvent::Joined => tasks.one_ended(),
        TaskEvent::GivenUp => tasks.given_up(),
    }
}

/// The tasks after all that happened to them, if it could happen; then those that
/// have ended so far, and those that were listed when the last wait began.
pub open spec fn history<H>(list: Seq<H>, events: Seq<TaskEvent<H>>) -> Option<
    (TasksView<H>, Seq<H>, Seq<H>),
>
    decreases events.len(),
{
    if events.len() == 0 {
        Some((TasksView::new(list), Seq::empty(), Seq::empty()))
    } else {
        match history(list, events.drop_last()) {
            Some((tasks, joined, due)) if can_happen(tasks, events.last()) => Some(
                (
                    after_event(tasks, events.last()),
                    match events.last() {
                        TaskEvent::Joined => joined.push(tasks.list[tasks.ended as int]),
                        _ => joined,
                    },
                    match events.last() {
                        TaskEvent::Exited => tasks.list,
                        _ => due,
                    },
                ),
            ),
            _ => None,
        }
    }
}

proof fn lemma_history<H>(list: Seq<H>, events: Seq<TaskEvent<H>>)
    ensures
        history(list, events) matches Some((tasks, joined, due)) ==> {
            &&& tasks.ended <= tasks.list.len()
            &&& joined == tasks.list.take(tasks.ended as int)
            &&& tasks.until matches Some(n) ==> {
                &&& tasks.ended <= n <= tasks.list.len()
                &&& due == tasks.list.take(n as int)
            }
        },
    decreases events.len(),
{
    if events.len() > 0 {
        lemma_history(list, events.drop_last());
        if let Some((tasks, joined, due)) = history(list, events.drop_last()) {
            match events.last() {
                TaskEvent::Attached(task) => {
                    let after = tasks.pushed(task);
                    assert(after.list.take(tasks.ended as int) =~= tasks.list.take(
                        tasks.ended as int,
                    ));
                    if let Some(n) = tasks.until {
                        assert(after.list.take(n as int) =~= tasks.list.take(n as int));
                    }
                },
                TaskEvent::Exited => {
                    assert(tasks.list.take(tasks.list.len() as int) =~= tasks.list);
                },
                TaskEvent::Joined => {
                    if can_happen(tasks, events.last()) {
                        assert(tasks.list.take((tasks.ended + 1) as int) =~= tasks.list.take(
                            tasks.ended as int,
                        ).push(tasks.list[tasks.ended as int]));
                    }
                },
                TaskEvent::GivenUp => {},
            }
        }
    }
}

/// Whatever happened to the tasks of a session, over one wait or several, and whatever
/// came to serve it meanwhile: it can be forgotten only once all the tasks that served it
/// when the wait in course began have ended.
pub proof fn tasks_end_before_a_session_is_forgotten<H>(list: Seq<H>, events: Seq<TaskEvent<H>>)
    ensures
        history(list, events) matches Some((tasks, joined, due)) ==> tasks.is_over() ==> joined
            == due,
{
    lemma_history(list, events);
}

/// While a session is waited for, no other wait for it begins; nor does one after a wait
/// that was given up when a task had ended.
pub proof fn one_wait_at_a_time<H>(tasks: TasksView<H>)
    ensures
        !tasks.begun().can_begin(),
        !tasks.one_ended().given_up().can_begin(),
        tasks.can_begin() ==> tasks.begun().given_up() == tasks,
{
}

/// What happens to the tasks of a session in the table is what can happen to tasks.
pub proof fn sessions_go_through_task_events<F, C, H>(
    t: Table<F, C, H>,
    sid: u128,
    handle: H,
)
    requires
        t.sessions.contains_key(sid),
    ensures
        t.attached(sid, handle).sessions[sid].tasks == after_event(
            t.sessions[sid].tasks,
            TaskEvent::Attached(handle),
        ),
        t.exited(sid).sessions[sid].tasks == after_event(t.sessions[sid].tasks, TaskEvent::Exited),
        t.joined(sid).sessions[sid].tasks == after_event(t.sessions[sid].tasks, TaskEvent::Joined),
        t.given_up(sid).sessions[sid].tasks == after_event(
            t.sessions[sid].tasks,
            TaskEvent::GivenUp,
        ),
        t.can_forget(sid) <==> t.sessions[sid].tasks.is_over(),
{
}

/// A session that was waited for is gone: nothing of it is found, and its id can be
/// dialled, unless it was already. Other sessions are as they were.
pub proof fn waited_session_is_gone<F, C, H>(t: Table<F, C, H>, sid: u128, other: u128)
    requires
        t.can_forget(sid),
        sid != other,
    ensures
        t.ended(sid).session(sid) == Err::<SessionView<F, C, H>, error::ServerFault>(
            error::ServerFault::SessionNotExist,
        ),
        t.ended(sid).dial_answer(sid) == t.dial_answer(sid),
        t.ended(sid).session(other) == t.session(other),
        t.ended(sid).pending == t.pending,
{
}

/// Nothing that is done for one id changes what is known of another.
pub proof fn sessions_do_not_mix<F, C, H>(
    t: Table<F, C, H>,
    sid: u128,
    other: u128,
    port: u16,
    handle: H,
    session: SessionView<F, C, H>,
    command: cmd::CommandView,
)
    requires
        sid != other,
    ensures
        forall|u: Table<F, C, H>|
            (u == t.dialled(sid) || u == t.forwarded(sid, port, handle) || u == t.start_taken(sid)
                || u == t.started(sid, session) || u == t.attached(sid, handle) || u
                == t.exited(sid) || u == t.joined(sid) || u == t.given_up(sid) || u == t.ended(
                sid,
            )) ==> {
                &&& #[trigger] u.session(other) == t.session(other)
                &&& u.dial_answer(other) == t.dial_answer(other)
                &&& u.forward_answer(other) == t.forward_answer(other)
                &&& u.start_answer(command, other) == t.start_answer(command, other)
            },
{
}

/// A request that is refused changes nothing, but for a start, which uses up a dial.
pub proof fn refused_requests_change_nothing<F, C, H>(
    t: Table<F, C, H>,
    sid: u128,
    port: u16,
    handle: H,
)
    ensures
        t.dial_answer(sid) is Err ==> t.dialled(sid) == t,
        t.forward_answer(sid) is Err ==> t.forwarded(sid, port, handle) == t,
        t.session(sid) is Err ==> t.attached(sid, handle) == t && t.exited(sid) == t,
        !t.pending.contains_key(sid) ==> t.start_taken(sid) == t,
{
    if !t.pending.contains_key(sid) {
        assert(t.start_taken(sid) =~= t);
    }
}

/// Who waited for a session is told the exit code of its process, whatever the code is;
/// that there is none, if a signal ended the process; or the words of the error, if it
/// could not be waited for. Different codes are told apart.
pub proof fn exit_code_is_given_back(code: i32, e: Seq<char>)
    ensures
        exit_answer(Ok(Some(code))) == Ok::<i32, error::ServerFault>(code),
        exit_answer(Ok(None)) == Err::<i32, error::ServerFault>(error::ServerFault::NoReturnCode),
        exit_answer(Err(e)) == Err::<i32, error::ServerFault>(error::ServerFault::CommandError(e)),
        forall|other: i32| #[trigger]
            exit_answer(Ok(Some(other))) == exit_answer(Ok(Some(code))) ==> other == code,
{
}

/// A dial opens a session exactly if none with the id is open and not started yet. It has
/// nothing forwarded, and nothing else changes. A refused dial changes nothing.
pub proof fn dial_opens_a_session<F, C, H>(t: Table<F, C, H>, sid: u128)
    ensures
        t.dial_answer(sid) is Ok <==> !t.pending.contains_key(sid),
        t.dial_answer(sid) matches Err(e) ==> e == error::ServerFault::DuplicateId
            && t.dialled(sid) == t,
        t.dial_answer(sid) is Ok ==> {
            &&& t.dialled(sid).sessions == t.sessions
            &&& t.dialled(sid).pending.dom() == t.pending.dom().insert(sid)
            &&& t.dialled(sid).pending[sid].ninep is None
            &&& forall|other: u128|
                other != sid && t.pending.contains_key(other) ==> #[trigger] t.dialled(
                    sid,
                ).pending[other] == t.pending[other]
        },
{
}

/// The file system of a client is forwarded exactly for a session that is open and not
/// started. The port and the task of the last forwarding are noted, and nothing else
/// changes.
pub proof fn forwarding_is_noted<F, C, H>(t: Table<F, C, H>, sid: u128, port: u16, handle: H)
    ensures
        t.forward_answer(sid) is Ok <==> t.pending.contains_key(sid),
        t.forward_answer(sid) matches Err(e) ==> e == error::ServerFault::SessionNotExist
            && t.forwarded(sid, port, handle) == t,
        t.forward_answer(sid) is Ok ==> {
            let after = t.forwarded(sid, port, handle);
            &&& after.sessions == t.sessions
            &&& after.pending.dom() == t.pending.dom()
            &&& after.pending[sid].ninep == Some((port, handle))
            &&& forall|other: u128|
                other != sid && t.pending.contains_key(other) ==> #[trigger] after.pending[other]
                    == t.pending[other]
        },
{
    assert(t.forward_answer(sid) is Ok ==> t.forwarded(sid, port, handle).pending.dom()
        =~= t.pending.dom());
}

/// A start is answered with how the command is run exactly if the session is open, none
/// with the id runs, and the command can be run with the port that is forwarded, if one
/// is. Otherwise it is told which of these does not hold, in that order.
pub proof fn start_is_answered<F, C, H>(t: Table<F, C, H>, command: cmd::CommandView, sid: u128)
    ensures
        !t.pending.contains_key(sid) ==> t.start_answer(command, sid) == Err::<
            StartView<H>,
            error::ServerFault,
        >(error::ServerFault::SessionNotExist),
        t.pending.contains_key(sid) && t.sessions.contains_key(sid) ==> t.start_answer(
            command,
            sid,
        ) == Err::<StartView<H>, error::ServerFault>(error::ServerFault::DuplicateId),
        t.pending.contains_key(sid) && !t.sessions.contains_key(sid) ==> {
            let port = match t.pending[sid].ninep {
                Some((port, _)) => Some(port),
                None => None,
            };
            match command::plan_of(command, port) {
                Err(e) => t.start_answer(command, sid) == Err::<StartView<H>, error::ServerFault>(
                    e,
                ),
                Ok(plan) => t.start_answer(command, sid) matches Ok(start) && start.plan == plan
                    && match t.pending[sid].ninep {
                    Some((_, handle)) => start.handles.len() == 1 && start.handles[0] == handle,
                    None => start.handles.len() == 0,
                },
            }
        },
        t.start_taken(sid).sessions == t.sessions,
        t.start_taken(sid).pending == t.pending.remove(sid),
{
}

/// A question about a session is answered exactly if it runs, with what is held of it.
/// A session that was started is held as it was given, beside all others.
pub proof fn running_sessions_are_found<F, C, H>(
    t: Table<F, C, H>,
    sid: u128,
    session: SessionView<F, C, H>,
)
    ensures
        t.session(sid) is Ok <==> t.sessions.contains_key(sid),
        t.session(sid) matches Ok(s) ==> s == t.sessions[sid],
        t.session(sid) matches Err(e) ==> e == error::ServerFault::SessionNotExist,
        t.started(sid, session).pending == t.pending,
        t.started(sid, session).sessions == t.sessions.insert(sid, session),
        t.exited_answer(sid) is Ok <==> t.sessions.contains_key(sid),
        t.exited_answer(sid) matches Err(e) ==> e == error::ServerFault::SessionNotExist,
        t.ended(sid).pending == t.pending,
        t.ended(sid).sessions == t.sessions.remove(sid),
{
}

/// What happens to the tasks of a session changes nothing but its tasks: neither what else
/// is held of it nor any other session.
pub proof fn only_the_tasks_change<F, C, H>(t: Table<F, C, H>, sid: u128, handle: H)
    ensures
        forall|u: Table<F, C, H>|
            (u == t.attached(sid, handle) || u == t.exited(sid) || u == t.joined(sid) || u
                == t.given_up(sid)) ==> {
                &&& #[trigger] u.pending == t.pending
                &&& u.sessions.dom() == t.sessions.dom()
                &&& forall|other: u128|
                    other != sid && t.sessions.contains_key(other) ==> #[trigger] u.sessions[other]
                        == t.sessions[other]
                &&& t.sessions.contains_key(sid) ==> {
                    &&& u.sessions[sid].stdin == t.sessions[sid].stdin
                    &&& u.sessions[sid].stdout == t.sessions[sid].stdout
                    &&& u.sessions[sid].stderr == t.sessions[sid].stderr
                    &&& u.sessions[sid].child == t.sessions[sid].child
                }
            },
{
    assert(t.attached(sid, handle).sessions.dom() =~= t.sessions.dom());
    assert(t.exited(sid).sessions.dom() =~= t.sessions.dom());
    assert(t.joined(sid).sessions.dom() =~= t.sessions.dom());
    assert(t.given_up(sid).sessions.dom() =~= t.sessions.dom());
}

/// A task that comes is listed last. A wait is for all tasks that are listed when it
/// begins. Each task that ends is counted once. A wait that was given up leaves the list
/// and the count as they are.
pub proof fn tasks_are_counted<H>(tasks: TasksView<H>, task: H)
    ensures
        TasksView::new(tasks.list).list == tasks.list && TasksView::new(tasks.list).ended == 0
            && TasksView::new(tasks.list).until is None,
        ({
            let after = tasks.pushed(task);
            &&& after.list.len() == tasks.list.len() + 1
            &&& after.list.drop_last() == tasks.list && after.list.last() == task
            &&& after.ended == tasks.ended && after.until == tasks.until
        }),
        ({
            let after = tasks.begun();
            after.list == tasks.list && after.ended == tasks.ended && after.until == Some(
                tasks.list.len(),
            )
        }),
        ({
            let after = tasks.one_ended();
            after.list == tasks.list && after.ended == tasks.ended + 1 && after.until
                == tasks.until
        }),
        ({
            let after = tasks.given_up();
            after.list == tasks.list && after.ended == tasks.ended && after.until is None
        }),
        tasks.can_begin() <==> tasks.until is None && tasks.ended == 0,
        tasks.is_over() <==> (tasks.until matches Some(n) && n == tasks.ended),
        joining_of(tasks) == Joining::Ready <==> tasks.can_begin(),
        joining_of(tasks) == Joining::Busy <==> tasks.until is Some,
        joining_of(tasks) == Joining::Spent <==> tasks.until is None && tasks.ended > 0,
{
    assert(tasks.pushed(task).list.drop_last() =~= tasks.list);
}

/// Answers and what they are made from have the value that they hold.
pub proof fn answers_are_what_they_hold(
    r: Result<i32, P9cpuServerError>,
    status: Result<Option<i32>, String>,
    done: Result<(), P9cpuServerError>,
    answer: Result<(), error::ServerFault>,
)
    ensures
        r matches Ok(code) ==> answer_view(r) == Ok::<i32, error::ServerFault>(code),
        r matches Err(e) ==> answer_view(r) == Err::<i32, error::ServerFault>(e@),
        status matches Ok(code) ==> status_view(status) == Ok::<Option<i32>, Seq<char>>(code),
        status matches Err(e) ==> status_view(status) == Err::<Option<i32>, Seq<char>>(e@),
        is_answer(done, answer) ==> (done is Ok <==> answer is Ok),
        is_answer(done, answer) ==> (done matches Err(e) ==> answer == Err::<
            (),
            error::ServerFault,
        >(e@)),
{
}

} // verus!
