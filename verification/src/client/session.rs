//! The command of a client, from its start to its end.

use vstd::prelude::*;

use crate::client::error;
use crate::client::error::P9cpuClientError;
use crate::client::error::WaitError;
use crate::cmd;
use crate::cmd::Command;
use crate::cmd::CommandReq;
use crate::number;
use crate::text;

verus! {

/// A command that runs: its session, the tasks that serve its input and output, and
/// what tells them to stop.
#[derive(Debug)]
pub struct SessionInfo<H, T> {
    pub sid: u128,
    pub handles: Vec<H>,
    pub stop_tx: T,
    pub tty: bool,
}

/// A client with its connection to a server.
#[derive(Debug)]
pub struct P9cpuClient<Inner, H, T> {
    /// The connection.
    pub inner: Inner,
    /// The command that was started and not waited for.
    pub session_info: Option<SessionInfo<H, T>>,
}

/// What is asked of the connection next, in order to start a command.
#[derive(Debug, Clone, Copy, PartialEq, Eq, Structural)]
pub enum Stage {
    /// Open a session.
    Dial,
    /// Forward the file system of the client.
    Forward,
    /// Start the command.
    Start,
    /// Open its output, and copy it to the output of the client.
    Stdout,
    /// Open its error output, and copy it to the error output of the client.
    Stderr,
    /// Open its input, and copy the input of the client to it.
    Stdin,
    /// Nothing: it runs.
    Running,
}

/// What is asked after `stage` for a command that does or does not need the file
/// system of the client, and does or does not run on a terminal.
pub open spec fn next_stage(stage: Stage, ninep: bool, tty: bool) -> Stage {
    match stage {
        Stage::Dial => if ninep {
            Stage::Forward
        } else {
            Stage::Start
        },
        Stage::Forward => Stage::Start,
        Stage::Start => Stage::Stdout,
        Stage::Stdout => if tty {
            Stage::Stdin
        } else {
            Stage::Stderr
        },
        Stage::Stderr => Stage::Stdin,
        Stage::Stdin => Stage::Running,
        Stage::Running => Stage::Running,
    }
}

/// A command on its way to run.
#[derive(Debug)]
pub struct Starting<H> {
    stage: Stage,
    tty: bool,
    ninep: bool,
    /// The session, once it is open.
    sid: u128,
    /// The command, until it is started.
    command: Option<CommandReq>,
    handles: Vec<H>,
}

/// The value of a [`Starting`].
#[verifier::ext_equal]
pub struct StartingView<H> {
    pub stage: Stage,
    pub tty: bool,
    pub ninep: bool,
    pub sid: u128,
    pub command: Option<cmd::CommandView>,
    pub handles: Seq<H>,
}

impl<H> View for Starting<H> {
    type V = StartingView<H>;

    closed spec fn view(&self) -> StartingView<H> {
        StartingView {
            stage: self.stage,
            tty: self.tty,
            ninep: self.ninep,
            sid: self.sid,
            command: match self.command {
                Some(c) => Some(c@),
                None => None,
            },
            handles: self.handles@,
        }
    }
}

/// What the connection answered.
#[derive(Debug)]
pub enum Reply<H> {
    /// The session that was opened.
    Session(u128),
    /// It was done.
    Done,
    /// It was done, and what copies was spawned.
    Task(H),
}

impl<H> StartingView<H> {
    /// Whether the connection may answer this at the stage.
    pub open spec fn expects(self, reply: Reply<H>) -> bool {
        match self.stage {
            Stage::Dial => reply is Session,
            Stage::Forward => reply is Done,
            Stage::Start => reply is Done,
            Stage::Stdout => reply is Task,
            Stage::Stderr => reply is Task,
            Stage::Stdin => reply is Task,
            Stage::Running => false,
        }
    }

    /// Where the command is after an answer.
    pub open spec fn after(self, reply: Reply<H>) -> StartingView<H> {
        StartingView {
            stage: next_stage(self.stage, self.ninep, self.tty),
            sid: match reply {
                Reply::Session(sid) => sid,
                _ => self.sid,
            },
            handles: match reply {
                Reply::Task(h) => self.handles.push(h),
                _ => self.handles,
            },
            ..self
        }
    }
}

/// Where a command starts from.
pub open spec fn start_of<H>(command: cmd::CommandView) -> StartingView<H> {
    StartingView {
        stage: Stage::Dial,
        tty: command.tty,
        ninep: command.ninep,
        sid: 0,
        command: Some(command),
        handles: Seq::empty(),
    }
}

fn stage_after(stage: Stage, ninep: bool, tty: bool) -> (r: Stage)
    ensures
        r == next_stage(stage, ninep, tty),
{
    match stage {
        Stage::Dial => if ninep {
            Stage::Forward
        } else {
            Stage::Start
        },
        Stage::Forward => Stage::Start,
        Stage::Start => Stage::Stdout,
        Stage::Stdout => if tty {
            Stage::Stdin
        } else {
            Stage::Stderr
        },
        Stage::Stderr => Stage::Stdin,
        Stage::Stdin => Stage::Running,
        Stage::Running => Stage::Running,
    }
}

impl<H> Starting<H> {
    /// What is to be asked of the connection.
    pub fn stage(&self) -> (r: Stage)
        ensures
            r == self@.stage,
    {
        self.stage
    }

    /// The session that was opened.
    pub fn sid(&self) -> (r: u128)
        ensures
            r == self@.sid,
    {
        self.sid
    }

    /// Hands out the command, to be started.
    pub fn take_command(&mut self) -> (r: Option<CommandReq>)
        ensures
            match r {
                Some(c) => old(self)@.command == Some(c@),
                None => old(self)@.command is None,
            },
            final(self)@ == (StartingView { command: None, ..old(self)@ }),
    {
        let ghost was = self@;
        let r = self.command.take();
        assert(self@ =~= (StartingView { command: None, ..was }));
        r
    }

    /// Goes on with the answer to what was asked, or gives up with its error.
    pub fn step(self, reply: Result<Reply<H>, String>) -> (r: Result<Starting<H>, P9cpuClientError>)
        requires
            reply matches Ok(a) ==> self@.expects(a),
        ensures
            match reply {
                Ok(a) => r matches Ok(s) && s@ == self@.after(a),
                Err(e) => r matches Err(f) && f@ == error::ClientFault::Inner(e@),
            },
    {
        let ghost was = self@;
        let answer = match reply {
            Ok(a) => a,
            Err(e) => return Err(P9cpuClientError::Inner(e)),
        };
        let Starting { stage, tty, ninep, sid, command, handles } = self;
        let mut sid = sid;
        let mut handles = handles;
        match answer {
            Reply::Session(opened) => {
                sid = opened;
            },
            Reply::Done => {},
            Reply::Task(h) => {
                handles.push(h);
            },
        }
        let next = Starting { stage: stage_after(stage, ninep, tty), tty, ninep, sid, command, handles };
        assert(next@ =~= was.after(answer));
        Ok(next)
    }
}

impl<Inner, H, T> P9cpuClient<Inner, H, T> {
    /// A client that has started nothing.
    pub fn new(inner: Inner) -> (r: P9cpuClient<Inner, H, T>)
        ensures
            r.inner == inner,
            r.session_info is None,
    {
        P9cpuClient { inner, session_info: None }
    }

    /// Takes a command to be started, unless another one was.
    pub fn start(&self, command: Command) -> (r: Result<Starting<H>, P9cpuClientError>)
        ensures
            match r {
                Ok(s) => self.session_info is None && s@ == start_of::<H>(command.req@),
                Err(e) => self.session_info is Some && e@ == error::ClientFault::AlreadyStarted,
            },
    {
        if self.session_info.is_some() {
            return Err(P9cpuClientError::AlreadyStarted);
        }
        let req = command.req;
        let s = Starting {
            stage: Stage::Dial,
            tty: req.tty,
            ninep: req.ninep,
            sid: 0,
            command: Some(req),
            handles: Vec::new(),
        };
        assert(s@ =~= start_of::<H>(command.req@));
        Ok(s)
    }

    /// Enters a command that runs now.
    pub fn started(&mut self, run: Starting<H>, stop_tx: T)
        requires
            run@.stage == Stage::Running,
            old(self).session_info is None,
        ensures
            final(self).inner == old(self).inner,
            final(self).session_info matches Some(info) && info.sid == run@.sid && info.handles@
                == run@.handles && info.stop_tx == stop_tx && info.tty == run@.tty,
    {
        self.session_info =
        Some(SessionInfo { sid: run.sid, handles: run.handles, stop_tx, tty: run.tty });
    }

    /// Hands out the command that runs, to be waited for.
    pub fn wait(&mut self) -> (r: Result<SessionInfo<H, T>, P9cpuClientError>)
        ensures
            match r {
                Ok(info) => old(self).session_info == Some(info),
                Err(e) => old(self).session_info is None && e@ == error::ClientFault::NotStarted,
            },
            final(self).session_info is None,
            final(self).inner == old(self).inner,
    {
        match self.session_info.take() {
            Some(info) => Ok(info),
            None => Err(P9cpuClientError::NotStarted),
        }
    }

    /// What becomes of a command, from what waiting for it over the connection gave: its
    /// exit code, of which any but zero is an error, or an error, which is passed on.
    pub fn wait_inner(&self, reply: Result<i32, String>) -> (r: Result<(), WaitError>)
        ensures
            result_view(r) == reply_result(reply_view(reply)),
            match reply {
                Ok(code) => if code == 0 {
                    r is Ok
                } else {
                    r == Err::<(), WaitError>(
                        WaitError::Client(P9cpuClientError::NonZeroExitCode(code)),
                    )
                },
                Err(e) => r == Err::<(), WaitError>(WaitError::Connection(e)),
            },
    {
        match reply {
            Ok(code) => if code == 0 {
                Ok(())
            } else {
                Err(WaitError::Client(P9cpuClientError::NonZeroExitCode(code)))
            },
            Err(e) => Err(WaitError::Connection(e)),
        }
    }
}

/// What becomes of a command that ended with `code`.
pub open spec fn exit_result(code: i32) -> Result<(), error::ClientFault> {
    if code == 0 {
        Ok(())
    } else {
        Err(error::ClientFault::NonZeroExitCode(code))
    }
}

/// What becomes of a command, from what waiting for it over the connection gave.
pub open spec fn reply_result(reply: Result<i32, Seq<char>>) -> Result<(), error::WaitFault> {
    match reply {
        Ok(code) => match exit_result(code) {
            Ok(_) => Ok(()),
            Err(e) => Err(error::WaitFault::Client(e)),
        },
        Err(e) => Err(error::WaitFault::Connection(e)),
    }
}

/// The value of what waiting over the connection gave.
pub open spec fn reply_view(reply: Result<i32, String>) -> Result<i32, Seq<char>> {
    match reply {
        Ok(code) => Ok(code),
        Err(e) => Err(e@),
    }
}

/// The value of what became of a command.
pub open spec fn result_view(r: Result<(), WaitError>) -> Result<(), error::WaitFault> {
    match r {
        Ok(_) => Ok(()),
        Err(e) => Err(e@),
    }
}

/// One thing to do while a command is waited for.
#[derive(Debug, Clone, Copy, PartialEq, Eq, Structural)]
pub enum WaitStep {
    /// Keep the settings of the terminal and set it to raw mode. A failure ends the wait.
    RawTerminal,
    /// Wait for the exit code. What comes of it is the result of the wait.
    ExitCode,
    /// Tell the task that copies the input to stop. A failure is only reported.
    StopInput,
    /// Wait for the task with this number. A failure is only reported.
    Join(usize),
    /// Give the terminal its settings back. A failure is only reported.
    RestoreTerminal,
}

/// The steps that wait for the tasks.
pub open spec fn join_steps(tasks: nat) -> Seq<WaitStep> {
    Seq::new(tasks, |i: int| WaitStep::Join(i as usize))
}

/// What is done while a command with so many tasks is waited for.
pub open spec fn wait_steps(tty: bool, tasks: nat) -> Seq<WaitStep> {
    let body = seq![WaitStep::ExitCode, WaitStep::StopInput] + join_steps(tasks);
    if tty {
        seq![WaitStep::RawTerminal] + body + seq![WaitStep::RestoreTerminal]
    } else {
        body
    }
}

/// What is to be done, in order, while a command with so many tasks is waited for.
pub fn plan_wait(tty: bool, tasks: usize) -> (r: Vec<WaitStep>)
    ensures
        r@ == wait_steps(tty, tasks as nat),
{
    let mut steps: Vec<WaitStep> = Vec::new();
    if tty {
        steps.push(WaitStep::RawTerminal);
    }
    steps.push(WaitStep::ExitCode);
    steps.push(WaitStep::StopInput);
    let ghost before = steps@;
    let mut i: usize = 0;
    assert(before + join_steps(0) =~= before);
    while i < tasks
        invariant
            i <= tasks,
            steps@ == before + join_steps(i as nat),
        decreases tasks - i,
    {
        steps.push(WaitStep::Join(i));
        assert(before + join_steps((i + 1) as nat) =~= (before + join_steps(i as nat)).push(
            WaitStep::Join(i),
        ));
        i += 1;
    }
    if tty {
        steps.push(WaitStep::RestoreTerminal);
    }
    assert(steps@ =~= wait_steps(tty, tasks as nat));
    steps
}

/// What came of a step of the wait.
#[derive(Debug, PartialEq, Eq)]
pub enum StepOutcome {
    /// It was done.
    Done,
    /// It failed.
    Failed(String),
    /// This became of the command.
    Exit(Result<(), WaitError>),
}

/// The value of a [`StepOutcome`].
pub enum OutcomeView {
    Done,
    Failed(Seq<char>),
    Exit(Result<(), error::WaitFault>),
}

impl View for StepOutcome {
    type V = OutcomeView;

    open spec fn view(&self) -> OutcomeView {
        match self {
            StepOutcome::Done => OutcomeView::Done,
            StepOutcome::Failed(e) => OutcomeView::Failed(e@),
            StepOutcome::Exit(r) => OutcomeView::Exit(result_view(*r)),
        }
    }
}

/// Whether a step can come out like this.
pub open spec fn can_come_of(step: WaitStep, outcome: OutcomeView) -> bool {
    outcome is Exit <==> step == WaitStep::ExitCode
}

/// Whether the failure of a step ends the wait: that of the first, before anything was
/// waited for. Any other is only reported.
pub open spec fn failure_ends_wait(step: WaitStep) -> bool {
    step == WaitStep::RawTerminal
}

impl WaitStep {
    /// Whether its failure ends the wait. If not, it is only reported.
    pub fn failure_ends_wait(&self) -> (r: bool)
        ensures
            r == failure_ends_wait(*self),
    {
        match self {
            WaitStep::RawTerminal => true,
            _ => false,
        }
    }
}

/// A command that is being waited for.
#[derive(Debug)]
pub struct Waiting {
    steps: Vec<WaitStep>,
    /// How many steps were taken.
    taken: usize,
    /// What became of the command, once that is known.
    result: Option<Result<(), WaitError>>,
}

/// The value of a [`Waiting`].
#[verifier::ext_equal]
pub struct WaitView {
    /// The steps that are still to be taken.
    pub left: Seq<WaitStep>,
    pub result: Option<Result<(), error::WaitFault>>,
}

impl View for Waiting {
    type V = WaitView;

    closed spec fn view(&self) -> WaitView {
        WaitView {
            left: self.steps@.skip(self.taken as int),
            result: match self.result {
                Some(r) => Some(result_view(r)),
                None => None,
            },
        }
    }
}

impl WaitView {
    /// The wait after its next step. The words of a failure that ends it are the error.
    pub open spec fn after(self, outcome: OutcomeView) -> Result<WaitView, Seq<char>> {
        match outcome {
            OutcomeView::Failed(e) if failure_ends_wait(self.left[0]) => Err(e),
            OutcomeView::Exit(r) => Ok(
                WaitView { left: self.left.drop_first(), result: Some(r) },
            ),
            _ => Ok(WaitView { left: self.left.drop_first(), ..self }),
        }
    }

    /// The wait after steps that come out like this.
    pub open spec fn after_all(self, outcomes: Seq<OutcomeView>) -> Result<WaitView, Seq<char>>
        decreases outcomes.len(),
    {
        if outcomes.len() == 0 {
            Ok(self)
        } else {
            match self.after(outcomes[0]) {
                Ok(next) => next.after_all(outcomes.drop_first()),
                Err(e) => Err(e),
            }
        }
    }
}

/// Where the wait for a command with so many tasks starts from.
pub open spec fn wait_start(tty: bool, tasks: nat) -> WaitView {
    WaitView { left: wait_steps(tty, tasks), result: None }
}

impl Waiting {
    #[verifier::type_invariant]
    spec fn result_is_ahead_or_known(self) -> bool {
        &&& self.taken <= self.steps@.len()
        &&& self.result is None ==> exists|i: int|
            self.taken <= i < self.steps@.len() && #[trigger] self.steps@[i] == WaitStep::ExitCode
    }

    /// Starts to wait for a command with so many tasks.
    pub fn new(tty: bool, tasks: usize) -> (r: Waiting)
        ensures
            r@ == wait_start(tty, tasks as nat),
    {
        let steps = plan_wait(tty, tasks);
        proof {
            let at = if tty {
                1int
            } else {
                0int
            };
            assert(steps@[at] == WaitStep::ExitCode);
        }
        let r = Waiting { steps, taken: 0, result: None };
        assert(r@ =~= wait_start(tty, tasks as nat));
        r
    }

    /// What is to be done next. Nothing means that the wait is over.
    pub fn next(&self) -> (r: Option<WaitStep>)
        ensures
            match r {
                Some(step) => self@.left.len() > 0 && self@.left[0] == step,
                None => self@.left.len() == 0,
            },
    {
        proof {
            use_type_invariant(self);
        }
        if self.taken < self.steps.len() {
            Some(self.steps[self.taken])
        } else {
            None
        }
    }

    /// Goes on with what came of the next step, or ends with the words of its failure.
    pub fn step(self, outcome: StepOutcome) -> (r: Result<Waiting, String>)
        requires
            self@.left.len() > 0,
            can_come_of(self@.left[0], outcome@),
        ensures
            match r {
                Ok(next) => self@.after(outcome@) == Ok::<WaitView, Seq<char>>(next@),
                Err(e) => self@.after(outcome@) == Err::<WaitView, Seq<char>>(e@),
            },
    {
        proof {
            use_type_invariant(&self);
        }
        let Waiting { steps, taken, result } = self;
        let step = steps[taken];
        let ghost all = steps@;
        assert(taken < steps.len());
        assert(all.skip(taken as int)[0] == step);
        assert(all.skip(taken as int).drop_first() =~= all.skip(taken + 1));
        let result = match outcome {
            StepOutcome::Done => result,
            StepOutcome::Failed(e) => {
                if step.failure_ends_wait() {
                    return Err(e);
                }
                result
            },
            StepOutcome::Exit(r) => Some(r),
        };
        proof {
            if result is None {
                let i = choose|i: int|
                    taken <= i < all.len() && #[trigger] all[i] == WaitStep::ExitCode;
                assert(taken + 1 <= i && all[i] == WaitStep::ExitCode);
            }
        }
        Ok(Waiting { steps, taken: taken + 1, result })
    }

    /// What became of the command, once the wait is over.
    pub fn finish(self) -> (r: Result<(), WaitError>)
        requires
            self@.left.len() == 0,
        ensures
            self@.result == Some(result_view(r)),
    {
        proof {
            use_type_invariant(&self);
        }
        self.result.unwrap()
    }
}

/// What is asked of the connection, from `stage` on, until the command runs.
pub open spec fn stages_from(stage: Stage, ninep: bool, tty: bool, fuel: nat) -> Seq<Stage>
    decreases fuel,
{
    if fuel == 0 || stage == Stage::Running {
        Seq::empty()
    } else {
        seq![stage] + stages_from(next_stage(stage, ninep, tty), ninep, tty, (fuel - 1) as nat)
    }
}

/// A command is started by asking, in this order: for a session; to forward the file
/// system of the client, if it is needed; to start; for the output; for the error
/// output, unless it runs on a terminal; for the input.
pub proof fn order_of_the_start(ninep: bool, tty: bool)
    ensures
        stages_from(Stage::Dial, ninep, tty, 6) == seq![Stage::Dial] + (if ninep {
            seq![Stage::Forward]
        } else {
            Seq::empty()
        }) + seq![Stage::Start, Stage::Stdout] + (if tty {
            Seq::empty()
        } else {
            seq![Stage::Stderr]
        }) + seq![Stage::Stdin],
{
    reveal_with_fuel(stages_from, 7);
    let all = stages_from(Stage::Dial, ninep, tty, 6);
    if ninep && tty {
        assert(all =~= seq![Stage::Dial, Stage::Forward, Stage::Start, Stage::Stdout, Stage::Stdin]);
    } else if ninep {
        assert(all =~= seq![
            Stage::Dial,
            Stage::Forward,
            Stage::Start,
            Stage::Stdout,
            Stage::Stderr,
            Stage::Stdin,
        ]);
    } else if tty {
        assert(all =~= seq![Stage::Dial, Stage::Start, Stage::Stdout, Stage::Stdin]);
    } else {
        assert(all =~= seq![
            Stage::Dial,
            Stage::Start,
            Stage::Stdout,
            Stage::Stderr,
            Stage::Stdin,
        ]);
    }
    assert(all =~= seq![Stage::Dial] + (if ninep {
        seq![Stage::Forward]
    } else {
        Seq::empty()
    }) + seq![Stage::Start, Stage::Stdout] + (if tty {
        Seq::empty()
    } else {
        seq![Stage::Stderr]
    }) + seq![Stage::Stdin]);
}

/// Once the exit code is known the input is stopped, and then every task is waited for,
/// once; a terminal is set to raw mode first and gets its settings back last. The exit
/// code is asked for once.
pub proof fn wait_cleans_up(tty: bool, tasks: nat, task: usize)
    requires
        task < tasks,
        tasks <= usize::MAX,
    ensures
        exists|i: int, j: int|
            {
                &&& 0 <= i
                &&& i + 1 < j < wait_steps(tty, tasks).len()
                &&& #[trigger] wait_steps(tty, tasks)[i] == WaitStep::ExitCode
                &&& wait_steps(tty, tasks)[i + 1] == WaitStep::StopInput
                &&& #[trigger] wait_steps(tty, tasks)[j] == WaitStep::Join(task)
                &&& forall|k: int|
                    0 <= k < wait_steps(tty, tasks).len() && #[trigger] wait_steps(tty, tasks)[k]
                        == WaitStep::ExitCode ==> k == i
                &&& forall|k: int|
                    0 <= k < wait_steps(tty, tasks).len() && #[trigger] wait_steps(tty, tasks)[k]
                        == WaitStep::Join(task) ==> k == j
            },
        tty ==> wait_steps(tty, tasks)[0] == WaitStep::RawTerminal && wait_steps(tty, tasks).last()
            == WaitStep::RestoreTerminal,
        !tty ==> !wait_steps(tty, tasks).contains(WaitStep::RawTerminal),
{
    let steps = wait_steps(tty, tasks);
    let at = if tty {
        1int
    } else {
        0int
    };
    let joined = at + 2 + task;
    assert(steps[at] == WaitStep::ExitCode);
    assert(steps[at + 1] == WaitStep::StopInput);
    assert(steps[joined] == WaitStep::Join(task));
    assert forall|k: int|
        0 <= k < steps.len() && #[trigger] steps[k] == WaitStep::ExitCode implies k == at by {
        if at + 2 <= k < at + 2 + tasks {
            assert(steps[k] == join_steps(tasks)[k - at - 2]);
        }
    }
    assert forall|k: int|
        0 <= k < steps.len() && #[trigger] steps[k] == WaitStep::Join(task) implies k == joined by {
        assert(at + 2 <= k < at + 2 + tasks);
        assert(steps[k] == join_steps(tasks)[k - at - 2]);
    }
    if !tty && steps.contains(WaitStep::RawTerminal) {
        let k = choose|k: int| 0 <= k < steps.len() && steps[k] == WaitStep::RawTerminal;
        if k >= 2 {
            assert(steps[k] == join_steps(tasks)[k - 2]);
        }
    }
}

/// The steps that can come out in these ways.
pub open spec fn can_come_of_all(steps: Seq<WaitStep>, outcomes: Seq<OutcomeView>) -> bool {
    &&& outcomes.len() == steps.len()
    &&& forall|i: int| 0 <= i < steps.len() ==> can_come_of(steps[i], #[trigger] outcomes[i])
}

proof fn lemma_result_stays(w: WaitView, outcomes: Seq<OutcomeView>)
    requires
        can_come_of_all(w.left, outcomes),
        forall|i: int|
            0 <= i < w.left.len() ==> #[trigger] w.left[i] != WaitStep::ExitCode && w.left[i]
                != WaitStep::RawTerminal,
    ensures
        w.after_all(outcomes) == Ok::<WaitView, Seq<char>>(
            WaitView { left: Seq::empty(), ..w },
        ),
    decreases outcomes.len(),
{
    if outcomes.len() == 0 {
        assert(w.left =~= Seq::<WaitStep>::empty());
    } else {
        let next = WaitView { left: w.left.drop_first(), ..w };
        let rest = outcomes.drop_first();
        assert(can_come_of(w.left[0], outcomes[0]));
        assert(w.after(outcomes[0]) == Ok::<WaitView, Seq<char>>(next));
        assert forall|i: int| 0 <= i < next.left.len() implies can_come_of(
            next.left[i],
            #[trigger] rest[i],
        ) by {
            assert(next.left[i] == w.left[i + 1]);
            assert(rest[i] == outcomes[i + 1]);
        }
        assert forall|i: int| 0 <= i < next.left.len() implies #[trigger] next.left[i]
            != WaitStep::ExitCode && next.left[i] != WaitStep::RawTerminal by {
            assert(next.left[i] == w.left[i + 1]);
        }
        lemma_result_stays(next, rest);
    }
}

/// What the wait gives is what became of the command, whatever comes of stopping the
/// input, of the tasks and of giving the terminal its settings back. Only where the
/// terminal cannot be set to raw mode the wait ends before, with the words of that.
pub proof fn wait_gives_what_became_of_the_command(
    tty: bool,
    tasks: nat,
    outcomes: Seq<OutcomeView>,
)
    requires
        can_come_of_all(wait_steps(tty, tasks), outcomes),
    ensures
        tty && outcomes[0] is Failed ==> wait_start(tty, tasks).after_all(outcomes) == Err::<
            WaitView,
            Seq<char>,
        >(outcomes[0]->Failed_0),
        !(tty && outcomes[0] is Failed) ==> {
            let at = if tty {
                1int
            } else {
                0int
            };
            outcomes[at] matches OutcomeView::Exit(r) && wait_start(tty, tasks).after_all(outcomes)
                == Ok::<WaitView, Seq<char>>(WaitView { left: Seq::empty(), result: Some(r) })
        },
{
    let start = wait_start(tty, tasks);
    let steps = wait_steps(tty, tasks);
    let at = if tty {
        1int
    } else {
        0int
    };
    assert(steps[0] == if tty {
        WaitStep::RawTerminal
    } else {
        WaitStep::ExitCode
    });
    assert(steps[at] == WaitStep::ExitCode);
    assert(can_come_of(steps[0], outcomes[0]));
    assert(can_come_of(steps[at], outcomes[at]));
    if !(tty && outcomes[0] is Failed) {
        let known = WaitView {
            left: steps.skip(at + 1),
            result: Some(outcomes[at]->Exit_0),
        };
        let rest = outcomes.skip(at + 1);
        assert forall|i: int| 0 <= i < known.left.len() implies can_come_of(
            known.left[i],
            #[trigger] rest[i],
        ) by {
            assert(known.left[i] == steps[i + at + 1]);
            assert(rest[i] == outcomes[i + at + 1]);
        }
        assert forall|i: int| 0 <= i < known.left.len() implies #[trigger] known.left[i]
            != WaitStep::ExitCode && known.left[i] != WaitStep::RawTerminal by {
            let k = i + at + 1;
            assert(known.left[i] == steps[k]);
            if at + 2 <= k < at + 2 + tasks {
                assert(steps[k] == join_steps(tasks)[k - at - 2]);
            }
        }
        lemma_result_stays(known, rest);
        if tty {
            let mid = WaitView { left: steps.drop_first(), result: None };
            assert(start.after(outcomes[0]) == Ok::<WaitView, Seq<char>>(mid));
            assert(mid.left[0] == steps[1]);
            assert(outcomes.drop_first()[0] == outcomes[1]);
            assert(mid.left.drop_first() =~= steps.skip(2));
            assert(mid.after(outcomes[1]) == Ok::<WaitView, Seq<char>>(known));
            assert(outcomes.drop_first().drop_first() =~= rest);
            assert(mid.after_all(outcomes.drop_first()) == known.after_all(rest));
        } else {
            assert(steps.drop_first() =~= steps.skip(1));
            assert(outcomes.drop_first() =~= rest);
            assert(start.after(outcomes[0]) == Ok::<WaitView, Seq<char>>(known));
        }
    }
}

/// A command ends well exactly where its exit code is known and zero. Any other code is
/// the error, and an error of the connection is passed on with its words.
pub proof fn command_ends_well_with_zero(reply: Result<i32, Seq<char>>)
    ensures
        reply_result(reply) is Ok <==> reply == Ok::<i32, Seq<char>>(0),
        reply matches Ok(code) ==> code != 0 ==> reply_result(reply) == Err::<
            (),
            error::WaitFault,
        >(error::WaitFault::Client(error::ClientFault::NonZeroExitCode(code))),
        reply matches Err(e) ==> reply_result(reply) == Err::<(), error::WaitFault>(
            error::WaitFault::Connection(e),
        ) && error::WaitFault::Connection(e).text() == e,
{
}

/// Each answer on the way to run is kept and nothing else changes: the session that was
/// opened, and each task after those before it. The command is the one that was taken.
pub proof fn answers_are_kept<H>(s: StartingView<H>, reply: Reply<H>, command: cmd::CommandView)
    ensures
        ({
            let after = s.after(reply);
            &&& after.tty == s.tty && after.ninep == s.ninep && after.command == s.command
            &&& match reply {
                Reply::Session(sid) => after.sid == sid && after.handles == s.handles,
                Reply::Done => after.sid == s.sid && after.handles == s.handles,
                Reply::Task(h) => after.sid == s.sid && after.handles.len() == s.handles.len() + 1
                    && after.handles.drop_last() == s.handles && after.handles.last() == h,
            }
            &&& after.stage == next_stage(s.stage, s.ninep, s.tty)
        }),
        ({
            let start = start_of::<H>(command);
            &&& start.stage == Stage::Dial && start.handles.len() == 0
            &&& start.tty == command.tty && start.ninep == command.ninep
            &&& start.command == Some(command)
        }),
        forall|ninep: bool, tty: bool| #[trigger]
            next_stage(Stage::Running, ninep, tty) == Stage::Running,
{
    if let Reply::Task(h) = reply {
        assert(s.after(reply).handles.drop_last() =~= s.handles);
    }
}

/// The wait takes one step for the exit code, the next to stop the input, and then one for
/// each task, in their order; on a terminal one more before them and one after; and none
/// else.
pub proof fn wait_goes_step_by_step(tty: bool, tasks: nat)
    requires
        tasks <= usize::MAX,
    ensures
        ({
            let steps = wait_steps(tty, tasks);
            let at = if tty {
                1int
            } else {
                0int
            };
            &&& steps.len() == 2 + tasks + 2 * at
            &&& steps[at] == WaitStep::ExitCode
            &&& steps[at + 1] == WaitStep::StopInput
            &&& forall|i: int|
                0 <= i < tasks ==> (#[trigger] steps[at + 2 + i] matches WaitStep::Join(n) && n
                    == i)
            &&& tty ==> steps[0] == WaitStep::RawTerminal && steps.last()
                == WaitStep::RestoreTerminal
        }),
        forall|step: WaitStep| #[trigger]
            failure_ends_wait(step) <==> step == WaitStep::RawTerminal,
{
    let steps = wait_steps(tty, tasks);
    let at = if tty {
        1int
    } else {
        0int
    };
    assert forall|i: int| 0 <= i < tasks implies (#[trigger] steps[at + 2 + i] matches WaitStep::Join(
        n,
    ) && n == i) by {
        assert(steps[at + 2 + i] == join_steps(tasks)[i]);
    }
}

/// The client reports the exit code that it was told: nothing for zero, and else the code
/// itself, with its sign, in words from which it reads back.
pub proof fn exit_code_is_reported(code: i32)
    ensures
        code == 0 ==> reply_result(Ok(code)) == Ok::<(), error::WaitFault>(()),
        code != 0 ==> (reply_result(Ok(code)) matches Err(error::WaitFault::Client(
            error::ClientFault::NonZeroExitCode(reported),
        )) && reported == code),
        code != 0 ==> (reply_result(Ok(code)) matches Err(e) && e.text().skip(19)
            == text::signed_decimal(code as int) && number::number(
            e.text().skip(19),
            i32::MIN as int,
            i32::MAX as int,
        ) == Ok::<int, number::NumberError>(code as int)),
{
    reveal_strlit("Command exits with ");
    number::printed_number_reads_back(code as int, i32::MIN as int, i32::MAX as int);
    let e = error::WaitFault::Client(error::ClientFault::NonZeroExitCode(code));
    assert(e.text().skip(19) =~= text::signed_decimal(code as int));
}

/// What the connection gave, and what became of the command, have the value that they hold.
pub proof fn results_are_what_they_hold(reply: Result<i32, String>, r: Result<(), WaitError>)
    ensures
        reply matches Ok(code) ==> reply_view(reply) == Ok::<i32, Seq<char>>(code),
        reply matches Err(e) ==> reply_view(reply) == Err::<i32, Seq<char>>(e@),
        r is Ok <==> result_view(r) is Ok,
        r matches Err(e) ==> result_view(r) == Err::<(), error::WaitFault>(e@),
{
}

} // verus!
