//! A client over a secure shell.

use std::collections::HashMap;
use vstd::prelude::*;
use vstd::string::*;

use crate::client::error;
use crate::client::error::P9cpuClientError;
use crate::cmd;
use crate::cmd::CommandReq;
use crate::ssh::channel;
use crate::ssh::channel::ChannelMsg;

verus! {

broadcast use vstd::std_specs::hash::group_hash_axioms;

/// What can go wrong over a secure shell. Where it came from elsewhere, its text is kept.
#[derive(Debug, PartialEq, Eq)]
pub enum SshError {
    /// The server could not wait for the command.
    WaitError(String),
    /// The connection failed.
    Russh(String),
    /// A task could not be waited for.
    JoinError(String),
    /// The other end of a channel is gone.
    ChannelClosed,
    /// The task of the session ended without an exit code.
    SenderGone,
}

/// The value of an [`SshError`].
pub enum SshFault {
    WaitError(Seq<char>),
    Russh(Seq<char>),
    JoinError(Seq<char>),
    ChannelClosed,
    SenderGone,
}

impl View for SshError {
    type V = SshFault;

    open spec fn view(&self) -> SshFault {
        match self {
            SshError::WaitError(e) => SshFault::WaitError(e@),
            SshError::Russh(e) => SshFault::Russh(e@),
            SshError::JoinError(e) => SshFault::JoinError(e@),
            SshError::ChannelClosed => SshFault::ChannelClosed,
            SshError::SenderGone => SshFault::SenderGone,
        }
    }
}

impl SshFault {
    /// What went wrong, in words.
    pub open spec fn text(self) -> Seq<char> {
        match self {
            SshFault::WaitError(e) => "Wait cmd error: "@ + e,
            SshFault::Russh(e) => "russh lib error: "@ + e,
            SshFault::JoinError(e) => "Task join error: "@ + e,
            SshFault::ChannelClosed => "Channel closed"@,
            SshFault::SenderGone => "Sender is gone"@,
        }
    }
}

impl SshError {
    /// Says what went wrong.
    pub fn message(&self) -> (r: String)
        ensures
            r@ == self@.text(),
    {
        match self {
            SshError::WaitError(e) => {
                let mut out = "Wait cmd error: ".to_owned();
                out.append(e.as_str());
                out
            },
            SshError::Russh(e) => {
                let mut out = "russh lib error: ".to_owned();
                out.append(e.as_str());
                out
            },
            SshError::JoinError(e) => {
                let mut out = "Task join error: ".to_owned();
                out.append(e.as_str());
                out
            },
            SshError::ChannelClosed => "Channel closed".to_owned(),
            SshError::SenderGone => "Sender is gone".to_owned(),
        }
    }
}

// A `String` has no spec constructor: what `from` gives is stated, over the views, in
// its own `ensures`.
impl vstd::std_specs::convert::FromSpecImpl<SshError> for P9cpuClientError {
    open spec fn obeys_from_spec() -> bool {
        false
    }

    open spec fn from_spec(e: SshError) -> P9cpuClientError {
        arbitrary()
    }
}

impl From<SshError> for P9cpuClientError {
    /// The connection failed, for this reason.
    fn from(e: SshError) -> (r: P9cpuClientError)
        ensures
            r@ == error::ClientFault::Inner(e@.text()),
    {
        P9cpuClientError::Inner(e.message())
    }
}

/// The text that `String::from_utf8_lossy` gives for bytes that are not UTF-8.
pub uninterp spec fn lossy_text(bytes: Seq<u8>) -> Seq<char>;

/// The text for bytes that should be UTF-8.
pub open spec fn shown_text(bytes: Seq<u8>) -> Seq<char> {
    if vstd::utf8::valid_utf8(bytes) {
        vstd::utf8::decode_utf8(bytes)
    } else {
        lossy_text(bytes)
    }
}

/// Reads bytes with `String::from_utf8_lossy`: UTF-8 gives the text that it encodes, other
/// bytes a text that stands for them.
#[verifier::external_body]
fn read_lossy(bytes: &[u8]) -> (r: String)
    ensures
        r@ == (if vstd::utf8::valid_utf8(bytes@) {
            vstd::utf8::decode_utf8(bytes@)
        } else {
            lossy_text(bytes@)
        }),
{
    String::from_utf8_lossy(bytes).to_string()
}

/// What happens to the task that serves the channel of a session.
#[derive(Debug, PartialEq, Eq)]
pub enum ChannelEvent {
    /// A message came from the server.
    Message(ChannelMsg),
    /// Bytes for the input of the command came from the client.
    Input(Vec<u8>),
    /// A command came from the client, to be started.
    Command(CommandReq),
    /// Nothing more can come from either side.
    AllClosed,
    /// What the task passed on inside the client could not be taken.
    SendFailed,
    /// The connection failed.
    ConnectionFailed(String),
}

/// What that task does.
#[derive(Debug, PartialEq, Eq)]
pub enum ChannelAction {
    /// Pass on output of the command, and go on.
    Output(Vec<u8>),
    /// Pass on error output of the command, and go on.
    ErrorOutput(Vec<u8>),
    /// Send bytes to the server for the input of the command, and go on.
    SendInput(Vec<u8>),
    /// Ask the server to start the command, and go on.
    Exec(CommandReq),
    /// Go on.
    Ignore,
    /// Report how the command ended, and end.
    Report(Result<i32, SshError>),
    /// End.
    Stop,
}

/// The value of a [`ChannelEvent`].
pub enum EventView {
    Message(channel::MsgView),
    Input(Seq<u8>),
    Command(cmd::CommandView),
    AllClosed,
    SendFailed,
    ConnectionFailed(Seq<char>),
}

/// The value of a [`ChannelAction`].
pub enum ActionView {
    Output(Seq<u8>),
    ErrorOutput(Seq<u8>),
    SendInput(Seq<u8>),
    Exec(cmd::CommandView),
    Ignore,
    Report(Result<int, SshFault>),
    Stop,
}

impl View for ChannelEvent {
    type V = EventView;

    open spec fn view(&self) -> EventView {
        match self {
            ChannelEvent::Message(m) => EventView::Message(m@),
            ChannelEvent::Input(data) => EventView::Input(data@),
            ChannelEvent::Command(c) => EventView::Command(c@),
            ChannelEvent::AllClosed => EventView::AllClosed,
            ChannelEvent::SendFailed => EventView::SendFailed,
            ChannelEvent::ConnectionFailed(e) => EventView::ConnectionFailed(e@),
        }
    }
}

impl View for ChannelAction {
    type V = ActionView;

    open spec fn view(&self) -> ActionView {
        match self {
            ChannelAction::Output(data) => ActionView::Output(data@),
            ChannelAction::ErrorOutput(data) => ActionView::ErrorOutput(data@),
            ChannelAction::SendInput(data) => ActionView::SendInput(data@),
            ChannelAction::Exec(c) => ActionView::Exec(c@),
            ChannelAction::Ignore => ActionView::Ignore,
            ChannelAction::Report(Ok(code)) => ActionView::Report(Ok(*code as int)),
            ChannelAction::Report(Err(e)) => ActionView::Report(Err(e@)),
            ChannelAction::Stop => ActionView::Stop,
        }
    }
}

/// What the task does for a message of the server.
pub open spec fn message_action(msg: channel::MsgView) -> ActionView {
    match msg {
        channel::MsgView::Data(data) => ActionView::Output(data),
        channel::MsgView::ExtendedData(data, ext) => if ext == channel::EXT_STDERR {
            ActionView::ErrorOutput(data)
        } else if ext == channel::EXT_WAIT_ERROR {
            ActionView::Report(Err(SshFault::WaitError(shown_text(data))))
        } else {
            ActionView::Ignore
        },
        channel::MsgView::ExitStatus(status) => ActionView::Report(
            Ok(channel::code_of_status(status)),
        ),
        channel::MsgView::Other => ActionView::Ignore,
    }
}

/// What the task does next.
pub open spec fn channel_action(event: EventView) -> ActionView {
    match event {
        EventView::Message(m) => message_action(m),
        EventView::Input(data) => ActionView::SendInput(data),
        EventView::Command(c) => ActionView::Exec(c),
        EventView::AllClosed => ActionView::Stop,
        EventView::SendFailed => ActionView::Report(Err(SshFault::ChannelClosed)),
        EventView::ConnectionFailed(e) => ActionView::Report(Err(SshFault::Russh(e))),
    }
}

fn on_message(msg: ChannelMsg) -> (r: ChannelAction)
    ensures
        r@ == message_action(msg@),
        msg matches ChannelMsg::Data(data) ==> r == ChannelAction::Output(data),
        msg matches ChannelMsg::ExtendedData(data, ext) ==> ext == 1 ==> r
            == ChannelAction::ErrorOutput(data),
        msg matches ChannelMsg::ExitStatus(status) ==> (r matches ChannelAction::Report(Ok(code))
            && (code - status) % 0x1_0000_0000 == 0),
{
    match msg {
        ChannelMsg::Data(data) => ChannelAction::Output(data),
        ChannelMsg::ExtendedData(data, ext) => if ext == channel::EXT_STDERR {
            ChannelAction::ErrorOutput(data)
        } else if ext == channel::EXT_WAIT_ERROR {
            ChannelAction::Report(Err(SshError::WaitError(read_lossy(data.as_slice()))))
        } else {
            ChannelAction::Ignore
        },
        ChannelMsg::ExitStatus(status) => ChannelAction::Report(
            Ok(channel::code_from_status(status)),
        ),
        ChannelMsg::Other => ChannelAction::Ignore,
    }
}

/// What the task that serves the channel of a session does next.
pub fn loop_fn(event: ChannelEvent) -> (r: ChannelAction)
    ensures
        r@ == channel_action(event@),
        event matches ChannelEvent::Input(data) ==> r == ChannelAction::SendInput(data),
        event matches ChannelEvent::Command(c) ==> r == ChannelAction::Exec(c),
        event matches ChannelEvent::Message(ChannelMsg::Data(data)) ==> r == ChannelAction::Output(
            data,
        ),
        event matches ChannelEvent::Message(ChannelMsg::ExtendedData(data, ext)) ==> ext == 1 ==> r
            == ChannelAction::ErrorOutput(data),
        event matches ChannelEvent::Message(ChannelMsg::ExitStatus(status)) ==> (
        r matches ChannelAction::Report(Ok(code)) && (code - status) % 0x1_0000_0000 == 0),
{
    match event {
        ChannelEvent::Message(m) => on_message(m),
        ChannelEvent::Input(data) => ChannelAction::SendInput(data),
        ChannelEvent::Command(c) => ChannelAction::Exec(c),
        ChannelEvent::AllClosed => ChannelAction::Stop,
        ChannelEvent::SendFailed => ChannelAction::Report(Err(SshError::ChannelClosed)),
        ChannelEvent::ConnectionFailed(e) => ChannelAction::Report(Err(SshError::Russh(e))),
    }
}

/// What the task of a session talks to the rest of the client over. Each end is handed out
/// once.
#[derive(Debug)]
pub struct ChannelInfo<O, I, K, R> {
    pub stdout_rx: Option<O>,
    pub stderr_rx: Option<O>,
    pub stdin_tx: Option<I>,
    pub cmd_tx: Option<K>,
    pub code_rx: Option<R>,
}

impl<O, I, K, R> ChannelInfo<O, I, K, R> {
    /// The ends for a new session.
    pub fn new(stdout_rx: O, stderr_rx: O, stdin_tx: I, code_rx: R, cmd_tx: K) -> (r: ChannelInfo<
        O,
        I,
        K,
        R,
    >)
        ensures
            r == (ChannelInfo {
                stdout_rx: Some(stdout_rx),
                stderr_rx: Some(stderr_rx),
                stdin_tx: Some(stdin_tx),
                cmd_tx: Some(cmd_tx),
                code_rx: Some(code_rx),
            }),
    {
        ChannelInfo {
            stdout_rx: Some(stdout_rx),
            stderr_rx: Some(stderr_rx),
            stdin_tx: Some(stdin_tx),
            cmd_tx: Some(cmd_tx),
            code_rx: Some(code_rx),
        }
    }
}

/// A client over a connection, with its sessions.
#[derive(Debug)]
pub struct SshClient<Hd, O, I, K, R> {
    handle: Hd,
    channels: HashMap<u128, ChannelInfo<O, I, K, R>>,
}

/// The value of an [`SshClient`].
#[verifier::ext_equal]
pub struct ClientView<Hd, O, I, K, R> {
    /// The connection.
    pub handle: Hd,
    /// What was not handed out of the ends of each session.
    pub channels: Map<u128, ChannelInfo<O, I, K, R>>,
}

impl<Hd, O, I, K, R> View for SshClient<Hd, O, I, K, R> {
    type V = ClientView<Hd, O, I, K, R>;

    closed spec fn view(&self) -> ClientView<Hd, O, I, K, R> {
        ClientView { handle: self.handle, channels: self.channels@ }
    }
}

impl<Hd, O, I, K, R> ClientView<Hd, O, I, K, R> {
    /// The client where this is left of the ends of a session.
    pub open spec fn with_channel(
        self,
        sid: u128,
        info: ChannelInfo<O, I, K, R>,
    ) -> ClientView<Hd, O, I, K, R> {
        ClientView { channels: self.channels.insert(sid, info), ..self }
    }
}

impl<Hd, O, I, K, R> SshClient<Hd, O, I, K, R> {
    /// A client without sessions.
    pub fn new(handle: Hd) -> (r: SshClient<Hd, O, I, K, R>)
        ensures
            r@ == (ClientView::<Hd, O, I, K, R> { handle, channels: Map::empty() }),
    {
        SshClient { handle, channels: HashMap::new() }
    }

    /// The connection.
    pub fn handle(&self) -> (r: &Hd)
        ensures
            *r == self@.handle,
    {
        &self.handle
    }

    /// The ends of a session that were not handed out, if there is such a session.
    pub fn channel(&self, sid: u128) -> (r: Option<&ChannelInfo<O, I, K, R>>)
        ensures
            match r {
                Some(info) => self@.channels.contains_key(sid) && self@.channels[sid] == *info,
                None => !self@.channels.contains_key(sid),
            },
    {
        self.channels.get(&sid)
    }

    /// Enters a session that was opened.
    pub fn dial(&mut self, sid: u128, info: ChannelInfo<O, I, K, R>)
        ensures
            final(self)@ == old(self)@.with_channel(sid, info),
    {
        self.channels.insert(sid, info);
    }

    /// Hands out the end over which a session takes its command.
    pub fn start(&mut self, sid: u128) -> (r: K)
        requires
            old(self)@.channels.contains_key(sid),
            old(self)@.channels[sid].cmd_tx is Some,
        ensures
            old(self)@.channels[sid].cmd_tx == Some(r),
            final(self)@ == old(self)@.with_channel(
                sid,
                ChannelInfo { cmd_tx: None, ..old(self)@.channels[sid] },
            ),
    {
        let ghost was = self@;
        let mut info = self.channels.remove(&sid).unwrap();
        let r = info.cmd_tx.take().unwrap();
        self.channels.insert(sid, info);
        assert(self@ =~= was.with_channel(
            sid,
            ChannelInfo { cmd_tx: None, ..was.channels[sid] },
        ));
        r
    }

    /// Hands out the end from which the output of a session comes.
    pub fn stdout(&mut self, sid: u128) -> (r: O)
        requires
            old(self)@.channels.contains_key(sid),
            old(self)@.channels[sid].stdout_rx is Some,
        ensures
            old(self)@.channels[sid].stdout_rx == Some(r),
            final(self)@ == old(self)@.with_channel(
                sid,
                ChannelInfo { stdout_rx: None, ..old(self)@.channels[sid] },
            ),
    {
        let ghost was = self@;
        let mut info = self.channels.remove(&sid).unwrap();
        let r = info.stdout_rx.take().unwrap();
        self.channels.insert(sid, info);
        assert(self@ =~= was.with_channel(
            sid,
            ChannelInfo { stdout_rx: None, ..was.channels[sid] },
        ));
        r
    }

    /// Hands out the end from which the error output of a session comes.
    pub fn stderr(&mut self, sid: u128) -> (r: O)
        requires
            old(self)@.channels.contains_key(sid),
            old(self)@.channels[sid].stderr_rx is Some,
        ensures
            old(self)@.channels[sid].stderr_rx == Some(r),
            final(self)@ == old(self)@.with_channel(
                sid,
                ChannelInfo { stderr_rx: None, ..old(self)@.channels[sid] },
            ),
    {
        let ghost was = self@;
        let mut info = self.channels.remove(&sid).unwrap();
        let r = info.stderr_rx.take().unwrap();
        self.channels.insert(sid, info);
        assert(self@ =~= was.with_channel(
            sid,
            ChannelInfo { stderr_rx: None, ..was.channels[sid] },
        ));
        r
    }

    /// Hands out the end over which a session takes its input.
    pub fn stdin(&mut self, sid: u128) -> (r: I)
        requires
            old(self)@.channels.contains_key(sid),
            old(self)@.channels[sid].stdin_tx is Some,
        ensures
            old(self)@.channels[sid].stdin_tx == Some(r),
            final(self)@ == old(self)@.with_channel(
                sid,
                ChannelInfo { stdin_tx: None, ..old(self)@.channels[sid] },
            ),
    {
        let ghost was = self@;
        let mut info = self.channels.remove(&sid).unwrap();
        let r = info.stdin_tx.take().unwrap();
        self.channels.insert(sid, info);
        assert(self@ =~= was.with_channel(
            sid,
            ChannelInfo { stdin_tx: None, ..was.channels[sid] },
        ));
        r
    }

    /// Hands out the end from which the exit code of a session comes.
    pub fn wait(&mut self, sid: u128) -> (r: R)
        requires
            old(self)@.channels.contains_key(sid),
            old(self)@.channels[sid].code_rx is Some,
        ensures
            old(self)@.channels[sid].code_rx == Some(r),
            final(self)@ == old(self)@.with_channel(
                sid,
                ChannelInfo { code_rx: None, ..old(self)@.channels[sid] },
            ),
    {
        let ghost was = self@;
        let mut info = self.channels.remove(&sid).unwrap();
        let r = info.code_rx.take().unwrap();
        self.channels.insert(sid, info);
        assert(self@ =~= was.with_channel(
            sid,
            ChannelInfo { code_rx: None, ..was.channels[sid] },
        ));
        r
    }
}

/// How the command of a session ended, from what its task reported, if it did.
pub fn wait_result(reported: Option<Result<i32, SshError>>) -> (r: Result<i32, SshError>)
    ensures
        match reported {
            Some(report) => r == report,
            None => r == Err::<i32, SshError>(SshError::SenderGone),
        },
{
    match reported {
        Some(report) => report,
        None => Err(SshError::SenderGone),
    }
}

/// Looks at the servers that a client connects to.
#[derive(Debug, Clone, Copy, PartialEq, Eq, Structural)]
pub struct Handler {}

impl Handler {
    /// The handler of every connection.
    pub fn new() -> (r: Handler)
        ensures
            r == (Handler {  }),
    {
        Handler {  }
    }

    /// Whether the server with the key is talked to: each is.
    pub fn check_server_key(&self) -> (r: bool)
        ensures
            r,
    {
        true
    }
}

/// Messages of the server reach where they belong: output, error output, which is marked by
/// one, and the exit status, with the same 32 bits. A text that is marked by two is the
/// error of the wait. Anything else is passed over.
pub proof fn messages_reach_where_they_belong(data: Seq<u8>, ext: u32, status: u32)
    ensures
        message_action(channel::MsgView::Data(data)) == ActionView::Output(data),
        ext == 1 ==> message_action(channel::MsgView::ExtendedData(data, ext))
            == ActionView::ErrorOutput(data),
        ext == 2 && vstd::utf8::valid_utf8(data) ==> message_action(
            channel::MsgView::ExtendedData(data, ext),
        ) == ActionView::Report(Err(SshFault::WaitError(vstd::utf8::decode_utf8(data)))),
        ext == 2 ==> (message_action(
            channel::MsgView::ExtendedData(data, ext),
        ) matches ActionView::Report(Err(SshFault::WaitError(_)))),
        ext != 1 && ext != 2 ==> message_action(channel::MsgView::ExtendedData(data, ext))
            == ActionView::Ignore,
        message_action(channel::MsgView::ExitStatus(status)) matches ActionView::Report(Ok(code))
            && (code - status) % 0x1_0000_0000 == 0 && i32::MIN <= code <= i32::MAX,
        message_action(channel::MsgView::Other) == ActionView::Ignore,
{
}

/// What comes from the client goes to the server as it is: input and commands. The task
/// ends without a report where nothing can come any more, and with the error where it could
/// not pass something on or the connection failed. A message of the server is acted on for
/// what it is.
pub proof fn events_are_acted_on(
    data: Seq<u8>,
    command: cmd::CommandView,
    e: Seq<char>,
    msg: channel::MsgView,
)
    ensures
        channel_action(EventView::Input(data)) == ActionView::SendInput(data),
        channel_action(EventView::Command(command)) == ActionView::Exec(command),
        channel_action(EventView::AllClosed) == ActionView::Stop,
        channel_action(EventView::SendFailed) == ActionView::Report(Err(SshFault::ChannelClosed)),
        channel_action(EventView::ConnectionFailed(e)) == ActionView::Report(
            Err(SshFault::Russh(e)),
        ),
        channel_action(EventView::Message(msg)) == message_action(msg),
{
}

/// UTF-8 is shown as the text that it encodes.
pub proof fn utf8_is_shown_as_its_text(s: Seq<char>)
    ensures
        shown_text(vstd::utf8::encode_utf8(s)) == s,
{
    vstd::utf8::encode_utf8_valid_utf8(s);
    vstd::utf8::encode_utf8_decode_utf8(s);
}

/// An error is told with the words of its cause, whole and at the end.
pub proof fn shell_errors_tell_their_cause(e: Seq<char>)
    ensures
        SshFault::WaitError(e).text() == "Wait cmd error: "@ + e,
        SshFault::Russh(e).text() == "russh lib error: "@ + e,
        SshFault::JoinError(e).text() == "Task join error: "@ + e,
        SshFault::ChannelClosed.text() == "Channel closed"@,
        SshFault::SenderGone.text() == "Sender is gone"@,
{
}

/// Entering what is left of a session changes nothing of another session, nor the
/// connection.
pub proof fn sessions_keep_their_ends<Hd, O, I, K, R>(
    c: ClientView<Hd, O, I, K, R>,
    sid: u128,
    info: ChannelInfo<O, I, K, R>,
    other: u128,
)
    ensures
        c.with_channel(sid, info).handle == c.handle,
        c.with_channel(sid, info).channels.contains_key(sid),
        c.with_channel(sid, info).channels[sid] == info,
        other != sid ==> (c.with_channel(sid, info).channels.contains_key(other)
            <==> c.channels.contains_key(other)),
        other != sid && c.channels.contains_key(other) ==> c.with_channel(
            sid,
            info,
        ).channels[other] == c.channels[other],
{
}

} // verus!
