//! The tasks of a client that copy the input and output of its command.

use vstd::prelude::*;

use crate::chunk;
use crate::client::error;
use crate::client::error::P9cpuClientError;

verus! {

/// What happens to the task that copies the input of the client.
#[derive(Debug, PartialEq, Eq)]
pub enum InputEvent {
    /// The first so many bytes of the buffer were read.
    Read(Vec<u8>, usize),
    /// Reading failed.
    ReadFailed(String),
    /// The bytes could not be sent.
    SendFailed,
    /// The task was told to stop.
    Stopped,
    /// The input was closed, and the server has taken all of it, or failed.
    Taken(Result<(), String>),
}

/// What that task does.
#[derive(Debug, PartialEq, Eq)]
pub enum InputAction {
    /// Send the bytes, and read on.
    Send(Vec<u8>),
    /// Close the input of the command, and wait until the server has taken all of it.
    Finish,
    /// End.
    Done,
    /// Give up.
    Fail(P9cpuClientError),
}

/// The value of an [`InputEvent`].
pub enum InputEventView {
    Read(Seq<u8>, nat),
    ReadFailed(Seq<char>),
    SendFailed,
    Stopped,
    Taken(Result<(), Seq<char>>),
}

/// The value of an [`InputAction`].
pub enum InputActionView {
    Send(Seq<u8>),
    Finish,
    Done,
    Fail(error::ClientFault),
}

impl View for InputEvent {
    type V = InputEventView;

    open spec fn view(&self) -> InputEventView {
        match self {
            InputEvent::Read(buf, len) => InputEventView::Read(buf@, *len as nat),
            InputEvent::ReadFailed(e) => InputEventView::ReadFailed(e@),
            InputEvent::SendFailed => InputEventView::SendFailed,
            InputEvent::Stopped => InputEventView::Stopped,
            InputEvent::Taken(Ok(_)) => InputEventView::Taken(Ok(())),
            InputEvent::Taken(Err(e)) => InputEventView::Taken(Err(e@)),
        }
    }
}

impl View for InputAction {
    type V = InputActionView;

    open spec fn view(&self) -> InputActionView {
        match self {
            InputAction::Send(bytes) => InputActionView::Send(bytes@),
            InputAction::Finish => InputActionView::Finish,
            InputAction::Done => InputActionView::Done,
            InputAction::Fail(e) => InputActionView::Fail(e@),
        }
    }
}

/// What the task that copies the input of the client does next.
pub open spec fn input_action(event: InputEventView) -> InputActionView {
    match event {
        InputEventView::Read(buf, len) => match chunk::chunk_of(buf, len) {
            Some(piece) => InputActionView::Send(piece),
            None => InputActionView::Finish,
        },
        InputEventView::ReadFailed(e) => InputActionView::Fail(error::ClientFault::IoErr(e)),
        InputEventView::SendFailed => InputActionView::Fail(error::ClientFault::ChannelClosed),
        InputEventView::Stopped => InputActionView::Finish,
        InputEventView::Taken(Ok(_)) => InputActionView::Done,
        InputEventView::Taken(Err(e)) => InputActionView::Fail(error::ClientFault::Inner(e)),
    }
}

/// What the task that copies the input of the client does next.
pub fn input_step(event: InputEvent) -> (r: InputAction)
    ensures
        r@ == input_action(event@),
        match event {
            InputEvent::Read(buf, len) => if len == 0 {
                r is Finish
            } else {
                r matches InputAction::Send(piece) && piece@ == (if len <= buf@.len() {
                    buf@.take(len as int)
                } else {
                    buf@
                })
            },
            InputEvent::ReadFailed(e) => r == InputAction::Fail(P9cpuClientError::IoErr(e)),
            InputEvent::SendFailed => r == InputAction::Fail(P9cpuClientError::ChannelClosed),
            InputEvent::Stopped => r is Finish,
            InputEvent::Taken(Ok(_)) => r is Done,
            InputEvent::Taken(Err(e)) => r == InputAction::Fail(P9cpuClientError::Inner(e)),
        },
{
    match event {
        InputEvent::Read(buf, len) => match chunk::chunk(buf, len) {
            Some(piece) => InputAction::Send(piece),
            None => InputAction::Finish,
        },
        InputEvent::ReadFailed(e) => InputAction::Fail(P9cpuClientError::IoErr(e)),
        InputEvent::SendFailed => InputAction::Fail(P9cpuClientError::ChannelClosed),
        InputEvent::Stopped => InputAction::Finish,
        InputEvent::Taken(Ok(_)) => InputAction::Done,
        InputEvent::Taken(Err(e)) => InputAction::Fail(P9cpuClientError::Inner(e)),
    }
}

/// One turn of that task.
pub enum InputTurn {
    /// It read.
    Read(chunk::ReadTurn),
    /// It was told to stop.
    Stopped,
}

/// How the task ends with an action that sends nothing, where closing the input of the
/// command gives `taken`.
pub open spec fn input_end(action: InputActionView, taken: Result<(), Seq<char>>) -> Result<
    (),
    error::ClientFault,
> {
    let last = match action {
        InputActionView::Finish => input_action(InputEventView::Taken(taken)),
        other => other,
    };
    match last {
        InputActionView::Fail(f) => Err(f),
        _ => Ok(()),
    }
}

/// What comes of copying the input over these turns, where closing the input of the
/// command gives `taken`.
pub open spec fn input_copied(
    turns: Seq<InputTurn>,
    taken: Result<(), Seq<char>>,
) -> chunk::Moved<error::ClientFault>
    decreases turns.len(),
{
    if turns.len() == 0 {
        chunk::not_begun()
    } else {
        match turns[0] {
            InputTurn::Read(chunk::ReadTurn::Read(buf, len, sent)) => match input_action(
                InputEventView::Read(buf, len),
            ) {
                InputActionView::Send(piece) => if sent {
                    input_copied(turns.drop_first(), taken).after(piece)
                } else {
                    chunk::ended_at_once(
                        input_end(input_action(InputEventView::SendFailed), taken),
                    )
                },
                other => chunk::ended_at_once(input_end(other, taken)),
            },
            InputTurn::Read(chunk::ReadTurn::Failed(e)) => chunk::ended_at_once(
                input_end(input_action(InputEventView::ReadFailed(e)), taken),
            ),
            InputTurn::Stopped => chunk::ended_at_once(
                input_end(input_action(InputEventView::Stopped), taken),
            ),
        }
    }
}

/// Whether bytes were read in the turn, and sent on.
pub open spec fn input_moves(turn: InputTurn) -> bool {
    turn matches InputTurn::Read(read) && chunk::moves(read)
}

/// The bytes that were read in all turns, one after the other.
pub open spec fn input_read(turns: Seq<InputTurn>) -> Seq<u8>
    decreases turns.len(),
{
    if turns.len() == 0 {
        Seq::empty()
    } else {
        (match turns[0] {
            InputTurn::Read(read) => chunk::read_bytes(read),
            InputTurn::Stopped => Seq::empty(),
        }) + input_read(turns.drop_first())
    }
}

/// How the first turn that moves nothing ends the copying of the input: well exactly
/// where the input is at its end or was stopped, and the server has taken all of it.
pub open spec fn input_stop(turn: InputTurn, taken: Result<(), Seq<char>>) -> Result<
    (),
    error::ClientFault,
> {
    let closed = match taken {
        Ok(_) => Ok(()),
        Err(e) => Err(error::ClientFault::Inner(e)),
    };
    match turn {
        InputTurn::Stopped => closed,
        InputTurn::Read(chunk::ReadTurn::Read(_, len, _)) => if len == 0 {
            closed
        } else {
            Err(error::ClientFault::ChannelClosed)
        },
        InputTurn::Read(chunk::ReadTurn::Failed(e)) => Err(error::ClientFault::IoErr(e)),
    }
}

/// The command gets the bytes that were read, in their order, until a turn moves nothing.
/// That turn ends the task, well or with its error.
pub proof fn input_is_copied_whole(
    turns: Seq<InputTurn>,
    taken: Result<(), Seq<char>>,
    k: int,
)
    requires
        0 <= k <= turns.len(),
        forall|i: int| 0 <= i < k ==> input_moves(#[trigger] turns[i]),
        k < turns.len() ==> !input_moves(turns[k]),
    ensures
        input_copied(turns, taken) == (if k < turns.len() {
            chunk::Moved {
                bytes: input_read(turns.take(k)),
                turns: (k + 1) as nat,
                result: Some(input_stop(turns[k], taken)),
            }
        } else {
            chunk::Moved { bytes: input_read(turns), turns: turns.len(), result: None }
        }),
    decreases k,
{
    if k > 0 {
        let rest = turns.drop_first();
        assert(input_moves(turns[0]));
        assert forall|i: int| 0 <= i < k - 1 implies input_moves(#[trigger] rest[i]) by {
            assert(rest[i] == turns[i + 1]);
        }
        if k < turns.len() {
            assert(rest[k - 1] == turns[k]);
        }
        input_is_copied_whole(rest, taken, k - 1);
        assert(turns.take(k).drop_first() =~= rest.take(k - 1));
    } else {
        assert(turns.take(0) =~= Seq::<InputTurn>::empty());
    }
}

/// What happens to a task that copies output of the command.
#[derive(Debug, PartialEq, Eq)]
pub enum OutputEvent {
    /// The stream gave bytes, or ended.
    Item(Option<Vec<u8>>),
    /// Writing or flushing failed.
    WriteFailed(String),
}

/// What that task does.
#[derive(Debug, PartialEq, Eq)]
pub enum OutputAction {
    /// Write all the bytes, then flush where that is asked for.
    Write(Vec<u8>, bool),
    /// End.
    Finish,
    /// Give up.
    Fail(P9cpuClientError),
}

/// The value of an [`OutputEvent`].
pub enum OutputEventView {
    Item(Option<Seq<u8>>),
    WriteFailed(Seq<char>),
}

/// The value of an [`OutputAction`].
pub enum OutputActionView {
    Write(Seq<u8>, bool),
    Finish,
    Fail(error::ClientFault),
}

impl View for OutputEvent {
    type V = OutputEventView;

    open spec fn view(&self) -> OutputEventView {
        match self {
            OutputEvent::Item(Some(bytes)) => OutputEventView::Item(Some(bytes@)),
            OutputEvent::Item(None) => OutputEventView::Item(None),
            OutputEvent::WriteFailed(e) => OutputEventView::WriteFailed(e@),
        }
    }
}

impl View for OutputAction {
    type V = OutputActionView;

    open spec fn view(&self) -> OutputActionView {
        match self {
            OutputAction::Write(bytes, flush) => OutputActionView::Write(bytes@, *flush),
            OutputAction::Finish => OutputActionView::Finish,
            OutputAction::Fail(e) => OutputActionView::Fail(e@),
        }
    }
}

/// What a task that copies output of the command does next.
pub open spec fn output_action(event: OutputEventView, flush: bool) -> OutputActionView {
    match event {
        OutputEventView::Item(Some(bytes)) => OutputActionView::Write(bytes, flush),
        OutputEventView::Item(None) => OutputActionView::Finish,
        OutputEventView::WriteFailed(e) => OutputActionView::Fail(error::ClientFault::IoErr(e)),
    }
}

/// What a task that copies output of the command does next.
pub fn copy_stream(event: OutputEvent, flush: bool) -> (r: OutputAction)
    ensures
        r@ == output_action(event@, flush),
        match event {
            OutputEvent::Item(Some(bytes)) => r == OutputAction::Write(bytes, flush),
            OutputEvent::Item(None) => r is Finish,
            OutputEvent::WriteFailed(e) => r == OutputAction::Fail(P9cpuClientError::IoErr(e)),
        },
{
    match event {
        OutputEvent::Item(Some(bytes)) => OutputAction::Write(bytes, flush),
        OutputEvent::Item(None) => OutputAction::Finish,
        OutputEvent::WriteFailed(e) => OutputAction::Fail(P9cpuClientError::IoErr(e)),
    }
}

/// One turn of that task: the stream gave bytes, which were written or were not for some
/// reason, or it ended.
pub enum OutputTurn {
    Item(Seq<u8>, Option<Seq<char>>),
    End,
}

/// What comes of copying output over these turns.
pub open spec fn output_copied(turns: Seq<OutputTurn>, flush: bool) -> chunk::Moved<
    error::ClientFault,
>
    decreases turns.len(),
{
    if turns.len() == 0 {
        chunk::not_begun()
    } else {
        let item = match turns[0] {
            OutputTurn::Item(bytes, _) => Some(bytes),
            OutputTurn::End => None,
        };
        match (output_action(OutputEventView::Item(item), flush), turns[0]) {
            (OutputActionView::Write(bytes, _), OutputTurn::Item(_, None)) => output_copied(
                turns.drop_first(),
                flush,
            ).after(bytes),
            (OutputActionView::Write(_, _), OutputTurn::Item(_, Some(e))) => match output_action(
                OutputEventView::WriteFailed(e),
                flush,
            ) {
                OutputActionView::Fail(f) => chunk::ended_at_once(Err(f)),
                _ => chunk::ended_at_once(Ok(())),
            },
            (OutputActionView::Fail(f), _) => chunk::ended_at_once(Err(f)),
            _ => chunk::ended_at_once(Ok(())),
        }
    }
}

/// Whether bytes came in the turn, and were written.
pub open spec fn output_moves(turn: OutputTurn) -> bool {
    turn matches OutputTurn::Item(_, None)
}

/// The bytes that came in all turns, one after the other.
pub open spec fn output_bytes(turns: Seq<OutputTurn>) -> Seq<u8>
    decreases turns.len(),
{
    if turns.len() == 0 {
        Seq::empty()
    } else {
        (match turns[0] {
            OutputTurn::Item(bytes, _) => bytes,
            OutputTurn::End => Seq::empty(),
        }) + output_bytes(turns.drop_first())
    }
}

/// The output of the client gets the bytes of the stream, in their order, until a turn
/// moves nothing. That turn ends the task: well at the end of the stream, and with its
/// error otherwise.
pub proof fn output_is_copied_whole(turns: Seq<OutputTurn>, flush: bool, k: int)
    requires
        0 <= k <= turns.len(),
        forall|i: int| 0 <= i < k ==> output_moves(#[trigger] turns[i]),
        k < turns.len() ==> !output_moves(turns[k]),
    ensures
        output_copied(turns, flush) == (if k < turns.len() {
            chunk::Moved {
                bytes: output_bytes(turns.take(k)),
                turns: (k + 1) as nat,
                result: Some(
                    match turns[k] {
                        OutputTurn::Item(_, Some(e)) => Err(error::ClientFault::IoErr(e)),
                        _ => Ok(()),
                    },
                ),
            }
        } else {
            chunk::Moved { bytes: output_bytes(turns), turns: turns.len(), result: None }
        }),
    decreases k,
{
    if k > 0 {
        let rest = turns.drop_first();
        assert(output_moves(turns[0]));
        assert forall|i: int| 0 <= i < k - 1 implies output_moves(#[trigger] rest[i]) by {
            assert(rest[i] == turns[i + 1]);
        }
        if k < turns.len() {
            assert(rest[k - 1] == turns[k]);
        }
        output_is_copied_whole(rest, flush, k - 1);
        assert(turns.take(k).drop_first() =~= rest.take(k - 1));
    } else {
        assert(turns.take(0) =~= Seq::<OutputTurn>::empty());
    }
}

/// Bytes of the stream are written as they came, and flushed exactly if that is asked for.
pub proof fn output_is_flushed_as_asked(bytes: Seq<u8>, flush: bool)
    ensures
        output_action(OutputEventView::Item(Some(bytes)), flush) matches OutputActionView::Write(
            written,
            flushed,
        ) && written == bytes && flushed == flush,
{
}

} // verus!
