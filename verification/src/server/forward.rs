//! Moving bytes between a command, its client and the kernel.

use vstd::prelude::*;

use crate::chunk;
use crate::server::error;
use crate::server::error::P9cpuServerError;

verus! {

/// What happens to a task that copies output of a command to its client.
#[derive(Debug, PartialEq, Eq)]
pub enum CopyEvent {
    /// The first so many bytes of the buffer were read.
    Read(Vec<u8>, usize),
    /// Reading failed.
    ReadFailed(String),
    /// The bytes could not be sent.
    SendFailed,
}

/// What that task does.
#[derive(Debug, PartialEq, Eq)]
pub enum CopyAction {
    /// Send the bytes, and read on.
    Send(Vec<u8>),
    /// End.
    Finish,
    /// Give up.
    Fail(P9cpuServerError),
}

/// The value of a [`CopyEvent`].
pub enum CopyEventView {
    Read(Seq<u8>, nat),
    ReadFailed(Seq<char>),
    SendFailed,
}

/// The value of a [`CopyAction`].
pub enum CopyActionView {
    Send(Seq<u8>),
    Finish,
    Fail(error::ServerFault),
}

impl View for CopyEvent {
    type V = CopyEventView;

    open spec fn view(&self) -> CopyEventView {
        match self {
            CopyEvent::Read(buf, len) => CopyEventView::Read(buf@, *len as nat),
            CopyEvent::ReadFailed(e) => CopyEventView::ReadFailed(e@),
            CopyEvent::SendFailed => CopyEventView::SendFailed,
        }
    }
}

impl View for CopyAction {
    type V = CopyActionView;

    open spec fn view(&self) -> CopyActionView {
        match self {
            CopyAction::Send(bytes) => CopyActionView::Send(bytes@),
            CopyAction::Finish => CopyActionView::Finish,
            CopyAction::Fail(e) => CopyActionView::Fail(e@),
        }
    }
}

/// What a task that copies output of a command to its client does next.
pub open spec fn copy_action(event: CopyEventView) -> CopyActionView {
    match event {
        CopyEventView::Read(buf, len) => match chunk::chunk_of(buf, len) {
            Some(piece) => CopyActionView::Send(piece),
            None => CopyActionView::Finish,
        },
        CopyEventView::ReadFailed(e) => CopyActionView::Fail(error::ServerFault::IoErr(e)),
        CopyEventView::SendFailed => CopyActionView::Fail(error::ServerFault::ChannelClosed),
    }
}

/// What a task that copies output of a command to its client does next.
pub fn copy_to(event: CopyEvent) -> (r: CopyAction)
    ensures
        r@ == copy_action(event@),
        match event {
            CopyEvent::Read(buf, len) => if len == 0 {
                r is Finish
            } else {
                r matches CopyAction::Send(piece) && piece@ == (if len <= buf@.len() {
                    buf@.take(len as int)
                } else {
                    buf@
                })
            },
            CopyEvent::ReadFailed(e) => r == CopyAction::Fail(P9cpuServerError::IoErr(e)),
            CopyEvent::SendFailed => r == CopyAction::Fail(P9cpuServerError::ChannelClosed),
        },
{
    match event {
        CopyEvent::Read(buf, len) => match chunk::chunk(buf, len) {
            Some(piece) => CopyAction::Send(piece),
            None => CopyAction::Finish,
        },
        CopyEvent::ReadFailed(e) => CopyAction::Fail(P9cpuServerError::IoErr(e)),
        CopyEvent::SendFailed => CopyAction::Fail(P9cpuServerError::ChannelClosed),
    }
}

/// How a task that copies output ends with an action that sends nothing.
pub open spec fn copy_end(action: CopyActionView) -> Result<(), error::ServerFault> {
    match action {
        CopyActionView::Fail(f) => Err(f),
        _ => Ok(()),
    }
}

/// What comes of copying output over these turns.
pub open spec fn copied(turns: Seq<chunk::ReadTurn>) -> chunk::Moved<error::ServerFault>
    decreases turns.len(),
{
    if turns.len() == 0 {
        chunk::not_begun()
    } else {
        match turns[0] {
            chunk::ReadTurn::Read(buf, len, sent) => match copy_action(
                CopyEventView::Read(buf, len),
            ) {
                CopyActionView::Send(piece) => if sent {
                    copied(turns.drop_first()).after(piece)
                } else {
                    chunk::ended_at_once(copy_end(copy_action(CopyEventView::SendFailed)))
                },
                other => chunk::ended_at_once(copy_end(other)),
            },
            chunk::ReadTurn::Failed(e) => chunk::ended_at_once(
                copy_end(copy_action(CopyEventView::ReadFailed(e))),
            ),
        }
    }
}

/// How the first turn that moves nothing ends the copying of output: well exactly where
/// the output is at its end.
pub open spec fn copy_stop(turn: chunk::ReadTurn) -> Result<(), error::ServerFault> {
    match turn {
        chunk::ReadTurn::Read(_, len, _) => if len == 0 {
            Ok(())
        } else {
            Err(error::ServerFault::ChannelClosed)
        },
        chunk::ReadTurn::Failed(e) => Err(error::ServerFault::IoErr(e)),
    }
}

/// The client gets the bytes that were read, in their order, until a turn moves nothing.
/// That turn ends the task: well at the end of the output, and with its error otherwise.
pub proof fn output_is_copied_whole(turns: Seq<chunk::ReadTurn>, k: int)
    requires
        0 <= k <= turns.len(),
        forall|i: int| 0 <= i < k ==> chunk::moves(#[trigger] turns[i]),
        k < turns.len() ==> !chunk::moves(turns[k]),
    ensures
        copied(turns) == (if k < turns.len() {
            chunk::Moved {
                bytes: chunk::all_read(turns.take(k)),
                turns: (k + 1) as nat,
                result: Some(copy_stop(turns[k])),
            }
        } else {
            chunk::Moved { bytes: chunk::all_read(turns), turns: turns.len(), result: None }
        }),
    decreases k,
{
    if k > 0 {
        let rest = turns.drop_first();
        assert(chunk::moves(turns[0]));
        assert forall|i: int| 0 <= i < k - 1 implies chunk::moves(#[trigger] rest[i]) by {
            assert(rest[i] == turns[i + 1]);
        }
        if k < turns.len() {
            assert(rest[k - 1] == turns[k]);
        }
        output_is_copied_whole(rest, k - 1);
        assert(turns.take(k).drop_first() =~= rest.take(k - 1));
    } else {
        assert(turns.take(0) =~= Seq::<chunk::ReadTurn>::empty());
    }
}

/// What happens to what writes the input of a command.
#[derive(Debug, PartialEq, Eq)]
pub enum FeedEvent {
    /// The stream gave bytes, or ended.
    Item(Option<Vec<u8>>),
    /// Writing failed.
    WriteFailed(String),
}

/// What it does.
#[derive(Debug, PartialEq, Eq)]
pub enum FeedAction {
    /// Write all the bytes, and take the next item.
    Write(Vec<u8>),
    /// End. The input stays open.
    Finish,
    /// Give up, and take no further item.
    Fail(P9cpuServerError),
}

/// The value of a [`FeedEvent`].
pub enum FeedEventView {
    Item(Option<Seq<u8>>),
    WriteFailed(Seq<char>),
}

/// The value of a [`FeedAction`].
pub enum FeedActionView {
    Write(Seq<u8>),
    Finish,
    Fail(error::ServerFault),
}

impl View for FeedEvent {
    type V = FeedEventView;

    open spec fn view(&self) -> FeedEventView {
        match self {
            FeedEvent::Item(Some(bytes)) => FeedEventView::Item(Some(bytes@)),
            FeedEvent::Item(None) => FeedEventView::Item(None),
            FeedEvent::WriteFailed(e) => FeedEventView::WriteFailed(e@),
        }
    }
}

impl View for FeedAction {
    type V = FeedActionView;

    open spec fn view(&self) -> FeedActionView {
        match self {
            FeedAction::Write(bytes) => FeedActionView::Write(bytes@),
            FeedAction::Finish => FeedActionView::Finish,
            FeedAction::Fail(e) => FeedActionView::Fail(e@),
        }
    }
}

/// What is done next to write the input of a command.
pub open spec fn feed_action(event: FeedEventView) -> FeedActionView {
    match event {
        FeedEventView::Item(Some(bytes)) => FeedActionView::Write(bytes),
        FeedEventView::Item(None) => FeedActionView::Finish,
        FeedEventView::WriteFailed(e) => FeedActionView::Fail(error::ServerFault::IoErr(e)),
    }
}

/// What is done next to write the input of a command.
pub fn feed_stdin(event: FeedEvent) -> (r: FeedAction)
    ensures
        r@ == feed_action(event@),
        match event {
            FeedEvent::Item(Some(bytes)) => r == FeedAction::Write(bytes),
            FeedEvent::Item(None) => r is Finish,
            FeedEvent::WriteFailed(e) => r == FeedAction::Fail(P9cpuServerError::IoErr(e)),
        },
{
    match event {
        FeedEvent::Item(Some(bytes)) => FeedAction::Write(bytes),
        FeedEvent::Item(None) => FeedAction::Finish,
        FeedEvent::WriteFailed(e) => FeedAction::Fail(P9cpuServerError::IoErr(e)),
    }
}

/// What came of writing a stream to the input of a command.
pub struct Fed {
    /// The bytes that were written.
    pub written: Seq<u8>,
    /// How many items were taken from the stream.
    pub taken: nat,
    pub result: Result<(), error::ServerFault>,
}

/// What comes of writing `items` to the input of a command, where `failures` holds what
/// goes wrong with each write, if something does.
pub open spec fn fed(items: Seq<Seq<u8>>, failures: Seq<Option<Seq<char>>>) -> Fed
    decreases items.len(),
{
    let next = if items.len() == 0 {
        None
    } else {
        Some(items[0])
    };
    match feed_action(FeedEventView::Item(next)) {
        FeedActionView::Write(bytes) if items.len() > 0 => match failures[0] {
            None => {
                let rest = fed(items.drop_first(), failures.drop_first());
                Fed { written: bytes + rest.written, taken: rest.taken + 1, result: rest.result }
            },
            Some(e) => Fed {
                written: Seq::empty(),
                taken: 1,
                result: match feed_action(FeedEventView::WriteFailed(e)) {
                    FeedActionView::Fail(f) => Err(f),
                    _ => Ok(()),
                },
            },
        },
        FeedActionView::Fail(f) => Fed { written: Seq::empty(), taken: 0, result: Err(f) },
        _ => Fed { written: Seq::empty(), taken: 0, result: Ok(()) },
    }
}

/// Where every write succeeds, the command gets the bytes of all items, in their order.
pub proof fn input_is_written_whole(items: Seq<Seq<u8>>, failures: Seq<Option<Seq<char>>>)
    requires
        items.len() == failures.len(),
        forall|i: int| 0 <= i < failures.len() ==> #[trigger] failures[i] is None,
    ensures
        fed(items, failures) == (Fed {
            written: items.flatten(),
            taken: items.len(),
            result: Ok::<(), error::ServerFault>(()),
        }),
    decreases items.len(),
{
    if items.len() > 0 {
        let rest = failures.drop_first();
        assert forall|i: int| 0 <= i < rest.len() implies #[trigger] rest[i] is None by {
            assert(rest[i] == failures[i + 1]);
        }
        input_is_written_whole(items.drop_first(), rest);
        assert(failures[0] is None);
    }
}

/// The first write that fails ends it with its error: the command got the bytes of the
/// items before, and no item after is taken.
pub proof fn failed_write_ends_the_input(
    items: Seq<Seq<u8>>,
    failures: Seq<Option<Seq<char>>>,
    k: int,
)
    requires
        items.len() == failures.len(),
        0 <= k < items.len(),
        failures[k] is Some,
        forall|i: int| 0 <= i < k ==> #[trigger] failures[i] is None,
    ensures
        fed(items, failures) == (Fed {
            written: items.take(k).flatten(),
            taken: (k + 1) as nat,
            result: Err::<(), error::ServerFault>(error::ServerFault::IoErr(failures[k]->0)),
        }),
    decreases items.len(),
{
    if k > 0 {
        let rest = failures.drop_first();
        assert forall|i: int| 0 <= i < k - 1 implies #[trigger] rest[i] is None by {
            assert(rest[i] == failures[i + 1]);
        }
        assert(rest[k - 1] == failures[k]);
        failed_write_ends_the_input(items.drop_first(), rest, k - 1);
        assert(items.take(k).drop_first() =~= items.drop_first().take(k - 1));
        assert(failures[0] is None);
    } else {
        assert(items.take(0) =~= Seq::<Seq<u8>>::empty());
    }
}

/// How long the kernel has to connect to the port on which the file system of a client
/// is forwarded, in seconds.
pub const ACCEPT_TIMEOUT_SECS: u64 = 60;

/// What happens to the task that forwards the file system of a client.
#[derive(Debug, PartialEq, Eq)]
pub enum ForwardEvent {
    /// The listener went away without an answer.
    ListenerGone,
    /// The kernel did not connect in time, or could not.
    AcceptFailed,
    /// The kernel is connected.
    Connected,
    /// The connection could not be set up, or reading from the kernel failed, or
    /// writing to it did.
    IoFailed(String),
    /// The first so many bytes of the buffer were read from the kernel.
    FromKernel(Vec<u8>, usize),
    /// The client sent bytes, or ended its stream.
    FromClient(Option<Vec<u8>>),
    /// So many bytes were written to the kernel.
    Written(usize),
    /// Bytes could not be sent to the client.
    SendFailed,
}

/// What that task does.
#[derive(Debug, PartialEq, Eq)]
pub enum ForwardAction {
    /// Wait for bytes from either side.
    Wait,
    /// Send the bytes to the client, then wait.
    ToClient(Vec<u8>),
    /// Write the bytes to the kernel.
    ToKernel(Vec<u8>),
    /// End.
    Finish,
    /// Give up.
    Fail(P9cpuServerError),
}

/// The value of a [`ForwardEvent`].
pub enum ForwardEventView {
    ListenerGone,
    AcceptFailed,
    Connected,
    IoFailed(Seq<char>),
    FromKernel(Seq<u8>, nat),
    FromClient(Option<Seq<u8>>),
    Written(nat),
    SendFailed,
}

/// The value of a [`ForwardAction`].
pub enum ForwardActionView {
    Wait,
    ToClient(Seq<u8>),
    ToKernel(Seq<u8>),
    Finish,
    Fail(error::ServerFault),
}

impl View for ForwardEvent {
    type V = ForwardEventView;

    open spec fn view(&self) -> ForwardEventView {
        match self {
            ForwardEvent::ListenerGone => ForwardEventView::ListenerGone,
            ForwardEvent::AcceptFailed => ForwardEventView::AcceptFailed,
            ForwardEvent::Connected => ForwardEventView::Connected,
            ForwardEvent::IoFailed(e) => ForwardEventView::IoFailed(e@),
            ForwardEvent::FromKernel(buf, len) => ForwardEventView::FromKernel(buf@, *len as nat),
            ForwardEvent::FromClient(Some(bytes)) => ForwardEventView::FromClient(Some(bytes@)),
            ForwardEvent::FromClient(None) => ForwardEventView::FromClient(None),
            ForwardEvent::Written(len) => ForwardEventView::Written(*len as nat),
            ForwardEvent::SendFailed => ForwardEventView::SendFailed,
        }
    }
}

impl View for ForwardAction {
    type V = ForwardActionView;

    open spec fn view(&self) -> ForwardActionView {
        match self {
            ForwardAction::Wait => ForwardActionView::Wait,
            ForwardAction::ToClient(bytes) => ForwardActionView::ToClient(bytes@),
            ForwardAction::ToKernel(bytes) => ForwardActionView::ToKernel(bytes@),
            ForwardAction::Finish => ForwardActionView::Finish,
            ForwardAction::Fail(e) => ForwardActionView::Fail(e@),
        }
    }
}

/// What the task that forwards the file system of a client does next.
pub open spec fn forward_action(event: ForwardEventView) -> ForwardActionView {
    match event {
        ForwardEventView::ListenerGone => ForwardActionView::Fail(
            error::ServerFault::ChannelClosed,
        ),
        ForwardEventView::AcceptFailed => ForwardActionView::Finish,
        ForwardEventView::Connected => ForwardActionView::Wait,
        ForwardEventView::IoFailed(e) => ForwardActionView::Fail(error::ServerFault::IoErr(e)),
        ForwardEventView::FromKernel(buf, len) => match chunk::chunk_of(buf, len) {
            Some(piece) => ForwardActionView::ToClient(piece),
            None => ForwardActionView::Finish,
        },
        ForwardEventView::FromClient(Some(bytes)) => ForwardActionView::ToKernel(bytes),
        ForwardEventView::FromClient(None) => ForwardActionView::Finish,
        ForwardEventView::Written(len) => if len == 0 {
            ForwardActionView::Finish
        } else {
            ForwardActionView::Wait
        },
        ForwardEventView::SendFailed => ForwardActionView::Fail(error::ServerFault::ChannelClosed),
    }
}

/// What the task that forwards the file system of a client does next.
pub fn forward_step(event: ForwardEvent) -> (r: ForwardAction)
    ensures
        r@ == forward_action(event@),
        event matches ForwardEvent::FromKernel(buf, len) ==> if len == 0 {
            r is Finish
        } else {
            r matches ForwardAction::ToClient(piece) && piece@ == (if len <= buf@.len() {
                buf@.take(len as int)
            } else {
                buf@
            })
        },
        event matches ForwardEvent::FromClient(Some(bytes)) ==> r == ForwardAction::ToKernel(bytes),
        event matches ForwardEvent::FromClient(None) ==> r is Finish,
        event matches ForwardEvent::Written(len) ==> (r is Finish <==> len == 0) && (r is Wait
            <==> len > 0),
        event matches ForwardEvent::IoFailed(e) ==> r == ForwardAction::Fail(
            P9cpuServerError::IoErr(e),
        ),
{
    match event {
        ForwardEvent::ListenerGone => ForwardAction::Fail(P9cpuServerError::ChannelClosed),
        ForwardEvent::AcceptFailed => ForwardAction::Finish,
        ForwardEvent::Connected => ForwardAction::Wait,
        ForwardEvent::IoFailed(e) => ForwardAction::Fail(P9cpuServerError::IoErr(e)),
        ForwardEvent::FromKernel(buf, len) => match chunk::chunk(buf, len) {
            Some(piece) => ForwardAction::ToClient(piece),
            None => ForwardAction::Finish,
        },
        ForwardEvent::FromClient(Some(bytes)) => ForwardAction::ToKernel(bytes),
        ForwardEvent::FromClient(None) => ForwardAction::Finish,
        ForwardEvent::Written(len) => if len == 0 {
            ForwardAction::Finish
        } else {
            ForwardAction::Wait
        },
        ForwardEvent::SendFailed => ForwardAction::Fail(P9cpuServerError::ChannelClosed),
    }
}

/// One turn of that task, once the kernel is connected.
pub enum ForwardTurn {
    /// Reading from the kernel came first.
    Kernel(chunk::ReadTurn),
    /// The client came first: with bytes of which so many were written, or of which
    /// writing failed, or with the end of its stream.
    Client(Option<Seq<u8>>, Result<nat, Seq<char>>),
}

/// What came of the task.
#[verifier::ext_equal]
pub struct Forwarded {
    /// The bytes that were sent to the client.
    pub to_client: Seq<u8>,
    /// The bytes that the kernel took.
    pub to_kernel: Seq<u8>,
    /// How many turns it took.
    pub turns: nat,
    /// How it ended, if it did.
    pub result: Option<Result<(), error::ServerFault>>,
}

/// What came of the task if it ended in its first turn, or had none.
pub open spec fn forward_end(turns: nat, action: Option<ForwardActionView>) -> Forwarded {
    Forwarded {
        to_client: Seq::empty(),
        to_kernel: Seq::empty(),
        turns,
        result: match action {
            Some(ForwardActionView::Fail(f)) => Some(Err(f)),
            Some(_) => Some(Ok(())),
            None => None,
        },
    }
}

/// What the kernel takes where it takes the first so many bytes of an item: the others
/// are not offered again.
pub open spec fn taken_bytes(bytes: Seq<u8>, len: nat) -> Seq<u8> {
    if len < bytes.len() {
        bytes.take(len as int)
    } else {
        bytes
    }
}

/// What comes of forwarding over these turns.
pub open spec fn forwarded(turns: Seq<ForwardTurn>) -> Forwarded
    decreases turns.len(),
{
    if turns.len() == 0 {
        forward_end(0, None)
    } else {
        let event = match turns[0] {
            ForwardTurn::Kernel(chunk::ReadTurn::Read(buf, len, _)) => ForwardEventView::FromKernel(
                buf,
                len,
            ),
            ForwardTurn::Kernel(chunk::ReadTurn::Failed(e)) => ForwardEventView::IoFailed(e),
            ForwardTurn::Client(item, _) => ForwardEventView::FromClient(item),
        };
        match (forward_action(event), turns[0]) {
            (
                ForwardActionView::ToClient(piece),
                ForwardTurn::Kernel(chunk::ReadTurn::Read(_, _, sent)),
            ) => if sent {
                let rest = forwarded(turns.drop_first());
                Forwarded { to_client: piece + rest.to_client, turns: rest.turns + 1, ..rest }
            } else {
                forward_end(1, Some(forward_action(ForwardEventView::SendFailed)))
            },
            (ForwardActionView::ToKernel(bytes), ForwardTurn::Client(_, Ok(len))) => {
                let next = forward_action(ForwardEventView::Written(len));
                if next is Wait {
                    let rest = forwarded(turns.drop_first());
                    Forwarded {
                        to_kernel: taken_bytes(bytes, len) + rest.to_kernel,
                        turns: rest.turns + 1,
                        ..rest
                    }
                } else {
                    forward_end(1, Some(next))
                }
            },
            (ForwardActionView::ToKernel(_), ForwardTurn::Client(_, Err(e))) => forward_end(
                1,
                Some(forward_action(ForwardEventView::IoFailed(e))),
            ),
            (action, _) => forward_end(1, Some(action)),
        }
    }
}

/// Whether bytes were moved in the turn.
pub open spec fn forwards(turn: ForwardTurn) -> bool {
    match turn {
        ForwardTurn::Kernel(read) => chunk::moves(read),
        ForwardTurn::Client(Some(_), Ok(len)) => len > 0,
        ForwardTurn::Client(_, _) => false,
    }
}

/// The bytes that the kernel sent in these turns.
pub open spec fn kernel_bytes(turns: Seq<ForwardTurn>) -> Seq<u8>
    decreases turns.len(),
{
    if turns.len() == 0 {
        Seq::empty()
    } else {
        let rest = kernel_bytes(turns.drop_first());
        match turns[0] {
            ForwardTurn::Kernel(read) => chunk::read_bytes(read) + rest,
            ForwardTurn::Client(_, _) => rest,
        }
    }
}

/// The bytes that the kernel took of the items that the client sent in these turns.
pub open spec fn client_bytes(turns: Seq<ForwardTurn>) -> Seq<u8>
    decreases turns.len(),
{
    if turns.len() == 0 {
        Seq::empty()
    } else {
        let rest = client_bytes(turns.drop_first());
        match turns[0] {
            ForwardTurn::Client(Some(bytes), Ok(len)) => taken_bytes(bytes, len) + rest,
            _ => rest,
        }
    }
}

/// The bytes that the client sent in these turns.
pub open spec fn all_client_bytes(turns: Seq<ForwardTurn>) -> Seq<u8>
    decreases turns.len(),
{
    if turns.len() == 0 {
        Seq::empty()
    } else {
        let rest = all_client_bytes(turns.drop_first());
        match turns[0] {
            ForwardTurn::Client(Some(bytes), _) => bytes + rest,
            _ => rest,
        }
    }
}

/// Whether the kernel takes what it is offered in the turn as a whole.
pub open spec fn takes_all(turn: ForwardTurn) -> bool {
    turn matches ForwardTurn::Client(Some(bytes), written) ==> written == Ok::<nat, Seq<char>>(
        bytes.len(),
    )
}

/// How the first turn that moves nothing ends the forwarding: well exactly where one of
/// the sides is at its end, or the kernel takes nothing.
pub open spec fn forward_stop(turn: ForwardTurn) -> Result<(), error::ServerFault> {
    match turn {
        ForwardTurn::Kernel(read) => copy_stop(read),
        ForwardTurn::Client(Some(_), Err(e)) => Err(error::ServerFault::IoErr(e)),
        ForwardTurn::Client(_, _) => Ok(()),
    }
}

/// The client gets the bytes of the kernel, and the kernel gets what it takes of the bytes
/// of the client, each in their order, until a turn moves nothing. That turn ends the task:
/// well where a side is at its end, and with its error otherwise.
pub proof fn both_sides_are_forwarded(turns: Seq<ForwardTurn>, k: int)
    requires
        0 <= k <= turns.len(),
        forall|i: int| 0 <= i < k ==> forwards(#[trigger] turns[i]),
        k < turns.len() ==> !forwards(turns[k]),
    ensures
        forwarded(turns) == (if k < turns.len() {
            Forwarded {
                to_client: kernel_bytes(turns.take(k)),
                to_kernel: client_bytes(turns.take(k)),
                turns: (k + 1) as nat,
                result: Some(forward_stop(turns[k])),
            }
        } else {
            Forwarded {
                to_client: kernel_bytes(turns),
                to_kernel: client_bytes(turns),
                turns: turns.len(),
                result: None,
            }
        }),
    decreases k,
{
    if k > 0 {
        let rest = turns.drop_first();
        assert(forwards(turns[0]));
        assert forall|i: int| 0 <= i < k - 1 implies forwards(#[trigger] rest[i]) by {
            assert(rest[i] == turns[i + 1]);
        }
        if k < turns.len() {
            assert(rest[k - 1] == turns[k]);
        }
        both_sides_are_forwarded(rest, k - 1);
        assert(turns.take(k).drop_first() =~= rest.take(k - 1));
    } else {
        assert(turns.take(0) =~= Seq::<ForwardTurn>::empty());
    }
}

/// What comes of the task as a whole, which begins with what became of the connection of
/// the kernel.
pub open spec fn forward_task(connection: ForwardEventView, turns: Seq<ForwardTurn>) -> Forwarded {
    match forward_action(connection) {
        ForwardActionView::Wait => forwarded(turns),
        action => forward_end(0, Some(action)),
    }
}

/// Nothing is forwarded before the kernel is connected. If it does not connect in time the
/// task ends well; if nobody listens any more, or the connection is broken, with an error.
pub proof fn nothing_is_forwarded_without_the_kernel(turns: Seq<ForwardTurn>, e: Seq<char>)
    ensures
        forward_task(ForwardEventView::Connected, turns) == forwarded(turns),
        forall|connection: ForwardEventView|
            (connection is AcceptFailed || connection is ListenerGone || connection is IoFailed)
                ==> {
                let r = #[trigger] forward_task(connection, turns);
                r.to_client.len() == 0 && r.to_kernel.len() == 0 && r.turns == 0
            },
        forward_task(ForwardEventView::AcceptFailed, turns).result == Some(
            Ok::<(), error::ServerFault>(()),
        ),
        forward_task(ForwardEventView::ListenerGone, turns).result == Some(
            Err::<(), error::ServerFault>(error::ServerFault::ChannelClosed),
        ),
        forward_task(ForwardEventView::IoFailed(e), turns).result == Some(
            Err::<(), error::ServerFault>(error::ServerFault::IoErr(e)),
        ),
{
}

/// Where the kernel takes each item as a whole, it gets all bytes of the client.
pub proof fn whole_writes_lose_nothing(turns: Seq<ForwardTurn>)
    requires
        forall|i: int| 0 <= i < turns.len() ==> takes_all(#[trigger] turns[i]),
    ensures
        client_bytes(turns) == all_client_bytes(turns),
    decreases turns.len(),
{
    if turns.len() > 0 {
        let rest = turns.drop_first();
        assert(takes_all(turns[0]));
        assert forall|i: int| 0 <= i < rest.len() implies takes_all(#[trigger] rest[i]) by {
            assert(rest[i] == turns[i + 1]);
        }
        whole_writes_lose_nothing(rest);
    }
}

/// What becomes of a read or a write that does not block.
#[derive(Debug, Clone, Copy, PartialEq, Eq, Structural)]
pub enum IoOutcome {
    /// It would have blocked: it is tried again once the file descriptor is ready.
    Retry,
    /// It failed.
    Fail,
    /// So many bytes were read or written.
    Done(usize),
}

/// What becomes of a read or a write that does not block, from what the system call
/// returned and whether its error was that it would have blocked.
pub open spec fn io_outcome_of(ret: isize, would_block: bool) -> IoOutcome {
    if ret >= 0 {
        IoOutcome::Done(ret as usize)
    } else if would_block {
        IoOutcome::Retry
    } else {
        IoOutcome::Fail
    }
}

/// What becomes of a read or a write that does not block, from what the system call
/// returned and whether its error was that it would have blocked.
pub fn io_outcome(ret: isize, would_block: bool) -> (r: IoOutcome)
    ensures
        r == io_outcome_of(ret, would_block),
{
    if ret >= 0 {
        IoOutcome::Done(ret as usize)
    } else if would_block {
        IoOutcome::Retry
    } else {
        IoOutcome::Fail
    }
}

/// A call that returned a count did so many bytes, none or more. One that failed is tried
/// again exactly if it would have blocked.
pub proof fn calls_that_would_block_are_tried_again(ret: isize, would_block: bool)
    ensures
        ret >= 0 ==> (io_outcome_of(ret, would_block) matches IoOutcome::Done(n) && n == ret),
        ret < 0 ==> (io_outcome_of(ret, would_block) == IoOutcome::Retry <==> would_block),
        ret < 0 ==> (io_outcome_of(ret, would_block) == IoOutcome::Fail <==> !would_block),
{
}

/// The kernel has a minute to connect.
pub proof fn kernel_has_a_minute()
    ensures
        ACCEPT_TIMEOUT_SECS == 60,
{
}

} // verus!
