//! What is sent between client and server, and how streams are framed.

use vstd::prelude::*;
use vstd::string::*;

use crate::cmd;
use crate::cmd::CommandReq;
use crate::rpc::status;
use crate::rpc::status::Status;
use crate::session_id;

verus! {

/// Nothing.
#[derive(Debug, Clone, Copy, PartialEq, Eq, Structural)]
pub struct Empty {}

/// The id of a session.
#[derive(Debug, PartialEq, Eq)]
pub struct P9cpuSessionId {
    pub id: Vec<u8>,
}

/// The request to start a command in a session.
#[derive(Debug, PartialEq, Eq)]
pub struct StartRequest {
    pub id: Vec<u8>,
    pub cmd: Option<CommandReq>,
}

/// Bytes for the input of a command. The first of a stream names the session.
#[derive(Debug, PartialEq, Eq)]
pub struct P9cpuStdinRequest {
    pub id: Option<Vec<u8>>,
    pub data: Vec<u8>,
}

/// Bytes from the file system of a client. The first of a stream names the session.
#[derive(Debug, PartialEq, Eq)]
pub struct NinepForwardRequest {
    pub id: Option<Vec<u8>>,
    pub data: Vec<u8>,
}

/// Bytes for a client.
#[derive(Debug, PartialEq, Eq)]
pub struct P9cpuBytes {
    pub data: Vec<u8>,
}

/// The exit code of a command.
#[derive(Debug, Clone, Copy, PartialEq, Eq, Structural)]
pub struct P9cpuWaitResponse {
    pub code: i32,
}

impl vstd::std_specs::convert::FromSpecImpl<P9cpuBytes> for Vec<u8> {
    open spec fn obeys_from_spec() -> bool {
        true
    }

    open spec fn from_spec(b: P9cpuBytes) -> Vec<u8> {
        b.data
    }
}

impl From<P9cpuBytes> for Vec<u8> {
    fn from(b: P9cpuBytes) -> (r: Vec<u8>) {
        b.data
    }
}

impl vstd::std_specs::convert::FromSpecImpl<Vec<u8>> for P9cpuStdinRequest {
    open spec fn obeys_from_spec() -> bool {
        true
    }

    open spec fn from_spec(data: Vec<u8>) -> P9cpuStdinRequest {
        P9cpuStdinRequest { id: None, data }
    }
}

impl From<Vec<u8>> for P9cpuStdinRequest {
    fn from(data: Vec<u8>) -> (r: P9cpuStdinRequest) {
        P9cpuStdinRequest { id: None, data }
    }
}

impl vstd::std_specs::convert::FromSpecImpl<Vec<u8>> for NinepForwardRequest {
    open spec fn obeys_from_spec() -> bool {
        true
    }

    open spec fn from_spec(data: Vec<u8>) -> NinepForwardRequest {
        NinepForwardRequest { id: None, data }
    }
}

impl From<Vec<u8>> for NinepForwardRequest {
    fn from(data: Vec<u8>) -> (r: NinepForwardRequest) {
        NinepForwardRequest { id: None, data }
    }
}

/// A stream with one item before those that it gives itself.
#[derive(Debug)]
pub struct PrependedStream<I, S> {
    /// The stream.
    pub stream: S,
    /// The item, until it was given.
    pub item: Option<I>,
}

impl<I, S> PrependedStream<I, S> {
    /// A stream that gives `item`, then what `stream` gives.
    pub fn new(item: I, stream: S) -> (r: PrependedStream<I, S>)
        ensures
            r.item == Some(item),
            r.stream == stream,
    {
        PrependedStream { stream, item: Some(item) }
    }

    /// The item, if it was not given yet. Nothing means that the stream is to be polled,
    /// and that its answer is the answer.
    pub fn poll_next(&mut self) -> (r: Option<I>)
        ensures
            r == old(self).item,
            final(self).item is None,
            final(self).stream == old(self).stream,
    {
        self.item.take()
    }
}

/// One piece of a stream, as it is sent: perhaps with the id of a session.
pub struct Frame {
    pub id: Option<Seq<u8>>,
    pub data: Seq<u8>,
}

/// The value of bytes that may be absent.
pub open spec fn optional_view(v: Option<Vec<u8>>) -> Option<Seq<u8>> {
    match v {
        Some(v) => Some(v@),
        None => None,
    }
}

impl View for P9cpuStdinRequest {
    type V = Frame;

    open spec fn view(&self) -> Frame {
        Frame { id: optional_view(self.id), data: self.data@ }
    }
}

impl View for NinepForwardRequest {
    type V = Frame;

    open spec fn view(&self) -> Frame {
        Frame { id: optional_view(self.id), data: self.data@ }
    }
}

/// Whether `frame` is how `data` is sent: with the id of the session where one is given.
pub open spec fn is_frame_of(frame: Frame, sid: Option<u128>, data: Seq<u8>) -> bool {
    &&& frame.data == data
    &&& match sid {
        Some(sid) => frame.id matches Some(id) && session_id::are_bytes_of(id, sid),
        None => frame.id is None,
    }
}

/// Whether `frames` is how `items` are sent: the first with the id of the session, the
/// others without.
pub open spec fn are_frames_of(frames: Seq<Frame>, sid: u128, items: Seq<Seq<u8>>) -> bool {
    &&& frames.len() == items.len()
    &&& forall|i: int|
        0 <= i < frames.len() ==> is_frame_of(
            #[trigger] frames[i],
            if i == 0 {
                Some(sid)
            } else {
                None
            },
            items[i],
        )
}

/// Frames what goes to the input of a command.
#[derive(Debug)]
pub struct StdinFrames {
    /// The session, until it was named.
    pub sid: Option<u128>,
}

impl StdinFrames {
    /// Frames for the session `sid`.
    pub fn new(sid: u128) -> (r: StdinFrames)
        ensures
            r.sid == Some(sid),
    {
        StdinFrames { sid: Some(sid) }
    }

    /// The next frame: the first names the session.
    pub fn frame(&mut self, data: Vec<u8>) -> (r: P9cpuStdinRequest)
        ensures
            is_frame_of(r@, old(self).sid, data@),
            final(self).sid is None,
    {
        match self.sid.take() {
            Some(sid) => P9cpuStdinRequest { id: Some(session_id::id_to_bytes(sid)), data },
            None => P9cpuStdinRequest::from(data),
        }
    }
}

/// The first frame of what comes from the file system of a client: it names the session
/// and holds no bytes.
pub fn first_ninep_request(sid: u128) -> (r: NinepForwardRequest)
    ensures
        is_frame_of(r@, Some(sid), Seq::empty()),
{
    let r = NinepForwardRequest { id: Some(session_id::id_to_bytes(sid)), data: Vec::new() };
    assert(r@.data =~= Seq::<u8>::empty());
    r
}

/// A frame as it arrives: it, an error, or the end.
pub open spec fn arrived_view(first: Option<Result<P9cpuStdinRequest, Status>>) -> Option<
    Result<Frame, status::StatusView>,
> {
    match first {
        Some(Ok(f)) => Some(Ok(f@)),
        Some(Err(e)) => Some(Err(e@)),
        None => None,
    }
}

/// The same for the file system of a client.
pub open spec fn ninep_arrived_view(first: Option<Result<NinepForwardRequest, Status>>) -> Option<
    Result<Frame, status::StatusView>,
> {
    match first {
        Some(Ok(f)) => Some(Ok(f@)),
        Some(Err(e)) => Some(Err(e@)),
        None => None,
    }
}

/// The id that bytes stand for, or the answer to a request with them.
pub open spec fn requested_id(bytes: Seq<u8>) -> Result<u128, status::StatusView> {
    match session_id::id_of_bytes(bytes) {
        Ok(sid) => Ok(sid),
        Err(e) => Err(status::invalid_argument(e)),
    }
}

/// The session that the first frame of a stream names, with its bytes, or the answer to
/// a stream that does not begin with one.
pub open spec fn opened(first: Option<Result<Frame, status::StatusView>>) -> Result<
    (u128, Seq<u8>),
    status::StatusView,
> {
    match first {
        Some(Ok(Frame { id: Some(id), data })) => match requested_id(id) {
            Ok(sid) => Ok((sid, data)),
            Err(e) => Err(e),
        },
        _ => Err(status::invalid_argument("no session id."@)),
    }
}

/// Reads the id of a session from a request.
pub fn vec_to_uuid(v: &Vec<u8>) -> (r: Result<u128, Status>)
    ensures
        match r {
            Ok(sid) => requested_id(v@) == Ok::<u128, status::StatusView>(sid),
            Err(e) => requested_id(v@) == Err::<u128, status::StatusView>(e@),
        },
{
    match session_id::id_from_bytes(v.as_slice()) {
        Ok(sid) => Ok(sid),
        Err(e) => Err(Status::invalid_argument(e)),
    }
}

/// Reads the first frame of a stream for the input of a command.
pub fn open_stdin(first: Option<Result<P9cpuStdinRequest, Status>>) -> (r: Result<
    (u128, Vec<u8>),
    Status,
>)
    ensures
        match r {
            Ok((sid, data)) => opened(arrived_view(first)) == Ok::<
                (u128, Seq<u8>),
                status::StatusView,
            >((sid, data@)),
            Err(e) => opened(arrived_view(first)) == Err::<(u128, Seq<u8>), status::StatusView>(e@),
        },
        r matches Ok((sid, data)) ==> (first matches Some(Ok(f)) && f.data == data && (
        f.id matches Some(id) && id@.len() == 16)),
{
    match first {
        Some(Ok(P9cpuStdinRequest { id: Some(id), data })) => match vec_to_uuid(&id) {
            Ok(sid) => Ok((sid, data)),
            Err(e) => Err(e),
        },
        _ => Err(Status::invalid_argument("no session id.".to_owned())),
    }
}

/// Reads the first frame of a stream from the file system of a client, and drops its
/// bytes.
pub fn open_ninep(first: Option<Result<NinepForwardRequest, Status>>) -> (r: Result<u128, Status>)
    ensures
        match r {
            Ok(sid) => opened(ninep_arrived_view(first)) matches Ok((s, _)) && s == sid,
            Err(e) => opened(ninep_arrived_view(first)) == Err::<
                (u128, Seq<u8>),
                status::StatusView,
            >(e@),
        },
{
    match first {
        Some(Ok(NinepForwardRequest { id: Some(id), data: _ })) => match vec_to_uuid(&id) {
            Ok(sid) => Ok(sid),
            Err(e) => Err(e),
        },
        _ => Err(Status::invalid_argument("no session id.".to_owned())),
    }
}

/// The bytes of a later frame. An error ends the stream.
pub open spec fn frame_bytes(frame: Result<Frame, status::StatusView>) -> Option<Seq<u8>> {
    match frame {
        Ok(f) => Some(f.data),
        Err(_) => None,
    }
}

/// The bytes of a later frame for the input of a command. Nothing ends the stream.
pub fn stdin_bytes(frame: Result<P9cpuStdinRequest, Status>) -> (r: Option<Vec<u8>>)
    ensures
        optional_view(r) == frame_bytes(arrived_view(Some(frame))->0),
        r == (match frame {
            Ok(f) => Some(f.data),
            Err(_) => None,
        }),
{
    match frame {
        Ok(f) => Some(f.data),
        Err(_) => None,
    }
}

/// The bytes of a later frame from the file system of a client. Nothing ends the stream.
pub fn ninep_bytes(frame: Result<NinepForwardRequest, Status>) -> (r: Option<Vec<u8>>)
    ensures
        optional_view(r) == frame_bytes(ninep_arrived_view(Some(frame))->0),
        r == (match frame {
            Ok(f) => Some(f.data),
            Err(_) => None,
        }),
{
    match frame {
        Ok(f) => Some(f.data),
        Err(_) => None,
    }
}

/// The bytes of the frames, up to the first error.
pub open spec fn later_bytes(frames: Seq<Result<Frame, status::StatusView>>) -> Seq<Seq<u8>>
    decreases frames.len(),
{
    if frames.len() == 0 {
        Seq::empty()
    } else {
        match frame_bytes(frames[0]) {
            Some(data) => seq![data] + later_bytes(frames.drop_first()),
            None => Seq::empty(),
        }
    }
}

/// What the server makes of a stream for the input of a command: the session, and the
/// bytes for its input.
pub open spec fn stdin_stream(frames: Seq<Result<Frame, status::StatusView>>) -> Result<
    (u128, Seq<Seq<u8>>),
    status::StatusView,
> {
    match opened(
        if frames.len() == 0 {
            None
        } else {
            Some(frames[0])
        },
    ) {
        Ok((sid, data)) => Ok((sid, seq![data] + later_bytes(frames.drop_first()))),
        Err(e) => Err(e),
    }
}

/// What the server makes of a stream from the file system of a client: the session, and
/// the bytes for the kernel.
pub open spec fn ninep_stream(frames: Seq<Result<Frame, status::StatusView>>) -> Result<
    (u128, Seq<Seq<u8>>),
    status::StatusView,
> {
    match opened(
        if frames.len() == 0 {
            None
        } else {
            Some(frames[0])
        },
    ) {
        Ok((sid, _)) => Ok((sid, later_bytes(frames.drop_first()))),
        Err(e) => Err(e),
    }
}

/// The frames, as they arrive without an error.
pub open spec fn delivered(frames: Seq<Frame>) -> Seq<Result<Frame, status::StatusView>> {
    frames.map_values(|f: Frame| Ok::<Frame, status::StatusView>(f))
}

proof fn lemma_later_bytes_of_delivered(frames: Seq<Frame>, items: Seq<Seq<u8>>)
    requires
        frames.len() == items.len(),
        forall|i: int| 0 <= i < frames.len() ==> (#[trigger] frames[i]).data == items[i],
    ensures
        later_bytes(delivered(frames)) == items,
    decreases frames.len(),
{
    if frames.len() > 0 {
        let rest = frames.drop_first();
        assert(delivered(frames).drop_first() =~= delivered(rest));
        assert forall|i: int| 0 <= i < rest.len() implies (#[trigger] rest[i]).data
            == items.drop_first()[i] by {
            assert(rest[i] == frames[i + 1]);
        }
        lemma_later_bytes_of_delivered(rest, items.drop_first());
        assert(delivered(frames)[0] == Ok::<Frame, status::StatusView>(frames[0]));
        assert(seq![items[0]] + items.drop_first() =~= items);
    } else {
        assert(items =~= Seq::<Seq<u8>>::empty());
        assert(later_bytes(delivered(frames)) =~= Seq::<Seq<u8>>::empty());
    }
}

/// The input that a client sends is the input that the server gives to the command of
/// the session: the same bytes, in the same pieces.
pub proof fn stdin_arrives(frames: Seq<Frame>, sid: u128, items: Seq<Seq<u8>>)
    requires
        items.len() > 0,
        are_frames_of(frames, sid, items),
    ensures
        stdin_stream(delivered(frames)) == Ok::<(u128, Seq<Seq<u8>>), status::StatusView>(
            (sid, items),
        ),
{
    let rest = frames.drop_first();
    assert(is_frame_of(frames[0], Some(sid), items[0]));
    assert(delivered(frames)[0] == Ok::<Frame, status::StatusView>(frames[0]));
    assert(delivered(frames).drop_first() =~= delivered(rest));
    assert forall|i: int| 0 <= i < rest.len() implies (#[trigger] rest[i]).data
        == items.drop_first()[i] by {
        assert(rest[i] == frames[i + 1]);
    }
    lemma_later_bytes_of_delivered(rest, items.drop_first());
    assert(seq![items[0]] + items.drop_first() =~= items);
}

/// What the file system of a client sends, after the frame that names the session, is
/// what the server writes to the kernel.
pub proof fn ninep_bytes_arrive(
    first: Frame,
    frames: Seq<Frame>,
    sid: u128,
    items: Seq<Seq<u8>>,
)
    requires
        is_frame_of(first, Some(sid), Seq::empty()),
        frames.len() == items.len(),
        forall|i: int| 0 <= i < frames.len() ==> is_frame_of(#[trigger] frames[i], None, items[i]),
    ensures
        ninep_stream(delivered(seq![first] + frames)) == Ok::<
            (u128, Seq<Seq<u8>>),
            status::StatusView,
        >((sid, items)),
{
    let all = seq![first] + frames;
    assert(delivered(all)[0] == Ok::<Frame, status::StatusView>(first));
    assert(all.drop_first() =~= frames);
    assert(delivered(all).drop_first() =~= delivered(frames));
    lemma_later_bytes_of_delivered(frames, items);
}

/// A stream whose first frame names no session, or an impossible one, is refused.
pub proof fn stream_without_session_is_refused(frames: Seq<Result<Frame, status::StatusView>>)
    requires
        frames.len() == 0 || frames[0] is Err || (frames[0] matches Ok(f) && (f.id matches Some(
            id,
        ) ==> id.len() != 16)),
    ensures
        stdin_stream(frames) matches Err(e) && e.code == status::StatusCode::InvalidArgument,
        ninep_stream(frames) matches Err(e) && e.code == status::StatusCode::InvalidArgument,
{
}

/// A request names a session by sixteen bytes. Bytes of another number make no sense, and
/// the answer says so.
pub proof fn sessions_are_named_by_sixteen_bytes(bytes: Seq<u8>)
    ensures
        requested_id(bytes) is Ok <==> bytes.len() == 16,
        requested_id(bytes) matches Ok(sid) ==> session_id::are_bytes_of(bytes, sid),
        requested_id(bytes) matches Err(e) ==> e.code == status::StatusCode::InvalidArgument
            && session_id::id_of_bytes(bytes) == Err::<u128, Seq<char>>(e.message),
{
    session_id::sixteen_bytes_are_an_id(bytes);
}

/// A stream is opened exactly by a frame with sixteen bytes of an id: for the session that
/// they stand for, with the bytes of the frame. A stream that begins without an id is told
/// so; one with other bytes for an id, what is wrong with them.
pub proof fn first_frame_opens_the_stream(first: Option<Result<Frame, status::StatusView>>)
    ensures
        opened(first) matches Ok((sid, data)) ==> (first matches Some(Ok(frame)) && (
        frame.id matches Some(id) && session_id::are_bytes_of(id, sid) && frame.data == data)),
        match first {
            Some(Ok(frame)) => match frame.id {
                Some(id) => if id.len() == 16 {
                    opened(first) is Ok
                } else {
                    opened(first) == Err::<(u128, Seq<u8>), status::StatusView>(
                        status::invalid_argument(session_id::id_of_bytes(id)->Err_0),
                    )
                },
                None => opened(first) == Err::<(u128, Seq<u8>), status::StatusView>(
                    status::invalid_argument("no session id."@),
                ),
            },
            _ => opened(first) == Err::<(u128, Seq<u8>), status::StatusView>(
                status::invalid_argument("no session id."@),
            ),
        },
{
    if let Some(Ok(frame)) = first {
        if let Some(id) = frame.id {
            sessions_are_named_by_sixteen_bytes(id);
        }
    }
}

/// Frames are passed on as they arrive, each with all its bytes, up to the first error,
/// after which nothing is.
pub proof fn error_ends_the_stream(
    frames: Seq<Frame>,
    e: status::StatusView,
    rest: Seq<Result<Frame, status::StatusView>>,
)
    ensures
        later_bytes(delivered(frames)) == frames.map_values(|f: Frame| f.data),
        later_bytes(delivered(frames) + seq![Err::<Frame, status::StatusView>(e)] + rest)
            == frames.map_values(|f: Frame| f.data),
        frame_bytes(Err(e)) is None,
        forall|f: Frame| #[trigger] frame_bytes(Ok(f)) == Some(f.data),
    decreases frames.len(),
{
    let items = frames.map_values(|f: Frame| f.data);
    lemma_later_bytes_of_delivered(frames, items);
    let all = delivered(frames) + seq![Err::<Frame, status::StatusView>(e)] + rest;
    if frames.len() == 0 {
        assert(all[0] == Err::<Frame, status::StatusView>(e));
        assert(later_bytes(all) =~= items);
    } else {
        let tail = frames.drop_first();
        error_ends_the_stream(tail, e, rest);
        assert(delivered(frames).drop_first() =~= delivered(tail));
        assert(all.drop_first() =~= delivered(tail) + seq![Err::<Frame, status::StatusView>(e)]
            + rest);
        assert(all[0] == Ok::<Frame, status::StatusView>(frames[0]));
        assert(items =~= seq![frames[0].data] + tail.map_values(|f: Frame| f.data));
    }
}

} // verus!
