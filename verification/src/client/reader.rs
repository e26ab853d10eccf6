//! Reading bytes from a stream of byte strings.

use vstd::prelude::*;

use crate::poll::Polled;

verus! {

/// A byte string of which the first bytes were read.
#[derive(Debug)]
struct Unread {
    buffer: Vec<u8>,
    consumed: usize,
}

impl Unread {
    #[verifier::type_invariant]
    spec fn in_buffer(self) -> bool {
        self.consumed <= self.buffer@.len()
    }

    spec fn rest(self) -> Seq<u8> {
        self.buffer@.skip(self.consumed as int)
    }
}

/// Reads bytes, as many as there is room for, from a stream of byte strings.
#[derive(Debug)]
pub struct StreamReader<S> {
    inner: S,
    unread: Unread,
}

/// The value of a [`StreamReader`].
#[verifier::ext_equal]
pub struct ReaderView<S> {
    pub inner: S,
    /// The bytes that came from the stream and were not read yet.
    pub unread: Seq<u8>,
}

impl<S> View for StreamReader<S> {
    type V = ReaderView<S>;

    closed spec fn view(&self) -> ReaderView<S> {
        ReaderView { inner: self.inner, unread: self.unread.rest() }
    }
}

/// How many of `len` bytes are read where there is room for `room`.
pub open spec fn read_len(room: nat, len: nat) -> nat {
    if room < len {
        room
    } else {
        len
    }
}

/// What reading gives without the stream. Nothing means that the stream must be polled.
pub open spec fn buffered_read(unread: Seq<u8>, room: nat) -> Option<Seq<u8>> {
    if room == 0 {
        Some(Seq::empty())
    } else if unread.len() > 0 {
        Some(unread.take(read_len(room, unread.len()) as int))
    } else {
        None
    }
}

/// What is unread after that.
pub open spec fn after_buffered_read(unread: Seq<u8>, room: nat) -> Seq<u8> {
    unread.skip(read_len(room, unread.len()) as int)
}

/// What reading gives for an answer of the stream. No byte at all is the end.
pub open spec fn item_read(item: Polled<Option<Seq<u8>>>, room: nat) -> Polled<Seq<u8>> {
    match item {
        Polled::Pending => Polled::Pending,
        Polled::Ready(None) => Polled::Ready(Seq::empty()),
        Polled::Ready(Some(bytes)) => Polled::Ready(bytes.take(read_len(room, bytes.len()) as int)),
    }
}

/// What is unread after that.
pub open spec fn after_item_read(item: Polled<Option<Seq<u8>>>, room: nat) -> Seq<u8> {
    match item {
        Polled::Ready(Some(bytes)) => bytes.skip(read_len(room, bytes.len()) as int),
        _ => Seq::empty(),
    }
}

/// The value of an answer of the stream.
pub open spec fn item_view(item: Polled<Option<Vec<u8>>>) -> Polled<Option<Seq<u8>>> {
    match item {
        Polled::Pending => Polled::Pending,
        Polled::Ready(None) => Polled::Ready(None),
        Polled::Ready(Some(bytes)) => Polled::Ready(Some(bytes@)),
    }
}

fn copy_range(bytes: &Vec<u8>, from: usize, to: usize) -> (r: Vec<u8>)
    requires
        from <= to <= bytes.len(),
    ensures
        r@ == bytes@.subrange(from as int, to as int),
{
    let mut out: Vec<u8> = Vec::new();
    let mut i: usize = from;
    while i < to
        invariant
            from <= i <= to <= bytes.len(),
            out@ == bytes@.subrange(from as int, i as int),
        decreases to - i,
    {
        assert(bytes@.subrange(from as int, i + 1) =~= bytes@.subrange(from as int, i as int).push(
            bytes@[i as int],
        ));
        out.push(bytes[i]);
        i += 1;
    }
    out
}

impl<S> StreamReader<S> {
    /// The stream, to be polled.
    pub fn inner_mut(&mut self) -> (r: &mut S)
        ensures
            *r == old(self)@.inner,
            final(self)@ == (ReaderView { inner: *final(r), ..old(self)@ }),
    {
        &mut self.inner
    }

    /// A reader that has read nothing.
    pub fn new(stream: S) -> (r: StreamReader<S>)
        ensures
            r@ == (ReaderView { inner: stream, unread: Seq::<u8>::empty() }),
    {
        let r = StreamReader {
            inner: stream,
            unread: Unread { buffer: Vec::new(), consumed: 0 },
        };
        assert(r@.unread =~= Seq::<u8>::empty());
        r
    }

    /// Reads from what came from the stream before, where there is room for `room`
    /// bytes. Nothing means that the stream is to be polled, and its answer given to
    /// [`StreamReader::poll_item`].
    pub fn poll_buffered(&mut self, room: usize) -> (r: Option<Vec<u8>>)
        ensures
            match r {
                Some(bytes) => buffered_read(old(self)@.unread, room as nat) == Some(bytes@),
                None => buffered_read(old(self)@.unread, room as nat) is None,
            },
            final(self)@ == (ReaderView {
                unread: after_buffered_read(old(self)@.unread, room as nat),
                ..old(self)@
            }),
            r matches Some(bytes) ==> bytes@.len() <= room && bytes@ + final(self)@.unread
                == old(self)@.unread,
            r is None ==> room > 0 && old(self)@.unread.len() == 0,
    {
        proof {
            use_type_invariant(&self.unread);
        }
        let ghost was = self@;
        proof {
            reading_fills_the_room(was.unread, was.unread, room as nat);
        }
        if room == 0 {
            assert(was.unread.skip(0) =~= was.unread);
            return Some(Vec::new());
        }
        if self.unread.consumed < self.unread.buffer.len() {
            let remaining = self.unread.buffer.len() - self.unread.consumed;
            let len = if room < remaining {
                room
            } else {
                remaining
            };
            let read_to = self.unread.consumed + len;
            let bytes = copy_range(&self.unread.buffer, self.unread.consumed, read_to);
            assert(bytes@ =~= was.unread.take(read_len(room as nat, was.unread.len()) as int));
            self.unread.consumed = read_to;
            assert(self@.unread =~= after_buffered_read(was.unread, room as nat));
            Some(bytes)
        } else {
            assert(was.unread =~= Seq::<u8>::empty());
            assert(was.unread.skip(0) =~= was.unread);
            None
        }
    }

    /// Goes on with the answer of the stream, where there is room for `room` bytes.
    pub fn poll_item(&mut self, room: usize, item: Polled<Option<Vec<u8>>>) -> (r: Polled<Vec<u8>>)
        requires
            old(self)@.unread.len() == 0,
        ensures
            match r {
                Polled::Pending => item_read(item_view(item), room as nat) is Pending,
                Polled::Ready(bytes) => item_read(item_view(item), room as nat) == Polled::Ready(
                    bytes@,
                ),
            },
            final(self)@ == (ReaderView {
                unread: after_item_read(item_view(item), room as nat),
                ..old(self)@
            }),
            r is Pending <==> item is Pending,
            r matches Polled::Ready(bytes) ==> bytes@.len() <= room && match item {
                Polled::Ready(Some(all)) => bytes@ + final(self)@.unread == all@,
                _ => bytes@.len() == 0,
            },
    {
        assert(self@.unread =~= Seq::<u8>::empty());
        match item {
            Polled::Pending => Polled::Pending,
            Polled::Ready(None) => Polled::Ready(Vec::new()),
            Polled::Ready(Some(bytes)) => {
                let ghost all = bytes@;
                proof {
                    reading_fills_the_room(self@.unread, all, room as nat);
                }
                let len = if room < bytes.len() {
                    room
                } else {
                    bytes.len()
                };
                let read = copy_range(&bytes, 0, len);
                assert(read@ =~= all.take(len as int));
                self.unread = Unread { buffer: bytes, consumed: len };
                Polled::Ready(read)
            },
        }
    }
}

/// The bytes of all byte strings, one after the other.
pub open spec fn all_bytes(items: Seq<Seq<u8>>) -> Seq<u8>
    decreases items.len(),
{
    if items.len() == 0 {
        Seq::empty()
    } else {
        items[0] + all_bytes(items.drop_first())
    }
}

/// What reading again and again gives, with the room for each time in `rooms`, while
/// the stream answers with `items`.
pub open spec fn read_all(unread: Seq<u8>, items: Seq<Seq<u8>>, rooms: Seq<nat>) -> Seq<u8>
    decreases rooms.len(),
{
    if rooms.len() == 0 {
        Seq::empty()
    } else {
        match buffered_read(unread, rooms[0]) {
            Some(bytes) => bytes + read_all(
                after_buffered_read(unread, rooms[0]),
                items,
                rooms.drop_first(),
            ),
            None => if items.len() == 0 {
                read_all(unread, items, rooms.drop_first())
            } else {
                (match item_read(Polled::Ready(Some(items[0])), rooms[0]) {
                    Polled::Ready(bytes) => bytes,
                    Polled::Pending => Seq::empty(),
                }) + read_all(
                    after_item_read(Polled::Ready(Some(items[0])), rooms[0]),
                    items.drop_first(),
                    rooms.drop_first(),
                )
            },
        }
    }
}

/// What is then left: the bytes that came from the stream and were not read, and what
/// the stream did not give yet.
pub open spec fn left_after(unread: Seq<u8>, items: Seq<Seq<u8>>, rooms: Seq<nat>) -> (
    Seq<u8>,
    Seq<Seq<u8>>,
)
    decreases rooms.len(),
{
    if rooms.len() == 0 {
        (unread, items)
    } else if buffered_read(unread, rooms[0]) is Some {
        left_after(after_buffered_read(unread, rooms[0]), items, rooms.drop_first())
    } else if items.len() == 0 {
        left_after(unread, items, rooms.drop_first())
    } else {
        left_after(
            after_item_read(Polled::Ready(Some(items[0])), rooms[0]),
            items.drop_first(),
            rooms.drop_first(),
        )
    }
}

/// However much room there is each time, the bytes that are read, with those that are
/// left after them, are the bytes of the stream: in order, none lost, none twice.
pub proof fn reading_keeps_the_bytes(unread: Seq<u8>, items: Seq<Seq<u8>>, rooms: Seq<nat>)
    ensures
        read_all(unread, items, rooms) + left_after(unread, items, rooms).0 + all_bytes(
            left_after(unread, items, rooms).1,
        ) == unread + all_bytes(items),
    decreases rooms.len(),
{
    let whole = unread + all_bytes(items);
    let (bytes_left, items_left) = left_after(unread, items, rooms);
    if rooms.len() > 0 {
        let rest = rooms.drop_first();
        match buffered_read(unread, rooms[0]) {
            Some(bytes) => {
                let left = after_buffered_read(unread, rooms[0]);
                reading_keeps_the_bytes(left, items, rest);
                assert(bytes + left =~= unread);
                let tail = read_all(left, items, rest);
                assert(bytes + (left + all_bytes(items)) =~= whole);
                assert(bytes + tail + bytes_left + all_bytes(items_left) =~= bytes + (tail
                    + bytes_left + all_bytes(items_left)));
            },
            None => {
                assert(unread =~= Seq::<u8>::empty());
                if items.len() == 0 {
                    reading_keeps_the_bytes(unread, items, rest);
                } else {
                    let n = read_len(rooms[0], items[0].len()) as int;
                    let bytes = items[0].take(n);
                    let left = items[0].skip(n);
                    reading_keeps_the_bytes(left, items.drop_first(), rest);
                    let tail = read_all(left, items.drop_first(), rest);
                    assert(bytes + (left + all_bytes(items.drop_first())) =~= whole);
                    assert(bytes + tail + bytes_left + all_bytes(items_left) =~= bytes + (tail
                        + bytes_left + all_bytes(items_left)));
                }
            },
        }
    } else {
        assert(read_all(unread, items, rooms) + unread + all_bytes(items) =~= whole);
    }
}

/// Where there is room, reading gives at least one byte as long as the stream has one:
/// no byte at all means an empty byte string or the end.
pub proof fn reading_goes_on(unread: Seq<u8>, item: Polled<Option<Seq<u8>>>, room: nat)
    requires
        room > 0,
    ensures
        buffered_read(unread, room) matches Some(bytes) ==> bytes.len() > 0,
        item_read(item, room) matches Polled::Ready(bytes) && bytes.len() == 0 ==> match item {
            Polled::Ready(Some(all)) => all.len() == 0,
            Polled::Ready(None) => true,
            Polled::Pending => false,
        },
{
}

/// As much is read as there is room for, or as there is: never more than fits, never less
/// than could be read, and the first bytes of what there is.
pub proof fn reading_fills_the_room(unread: Seq<u8>, bytes: Seq<u8>, room: nat)
    ensures
        room == 0 ==> (buffered_read(unread, room) matches Some(read) && read.len() == 0),
        room > 0 ==> (buffered_read(unread, room) is None <==> unread.len() == 0),
        buffered_read(unread, room) matches Some(read) ==> {
            &&& read.len() <= room && read.len() <= unread.len()
            &&& read.len() == room || read.len() == unread.len()
            &&& read + after_buffered_read(unread, room) == unread
        },
        item_read(Polled::Ready(Some(bytes)), room) matches Polled::Ready(read) && {
            &&& read.len() <= room && read.len() <= bytes.len()
            &&& read.len() == room || read.len() == bytes.len()
            &&& read + after_item_read(Polled::Ready(Some(bytes)), room) == bytes
        },
        item_read(Polled::Ready(None), room) matches Polled::Ready(read) && read.len() == 0,
        item_read(Polled::Pending, room) is Pending,
        after_item_read(Polled::Ready(None), room).len() == 0,
        after_item_read(Polled::Pending, room).len() == 0,
{
    if let Some(read) = buffered_read(unread, room) {
        assert(read + after_buffered_read(unread, room) =~= unread);
    }
    if let Polled::Ready(read) = item_read(Polled::Ready(Some(bytes)), room) {
        assert(read + after_item_read(Polled::Ready(Some(bytes)), room) =~= bytes);
    }
}

} // verus!
