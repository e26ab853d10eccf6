//! Moving bytes on in pieces.

use vstd::prelude::*;

verus! {

/// How many bytes are read at a time.
pub const CHUNK_SIZE: usize = 128;

/// The piece to move on, where the first `len` bytes of `buf` were read. No byte at all
/// is the end.
pub open spec fn chunk_of(buf: Seq<u8>, len: nat) -> Option<Seq<u8>> {
    if len == 0 {
        None
    } else if len <= buf.len() {
        Some(buf.take(len as int))
    } else {
        Some(buf)
    }
}

/// The piece to move on, where the first `len` bytes of `buf` were read.
pub fn chunk(buf: Vec<u8>, len: usize) -> (r: Option<Vec<u8>>)
    ensures
        match r {
            Some(piece) => chunk_of(buf@, len as nat) == Some(piece@),
            None => chunk_of(buf@, len as nat) is None,
        },
        r is None <==> len == 0,
        r matches Some(piece) ==> piece@ == (if len <= buf@.len() {
            buf@.take(len as int)
        } else {
            buf@
        }),
{
    if len == 0 {
        return None;
    }
    let mut piece = buf;
    piece.truncate(len);
    Some(piece)
}

/// One turn of a task that reads bytes and sends them on.
pub enum ReadTurn {
    /// The first so many bytes of the buffer were read, and then sent, or could not be.
    Read(Seq<u8>, nat, bool),
    /// Reading failed.
    Failed(Seq<char>),
}

/// Whether bytes were read in the turn, and sent on.
pub open spec fn moves(turn: ReadTurn) -> bool {
    turn matches ReadTurn::Read(_, len, sent) && len > 0 && sent
}

/// The bytes that were read in the turn.
pub open spec fn read_bytes(turn: ReadTurn) -> Seq<u8> {
    match turn {
        ReadTurn::Read(buf, len, _) => if len <= buf.len() {
            buf.take(len as int)
        } else {
            buf
        },
        ReadTurn::Failed(_) => Seq::empty(),
    }
}

/// The bytes that were read in all turns, one after the other.
pub open spec fn all_read(turns: Seq<ReadTurn>) -> Seq<u8>
    decreases turns.len(),
{
    if turns.len() == 0 {
        Seq::empty()
    } else {
        read_bytes(turns[0]) + all_read(turns.drop_first())
    }
}

/// What came of a task that moves bytes.
#[verifier::ext_equal]
pub struct Moved<E> {
    /// The bytes that were moved.
    pub bytes: Seq<u8>,
    /// How many turns it took.
    pub turns: nat,
    /// How it ended, if it did.
    pub result: Option<Result<(), E>>,
}

impl<E> Moved<E> {
    /// With a turn before, in which bytes were moved.
    pub open spec fn after(self, bytes: Seq<u8>) -> Moved<E> {
        Moved { bytes: bytes + self.bytes, turns: self.turns + 1, result: self.result }
    }
}

/// What came of a task that ended in its first turn.
pub open spec fn ended_at_once<E>(result: Result<(), E>) -> Moved<E> {
    Moved { bytes: Seq::empty(), turns: 1, result: Some(result) }
}

/// What came of a task without any turn.
pub open spec fn not_begun<E>() -> Moved<E> {
    Moved { bytes: Seq::empty(), turns: 0, result: None }
}

/// The piece that is moved on is the bytes that were read: so many as were read, each of
/// them the byte in its place. Nothing is moved on exactly where nothing was read.
pub proof fn piece_is_what_was_read(buf: Seq<u8>, len: nat)
    requires
        len <= buf.len(),
    ensures
        chunk_of(buf, len) is None <==> len == 0,
        chunk_of(buf, len) matches Some(piece) ==> piece.len() == len && forall|i: int|
            0 <= i < len ==> #[trigger] piece[i] == buf[i],
{
}

/// No byte is added where more is said to be read than the buffer holds.
pub proof fn piece_is_in_the_buffer(buf: Seq<u8>, len: nat)
    requires
        len > buf.len(),
    ensures
        chunk_of(buf, len) == Some(buf),
{
}

/// The bytes of two runs in a row are the bytes of the first, then those of the second,
/// and one turn gives the first bytes of its buffer, as many as were read.
pub proof fn bytes_of_runs_in_a_row(a: Seq<ReadTurn>, b: Seq<ReadTurn>)
    ensures
        all_read(a + b) == all_read(a) + all_read(b),
        a.len() == 1 ==> (a[0] matches ReadTurn::Read(buf, len, _) ==> len <= buf.len()
            ==> all_read(a) == buf.take(len as int)),
    decreases a.len(),
{
    if a.len() == 0 {
        assert(a + b =~= b);
        assert(all_read(a) + all_read(b) =~= all_read(b));
    } else {
        assert((a + b).drop_first() =~= a.drop_first() + b);
        bytes_of_runs_in_a_row(a.drop_first(), b);
        assert(all_read(a + b) =~= all_read(a) + all_read(b));
        if a.len() == 1 {
            assert(all_read(a.drop_first()) =~= Seq::<u8>::empty());
            assert(all_read(a) =~= read_bytes(a[0]));
        }
    }
}

} // verus!
