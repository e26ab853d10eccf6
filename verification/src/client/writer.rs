//! Writing bytes to a channel of byte strings.

use vstd::prelude::*;
use vstd::slice::*;
use vstd::string::*;

use crate::poll::Polled;

verus! {

/// Why bytes cannot be written: the pipe is broken.
#[derive(Debug, Clone, Copy, PartialEq, Eq, Structural)]
pub enum PipeError {
    /// The writer was shut down.
    SenderDown,
    /// The other end of the channel is gone.
    ChannelClosed,
}

impl PipeError {
    /// What is wrong, in words.
    pub open spec fn text(self) -> Seq<char> {
        match self {
            PipeError::SenderDown => "Sender is down."@,
            PipeError::ChannelClosed => "Channel is closed."@,
        }
    }

    /// Says what is wrong.
    pub fn message(&self) -> (r: String)
        ensures
            r@ == self.text(),
    {
        match self {
            PipeError::SenderDown => "Sender is down.".to_owned(),
            PipeError::ChannelClosed => "Channel is closed.".to_owned(),
        }
    }
}

/// Writes bytes to the sending end of a channel.
#[derive(Debug)]
pub struct SenderWriter<T> {
    /// The sending end, until the writer is shut down.
    pub inner: Option<T>,
}

/// How a write starts.
#[derive(Debug, Clone, Copy, PartialEq, Eq, Structural)]
pub enum WriteStart {
    /// It is done: so many bytes were written.
    Done(usize),
    /// It fails.
    Fail(PipeError),
    /// A place in the channel is to be reserved.
    Reserve,
}

/// How a write goes on once a place in the channel was asked for.
#[derive(Debug, PartialEq, Eq)]
pub enum WriteReserved {
    /// There is no place yet.
    Pending,
    /// The write fails.
    Fail(PipeError),
    /// These bytes are to be sent.
    Send(Vec<u8>),
}

impl<T> SenderWriter<T> {
    /// A writer to `sender`.
    pub fn new(sender: T) -> (r: SenderWriter<T>)
        ensures
            r.inner == Some(sender),
    {
        SenderWriter { inner: Some(sender) }
    }

    /// How writing `len` bytes starts.
    pub open spec fn write_start(self, len: nat) -> WriteStart {
        if len == 0 {
            WriteStart::Done(0)
        } else if self.inner is None {
            WriteStart::Fail(PipeError::SenderDown)
        } else {
            WriteStart::Reserve
        }
    }

    /// Starts to write: without bytes there is nothing to do, whatever the state.
    pub fn poll_write(&self, buf: &[u8]) -> (r: WriteStart)
        ensures
            r == self.write_start(buf@.len()),
    {
        if buf.len() == 0 {
            WriteStart::Done(0)
        } else if self.inner.is_none() {
            WriteStart::Fail(PipeError::SenderDown)
        } else {
            WriteStart::Reserve
        }
    }

    /// Goes on with the answer to the request for a place in the channel: whether
    /// there is one.
    pub fn poll_reserved(&self, place: Polled<bool>, buf: &[u8]) -> (r: WriteReserved)
        ensures
            match place {
                Polled::Pending => r is Pending,
                Polled::Ready(false) => r == WriteReserved::Fail(PipeError::ChannelClosed),
                Polled::Ready(true) => r matches WriteReserved::Send(item) && item@ == buf@,
            },
    {
        match place {
            Polled::Pending => WriteReserved::Pending,
            Polled::Ready(false) => WriteReserved::Fail(PipeError::ChannelClosed),
            Polled::Ready(true) => WriteReserved::Send(slice_to_vec(buf)),
        }
    }

    /// The answer to a write whose bytes were sent, or could not be.
    pub fn write_sent(&self, sent: bool, len: usize) -> (r: Result<usize, PipeError>)
        ensures
            r == (if sent {
                Ok::<usize, PipeError>(len)
            } else {
                Err(PipeError::ChannelClosed)
            }),
    {
        if sent {
            Ok(len)
        } else {
            Err(PipeError::ChannelClosed)
        }
    }

    /// The answer to a flush.
    pub open spec fn flush_answer(self) -> Result<(), PipeError> {
        if self.inner is Some {
            Ok(())
        } else {
            Err(PipeError::SenderDown)
        }
    }

    /// The answer to a shutdown.
    pub open spec fn shutdown_answer(self) -> Result<T, PipeError> {
        match self.inner {
            Some(sender) => Ok(sender),
            None => Err(PipeError::SenderDown),
        }
    }

    /// Flushes: bytes that were sent are out.
    pub fn poll_flush(&self) -> (r: Result<(), PipeError>)
        ensures
            r == self.flush_answer(),
    {
        if self.inner.is_some() {
            Ok(())
        } else {
            Err(PipeError::SenderDown)
        }
    }

    /// Shuts the writer down, and gives the sending end, which is to be closed.
    pub fn poll_shutdown(&mut self) -> (r: Result<T, PipeError>)
        ensures
            r == old(self).shutdown_answer(),
            final(self).inner is None,
    {
        match self.inner.take() {
            Some(sender) => Ok(sender),
            None => Err(PipeError::SenderDown),
        }
    }
}

/// A writer that was shut down writes nothing any more, and says so each time.
pub proof fn shutdown_is_final<T>(w: SenderWriter<T>, len: nat)
    requires
        w.inner is None,
    ensures
        len > 0 ==> w.write_start(len) == WriteStart::Fail(PipeError::SenderDown),
        w.flush_answer() == Err::<(), PipeError>(PipeError::SenderDown),
        w.shutdown_answer() == Err::<T, PipeError>(PipeError::SenderDown),
{
}

/// A writer that was not shut down asks for a place in the channel for any bytes, flushes,
/// and can be shut down, which gives its sending end. Without bytes there is nothing to
/// write, whatever the state.
pub proof fn open_writer_writes<T>(w: SenderWriter<T>, sender: T, len: nat)
    ensures
        w.write_start(0) == WriteStart::Done(0),
        w.inner == Some(sender) ==> {
            &&& len > 0 ==> w.write_start(len) == WriteStart::Reserve
            &&& w.flush_answer() is Ok
            &&& w.shutdown_answer() == Ok::<T, PipeError>(sender)
        },
{
}

/// The words for a broken pipe.
pub proof fn broken_pipes_are_told_apart()
    ensures
        PipeError::SenderDown.text() == "Sender is down."@,
        PipeError::ChannelClosed.text() == "Channel is closed."@,
{
}

} // verus!
