//! What can go wrong on the client.

use vstd::prelude::*;
use vstd::string::*;

use crate::text;

verus! {

/// An error of the client. Where it came from elsewhere, its text is kept.
#[derive(Debug, PartialEq, Eq)]
pub enum P9cpuClientError {
    /// There is no command to wait for.
    NotStarted,
    /// The command ended with this code.
    NonZeroExitCode(i32),
    /// A command was started already.
    AlreadyStarted,
    /// Reading or writing failed.
    IoErr(String),
    /// The connection to the server failed.
    Inner(String),
    /// The other end of a channel is gone.
    ChannelClosed,
}

/// The value of a [`P9cpuClientError`].
pub enum ClientFault {
    NotStarted,
    NonZeroExitCode(i32),
    AlreadyStarted,
    IoErr(Seq<char>),
    Inner(Seq<char>),
    ChannelClosed,
}

impl View for P9cpuClientError {
    type V = ClientFault;

    open spec fn view(&self) -> ClientFault {
        match self {
            P9cpuClientError::NotStarted => ClientFault::NotStarted,
            P9cpuClientError::NonZeroExitCode(code) => ClientFault::NonZeroExitCode(*code),
            P9cpuClientError::AlreadyStarted => ClientFault::AlreadyStarted,
            P9cpuClientError::IoErr(e) => ClientFault::IoErr(e@),
            P9cpuClientError::Inner(e) => ClientFault::Inner(e@),
            P9cpuClientError::ChannelClosed => ClientFault::ChannelClosed,
        }
    }
}

impl ClientFault {
    /// What went wrong, in words.
    pub open spec fn text(self) -> Seq<char> {
        match self {
            ClientFault::NotStarted => "Command not started"@,
            ClientFault::NonZeroExitCode(code) => "Command exits with "@ + text::signed_decimal(
                code as int,
            ),
            ClientFault::AlreadyStarted => "Command already started"@,
            ClientFault::IoErr(e) => "IO Error "@ + e,
            ClientFault::Inner(e) => "Inner "@ + e,
            ClientFault::ChannelClosed => "Channel closed."@,
        }
    }
}

impl P9cpuClientError {
    /// Says what went wrong.
    pub fn message(&self) -> (r: String)
        ensures
            r@ == self@.text(),
    {
        match self {
            P9cpuClientError::NotStarted => "Command not started".to_owned(),
            P9cpuClientError::NonZeroExitCode(code) => {
                let mut out = "Command exits with ".to_owned();
                out.append(text::signed_decimal_text(*code).as_str());
                out
            },
            P9cpuClientError::AlreadyStarted => "Command already started".to_owned(),
            P9cpuClientError::IoErr(e) => {
                let mut out = "IO Error ".to_owned();
                out.append(e.as_str());
                out
            },
            P9cpuClientError::Inner(e) => {
                let mut out = "Inner ".to_owned();
                out.append(e.as_str());
                out
            },
            P9cpuClientError::ChannelClosed => "Channel closed.".to_owned(),
        }
    }
}

/// Why the wait for a command did not end well.
#[derive(Debug, PartialEq, Eq)]
pub enum WaitError {
    /// An error of the client.
    Client(P9cpuClientError),
    /// An error of the connection, in its own words.
    Connection(String),
}

/// The value of a [`WaitError`].
pub enum WaitFault {
    Client(ClientFault),
    Connection(Seq<char>),
}

impl View for WaitError {
    type V = WaitFault;

    open spec fn view(&self) -> WaitFault {
        match self {
            WaitError::Client(e) => WaitFault::Client(e@),
            WaitError::Connection(e) => WaitFault::Connection(e@),
        }
    }
}

impl WaitFault {
    /// What went wrong, in words.
    pub open spec fn text(self) -> Seq<char> {
        match self {
            WaitFault::Client(e) => e.text(),
            WaitFault::Connection(e) => e,
        }
    }
}

impl WaitError {
    /// Says what went wrong.
    pub fn message(&self) -> (r: String)
        ensures
            r@ == self@.text(),
    {
        match self {
            WaitError::Client(e) => e.message(),
            WaitError::Connection(e) => e.as_str().to_owned(),
        }
    }
}

/// An error that came from elsewhere is told with the words of its cause, whole and at the
/// end, after words that say what failed. An exit code is told with its sign.
pub proof fn client_errors_tell_their_cause(e: Seq<char>, code: i32)
    ensures
        ClientFault::IoErr(e).text() == "IO Error "@ + e,
        ClientFault::Inner(e).text() == "Inner "@ + e,
        ClientFault::NonZeroExitCode(code).text() == "Command exits with "@ + text::signed_decimal(
            code as int,
        ),
        ClientFault::NotStarted.text() == "Command not started"@,
        ClientFault::AlreadyStarted.text() == "Command already started"@,
        ClientFault::ChannelClosed.text() == "Channel closed."@,
        WaitFault::Connection(e).text() == e,
        forall|f: ClientFault| #[trigger] WaitFault::Client(f).text() == f.text(),
{
}

} // verus!
