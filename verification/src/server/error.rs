//! What can go wrong on the server.

use vstd::prelude::*;
use vstd::string::*;

use crate::ctext::NulError;
use crate::ctext::NulFault;

verus! {

/// An error of the server. Where the system reported it, its text is kept.
#[derive(Debug, PartialEq, Eq)]
pub enum P9cpuServerError {
    /// The program could not be started.
    SpawnFail(String),
    /// No session has the id.
    SessionNotExist,
    /// Reading or writing failed.
    IoErr(String),
    /// A session has the id already.
    DuplicateId,
    /// The program ended without an exit code.
    NoReturnCode,
    /// The program could not be waited for.
    CommandError(String),
    /// No terminal could be opened.
    OpenPtyFail(String),
    /// A file descriptor could not be cloned.
    FdCloneFail(String),
    /// A directory could not be made.
    MkDir(String),
    /// A table line makes no sense.
    InvalidFsTab(String),
    /// No listener could be bound.
    BindFail(String),
    /// A file system of the client is asked for, but not forwarded.
    No9pPort,
    /// A NUL stands in a text for the kernel.
    StringContainsNull(NulError),
    /// The other end of a channel is gone.
    ChannelClosed,
}

/// The value of a [`P9cpuServerError`].
pub enum ServerFault {
    SpawnFail(Seq<char>),
    SessionNotExist,
    IoErr(Seq<char>),
    DuplicateId,
    NoReturnCode,
    CommandError(Seq<char>),
    OpenPtyFail(Seq<char>),
    FdCloneFail(Seq<char>),
    MkDir(Seq<char>),
    InvalidFsTab(Seq<char>),
    BindFail(Seq<char>),
    No9pPort,
    StringContainsNull(NulFault),
    ChannelClosed,
}

impl View for P9cpuServerError {
    type V = ServerFault;

    open spec fn view(&self) -> ServerFault {
        match self {
            P9cpuServerError::SpawnFail(e) => ServerFault::SpawnFail(e@),
            P9cpuServerError::SessionNotExist => ServerFault::SessionNotExist,
            P9cpuServerError::IoErr(e) => ServerFault::IoErr(e@),
            P9cpuServerError::DuplicateId => ServerFault::DuplicateId,
            P9cpuServerError::NoReturnCode => ServerFault::NoReturnCode,
            P9cpuServerError::CommandError(e) => ServerFault::CommandError(e@),
            P9cpuServerError::OpenPtyFail(e) => ServerFault::OpenPtyFail(e@),
            P9cpuServerError::FdCloneFail(e) => ServerFault::FdCloneFail(e@),
            P9cpuServerError::MkDir(e) => ServerFault::MkDir(e@),
            P9cpuServerError::InvalidFsTab(e) => ServerFault::InvalidFsTab(e@),
            P9cpuServerError::BindFail(e) => ServerFault::BindFail(e@),
            P9cpuServerError::No9pPort => ServerFault::No9pPort,
            P9cpuServerError::StringContainsNull(e) => ServerFault::StringContainsNull(e@),
            P9cpuServerError::ChannelClosed => ServerFault::ChannelClosed,
        }
    }
}

fn with_cause(what: &str, cause: &str) -> (r: String)
    ensures
        r@ == what@ + cause@,
{
    let mut out = what.to_owned();
    out.append(cause);
    out
}

impl ServerFault {
    /// What went wrong, in words.
    pub open spec fn text(self) -> Seq<char> {
        match self {
            ServerFault::SpawnFail(e) => "Failed to spawn: "@ + e,
            ServerFault::SessionNotExist => "Session does not exist"@,
            ServerFault::IoErr(e) => "IO Error: "@ + e,
            ServerFault::DuplicateId => "Duplicate session id"@,
            ServerFault::NoReturnCode => "Command exited without return code."@,
            ServerFault::CommandError(e) => "Command error: "@ + e,
            ServerFault::OpenPtyFail(_) => "Cannot open pty device"@,
            ServerFault::FdCloneFail(e) => "Cannot clone file descriptor: "@ + e,
            ServerFault::MkDir(e) => "Cannot create directory: "@ + e,
            ServerFault::InvalidFsTab(e) => "Invalid FsTab: "@ + e,
            ServerFault::BindFail(e) => "Cannot bind listener: "@ + e,
            ServerFault::No9pPort => "9p forward not setup"@,
            ServerFault::StringContainsNull(e) => "String contains null: "@ + e.text(),
            ServerFault::ChannelClosed => "Channel closed"@,
        }
    }
}

impl P9cpuServerError {
    /// Says what went wrong.
    pub fn message(&self) -> (r: String)
        ensures
            r@ == self@.text(),
    {
        match self {
            P9cpuServerError::SpawnFail(e) => with_cause("Failed to spawn: ", e.as_str()),
            P9cpuServerError::SessionNotExist => "Session does not exist".to_owned(),
            P9cpuServerError::IoErr(e) => with_cause("IO Error: ", e.as_str()),
            P9cpuServerError::DuplicateId => "Duplicate session id".to_owned(),
            P9cpuServerError::NoReturnCode => "Command exited without return code.".to_owned(),
            P9cpuServerError::CommandError(e) => with_cause("Command error: ", e.as_str()),
            P9cpuServerError::OpenPtyFail(_) => "Cannot open pty device".to_owned(),
            P9cpuServerError::FdCloneFail(e) => with_cause(
                "Cannot clone file descriptor: ",
                e.as_str(),
            ),
            P9cpuServerError::MkDir(e) => with_cause("Cannot create directory: ", e.as_str()),
            P9cpuServerError::InvalidFsTab(e) => with_cause("Invalid FsTab: ", e.as_str()),
            P9cpuServerError::BindFail(e) => with_cause("Cannot bind listener: ", e.as_str()),
            P9cpuServerError::No9pPort => "9p forward not setup".to_owned(),
            P9cpuServerError::StringContainsNull(e) => with_cause(
                "String contains null: ",
                e.message().as_str(),
            ),
            P9cpuServerError::ChannelClosed => "Channel closed".to_owned(),
        }
    }
}

impl vstd::std_specs::convert::FromSpecImpl<NulError> for P9cpuServerError {
    open spec fn obeys_from_spec() -> bool {
        true
    }

    open spec fn from_spec(e: NulError) -> P9cpuServerError {
        P9cpuServerError::StringContainsNull(e)
    }
}

impl From<NulError> for P9cpuServerError {
    fn from(e: NulError) -> (r: P9cpuServerError) {
        P9cpuServerError::StringContainsNull(e)
    }
}

/// An error that the system reported is told with the words of its cause, whole and at the
/// end, after words that say what failed; only of a terminal that cannot be opened the
/// cause is not told.
pub proof fn server_errors_tell_their_cause(e: Seq<char>, nul: NulFault)
    ensures
        ServerFault::SpawnFail(e).text() == "Failed to spawn: "@ + e,
        ServerFault::IoErr(e).text() == "IO Error: "@ + e,
        ServerFault::CommandError(e).text() == "Command error: "@ + e,
        ServerFault::OpenPtyFail(e).text() == "Cannot open pty device"@,
        ServerFault::FdCloneFail(e).text() == "Cannot clone file descriptor: "@ + e,
        ServerFault::MkDir(e).text() == "Cannot create directory: "@ + e,
        ServerFault::InvalidFsTab(e).text() == "Invalid FsTab: "@ + e,
        ServerFault::BindFail(e).text() == "Cannot bind listener: "@ + e,
        ServerFault::StringContainsNull(nul).text() == "String contains null: "@ + nul.text(),
        ServerFault::SessionNotExist.text() == "Session does not exist"@,
        ServerFault::DuplicateId.text() == "Duplicate session id"@,
        ServerFault::NoReturnCode.text() == "Command exited without return code."@,
        ServerFault::No9pPort.text() == "9p forward not setup"@,
        ServerFault::ChannelClosed.text() == "Channel closed"@,
{
}

} // verus!
