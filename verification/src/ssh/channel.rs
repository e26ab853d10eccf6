//! What goes over the channel of a session.

use vstd::prelude::*;

verus! {

/// The number by which a channel marks error output.
pub const EXT_STDERR: u32 = 1;

/// The number by which a channel marks the text of an error that ended the wait for the
/// command.
pub const EXT_WAIT_ERROR: u32 = 2;

/// A message of the server over the channel of a session.
#[derive(Debug, PartialEq, Eq)]
pub enum ChannelMsg {
    /// Output of the command.
    Data(Vec<u8>),
    /// Bytes that are marked by a number.
    ExtendedData(Vec<u8>, u32),
    /// How the command ended.
    ExitStatus(u32),
    /// Anything else.
    Other,
}

/// The value of a [`ChannelMsg`].
pub enum MsgView {
    Data(Seq<u8>),
    ExtendedData(Seq<u8>, u32),
    ExitStatus(u32),
    Other,
}

impl View for ChannelMsg {
    type V = MsgView;

    open spec fn view(&self) -> MsgView {
        match self {
            ChannelMsg::Data(data) => MsgView::Data(data@),
            ChannelMsg::ExtendedData(data, ext) => MsgView::ExtendedData(data@, *ext),
            ChannelMsg::ExitStatus(status) => MsgView::ExitStatus(*status),
            ChannelMsg::Other => MsgView::Other,
        }
    }
}

/// The exit code that a status stands for: the same 32 bits, with a sign.
pub open spec fn code_of_status(status: u32) -> int {
    if status < 0x8000_0000 {
        status as int
    } else {
        status - 0x1_0000_0000
    }
}

/// The status that stands for an exit code: the same 32 bits, without a sign.
pub open spec fn status_of_code(code: i32) -> int {
    if code >= 0 {
        code as int
    } else {
        code + 0x1_0000_0000
    }
}

/// The exit code that a status stands for.
pub fn code_from_status(status: u32) -> (r: i32)
    ensures
        r == code_of_status(status),
{
    if status < 0x8000_0000 {
        status as i32
    } else {
        (status as i64 - 0x1_0000_0000) as i32
    }
}

/// The status that stands for an exit code.
pub fn status_from_code(code: i32) -> (r: u32)
    ensures
        r == status_of_code(code),
{
    if code >= 0 {
        code as u32
    } else {
        (code as i64 + 0x1_0000_0000) as u32
    }
}

/// Codes and statuses are the same 32 bits: the two differ by a multiple of two to the
/// power of 32, so each comes back from the other, and codes from zero on stay as they are.
pub proof fn codes_and_statuses_are_the_same_bits(code: i32, status: u32)
    ensures
        0 <= status_of_code(code) <= u32::MAX,
        (status_of_code(code) - code) % 0x1_0000_0000 == 0,
        i32::MIN <= code_of_status(status) <= i32::MAX,
        (code_of_status(status) - status) % 0x1_0000_0000 == 0,
        code_of_status(status_of_code(code) as u32) == code,
        status_of_code(code_of_status(status) as i32) == status,
        code >= 0 ==> status_of_code(code) == code,
{
}

/// Error output is marked by one, and the text of an error by two.
pub proof fn marks_of_extended_data()
    ensures
        EXT_STDERR == 1,
        EXT_WAIT_ERROR == 2,
{
}

} // verus!
