//! How a call that is refused is answered.

use vstd::prelude::*;

use crate::server::error;
use crate::server::error::P9cpuServerError;

verus! {

/// What kind of failure a status reports.
#[derive(Debug, Clone, Copy, PartialEq, Eq, Structural)]
pub enum StatusCode {
    /// The request makes no sense.
    InvalidArgument,
    /// The server failed.
    Internal,
}

/// The answer to a call that is refused.
#[derive(Debug, PartialEq, Eq)]
pub struct Status {
    pub code: StatusCode,
    pub message: String,
}

/// The value of a [`Status`].
#[verifier::ext_equal]
pub struct StatusView {
    pub code: StatusCode,
    pub message: Seq<char>,
}

impl View for Status {
    type V = StatusView;

    open spec fn view(&self) -> StatusView {
        StatusView { code: self.code, message: self.message@ }
    }
}

/// The answer to a request that makes no sense.
pub open spec fn invalid_argument(message: Seq<char>) -> StatusView {
    StatusView { code: StatusCode::InvalidArgument, message }
}

/// The answer to a request on which the server failed.
pub open spec fn internal(fault: error::ServerFault) -> StatusView {
    StatusView { code: StatusCode::Internal, message: fault.text() }
}

impl Status {
    /// Refuses a request that makes no sense.
    pub fn invalid_argument(message: String) -> (r: Status)
        ensures
            r@ == invalid_argument(message@),
    {
        Status { code: StatusCode::InvalidArgument, message }
    }
}

// A `String` has no spec constructor: what `from` gives is stated, over the views, in
// its own `ensures`.
impl vstd::std_specs::convert::FromSpecImpl<P9cpuServerError> for Status {
    open spec fn obeys_from_spec() -> bool {
        false
    }

    open spec fn from_spec(e: P9cpuServerError) -> Status {
        arbitrary()
    }
}

impl From<P9cpuServerError> for Status {
    /// Refuses a request on which the server failed, with the words of the error.
    fn from(e: P9cpuServerError) -> (r: Status)
        ensures
            r@ == internal(e@),
    {
        Status { code: StatusCode::Internal, message: e.message() }
    }
}

/// A request that makes no sense is answered with its reason, and one on which the server
/// failed with the words of the failure; the two are told apart by their codes.
pub proof fn refusals_tell_their_reason(reason: Seq<char>, fault: error::ServerFault)
    ensures
        invalid_argument(reason).code == StatusCode::InvalidArgument,
        invalid_argument(reason).message == reason,
        internal(fault).code == StatusCode::Internal,
        internal(fault).message == fault.text(),
{
}

} // verus!
