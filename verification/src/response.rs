use vstd::prelude::*;
use crate::cargo_helper::ProbeResponse;

verus! {

/// The status code a server answers with when it honours a byte-range request
/// and returns only the requested sub-range.
pub const STATUS_PARTIAL_CONTENT: u16 = 206;

/// Trait that represents some checks on the status of a response.
pub trait CheckResponseStatus {
    /// Whether the response carries specifically the partial-content status.
    fn check_partialcontent_status(&self) -> bool;

    /// Whether the response carries any success status.
    fn is_ok(&self) -> bool;
}

impl CheckResponseStatus for ProbeResponse {
    /// Only the exact partial-content status counts: a server answering a
    /// ranged request with a plain success does not support partial content.
    fn check_partialcontent_status(&self) -> (r: bool)
        ensures
            r == (self.status == STATUS_PARTIAL_CONTENT),
    {
        self.status == STATUS_PARTIAL_CONTENT
    }

    /// Any status of the success class.
    fn is_ok(&self) -> (r: bool)
        ensures
            r == (200 <= self.status < 300),
    {
        200 <= self.status && self.status < 300
    }
}

} // verus!
