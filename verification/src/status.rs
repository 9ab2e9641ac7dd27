//! The classes of failure that a caller of the service is told about.

use vstd::prelude::*;

verus! {

/// How a failed request is reported to the proxy that made it.
#[derive(Clone, Copy, Debug, PartialEq, Eq, Structural)]
pub enum StatusCode {
    /// The request was malformed; nothing was changed.
    InvalidArgument,
    /// Something the request names is unknown or not yet configured.
    NotFound,
    /// The service itself could not do its part.
    Internal,
}

} // verus!
