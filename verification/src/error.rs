use vstd::prelude::*;

verus! {

/// The single opaque gateway error.
///
/// Backend-selection failure, upstream-connect failure, TLS material that
/// cannot be loaded, and any forwarding send/ack failure all surface as this
/// one kind; callers that need diagnostics log at the point of failure.
#[derive(Clone, Copy, Debug, PartialEq, Eq, Structural)]
pub struct ServerError;

impl From<()> for ServerError {
    fn from(_u: ()) -> (r: ServerError) {
        ServerError
    }
}

impl vstd::std_specs::convert::FromSpecImpl<()> for ServerError {
    open spec fn obeys_from_spec() -> bool {
        true
    }

    open spec fn from_spec(_u: ()) -> ServerError {
        ServerError
    }
}

} // verus!
