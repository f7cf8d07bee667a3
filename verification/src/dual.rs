use vstd::prelude::*;

use crate::session::Leg;

verus! {

/// A pair of upstream sinks fed by one client session: dual fan-out for
/// replicated delivery.  Operations on it are sequential and fail-fast:
/// primary first, then secondary.
#[derive(Debug)]
pub struct DualSink {
    pub client_id: Vec<u8>,
    pub primary_sink: Leg,
    pub secondary_sink: Leg,
}

impl DualSink {
    pub fn new(client_id: Vec<u8>, primary_sink: Leg, secondary_sink: Leg) -> (s: DualSink)
        ensures
            s.client_id == client_id,
            s.primary_sink == primary_sink,
            s.secondary_sink == secondary_sink,
    {
        DualSink { client_id, primary_sink, secondary_sink }
    }
}

} // verus!
