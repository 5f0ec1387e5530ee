//! The service handle around the agent: one explicitly owned engine
//! instance whose lifetime the embedding server controls.  The wire layer —
//! argument decoding, transport, and the calls into the platform
//! attestation primitive — lives outside the library and drives the agent
//! through this handle.

use vstd::prelude::*;

use crate::agent::{Agent, AgentView};
use crate::container::ContainerView;
use crate::event::EventView;
use crate::measurement::Measurement;

verus! {

/// The measurement service: owns the one agent instance.
pub struct Service {
    pub agent: Agent,
}

impl Service {
    /// A service around a freshly initialised agent that owns the given
    /// node scope: no containers yet, no ingested entries.
    pub fn new(measurement: Measurement) -> (s: Service)
        ensures
            s.agent@ == (AgentView {
                measurement: measurement@,
                containers: Seq::<ContainerView>::empty(),
                event_logs: Seq::<EventView>::empty(),
            }),
    {
        let agent = Agent { measurement, containers: Vec::new(), event_logs: Vec::new() };
        proof {
            assert(agent@.containers =~= Seq::<ContainerView>::empty());
            assert(agent@.event_logs =~= Seq::<EventView>::empty());
        }
        Service { agent }
    }
}

} // verus!
