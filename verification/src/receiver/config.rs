//! What a receiver announces: its relays and services.

use vstd::prelude::*;

use crate::receiver::constants::{IDNFLG_SERVICEMAP_DSID, IDNVAL_STYPE_LAPRO};

verus! {

/// A relay that services can be attached to.
#[derive(Clone, Debug)]
pub struct Relay {
    pub relay_number: u8,
    pub name: String,
}

/// A service offered to senders.
#[derive(Clone, Debug)]
pub struct Service {
    pub service_id: u8,
    pub service_type: u8,
    pub flags: u8,
    pub relay_number: u8,
    pub name: String,
}

impl Service {
    /// A laser projector attached to the unit itself, the default of its type.
    pub fn laser_projector(service_id: u8, name: &str) -> (r: Service)
        ensures
            r.service_id == service_id,
            r.service_type == IDNVAL_STYPE_LAPRO,
            r.flags == IDNFLG_SERVICEMAP_DSID,
            r.relay_number == 0,
            r.name@ == name@,
    {
        Service {
            service_id,
            service_type: IDNVAL_STYPE_LAPRO,
            flags: IDNFLG_SERVICEMAP_DSID,
            relay_number: 0,
            name: name.to_owned(),
        }
    }
}

} // verus!
