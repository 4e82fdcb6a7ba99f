//! Star systems on the travel map.
use vstd::prelude::*;
use crate::vector::Vector;

verus! {

/// Where a system lies on the travel map.
#[derive(Clone, Copy, Debug, PartialEq, Eq, Structural)]
pub struct SystemLocation {
    pub location: Vector,
}

impl SystemLocation {
    /// The system at `location`.
    pub fn new(location: Vector) -> (r: SystemLocation)
        ensures
            r.location == location,
    {
        SystemLocation { location }
    }
}

} // verus!
