//! Pointers at the screen's edge toward things out of sight.
use vstd::prelude::*;
use crate::entity::EntityId;
use crate::vector::Vector;

verus! {

/// An indicator and its text label, pointing either at something in the
/// local region or, along a fixed direction, at another system.
#[derive(Clone, Copy, Debug, PartialEq, Eq, Structural)]
pub enum DistantIndicator {
    Local { indicator: EntityId, indicator_text: EntityId },
    System { indicator: EntityId, indicator_text: EntityId, direction: Vector, visible: bool },
}

impl DistantIndicator {
    /// An indicator of something in the local region.
    pub fn new_local(indicator: EntityId, indicator_text: EntityId) -> (r: DistantIndicator)
        ensures
            r == (DistantIndicator::Local { indicator, indicator_text }),
    {
        DistantIndicator::Local { indicator, indicator_text }
    }

    /// An indicator of another system along `direction`, hidden at first.
    pub fn new_system(indicator: EntityId, indicator_text: EntityId, direction: Vector) -> (r: DistantIndicator)
        ensures
            r == (DistantIndicator::System { indicator, indicator_text, direction, visible: false }),
    {
        DistantIndicator::System { indicator, indicator_text, direction, visible: false }
    }

    /// The indicator entity, of either kind.
    pub fn get_indicator(&self) -> (r: EntityId)
        ensures
            r == (match *self {
                DistantIndicator::Local { indicator, .. } => indicator,
                DistantIndicator::System { indicator, .. } => indicator,
            }),
    {
        match self {
            DistantIndicator::Local { indicator, .. } => *indicator,
            DistantIndicator::System { indicator, .. } => *indicator,
        }
    }

    /// The text label entity, of either kind.
    pub fn get_indicator_text(&self) -> (r: EntityId)
        ensures
            r == (match *self {
                DistantIndicator::Local { indicator_text, .. } => indicator_text,
                DistantIndicator::System { indicator_text, .. } => indicator_text,
            }),
    {
        match self {
            DistantIndicator::Local { indicator_text, .. } => *indicator_text,
            DistantIndicator::System { indicator_text, .. } => *indicator_text,
        }
    }
}

} // verus!
