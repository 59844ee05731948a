//! Reduction of the raw game-event log to the searchable-event taxonomy.
//!
//! Exactly two raw event kinds survive the reduction: a charge deployment
//! becomes an uber event, and an object destruction becomes a
//! building-destroyed event when its numeric building-type code is one of
//! the three known categories.  Every other raw event is dropped, and the
//! output keeps the raw log's order.

use vstd::prelude::*;

verus! {

/// The reduced building categories a destruction event can carry.
#[derive(Debug, Clone, Copy, PartialEq, Eq, Structural)]
pub enum RawBuildingType {
    Dispenser,
    Teleporter,
    SentryGun,
}

impl RawBuildingType {
    /// The category a raw numeric building-type code maps to, if any:
    /// only codes 0 through 2 are known.
    pub open spec fn try_from_spec(value: u16) -> Option<RawBuildingType> {
        match value {
            0 => Some(RawBuildingType::Dispenser),
            1 => Some(RawBuildingType::Teleporter),
            2 => Some(RawBuildingType::SentryGun),
            _ => None,
        }
    }

    /// Decodes a raw numeric building-type code; an unknown code gives
    /// `None`.
    pub fn try_from(value: u16) -> (r: Option<RawBuildingType>)
        ensures
            r == Self::try_from_spec(value),
    {
        match value {
            0 => Some(RawBuildingType::Dispenser),
            1 => Some(RawBuildingType::Teleporter),
            2 => Some(RawBuildingType::SentryGun),
            _ => None,
        }
    }
}

/// A raw game event, reduced to the fields the searchable taxonomy
/// reads.  Only the two kinds that can survive the reduction carry
/// fields; every other raw event kind is `Other`.
#[derive(Debug, Clone, PartialEq)]
pub enum RawGameEvent {
    ObjectDestroyed {
        attacker: u16,
        assister: u16,
        user_id: u16,
        weapon: String,
        object_type: u16,
    },
    ChargeDeployed { user_id: u16, target_id: u16 },
    Other,
}

/// A searchable event: the reduced, typed record used for seeking within
/// the round.
#[derive(Debug, Clone, PartialEq)]
pub enum SearchableEvent {
    Uber { user_id: u16, target_id: u16, tick: u32 },
    BuildingDestroyed {
        attacker_id: u16,
        assister_id: u16,
        victim_id: u16,
        weapon: String,
        building_type: RawBuildingType,
        tick: u32,
    },
}

/// The searchable event a raw event reduces to, if any: a charge
/// deployment becomes an uber event; an object destruction with a known
/// building-type code becomes a building-destroyed event; everything
/// else, including destructions of unknown building types, is dropped.
pub open spec fn from_event_spec(tick: u32, event: RawGameEvent) -> Option<SearchableEvent> {
    match event {
        RawGameEvent::ObjectDestroyed { attacker, assister, user_id, weapon, object_type } => {
            match RawBuildingType::try_from_spec(object_type) {
                Some(building_type) => Some(
                    SearchableEvent::BuildingDestroyed {
                        attacker_id: attacker,
                        assister_id: assister,
                        victim_id: user_id,
                        weapon,
                        building_type,
                        tick,
                    },
                ),
                None => None,
            }
        },
        RawGameEvent::ChargeDeployed { user_id, target_id } => Some(
            SearchableEvent::Uber { user_id, target_id, tick },
        ),
        RawGameEvent::Other => None,
    }
}

impl SearchableEvent {
    /// Reduces one raw event at the given tick, returning `Some` exactly
    /// when the event is a charge deployment or a destruction of a known
    /// building type.
    pub fn from_event(tick: u32, event: &RawGameEvent) -> (r: Option<SearchableEvent>)
        ensures
            r == from_event_spec(tick, *event),
    {
        match event {
            RawGameEvent::ObjectDestroyed { attacker, assister, user_id, weapon, object_type } => {
                match RawBuildingType::try_from(*object_type) {
                    Some(building_type) => Some(
                        SearchableEvent::BuildingDestroyed {
                            attacker_id: *attacker,
                            assister_id: *assister,
                            victim_id: *user_id,
                            weapon: weapon.clone(),
                            building_type,
                            tick,
                        },
                    ),
                    None => None,
                }
            },
            RawGameEvent::ChargeDeployed { user_id, target_id } => Some(
                SearchableEvent::Uber { user_id: *user_id, target_id: *target_id, tick },
            ),
            RawGameEvent::Other => None,
        }
    }
}

/// The searchable events a whole raw log reduces to, in the log's own
/// order: a stable filter, no reordering.
pub open spec fn reduce_events_spec(log: Seq<(u32, RawGameEvent)>) -> Seq<SearchableEvent>
    decreases log.len(),
{
    if log.len() == 0 {
        Seq::empty()
    } else {
        let rest = reduce_events_spec(log.drop_last());
        match from_event_spec(log.last().0, log.last().1) {
            Some(e) => rest.push(e),
            None => rest,
        }
    }
}

/// Reduces a raw event log, keeping the order of the events that
/// survive.
pub fn reduce_events(log: &Vec<(u32, RawGameEvent)>) -> (r: Vec<SearchableEvent>)
    ensures
        r@ == reduce_events_spec(log@),
{
    let mut out: Vec<SearchableEvent> = Vec::new();
    let mut i: usize = 0;
    while i < log.len()
        invariant
            i <= log@.len(),
            out@ == reduce_events_spec(log@.subrange(0, i as int)),
        decreases log@.len() - i,
    {
        let entry = &log[i];
        match SearchableEvent::from_event(entry.0, &entry.1) {
            Some(e) => out.push(e),
            None => (),
        }
        proof {
            assert(log@.subrange(0, i + 1 as int).drop_last() =~= log@.subrange(0, i as int));
            assert(log@.subrange(0, i + 1 as int).last() == log@[i as int]);
        }
        i = i + 1;
    }
    proof {
        assert(log@.subrange(0, log@.len() as int) =~= log@);
    }
    out
}

} // verus!
