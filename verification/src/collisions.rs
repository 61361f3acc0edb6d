//! Bookkeeping of active collisions.
//!
//! The physics engine emits an ordered stream of start/stop collision
//! events between pairs of bodies, named here by their entity ids. An
//! entity that tracks its contacts owns an [`ActiveCollisions`] map from
//! each currently-touching partner to the event that began the contact: a
//! start inserts the partner, a stop removes it, and events that do not
//! involve the owner leave the map alone. The set is observational only; it
//! never blocks movement.

use vstd::prelude::*;
use std::collections::HashMap;

verus! {

broadcast use vstd::std_specs::hash::group_hash_axioms;

/// One collision event between the bodies with the given entity ids.
#[derive(Clone, Copy, PartialEq, Eq, Structural, Debug)]
pub enum CollisionEvent {
    Started(u64, u64),
    Stopped(u64, u64),
}

/// The map of an entity's currently-touching partners, keyed by partner
/// entity id, each holding the event that began the contact.
pub struct ActiveCollisions(pub HashMap<u64, CollisionEvent>);

impl View for ActiveCollisions {
    type V = Map<u64, CollisionEvent>;

    open spec fn view(&self) -> Map<u64, CollisionEvent> {
        self.0@
    }
}

impl ActiveCollisions {
    /// An entity that touches nothing yet.
    pub fn new() -> (ac: ActiveCollisions)
        ensures
            ac@ == Map::<u64, CollisionEvent>::empty(),
    {
        ActiveCollisions(HashMap::new())
    }

    /// Whether the partner with id `other` is currently touching.
    pub fn is_touching(&self, other: u64) -> (b: bool)
        ensures
            b == self@.contains_key(other),
    {
        self.0.contains_key(&other)
    }

    /// How many partners are currently touching.
    pub fn len(&self) -> (n: usize)
        ensures
            n == self@.len(),
    {
        self.0.len()
    }
}

/// Whether the event names the entity `owner` on either side.
pub open spec fn involves(ev: CollisionEvent, owner: u64) -> bool {
    match ev {
        CollisionEvent::Started(a, b) => a == owner || b == owner,
        CollisionEvent::Stopped(a, b) => a == owner || b == owner,
    }
}

/// The side of the event that is not `owner` (the owner itself when both
/// sides are the owner).
pub open spec fn partner_of(ev: CollisionEvent, owner: u64) -> u64 {
    match ev {
        CollisionEvent::Started(a, b) => if a == owner {
            b
        } else {
            a
        },
        CollisionEvent::Stopped(a, b) => if a == owner {
            b
        } else {
            a
        },
    }
}

/// Effect of one event on an owner's map: a start involving the owner
/// inserts the partner with the event, a stop involving the owner removes
/// the partner, and any other event is a no-op.
pub open spec fn apply_event_spec(
    m: Map<u64, CollisionEvent>,
    owner: u64,
    ev: CollisionEvent,
) -> Map<u64, CollisionEvent> {
    if involves(ev, owner) {
        match ev {
            CollisionEvent::Started(_, _) => m.insert(partner_of(ev, owner), ev),
            CollisionEvent::Stopped(_, _) => m.remove(partner_of(ev, owner)),
        }
    } else {
        m
    }
}

/// Effect of a whole event sequence, applied in order.
pub open spec fn drain_spec(
    m: Map<u64, CollisionEvent>,
    owner: u64,
    events: Seq<CollisionEvent>,
) -> Map<u64, CollisionEvent>
    decreases events.len(),
{
    if events.len() == 0 {
        m
    } else {
        apply_event_spec(drain_spec(m, owner, events.drop_last()), owner, events.last())
    }
}

/// Mutates the owner's map by one observed event.
pub fn apply_collision_event(ac: &mut ActiveCollisions, owner: u64, ev: &CollisionEvent)
    ensures
        final(ac)@ == apply_event_spec(old(ac)@, owner, *ev),
        !involves(*ev, owner) ==> final(ac)@ == old(ac)@,
{
    match ev {
        CollisionEvent::Started(a, b) => {
            if *a == owner {
                ac.0.insert(*b, *ev);
            } else if *b == owner {
                ac.0.insert(*a, *ev);
            }
        },
        CollisionEvent::Stopped(a, b) => {
            if *a == owner {
                ac.0.remove(b);
            } else if *b == owner {
                ac.0.remove(a);
            }
        },
    }
}

/// Drains one tick's event queue into the owner's map, in the order the
/// physics engine produced the events.
pub fn active_collisions(ac: &mut ActiveCollisions, owner: u64, events: &Vec<CollisionEvent>)
    ensures
        final(ac)@ == drain_spec(old(ac)@, owner, events@),
{
    let ghost m0 = ac@;
    let mut i: usize = 0;
    while i < events.len()
        invariant
            i <= events@.len(),
            ac@ == drain_spec(m0, owner, events@.take(i as int)),
        decreases events@.len() - i,
    {
        apply_collision_event(ac, owner, &events[i]);
        proof {
            let pre = events@.take(i as int);
            let post = events@.take(i + 1);
            assert(post.drop_last() =~= pre);
            assert(post.last() == events@[i as int]);
        }
        i = i + 1;
    }
    proof {
        assert(events@.take(events@.len() as int) =~= events@);
    }
}

/// Whether, across the events observed so far, the owner saw a start of
/// contact with partner `k` not followed by a matching stop.
pub open spec fn started_unstopped(owner: u64, events: Seq<CollisionEvent>, k: u64) -> bool
    decreases events.len(),
{
    if events.len() == 0 {
        false
    } else {
        let last = events.last();
        if involves(last, owner) && partner_of(last, owner) == k {
            last is Started
        } else {
            started_unstopped(owner, events.drop_last(), k)
        }
    }
}

/// Membership of the bookkeeping map equals start-without-later-stop over
/// the whole event prefix observed so far: starting from an empty map, a
/// partner is present exactly when its last relevant event was a start.
pub proof fn lemma_membership_matches_events(owner: u64, events: Seq<CollisionEvent>, k: u64)
    ensures
        drain_spec(Map::empty(), owner, events).contains_key(k) == started_unstopped(
            owner,
            events,
            k,
        ),
    decreases events.len(),
{
    if events.len() != 0 {
        lemma_membership_matches_events(owner, events.drop_last(), k);
    }
}

/// What a present entry holds: starting from an empty map, a tracked
/// partner's entry is the start event that began the contact — the last
/// start involving the owner and that partner.
pub proof fn lemma_stored_event_is_the_start(owner: u64, events: Seq<CollisionEvent>, k: u64)
    requires
        drain_spec(Map::empty(), owner, events).contains_key(k),
    ensures
        ({
            let ev = drain_spec(Map::empty(), owner, events)[k];
            &&& ev is Started
            &&& involves(ev, owner)
            &&& partner_of(ev, owner) == k
        }),
    decreases events.len(),
{
    if events.len() != 0 {
        let prefix = events.drop_last();
        let last = events.last();
        if !(involves(last, owner) && partner_of(last, owner) == k) {
            lemma_stored_event_is_the_start(owner, prefix, k);
        }
    }
}

/// Events that involve no tracked entity are no-ops: if none of the events
/// involves the owner, the whole drain leaves the map unchanged.
pub proof fn lemma_untracked_events_are_noops(
    m: Map<u64, CollisionEvent>,
    owner: u64,
    events: Seq<CollisionEvent>,
)
    requires
        forall|i: int| 0 <= i < events.len() ==> !involves(#[trigger] events[i], owner),
    ensures
        drain_spec(m, owner, events) == m,
    decreases events.len(),
{
    if events.len() != 0 {
        lemma_untracked_events_are_noops(m, owner, events.drop_last());
    }
}

} // verus!
