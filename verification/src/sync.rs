//! Hub/spoke state replication.
//!
//! The hub appends a stream event for every mutation; a subscribed spoke
//! applies each event, and on joining pulls a full snapshot.  Both kinds
//! of application are idempotent upserts keyed by entity id, because the
//! snapshot and concurrently arriving stream events may come in any
//! order.

use vstd::prelude::*;
use crate::state::{
    StateModel, StreamEvent, StreamEventV, TicketingState, event_index, events_unique,
    lemma_event_index_is, listings_unique, model_wf, tickets_unique,
    lemma_event_index_props, lemma_listing_index_is, lemma_listing_index_props,
    lemma_ticket_index_is, lemma_ticket_index_props, listing_index, ticket_index,
    upsert_event_seq, upsert_listing_seq, upsert_ticket_seq,
};
use crate::types::{Event, EventV, Listing, ListingV, Ticket, TicketV, TicketingError, event_wf, ticket_wf};

verus! {

/// Whether a stream event carries an internally valid record.
pub open spec fn stream_event_wf(e: StreamEventV) -> bool {
    match e {
        StreamEventV::EventCreated { event } => event_wf(event),
        StreamEventV::TicketMinted { ticket } => ticket_wf(ticket),
        StreamEventV::ListingCreated { listing } => true,
        StreamEventV::ListingUpdated { listing } => true,
    }
}

/// The state after applying one stream event: an upsert of the carried
/// record, keyed by its id.
pub open spec fn apply_event_model(m: StateModel, e: StreamEventV) -> StateModel {
    match e {
        StreamEventV::EventCreated { event } => StateModel {
            events: upsert_event_seq(m.events, event),
            ..m
        },
        StreamEventV::TicketMinted { ticket } => StateModel {
            tickets: upsert_ticket_seq(m.tickets, ticket),
            ..m
        },
        StreamEventV::ListingCreated { listing } => StateModel {
            listings: upsert_listing_seq(m.listings, listing),
            ..m
        },
        StreamEventV::ListingUpdated { listing } => StateModel {
            listings: upsert_listing_seq(m.listings, listing),
            ..m
        },
    }
}

impl TicketingState {
    /// Applies one broadcast stream event to this chain's replicated
    /// records; an event carrying an out-of-range record is rejected
    /// whole.
    pub fn apply_stream_event(&mut self, ev: StreamEvent) -> (r: Result<(), TicketingError>)
        requires
            old(self).wf(),
        ensures
            final(self).wf(),
            stream_event_wf(ev@) ==> r is Ok && final(self)@ == apply_event_model(old(self)@, ev@),
            !stream_event_wf(ev@) ==> r == Err::<(), TicketingError>(
                TicketingError::InvalidArgument,
            ) && final(self)@ == old(self)@,
    {
        match ev {
            StreamEvent::EventCreated { event } => {
                if event.royalty_bps > crate::royalty::MAX_BPS || event.max_tickets == 0
                    || event.minted_tickets > event.max_tickets {
                    return Err(TicketingError::InvalidArgument);
                }
                self.upsert_event(event);
                Ok(())
            },
            StreamEvent::TicketMinted { ticket } => {
                if ticket.royalty_bps > crate::royalty::MAX_BPS {
                    return Err(TicketingError::InvalidArgument);
                }
                self.upsert_ticket(ticket);
                Ok(())
            },
            StreamEvent::ListingCreated { listing } => {
                self.upsert_listing(listing);
                Ok(())
            },
            StreamEvent::ListingUpdated { listing } => {
                self.upsert_listing(listing);
                Ok(())
            },
        }
    }
}

/// All catalog records of a snapshot upserted in order.
pub open spec fn apply_events_fold(events: Seq<EventV>, snap: Seq<EventV>) -> Seq<EventV>
    decreases snap.len(),
{
    if snap.len() == 0 {
        events
    } else {
        apply_events_fold(upsert_event_seq(events, snap[0]), snap.drop_first())
    }
}

/// All ticket records of a snapshot upserted in order.
pub open spec fn apply_tickets_fold(tickets: Seq<TicketV>, snap: Seq<TicketV>) -> Seq<TicketV>
    decreases snap.len(),
{
    if snap.len() == 0 {
        tickets
    } else {
        apply_tickets_fold(upsert_ticket_seq(tickets, snap[0]), snap.drop_first())
    }
}

/// All listing records of a snapshot upserted in order.
pub open spec fn apply_listings_fold(listings: Seq<ListingV>, snap: Seq<ListingV>) -> Seq<ListingV>
    decreases snap.len(),
{
    if snap.len() == 0 {
        listings
    } else {
        apply_listings_fold(upsert_listing_seq(listings, snap[0]), snap.drop_first())
    }
}

/// The state after applying a full snapshot: every carried record
/// upserted, keyed by its id; nothing else moves.
pub open spec fn apply_snapshot_model(
    m: StateModel,
    events: Seq<EventV>,
    tickets: Seq<TicketV>,
    listings: Seq<ListingV>,
) -> StateModel {
    StateModel {
        events: apply_events_fold(m.events, events),
        tickets: apply_tickets_fold(m.tickets, tickets),
        listings: apply_listings_fold(m.listings, listings),
        ..m
    }
}

/// Whether every record of a snapshot is internally valid.
pub open spec fn snapshot_wf(events: Seq<EventV>, tickets: Seq<TicketV>) -> bool {
    &&& forall|i: int| 0 <= i < events.len() ==> event_wf(#[trigger] events[i])
    &&& forall|i: int| 0 <= i < tickets.len() ==> ticket_wf(#[trigger] tickets[i])
}

/// Unrolling one step of an event-snapshot application from the back.
proof fn lemma_events_fold_snoc(events: Seq<EventV>, snap: Seq<EventV>, i: int)
    requires
        0 <= i < snap.len(),
    ensures
        apply_events_fold(events, snap.take(i + 1)) == upsert_event_seq(
            apply_events_fold(events, snap.take(i)),
            snap[i],
        ),
    decreases i,
{
    let e2 = upsert_event_seq(events, snap[0]);
    if i == 0 {
        assert(snap.take(1) =~= seq![snap[0]]);
        assert(snap.take(0) =~= Seq::<EventV>::empty());
        assert(apply_events_fold(events, snap.take(0)) == events);
        assert(snap.take(1)[0] == snap[0]);
        assert(apply_events_fold(events, snap.take(1)) == apply_events_fold(e2, snap.take(1).drop_first()));
        assert(snap.take(1).drop_first() =~= Seq::<EventV>::empty());
        assert(apply_events_fold(e2, Seq::<EventV>::empty()) == e2);
    } else {
        assert(snap.take(i + 1).drop_first() =~= snap.drop_first().take(i));
        assert(snap.take(i).drop_first() =~= snap.drop_first().take(i - 1));
        assert(snap.take(i + 1)[0] == snap[0]);
        assert(snap.take(i)[0] == snap[0]);
        assert(apply_events_fold(events, snap.take(i + 1)) == apply_events_fold(e2, snap.drop_first().take(i)));
        assert(apply_events_fold(events, snap.take(i)) == apply_events_fold(e2, snap.drop_first().take(i - 1)));
        lemma_events_fold_snoc(e2, snap.drop_first(), i - 1);
        assert(snap.drop_first()[i - 1] == snap[i]);
    }
}

/// Unrolling one step of a ticket-snapshot application from the back.
proof fn lemma_tickets_fold_snoc(tickets: Seq<TicketV>, snap: Seq<TicketV>, i: int)
    requires
        0 <= i < snap.len(),
    ensures
        apply_tickets_fold(tickets, snap.take(i + 1)) == upsert_ticket_seq(
            apply_tickets_fold(tickets, snap.take(i)),
            snap[i],
        ),
    decreases i,
{
    let e2 = upsert_ticket_seq(tickets, snap[0]);
    if i == 0 {
        assert(snap.take(1) =~= seq![snap[0]]);
        assert(snap.take(0) =~= Seq::<TicketV>::empty());
        assert(apply_tickets_fold(tickets, snap.take(0)) == tickets);
        assert(snap.take(1)[0] == snap[0]);
        assert(apply_tickets_fold(tickets, snap.take(1)) == apply_tickets_fold(e2, snap.take(1).drop_first()));
        assert(snap.take(1).drop_first() =~= Seq::<TicketV>::empty());
        assert(apply_tickets_fold(e2, Seq::<TicketV>::empty()) == e2);
    } else {
        assert(snap.take(i + 1).drop_first() =~= snap.drop_first().take(i));
        assert(snap.take(i).drop_first() =~= snap.drop_first().take(i - 1));
        assert(snap.take(i + 1)[0] == snap[0]);
        assert(snap.take(i)[0] == snap[0]);
        assert(apply_tickets_fold(tickets, snap.take(i + 1)) == apply_tickets_fold(e2, snap.drop_first().take(i)));
        assert(apply_tickets_fold(tickets, snap.take(i)) == apply_tickets_fold(e2, snap.drop_first().take(i - 1)));
        lemma_tickets_fold_snoc(e2, snap.drop_first(), i - 1);
        assert(snap.drop_first()[i - 1] == snap[i]);
    }
}

/// Unrolling one step of a listing-snapshot application from the back.
proof fn lemma_listings_fold_snoc(listings: Seq<ListingV>, snap: Seq<ListingV>, i: int)
    requires
        0 <= i < snap.len(),
    ensures
        apply_listings_fold(listings, snap.take(i + 1)) == upsert_listing_seq(
            apply_listings_fold(listings, snap.take(i)),
            snap[i],
        ),
    decreases i,
{
    let e2 = upsert_listing_seq(listings, snap[0]);
    if i == 0 {
        assert(snap.take(1) =~= seq![snap[0]]);
        assert(snap.take(0) =~= Seq::<ListingV>::empty());
        assert(apply_listings_fold(listings, snap.take(0)) == listings);
        assert(snap.take(1)[0] == snap[0]);
        assert(apply_listings_fold(listings, snap.take(1)) == apply_listings_fold(e2, snap.take(1).drop_first()));
        assert(snap.take(1).drop_first() =~= Seq::<ListingV>::empty());
        assert(apply_listings_fold(e2, Seq::<ListingV>::empty()) == e2);
    } else {
        assert(snap.take(i + 1).drop_first() =~= snap.drop_first().take(i));
        assert(snap.take(i).drop_first() =~= snap.drop_first().take(i - 1));
        assert(snap.take(i + 1)[0] == snap[0]);
        assert(snap.take(i)[0] == snap[0]);
        assert(apply_listings_fold(listings, snap.take(i + 1)) == apply_listings_fold(e2, snap.drop_first().take(i)));
        assert(apply_listings_fold(listings, snap.take(i)) == apply_listings_fold(e2, snap.drop_first().take(i - 1)));
        lemma_listings_fold_snoc(e2, snap.drop_first(), i - 1);
        assert(snap.drop_first()[i - 1] == snap[i]);
    }
}

impl TicketingState {
    /// Applies a full hub snapshot: every carried record is upserted,
    /// keyed by its id.  A snapshot holding any out-of-range record is
    /// rejected whole, so the write stays all-or-nothing.
    #[verifier::loop_isolation(false)]
    pub fn apply_snapshot(
        &mut self,
        events: Vec<Event>,
        tickets: Vec<Ticket>,
        listings: Vec<Listing>,
    ) -> (r: Result<(), TicketingError>)
        requires
            old(self).wf(),
        ensures
            final(self).wf(),
            ({
                let se = events@.map_values(|e: Event| e@);
                let st = tickets@.map_values(|t: Ticket| t@);
                let sl = listings@.map_values(|l: Listing| l@);
                if snapshot_wf(se, st) {
                    r is Ok && final(self)@ == apply_snapshot_model(old(self)@, se, st, sl)
                } else {
                    &&& r == Err::<(), TicketingError>(TicketingError::InvalidArgument)
                    &&& final(self)@ == old(self)@
                }
            }),
    {
        let ghost se = events@.map_values(|e: Event| e@);
        let ghost st = tickets@.map_values(|t: Ticket| t@);
        let ghost sl = listings@.map_values(|l: Listing| l@);
        let ne = events.len();
        let mut i: usize = 0;
        while i < ne
            invariant
                ne == events.len(),
                i <= ne,
                forall|j: int| 0 <= j < i ==> event_wf(#[trigger] se[j]),
            decreases ne - i,
        {
            if events[i].royalty_bps > crate::royalty::MAX_BPS || events[i].max_tickets == 0
                || events[i].minted_tickets > events[i].max_tickets {
                proof {
                    assert(!event_wf(se[i as int]));
                }
                return Err(TicketingError::InvalidArgument);
            }
            i = i + 1;
            proof {
                assert(event_wf(se[i - 1]));
            }
        }
        let nt = tickets.len();
        let mut i: usize = 0;
        while i < nt
            invariant
                nt == tickets.len(),
                i <= nt,
                forall|j: int| 0 <= j < i ==> ticket_wf(#[trigger] st[j]),
            decreases nt - i,
        {
            if tickets[i].royalty_bps > crate::royalty::MAX_BPS {
                proof {
                    assert(!ticket_wf(st[i as int]));
                }
                return Err(TicketingError::InvalidArgument);
            }
            i = i + 1;
            proof {
                assert(ticket_wf(st[i - 1]));
            }
        }
        let ghost m0 = self@;
        let mut i: usize = 0;
        while i < ne
            invariant
                ne == events.len(),
                i <= ne,
                self.wf(),
                self@ == (StateModel {
                    events: apply_events_fold(m0.events, se.take(i as int)),
                    ..m0
                }),
            decreases ne - i,
        {
            proof {
                lemma_events_fold_snoc(m0.events, se, i as int);
            }
            self.upsert_event(events[i].clone());
            i = i + 1;
            proof {
                assert(self@ =~= (StateModel {
                    events: apply_events_fold(m0.events, se.take(i as int)),
                    ..m0
                }));
            }
        }
        proof {
            assert(se.take(ne as int) =~= se);
        }
        let ghost m1 = self@;
        let mut i: usize = 0;
        while i < nt
            invariant
                nt == tickets.len(),
                i <= nt,
                self.wf(),
                self@ == (StateModel {
                    tickets: apply_tickets_fold(m1.tickets, st.take(i as int)),
                    ..m1
                }),
            decreases nt - i,
        {
            proof {
                lemma_tickets_fold_snoc(m1.tickets, st, i as int);
            }
            self.upsert_ticket(tickets[i].clone());
            i = i + 1;
            proof {
                assert(self@ =~= (StateModel {
                    tickets: apply_tickets_fold(m1.tickets, st.take(i as int)),
                    ..m1
                }));
            }
        }
        proof {
            assert(st.take(nt as int) =~= st);
        }
        let ghost m2 = self@;
        let nl = listings.len();
        let mut i: usize = 0;
        while i < nl
            invariant
                nl == listings.len(),
                i <= nl,
                self.wf(),
                self@ == (StateModel {
                    listings: apply_listings_fold(m2.listings, sl.take(i as int)),
                    ..m2
                }),
            decreases nl - i,
        {
            proof {
                lemma_listings_fold_snoc(m2.listings, sl, i as int);
            }
            self.upsert_listing(listings[i].clone());
            i = i + 1;
            proof {
                assert(self@ =~= (StateModel {
                    listings: apply_listings_fold(m2.listings, sl.take(i as int)),
                    ..m2
                }));
            }
        }
        proof {
            assert(sl.take(nl as int) =~= sl);
            assert(self@ =~= apply_snapshot_model(m0, se, st, sl));
        }
        Ok(())
    }
}

/// Copies a catalog for a snapshot message.
#[verifier::loop_isolation(false)]
pub fn clone_events_vec(v: &Vec<Event>) -> (r: Vec<Event>)
    ensures
        r@.map_values(|e: Event| e@) == v@.map_values(|e: Event| e@),
{
    let mut r: Vec<Event> = Vec::new();
    let n = v.len();
    let mut i: usize = 0;
    while i < n
        invariant
            i <= n,
            r@.len() == i,
            forall|j: int| 0 <= j < i ==> (#[trigger] r@[j])@ == v@[j]@,
        decreases n - i,
    {
        r.push(v[i].clone());
        i = i + 1;
    }
    proof {
        assert(r@.map_values(|e: Event| e@) =~= v@.map_values(|e: Event| e@));
    }
    r
}

/// Copies the ticket records for a snapshot message.
#[verifier::loop_isolation(false)]
pub fn clone_tickets_vec(v: &Vec<Ticket>) -> (r: Vec<Ticket>)
    ensures
        r@.map_values(|t: Ticket| t@) == v@.map_values(|t: Ticket| t@),
{
    let mut r: Vec<Ticket> = Vec::new();
    let n = v.len();
    let mut i: usize = 0;
    while i < n
        invariant
            i <= n,
            r@.len() == i,
            forall|j: int| 0 <= j < i ==> (#[trigger] r@[j])@ == v@[j]@,
        decreases n - i,
    {
        r.push(v[i].clone());
        i = i + 1;
    }
    proof {
        assert(r@.map_values(|t: Ticket| t@) =~= v@.map_values(|t: Ticket| t@));
    }
    r
}

/// Copies the listings for a snapshot message.
#[verifier::loop_isolation(false)]
pub fn clone_listings_vec(v: &Vec<Listing>) -> (r: Vec<Listing>)
    ensures
        r@.map_values(|l: Listing| l@) == v@.map_values(|l: Listing| l@),
{
    let mut r: Vec<Listing> = Vec::new();
    let n = v.len();
    let mut i: usize = 0;
    while i < n
        invariant
            i <= n,
            r@.len() == i,
            forall|j: int| 0 <= j < i ==> (#[trigger] r@[j])@ == v@[j]@,
        decreases n - i,
    {
        r.push(v[i].clone());
        i = i + 1;
    }
    proof {
        assert(r@.map_values(|l: Listing| l@) =~= v@.map_values(|l: Listing| l@));
    }
    r
}

/// Upserting the same event record twice is the same as upserting it
/// once.
pub proof fn lemma_upsert_event_idempotent(events: Seq<EventV>, e: EventV)
    ensures
        upsert_event_seq(upsert_event_seq(events, e), e) == upsert_event_seq(events, e),
{
    lemma_event_index_props(events, e.id);
    let i = event_index(events, e.id);
    let u = upsert_event_seq(events, e);
    if i >= 0 {
        assert forall|j: int| 0 <= j < i implies (#[trigger] u[j]).id != e.id by {
            assert(u[j] == events[j]);
        }
        lemma_event_index_is(u, e.id, i);
        assert(u.update(i, e) =~= u);
    } else {
        let n = events.len() as int;
        assert forall|j: int| 0 <= j < n implies (#[trigger] u[j]).id != e.id by {
            assert(u[j] == events[j]);
        }
        lemma_event_index_is(u, e.id, n);
        assert(u.update(n, e) =~= u);
    }
}

/// Upserting the same ticket record twice is the same as upserting it
/// once.
pub proof fn lemma_upsert_ticket_idempotent(tickets: Seq<TicketV>, t: TicketV)
    ensures
        upsert_ticket_seq(upsert_ticket_seq(tickets, t), t) == upsert_ticket_seq(tickets, t),
{
    lemma_ticket_index_props(tickets, t.ticket_id);
    let i = ticket_index(tickets, t.ticket_id);
    let u = upsert_ticket_seq(tickets, t);
    if i >= 0 {
        assert forall|j: int| 0 <= j < i implies (#[trigger] u[j]).ticket_id != t.ticket_id by {
            assert(u[j] == tickets[j]);
        }
        lemma_ticket_index_is(u, t.ticket_id, i);
        assert(u.update(i, t) =~= u);
    } else {
        let n = tickets.len() as int;
        assert forall|j: int| 0 <= j < n implies (#[trigger] u[j]).ticket_id != t.ticket_id by {
            assert(u[j] == tickets[j]);
        }
        lemma_ticket_index_is(u, t.ticket_id, n);
        assert(u.update(n, t) =~= u);
    }
}

/// Upserting the same listing record twice is the same as upserting it
/// once.
pub proof fn lemma_upsert_listing_idempotent(listings: Seq<ListingV>, l: ListingV)
    ensures
        upsert_listing_seq(upsert_listing_seq(listings, l), l) == upsert_listing_seq(listings, l),
{
    lemma_listing_index_props(listings, l.ticket_id);
    let i = listing_index(listings, l.ticket_id);
    let u = upsert_listing_seq(listings, l);
    if i >= 0 {
        assert forall|j: int| 0 <= j < i implies (#[trigger] u[j]).ticket_id != l.ticket_id by {
            assert(u[j] == listings[j]);
        }
        lemma_listing_index_is(u, l.ticket_id, i);
        assert(u.update(i, l) =~= u);
    } else {
        let n = listings.len() as int;
        assert forall|j: int| 0 <= j < n implies (#[trigger] u[j]).ticket_id != l.ticket_id by {
            assert(u[j] == listings[j]);
        }
        lemma_listing_index_is(u, l.ticket_id, n);
        assert(u.update(n, l) =~= u);
    }
}

/// Upserting keeps catalog keys unique.
proof fn lemma_upsert_event_unique(events: Seq<EventV>, e: EventV)
    requires
        events_unique(events),
    ensures
        events_unique(upsert_event_seq(events, e)),
        upsert_event_seq(events, e).len() >= events.len(),
{
    lemma_event_index_props(events, e.id);
}

/// Upserting keeps ticket keys unique.
proof fn lemma_upsert_ticket_unique(tickets: Seq<TicketV>, t: TicketV)
    requires
        tickets_unique(tickets),
    ensures
        tickets_unique(upsert_ticket_seq(tickets, t)),
        upsert_ticket_seq(tickets, t).len() >= tickets.len(),
{
    lemma_ticket_index_props(tickets, t.ticket_id);
}

/// Upserting keeps listing keys unique.
proof fn lemma_upsert_listing_unique(listings: Seq<ListingV>, l: ListingV)
    requires
        listings_unique(listings),
    ensures
        listings_unique(upsert_listing_seq(listings, l)),
        upsert_listing_seq(listings, l).len() >= listings.len(),
{
    lemma_listing_index_props(listings, l.ticket_id);
}

/// A record whose id no snapshot record carries sits untouched through
/// a whole snapshot application.
proof fn lemma_events_fold_stable(events: Seq<EventV>, snap: Seq<EventV>, k: int)
    requires
        events_unique(events),
        0 <= k < events.len(),
        forall|j: int| 0 <= j < snap.len() ==> (#[trigger] snap[j]).id != events[k].id,
    ensures
        events_unique(apply_events_fold(events, snap)),
        apply_events_fold(events, snap).len() >= events.len(),
        apply_events_fold(events, snap)[k] == events[k],
    decreases snap.len(),
{
    if snap.len() > 0 {
        let s0 = snap[0];
        let e2 = upsert_event_seq(events, s0);
        lemma_upsert_event_unique(events, s0);
        lemma_event_index_props(events, s0.id);
        assert(e2[k] == events[k]);
        assert(forall|j: int|
            0 <= j < snap.drop_first().len() ==> (#[trigger] snap.drop_first()[j]).id
                != e2[k].id);
        lemma_events_fold_stable(e2, snap.drop_first(), k);
    }
}

/// A record whose id no snapshot record carries sits untouched through
/// a whole snapshot application.
proof fn lemma_tickets_fold_stable(tickets: Seq<TicketV>, snap: Seq<TicketV>, k: int)
    requires
        tickets_unique(tickets),
        0 <= k < tickets.len(),
        forall|j: int|
            0 <= j < snap.len() ==> (#[trigger] snap[j]).ticket_id != tickets[k].ticket_id,
    ensures
        tickets_unique(apply_tickets_fold(tickets, snap)),
        apply_tickets_fold(tickets, snap).len() >= tickets.len(),
        apply_tickets_fold(tickets, snap)[k] == tickets[k],
    decreases snap.len(),
{
    if snap.len() > 0 {
        let s0 = snap[0];
        let t2 = upsert_ticket_seq(tickets, s0);
        lemma_upsert_ticket_unique(tickets, s0);
        lemma_ticket_index_props(tickets, s0.ticket_id);
        assert(t2[k] == tickets[k]);
        assert(forall|j: int|
            0 <= j < snap.drop_first().len() ==> (#[trigger] snap.drop_first()[j]).ticket_id
                != t2[k].ticket_id);
        lemma_tickets_fold_stable(t2, snap.drop_first(), k);
    }
}

/// A record whose id no snapshot record carries sits untouched through
/// a whole snapshot application.
proof fn lemma_listings_fold_stable(listings: Seq<ListingV>, snap: Seq<ListingV>, k: int)
    requires
        listings_unique(listings),
        0 <= k < listings.len(),
        forall|j: int|
            0 <= j < snap.len() ==> (#[trigger] snap[j]).ticket_id != listings[k].ticket_id,
    ensures
        listings_unique(apply_listings_fold(listings, snap)),
        apply_listings_fold(listings, snap).len() >= listings.len(),
        apply_listings_fold(listings, snap)[k] == listings[k],
    decreases snap.len(),
{
    if snap.len() > 0 {
        let s0 = snap[0];
        let l2 = upsert_listing_seq(listings, s0);
        lemma_upsert_listing_unique(listings, s0);
        lemma_listing_index_props(listings, s0.ticket_id);
        assert(l2[k] == listings[k]);
        assert(forall|j: int|
            0 <= j < snap.drop_first().len() ==> (#[trigger] snap.drop_first()[j]).ticket_id
                != l2[k].ticket_id);
        lemma_listings_fold_stable(l2, snap.drop_first(), k);
    }
}

/// Applying a snapshot with unique keys twice to a unique-keyed catalog
/// is the same as applying it once.
pub proof fn lemma_apply_events_fold_idempotent(events: Seq<EventV>, snap: Seq<EventV>)
    requires
        events_unique(events),
        forall|a: int, b: int| 0 <= a < b < snap.len() ==> (#[trigger] snap[a]).id != (
        #[trigger] snap[b]).id,
    ensures
        apply_events_fold(apply_events_fold(events, snap), snap) == apply_events_fold(
            events,
            snap,
        ),
    decreases snap.len(),
{
    if snap.len() > 0 {
        let s0 = snap[0];
        let e2 = upsert_event_seq(events, s0);
        lemma_upsert_event_unique(events, s0);
        lemma_event_index_props(events, s0.id);
        let f = apply_events_fold(e2, snap.drop_first());
        // the record s0 sits at a fixed slot of e2 and survives the rest
        let k: int = if event_index(events, s0.id) >= 0 {
            event_index(events, s0.id)
        } else {
            events.len() as int
        };
        assert(e2[k] == s0);
        assert(forall|j: int|
            0 <= j < snap.drop_first().len() ==> #[trigger] snap.drop_first()[j] == snap[j + 1]);
        lemma_events_fold_stable(e2, snap.drop_first(), k);
        assert(f[k] == s0);
        // so re-upserting s0 into f changes nothing
        lemma_event_index_props(f, s0.id);
        let i2 = event_index(f, s0.id);
        assert(i2 >= 0);
        assert(f[i2].id == s0.id);
        if i2 != k {
            assert(f[i2].id != f[k].id);
            assert(false);
        }
        assert(upsert_event_seq(f, s0) =~= f);
        lemma_apply_events_fold_idempotent(e2, snap.drop_first());
    }
}

/// Applying a snapshot with unique keys twice to unique-keyed ticket
/// records is the same as applying it once.
pub proof fn lemma_apply_tickets_fold_idempotent(tickets: Seq<TicketV>, snap: Seq<TicketV>)
    requires
        tickets_unique(tickets),
        forall|a: int, b: int| 0 <= a < b < snap.len() ==> (#[trigger] snap[a]).ticket_id != (
        #[trigger] snap[b]).ticket_id,
    ensures
        apply_tickets_fold(apply_tickets_fold(tickets, snap), snap) == apply_tickets_fold(
            tickets,
            snap,
        ),
    decreases snap.len(),
{
    if snap.len() > 0 {
        let s0 = snap[0];
        let t2 = upsert_ticket_seq(tickets, s0);
        lemma_upsert_ticket_unique(tickets, s0);
        lemma_ticket_index_props(tickets, s0.ticket_id);
        let f = apply_tickets_fold(t2, snap.drop_first());
        let k: int = if ticket_index(tickets, s0.ticket_id) >= 0 {
            ticket_index(tickets, s0.ticket_id)
        } else {
            tickets.len() as int
        };
        assert(t2[k] == s0);
        assert(forall|j: int|
            0 <= j < snap.drop_first().len() ==> #[trigger] snap.drop_first()[j] == snap[j + 1]);
        lemma_tickets_fold_stable(t2, snap.drop_first(), k);
        assert(f[k] == s0);
        lemma_ticket_index_props(f, s0.ticket_id);
        let i2 = ticket_index(f, s0.ticket_id);
        assert(i2 >= 0);
        if i2 != k {
            assert(f[i2].ticket_id != f[k].ticket_id);
            assert(false);
        }
        assert(upsert_ticket_seq(f, s0) =~= f);
        lemma_apply_tickets_fold_idempotent(t2, snap.drop_first());
    }
}

/// Applying a snapshot with unique keys twice to unique-keyed listings
/// is the same as applying it once.
pub proof fn lemma_apply_listings_fold_idempotent(listings: Seq<ListingV>, snap: Seq<ListingV>)
    requires
        listings_unique(listings),
        forall|a: int, b: int| 0 <= a < b < snap.len() ==> (#[trigger] snap[a]).ticket_id != (
        #[trigger] snap[b]).ticket_id,
    ensures
        apply_listings_fold(apply_listings_fold(listings, snap), snap) == apply_listings_fold(
            listings,
            snap,
        ),
    decreases snap.len(),
{
    if snap.len() > 0 {
        let s0 = snap[0];
        let l2 = upsert_listing_seq(listings, s0);
        lemma_upsert_listing_unique(listings, s0);
        lemma_listing_index_props(listings, s0.ticket_id);
        let f = apply_listings_fold(l2, snap.drop_first());
        let k: int = if listing_index(listings, s0.ticket_id) >= 0 {
            listing_index(listings, s0.ticket_id)
        } else {
            listings.len() as int
        };
        assert(l2[k] == s0);
        assert(forall|j: int|
            0 <= j < snap.drop_first().len() ==> #[trigger] snap.drop_first()[j] == snap[j + 1]);
        lemma_listings_fold_stable(l2, snap.drop_first(), k);
        assert(f[k] == s0);
        lemma_listing_index_props(f, s0.ticket_id);
        let i2 = listing_index(f, s0.ticket_id);
        assert(i2 >= 0);
        if i2 != k {
            assert(f[i2].ticket_id != f[k].ticket_id);
            assert(false);
        }
        assert(upsert_listing_seq(f, s0) =~= f);
        lemma_apply_listings_fold_idempotent(l2, snap.drop_first());
    }
}

/// Idempotent synchronization: applying the same snapshot twice, with
/// each entity appearing once in it, leaves a well-formed state exactly
/// as applying it once did.
pub proof fn lemma_apply_snapshot_idempotent(
    m: StateModel,
    events: Seq<EventV>,
    tickets: Seq<TicketV>,
    listings: Seq<ListingV>,
)
    requires
        model_wf(m),
        forall|a: int, b: int| 0 <= a < b < events.len() ==> (#[trigger] events[a]).id != (
        #[trigger] events[b]).id,
        forall|a: int, b: int| 0 <= a < b < tickets.len() ==> (#[trigger] tickets[a]).ticket_id
            != (#[trigger] tickets[b]).ticket_id,
        forall|a: int, b: int| 0 <= a < b < listings.len() ==> (#[trigger] listings[a]).ticket_id
            != (#[trigger] listings[b]).ticket_id,
    ensures
        apply_snapshot_model(
            apply_snapshot_model(m, events, tickets, listings),
            events,
            tickets,
            listings,
        ) == apply_snapshot_model(m, events, tickets, listings),
{
    lemma_apply_events_fold_idempotent(m.events, events);
    lemma_apply_tickets_fold_idempotent(m.tickets, tickets);
    lemma_apply_listings_fold_idempotent(m.listings, listings);
    assert(apply_snapshot_model(
        apply_snapshot_model(m, events, tickets, listings),
        events,
        tickets,
        listings,
    ) =~= apply_snapshot_model(m, events, tickets, listings));
}

/// Idempotent synchronization: applying the same stream event twice
/// leaves the state exactly as applying it once did.
pub proof fn lemma_apply_stream_event_idempotent(m: StateModel, e: StreamEventV)
    ensures
        apply_event_model(apply_event_model(m, e), e) == apply_event_model(m, e),
{
    match e {
        StreamEventV::EventCreated { event } => {
            lemma_upsert_event_idempotent(m.events, event);
            assert(apply_event_model(apply_event_model(m, e), e) =~= apply_event_model(m, e));
        },
        StreamEventV::TicketMinted { ticket } => {
            lemma_upsert_ticket_idempotent(m.tickets, ticket);
            assert(apply_event_model(apply_event_model(m, e), e) =~= apply_event_model(m, e));
        },
        StreamEventV::ListingCreated { listing } => {
            lemma_upsert_listing_idempotent(m.listings, listing);
            assert(apply_event_model(apply_event_model(m, e), e) =~= apply_event_model(m, e));
        },
        StreamEventV::ListingUpdated { listing } => {
            lemma_upsert_listing_idempotent(m.listings, listing);
            assert(apply_event_model(apply_event_model(m, e), e) =~= apply_event_model(m, e));
        },
    }
}

} // verus!
