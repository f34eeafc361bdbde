//! Per-chain protocol state and its well-formedness invariant.
//!
//! Each chain holds an event catalog, the ticket records present on it,
//! marketplace listings, the map from holder to owned-ticket set, the
//! pending royalty balances, the running royalty total, and — on the
//! hub — the ordered stream of broadcast events.  All collections are
//! association vectors keyed by the record's identifier; the invariant
//! keeps the keys unique, and keeps every ticket id in at most one
//! holder's owned set.

use vstd::prelude::*;
use crate::types::{
    AccountOwner, BalanceEntry, Event, EventId, EventV, Listing, ListingV, Ticket, TicketId,
    TicketV, event_wf, ticket_wf,
};

verus! {

/// One holder's set of currently held ticket ids.
#[derive(Debug)]
pub struct OwnedTickets {
    pub owner: AccountOwner,
    pub ticket_ids: Vec<TicketId>,
}

/// Mathematical view of an `OwnedTickets` entry.
#[verifier::ext_equal]
pub ghost struct OwnedV {
    pub owner: Seq<char>,
    pub ticket_ids: Seq<Seq<u8>>,
}

impl View for OwnedTickets {
    type V = OwnedV;

    open spec fn view(&self) -> OwnedV {
        OwnedV {
            owner: self.owner@,
            ticket_ids: self.ticket_ids@.map_values(|t: TicketId| t@),
        }
    }
}

/// Pending royalty balance of one holder.
#[derive(Debug)]
pub struct BalanceRecord {
    pub owner: AccountOwner,
    pub entry: BalanceEntry,
}

/// Mathematical view of a `BalanceRecord`.
#[verifier::ext_equal]
pub ghost struct BalanceV {
    pub owner: Seq<char>,
    pub pending: u128,
}

impl View for BalanceRecord {
    type V = BalanceV;

    open spec fn view(&self) -> BalanceV {
        BalanceV { owner: self.owner@, pending: self.entry.pending }
    }
}

/// One entry of the hub's broadcast stream, carrying the full updated
/// record so that consumers can upsert idempotently.
#[derive(Debug)]
pub enum StreamEvent {
    /// A catalog entry was created.
    EventCreated { event: Event },
    /// A ticket was minted, or its recorded ownership changed.
    TicketMinted { ticket: Ticket },
    /// A listing was created.
    ListingCreated { listing: Listing },
    /// A listing's status changed.
    ListingUpdated { listing: Listing },
}

/// Mathematical view of a `StreamEvent`.
#[verifier::ext_equal]
pub ghost enum StreamEventV {
    EventCreated { event: EventV },
    TicketMinted { ticket: TicketV },
    ListingCreated { listing: ListingV },
    ListingUpdated { listing: ListingV },
}

impl View for StreamEvent {
    type V = StreamEventV;

    open spec fn view(&self) -> StreamEventV {
        match self {
            StreamEvent::EventCreated { event } => StreamEventV::EventCreated { event: event@ },
            StreamEvent::TicketMinted { ticket } => StreamEventV::TicketMinted { ticket: ticket@ },
            StreamEvent::ListingCreated { listing } => StreamEventV::ListingCreated {
                listing: listing@,
            },
            StreamEvent::ListingUpdated { listing } => StreamEventV::ListingUpdated {
                listing: listing@,
            },
        }
    }
}

impl Clone for StreamEvent {
    fn clone(&self) -> (r: Self)
        ensures
            r@ == self@,
    {
        match self {
            StreamEvent::EventCreated { event } => StreamEvent::EventCreated {
                event: event.clone(),
            },
            StreamEvent::TicketMinted { ticket } => StreamEvent::TicketMinted {
                ticket: ticket.clone(),
            },
            StreamEvent::ListingCreated { listing } => StreamEvent::ListingCreated {
                listing: listing.clone(),
            },
            StreamEvent::ListingUpdated { listing } => StreamEvent::ListingUpdated {
                listing: listing.clone(),
            },
        }
    }
}

/// All protocol state of one chain.
#[derive(Debug)]
pub struct TicketingState {
    pub events: Vec<Event>,
    pub tickets: Vec<Ticket>,
    pub listings: Vec<Listing>,
    pub owned_ticket_ids: Vec<OwnedTickets>,
    pub royalty_balances: Vec<BalanceRecord>,
    pub total_royalties: u128,
    pub stream: Vec<StreamEvent>,
}

/// Mathematical view of a whole chain state.
#[verifier::ext_equal]
pub ghost struct StateModel {
    pub events: Seq<EventV>,
    pub tickets: Seq<TicketV>,
    pub listings: Seq<ListingV>,
    pub owned: Seq<OwnedV>,
    pub balances: Seq<BalanceV>,
    pub total_royalties: u128,
    pub stream: Seq<StreamEventV>,
}

impl View for TicketingState {
    type V = StateModel;

    open spec fn view(&self) -> StateModel {
        StateModel {
            events: self.events@.map_values(|e: Event| e@),
            tickets: self.tickets@.map_values(|t: Ticket| t@),
            listings: self.listings@.map_values(|l: Listing| l@),
            owned: self.owned_ticket_ids@.map_values(|o: OwnedTickets| o@),
            balances: self.royalty_balances@.map_values(|b: BalanceRecord| b@),
            total_royalties: self.total_royalties,
            stream: self.stream@.map_values(|s: StreamEvent| s@),
        }
    }
}

/// Index of the first element satisfying `p`, or -1.
pub open spec fn find_first<A>(s: Seq<A>, p: spec_fn(A) -> bool) -> int
    decreases s.len(),
{
    if s.len() == 0 {
        -1
    } else if p(s[0]) {
        0
    } else {
        let r = find_first(s.drop_first(), p);
        if r < 0 {
            -1
        } else {
            r + 1
        }
    }
}

/// What `find_first` returns: the first matching index, or -1 when
/// nothing matches.
pub proof fn lemma_find_first_props<A>(s: Seq<A>, p: spec_fn(A) -> bool)
    ensures
        -1 <= find_first(s, p) < s.len(),
        find_first(s, p) >= 0 ==> p(s[find_first(s, p)]),
        forall|j: int| 0 <= j < find_first(s, p) ==> !p(#[trigger] s[j]),
        find_first(s, p) == -1 ==> forall|j: int| 0 <= j < s.len() ==> !p(#[trigger] s[j]),
    decreases s.len(),
{
    if s.len() > 0 && !p(s[0]) {
        lemma_find_first_props(s.drop_first(), p);
        let r = find_first(s, p);
        assert forall|j: int| 0 <= j < r implies !p(s[j]) by {
            if j > 0 {
                assert(s[j] == s.drop_first()[j - 1]);
            }
        }
        if r == -1 {
            assert forall|j: int| 0 <= j < s.len() implies !p(s[j]) by {
                if j > 0 {
                    assert(s[j] == s.drop_first()[j - 1]);
                }
            }
        }
    }
}

/// `find_first` is pinned by any index that matches with no earlier match.
pub proof fn lemma_find_first_is<A>(s: Seq<A>, p: spec_fn(A) -> bool, i: int)
    requires
        0 <= i <= s.len(),
        forall|j: int| 0 <= j < i ==> !p(#[trigger] s[j]),
        i < s.len() ==> p(s[i]),
    ensures
        i < s.len() ==> find_first(s, p) == i,
        i == s.len() ==> find_first(s, p) == -1,
    decreases s.len(),
{
    if s.len() > 0 && !p(s[0]) {
        assert(i >= 1);
        lemma_find_first_is(s.drop_first(), p, i - 1);
        assert(forall|j: int|
            0 <= j < s.drop_first().len() ==> #[trigger] s.drop_first()[j] == s[j + 1]);
    }
}

/// First index of the event with the given id, or -1.
pub open spec fn event_index(events: Seq<EventV>, id: Seq<char>) -> int {
    find_first(events, |e: EventV| e.id == id)
}

/// First index of the ticket with the given id, or -1.
pub open spec fn ticket_index(tickets: Seq<TicketV>, tid: Seq<u8>) -> int {
    find_first(tickets, |t: TicketV| t.ticket_id == tid)
}

/// First index of the listing keyed by the given ticket id, or -1.
pub open spec fn listing_index(listings: Seq<ListingV>, tid: Seq<u8>) -> int {
    find_first(listings, |l: ListingV| l.ticket_id == tid)
}

/// First index of the owned-set entry of the given holder, or -1.
pub open spec fn owned_index(owned: Seq<OwnedV>, owner: Seq<char>) -> int {
    find_first(owned, |o: OwnedV| o.owner == owner)
}

/// First index of the balance entry of the given holder, or -1.
pub open spec fn balance_index(balances: Seq<BalanceV>, owner: Seq<char>) -> int {
    find_first(balances, |b: BalanceV| b.owner == owner)
}

/// First index of a ticket id within one owned set, or -1.
pub open spec fn tid_index(ids: Seq<Seq<u8>>, tid: Seq<u8>) -> int
    decreases ids.len(),
{
    if ids.len() == 0 {
        -1
    } else if ids[0] == tid {
        0
    } else {
        let r = tid_index(ids.drop_first(), tid);
        if r < 0 {
            -1
        } else {
            r + 1
        }
    }
}

/// Mapping a function over a sequence commutes with updating one slot.
pub proof fn lemma_map_values_update<A, B>(s: Seq<A>, f: spec_fn(A) -> B, i: int, x: A)
    requires
        0 <= i < s.len(),
    ensures
        s.update(i, x).map_values(f) == s.map_values(f).update(i, f(x)),
{
    assert(s.update(i, x).map_values(f) =~= s.map_values(f).update(i, f(x)));
}

/// Mapping a function over a sequence commutes with pushing an element.
pub proof fn lemma_map_values_push<A, B>(s: Seq<A>, f: spec_fn(A) -> B, x: A)
    ensures
        s.push(x).map_values(f) == s.map_values(f).push(f(x)),
{
    assert(s.push(x).map_values(f) =~= s.map_values(f).push(f(x)));
}

/// Mapping a function over a sequence commutes with removing one slot.
pub proof fn lemma_map_values_remove<A, B>(s: Seq<A>, f: spec_fn(A) -> B, i: int)
    requires
        0 <= i < s.len(),
    ensures
        s.remove(i).map_values(f) == s.map_values(f).remove(i),
{
    assert(s.remove(i).map_values(f) =~= s.map_values(f).remove(i));
}

/// What `event_index` returns.
pub proof fn lemma_event_index_props(events: Seq<EventV>, id: Seq<char>)
    ensures
        -1 <= event_index(events, id) < events.len(),
        event_index(events, id) >= 0 ==> events[event_index(events, id)].id == id,
        forall|j: int| 0 <= j < event_index(events, id) ==> (#[trigger] events[j]).id != id,
        event_index(events, id) == -1 ==> forall|j: int|
            0 <= j < events.len() ==> (#[trigger] events[j]).id != id,
{
    lemma_find_first_props(events, |e: EventV| e.id == id);
}

/// `event_index` is pinned by a matching index with no earlier match.
pub proof fn lemma_event_index_is(events: Seq<EventV>, id: Seq<char>, i: int)
    requires
        0 <= i <= events.len(),
        forall|j: int| 0 <= j < i ==> (#[trigger] events[j]).id != id,
        i < events.len() ==> events[i].id == id,
    ensures
        i < events.len() ==> event_index(events, id) == i,
        i == events.len() ==> event_index(events, id) == -1,
{
    lemma_find_first_is(events, |e: EventV| e.id == id, i);
}

/// What `ticket_index` returns.
pub proof fn lemma_ticket_index_props(tickets: Seq<TicketV>, tid: Seq<u8>)
    ensures
        -1 <= ticket_index(tickets, tid) < tickets.len(),
        ticket_index(tickets, tid) >= 0 ==> tickets[ticket_index(tickets, tid)].ticket_id == tid,
        forall|j: int|
            0 <= j < ticket_index(tickets, tid) ==> (#[trigger] tickets[j]).ticket_id != tid,
        ticket_index(tickets, tid) == -1 ==> forall|j: int|
            0 <= j < tickets.len() ==> (#[trigger] tickets[j]).ticket_id != tid,
{
    lemma_find_first_props(tickets, |t: TicketV| t.ticket_id == tid);
}

/// `ticket_index` is pinned by a matching index with no earlier match.
pub proof fn lemma_ticket_index_is(tickets: Seq<TicketV>, tid: Seq<u8>, i: int)
    requires
        0 <= i <= tickets.len(),
        forall|j: int| 0 <= j < i ==> (#[trigger] tickets[j]).ticket_id != tid,
        i < tickets.len() ==> tickets[i].ticket_id == tid,
    ensures
        i < tickets.len() ==> ticket_index(tickets, tid) == i,
        i == tickets.len() ==> ticket_index(tickets, tid) == -1,
{
    lemma_find_first_is(tickets, |t: TicketV| t.ticket_id == tid, i);
}

/// What `listing_index` returns.
pub proof fn lemma_listing_index_props(listings: Seq<ListingV>, tid: Seq<u8>)
    ensures
        -1 <= listing_index(listings, tid) < listings.len(),
        listing_index(listings, tid) >= 0 ==> listings[listing_index(listings, tid)].ticket_id
            == tid,
        forall|j: int|
            0 <= j < listing_index(listings, tid) ==> (#[trigger] listings[j]).ticket_id != tid,
        listing_index(listings, tid) == -1 ==> forall|j: int|
            0 <= j < listings.len() ==> (#[trigger] listings[j]).ticket_id != tid,
{
    lemma_find_first_props(listings, |l: ListingV| l.ticket_id == tid);
}

/// `listing_index` is pinned by a matching index with no earlier match.
pub proof fn lemma_listing_index_is(listings: Seq<ListingV>, tid: Seq<u8>, i: int)
    requires
        0 <= i <= listings.len(),
        forall|j: int| 0 <= j < i ==> (#[trigger] listings[j]).ticket_id != tid,
        i < listings.len() ==> listings[i].ticket_id == tid,
    ensures
        i < listings.len() ==> listing_index(listings, tid) == i,
        i == listings.len() ==> listing_index(listings, tid) == -1,
{
    lemma_find_first_is(listings, |l: ListingV| l.ticket_id == tid, i);
}

/// What `owned_index` returns.
pub proof fn lemma_owned_index_props(owned: Seq<OwnedV>, owner: Seq<char>)
    ensures
        -1 <= owned_index(owned, owner) < owned.len(),
        owned_index(owned, owner) >= 0 ==> owned[owned_index(owned, owner)].owner == owner,
        forall|j: int| 0 <= j < owned_index(owned, owner) ==> (#[trigger] owned[j]).owner != owner,
        owned_index(owned, owner) == -1 ==> forall|j: int|
            0 <= j < owned.len() ==> (#[trigger] owned[j]).owner != owner,
{
    lemma_find_first_props(owned, |o: OwnedV| o.owner == owner);
}

/// `owned_index` is pinned by a matching index with no earlier match.
pub proof fn lemma_owned_index_is(owned: Seq<OwnedV>, owner: Seq<char>, i: int)
    requires
        0 <= i <= owned.len(),
        forall|j: int| 0 <= j < i ==> (#[trigger] owned[j]).owner != owner,
        i < owned.len() ==> owned[i].owner == owner,
    ensures
        i < owned.len() ==> owned_index(owned, owner) == i,
        i == owned.len() ==> owned_index(owned, owner) == -1,
{
    lemma_find_first_is(owned, |o: OwnedV| o.owner == owner, i);
}

/// What `balance_index` returns.
pub proof fn lemma_balance_index_props(balances: Seq<BalanceV>, owner: Seq<char>)
    ensures
        -1 <= balance_index(balances, owner) < balances.len(),
        balance_index(balances, owner) >= 0 ==> balances[balance_index(balances, owner)].owner
            == owner,
        forall|j: int|
            0 <= j < balance_index(balances, owner) ==> (#[trigger] balances[j]).owner != owner,
        balance_index(balances, owner) == -1 ==> forall|j: int|
            0 <= j < balances.len() ==> (#[trigger] balances[j]).owner != owner,
{
    lemma_find_first_props(balances, |b: BalanceV| b.owner == owner);
}

/// `balance_index` is pinned by a matching index with no earlier match.
pub proof fn lemma_balance_index_is(balances: Seq<BalanceV>, owner: Seq<char>, i: int)
    requires
        0 <= i <= balances.len(),
        forall|j: int| 0 <= j < i ==> (#[trigger] balances[j]).owner != owner,
        i < balances.len() ==> balances[i].owner == owner,
    ensures
        i < balances.len() ==> balance_index(balances, owner) == i,
        i == balances.len() ==> balance_index(balances, owner) == -1,
{
    lemma_find_first_is(balances, |b: BalanceV| b.owner == owner, i);
}

/// What `tid_index` returns.
pub proof fn lemma_tid_index_props(ids: Seq<Seq<u8>>, tid: Seq<u8>)
    ensures
        -1 <= tid_index(ids, tid) < ids.len(),
        tid_index(ids, tid) >= 0 ==> ids[tid_index(ids, tid)] == tid,
        forall|j: int| 0 <= j < tid_index(ids, tid) ==> #[trigger] ids[j] != tid,
        tid_index(ids, tid) == -1 ==> forall|j: int| 0 <= j < ids.len() ==> #[trigger] ids[j] != tid,
    decreases ids.len(),
{
    if ids.len() > 0 && ids[0] != tid {
        lemma_tid_index_props(ids.drop_first(), tid);
        let r = tid_index(ids, tid);
        assert forall|j: int| 0 <= j < r implies ids[j] != tid by {
            if j > 0 {
                assert(ids[j] == ids.drop_first()[j - 1]);
            }
        }
        if r == -1 {
            assert forall|j: int| 0 <= j < ids.len() implies ids[j] != tid by {
                if j > 0 {
                    assert(ids[j] == ids.drop_first()[j - 1]);
                }
            }
        }
    }
}

/// `tid_index` is pinned by a matching index with no earlier match.
pub proof fn lemma_tid_index_is(ids: Seq<Seq<u8>>, tid: Seq<u8>, i: int)
    requires
        0 <= i <= ids.len(),
        forall|j: int| 0 <= j < i ==> #[trigger] ids[j] != tid,
        i < ids.len() ==> ids[i] == tid,
    ensures
        i < ids.len() ==> tid_index(ids, tid) == i,
        i == ids.len() ==> tid_index(ids, tid) == -1,
    decreases ids.len(),
{
    if ids.len() > 0 && ids[0] != tid {
        assert(i >= 1);
        assert(forall|j: int|
            0 <= j < i - 1 ==> #[trigger] ids.drop_first()[j] == ids[j + 1]);
        lemma_tid_index_is(ids.drop_first(), tid, i - 1);
    }
}

/// The well-formedness invariant of a chain state: all keys unique,
/// every record internally valid, and every ticket id held by at most
/// one owned-set slot.
pub open spec fn model_wf(m: StateModel) -> bool {
    &&& events_unique(m.events)
    &&& forall|i: int| 0 <= i < m.events.len() ==> event_wf(#[trigger] m.events[i])
    &&& tickets_unique(m.tickets)
    &&& forall|i: int| 0 <= i < m.tickets.len() ==> ticket_wf(#[trigger] m.tickets[i])
    &&& listings_unique(m.listings)
    &&& owners_unique(m.owned)
    &&& slots_unique(m.owned)
    &&& balances_unique(m.balances)
}

/// Event-id uniqueness over the catalog.
pub open spec fn events_unique(events: Seq<EventV>) -> bool {
    forall|i: int, j: int|
        0 <= i < j < events.len() ==> (#[trigger] events[i]).id != (#[trigger] events[j]).id
}

/// Ticket-id uniqueness over the ticket records.
pub open spec fn tickets_unique(tickets: Seq<TicketV>) -> bool {
    forall|i: int, j: int|
        0 <= i < j < tickets.len() ==> (#[trigger] tickets[i]).ticket_id != (
        #[trigger] tickets[j]).ticket_id
}

/// Ticket-id uniqueness over the listings.
pub open spec fn listings_unique(listings: Seq<ListingV>) -> bool {
    forall|i: int, j: int|
        0 <= i < j < listings.len() ==> (#[trigger] listings[i]).ticket_id != (
        #[trigger] listings[j]).ticket_id
}

/// Holder uniqueness over the balance entries.
pub open spec fn balances_unique(balances: Seq<BalanceV>) -> bool {
    forall|i: int, j: int|
        0 <= i < j < balances.len() ==> (#[trigger] balances[i]).owner != (
        #[trigger] balances[j]).owner
}

impl TicketingState {
    /// The state's invariant, stated over its view.
    pub open spec fn wf(&self) -> bool {
        model_wf(self@)
    }

    /// A fresh, empty chain state with a cleared royalty counter.
    pub fn instantiate() -> (r: TicketingState)
        ensures
            r.wf(),
            r@.events.len() == 0,
            r@.tickets.len() == 0,
            r@.listings.len() == 0,
            r@.owned.len() == 0,
            r@.balances.len() == 0,
            r@.total_royalties == 0,
            r@.stream.len() == 0,
    {
        TicketingState {
            events: Vec::new(),
            tickets: Vec::new(),
            listings: Vec::new(),
            owned_ticket_ids: Vec::new(),
            royalty_balances: Vec::new(),
            total_royalties: 0,
            stream: Vec::new(),
        }
    }
}

impl TicketingState {
    /// Position of the event with this id in the catalog, if any.
    pub fn find_event_pos(&self, id: &EventId) -> (r: Option<usize>)
        ensures
            match r {
                Some(i) => i < self@.events.len() && event_index(self@.events, id@) == i as int,
                None => event_index(self@.events, id@) == -1,
            },
    {
        let n = self.events.len();
        let mut i: usize = 0;
        while i < n
            invariant
                n == self.events.len(),
                i <= n,
                forall|j: int| 0 <= j < i ==> (#[trigger] self@.events[j]).id != id@,
            decreases n - i,
        {
            if self.events[i].id == *id {
                proof {
                    lemma_event_index_is(self@.events, id@, i as int);
                }
                return Some(i);
            }
            i = i + 1;
        }
        proof {
            lemma_event_index_is(self@.events, id@, n as int);
        }
        None
    }

    /// Position of the ticket record with this id, if any.
    pub fn find_ticket_pos(&self, tid: &TicketId) -> (r: Option<usize>)
        ensures
            match r {
                Some(i) => i < self@.tickets.len() && ticket_index(self@.tickets, tid@)
                    == i as int,
                None => ticket_index(self@.tickets, tid@) == -1,
            },
    {
        let n = self.tickets.len();
        let mut i: usize = 0;
        while i < n
            invariant
                n == self.tickets.len(),
                i <= n,
                forall|j: int| 0 <= j < i ==> (#[trigger] self@.tickets[j]).ticket_id != tid@,
            decreases n - i,
        {
            if self.tickets[i].ticket_id == *tid {
                proof {
                    lemma_ticket_index_is(self@.tickets, tid@, i as int);
                }
                return Some(i);
            }
            i = i + 1;
        }
        proof {
            lemma_ticket_index_is(self@.tickets, tid@, n as int);
        }
        None
    }

    /// Position of the listing keyed by this ticket id, if any.
    pub fn find_listing_pos(&self, tid: &TicketId) -> (r: Option<usize>)
        ensures
            match r {
                Some(i) => i < self@.listings.len() && listing_index(self@.listings, tid@)
                    == i as int,
                None => listing_index(self@.listings, tid@) == -1,
            },
    {
        let n = self.listings.len();
        let mut i: usize = 0;
        while i < n
            invariant
                n == self.listings.len(),
                i <= n,
                forall|j: int| 0 <= j < i ==> (#[trigger] self@.listings[j]).ticket_id != tid@,
            decreases n - i,
        {
            if self.listings[i].ticket_id == *tid {
                proof {
                    lemma_listing_index_is(self@.listings, tid@, i as int);
                }
                return Some(i);
            }
            i = i + 1;
        }
        proof {
            lemma_listing_index_is(self@.listings, tid@, n as int);
        }
        None
    }

    /// Position of the owned-set entry of this holder, if any.
    pub fn find_owned_pos(&self, owner: &AccountOwner) -> (r: Option<usize>)
        ensures
            match r {
                Some(i) => i < self@.owned.len() && owned_index(self@.owned, owner@) == i as int,
                None => owned_index(self@.owned, owner@) == -1,
            },
    {
        let n = self.owned_ticket_ids.len();
        let mut i: usize = 0;
        while i < n
            invariant
                n == self.owned_ticket_ids.len(),
                i <= n,
                forall|j: int| 0 <= j < i ==> (#[trigger] self@.owned[j]).owner != owner@,
            decreases n - i,
        {
            if self.owned_ticket_ids[i].owner == *owner {
                proof {
                    lemma_owned_index_is(self@.owned, owner@, i as int);
                }
                return Some(i);
            }
            i = i + 1;
        }
        proof {
            lemma_owned_index_is(self@.owned, owner@, n as int);
        }
        None
    }

    /// Position of the balance entry of this holder, if any.
    pub fn find_balance_pos(&self, owner: &AccountOwner) -> (r: Option<usize>)
        ensures
            match r {
                Some(i) => i < self@.balances.len() && balance_index(self@.balances, owner@)
                    == i as int,
                None => balance_index(self@.balances, owner@) == -1,
            },
    {
        let n = self.royalty_balances.len();
        let mut i: usize = 0;
        while i < n
            invariant
                n == self.royalty_balances.len(),
                i <= n,
                forall|j: int| 0 <= j < i ==> (#[trigger] self@.balances[j]).owner != owner@,
            decreases n - i,
        {
            if self.royalty_balances[i].owner == *owner {
                proof {
                    lemma_balance_index_is(self@.balances, owner@, i as int);
                }
                return Some(i);
            }
            i = i + 1;
        }
        proof {
            lemma_balance_index_is(self@.balances, owner@, n as int);
        }
        None
    }

    /// The ticket record with this id, if present on this chain.
    pub fn get_ticket(&self, ticket_id: &TicketId) -> (r: Option<&Ticket>)
        ensures
            match r {
                Some(t) => ticket_index(self@.tickets, ticket_id@) >= 0 && t@ == self@.tickets[
                    ticket_index(self@.tickets, ticket_id@)],
                None => ticket_index(self@.tickets, ticket_id@) == -1,
            },
    {
        match self.find_ticket_pos(ticket_id) {
            Some(i) => Some(&self.tickets[i]),
            None => None,
        }
    }
}

/// Upsert of an event record, keyed by event id.
pub open spec fn upsert_event_seq(events: Seq<EventV>, e: EventV) -> Seq<EventV> {
    let i = event_index(events, e.id);
    if i >= 0 {
        events.update(i, e)
    } else {
        events.push(e)
    }
}

/// Upsert of a ticket record, keyed by ticket id.
pub open spec fn upsert_ticket_seq(tickets: Seq<TicketV>, t: TicketV) -> Seq<TicketV> {
    let i = ticket_index(tickets, t.ticket_id);
    if i >= 0 {
        tickets.update(i, t)
    } else {
        tickets.push(t)
    }
}

/// Upsert of a listing record, keyed by ticket id.
pub open spec fn upsert_listing_seq(listings: Seq<ListingV>, l: ListingV) -> Seq<ListingV> {
    let i = listing_index(listings, l.ticket_id);
    if i >= 0 {
        listings.update(i, l)
    } else {
        listings.push(l)
    }
}

/// One owned set with the first occurrence of a ticket id removed.
pub open spec fn remove_tid_seq(ids: Seq<Seq<u8>>, tid: Seq<u8>) -> Seq<Seq<u8>> {
    let i = tid_index(ids, tid);
    if i >= 0 {
        ids.remove(i)
    } else {
        ids
    }
}

/// One owned-set entry with a ticket id removed.
pub open spec fn entry_without(o: OwnedV, tid: Seq<u8>) -> OwnedV {
    OwnedV { owner: o.owner, ticket_ids: remove_tid_seq(o.ticket_ids, tid) }
}

/// All owned sets with a ticket id removed everywhere.
pub open spec fn owned_without(owned: Seq<OwnedV>, tid: Seq<u8>) -> Seq<OwnedV> {
    owned.map_values(|o: OwnedV| entry_without(o, tid))
}

/// The owned sets after custody of a ticket is assigned exclusively to
/// one holder: the id is removed everywhere, then appended to that
/// holder's set, which is created if absent.
pub open spec fn owned_with(owned: Seq<OwnedV>, owner: Seq<char>, tid: Seq<u8>) -> Seq<OwnedV> {
    let w = owned_without(owned, tid);
    let i = owned_index(w, owner);
    if i >= 0 {
        w.update(i, OwnedV { owner: w[i].owner, ticket_ids: w[i].ticket_ids.push(tid) })
    } else {
        w.push(OwnedV { owner: owner, ticket_ids: seq![tid] })
    }
}

/// Removing an id from a duplicate-free owned set leaves it
/// duplicate-free, without that id, and with every surviving slot taken
/// from the input set.
pub proof fn lemma_remove_tid_seq_props(ids: Seq<Seq<u8>>, tid: Seq<u8>)
    requires
        forall|k: int, l: int| 0 <= k < l < ids.len() ==> #[trigger] ids[k] != #[trigger] ids[l],
    ensures
        remove_tid_seq(ids, tid).len() <= ids.len(),
        forall|j: int| 0 <= j < remove_tid_seq(ids, tid).len()
            ==> #[trigger] remove_tid_seq(ids, tid)[j] != tid,
        forall|j: int| 0 <= j < remove_tid_seq(ids, tid).len() ==> exists|k: int|
            0 <= k < ids.len() && #[trigger] ids[k] == #[trigger] remove_tid_seq(ids, tid)[j],
        forall|k: int, l: int|
            0 <= k < l < remove_tid_seq(ids, tid).len() ==> #[trigger] remove_tid_seq(ids, tid)[k]
                != #[trigger] remove_tid_seq(ids, tid)[l],
{
    lemma_tid_index_props(ids, tid);
    let i0 = tid_index(ids, tid);
    let r = remove_tid_seq(ids, tid);
    if i0 >= 0 {
        assert forall|j: int| #![trigger r[j]] 0 <= j < r.len() implies exists|k: int|
            0 <= k < ids.len() && #[trigger] ids[k] == r[j] by {
            if j < i0 {
                assert(ids[j] == r[j]);
            } else {
                assert(ids[j + 1] == r[j]);
            }
        }
        assert forall|j: int| 0 <= j < r.len() implies r[j] != tid by {
            if j < i0 {
                assert(r[j] == ids[j]);
            } else {
                assert(r[j] == ids[j + 1]);
                assert(ids[i0] == tid);
            }
        }
        assert forall|k: int, l: int| 0 <= k < l < r.len() implies r[k] != r[l] by {
            let k2: int = if k < i0 { k } else { k + 1 };
            let l2: int = if l < i0 { l } else { l + 1 };
            assert(r[k] == ids[k2]);
            assert(r[l] == ids[l2]);
        }
    }
}

/// Addition capped at the largest representable amount.
pub open spec fn sat_add(a: u128, b: u128) -> u128 {
    if a + b > u128::MAX {
        u128::MAX
    } else {
        (a + b) as u128
    }
}

/// The balances after crediting an amount to a holder: zero amounts
/// change nothing, an existing entry grows (capped), a missing entry is
/// created.
pub open spec fn credit_seq(balances: Seq<BalanceV>, owner: Seq<char>, amount: u128) -> Seq<
    BalanceV,
> {
    if amount == 0 {
        balances
    } else {
        let i = balance_index(balances, owner);
        if i >= 0 {
            balances.update(
                i,
                BalanceV { owner: balances[i].owner, pending: sat_add(balances[i].pending, amount) },
            )
        } else {
            balances.push(BalanceV { owner: owner, pending: amount })
        }
    }
}

/// Removes the first occurrence of a ticket id from one id vector.
#[verifier::loop_isolation(false)]
fn remove_tid(ids: &mut Vec<TicketId>, tid: &TicketId)
    ensures
        final(ids)@.map_values(|t: TicketId| t@) == remove_tid_seq(
            old(ids)@.map_values(|t: TicketId| t@),
            tid@,
        ),
{
    let ghost v0 = ids@.map_values(|t: TicketId| t@);
    let n = ids.len();
    let mut i: usize = 0;
    while i < n
        invariant
            n == ids.len(),
            i <= n,
            ids@ == old(ids)@,
            forall|j: int| 0 <= j < i ==> #[trigger] v0[j] != tid@,
        decreases n - i,
    {
        if ids[i] == *tid {
            proof {
                lemma_tid_index_is(v0, tid@, i as int);
            }
            ids.remove(i);
            proof {
                lemma_map_values_remove(old(ids)@, |t: TicketId| t@, i as int);
            }
            return;
        }
        i = i + 1;
    }
    proof {
        lemma_tid_index_is(v0, tid@, n as int);
    }
}

/// Holder uniqueness over a sequence of owned sets.
pub open spec fn owners_unique(owned: Seq<OwnedV>) -> bool {
    forall|i: int, j: int|
        0 <= i < j < owned.len() ==> (#[trigger] owned[i]).owner != (#[trigger] owned[j]).owner
}

/// Every ticket id occupies at most one slot over all owned sets.
pub open spec fn slots_unique(owned: Seq<OwnedV>) -> bool {
    forall|i: int, k: int, j: int, l: int|
        0 <= i < owned.len() && 0 <= k < owned[i].ticket_ids.len() && 0 <= j < owned.len()
            && 0 <= l < owned[j].ticket_ids.len() && (i != j || k != l)
            ==> (#[trigger] owned[i].ticket_ids[k]) != (#[trigger] owned[j].ticket_ids[l])
}

/// Removing a ticket id everywhere keeps the owned sets well-formed,
/// keeps every owner in place, purges the id, and invents no slot.
pub proof fn lemma_owned_without_props(owned: Seq<OwnedV>, tid: Seq<u8>)
    requires
        owners_unique(owned),
        slots_unique(owned),
    ensures
        owned_without(owned, tid).len() == owned.len(),
        forall|j: int|
            0 <= j < owned.len() ==> (#[trigger] owned_without(owned, tid)[j]).owner
                == owned[j].owner,
        owners_unique(owned_without(owned, tid)),
        slots_unique(owned_without(owned, tid)),
        forall|j: int, k: int|
            0 <= j < owned_without(owned, tid).len() && 0 <= k < owned_without(
                owned,
                tid,
            )[j].ticket_ids.len() ==> (#[trigger] owned_without(owned, tid)[j].ticket_ids[k]) != tid,
        forall|j: int, k: int|
            0 <= j < owned_without(owned, tid).len() && 0 <= k < owned_without(
                owned,
                tid,
            )[j].ticket_ids.len() ==> exists|k2: int|
                0 <= k2 < owned[j].ticket_ids.len() && (#[trigger] owned[j].ticket_ids[k2]) == (
                #[trigger] owned_without(owned, tid)[j].ticket_ids[k]),
{
    let w = owned_without(owned, tid);
    assert forall|j: int| 0 <= j < w.len() implies w[j] == entry_without(owned[j], tid) by {}
    assert forall|j: int, k: int|
        0 <= j < w.len() && 0 <= k < w[j].ticket_ids.len() implies (#[trigger] w[j].ticket_ids[k])
        != tid && exists|k2: int|
        0 <= k2 < owned[j].ticket_ids.len() && (#[trigger] owned[j].ticket_ids[k2])
            == w[j].ticket_ids[k] by {
        lemma_remove_tid_seq_props(owned[j].ticket_ids, tid);
    }
    assert forall|i: int, k: int, j: int, l: int|
        0 <= i < w.len() && 0 <= k < w[i].ticket_ids.len() && 0 <= j < w.len() && 0 <= l
            < w[j].ticket_ids.len() && (i != j || k != l) implies (#[trigger] w[i].ticket_ids[k])
        != (#[trigger] w[j].ticket_ids[l]) by {
        lemma_remove_tid_seq_props(owned[i].ticket_ids, tid);
        lemma_remove_tid_seq_props(owned[j].ticket_ids, tid);
        if i != j {
            let k2 = choose|k2: int|
                0 <= k2 < owned[i].ticket_ids.len() && (#[trigger] owned[i].ticket_ids[k2])
                    == w[i].ticket_ids[k];
            let l2 = choose|l2: int|
                0 <= l2 < owned[j].ticket_ids.len() && (#[trigger] owned[j].ticket_ids[l2])
                    == w[j].ticket_ids[l];
            assert(owned[i].ticket_ids[k2] != owned[j].ticket_ids[l2]);
        }
    }
}

/// Assigning custody of a ticket id to one holder keeps the owned sets
/// well-formed.
pub proof fn lemma_owned_with_wf(owned: Seq<OwnedV>, owner: Seq<char>, tid: Seq<u8>)
    requires
        owners_unique(owned),
        slots_unique(owned),
    ensures
        owners_unique(owned_with(owned, owner, tid)),
        slots_unique(owned_with(owned, owner, tid)),
{
    lemma_owned_without_props(owned, tid);
    let w = owned_without(owned, tid);
    let iw = owned_index(w, owner);
    lemma_owned_index_props(w, owner);
    let nw = owned_with(owned, owner, tid);
    if iw >= 0 {
        assert(nw == w.update(
            iw,
            OwnedV { owner: w[iw].owner, ticket_ids: w[iw].ticket_ids.push(tid) },
        ));
        assert forall|i: int, j: int| 0 <= i < j < nw.len() implies (#[trigger] nw[i]).owner != (
        #[trigger] nw[j]).owner by {
            assert(nw[i].owner == w[i].owner);
            assert(nw[j].owner == w[j].owner);
        }
        assert forall|i: int, k: int, j: int, l: int|
            0 <= i < nw.len() && 0 <= k < nw[i].ticket_ids.len() && 0 <= j < nw.len() && 0 <= l
                < nw[j].ticket_ids.len() && (i != j || k != l) implies (
        #[trigger] nw[i].ticket_ids[k]) != (#[trigger] nw[j].ticket_ids[l]) by {
            let new_k = w[iw].ticket_ids.len() as int;
            if i == iw && k == new_k {
                assert(nw[i].ticket_ids[k] == tid);
                assert(nw[j].ticket_ids[l] != tid);
            } else if j == iw && l == new_k {
                assert(nw[j].ticket_ids[l] == tid);
                assert(nw[i].ticket_ids[k] != tid);
            } else {
                assert(nw[i].ticket_ids[k] == w[i].ticket_ids[k]);
                assert(nw[j].ticket_ids[l] == w[j].ticket_ids[l]);
            }
        }
    } else {
        assert(nw == w.push(OwnedV { owner: owner, ticket_ids: seq![tid] }));
        assert forall|i: int, j: int| 0 <= i < j < nw.len() implies (#[trigger] nw[i]).owner != (
        #[trigger] nw[j]).owner by {
            if j == w.len() {
                assert(nw[i].owner == w[i].owner);
                assert(w[i].owner != owner);
            } else {
                assert(nw[i].owner == w[i].owner);
                assert(nw[j].owner == w[j].owner);
            }
        }
        assert forall|i: int, k: int, j: int, l: int|
            0 <= i < nw.len() && 0 <= k < nw[i].ticket_ids.len() && 0 <= j < nw.len() && 0 <= l
                < nw[j].ticket_ids.len() && (i != j || k != l) implies (
        #[trigger] nw[i].ticket_ids[k]) != (#[trigger] nw[j].ticket_ids[l]) by {
            if i == w.len() {
                assert(nw[i].ticket_ids[k] == tid);
                assert(j != i);
                assert(nw[j].ticket_ids[l] == w[j].ticket_ids[l]);
                assert(nw[j].ticket_ids[l] != tid);
            } else if j == w.len() {
                assert(nw[j].ticket_ids[l] == tid);
                assert(i != j);
                assert(nw[i].ticket_ids[k] == w[i].ticket_ids[k]);
                assert(nw[i].ticket_ids[k] != tid);
            } else {
                assert(nw[i].ticket_ids[k] == w[i].ticket_ids[k]);
                assert(nw[j].ticket_ids[l] == w[j].ticket_ids[l]);
            }
        }
    }
}

/// Upserting a well-formed event keeps the catalog unique and well-formed.
pub proof fn lemma_upsert_event_wf(events: Seq<EventV>, e: EventV)
    requires
        events_unique(events),
        forall|i: int| 0 <= i < events.len() ==> event_wf(#[trigger] events[i]),
        event_wf(e),
    ensures
        events_unique(upsert_event_seq(events, e)),
        forall|i: int|
            0 <= i < upsert_event_seq(events, e).len() ==> event_wf(
                #[trigger] upsert_event_seq(events, e)[i],
            ),
{
    lemma_event_index_props(events, e.id);
}

/// Upserting a well-formed ticket keeps the records unique and well-formed.
pub proof fn lemma_upsert_ticket_wf(tickets: Seq<TicketV>, t: TicketV)
    requires
        tickets_unique(tickets),
        forall|i: int| 0 <= i < tickets.len() ==> ticket_wf(#[trigger] tickets[i]),
        ticket_wf(t),
    ensures
        tickets_unique(upsert_ticket_seq(tickets, t)),
        forall|i: int|
            0 <= i < upsert_ticket_seq(tickets, t).len() ==> ticket_wf(
                #[trigger] upsert_ticket_seq(tickets, t)[i],
            ),
{
    lemma_ticket_index_props(tickets, t.ticket_id);
}

/// Upserting a listing keeps the listings unique.
pub proof fn lemma_upsert_listing_wf(listings: Seq<ListingV>, l: ListingV)
    requires
        listings_unique(listings),
    ensures
        listings_unique(upsert_listing_seq(listings, l)),
{
    lemma_listing_index_props(listings, l.ticket_id);
}

/// Removing one record keeps the ticket records unique and well-formed.
pub proof fn lemma_tickets_remove_wf(tickets: Seq<TicketV>, i: int)
    requires
        tickets_unique(tickets),
        forall|j: int| 0 <= j < tickets.len() ==> ticket_wf(#[trigger] tickets[j]),
        0 <= i < tickets.len(),
    ensures
        tickets_unique(tickets.remove(i)),
        forall|j: int|
            0 <= j < tickets.remove(i).len() ==> ticket_wf(#[trigger] tickets.remove(i)[j]),
{
    let r = tickets.remove(i);
    assert forall|k: int, l: int| 0 <= k < l < r.len() implies (#[trigger] r[k]).ticket_id != (
    #[trigger] r[l]).ticket_id by {
        let k2: int = if k < i { k } else { k + 1 };
        let l2: int = if l < i { l } else { l + 1 };
        assert(r[k] == tickets[k2]);
        assert(r[l] == tickets[l2]);
    }
    assert forall|j: int| 0 <= j < r.len() implies ticket_wf(#[trigger] r[j]) by {
        let j2: int = if j < i { j } else { j + 1 };
        assert(r[j] == tickets[j2]);
    }
}

/// Crediting keeps the balance owners unique.
pub proof fn lemma_credit_seq_wf(balances: Seq<BalanceV>, owner: Seq<char>, amount: u128)
    requires
        balances_unique(balances),
    ensures
        balances_unique(credit_seq(balances, owner, amount)),
{
    lemma_balance_index_props(balances, owner);
}

impl TicketingState {
    /// Inserts or replaces the catalog record with this event's id.
    pub fn upsert_event(&mut self, event: Event)
        requires
            old(self).wf(),
            event_wf(event@),
        ensures
            final(self).wf(),
            final(self)@ == (StateModel {
                events: upsert_event_seq(old(self)@.events, event@),
                ..old(self)@
            }),
    {
        proof {
            lemma_upsert_event_wf(self@.events, event@);
        }
        match self.find_event_pos(&event.id) {
            Some(i) => {
                proof {
                    lemma_map_values_update(self.events@, |e: Event| e@, i as int, event);
                }
                self.events.set(i, event);
            },
            None => {
                proof {
                    lemma_map_values_push(self.events@, |e: Event| e@, event);
                }
                self.events.push(event);
            },
        }
        proof {
            assert(self@ =~= (StateModel {
                events: upsert_event_seq(old(self)@.events, event@),
                ..old(self)@
            }));
        }
    }

    /// Inserts or replaces the listing keyed by this listing's ticket id.
    pub fn upsert_listing(&mut self, listing: Listing)
        requires
            old(self).wf(),
        ensures
            final(self).wf(),
            final(self)@ == (StateModel {
                listings: upsert_listing_seq(old(self)@.listings, listing@),
                ..old(self)@
            }),
    {
        proof {
            lemma_upsert_listing_wf(self@.listings, listing@);
        }
        match self.find_listing_pos(&listing.ticket_id) {
            Some(i) => {
                proof {
                    lemma_map_values_update(self.listings@, |l: Listing| l@, i as int, listing);
                }
                self.listings.set(i, listing);
            },
            None => {
                proof {
                    lemma_map_values_push(self.listings@, |l: Listing| l@, listing);
                }
                self.listings.push(listing);
            },
        }
        proof {
            assert(self@ =~= (StateModel {
                listings: upsert_listing_seq(old(self)@.listings, listing@),
                ..old(self)@
            }));
        }
    }

    /// Inserts or replaces the ticket record with this ticket's id,
    /// without touching custody.
    pub fn upsert_ticket(&mut self, ticket: Ticket)
        requires
            old(self).wf(),
            ticket_wf(ticket@),
        ensures
            final(self).wf(),
            final(self)@ == (StateModel {
                tickets: upsert_ticket_seq(old(self)@.tickets, ticket@),
                ..old(self)@
            }),
    {
        proof {
            lemma_upsert_ticket_wf(self@.tickets, ticket@);
        }
        match self.find_ticket_pos(&ticket.ticket_id) {
            Some(i) => {
                proof {
                    lemma_map_values_update(self.tickets@, |t: Ticket| t@, i as int, ticket);
                }
                self.tickets.set(i, ticket);
            },
            None => {
                proof {
                    lemma_map_values_push(self.tickets@, |t: Ticket| t@, ticket);
                }
                self.tickets.push(ticket);
            },
        }
        proof {
            assert(self@ =~= (StateModel {
                tickets: upsert_ticket_seq(old(self)@.tickets, ticket@),
                ..old(self)@
            }));
        }
    }

    /// Appends one entry to the broadcast stream.
    pub fn emit(&mut self, ev: StreamEvent)
        requires
            old(self).wf(),
        ensures
            final(self).wf(),
            final(self)@ == (StateModel { stream: old(self)@.stream.push(ev@), ..old(self)@ }),
    {
        proof {
            lemma_map_values_push(self.stream@, |s: StreamEvent| s@, ev);
        }
        self.stream.push(ev);
        proof {
            assert(self@ =~= (StateModel { stream: old(self)@.stream.push(ev@), ..old(self)@ }));
        }
    }

    /// Credits a pending payout to a holder, creating the entry when
    /// absent; the accumulator saturates at its maximum.
    pub fn credit_balance(&mut self, owner: &AccountOwner, amount: u128)
        requires
            old(self).wf(),
        ensures
            final(self).wf(),
            final(self)@ == (StateModel {
                balances: credit_seq(old(self)@.balances, owner@, amount),
                ..old(self)@
            }),
    {
        proof {
            lemma_credit_seq_wf(self@.balances, owner@, amount);
        }
        if amount == 0 {
            proof {
                assert(self@ =~= (StateModel {
                    balances: credit_seq(old(self)@.balances, owner@, amount),
                    ..old(self)@
                }));
            }
            return;
        }
        match self.find_balance_pos(owner) {
            Some(i) => {
                let pending = self.royalty_balances[i].entry.pending;
                let new_pending: u128 = if pending <= u128::MAX - amount {
                    pending + amount
                } else {
                    u128::MAX
                };
                proof {
                    lemma_map_values_update(
                        self.royalty_balances@,
                        |b: BalanceRecord| b@,
                        i as int,
                        BalanceRecord {
                            owner: self.royalty_balances@[i as int].owner,
                            entry: BalanceEntry { pending: new_pending },
                        },
                    );
                }
                let e = &mut self.royalty_balances[i];
                e.entry.pending = new_pending;
            },
            None => {
                let rec = BalanceRecord {
                    owner: owner.clone(),
                    entry: BalanceEntry { pending: amount },
                };
                proof {
                    lemma_map_values_push(self.royalty_balances@, |b: BalanceRecord| b@, rec);
                }
                self.royalty_balances.push(rec);
            },
        }
        proof {
            assert(self@ =~= (StateModel {
                balances: credit_seq(old(self)@.balances, owner@, amount),
                ..old(self)@
            }));
        }
    }
}

/// The ticket records with the record keyed by this id removed, if any.
pub open spec fn remove_ticket_seq(tickets: Seq<TicketV>, tid: Seq<u8>) -> Seq<TicketV> {
    let i = ticket_index(tickets, tid);
    if i >= 0 {
        tickets.remove(i)
    } else {
        tickets
    }
}

impl TicketingState {
    /// Removes a ticket id from every holder's owned set.
    #[verifier::loop_isolation(false)]
    fn purge_owned(&mut self, tid: &TicketId)
        ensures
            final(self)@ == (StateModel {
                owned: owned_without(old(self)@.owned, tid@),
                ..old(self)@
            }),
    {
        let n = self.owned_ticket_ids.len();
        let mut k: usize = 0;
        while k < n
            invariant
                n == self.owned_ticket_ids.len(),
                k <= n,
                self@.events == old(self)@.events,
                self@.tickets == old(self)@.tickets,
                self@.listings == old(self)@.listings,
                self@.balances == old(self)@.balances,
                self@.total_royalties == old(self)@.total_royalties,
                self@.stream == old(self)@.stream,
                self@.owned.len() == n,
                forall|j: int|
                    0 <= j < k ==> #[trigger] self@.owned[j] == entry_without(
                        old(self)@.owned[j],
                        tid@,
                    ),
                forall|j: int| k <= j < n ==> #[trigger] self@.owned[j] == old(self)@.owned[j],
            decreases n - k,
        {
            let ghost prev = self.owned_ticket_ids@;
            let e = &mut self.owned_ticket_ids[k];
            let ghost e0 = *e;
            remove_tid(&mut e.ticket_ids, tid);
            k = k + 1;
            proof {
                let ef = self.owned_ticket_ids@[k - 1];
                assert(self.owned_ticket_ids@ == prev.update(k - 1, ef));
                lemma_map_values_update(prev, |o: OwnedTickets| o@, k - 1, ef);
                assert(ef.owner@ == e0.owner@);
                assert(ef@.ticket_ids == remove_tid_seq(e0@.ticket_ids, tid@));
                assert(e0 == prev[k - 1]);
                assert(e0@ == prev.map_values(|o: OwnedTickets| o@)[k - 1]);
                assert(e0@ == old(self)@.owned[k - 1]);
                assert(ef@ =~= entry_without(old(self)@.owned[k - 1], tid@));
                assert forall|j: int| 0 <= j < k - 1 implies #[trigger] self@.owned[j]
                    == entry_without(old(self)@.owned[j], tid@) by {
                    assert(self@.owned[j] == prev.map_values(|o: OwnedTickets| o@)[j]);
                }
                assert forall|j: int| k <= j < n implies #[trigger] self@.owned[j] == old(
                    self,
                )@.owned[j] by {
                    assert(self@.owned[j] == prev.map_values(|o: OwnedTickets| o@)[j]);
                }
            }
        }
        proof {
            assert(self@.owned =~= owned_without(old(self)@.owned, tid@));
            assert(self@ =~= (StateModel {
                owned: owned_without(old(self)@.owned, tid@),
                ..old(self)@
            }));
        }
    }

    /// Registers a ticket on this chain: the record is inserted or
    /// replaced, and custody of its id is assigned exclusively to the
    /// record's holder.
    pub fn add_ticket(&mut self, ticket: Ticket)
        requires
            old(self).wf(),
            ticket_wf(ticket@),
        ensures
            final(self).wf(),
            final(self)@ == (StateModel {
                tickets: upsert_ticket_seq(old(self)@.tickets, ticket@),
                owned: owned_with(old(self)@.owned, ticket@.owner, ticket@.ticket_id),
                ..old(self)@
            }),
    {
        let tid = ticket.ticket_id.clone();
        let owner = ticket.owner.clone();
        proof {
            lemma_upsert_ticket_wf(self@.tickets, ticket@);
            lemma_owned_with_wf(self@.owned, ticket@.owner, ticket@.ticket_id);
        }
        match self.find_ticket_pos(&ticket.ticket_id) {
            Some(i) => {
                proof {
                    lemma_map_values_update(self.tickets@, |t: Ticket| t@, i as int, ticket);
                }
                self.tickets.set(i, ticket);
            },
            None => {
                proof {
                    lemma_map_values_push(self.tickets@, |t: Ticket| t@, ticket);
                }
                self.tickets.push(ticket);
            },
        }
        self.purge_owned(&tid);
        match self.find_owned_pos(&owner) {
            Some(i) => {
                let ghost w = self@.owned;
                let e = &mut self.owned_ticket_ids[i];
                let ghost e0 = *e;
                e.ticket_ids.push(tid);
                proof {
                    lemma_map_values_push(e0.ticket_ids@, |t: TicketId| t@, tid);
                    assert(self@.owned =~= w.update(
                        i as int,
                        OwnedV {
                            owner: w[i as int].owner,
                            ticket_ids: w[i as int].ticket_ids.push(tid@),
                        },
                    ));
                }
            },
            None => {
                let ghost w = self@.owned;
                let mut ids: Vec<TicketId> = Vec::new();
                ids.push(tid);
                let entry = OwnedTickets { owner: owner, ticket_ids: ids };
                proof {
                    lemma_map_values_push(
                        self.owned_ticket_ids@,
                        |o: OwnedTickets| o@,
                        entry,
                    );
                }
                proof {
                    assert(entry@.ticket_ids =~= seq![ticket@.ticket_id]);
                    assert(entry@ =~= (OwnedV {
                        owner: ticket@.owner,
                        ticket_ids: seq![ticket@.ticket_id],
                    }));
                }
                self.owned_ticket_ids.push(entry);
                proof {
                    assert(self@.owned =~= w.push(OwnedV {
                        owner: ticket@.owner,
                        ticket_ids: seq![ticket@.ticket_id],
                    }));
                }
            },
        }
        proof {
            assert(self@ =~= (StateModel {
                tickets: upsert_ticket_seq(old(self)@.tickets, ticket@),
                owned: owned_with(old(self)@.owned, ticket@.owner, ticket@.ticket_id),
                ..old(self)@
            }));
        }
    }

    /// Strikes a ticket from this chain: its record is deleted and its
    /// id leaves every holder's owned set.
    pub fn remove_ticket(&mut self, ticket_id: &TicketId)
        requires
            old(self).wf(),
        ensures
            final(self).wf(),
            final(self)@ == (StateModel {
                tickets: remove_ticket_seq(old(self)@.tickets, ticket_id@),
                owned: owned_without(old(self)@.owned, ticket_id@),
                ..old(self)@
            }),
    {
        proof {
            lemma_owned_without_props(self@.owned, ticket_id@);
        }
        match self.find_ticket_pos(ticket_id) {
            Some(i) => {
                proof {
                    lemma_tickets_remove_wf(self@.tickets, i as int);
                    lemma_map_values_remove(self.tickets@, |t: Ticket| t@, i as int);
                }
                self.tickets.remove(i);
            },
            None => {},
        }
        self.purge_owned(ticket_id);
        proof {
            assert(self@ =~= (StateModel {
                tickets: remove_ticket_seq(old(self)@.tickets, ticket_id@),
                owned: owned_without(old(self)@.owned, ticket_id@),
                ..old(self)@
            }));
        }
    }
}

/// Single ownership: in a well-formed state a ticket id occupies at most
/// one slot over all owned sets, so it appears in at most one holder's
/// owned set.
pub proof fn lemma_single_ownership(m: StateModel, i: int, k: int, j: int, l: int)
    requires
        model_wf(m),
        0 <= i < m.owned.len(),
        0 <= k < m.owned[i].ticket_ids.len(),
        0 <= j < m.owned.len(),
        0 <= l < m.owned[j].ticket_ids.len(),
        m.owned[i].ticket_ids[k] == m.owned[j].ticket_ids[l],
    ensures
        i == j,
        k == l,
{
}

} // verus!
