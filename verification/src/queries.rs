//! Read-only projections of a chain's state, as the query layer serves
//! them: records by id, full listings with rendered amounts, and the
//! base64 form of owned ticket ids.

use vstd::prelude::*;
use crate::codec::{TicketOutput, b64_encode, base64_of, dec_digits, u128_to_decimal};
use crate::state::{
    BalanceV, TicketingState, balance_index, event_index, owned_index, ticket_index,
};
use crate::sync::clone_events_vec;
use crate::types::{
    AccountOwner, BalanceEntryGraphQL, Event, EventId, ListingStatus, TicketId,
};

verus! {

/// A listing as the query layer serves it, with the ticket id in base64
/// and the price in decimal.
#[derive(Debug)]
pub struct ListingInfo {
    pub ticket_id: String,
    pub seller: AccountOwner,
    pub price: String,
    pub status: String,
}

/// The textual name of a listing status.
pub open spec fn status_name(s: ListingStatus) -> Seq<char> {
    match s {
        ListingStatus::Active => "Active"@,
        ListingStatus::Cancelled => "Cancelled"@,
        ListingStatus::Sold => "Sold"@,
    }
}

/// The textual name of a listing status.
pub fn status_string(s: ListingStatus) -> (r: String)
    ensures
        r@ == status_name(s),
{
    match s {
        ListingStatus::Active => "Active".to_owned(),
        ListingStatus::Cancelled => "Cancelled".to_owned(),
        ListingStatus::Sold => "Sold".to_owned(),
    }
}

impl TicketingState {
    /// The catalog record with this id, if any.
    pub fn event(&self, event_id: &EventId) -> (r: Option<&Event>)
        ensures
            match r {
                Some(e) => event_index(self@.events, event_id@) >= 0 && e@ == self@.events[
                    event_index(self@.events, event_id@)],
                None => event_index(self@.events, event_id@) == -1,
            },
    {
        match self.find_event_pos(event_id) {
            Some(i) => Some(&self.events[i]),
            None => None,
        }
    }

    /// The whole catalog.
    pub fn all_events(&self) -> (r: Vec<Event>)
        ensures
            r@.map_values(|e: Event| e@) == self@.events,
    {
        clone_events_vec(&self.events)
    }

    /// The display projection of the ticket with this id, if present.
    /// The payload stands in for the off-chain artwork bytes the host
    /// resolves from the metadata hash.
    pub fn ticket(&self, ticket_id: &TicketId, payload: Vec<u8>) -> (r: Option<TicketOutput>)
        ensures
            ({
                let ti = ticket_index(self@.tickets, ticket_id@);
                match r {
                    Some(out) => ti >= 0 && out.ticket_id@ == base64_of(
                        self@.tickets[ti].ticket_id,
                    ) && out.owner@ == self@.tickets[ti].owner && out.seat@
                        == self@.tickets[ti].seat && out.royalty_bps
                        == self@.tickets[ti].royalty_bps,
                    None => ti == -1,
                }
            }),
    {
        match self.find_ticket_pos(ticket_id) {
            Some(i) => {
                let t = self.tickets[i].clone();
                Some(TicketOutput::new(t, payload))
            },
            None => None,
        }
    }

    /// The base64 ids of every ticket this holder currently holds here.
    #[verifier::loop_isolation(false)]
    pub fn owned_ticket_ids_of(&self, owner: &AccountOwner) -> (r: Vec<String>)
        ensures
            ({
                let oi = owned_index(self@.owned, owner@);
                if oi >= 0 {
                    r@.len() == self@.owned[oi].ticket_ids.len() && forall|k: int|
                        0 <= k < r@.len() ==> (#[trigger] r@[k])@ == base64_of(
                            self@.owned[oi].ticket_ids[k],
                        )
                } else {
                    r@.len() == 0
                }
            }),
    {
        let mut r: Vec<String> = Vec::new();
        match self.find_owned_pos(owner) {
            Some(oi) => {
                let n = self.owned_ticket_ids[oi].ticket_ids.len();
                let mut k: usize = 0;
                while k < n
                    invariant
                        0 <= oi < self.owned_ticket_ids@.len(),
                        n == self.owned_ticket_ids@[oi as int].ticket_ids.len(),
                        k <= n,
                        r@.len() == k,
                        forall|j: int|
                            0 <= j < k ==> (#[trigger] r@[j])@ == base64_of(
                                self@.owned[oi as int].ticket_ids[j],
                            ),
                    decreases n - k,
                {
                    r.push(b64_encode(&self.owned_ticket_ids[oi].ticket_ids[k].id));
                    k = k + 1;
                }
                r
            },
            None => r,
        }
    }

    /// This holder's pending payout, rendered in decimal; zero when no
    /// entry exists.
    pub fn royalty_balance(&self, owner: &AccountOwner) -> (r: BalanceEntryGraphQL)
        ensures
            ({
                let bi = balance_index(self@.balances, owner@);
                if bi >= 0 {
                    r.pending@ == dec_digits(self@.balances[bi].pending as nat)
                } else {
                    r.pending@ == dec_digits(0)
                }
            }),
    {
        match self.find_balance_pos(owner) {
            Some(bi) => BalanceEntryGraphQL {
                pending: u128_to_decimal(self.royalty_balances[bi].entry.pending),
            },
            None => BalanceEntryGraphQL { pending: u128_to_decimal(0) },
        }
    }

    /// Every ticket record, projected for display with an empty
    /// payload; the host resolves artwork bytes separately.
    #[verifier::loop_isolation(false)]
    pub fn all_tickets(&self) -> (r: Vec<TicketOutput>)
        ensures
            r@.len() == self@.tickets.len(),
            forall|i: int|
                0 <= i < r@.len() ==> {
                    let t = self@.tickets[i];
                    &&& (#[trigger] r@[i]).ticket_id@ == base64_of(t.ticket_id)
                    &&& r@[i].owner@ == t.owner
                    &&& r@[i].seat@ == t.seat
                    &&& r@[i].royalty_bps == t.royalty_bps
                },
    {
        let mut r: Vec<TicketOutput> = Vec::new();
        let n = self.tickets.len();
        let mut i: usize = 0;
        while i < n
            invariant
                n == self.tickets@.len(),
                i <= n,
                r@.len() == i,
                forall|j: int|
                    0 <= j < i ==> {
                        let t = self@.tickets[j];
                        &&& (#[trigger] r@[j]).ticket_id@ == base64_of(t.ticket_id)
                        &&& r@[j].owner@ == t.owner
                        &&& r@[j].seat@ == t.seat
                        &&& r@[j].royalty_bps == t.royalty_bps
                    },
            decreases n - i,
        {
            let t = self.tickets[i].clone();
            r.push(TicketOutput::new(t, Vec::new()));
            i = i + 1;
        }
        r
    }

    /// Every pending payout, rendered in decimal.
    #[verifier::loop_isolation(false)]
    pub fn royalty_balances(&self) -> (r: Vec<(AccountOwner, BalanceEntryGraphQL)>)
        ensures
            r@.len() == self@.balances.len(),
            forall|i: int|
                0 <= i < r@.len() ==> (#[trigger] r@[i]).0@ == self@.balances[i].owner && r@[i].1.pending@
                    == dec_digits(self@.balances[i].pending as nat),
    {
        let mut r: Vec<(AccountOwner, BalanceEntryGraphQL)> = Vec::new();
        let n = self.royalty_balances.len();
        let mut i: usize = 0;
        while i < n
            invariant
                n == self.royalty_balances@.len(),
                i <= n,
                r@.len() == i,
                forall|j: int|
                    0 <= j < i ==> (#[trigger] r@[j]).0@ == self@.balances[j].owner
                        && r@[j].1.pending@ == dec_digits(self@.balances[j].pending as nat),
            decreases n - i,
        {
            let b = &self.royalty_balances[i];
            r.push((
                b.owner.clone(),
                BalanceEntryGraphQL { pending: u128_to_decimal(b.entry.pending) },
            ));
            i = i + 1;
        }
        r
    }

    /// Every listing, projected for display.
    #[verifier::loop_isolation(false)]
    pub fn all_listings(&self) -> (r: Vec<ListingInfo>)
        ensures
            r@.len() == self@.listings.len(),
            forall|i: int|
                0 <= i < r@.len() ==> {
                    let l = self@.listings[i];
                    &&& (#[trigger] r@[i]).ticket_id@ == base64_of(l.ticket_id)
                    &&& r@[i].seller@ == l.seller
                    &&& r@[i].price@ == dec_digits(l.price as nat)
                    &&& r@[i].status@ == status_name(l.status)
                },
    {
        let mut r: Vec<ListingInfo> = Vec::new();
        let n = self.listings.len();
        let mut i: usize = 0;
        while i < n
            invariant
                n == self.listings@.len(),
                i <= n,
                r@.len() == i,
                forall|j: int|
                    0 <= j < i ==> {
                        let l = self@.listings[j];
                        &&& (#[trigger] r@[j]).ticket_id@ == base64_of(l.ticket_id)
                        &&& r@[j].seller@ == l.seller
                        &&& r@[j].price@ == dec_digits(l.price as nat)
                        &&& r@[j].status@ == status_name(l.status)
                    },
            decreases n - i,
        {
            let l = &self.listings[i];
            r.push(ListingInfo {
                ticket_id: b64_encode(&l.ticket_id.id),
                seller: l.seller.clone(),
                price: u128_to_decimal(l.price),
                status: status_string(l.status),
            });
            i = i + 1;
        }
        r
    }
}

} // verus!
