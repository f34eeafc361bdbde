//! The per-chain execution of operations and messages.
//!
//! Every handler either completes its whole effect or returns an error
//! and leaves the state exactly as it was.  On the hub each mutation
//! also appends a stream event; on a spoke marketplace mutations are
//! applied optimistically and forwarded to the hub.

use vstd::prelude::*;
use crate::protocol::{Context, Effects, Message, MessageSend, Operation};
use crate::digest::{ticket_id_of};
use crate::royalty::{MAX_BPS, royalty_of, settle_amounts};
use vstd::utf8::encode_utf8;
use crate::sync::{apply_snapshot_model, clone_events_vec, clone_listings_vec, clone_tickets_vec, snapshot_wf};
use crate::state::{
    StateModel, StreamEvent, StreamEventV, TicketingState, credit_seq, event_index,
    lemma_map_values_update, listing_index, model_wf, owned_with, owned_without,
    remove_ticket_seq, sat_add, ticket_index, upsert_event_seq, upsert_listing_seq,
    upsert_ticket_seq,
};
use crate::types::{
    Account, AccountOwner, AccountV, DataBlobHash, Event, EventId, EventV, Listing,
    ListingStatus, ListingV, Ticket, TicketId, TicketV, TicketingError, event_wf, owner_similar,
    owners_similar, ticket_wf,
};

verus! {

/// The catalog record a creation request describes, before any mint.
pub open spec fn new_event_v(
    organizer: Seq<char>,
    event_id: Seq<char>,
    name: Seq<char>,
    description: Seq<char>,
    venue: Seq<char>,
    start_time: u64,
    royalty_bps: u16,
    max_tickets: u32,
) -> EventV {
    EventV {
        id: event_id,
        organizer: organizer,
        name: name,
        description: description,
        venue: venue,
        start_time: start_time,
        royalty_bps: royalty_bps,
        max_tickets: max_tickets,
        minted_tickets: 0,
    }
}

/// Whether a creation request's terms are within range.
pub open spec fn create_event_args_ok(royalty_bps: u16, max_tickets: u32) -> bool {
    royalty_bps <= MAX_BPS && max_tickets >= 1
}

impl TicketingState {
    /// Registers a new event in the catalog.  The royalty rate must be
    /// at most 100% and the supply at least one ticket; the id must be
    /// new.  On the hub the creation is broadcast; on a spoke it is
    /// recorded optimistically and forwarded to the hub.
    pub fn create_event(
        &mut self,
        ctx: &Context,
        organizer: AccountOwner,
        event_id: EventId,
        name: String,
        description: String,
        venue: String,
        start_time: u64,
        royalty_bps: u16,
        max_tickets: u32,
    ) -> (r: Result<Vec<MessageSend>, TicketingError>)
        requires
            old(self).wf(),
        ensures
            final(self).wf(),
            r is Err ==> final(self)@ == old(self)@,
            !create_event_args_ok(royalty_bps, max_tickets) <==> r == Err::<
                Vec<MessageSend>,
                TicketingError,
            >(TicketingError::InvalidArgument),
            create_event_args_ok(royalty_bps, max_tickets) && event_index(
                old(self)@.events,
                event_id@,
            ) >= 0 <==> r == Err::<Vec<MessageSend>, TicketingError>(TicketingError::Conflict),
            r is Ok <==> create_event_args_ok(royalty_bps, max_tickets) && event_index(
                old(self)@.events,
                event_id@,
            ) == -1,
            r matches Ok(msgs) ==> {
                let ev = new_event_v(
                    organizer@,
                    event_id@,
                    name@,
                    description@,
                    venue@,
                    start_time,
                    royalty_bps,
                    max_tickets,
                );
                &&& final(self)@ == (StateModel {
                    events: old(self)@.events.push(ev),
                    stream: if ctx.spec_is_hub() {
                        old(self)@.stream.push(StreamEventV::EventCreated { event: ev })
                    } else {
                        old(self)@.stream
                    },
                    ..old(self)@
                })
                &&& if ctx.spec_is_hub() {
                    msgs@.len() == 0
                } else {
                    &&& msgs@.len() == 1
                    &&& msgs@[0].destination == ctx.hub_chain_id
                    &&& msgs@[0].authenticated
                    &&& msgs@[0].message matches Message::CreateEventOnHub {
                        organizer: o,
                        event_id: e,
                        name: n,
                        description: d,
                        venue: v,
                        start_time: st,
                        royalty_bps: rb,
                        max_tickets: mt,
                    } && o@ == organizer@ && e@ == event_id@ && n@ == name@ && d@ == description@
                        && v@ == venue@ && st == start_time && rb == royalty_bps && mt
                        == max_tickets
                }
            },
    {
        if royalty_bps > MAX_BPS || max_tickets == 0 {
            return Err(TicketingError::InvalidArgument);
        }
        match self.find_event_pos(&event_id) {
            Some(_) => Err(TicketingError::Conflict),
            None => {
                let mut msgs: Vec<MessageSend> = Vec::new();
                if !ctx.is_hub() {
                    msgs.push(MessageSend {
                        destination: ctx.hub_chain_id,
                        message: Message::CreateEventOnHub {
                            organizer: organizer.clone(),
                            event_id: event_id.clone(),
                            name: name.clone(),
                            description: description.clone(),
                            venue: venue.clone(),
                            start_time: start_time,
                            royalty_bps: royalty_bps,
                            max_tickets: max_tickets,
                        },
                        with_tracking: false,
                        authenticated: true,
                    });
                }
                let event = Event {
                    id: event_id,
                    organizer: organizer,
                    name: name,
                    description: description,
                    venue: venue,
                    start_time: start_time,
                    royalty_bps: royalty_bps,
                    max_tickets: max_tickets,
                    minted_tickets: 0,
                };
                if ctx.is_hub() {
                    self.emit(StreamEvent::EventCreated { event: event.clone() });
                }
                self.upsert_event(event);
                Ok(msgs)
            },
        }
    }
}

/// The ticket a mint against this catalog record issues: its id is
/// derived from the minting context with the current minted count as
/// the index, and its royalty rate is copied from the event.
pub open spec fn minted_ticket_v(
    chain: u64,
    app: u64,
    ev: EventV,
    event_id: Seq<char>,
    seat: Seq<char>,
    organizer: Seq<char>,
    meta: Seq<u8>,
    holder_owner: Seq<char>,
) -> TicketV {
    TicketV {
        ticket_id: ticket_id_of(
            chain,
            app,
            encode_utf8(event_id),
            encode_utf8(seat),
            encode_utf8(organizer),
            meta,
            ev.minted_tickets,
        ),
        event_id: event_id,
        event_name: ev.name,
        seat: seat,
        organizer: organizer,
        owner: holder_owner,
        minter: organizer,
        royalty_bps: ev.royalty_bps,
        metadata_hash: meta,
        last_sale_price: None,
    }
}

impl TicketingState {
    /// Issues one ticket against an event's remaining supply; only the
    /// hub mints, a spoke forwards the request there.  The new ticket
    /// goes to the holder's owned set when the holder is local; custody
    /// travels in a tracked carrier message otherwise, the hub keeping
    /// the reference record either way.
    pub fn mint_ticket(
        &mut self,
        ctx: &Context,
        organizer: AccountOwner,
        event_id: EventId,
        seat: String,
        blob_hash: DataBlobHash,
        holder: Account,
    ) -> (r: Result<Vec<MessageSend>, TicketingError>)
        requires
            old(self).wf(),
        ensures
            final(self).wf(),
            r is Err ==> final(self)@ == old(self)@,
            !ctx.spec_is_hub() ==> (r matches Ok(msgs) && final(self)@ == old(self)@ && {
                &&& msgs@.len() == 1
                &&& msgs@[0].destination == ctx.hub_chain_id
                &&& msgs@[0].authenticated
                &&& msgs@[0].message matches Message::MintTicketOnHub {
                    organizer: o,
                    event_id: e,
                    seat: s,
                    blob_hash: b,
                    holder: h,
                } && o@ == organizer@ && e@ == event_id@ && s@ == seat@ && b@ == blob_hash@ && h@
                    == holder@
            }),
            ctx.spec_is_hub() ==> {
                let ei = event_index(old(self)@.events, event_id@);
                &&& ei == -1 ==> r == Err::<Vec<MessageSend>, TicketingError>(
                    TicketingError::NotFound,
                )
                &&& ei >= 0 && old(self)@.events[ei].organizer != organizer@ ==> r == Err::<
                    Vec<MessageSend>,
                    TicketingError,
                >(TicketingError::Unauthorized)
                &&& ei >= 0 && old(self)@.events[ei].organizer == organizer@ && old(self)@.events[ei].minted_tickets >= old(self)@.events[ei].max_tickets ==> r == Err::<
                    Vec<MessageSend>,
                    TicketingError,
                >(TicketingError::Conflict)
                &&& ei >= 0 && old(self)@.events[ei].organizer == organizer@ && old(self)@.events[ei].minted_tickets < old(self)@.events[ei].max_tickets ==> {
                    let ev = old(self)@.events[ei];
                    let t = minted_ticket_v(
                        ctx.chain_id.value,
                        ctx.application_id.value,
                        ev,
                        event_id@,
                        seat@,
                        organizer@,
                        blob_hash@,
                        holder@.owner,
                    );
                    let local = holder.chain_id == ctx.chain_id;
                    let m1 = StateModel {
                        events: upsert_event_seq(
                            old(self)@.events,
                            EventV { minted_tickets: (ev.minted_tickets + 1) as u32, ..ev },
                        ),
                        stream: old(self)@.stream.push(StreamEventV::TicketMinted { ticket: t }),
                        ..old(self)@
                    };
                    &&& r is Ok
                    &&& final(self)@ == if local {
                        StateModel {
                            tickets: upsert_ticket_seq(m1.tickets, t),
                            owned: owned_with(m1.owned, holder@.owner, t.ticket_id),
                            ..m1
                        }
                    } else {
                        StateModel { tickets: upsert_ticket_seq(m1.tickets, t), ..m1 }
                    }
                    &&& r matches Ok(msgs) ==> if local {
                        msgs@.len() == 0
                    } else {
                        &&& msgs@.len() == 1
                        &&& msgs@[0].destination == holder.chain_id
                        &&& msgs@[0].with_tracking
                        &&& msgs@[0].message matches Message::Transfer {
                            ticket: mt,
                            target_account: ta,
                            seller: s,
                            sale_price: sp,
                        } && mt@ == t && ta@ == holder@ && s@ == organizer@ && sp
                            == None::<u128>
                    }
                }
            },
    {
        if !ctx.is_hub() {
            let mut msgs: Vec<MessageSend> = Vec::new();
            msgs.push(MessageSend {
                destination: ctx.hub_chain_id,
                message: Message::MintTicketOnHub {
                    organizer: organizer,
                    event_id: event_id,
                    seat: seat,
                    blob_hash: blob_hash,
                    holder: holder,
                },
                with_tracking: false,
                authenticated: true,
            });
            return Ok(msgs);
        }
        let ei = match self.find_event_pos(&event_id) {
            None => {
                return Err(TicketingError::NotFound);
            },
            Some(i) => i,
        };
        if !(self.events[ei].organizer == organizer) {
            return Err(TicketingError::Unauthorized);
        }
        if self.events[ei].minted_tickets >= self.events[ei].max_tickets {
            return Err(TicketingError::Conflict);
        }
        proof {
            assert(event_wf(self@.events[ei as int]));
        }
        let minted = self.events[ei].minted_tickets;
        let tid = Ticket::create_ticket_id(
            &ctx.chain_id,
            &ctx.application_id,
            &event_id,
            seat.as_str(),
            &organizer,
            &blob_hash,
            minted,
        );
        let ticket = Ticket {
            ticket_id: tid,
            event_id: event_id.clone(),
            event_name: self.events[ei].name.clone(),
            seat: seat,
            organizer: organizer.clone(),
            owner: holder.owner.clone(),
            minter: organizer.clone(),
            royalty_bps: self.events[ei].royalty_bps,
            metadata_hash: blob_hash,
            last_sale_price: None,
        };
        let updated = Event {
            id: self.events[ei].id.clone(),
            organizer: self.events[ei].organizer.clone(),
            name: self.events[ei].name.clone(),
            description: self.events[ei].description.clone(),
            venue: self.events[ei].venue.clone(),
            start_time: self.events[ei].start_time,
            royalty_bps: self.events[ei].royalty_bps,
            max_tickets: self.events[ei].max_tickets,
            minted_tickets: minted + 1,
        };
        self.upsert_event(updated);
        self.emit(StreamEvent::TicketMinted { ticket: ticket.clone() });
        let mut msgs: Vec<MessageSend> = Vec::new();
        if holder.chain_id == ctx.chain_id {
            self.add_ticket(ticket);
        } else {
            self.upsert_ticket(ticket.clone());
            msgs.push(MessageSend {
                destination: holder.chain_id,
                message: Message::Transfer {
                    ticket: ticket,
                    target_account: holder,
                    seller: organizer,
                    sale_price: None,
                },
                with_tracking: true,
                authenticated: false,
            });
        }
        Ok(msgs)
    }
}

/// Supply bound: in a well-formed state no event has ever minted past
/// its maximum supply; together with the mint contract — which adds
/// exactly one ticket per success and refuses a full event with a
/// conflict and no state change — the minted count after N successful
/// mints is exactly N and never exceeds the maximum.
pub proof fn lemma_supply_bound(m: StateModel)
    requires
        model_wf(m),
    ensures
        forall|i: int|
            0 <= i < m.events.len() ==> (#[trigger] m.events[i]).minted_tickets
                <= m.events[i].max_tickets,
{
}

/// Whether a sale price actually makes the move a sale: a missing or
/// zero price is a plain transfer with no settlement.
pub open spec fn sale_effective(sale_price: Option<u128>) -> bool {
    sale_price matches Some(p) && p > 0
}

/// The state after royalty settlement: the organizer's balance grows by
/// the royalty, the seller's by the proceeds, and the global royalty
/// counter advances; a non-sale changes nothing.
pub open spec fn settle_model(
    m: StateModel,
    organizer: Seq<char>,
    seller: Seq<char>,
    bps: u16,
    sale_price: Option<u128>,
) -> StateModel {
    if sale_effective(sale_price) {
        let price = sale_price->Some_0;
        let roy = royalty_of(price, bps) as u128;
        let take = (price - royalty_of(price, bps)) as u128;
        StateModel {
            balances: credit_seq(credit_seq(m.balances, organizer, roy), seller, take),
            total_royalties: sat_add(m.total_royalties, roy),
            ..m
        }
    } else {
        m
    }
}

/// The listings after cancelling the listing for a ticket, if one is
/// active; anything else is left alone.
pub open spec fn cancel_active_seq(listings: Seq<ListingV>, tid: Seq<u8>) -> Seq<ListingV> {
    let i = listing_index(listings, tid);
    if i >= 0 && listings[i].status == ListingStatus::Active {
        listings.update(i, ListingV { status: ListingStatus::Cancelled, ..listings[i] })
    } else {
        listings
    }
}

/// The state after a transfer step: the ticket leaves this chain's
/// custody at once; a same-chain move settles, cancels any active
/// listing and re-registers the ticket under the buyer; a cross-chain
/// move leaves with the message, the hub keeping a reference record
/// under the buyer for queries.
pub open spec fn transfer_model(
    m: StateModel,
    is_hub: bool,
    same_chain: bool,
    ticket: TicketV,
    seller: Seq<char>,
    buyer_owner: Seq<char>,
    sale_price: Option<u128>,
) -> StateModel {
    let tid = ticket.ticket_id;
    let m1 = StateModel {
        tickets: remove_ticket_seq(m.tickets, tid),
        owned: owned_without(m.owned, tid),
        ..m
    };
    if same_chain {
        let t2 = TicketV {
            owner: buyer_owner,
            last_sale_price: if sale_effective(sale_price) {
                sale_price
            } else {
                ticket.last_sale_price
            },
            ..ticket
        };
        let m2 = settle_model(m1, ticket.organizer, seller, ticket.royalty_bps, sale_price);
        let li = listing_index(m2.listings, tid);
        let had_active = li >= 0 && m2.listings[li].status == ListingStatus::Active;
        let m3 = StateModel { listings: cancel_active_seq(m2.listings, tid), ..m2 };
        let m4 = if is_hub && had_active {
            StateModel {
                stream: m3.stream.push(
                    StreamEventV::ListingUpdated {
                        listing: ListingV { status: ListingStatus::Cancelled, ..m2.listings[li] },
                    },
                ),
                ..m3
            }
        } else {
            m3
        };
        let m5 = if is_hub {
            StateModel { stream: m4.stream.push(StreamEventV::TicketMinted { ticket: t2 }), ..m4 }
        } else {
            m4
        };
        StateModel {
            tickets: upsert_ticket_seq(m5.tickets, t2),
            owned: owned_with(m5.owned, buyer_owner, tid),
            ..m5
        }
    } else {
        if is_hub {
            let t2 = TicketV { owner: buyer_owner, ..ticket };
            StateModel {
                tickets: upsert_ticket_seq(m1.tickets, t2),
                stream: m1.stream.push(StreamEventV::TicketMinted { ticket: t2 }),
                ..m1
            }
        } else {
            m1
        }
    }
}

/// What a transfer step sends: nothing for a same-chain move, one
/// tracked carrier message to the buyer's chain otherwise.
pub open spec fn transfer_msgs_ok(
    msgs: Seq<MessageSend>,
    same_chain: bool,
    ticket: TicketV,
    seller: Seq<char>,
    buyer: AccountV,
    sale_price: Option<u128>,
) -> bool {
    if same_chain {
        msgs.len() == 0
    } else {
        &&& msgs.len() == 1
        &&& msgs[0].destination.value == buyer.chain_id
        &&& msgs[0].with_tracking
        &&& msgs[0].message matches Message::Transfer {
            ticket: t,
            target_account: ta,
            seller: s,
            sale_price: sp,
        } && t@ == ticket && ta@ == buyer && s@ == seller && sp == sale_price
    }
}

impl TicketingState {
    /// Cancels the listing for a ticket if one is active, returning the
    /// cancelled record; any other listing state is left alone.
    fn cancel_active_listing(&mut self, tid: &TicketId) -> (r: Option<Listing>)
        requires
            old(self).wf(),
        ensures
            final(self).wf(),
            final(self)@ == (StateModel {
                listings: cancel_active_seq(old(self)@.listings, tid@),
                ..old(self)@
            }),
            ({
                let li = listing_index(old(self)@.listings, tid@);
                let had_active = li >= 0 && old(self)@.listings[li].status
                    == ListingStatus::Active;
                match r {
                    Some(l) => had_active && l@ == (ListingV {
                        status: ListingStatus::Cancelled,
                        ..old(self)@.listings[li]
                    }),
                    None => !had_active,
                }
            }),
    {
        match self.find_listing_pos(tid) {
            Some(i) => {
                let active = match self.listings[i].status {
                    ListingStatus::Active => true,
                    _ => false,
                };
                if active {
                    let cancelled = Listing {
                        ticket_id: self.listings[i].ticket_id.clone(),
                        seller: self.listings[i].seller.clone(),
                        price: self.listings[i].price,
                        status: ListingStatus::Cancelled,
                    };
                    let copy = cancelled.clone();
                    proof {
                        lemma_map_values_update(
                            self.listings@,
                            |l: Listing| l@,
                            i as int,
                            cancelled,
                        );
                    }
                    self.listings.set(i, cancelled);
                    proof {
                        assert(self@.listings =~= cancel_active_seq(old(self)@.listings, tid@));
                        assert(self@ =~= (StateModel {
                            listings: cancel_active_seq(old(self)@.listings, tid@),
                            ..old(self)@
                        }));
                        assert forall|a: int, b: int|
                            0 <= a < b < self@.listings.len() implies (
                        #[trigger] self@.listings[a]).ticket_id != (
                        #[trigger] self@.listings[b]).ticket_id by {
                            assert(old(self)@.listings[a].ticket_id != old(self)@.listings[b].ticket_id);
                        }
                    }
                    Some(copy)
                } else {
                    proof {
                        assert(self@ =~= (StateModel {
                            listings: cancel_active_seq(old(self)@.listings, tid@),
                            ..old(self)@
                        }));
                    }
                    None
                }
            },
            None => {
                proof {
                    assert(self@ =~= (StateModel {
                        listings: cancel_active_seq(old(self)@.listings, tid@),
                        ..old(self)@
                    }));
                }
                None
            },
        }
    }

    /// Settles a sale at the moment a holder change is committed: the
    /// organizer accrues the royalty, the seller the proceeds, the
    /// global counter advances, and the ticket records its sale price.
    /// A missing or zero price changes nothing.
    pub fn finalize_sale(
        &mut self,
        ticket: &mut Ticket,
        seller: &AccountOwner,
        sale_price: Option<u128>,
    )
        requires
            old(self).wf(),
            ticket_wf(old(ticket)@),
        ensures
            final(self).wf(),
            final(self)@ == settle_model(
                old(self)@,
                old(ticket)@.organizer,
                seller@,
                old(ticket)@.royalty_bps,
                sale_price,
            ),
            final(ticket)@ == if sale_effective(sale_price) {
                TicketV { last_sale_price: sale_price, ..old(ticket)@ }
            } else {
                old(ticket)@
            },
    {
        if let Some(price) = sale_price {
            if price == 0 {
                return;
            }
            let (roy, take) = settle_amounts(price, ticket.royalty_bps);
            self.credit_balance(&ticket.organizer, roy);
            self.credit_balance(seller, take);
            self.total_royalties = if self.total_royalties <= u128::MAX - roy {
                self.total_royalties + roy
            } else {
                u128::MAX
            };
            ticket.last_sale_price = Some(price);
            proof {
                assert(final(ticket)@ =~= (TicketV {
                    last_sale_price: sale_price,
                    ..old(ticket)@
                }));
                assert(self@ =~= settle_model(
                    old(self)@,
                    old(ticket)@.organizer,
                    seller@,
                    old(ticket)@.royalty_bps,
                    sale_price,
                ));
            }
        }
    }

    /// Moves a ticket from its holder on this chain to a buyer, locally
    /// or across chains.  Custody leaves this chain at once, so the
    /// ticket cannot be moved or listed twice while the carrier message
    /// is in flight; the hub keeps a reference record under the buyer.
    pub fn transfer(
        &mut self,
        ctx: &Context,
        ticket: Ticket,
        seller: AccountOwner,
        buyer_account: Account,
        sale_price: Option<u128>,
    ) -> (msgs: Vec<MessageSend>)
        requires
            old(self).wf(),
            ticket_wf(ticket@),
            ticket@.owner == seller@,
        ensures
            final(self).wf(),
            final(self)@ == transfer_model(
                old(self)@,
                ctx.spec_is_hub(),
                buyer_account.chain_id == ctx.chain_id,
                ticket@,
                seller@,
                buyer_account@.owner,
                sale_price,
            ),
            transfer_msgs_ok(
                msgs@,
                buyer_account.chain_id == ctx.chain_id,
                ticket@,
                seller@,
                buyer_account@,
                sale_price,
            ),
    {
        let mut msgs: Vec<MessageSend> = Vec::new();
        self.remove_ticket(&ticket.ticket_id);
        if buyer_account.chain_id == ctx.chain_id {
            let mut t2 = ticket;
            t2.owner = buyer_account.owner.clone();
            let ghost t2_mid = t2@;
            self.finalize_sale(&mut t2, &seller, sale_price);
            let cancelled = self.cancel_active_listing(&t2.ticket_id);
            if ctx.is_hub() {
                if let Some(l) = cancelled {
                    self.emit(StreamEvent::ListingUpdated { listing: l });
                }
                self.emit(StreamEvent::TicketMinted { ticket: t2.clone() });
            }
            self.add_ticket(t2);
            proof {
                assert(final(self)@ =~= transfer_model(
                    old(self)@,
                    ctx.spec_is_hub(),
                    true,
                    ticket@,
                    seller@,
                    buyer_account@.owner,
                    sale_price,
                ));
            }
        } else {
            if ctx.is_hub() {
                let mut reference = ticket.clone();
                reference.owner = buyer_account.owner.clone();
                self.emit(StreamEvent::TicketMinted { ticket: reference.clone() });
                self.upsert_ticket(reference);
            }
            msgs.push(MessageSend {
                destination: buyer_account.chain_id,
                message: Message::Transfer {
                    ticket: ticket,
                    target_account: buyer_account,
                    seller: seller,
                    sale_price: sale_price,
                },
                with_tracking: true,
                authenticated: false,
            });
            proof {
                assert(final(self)@ =~= transfer_model(
                    old(self)@,
                    ctx.spec_is_hub(),
                    false,
                    ticket@,
                    seller@,
                    buyer_account@.owner,
                    sale_price,
                ));
            }
        }
        msgs
    }

    /// Creates an Active listing for a ticket the seller holds here.
    /// A second Active listing for the same ticket is refused; a
    /// Cancelled or Sold one is replaced (a relist).  On the hub the
    /// listing is broadcast; on a spoke it is recorded optimistically
    /// and forwarded to the hub.
    pub fn create_listing(
        &mut self,
        ctx: &Context,
        seller: AccountOwner,
        ticket_id: TicketId,
        price: u128,
    ) -> (r: Result<Vec<MessageSend>, TicketingError>)
        requires
            old(self).wf(),
        ensures
            final(self).wf(),
            r is Err ==> final(self)@ == old(self)@,
            ({
                let ti = ticket_index(old(self)@.tickets, ticket_id@);
                let li = listing_index(old(self)@.listings, ticket_id@);
                let has_active = li >= 0 && old(self)@.listings[li].status
                    == ListingStatus::Active;
                &&& ti == -1 <==> r == Err::<Vec<MessageSend>, TicketingError>(
                    TicketingError::NotFound,
                )
                &&& ti >= 0 && old(self)@.tickets[ti].owner != seller@ <==> r == Err::<
                    Vec<MessageSend>,
                    TicketingError,
                >(TicketingError::Unauthorized)
                &&& ti >= 0 && old(self)@.tickets[ti].owner == seller@ && has_active <==> r
                    == Err::<Vec<MessageSend>, TicketingError>(TicketingError::Conflict)
                &&& r is Ok <==> (ti >= 0 && old(self)@.tickets[ti].owner == seller@
                    && !has_active)
                &&& r matches Ok(msgs) ==> {
                    let l = ListingV {
                        ticket_id: ticket_id@,
                        seller: seller@,
                        price: price,
                        status: ListingStatus::Active,
                    };
                    &&& final(self)@ == (StateModel {
                        listings: upsert_listing_seq(old(self)@.listings, l),
                        stream: if ctx.spec_is_hub() {
                            old(self)@.stream.push(StreamEventV::ListingCreated { listing: l })
                        } else {
                            old(self)@.stream
                        },
                        ..old(self)@
                    })
                    &&& if ctx.spec_is_hub() {
                        msgs@.len() == 0
                    } else {
                        &&& msgs@.len() == 1
                        &&& msgs@[0].destination == ctx.hub_chain_id
                        &&& msgs@[0].authenticated
                        &&& msgs@[0].message matches Message::CreateListingOnHub {
                            seller: s,
                            ticket_id: t,
                            price: p,
                        } && s@ == seller@ && t@ == ticket_id@ && p == price
                    }
                }
            }),
    {
        let ti = match self.find_ticket_pos(&ticket_id) {
            None => {
                return Err(TicketingError::NotFound);
            },
            Some(i) => i,
        };
        if !(self.tickets[ti].owner == seller) {
            return Err(TicketingError::Unauthorized);
        }
        match self.find_listing_pos(&ticket_id) {
            Some(li) => {
                let active = match self.listings[li].status {
                    ListingStatus::Active => true,
                    _ => false,
                };
                if active {
                    return Err(TicketingError::Conflict);
                }
            },
            None => {},
        }
        let mut msgs: Vec<MessageSend> = Vec::new();
        if !ctx.is_hub() {
            msgs.push(MessageSend {
                destination: ctx.hub_chain_id,
                message: Message::CreateListingOnHub {
                    seller: seller.clone(),
                    ticket_id: ticket_id.clone(),
                    price: price,
                },
                with_tracking: false,
                authenticated: true,
            });
        }
        let listing = Listing {
            ticket_id: ticket_id,
            seller: seller,
            price: price,
            status: ListingStatus::Active,
        };
        if ctx.is_hub() {
            self.emit(StreamEvent::ListingCreated { listing: listing.clone() });
        }
        self.upsert_listing(listing);
        Ok(msgs)
    }

    /// Cancels an Active listing; only its seller may, and a listing
    /// already Cancelled or Sold stays as it is.
    pub fn cancel_listing(
        &mut self,
        ctx: &Context,
        seller: AccountOwner,
        ticket_id: TicketId,
    ) -> (r: Result<Vec<MessageSend>, TicketingError>)
        requires
            old(self).wf(),
        ensures
            final(self).wf(),
            r is Err ==> final(self)@ == old(self)@,
            ({
                let li = listing_index(old(self)@.listings, ticket_id@);
                &&& li == -1 <==> r == Err::<Vec<MessageSend>, TicketingError>(
                    TicketingError::NotFound,
                )
                &&& li >= 0 && old(self)@.listings[li].seller != seller@ <==> r == Err::<
                    Vec<MessageSend>,
                    TicketingError,
                >(TicketingError::Unauthorized)
                &&& li >= 0 && old(self)@.listings[li].seller == seller@ && old(self)@.listings[li].status != ListingStatus::Active <==> r == Err::<
                    Vec<MessageSend>,
                    TicketingError,
                >(TicketingError::Conflict)
                &&& r is Ok <==> (li >= 0 && old(self)@.listings[li].seller == seller@ && old(
                    self,
                )@.listings[li].status == ListingStatus::Active)
                &&& r matches Ok(msgs) ==> {
                    let cancelled = ListingV {
                        status: ListingStatus::Cancelled,
                        ..old(self)@.listings[li]
                    };
                    &&& final(self)@ == (StateModel {
                        listings: cancel_active_seq(old(self)@.listings, ticket_id@),
                        stream: if ctx.spec_is_hub() {
                            old(self)@.stream.push(
                                StreamEventV::ListingUpdated { listing: cancelled },
                            )
                        } else {
                            old(self)@.stream
                        },
                        ..old(self)@
                    })
                    &&& if ctx.spec_is_hub() {
                        msgs@.len() == 0
                    } else {
                        &&& msgs@.len() == 1
                        &&& msgs@[0].destination == ctx.hub_chain_id
                        &&& msgs@[0].authenticated
                        &&& msgs@[0].message matches Message::CancelListingOnHub {
                            seller: s,
                            ticket_id: t,
                        } && s@ == seller@ && t@ == ticket_id@
                    }
                }
            }),
    {
        let li = match self.find_listing_pos(&ticket_id) {
            None => {
                return Err(TicketingError::NotFound);
            },
            Some(i) => i,
        };
        if !(self.listings[li].seller == seller) {
            return Err(TicketingError::Unauthorized);
        }
        let active = match self.listings[li].status {
            ListingStatus::Active => true,
            _ => false,
        };
        if !active {
            return Err(TicketingError::Conflict);
        }
        let cancelled = match self.cancel_active_listing(&ticket_id) {
            Some(l) => l,
            None => {
                return Err(TicketingError::Conflict);
            },
        };
        let mut msgs: Vec<MessageSend> = Vec::new();
        if ctx.is_hub() {
            self.emit(StreamEvent::ListingUpdated { listing: cancelled });
        } else {
            msgs.push(MessageSend {
                destination: ctx.hub_chain_id,
                message: Message::CancelListingOnHub { seller: seller, ticket_id: ticket_id },
                with_tracking: false,
                authenticated: true,
            });
        }
        Ok(msgs)
    }

    /// Buys an Active listing at its asking price.  The listing is
    /// marked Sold before the transfer runs, so a later buy attempt on
    /// the same listing observes Sold and is refused; the buyer must not
    /// be the seller, compared up to ASCII letter case.  Only the hub
    /// sells; a spoke forwards the purchase there.
    pub fn buy_listing(
        &mut self,
        ctx: &Context,
        buyer: Account,
        ticket_id: TicketId,
        price: u128,
    ) -> (r: Result<Vec<MessageSend>, TicketingError>)
        requires
            old(self).wf(),
        ensures
            final(self).wf(),
            r is Err ==> final(self)@ == old(self)@,
            !ctx.spec_is_hub() ==> (r matches Ok(msgs) && final(self)@ == old(self)@ && {
                &&& msgs@.len() == 1
                &&& msgs@[0].destination == ctx.hub_chain_id
                &&& msgs@[0].authenticated
                &&& msgs@[0].message matches Message::BuyListingOnHub {
                    buyer: b,
                    ticket_id: t,
                    price: p,
                } && b@ == buyer@ && t@ == ticket_id@ && p == price
            }),
            ctx.spec_is_hub() ==> ({
                let li = listing_index(old(self)@.listings, ticket_id@);
                let ti = ticket_index(old(self)@.tickets, ticket_id@);
                &&& li == -1 ==> r == Err::<Vec<MessageSend>, TicketingError>(
                    TicketingError::NotFound,
                )
                &&& li >= 0 && old(self)@.listings[li].status != ListingStatus::Active ==> r
                    == Err::<Vec<MessageSend>, TicketingError>(TicketingError::Conflict)
                &&& li >= 0 && old(self)@.listings[li].status == ListingStatus::Active && old(self)@.listings[li].price != price ==> r == Err::<Vec<MessageSend>, TicketingError>(
                    TicketingError::InvalidArgument,
                )
                &&& li >= 0 && old(self)@.listings[li].status == ListingStatus::Active && old(self)@.listings[li].price == price && owners_similar(
                    buyer@.owner,
                    old(self)@.listings[li].seller,
                ) ==> r == Err::<Vec<MessageSend>, TicketingError>(TicketingError::Conflict)
                &&& li >= 0 && old(self)@.listings[li].status == ListingStatus::Active && old(self)@.listings[li].price == price && !owners_similar(
                    buyer@.owner,
                    old(self)@.listings[li].seller,
                ) && (ti == -1 || old(self)@.tickets[ti].owner != old(self)@.listings[li].seller)
                    ==> r == Err::<Vec<MessageSend>, TicketingError>(TicketingError::Conflict)
                &&& li >= 0 && old(self)@.listings[li].status == ListingStatus::Active && old(self)@.listings[li].price == price && !owners_similar(
                    buyer@.owner,
                    old(self)@.listings[li].seller,
                ) && ti >= 0 && old(self)@.tickets[ti].owner == old(self)@.listings[li].seller
                    ==> ({
                    let sold = ListingV { status: ListingStatus::Sold, ..old(self)@.listings[li] };
                    let m_sold = StateModel {
                        listings: old(self)@.listings.update(li, sold),
                        stream: old(self)@.stream.push(
                            StreamEventV::ListingUpdated { listing: sold },
                        ),
                        ..old(self)@
                    };
                    let t = old(self)@.tickets[ti];
                    let same_chain = buyer.chain_id == ctx.chain_id;
                    &&& r is Ok
                    &&& final(self)@ == transfer_model(
                        m_sold,
                        true,
                        same_chain,
                        t,
                        old(self)@.listings[li].seller,
                        buyer@.owner,
                        Some(price),
                    )
                    &&& r matches Ok(msgs) ==> transfer_msgs_ok(
                        msgs@,
                        same_chain,
                        t,
                        old(self)@.listings[li].seller,
                        buyer@,
                        Some(price),
                    )
                })
            }),
    {
        if !ctx.is_hub() {
            let mut msgs: Vec<MessageSend> = Vec::new();
            msgs.push(MessageSend {
                destination: ctx.hub_chain_id,
                message: Message::BuyListingOnHub {
                    buyer: buyer,
                    ticket_id: ticket_id,
                    price: price,
                },
                with_tracking: false,
                authenticated: true,
            });
            return Ok(msgs);
        }
        let li = match self.find_listing_pos(&ticket_id) {
            None => {
                return Err(TicketingError::NotFound);
            },
            Some(i) => i,
        };
        let active = match self.listings[li].status {
            ListingStatus::Active => true,
            _ => false,
        };
        if !active {
            return Err(TicketingError::Conflict);
        }
        if self.listings[li].price != price {
            return Err(TicketingError::InvalidArgument);
        }
        if owner_similar(&buyer.owner, &self.listings[li].seller) {
            return Err(TicketingError::Conflict);
        }
        let ti = match self.find_ticket_pos(&ticket_id) {
            None => {
                return Err(TicketingError::Conflict);
            },
            Some(i) => i,
        };
        if !(self.tickets[ti].owner == self.listings[li].seller) {
            return Err(TicketingError::Conflict);
        }
        let seller = self.listings[li].seller.clone();
        let ticket = self.tickets[ti].clone();
        let sold = Listing {
            ticket_id: self.listings[li].ticket_id.clone(),
            seller: self.listings[li].seller.clone(),
            price: self.listings[li].price,
            status: ListingStatus::Sold,
        };
        proof {
            lemma_map_values_update(self.listings@, |l: Listing| l@, li as int, sold);
            assert(ticket_wf(self@.tickets[ti as int]));
        }
        let sold_copy = sold.clone();
        self.listings.set(li, sold);
        proof {
            assert forall|a: int, b: int| 0 <= a < b < self@.listings.len() implies (
            #[trigger] self@.listings[a]).ticket_id != (#[trigger] self@.listings[b]).ticket_id by {
                assert(old(self)@.listings[a].ticket_id != old(self)@.listings[b].ticket_id);
            }
        }
        self.emit(StreamEvent::ListingUpdated { listing: sold_copy });
        let msgs = self.transfer(ctx, ticket, seller, buyer, Some(price));
        Ok(msgs)
    }

    /// Asks the chain a ticket lives on to release it to the target
    /// account, as an authenticated request; the source chain
    /// re-validates the holder on arrival.
    pub fn remote_claim(
        &self,
        source_account: Account,
        ticket_id: TicketId,
        target_account: Account,
        sale_price: Option<u128>,
    ) -> (msgs: Vec<MessageSend>)
        ensures
            msgs@.len() == 1,
            msgs@[0].destination == source_account.chain_id,
            msgs@[0].authenticated,
            msgs@[0].message matches Message::Claim {
                source_account: sa,
                ticket_id: t,
                target_account: ta,
                sale_price: sp,
            } && sa@ == source_account@ && t@ == ticket_id@ && ta@ == target_account@ && sp
                == sale_price,
    {
        let destination = source_account.chain_id;
        let mut msgs: Vec<MessageSend> = Vec::new();
        msgs.push(MessageSend {
            destination: destination,
            message: Message::Claim {
                source_account: source_account,
                ticket_id: ticket_id,
                target_account: target_account,
                sale_price: sale_price,
            },
            with_tracking: false,
            authenticated: true,
        });
        msgs
    }
}

/// Whether the step's authenticated identity is exactly this holder.
pub open spec fn spec_permits(ctx: Context, owner: Seq<char>) -> bool {
    ctx.authenticated_owner matches Some(a) && a@ == owner
}

/// Whether the step's authenticated identity is exactly this holder.
pub fn permits(ctx: &Context, owner: &AccountOwner) -> (r: bool)
    ensures
        r == spec_permits(*ctx, owner@),
{
    match &ctx.authenticated_owner {
        Some(a) => a == owner,
        None => false,
    }
}

/// The state after a carrier message lands: a bounced ticket goes back
/// to its previous holder untouched; a delivered one is committed to the
/// target holder with the sale settled exactly once, here.
pub open spec fn arrival_model(
    m: StateModel,
    is_hub: bool,
    is_bouncing: bool,
    ticket: TicketV,
    target_owner: Seq<char>,
    seller: Seq<char>,
    sale_price: Option<u128>,
) -> StateModel {
    if is_bouncing {
        let m2 = StateModel {
            stream: if is_hub {
                m.stream.push(StreamEventV::TicketMinted { ticket: ticket })
            } else {
                m.stream
            },
            ..m
        };
        StateModel {
            tickets: upsert_ticket_seq(m2.tickets, ticket),
            owned: owned_with(m2.owned, ticket.owner, ticket.ticket_id),
            ..m2
        }
    } else {
        let t2 = TicketV {
            owner: target_owner,
            last_sale_price: if sale_effective(sale_price) {
                sale_price
            } else {
                ticket.last_sale_price
            },
            ..ticket
        };
        let m2 = settle_model(m, ticket.organizer, seller, ticket.royalty_bps, sale_price);
        let m3 = StateModel {
            stream: if is_hub {
                m2.stream.push(StreamEventV::TicketMinted { ticket: t2 })
            } else {
                m2.stream
            },
            ..m2
        };
        StateModel {
            tickets: upsert_ticket_seq(m3.tickets, t2),
            owned: owned_with(m3.owned, target_owner, t2.ticket_id),
            ..m3
        }
    }
}

impl TicketingState {
    /// Handles one incoming cross-chain message.  A carrier message
    /// commits or rolls back custody; a claim re-validates the holder
    /// before releasing; synchronization messages serve or apply
    /// snapshots; hub-forwarding messages run the forwarded mutation on
    /// the hub and are ignored anywhere else.
    pub fn execute_message(
        &mut self,
        ctx: &Context,
        message: Message,
        is_bouncing: bool,
    ) -> (r: Result<Vec<MessageSend>, TicketingError>)
        requires
            old(self).wf(),
        ensures
            final(self).wf(),
            r is Err ==> final(self)@ == old(self)@,
            (match message {
                Message::Transfer { ticket, target_account, seller, sale_price } => {
                    &&& !ticket_wf(ticket@) ==> r == Err::<Vec<MessageSend>, TicketingError>(
                        TicketingError::InvalidArgument,
                    )
                    &&& ticket_wf(ticket@) ==> (r matches Ok(msgs) && msgs@.len() == 0 && final(self)@ == arrival_model(
                        old(self)@,
                        ctx.spec_is_hub(),
                        is_bouncing,
                        ticket@,
                        target_account@.owner,
                        seller@,
                        sale_price,
                    ))
                },
                Message::Claim { source_account, ticket_id, target_account, sale_price } => {
                    let ti = ticket_index(old(self)@.tickets, ticket_id@);
                    &&& !spec_permits(*ctx, source_account@.owner) ==> r == Err::<
                        Vec<MessageSend>,
                        TicketingError,
                    >(TicketingError::Unauthorized)
                    &&& spec_permits(*ctx, source_account@.owner) && ti == -1 ==> r == Err::<
                        Vec<MessageSend>,
                        TicketingError,
                    >(TicketingError::NotFound)
                    &&& spec_permits(*ctx, source_account@.owner) && ti >= 0 && old(self)@.tickets[ti].owner != source_account@.owner ==> r == Err::<
                        Vec<MessageSend>,
                        TicketingError,
                    >(TicketingError::Unauthorized)
                    &&& spec_permits(*ctx, source_account@.owner) && ti >= 0 && old(self)@.tickets[ti].owner == source_account@.owner ==> ({
                        let same_chain = target_account.chain_id == ctx.chain_id;
                        &&& r is Ok
                        &&& final(self)@ == transfer_model(
                            old(self)@,
                            ctx.spec_is_hub(),
                            same_chain,
                            old(self)@.tickets[ti],
                            source_account@.owner,
                            target_account@.owner,
                            sale_price,
                        )
                        &&& r matches Ok(msgs) ==> transfer_msgs_ok(
                            msgs@,
                            same_chain,
                            old(self)@.tickets[ti],
                            source_account@.owner,
                            target_account@,
                            sale_price,
                        )
                    })
                },
                Message::RequestSync { requester_chain } => {
                    &&& final(self)@ == old(self)@
                    &&& !ctx.spec_is_hub() ==> (r matches Ok(msgs) && msgs@.len() == 0)
                    &&& ctx.spec_is_hub() ==> (r matches Ok(msgs) && {
                        &&& msgs@.len() == 1
                        &&& msgs@[0].destination == requester_chain
                        &&& msgs@[0].message matches Message::InitialStateSync {
                            events: es,
                            tickets: ts,
                            listings: ls,
                        } && es@.map_values(|e: Event| e@) == old(self)@.events && ts@.map_values(
                            |t: Ticket| t@,
                        ) == old(self)@.tickets && ls@.map_values(|l: Listing| l@) == old(self)@.listings
                    })
                },
                Message::InitialStateSync { events, tickets, listings } => {
                    &&& ctx.spec_is_hub() ==> (r matches Ok(msgs) && msgs@.len() == 0 && final(self)@ == old(self)@)
                    &&& !ctx.spec_is_hub() ==> ({
                        let se = events@.map_values(|e: Event| e@);
                        let st = tickets@.map_values(|t: Ticket| t@);
                        let sl = listings@.map_values(|l: Listing| l@);
                        if snapshot_wf(se, st) {
                            (r matches Ok(msgs) && msgs@.len() == 0 && final(self)@
                                == apply_snapshot_model(old(self)@, se, st, sl))
                        } else {
                            r == Err::<Vec<MessageSend>, TicketingError>(
                                TicketingError::InvalidArgument,
                            )
                        }
                    })
                },
                Message::CreateEventOnHub {
                    organizer,
                    event_id,
                    name,
                    description,
                    venue,
                    start_time,
                    royalty_bps,
                    max_tickets,
                } => {
                    &&& !ctx.spec_is_hub() ==> (r matches Ok(msgs) && msgs@.len() == 0 && final(self)@ == old(self)@)
                    &&& ctx.spec_is_hub() && !spec_permits(*ctx, organizer@) ==> r == Err::<
                        Vec<MessageSend>,
                        TicketingError,
                    >(TicketingError::Unauthorized)
                    &&& ctx.spec_is_hub() && spec_permits(*ctx, organizer@) ==> {
                        let ev = new_event_v(
                            organizer@,
                            event_id@,
                            name@,
                            description@,
                            venue@,
                            start_time,
                            royalty_bps,
                            max_tickets,
                        );
                        &&& r matches Ok(msgs) ==> (msgs@.len() == 0 && create_event_args_ok(
                            royalty_bps,
                            max_tickets,
                        ) && event_index(old(self)@.events, event_id@) == -1 && final(self)@ == (
                        StateModel {
                            events: old(self)@.events.push(ev),
                            stream: old(self)@.stream.push(
                                StreamEventV::EventCreated { event: ev },
                            ),
                            ..old(self)@
                        }))
                        &&& !create_event_args_ok(royalty_bps, max_tickets) ==> r == Err::<
                            Vec<MessageSend>,
                            TicketingError,
                        >(TicketingError::InvalidArgument)
                        &&& create_event_args_ok(royalty_bps, max_tickets) && event_index(
                            old(self)@.events,
                            event_id@,
                        ) >= 0 ==> r == Err::<Vec<MessageSend>, TicketingError>(
                            TicketingError::Conflict,
                        )
                        &&& r is Ok <==> create_event_args_ok(royalty_bps, max_tickets)
                            && event_index(old(self)@.events, event_id@) == -1
                    }
                },
                Message::MintTicketOnHub { organizer, event_id, seat, blob_hash, holder } => {
                    &&& !ctx.spec_is_hub() ==> (r matches Ok(msgs) && msgs@.len() == 0 && final(self)@ == old(self)@)
                    &&& ctx.spec_is_hub() && !spec_permits(*ctx, organizer@) ==> r == Err::<
                        Vec<MessageSend>,
                        TicketingError,
                    >(TicketingError::Unauthorized)
                    &&& ctx.spec_is_hub() && spec_permits(*ctx, organizer@) ==> ({
                        let ei = event_index(old(self)@.events, event_id@);
                        &&& ei == -1 ==> r == Err::<Vec<MessageSend>, TicketingError>(
                            TicketingError::NotFound,
                        )
                        &&& ei >= 0 && old(self)@.events[ei].organizer != organizer@ ==> r
                            == Err::<Vec<MessageSend>, TicketingError>(TicketingError::Unauthorized)
                        &&& ei >= 0 && old(self)@.events[ei].organizer == organizer@ && old(self)@.events[ei].minted_tickets >= old(self)@.events[ei].max_tickets ==> r
                            == Err::<Vec<MessageSend>, TicketingError>(TicketingError::Conflict)
                        &&& ei >= 0 && old(self)@.events[ei].organizer == organizer@ && old(self)@.events[ei].minted_tickets < old(self)@.events[ei].max_tickets ==> r
                            is Ok
                    })
                },
                Message::CreateListingOnHub { seller, ticket_id, price } => {
                    &&& !ctx.spec_is_hub() ==> (r matches Ok(msgs) && msgs@.len() == 0 && final(self)@ == old(self)@)
                    &&& ctx.spec_is_hub() && !spec_permits(*ctx, seller@) ==> r == Err::<
                        Vec<MessageSend>,
                        TicketingError,
                    >(TicketingError::Unauthorized)
                    &&& ctx.spec_is_hub() && spec_permits(*ctx, seller@) ==> ({
                        let ti = ticket_index(old(self)@.tickets, ticket_id@);
                        let li = listing_index(old(self)@.listings, ticket_id@);
                        let has_active = li >= 0 && old(self)@.listings[li].status
                            == ListingStatus::Active;
                        let l = ListingV {
                            ticket_id: ticket_id@,
                            seller: seller@,
                            price: price,
                            status: ListingStatus::Active,
                        };
                        &&& ti == -1 <==> r == Err::<Vec<MessageSend>, TicketingError>(
                            TicketingError::NotFound,
                        )
                        &&& ti >= 0 && old(self)@.tickets[ti].owner != seller@ <==> r == Err::<
                            Vec<MessageSend>,
                            TicketingError,
                        >(TicketingError::Unauthorized)
                        &&& ti >= 0 && old(self)@.tickets[ti].owner == seller@ && has_active
                            <==> r == Err::<Vec<MessageSend>, TicketingError>(
                            TicketingError::Conflict,
                        )
                        &&& r is Ok <==> (ti >= 0 && old(self)@.tickets[ti].owner == seller@
                            && !has_active)
                        &&& r matches Ok(msgs) ==> (msgs@.len() == 0 && final(self)@ == (StateModel {
                            listings: upsert_listing_seq(old(self)@.listings, l),
                            stream: old(self)@.stream.push(
                                StreamEventV::ListingCreated { listing: l },
                            ),
                            ..old(self)@
                        }))
                    })
                },
                Message::CancelListingOnHub { seller, ticket_id } => {
                    &&& !ctx.spec_is_hub() ==> (r matches Ok(msgs) && msgs@.len() == 0 && final(self)@ == old(self)@)
                    &&& ctx.spec_is_hub() && !spec_permits(*ctx, seller@) ==> r == Err::<
                        Vec<MessageSend>,
                        TicketingError,
                    >(TicketingError::Unauthorized)
                    &&& ctx.spec_is_hub() && spec_permits(*ctx, seller@) ==> ({
                        let li = listing_index(old(self)@.listings, ticket_id@);
                        &&& li == -1 <==> r == Err::<Vec<MessageSend>, TicketingError>(
                            TicketingError::NotFound,
                        )
                        &&& li >= 0 && old(self)@.listings[li].seller != seller@ <==> r == Err::<
                            Vec<MessageSend>,
                            TicketingError,
                        >(TicketingError::Unauthorized)
                        &&& li >= 0 && old(self)@.listings[li].seller == seller@ && old(self)@.listings[li].status != ListingStatus::Active <==> r == Err::<
                            Vec<MessageSend>,
                            TicketingError,
                        >(TicketingError::Conflict)
                        &&& r is Ok <==> (li >= 0 && old(self)@.listings[li].seller == seller@
                            && old(self)@.listings[li].status == ListingStatus::Active)
                        &&& r matches Ok(msgs) ==> (msgs@.len() == 0 && li >= 0 && final(self)@ == (
                        StateModel {
                            listings: cancel_active_seq(old(self)@.listings, ticket_id@),
                            stream: old(self)@.stream.push(
                                StreamEventV::ListingUpdated {
                                    listing: ListingV {
                                        status: ListingStatus::Cancelled,
                                        ..old(self)@.listings[li]
                                    },
                                },
                            ),
                            ..old(self)@
                        }))
                    })
                },
                Message::BuyListingOnHub { buyer, ticket_id, price } => {
                    &&& !ctx.spec_is_hub() ==> (r matches Ok(msgs) && msgs@.len() == 0 && final(self)@ == old(self)@)
                    &&& ctx.spec_is_hub() && !spec_permits(*ctx, buyer@.owner) ==> r == Err::<
                        Vec<MessageSend>,
                        TicketingError,
                    >(TicketingError::Unauthorized)
                    &&& ctx.spec_is_hub() && spec_permits(*ctx, buyer@.owner) ==> ({
                        let li = listing_index(old(self)@.listings, ticket_id@);
                        let ti = ticket_index(old(self)@.tickets, ticket_id@);
                        &&& li == -1 ==> r == Err::<Vec<MessageSend>, TicketingError>(
                            TicketingError::NotFound,
                        )
                        &&& li >= 0 && old(self)@.listings[li].status != ListingStatus::Active
                            ==> r == Err::<Vec<MessageSend>, TicketingError>(
                            TicketingError::Conflict,
                        )
                        &&& li >= 0 && old(self)@.listings[li].status == ListingStatus::Active
                            && old(self)@.listings[li].price != price ==> r == Err::<
                            Vec<MessageSend>,
                            TicketingError,
                        >(TicketingError::InvalidArgument)
                        &&& li >= 0 && old(self)@.listings[li].status == ListingStatus::Active
                            && old(self)@.listings[li].price == price && owners_similar(
                            buyer@.owner,
                            old(self)@.listings[li].seller,
                        ) ==> r == Err::<Vec<MessageSend>, TicketingError>(
                            TicketingError::Conflict,
                        )
                        &&& li >= 0 && old(self)@.listings[li].status == ListingStatus::Active
                            && old(self)@.listings[li].price == price && !owners_similar(
                            buyer@.owner,
                            old(self)@.listings[li].seller,
                        ) && (ti == -1 || old(self)@.tickets[ti].owner != old(
                            self,
                        )@.listings[li].seller) ==> r == Err::<Vec<MessageSend>, TicketingError>(
                            TicketingError::Conflict,
                        )
                        &&& li >= 0 && old(self)@.listings[li].status == ListingStatus::Active
                            && old(self)@.listings[li].price == price && !owners_similar(
                            buyer@.owner,
                            old(self)@.listings[li].seller,
                        ) && ti >= 0 && old(self)@.tickets[ti].owner == old(
                            self,
                        )@.listings[li].seller ==> r is Ok
                        &&& r matches Ok(msgs) ==> (li >= 0 && ti >= 0 && ({
                            let sold = ListingV {
                                status: ListingStatus::Sold,
                                ..old(self)@.listings[li]
                            };
                            let m_sold = StateModel {
                                listings: old(self)@.listings.update(li, sold),
                                stream: old(self)@.stream.push(
                                    StreamEventV::ListingUpdated { listing: sold },
                                ),
                                ..old(self)@
                            };
                            let same_chain = buyer.chain_id == ctx.chain_id;
                            &&& final(self)@ == transfer_model(
                                m_sold,
                                true,
                                same_chain,
                                old(self)@.tickets[ti],
                                old(self)@.listings[li].seller,
                                buyer@.owner,
                                Some(price),
                            )
                            &&& transfer_msgs_ok(
                                msgs@,
                                same_chain,
                                old(self)@.tickets[ti],
                                old(self)@.listings[li].seller,
                                buyer@,
                                Some(price),
                            )
                        }))
                    })
                },
            }),
    {
        match message {
            Message::Transfer { mut ticket, target_account, seller, sale_price } => {
                if ticket.royalty_bps > MAX_BPS {
                    return Err(TicketingError::InvalidArgument);
                }
                if !is_bouncing {
                    ticket.owner = target_account.owner.clone();
                    self.finalize_sale(&mut ticket, &seller, sale_price);
                }
                if ctx.is_hub() {
                    self.emit(StreamEvent::TicketMinted { ticket: ticket.clone() });
                }
                self.add_ticket(ticket);
                Ok(Vec::new())
            },
            Message::Claim { source_account, ticket_id, target_account, sale_price } => {
                if !permits(ctx, &source_account.owner) {
                    return Err(TicketingError::Unauthorized);
                }
                let ti = match self.find_ticket_pos(&ticket_id) {
                    None => {
                        return Err(TicketingError::NotFound);
                    },
                    Some(i) => i,
                };
                if !(self.tickets[ti].owner == source_account.owner) {
                    return Err(TicketingError::Unauthorized);
                }
                proof {
                    assert(ticket_wf(self@.tickets[ti as int]));
                }
                let ticket = self.tickets[ti].clone();
                let msgs = self.transfer(
                    ctx,
                    ticket,
                    source_account.owner,
                    target_account,
                    sale_price,
                );
                Ok(msgs)
            },
            Message::RequestSync { requester_chain } => {
                if !ctx.is_hub() {
                    return Ok(Vec::new());
                }
                let es = clone_events_vec(&self.events);
                let ts = clone_tickets_vec(&self.tickets);
                let ls = clone_listings_vec(&self.listings);
                let mut msgs: Vec<MessageSend> = Vec::new();
                msgs.push(MessageSend {
                    destination: requester_chain,
                    message: Message::InitialStateSync { events: es, tickets: ts, listings: ls },
                    with_tracking: false,
                    authenticated: false,
                });
                Ok(msgs)
            },
            Message::InitialStateSync { events, tickets, listings } => {
                if ctx.is_hub() {
                    return Ok(Vec::new());
                }
                match self.apply_snapshot(events, tickets, listings) {
                    Ok(()) => Ok(Vec::new()),
                    Err(e) => Err(e),
                }
            },
            Message::CreateEventOnHub {
                organizer,
                event_id,
                name,
                description,
                venue,
                start_time,
                royalty_bps,
                max_tickets,
            } => {
                if !ctx.is_hub() {
                    return Ok(Vec::new());
                }
                if !permits(ctx, &organizer) {
                    return Err(TicketingError::Unauthorized);
                }
                match self.create_event(
                    ctx,
                    organizer,
                    event_id,
                    name,
                    description,
                    venue,
                    start_time,
                    royalty_bps,
                    max_tickets,
                ) {
                    Ok(msgs) => Ok(msgs),
                    Err(e) => Err(e),
                }
            },
            Message::MintTicketOnHub { organizer, event_id, seat, blob_hash, holder } => {
                if !ctx.is_hub() {
                    return Ok(Vec::new());
                }
                if !permits(ctx, &organizer) {
                    return Err(TicketingError::Unauthorized);
                }
                match self.mint_ticket(ctx, organizer, event_id, seat, blob_hash, holder) {
                    Ok(msgs) => Ok(msgs),
                    Err(e) => Err(e),
                }
            },
            Message::CreateListingOnHub { seller, ticket_id, price } => {
                if !ctx.is_hub() {
                    return Ok(Vec::new());
                }
                if !permits(ctx, &seller) {
                    return Err(TicketingError::Unauthorized);
                }
                match self.create_listing(ctx, seller, ticket_id, price) {
                    Ok(msgs) => Ok(msgs),
                    Err(e) => Err(e),
                }
            },
            Message::CancelListingOnHub { seller, ticket_id } => {
                if !ctx.is_hub() {
                    return Ok(Vec::new());
                }
                if !permits(ctx, &seller) {
                    return Err(TicketingError::Unauthorized);
                }
                match self.cancel_listing(ctx, seller, ticket_id) {
                    Ok(msgs) => Ok(msgs),
                    Err(e) => Err(e),
                }
            },
            Message::BuyListingOnHub { buyer, ticket_id, price } => {
                if !ctx.is_hub() {
                    return Ok(Vec::new());
                }
                if !permits(ctx, &buyer.owner) {
                    return Err(TicketingError::Unauthorized);
                }
                match self.buy_listing(ctx, buyer, ticket_id, price) {
                    Ok(msgs) => Ok(msgs),
                    Err(e) => Err(e),
                }
            },
        }
    }
}

/// The identity an operation must have been authenticated for, if any.
pub open spec fn operation_signer(operation: Operation) -> Option<Seq<char>> {
    match operation {
        Operation::CreateEvent { organizer, .. } => Some(organizer@),
        Operation::MintTicket { organizer, .. } => Some(organizer@),
        Operation::TransferTicket { seller, .. } => Some(seller@),
        Operation::ClaimTicket { source_account, .. } => Some(source_account.owner@),
        Operation::CreateListing { seller, .. } => Some(seller@),
        Operation::CancelListing { seller, .. } => Some(seller@),
        Operation::BuyListing { buyer, .. } => Some(buyer.owner@),
        Operation::SubscribeToHub => None,
    }
}

/// Whether the step's authentication covers the operation.
pub open spec fn operation_permitted(ctx: Context, operation: Operation) -> bool {
    match operation_signer(operation) {
        None => true,
        Some(o) => spec_permits(ctx, o),
    }
}

impl TicketingState {
    /// Executes one client operation on this chain: checks that the
    /// caller is authenticated as the acting identity, then runs the
    /// mutation, returning the messages to send and whether the host
    /// should subscribe this chain to the hub's stream.  A rejected
    /// operation leaves no trace.
    pub fn execute_operation(&mut self, ctx: &Context, operation: Operation) -> (r: Result<
        Effects,
        TicketingError,
    >)
        requires
            old(self).wf(),
        ensures
            final(self).wf(),
            r is Err ==> final(self)@ == old(self)@,
            !operation_permitted(*ctx, operation) ==> r == Err::<Effects, TicketingError>(
                TicketingError::Unauthorized,
            ),
            operation_permitted(*ctx, operation) ==> (match operation {
                Operation::TransferTicket { seller, ticket_id, buyer_account, sale_price } => {
                    let ti = ticket_index(old(self)@.tickets, ticket_id@);
                    &&& ti == -1 ==> r == Err::<Effects, TicketingError>(TicketingError::NotFound)
                    &&& ti >= 0 && old(self)@.tickets[ti].owner != seller@ ==> r == Err::<
                        Effects,
                        TicketingError,
                    >(TicketingError::Unauthorized)
                    &&& ti >= 0 && old(self)@.tickets[ti].owner == seller@ ==> ({
                        let same_chain = buyer_account.chain_id == ctx.chain_id;
                        &&& final(self)@ == transfer_model(
                            old(self)@,
                            ctx.spec_is_hub(),
                            same_chain,
                            old(self)@.tickets[ti],
                            seller@,
                            buyer_account@.owner,
                            sale_price,
                        )
                        &&& r matches Ok(e) ==> !e.subscribe && transfer_msgs_ok(
                            e.messages@,
                            same_chain,
                            old(self)@.tickets[ti],
                            seller@,
                            buyer_account@,
                            sale_price,
                        )
                        &&& r is Ok
                    })
                },
                Operation::ClaimTicket { source_account, ticket_id, target_account, sale_price } => {
                    let local = source_account.chain_id == ctx.chain_id;
                    &&& !local ==> (r matches Ok(e) && final(self)@ == old(self)@ && !e.subscribe
                        && e.messages@.len() == 1 && e.messages@[0].destination
                        == source_account.chain_id && e.messages@[0].authenticated && (
                    e.messages@[0].message matches Message::Claim {
                        source_account: sa,
                        ticket_id: t,
                        target_account: ta,
                        sale_price: sp,
                    } && sa@ == source_account@ && t@ == ticket_id@ && ta@ == target_account@ && sp
                        == sale_price))
                    &&& local ==> ({
                        let ti = ticket_index(old(self)@.tickets, ticket_id@);
                        &&& ti == -1 ==> r == Err::<Effects, TicketingError>(
                            TicketingError::NotFound,
                        )
                        &&& ti >= 0 && old(self)@.tickets[ti].owner != source_account@.owner ==> r
                            == Err::<Effects, TicketingError>(TicketingError::Unauthorized)
                        &&& ti >= 0 && old(self)@.tickets[ti].owner == source_account@.owner ==> ({
                            let same_chain = target_account.chain_id == ctx.chain_id;
                            &&& r is Ok
                            &&& final(self)@ == transfer_model(
                                old(self)@,
                                ctx.spec_is_hub(),
                                same_chain,
                                old(self)@.tickets[ti],
                                source_account@.owner,
                                target_account@.owner,
                                sale_price,
                            )
                            &&& r matches Ok(e) ==> !e.subscribe && transfer_msgs_ok(
                                e.messages@,
                                same_chain,
                                old(self)@.tickets[ti],
                                source_account@.owner,
                                target_account@,
                                sale_price,
                            )
                        })
                    })
                },
                Operation::SubscribeToHub => {
                    &&& final(self)@ == old(self)@
                    &&& ctx.spec_is_hub() ==> (r matches Ok(e) && !e.subscribe && e.messages@.len()
                        == 0)
                    &&& !ctx.spec_is_hub() ==> (r matches Ok(e) && e.subscribe && e.messages@.len()
                        == 1 && e.messages@[0].destination == ctx.hub_chain_id && (
                    e.messages@[0].message matches Message::RequestSync { requester_chain: rc }
                        && rc == ctx.chain_id))
                },
                Operation::CreateEvent { .. } => true,
                Operation::MintTicket { .. } => true,
                Operation::CreateListing { .. } => true,
                Operation::CancelListing { .. } => true,
                Operation::BuyListing { .. } => true,
            }),
            operation_permitted(*ctx, operation) ==> (match operation {
                Operation::CreateEvent {
                    organizer,
                    event_id,
                    name,
                    description,
                    venue,
                    start_time,
                    royalty_bps,
                    max_tickets,
                } => {
                    &&& !create_event_args_ok(royalty_bps, max_tickets) <==> r == Err::<
                        Effects,
                        TicketingError,
                    >(TicketingError::InvalidArgument)
                    &&& create_event_args_ok(royalty_bps, max_tickets) && event_index(
                        old(self)@.events,
                        event_id@,
                    ) >= 0 <==> r == Err::<Effects, TicketingError>(TicketingError::Conflict)
                    &&& r is Ok <==> create_event_args_ok(royalty_bps, max_tickets)
                        && event_index(old(self)@.events, event_id@) == -1
                    &&& r matches Ok(e) ==> !e.subscribe && ({
                        let ev = new_event_v(
                            organizer@,
                            event_id@,
                            name@,
                            description@,
                            venue@,
                            start_time,
                            royalty_bps,
                            max_tickets,
                        );
                        &&& final(self)@ == (StateModel {
                            events: old(self)@.events.push(ev),
                            stream: if ctx.spec_is_hub() {
                                old(self)@.stream.push(StreamEventV::EventCreated { event: ev })
                            } else {
                                old(self)@.stream
                            },
                            ..old(self)@
                        })
                        &&& ctx.spec_is_hub() ==> e.messages@.len() == 0
                        &&& !ctx.spec_is_hub() ==> e.messages@.len() == 1
                    })
                },
                Operation::MintTicket { organizer, event_id, seat, blob_hash, holder } => {
                    &&& !ctx.spec_is_hub() ==> (r matches Ok(e) && final(self)@ == old(self)@
                        && !e.subscribe && e.messages@.len() == 1 && e.messages@[0].destination
                        == ctx.hub_chain_id)
                    &&& ctx.spec_is_hub() ==> ({
                        let ei = event_index(old(self)@.events, event_id@);
                        &&& ei == -1 ==> r == Err::<Effects, TicketingError>(
                            TicketingError::NotFound,
                        )
                        &&& ei >= 0 && old(self)@.events[ei].organizer != organizer@ ==> r
                            == Err::<Effects, TicketingError>(TicketingError::Unauthorized)
                        &&& ei >= 0 && old(self)@.events[ei].organizer == organizer@ && old(
                            self,
                        )@.events[ei].minted_tickets >= old(self)@.events[ei].max_tickets ==> r
                            == Err::<Effects, TicketingError>(TicketingError::Conflict)
                        &&& ei >= 0 && old(self)@.events[ei].organizer == organizer@ && old(
                            self,
                        )@.events[ei].minted_tickets < old(self)@.events[ei].max_tickets ==> ({
                            let ev = old(self)@.events[ei];
                            let t = minted_ticket_v(
                                ctx.chain_id.value,
                                ctx.application_id.value,
                                ev,
                                event_id@,
                                seat@,
                                organizer@,
                                blob_hash@,
                                holder@.owner,
                            );
                            let local = holder.chain_id == ctx.chain_id;
                            let m1 = StateModel {
                                events: upsert_event_seq(
                                    old(self)@.events,
                                    EventV { minted_tickets: (ev.minted_tickets + 1) as u32, ..ev },
                                ),
                                stream: old(self)@.stream.push(
                                    StreamEventV::TicketMinted { ticket: t },
                                ),
                                ..old(self)@
                            };
                            &&& r is Ok
                            &&& final(self)@ == if local {
                                StateModel {
                                    tickets: upsert_ticket_seq(m1.tickets, t),
                                    owned: owned_with(m1.owned, holder@.owner, t.ticket_id),
                                    ..m1
                                }
                            } else {
                                StateModel { tickets: upsert_ticket_seq(m1.tickets, t), ..m1 }
                            }
                            &&& r matches Ok(e) ==> !e.subscribe && (if local {
                                e.messages@.len() == 0
                            } else {
                                e.messages@.len() == 1 && e.messages@[0].destination
                                    == holder.chain_id && e.messages@[0].with_tracking
                            })
                        })
                    })
                },
                Operation::CreateListing { seller, ticket_id, price } => {
                    let ti = ticket_index(old(self)@.tickets, ticket_id@);
                    let li = listing_index(old(self)@.listings, ticket_id@);
                    let has_active = li >= 0 && old(self)@.listings[li].status
                        == ListingStatus::Active;
                    &&& ti == -1 <==> r == Err::<Effects, TicketingError>(TicketingError::NotFound)
                    &&& ti >= 0 && old(self)@.tickets[ti].owner != seller@ <==> r == Err::<
                        Effects,
                        TicketingError,
                    >(TicketingError::Unauthorized)
                    &&& ti >= 0 && old(self)@.tickets[ti].owner == seller@ && has_active <==> r
                        == Err::<Effects, TicketingError>(TicketingError::Conflict)
                    &&& r is Ok <==> (ti >= 0 && old(self)@.tickets[ti].owner == seller@
                        && !has_active)
                    &&& r matches Ok(e) ==> !e.subscribe && ({
                        let l = ListingV {
                            ticket_id: ticket_id@,
                            seller: seller@,
                            price: price,
                            status: ListingStatus::Active,
                        };
                        final(self)@ == (StateModel {
                            listings: upsert_listing_seq(old(self)@.listings, l),
                            stream: if ctx.spec_is_hub() {
                                old(self)@.stream.push(StreamEventV::ListingCreated { listing: l })
                            } else {
                                old(self)@.stream
                            },
                            ..old(self)@
                        })
                    })
                },
                Operation::CancelListing { seller, ticket_id } => {
                    let li = listing_index(old(self)@.listings, ticket_id@);
                    &&& li == -1 <==> r == Err::<Effects, TicketingError>(TicketingError::NotFound)
                    &&& li >= 0 && old(self)@.listings[li].seller != seller@ <==> r == Err::<
                        Effects,
                        TicketingError,
                    >(TicketingError::Unauthorized)
                    &&& li >= 0 && old(self)@.listings[li].seller == seller@ && old(
                        self,
                    )@.listings[li].status != ListingStatus::Active <==> r == Err::<
                        Effects,
                        TicketingError,
                    >(TicketingError::Conflict)
                    &&& r is Ok <==> (li >= 0 && old(self)@.listings[li].seller == seller@ && old(
                        self,
                    )@.listings[li].status == ListingStatus::Active)
                    &&& r matches Ok(e) ==> !e.subscribe && final(self)@ == (StateModel {
                        listings: cancel_active_seq(old(self)@.listings, ticket_id@),
                        stream: if ctx.spec_is_hub() {
                            old(self)@.stream.push(
                                StreamEventV::ListingUpdated {
                                    listing: ListingV {
                                        status: ListingStatus::Cancelled,
                                        ..old(self)@.listings[li]
                                    },
                                },
                            )
                        } else {
                            old(self)@.stream
                        },
                        ..old(self)@
                    })
                },
                Operation::BuyListing { buyer, ticket_id, price } => {
                    &&& !ctx.spec_is_hub() ==> (r matches Ok(e) && final(self)@ == old(self)@
                        && !e.subscribe && e.messages@.len() == 1 && e.messages@[0].destination
                        == ctx.hub_chain_id)
                    &&& ctx.spec_is_hub() ==> ({
                        let li = listing_index(old(self)@.listings, ticket_id@);
                        let ti = ticket_index(old(self)@.tickets, ticket_id@);
                        &&& li == -1 ==> r == Err::<Effects, TicketingError>(
                            TicketingError::NotFound,
                        ) && true
                        &&& li >= 0 && old(self)@.listings[li].status != ListingStatus::Active
                            ==> r == Err::<Effects, TicketingError>(TicketingError::Conflict)
                        &&& li >= 0 && old(self)@.listings[li].status == ListingStatus::Active
                            && old(self)@.listings[li].price != price ==> r == Err::<
                            Effects,
                            TicketingError,
                        >(TicketingError::InvalidArgument)
                        &&& li >= 0 && old(self)@.listings[li].status == ListingStatus::Active
                            && old(self)@.listings[li].price == price && owners_similar(
                            buyer@.owner,
                            old(self)@.listings[li].seller,
                        ) ==> r == Err::<Effects, TicketingError>(TicketingError::Conflict)
                        &&& li >= 0 && old(self)@.listings[li].status == ListingStatus::Active
                            && old(self)@.listings[li].price == price && !owners_similar(
                            buyer@.owner,
                            old(self)@.listings[li].seller,
                        ) && (ti == -1 || old(self)@.tickets[ti].owner != old(
                            self,
                        )@.listings[li].seller) ==> r == Err::<Effects, TicketingError>(
                            TicketingError::Conflict,
                        )
                        &&& li >= 0 && old(self)@.listings[li].status == ListingStatus::Active
                            && old(self)@.listings[li].price == price && !owners_similar(
                            buyer@.owner,
                            old(self)@.listings[li].seller,
                        ) && ti >= 0 && old(self)@.tickets[ti].owner == old(
                            self,
                        )@.listings[li].seller ==> r is Ok
                        &&& r matches Ok(e) ==> (!e.subscribe && li >= 0 && ti >= 0 && ({
                            let sold = ListingV {
                                status: ListingStatus::Sold,
                                ..old(self)@.listings[li]
                            };
                            let m_sold = StateModel {
                                listings: old(self)@.listings.update(li, sold),
                                stream: old(self)@.stream.push(
                                    StreamEventV::ListingUpdated { listing: sold },
                                ),
                                ..old(self)@
                            };
                            let same_chain = buyer.chain_id == ctx.chain_id;
                            &&& final(self)@ == transfer_model(
                                m_sold,
                                true,
                                same_chain,
                                old(self)@.tickets[ti],
                                old(self)@.listings[li].seller,
                                buyer@.owner,
                                Some(price),
                            )
                            &&& transfer_msgs_ok(
                                e.messages@,
                                same_chain,
                                old(self)@.tickets[ti],
                                old(self)@.listings[li].seller,
                                buyer@,
                                Some(price),
                            )
                        }))
                    })
                },
                _ => true,
            }),
    {
        match operation {
            Operation::CreateEvent {
                organizer,
                event_id,
                name,
                description,
                venue,
                start_time,
                royalty_bps,
                max_tickets,
            } => {
                if !permits(ctx, &organizer) {
                    return Err(TicketingError::Unauthorized);
                }
                match self.create_event(
                    ctx,
                    organizer,
                    event_id,
                    name,
                    description,
                    venue,
                    start_time,
                    royalty_bps,
                    max_tickets,
                ) {
                    Ok(messages) => Ok(Effects { messages: messages, subscribe: false }),
                    Err(e) => Err(e),
                }
            },
            Operation::MintTicket { organizer, event_id, seat, blob_hash, holder } => {
                if !permits(ctx, &organizer) {
                    return Err(TicketingError::Unauthorized);
                }
                match self.mint_ticket(ctx, organizer, event_id, seat, blob_hash, holder) {
                    Ok(messages) => Ok(Effects { messages: messages, subscribe: false }),
                    Err(e) => Err(e),
                }
            },
            Operation::TransferTicket { seller, ticket_id, buyer_account, sale_price } => {
                if !permits(ctx, &seller) {
                    return Err(TicketingError::Unauthorized);
                }
                let ti = match self.find_ticket_pos(&ticket_id) {
                    None => {
                        return Err(TicketingError::NotFound);
                    },
                    Some(i) => i,
                };
                if !(self.tickets[ti].owner == seller) {
                    return Err(TicketingError::Unauthorized);
                }
                proof {
                    assert(ticket_wf(self@.tickets[ti as int]));
                }
                let ticket = self.tickets[ti].clone();
                let messages = self.transfer(ctx, ticket, seller, buyer_account, sale_price);
                Ok(Effects { messages: messages, subscribe: false })
            },
            Operation::ClaimTicket { source_account, ticket_id, target_account, sale_price } => {
                if !permits(ctx, &source_account.owner) {
                    return Err(TicketingError::Unauthorized);
                }
                if source_account.chain_id == ctx.chain_id {
                    let ti = match self.find_ticket_pos(&ticket_id) {
                        None => {
                            return Err(TicketingError::NotFound);
                        },
                        Some(i) => i,
                    };
                    if !(self.tickets[ti].owner == source_account.owner) {
                        return Err(TicketingError::Unauthorized);
                    }
                    proof {
                        assert(ticket_wf(self@.tickets[ti as int]));
                    }
                    let ticket = self.tickets[ti].clone();
                    let messages = self.transfer(
                        ctx,
                        ticket,
                        source_account.owner,
                        target_account,
                        sale_price,
                    );
                    Ok(Effects { messages: messages, subscribe: false })
                } else {
                    let messages = self.remote_claim(
                        source_account,
                        ticket_id,
                        target_account,
                        sale_price,
                    );
                    Ok(Effects { messages: messages, subscribe: false })
                }
            },
            Operation::CreateListing { seller, ticket_id, price } => {
                if !permits(ctx, &seller) {
                    return Err(TicketingError::Unauthorized);
                }
                match self.create_listing(ctx, seller, ticket_id, price) {
                    Ok(messages) => Ok(Effects { messages: messages, subscribe: false }),
                    Err(e) => Err(e),
                }
            },
            Operation::CancelListing { seller, ticket_id } => {
                if !permits(ctx, &seller) {
                    return Err(TicketingError::Unauthorized);
                }
                match self.cancel_listing(ctx, seller, ticket_id) {
                    Ok(messages) => Ok(Effects { messages: messages, subscribe: false }),
                    Err(e) => Err(e),
                }
            },
            Operation::BuyListing { buyer, ticket_id, price } => {
                if !permits(ctx, &buyer.owner) {
                    return Err(TicketingError::Unauthorized);
                }
                match self.buy_listing(ctx, buyer, ticket_id, price) {
                    Ok(messages) => Ok(Effects { messages: messages, subscribe: false }),
                    Err(e) => Err(e),
                }
            },
            Operation::SubscribeToHub => {
                if ctx.is_hub() {
                    return Ok(Effects { messages: Vec::new(), subscribe: false });
                }
                let mut messages: Vec<MessageSend> = Vec::new();
                messages.push(MessageSend {
                    destination: ctx.hub_chain_id,
                    message: Message::RequestSync { requester_chain: ctx.chain_id },
                    with_tracking: false,
                    authenticated: false,
                });
                Ok(Effects { messages: messages, subscribe: true })
            },
        }
    }
}

} // verus!
