//! Operations, cross-chain messages and execution context.
//!
//! An operation is what a client asks one chain to do; a message is what
//! one chain sends to another.  Executing either returns the messages to
//! be sent, so that the host only performs delivery and never decides.

use vstd::prelude::*;
use crate::types::{
    Account, AccountOwner, ApplicationId, ChainId, DataBlobHash, Event, EventId, Listing, Ticket,
    TicketId,
};

verus! {

/// Where an execution step runs: this chain's identity, the application,
/// the designated hub chain, and the identity the host has authenticated
/// for the step, if any.
pub struct Context {
    pub chain_id: ChainId,
    pub application_id: ApplicationId,
    pub hub_chain_id: ChainId,
    pub authenticated_owner: Option<AccountOwner>,
}

impl Context {
    /// Whether this chain is the hub, the one authoritative for the
    /// catalog and the listings.
    pub open spec fn spec_is_hub(&self) -> bool {
        self.chain_id == self.hub_chain_id
    }

    /// Whether this chain is the hub.
    pub fn is_hub(&self) -> (r: bool)
        ensures
            r == self.spec_is_hub(),
    {
        self.chain_id == self.hub_chain_id
    }
}

/// Operations a client can submit to the chain it talks to.
#[derive(Debug)]
pub enum Operation {
    /// Registers a new event with royalty terms.
    CreateEvent {
        organizer: AccountOwner,
        event_id: EventId,
        name: String,
        description: String,
        venue: String,
        start_time: u64,
        royalty_bps: u16,
        max_tickets: u32,
    },
    /// Mints a ticket for a seat within an event to the given holder.
    MintTicket {
        organizer: AccountOwner,
        event_id: EventId,
        seat: String,
        blob_hash: DataBlobHash,
        holder: Account,
    },
    /// Transfers a ticket that currently resides on this chain.
    TransferTicket {
        seller: AccountOwner,
        ticket_id: TicketId,
        buyer_account: Account,
        sale_price: Option<u128>,
    },
    /// Claims a ticket that resides on a remote chain.
    ClaimTicket {
        source_account: Account,
        ticket_id: TicketId,
        target_account: Account,
        sale_price: Option<u128>,
    },
    /// Creates a marketplace listing for a ticket owned by the caller.
    CreateListing { seller: AccountOwner, ticket_id: TicketId, price: u128 },
    /// Cancels an existing listing (only the seller may).
    CancelListing { seller: AccountOwner, ticket_id: TicketId },
    /// Buys an active listing.
    BuyListing { buyer: Account, ticket_id: TicketId, price: u128 },
    /// Subscribes this chain to the hub's broadcast stream and requests
    /// a full state snapshot.
    SubscribeToHub,
}

/// Cross-chain messages of the protocol.
#[derive(Debug)]
pub enum Message {
    /// Carries a ticket to the target account's chain; bounces back to
    /// the sender when delivery fails.
    Transfer {
        ticket: Ticket,
        target_account: Account,
        seller: AccountOwner,
        sale_price: Option<u128>,
    },
    /// Asks a remote chain to release a ticket and forward it on.
    Claim {
        source_account: Account,
        ticket_id: TicketId,
        target_account: Account,
        sale_price: Option<u128>,
    },
    /// Asks the hub for a full state snapshot.
    RequestSync { requester_chain: ChainId },
    /// The hub's full snapshot: all events, tickets and listings.
    InitialStateSync { events: Vec<Event>, tickets: Vec<Ticket>, listings: Vec<Listing> },
    /// Forwards an event creation from a spoke to the hub.
    CreateEventOnHub {
        organizer: AccountOwner,
        event_id: EventId,
        name: String,
        description: String,
        venue: String,
        start_time: u64,
        royalty_bps: u16,
        max_tickets: u32,
    },
    /// Forwards a mint request from a spoke to the hub.
    MintTicketOnHub {
        organizer: AccountOwner,
        event_id: EventId,
        seat: String,
        blob_hash: DataBlobHash,
        holder: Account,
    },
    /// Forwards a listing creation from a spoke to the hub.
    CreateListingOnHub { seller: AccountOwner, ticket_id: TicketId, price: u128 },
    /// Forwards a listing cancellation from a spoke to the hub.
    CancelListingOnHub { seller: AccountOwner, ticket_id: TicketId },
    /// Forwards a purchase from a spoke to the hub.
    BuyListingOnHub { buyer: Account, ticket_id: TicketId, price: u128 },
}

/// One message queued for delivery to one chain.
#[derive(Debug)]
pub struct MessageSend {
    pub destination: ChainId,
    pub message: Message,
    /// Whether non-delivery must bounce the message back to the sender.
    pub with_tracking: bool,
    /// Whether the sender's authenticated identity travels with it.
    pub authenticated: bool,
}

/// Everything an execution step asks the host to do afterwards.
#[derive(Debug)]
pub struct Effects {
    pub messages: Vec<MessageSend>,
    /// Whether this chain should subscribe to the hub's stream.
    pub subscribe: bool,
}

} // verus!
