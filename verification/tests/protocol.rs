//! End-to-end runs of the protocol on concrete chains.

use ticketing::protocol::{Context, Message, Operation};
use ticketing::state::TicketingState;
use ticketing::types::{
    Account, AccountOwner, ApplicationId, ChainId, DataBlobHash, EventId, ListingStatus,
    TicketId, TicketingError,
};

fn owner(s: &str) -> AccountOwner {
    AccountOwner { value: s.to_string() }
}

fn account(chain: u64, s: &str) -> Account {
    Account { chain_id: ChainId { value: chain }, owner: owner(s) }
}

fn ctx(chain: u64, signer: &str) -> Context {
    Context {
        chain_id: ChainId { value: chain },
        application_id: ApplicationId { value: 7 },
        hub_chain_id: ChainId { value: 1 },
        authenticated_owner: Some(owner(signer)),
    }
}

fn blob() -> DataBlobHash {
    DataBlobHash { bytes: vec![9u8; 32] }
}

fn event_id(s: &str) -> EventId {
    EventId { value: s.to_string() }
}

fn create_event_op(organizer: &str, id: &str, royalty_bps: u16, max_tickets: u32) -> Operation {
    Operation::CreateEvent {
        organizer: owner(organizer),
        event_id: event_id(id),
        name: "Concert".to_string(),
        description: "An evening".to_string(),
        venue: "Hall".to_string(),
        start_time: 1_700_000_000,
        royalty_bps,
        max_tickets,
    }
}

fn mint_op(organizer: &str, id: &str, seat: &str, holder: Account) -> Operation {
    Operation::MintTicket {
        organizer: owner(organizer),
        event_id: event_id(id),
        seat: seat.to_string(),
        blob_hash: blob(),
        holder,
    }
}

/// Builds a hub with event "E" (max 2 seats, 500 bps) and two tickets
/// minted to H1 and H2 on the hub chain.
fn hub_with_two_tickets() -> TicketingState {
    let mut hub = TicketingState::instantiate();
    let c = ctx(1, "O");
    hub.execute_operation(&c, create_event_op("O", "E", 500, 2)).unwrap();
    hub.execute_operation(&c, mint_op("O", "E", "A1", account(1, "H1"))).unwrap();
    hub.execute_operation(&c, mint_op("O", "E", "A2", account(1, "H2"))).unwrap();
    hub
}

#[test]
fn mint_two_seats_then_supply_exhausted() {
    let mut hub = hub_with_two_tickets();
    let ev = hub.event(&event_id("E")).unwrap();
    assert_eq!(ev.minted_tickets, 2);
    assert_eq!(ev.max_tickets, 2);
    assert_eq!(hub.tickets.len(), 2);
    let c = ctx(1, "O");
    let r = hub.execute_operation(&c, mint_op("O", "E", "A3", account(1, "H3")));
    assert_eq!(r.unwrap_err(), TicketingError::Conflict);
    // the failed mint left no trace
    assert_eq!(hub.event(&event_id("E")).unwrap().minted_tickets, 2);
    assert_eq!(hub.tickets.len(), 2);
}

#[test]
fn mint_unknown_event_not_found() {
    let mut hub = TicketingState::instantiate();
    let c = ctx(1, "O");
    let r = hub.execute_operation(&c, mint_op("O", "X", "A1", account(1, "H1")));
    assert_eq!(r.unwrap_err(), TicketingError::NotFound);
}

#[test]
fn mint_by_stranger_unauthorized() {
    let mut hub = TicketingState::instantiate();
    hub.execute_operation(&ctx(1, "O"), create_event_op("O", "E", 500, 2)).unwrap();
    let r = hub.execute_operation(&ctx(1, "P"), mint_op("P", "E", "A1", account(1, "H1")));
    assert_eq!(r.unwrap_err(), TicketingError::Unauthorized);
}

#[test]
fn unauthenticated_caller_rejected() {
    let mut hub = TicketingState::instantiate();
    // signed as P but acting as O
    let r = hub.execute_operation(&ctx(1, "P"), create_event_op("O", "E", 500, 2));
    assert_eq!(r.unwrap_err(), TicketingError::Unauthorized);
}

#[test]
fn create_event_bad_terms_invalid_argument() {
    let mut hub = TicketingState::instantiate();
    let r = hub.execute_operation(&ctx(1, "O"), create_event_op("O", "E", 10_001, 2));
    assert_eq!(r.unwrap_err(), TicketingError::InvalidArgument);
    let r = hub.execute_operation(&ctx(1, "O"), create_event_op("O", "E", 500, 0));
    assert_eq!(r.unwrap_err(), TicketingError::InvalidArgument);
}

#[test]
fn duplicate_event_id_conflict() {
    let mut hub = TicketingState::instantiate();
    hub.execute_operation(&ctx(1, "O"), create_event_op("O", "E", 500, 2)).unwrap();
    let r = hub.execute_operation(&ctx(1, "O"), create_event_op("O", "E", 100, 5));
    assert_eq!(r.unwrap_err(), TicketingError::Conflict);
}

#[test]
fn list_buy_settles_royalty_and_transfers() {
    let mut hub = hub_with_two_tickets();
    let tid: TicketId = hub.tickets[0].ticket_id.clone();
    assert_eq!(hub.tickets[0].owner, owner("H1"));
    hub.execute_operation(
        &ctx(1, "H1"),
        Operation::CreateListing { seller: owner("H1"), ticket_id: tid.clone(), price: 1000 },
    )
    .unwrap();
    hub.execute_operation(
        &ctx(1, "H3"),
        Operation::BuyListing { buyer: account(1, "H3"), ticket_id: tid.clone(), price: 1000 },
    )
    .unwrap();
    assert_eq!(hub.royalty_balance(&owner("O")).pending, "50");
    assert_eq!(hub.royalty_balance(&owner("H1")).pending, "950");
    assert_eq!(hub.total_royalties, 50);
    assert_eq!(hub.listings[0].status, ListingStatus::Sold);
    let t = hub.get_ticket(&tid).unwrap();
    assert_eq!(t.owner, owner("H3"));
    assert_eq!(t.last_sale_price, Some(1000));
    // single ownership: the ticket id moved from H1's set to H3's
    assert_eq!(hub.owned_ticket_ids_of(&owner("H1")).len(), 0);
    assert_eq!(hub.owned_ticket_ids_of(&owner("H3")).len(), 1);
}

#[test]
fn buy_price_mismatch_invalid_argument() {
    let mut hub = hub_with_two_tickets();
    let tid = hub.tickets[0].ticket_id.clone();
    hub.execute_operation(
        &ctx(1, "H1"),
        Operation::CreateListing { seller: owner("H1"), ticket_id: tid.clone(), price: 1000 },
    )
    .unwrap();
    let r = hub.execute_operation(
        &ctx(1, "H3"),
        Operation::BuyListing { buyer: account(1, "H3"), ticket_id: tid, price: 999 },
    );
    assert_eq!(r.unwrap_err(), TicketingError::InvalidArgument);
}

#[test]
fn self_purchase_rejected_case_insensitively() {
    let mut hub = hub_with_two_tickets();
    let tid = hub.tickets[0].ticket_id.clone();
    hub.execute_operation(
        &ctx(1, "H1"),
        Operation::CreateListing { seller: owner("H1"), ticket_id: tid.clone(), price: 1000 },
    )
    .unwrap();
    let r = hub.execute_operation(
        &ctx(1, "h1"),
        Operation::BuyListing { buyer: account(1, "h1"), ticket_id: tid, price: 1000 },
    );
    assert_eq!(r.unwrap_err(), TicketingError::Conflict);
}

#[test]
fn second_active_listing_conflict() {
    let mut hub = hub_with_two_tickets();
    let tid = hub.tickets[0].ticket_id.clone();
    hub.execute_operation(
        &ctx(1, "H1"),
        Operation::CreateListing { seller: owner("H1"), ticket_id: tid.clone(), price: 1000 },
    )
    .unwrap();
    let r = hub.execute_operation(
        &ctx(1, "H1"),
        Operation::CreateListing { seller: owner("H1"), ticket_id: tid, price: 2000 },
    );
    assert_eq!(r.unwrap_err(), TicketingError::Conflict);
}

#[test]
fn cancel_then_relist_but_never_reactivate() {
    let mut hub = hub_with_two_tickets();
    let tid = hub.tickets[0].ticket_id.clone();
    hub.execute_operation(
        &ctx(1, "H1"),
        Operation::CreateListing { seller: owner("H1"), ticket_id: tid.clone(), price: 1000 },
    )
    .unwrap();
    hub.execute_operation(
        &ctx(1, "H1"),
        Operation::CancelListing { seller: owner("H1"), ticket_id: tid.clone() },
    )
    .unwrap();
    assert_eq!(hub.listings[0].status, ListingStatus::Cancelled);
    // cancelling again does not re-activate, nor cancel anew
    let r = hub.execute_operation(
        &ctx(1, "H1"),
        Operation::CancelListing { seller: owner("H1"), ticket_id: tid.clone() },
    );
    assert_eq!(r.unwrap_err(), TicketingError::Conflict);
    assert_eq!(hub.listings[0].status, ListingStatus::Cancelled);
    // a relist replaces the spent listing
    hub.execute_operation(
        &ctx(1, "H1"),
        Operation::CreateListing { seller: owner("H1"), ticket_id: tid.clone(), price: 1500 },
    )
    .unwrap();
    assert_eq!(hub.listings[0].status, ListingStatus::Active);
    assert_eq!(hub.listings[0].price, 1500);
}

#[test]
fn cancel_by_stranger_unauthorized() {
    let mut hub = hub_with_two_tickets();
    let tid = hub.tickets[0].ticket_id.clone();
    hub.execute_operation(
        &ctx(1, "H1"),
        Operation::CreateListing { seller: owner("H1"), ticket_id: tid.clone(), price: 1000 },
    )
    .unwrap();
    let r = hub.execute_operation(
        &ctx(1, "H2"),
        Operation::CancelListing { seller: owner("H2"), ticket_id: tid },
    );
    assert_eq!(r.unwrap_err(), TicketingError::Unauthorized);
}

#[test]
fn listing_unknown_ticket_not_found() {
    let mut hub = TicketingState::instantiate();
    let r = hub.execute_operation(
        &ctx(1, "H1"),
        Operation::CreateListing {
            seller: owner("H1"),
            ticket_id: TicketId { id: vec![1, 2, 3] },
            price: 10,
        },
    );
    assert_eq!(r.unwrap_err(), TicketingError::NotFound);
}

#[test]
fn cross_chain_transfer_leaves_at_once_and_bounce_restores() {
    let mut hub = hub_with_two_tickets();
    let tid = hub.tickets[0].ticket_id.clone();
    let effects = hub
        .execute_operation(
            &ctx(1, "H1"),
            Operation::TransferTicket {
                seller: owner("H1"),
                ticket_id: tid.clone(),
                buyer_account: account(2, "H9"),
                sale_price: Some(100),
            },
        )
        .unwrap();
    // custody left immediately; the hub keeps a reference record
    assert_eq!(hub.owned_ticket_ids_of(&owner("H1")).len(), 0);
    assert_eq!(hub.get_ticket(&tid).unwrap().owner, owner("H9"));
    // no settlement before the holder change commits
    assert_eq!(hub.royalty_balance(&owner("O")).pending, "0");
    assert_eq!(effects.messages.len(), 1);
    let send = &effects.messages[0];
    assert_eq!(send.destination, ChainId { value: 2 });
    assert!(send.with_tracking);
    // the message bounces: the ticket returns to H1, still with no settlement
    let bounced = match &send.message {
        Message::Transfer { ticket, target_account, seller, sale_price } => Message::Transfer {
            ticket: ticket.clone(),
            target_account: target_account.clone(),
            seller: seller.clone(),
            sale_price: *sale_price,
        },
        _ => panic!("expected a carrier message"),
    };
    hub.execute_message(&ctx(1, "H1"), bounced, true).unwrap();
    assert_eq!(hub.owned_ticket_ids_of(&owner("H1")).len(), 1);
    assert_eq!(hub.get_ticket(&tid).unwrap().owner, owner("H1"));
    assert_eq!(hub.royalty_balance(&owner("O")).pending, "0");
    assert_eq!(hub.total_royalties, 0);
}

#[test]
fn cross_chain_transfer_delivery_settles_once() {
    let mut hub = hub_with_two_tickets();
    let tid = hub.tickets[0].ticket_id.clone();
    let effects = hub
        .execute_operation(
            &ctx(1, "H1"),
            Operation::TransferTicket {
                seller: owner("H1"),
                ticket_id: tid.clone(),
                buyer_account: account(2, "H9"),
                sale_price: Some(100),
            },
        )
        .unwrap();
    // delivery on the destination spoke commits the change and settles
    let mut spoke = TicketingState::instantiate();
    let c2 = ctx(2, "H9");
    let msg = effects.messages.into_iter().next().unwrap().message;
    spoke.execute_message(&c2, msg, false).unwrap();
    assert_eq!(spoke.get_ticket(&tid).unwrap().owner, owner("H9"));
    assert_eq!(spoke.owned_ticket_ids_of(&owner("H9")).len(), 1);
    // royalty 100 * 500 / 10000 = 5, proceeds 95, accrued exactly once, here
    assert_eq!(spoke.royalty_balance(&owner("O")).pending, "5");
    assert_eq!(spoke.royalty_balance(&owner("H1")).pending, "95");
    assert_eq!(spoke.total_royalties, 5);
    assert_eq!(hub.total_royalties, 0);
}

#[test]
fn claim_revalidates_holder_on_arrival() {
    let mut hub = hub_with_two_tickets();
    let tid = hub.tickets[0].ticket_id.clone();
    // a claim for a ticket whose holder no longer matches is rejected
    let r = hub.execute_message(
        &ctx(1, "H2"),
        Message::Claim {
            source_account: account(1, "H2"),
            ticket_id: tid.clone(),
            target_account: account(2, "H9"),
            sale_price: None,
        },
        false,
    );
    assert_eq!(r.unwrap_err(), TicketingError::Unauthorized);
    // the rightful holder's claim releases the ticket
    let msgs = hub
        .execute_message(
            &ctx(1, "H1"),
            Message::Claim {
                source_account: account(1, "H1"),
                ticket_id: tid.clone(),
                target_account: account(2, "H9"),
                sale_price: None,
            },
            false,
        )
        .unwrap();
    assert_eq!(msgs.len(), 1);
    assert_eq!(hub.owned_ticket_ids_of(&owner("H1")).len(), 0);
}

#[test]
fn remote_claim_is_forwarded() {
    let mut spoke = TicketingState::instantiate();
    let effects = spoke
        .execute_operation(
            &ctx(2, "H1"),
            Operation::ClaimTicket {
                source_account: account(3, "H1"),
                ticket_id: TicketId { id: vec![1] },
                target_account: account(2, "H1"),
                sale_price: None,
            },
        )
        .unwrap();
    assert_eq!(effects.messages.len(), 1);
    assert_eq!(effects.messages[0].destination, ChainId { value: 3 });
    assert!(effects.messages[0].authenticated);
    assert!(matches!(effects.messages[0].message, Message::Claim { .. }));
}

#[test]
fn spoke_subscribes_and_receives_snapshot_after_three_mutations() {
    let mut hub = TicketingState::instantiate();
    hub.execute_operation(&ctx(1, "O"), create_event_op("O", "E", 500, 2)).unwrap();
    hub.execute_operation(&ctx(1, "O"), mint_op("O", "E", "A1", account(1, "H1"))).unwrap();
    let tid = hub.tickets[0].ticket_id.clone();
    hub.execute_operation(
        &ctx(1, "H1"),
        Operation::CreateListing { seller: owner("H1"), ticket_id: tid.clone(), price: 1000 },
    )
    .unwrap();
    assert_eq!(hub.stream.len(), 3);

    let mut spoke = TicketingState::instantiate();
    let c2 = ctx(2, "S");
    let effects = spoke.execute_operation(&c2, Operation::SubscribeToHub).unwrap();
    assert!(effects.subscribe);
    assert_eq!(effects.messages.len(), 1);
    let request = effects.messages.into_iter().next().unwrap();
    assert_eq!(request.destination, ChainId { value: 1 });

    let reply = hub.execute_message(&ctx(1, "S"), request.message, false).unwrap();
    assert_eq!(reply.len(), 1);
    let snapshot = reply.into_iter().next().unwrap();
    assert_eq!(snapshot.destination, ChainId { value: 2 });
    spoke.execute_message(&c2, snapshot.message, false).unwrap();

    // all three entities arrived
    assert_eq!(spoke.event(&event_id("E")).unwrap().minted_tickets, 1);
    assert_eq!(spoke.get_ticket(&tid).unwrap().owner, owner("H1"));
    assert_eq!(spoke.listings.len(), 1);
    assert_eq!(spoke.listings[0].price, 1000);

    // a duplicate stream event for a known entity changes nothing
    let before_events = spoke.all_events();
    let dup = hub.stream[1].clone();
    spoke.apply_stream_event(dup).unwrap();
    let after_events = spoke.all_events();
    assert_eq!(before_events.len(), after_events.len());
    assert_eq!(spoke.tickets.len(), 1);
    assert_eq!(spoke.get_ticket(&tid).unwrap().owner, owner("H1"));
    assert_eq!(spoke.listings.len(), 1);
    assert_eq!(spoke.listings[0].status, ListingStatus::Active);
}

#[test]
fn snapshot_applied_twice_is_applied_once() {
    let mut hub = TicketingState::instantiate();
    hub.execute_operation(&ctx(1, "O"), create_event_op("O", "E", 500, 3)).unwrap();
    hub.execute_operation(&ctx(1, "O"), mint_op("O", "E", "A1", account(1, "H1"))).unwrap();

    let mut spoke = TicketingState::instantiate();
    let c2 = ctx(2, "S");
    let snapshot = |hub: &mut TicketingState| {
        let reply = hub
            .execute_message(
                &ctx(1, "S"),
                Message::RequestSync { requester_chain: ChainId { value: 2 } },
                false,
            )
            .unwrap();
        reply.into_iter().next().unwrap().message
    };
    spoke.execute_message(&c2, snapshot(&mut hub), false).unwrap();
    let events_once = spoke.all_events();
    let tickets_once = spoke.tickets.len();
    spoke.execute_message(&c2, snapshot(&mut hub), false).unwrap();
    let events_twice = spoke.all_events();
    assert_eq!(events_once.len(), events_twice.len());
    assert_eq!(events_once[0].minted_tickets, events_twice[0].minted_tickets);
    assert_eq!(spoke.tickets.len(), tickets_once);
}

#[test]
fn hub_forward_messages_ignored_on_spoke() {
    let mut spoke = TicketingState::instantiate();
    let r = spoke
        .execute_message(
            &ctx(2, "O"),
            Message::CreateEventOnHub {
                organizer: owner("O"),
                event_id: event_id("E"),
                name: "N".to_string(),
                description: "D".to_string(),
                venue: "V".to_string(),
                start_time: 0,
                royalty_bps: 1,
                max_tickets: 1,
            },
            false,
        )
        .unwrap();
    assert_eq!(r.len(), 0);
    assert_eq!(spoke.events.len(), 0);
}

#[test]
fn spoke_mutations_are_forwarded_to_hub() {
    let mut spoke = TicketingState::instantiate();
    let c2 = ctx(2, "O");
    let effects = spoke.execute_operation(&c2, create_event_op("O", "E", 500, 2)).unwrap();
    // the spoke records the event optimistically and forwards it
    assert_eq!(spoke.events.len(), 1);
    assert_eq!(spoke.stream.len(), 0);
    assert_eq!(effects.messages.len(), 1);
    assert_eq!(effects.messages[0].destination, ChainId { value: 1 });
    // the hub applies it authoritatively and broadcasts
    let mut hub = TicketingState::instantiate();
    let fwd = effects.messages.into_iter().next().unwrap().message;
    hub.execute_message(&ctx(1, "O"), fwd, false).unwrap();
    assert_eq!(hub.events.len(), 1);
    assert_eq!(hub.stream.len(), 1);
}

#[test]
fn mint_to_remote_holder_sends_tracked_carrier() {
    let mut hub = TicketingState::instantiate();
    hub.execute_operation(&ctx(1, "O"), create_event_op("O", "E", 500, 2)).unwrap();
    let effects = hub
        .execute_operation(&ctx(1, "O"), mint_op("O", "E", "A1", account(2, "H9")))
        .unwrap();
    // the hub keeps a reference record, but custody travels
    assert_eq!(hub.tickets.len(), 1);
    assert_eq!(hub.owned_ticket_ids_of(&owner("H9")).len(), 0);
    assert_eq!(effects.messages.len(), 1);
    assert_eq!(effects.messages[0].destination, ChainId { value: 2 });
    assert!(effects.messages[0].with_tracking);
    assert_eq!(hub.event(&event_id("E")).unwrap().minted_tickets, 1);
}

#[test]
fn same_chain_transfer_cancels_active_listing() {
    let mut hub = hub_with_two_tickets();
    let tid = hub.tickets[0].ticket_id.clone();
    hub.execute_operation(
        &ctx(1, "H1"),
        Operation::CreateListing { seller: owner("H1"), ticket_id: tid.clone(), price: 1000 },
    )
    .unwrap();
    hub.execute_operation(
        &ctx(1, "H1"),
        Operation::TransferTicket {
            seller: owner("H1"),
            ticket_id: tid.clone(),
            buyer_account: account(1, "H2"),
            sale_price: None,
        },
    )
    .unwrap();
    assert_eq!(hub.listings[0].status, ListingStatus::Cancelled);
    let t = hub.get_ticket(&tid).unwrap();
    assert_eq!(t.owner, owner("H2"));
    // a zero-or-missing price is a non-sale: nothing settles
    assert_eq!(t.last_sale_price, None);
    assert_eq!(hub.total_royalties, 0);
}

#[test]
fn query_projections_render_listings_and_balances() {
    let mut hub = hub_with_two_tickets();
    let tid = hub.tickets[0].ticket_id.clone();
    hub.execute_operation(
        &ctx(1, "H1"),
        Operation::CreateListing { seller: owner("H1"), ticket_id: tid.clone(), price: 1000 },
    )
    .unwrap();
    hub.execute_operation(
        &ctx(1, "H3"),
        Operation::BuyListing { buyer: account(1, "H3"), ticket_id: tid.clone(), price: 1000 },
    )
    .unwrap();

    let listings = hub.all_listings();
    assert_eq!(listings.len(), 1);
    assert_eq!(listings[0].status, "Sold");
    assert_eq!(listings[0].price, "1000");

    let tickets = hub.all_tickets();
    assert_eq!(tickets.len(), 2);

    let out = hub.ticket(&tid, vec![1, 2]).unwrap();
    assert_eq!(out.owner, owner("H3"));
    assert_eq!(out.payload, vec![1, 2]);
    assert_eq!(out.last_sale_price, Some("1000".to_string()));

    let balances = hub.royalty_balances();
    assert_eq!(balances.len(), 2);
    let olive = balances.iter().find(|(o, _)| *o == owner("O")).unwrap();
    assert_eq!(olive.1.pending, "50");

    let ids = hub.owned_ticket_ids_of(&owner("H3"));
    assert_eq!(ids.len(), 1);
    let decoded = ticketing::codec::decode_ticket_id(&ids[0]).unwrap();
    assert_eq!(decoded, tid);
}
