//! Data model of the ticketing protocol.
//!
//! Chains, holders and application instances are identified by plain
//! values so that every rule of the protocol can be stated over them:
//! a chain by a number, a holder by its textual identity, the off-chain
//! metadata of a ticket by the bytes of its content hash.  Every record
//! type has a mathematical view (`EventV`, `TicketV`, ...) over which
//! the contracts speak.

use vstd::prelude::*;
use crate::royalty::MAX_BPS;

verus! {

/// Identifier of one chain (ledger) in the system.
#[derive(Clone, Copy, PartialEq, Eq, Structural, Debug)]
pub struct ChainId {
    pub value: u64,
}

/// Identifier of the deployed application instance.
#[derive(Clone, Copy, PartialEq, Eq, Structural, Debug)]
pub struct ApplicationId {
    pub value: u64,
}

/// Identity of a holder (account owner), as its textual form.
#[derive(Debug)]
pub struct AccountOwner {
    pub value: String,
}

/// A holder together with the chain its account lives on.
#[derive(Debug)]
pub struct Account {
    pub chain_id: ChainId,
    pub owner: AccountOwner,
}

/// Event identifier: an opaque string key chosen by the creator.
#[derive(Debug)]
pub struct EventId {
    pub value: String,
}

/// Ticket identifier stored as raw digest bytes and shared via base64.
#[derive(Debug)]
pub struct TicketId {
    pub id: Vec<u8>,
}

/// Content hash of a ticket's off-chain metadata.
#[derive(Debug)]
pub struct DataBlobHash {
    pub bytes: Vec<u8>,
}

/// Marker type naming the application's interface.
pub struct TicketingAbi;

/// Event metadata tracked on-chain.
#[derive(Debug)]
pub struct Event {
    pub id: EventId,
    pub organizer: AccountOwner,
    pub name: String,
    pub description: String,
    pub venue: String,
    pub start_time: u64,
    pub royalty_bps: u16,
    pub max_tickets: u32,
    pub minted_tickets: u32,
}

/// Ticket metadata alongside royalty bookkeeping.
#[derive(Debug)]
pub struct Ticket {
    pub ticket_id: TicketId,
    pub event_id: EventId,
    pub event_name: String,
    pub seat: String,
    pub organizer: AccountOwner,
    pub owner: AccountOwner,
    pub minter: AccountOwner,
    pub royalty_bps: u16,
    pub metadata_hash: DataBlobHash,
    pub last_sale_price: Option<u128>,
}

/// Marketplace listing for a ticket.
#[derive(Debug)]
pub struct Listing {
    pub ticket_id: TicketId,
    pub seller: AccountOwner,
    pub price: u128,
    pub status: ListingStatus,
}

/// State of a listing: once Cancelled or Sold it never becomes Active again.
#[derive(Clone, Copy, PartialEq, Eq, Structural, Debug)]
pub enum ListingStatus {
    Active,
    Cancelled,
    Sold,
}

/// Pending payout owed to a holder: it only grows until withdrawn.
#[derive(Clone, Copy, PartialEq, Eq, Structural, Debug)]
pub struct BalanceEntry {
    pub pending: u128,
}

/// Balance entry projected for query responses, with the amount rendered
/// as a decimal string.
#[derive(Debug)]
pub struct BalanceEntryGraphQL {
    pub pending: String,
}

/// Why an operation or message was rejected.  A rejected step leaves the
/// state exactly as it was.
#[derive(Clone, Copy, PartialEq, Eq, Structural, Debug)]
pub enum TicketingError {
    /// The named event, ticket or listing does not exist here.
    NotFound,
    /// The caller is not the organizer, holder or seller it must be.
    Unauthorized,
    /// A field is out of range: royalty rate above 100%, zero supply,
    /// or a price that does not match the listing.
    InvalidArgument,
    /// The step clashes with existing state: duplicate event id,
    /// exhausted supply, an already active listing, or a self-purchase.
    Conflict,
}

/// Mathematical view of an `Account`.
#[verifier::ext_equal]
pub ghost struct AccountV {
    pub chain_id: u64,
    pub owner: Seq<char>,
}

/// Mathematical view of an `Event`.
#[verifier::ext_equal]
pub ghost struct EventV {
    pub id: Seq<char>,
    pub organizer: Seq<char>,
    pub name: Seq<char>,
    pub description: Seq<char>,
    pub venue: Seq<char>,
    pub start_time: u64,
    pub royalty_bps: u16,
    pub max_tickets: u32,
    pub minted_tickets: u32,
}

/// Mathematical view of a `Ticket`.
#[verifier::ext_equal]
pub ghost struct TicketV {
    pub ticket_id: Seq<u8>,
    pub event_id: Seq<char>,
    pub event_name: Seq<char>,
    pub seat: Seq<char>,
    pub organizer: Seq<char>,
    pub owner: Seq<char>,
    pub minter: Seq<char>,
    pub royalty_bps: u16,
    pub metadata_hash: Seq<u8>,
    pub last_sale_price: Option<u128>,
}

/// Mathematical view of a `Listing`.
#[verifier::ext_equal]
pub ghost struct ListingV {
    pub ticket_id: Seq<u8>,
    pub seller: Seq<char>,
    pub price: u128,
    pub status: ListingStatus,
}

impl View for AccountOwner {
    type V = Seq<char>;

    open spec fn view(&self) -> Seq<char> {
        self.value@
    }
}

impl View for Account {
    type V = AccountV;

    open spec fn view(&self) -> AccountV {
        AccountV { chain_id: self.chain_id.value, owner: self.owner@ }
    }
}

impl View for EventId {
    type V = Seq<char>;

    open spec fn view(&self) -> Seq<char> {
        self.value@
    }
}

impl View for TicketId {
    type V = Seq<u8>;

    open spec fn view(&self) -> Seq<u8> {
        self.id@
    }
}

impl View for DataBlobHash {
    type V = Seq<u8>;

    open spec fn view(&self) -> Seq<u8> {
        self.bytes@
    }
}

impl View for Event {
    type V = EventV;

    open spec fn view(&self) -> EventV {
        EventV {
            id: self.id@,
            organizer: self.organizer@,
            name: self.name@,
            description: self.description@,
            venue: self.venue@,
            start_time: self.start_time,
            royalty_bps: self.royalty_bps,
            max_tickets: self.max_tickets,
            minted_tickets: self.minted_tickets,
        }
    }
}

impl View for Ticket {
    type V = TicketV;

    open spec fn view(&self) -> TicketV {
        TicketV {
            ticket_id: self.ticket_id@,
            event_id: self.event_id@,
            event_name: self.event_name@,
            seat: self.seat@,
            organizer: self.organizer@,
            owner: self.owner@,
            minter: self.minter@,
            royalty_bps: self.royalty_bps,
            metadata_hash: self.metadata_hash@,
            last_sale_price: self.last_sale_price,
        }
    }
}

impl View for Listing {
    type V = ListingV;

    open spec fn view(&self) -> ListingV {
        ListingV {
            ticket_id: self.ticket_id@,
            seller: self.seller@,
            price: self.price,
            status: self.status,
        }
    }
}

/// Well-formedness of one event record.
pub open spec fn event_wf(e: EventV) -> bool {
    &&& e.royalty_bps <= MAX_BPS
    &&& e.max_tickets >= 1
    &&& e.minted_tickets <= e.max_tickets
}

/// Well-formedness of one ticket record.
pub open spec fn ticket_wf(t: TicketV) -> bool {
    t.royalty_bps <= MAX_BPS
}

/// A character's code with an ASCII capital letter folded to lower case.
pub open spec fn fold_char(c: char) -> u32 {
    if 65 <= c as u32 && c as u32 <= 90 {
        (c as u32 + 32) as u32
    } else {
        c as u32
    }
}

/// Identity similarity: equal up to ASCII letter case.
pub open spec fn owners_similar(a: Seq<char>, b: Seq<char>) -> bool {
    a.len() == b.len() && forall|i: int| 0 <= i < a.len() ==> fold_char(#[trigger] a[i])
        == fold_char(b[i])
}

/// A character's code with an ASCII capital letter folded to lower case.
fn fold_code(c: char) -> (r: u32)
    ensures
        r == fold_char(c),
{
    let u = c as u32;
    if 65 <= u && u <= 90 {
        u + 32
    } else {
        u
    }
}

/// Compares two holder identities up to ASCII letter case.
#[verifier::loop_isolation(false)]
pub fn owner_similar(a: &AccountOwner, b: &AccountOwner) -> (r: bool)
    ensures
        r == owners_similar(a@, b@),
{
    let sa = a.value.as_str();
    let sb = b.value.as_str();
    let la = sa.unicode_len();
    let lb = sb.unicode_len();
    if la != lb {
        return false;
    }
    let mut i: usize = 0;
    while i < la
        invariant
            i <= la,
            forall|j: int| 0 <= j < i ==> fold_char(#[trigger] a@[j]) == fold_char(b@[j]),
        decreases la - i,
    {
        let ca = sa.get_char(i);
        let cb = sb.get_char(i);
        if fold_code(ca) != fold_code(cb) {
            return false;
        }
        i = i + 1;
    }
    true
}

/// Byte-for-byte copy of a byte vector.
pub fn clone_bytes(v: &Vec<u8>) -> (r: Vec<u8>)
    ensures
        r@ == v@,
{
    let r = v.clone();
    proof {
        assert(r@ =~= v@);
    }
    r
}

impl Clone for AccountOwner {
    fn clone(&self) -> (r: Self)
        ensures
            r == *self,
    {
        AccountOwner { value: self.value.clone() }
    }
}

impl Clone for Account {
    fn clone(&self) -> (r: Self)
        ensures
            r == *self,
    {
        Account { chain_id: self.chain_id, owner: self.owner.clone() }
    }
}

impl Clone for EventId {
    fn clone(&self) -> (r: Self)
        ensures
            r == *self,
    {
        EventId { value: self.value.clone() }
    }
}

impl Clone for TicketId {
    fn clone(&self) -> (r: Self)
        ensures
            r@ == self@,
    {
        TicketId { id: clone_bytes(&self.id) }
    }
}

impl Clone for DataBlobHash {
    fn clone(&self) -> (r: Self)
        ensures
            r@ == self@,
    {
        DataBlobHash { bytes: clone_bytes(&self.bytes) }
    }
}

impl Clone for Event {
    fn clone(&self) -> (r: Self)
        ensures
            r == *self,
    {
        Event {
            id: self.id.clone(),
            organizer: self.organizer.clone(),
            name: self.name.clone(),
            description: self.description.clone(),
            venue: self.venue.clone(),
            start_time: self.start_time,
            royalty_bps: self.royalty_bps,
            max_tickets: self.max_tickets,
            minted_tickets: self.minted_tickets,
        }
    }
}

impl Clone for Ticket {
    fn clone(&self) -> (r: Self)
        ensures
            r@ == self@,
    {
        let r = Ticket {
            ticket_id: self.ticket_id.clone(),
            event_id: self.event_id.clone(),
            event_name: self.event_name.clone(),
            seat: self.seat.clone(),
            organizer: self.organizer.clone(),
            owner: self.owner.clone(),
            minter: self.minter.clone(),
            royalty_bps: self.royalty_bps,
            metadata_hash: self.metadata_hash.clone(),
            last_sale_price: self.last_sale_price,
        };
        proof {
            assert(r@ =~= self@);
        }
        r
    }
}

impl Clone for Listing {
    fn clone(&self) -> (r: Self)
        ensures
            r@ == self@,
    {
        let r = Listing {
            ticket_id: self.ticket_id.clone(),
            seller: self.seller.clone(),
            price: self.price,
            status: self.status,
        };
        proof {
            assert(r@ =~= self@);
        }
        r
    }
}

impl Clone for BalanceEntryGraphQL {
    fn clone(&self) -> (r: Self)
        ensures
            r == *self,
    {
        BalanceEntryGraphQL { pending: self.pending.clone() }
    }
}

impl PartialEq for AccountOwner {
    fn eq(&self, other: &AccountOwner) -> (r: bool) {
        self.value == other.value
    }
}

impl vstd::std_specs::cmp::PartialEqSpecImpl for AccountOwner {
    open spec fn obeys_eq_spec() -> bool {
        true
    }

    open spec fn eq_spec(&self, other: &AccountOwner) -> bool {
        self@ == other@
    }
}

impl PartialEq for EventId {
    fn eq(&self, other: &EventId) -> (r: bool) {
        self.value == other.value
    }
}

impl vstd::std_specs::cmp::PartialEqSpecImpl for EventId {
    open spec fn obeys_eq_spec() -> bool {
        true
    }

    open spec fn eq_spec(&self, other: &EventId) -> bool {
        self@ == other@
    }
}

impl PartialEq for TicketId {
    fn eq(&self, other: &TicketId) -> (r: bool) {
        let r = self.id == other.id;
        proof {
            if r {
                assert(self.id@ =~= other.id@);
            } else {
                if self.id@ == other.id@ {
                    assert(forall|i: int|
                        0 <= i < self.id@.len() ==> self.id@[i] == other.id@[i]);
                }
            }
        }
        r
    }
}

impl vstd::std_specs::cmp::PartialEqSpecImpl for TicketId {
    open spec fn obeys_eq_spec() -> bool {
        true
    }

    open spec fn eq_spec(&self, other: &TicketId) -> bool {
        self@ == other@
    }
}

} // verus!
