//! Text encodings at the edge of the protocol: base64 ticket ids and
//! decimal amounts.

use vstd::prelude::*;
use base64::Engine;
use base64::engine::general_purpose::STANDARD_NO_PAD;
use crate::types::{AccountOwner, BalanceEntry, BalanceEntryGraphQL, EventId, Ticket, TicketId};

verus! {

/// What the no-pad standard base64 encoding of the given bytes is; a
/// pure function of them alone.
pub uninterp spec fn base64_of(bytes: Seq<u8>) -> Seq<char>;

/// Relies on base64's STANDARD_NO_PAD engine: the encoding depends on
/// the input bytes alone.
#[verifier::external_body]
pub fn b64_encode(bytes: &Vec<u8>) -> (r: String)
    ensures
        r@ == base64_of(bytes@),
{
    STANDARD_NO_PAD.encode(bytes.as_slice())
}

/// Relies on base64's STANDARD_NO_PAD engine: decoding is strict (no
/// padding, no trailing bits accepted), so exactly the canonical
/// encodings decode, each to its unique preimage.
#[verifier::external_body]
pub fn b64_decode(s: &str) -> (r: Option<Vec<u8>>)
    ensures
        r matches Some(b) ==> s@ == base64_of(b@) && (forall|b2: Seq<u8>|
            s@ == base64_of(b2) ==> b2 == b@),
        forall|b2: Seq<u8>| s@ == base64_of(b2) ==> r is Some,
{
    match STANDARD_NO_PAD.decode(s) {
        Ok(v) => Some(v),
        Err(_) => None,
    }
}

/// Parses the textual form of a ticket id back into its digest bytes.
pub fn decode_ticket_id(ticket_id: &str) -> (r: Option<TicketId>)
    ensures
        r matches Some(t) ==> ticket_id@ == base64_of(t@),
        forall|b2: Seq<u8>| ticket_id@ == base64_of(b2) ==> r is Some,
{
    match b64_decode(ticket_id) {
        Some(id) => Some(TicketId { id }),
        None => None,
    }
}

/// The ASCII code of one decimal digit.
pub open spec fn digit_char(d: nat) -> char {
    ((48 + d) as u8) as char
}

/// The decimal rendering of a number, most significant digit first and
/// without leading zeroes.
pub open spec fn dec_digits(n: nat) -> Seq<char>
    decreases n,
{
    if n < 10 {
        seq![digit_char(n)]
    } else {
        dec_digits(n / 10).push(digit_char(n % 10))
    }
}

/// Relies on String::from_utf8: bytes below 128 are valid UTF-8 and give
/// one character per byte.
#[verifier::external_body]
fn string_from_ascii(bytes: Vec<u8>) -> (r: String)
    requires
        forall|i: int| 0 <= i < bytes@.len() ==> bytes@[i] < 128,
    ensures
        r@ == bytes@.map_values(|b: u8| b as char),
{
    match String::from_utf8(bytes) {
        Ok(s) => s,
        Err(_) => String::new(),
    }
}

/// Renders an amount as its decimal string.
#[verifier::loop_isolation(false)]
pub fn u128_to_decimal(n: u128) -> (r: String)
    ensures
        r@ == dec_digits(n as nat),
{
    let mut acc: Vec<u8> = Vec::new();
    let mut m: u128 = n;
    if m == 0 {
        acc.push(48);
        proof {
            assert(acc@.map_values(|b: u8| b as char) =~= dec_digits(0));
        }
        let r = string_from_ascii(acc);
        return r;
    }
    while m > 0
        invariant
            m <= n,
            m < n ==> acc@.len() > 0,
            m == n ==> acc@.len() == 0,
            forall|i: int| 0 <= i < acc@.len() ==> 48 <= #[trigger] acc@[i] < 58,
            m > 0 ==> dec_digits(n as nat) == dec_digits(m as nat) + acc@.map_values(
                |b: u8| b as char,
            ).reverse(),
            m == 0 ==> dec_digits(n as nat) == acc@.map_values(|b: u8| b as char).reverse(),
        decreases m,
    {
        let d: u8 = (m % 10) as u8 + 48;
        let ghost acc0 = acc@;
        acc.push(d);
        let m2 = m / 10;
        proof {
            let f = |b: u8| b as char;
            assert(acc@.map_values(f) =~= acc0.map_values(f).push(d as char));
            assert(acc@.map_values(f).reverse() =~= seq![d as char] + acc0.map_values(f).reverse());
            assert(d as char == digit_char((m % 10) as nat));
            if m2 > 0 {
                assert(dec_digits(m as nat) == dec_digits(m2 as nat).push(
                    digit_char((m % 10) as nat),
                ));
                assert(dec_digits(m2 as nat) + acc@.map_values(f).reverse() =~= dec_digits(
                    m as nat,
                ) + acc0.map_values(f).reverse());
            } else {
                assert(m < 10);
                assert(dec_digits(m as nat) == seq![digit_char(m as nat)]);
                assert(acc@.map_values(f).reverse() =~= dec_digits(m as nat) + acc0.map_values(
                    f,
                ).reverse());
            }
        }
        m = m2;
    }
    let n_digits = acc.len();
    let mut out: Vec<u8> = Vec::new();
    let mut i: usize = 0;
    while i < n_digits
        invariant
            n_digits == acc@.len(),
            i <= n_digits,
            out@.len() == i,
            forall|j: int| 0 <= j < i ==> #[trigger] out@[j] == acc@[n_digits - 1 - j],
        decreases n_digits - i,
    {
        out.push(acc[n_digits - 1 - i]);
        i = i + 1;
    }
    proof {
        let f = |b: u8| b as char;
        assert(out@ =~= acc@.reverse());
        assert(out@.map_values(f) =~= acc@.map_values(f).reverse());
    }
    string_from_ascii(out)
}

/// Whether every character of a string is a decimal digit.
pub open spec fn all_digits(s: Seq<char>) -> bool {
    forall|i: int| 0 <= i < s.len() ==> 48 <= (#[trigger] s[i]) as u32 <= 57
}

/// The number a digit string denotes.
pub open spec fn dec_val(s: Seq<char>) -> nat
    decreases s.len(),
{
    if s.len() == 0 {
        0
    } else {
        dec_val(s.drop_last()) * 10 + (s.last() as u32 - 48) as nat
    }
}

/// A longer digit prefix never denotes a smaller number.
proof fn lemma_dec_val_prefix_le(s: Seq<char>, i: int)
    requires
        0 <= i <= s.len(),
        all_digits(s),
    ensures
        dec_val(s.take(i)) <= dec_val(s),
    decreases s.len() - i,
{
    if i < s.len() {
        lemma_dec_val_prefix_le(s, i + 1);
        assert(s.take(i + 1).drop_last() =~= s.take(i));
        assert(dec_val(s.take(i + 1)) == dec_val(s.take(i)) * 10 + (s.take(i + 1).last() as u32
            - 48) as nat);
        assert(dec_val(s.take(i)) <= dec_val(s.take(i)) * 10) by (nonlinear_arith);
    } else {
        assert(s.take(i) =~= s);
    }
}

/// Parses a decimal string into an amount; rejects anything but plain
/// digits and values beyond the largest representable amount.
#[verifier::loop_isolation(false)]
pub fn parse_u128(s: &str) -> (r: Option<u128>)
    ensures
        (r is Some) <==> (s@.len() > 0 && all_digits(s@) && dec_val(s@) <= u128::MAX),
        r matches Some(v) ==> v == dec_val(s@),
{
    let n = s.unicode_len();
    if n == 0 {
        return None;
    }
    let mut v: u128 = 0;
    let mut i: usize = 0;
    while i < n
        invariant
            i <= n,
            all_digits(s@.take(i as int)),
            v == dec_val(s@.take(i as int)),
        decreases n - i,
    {
        let c = s.get_char(i);
        let u = c as u32;
        if u < 48 || u > 57 {
            proof {
                assert(!all_digits(s@));
            }
            return None;
        }
        let d: u128 = (u - 48) as u128;
        proof {
            assert(s@.take(i + 1).drop_last() =~= s@.take(i as int));
            assert(s@.take(i + 1).last() == s@[i as int]);
        }
        if v > (u128::MAX - d) / 10 {
            proof {
                assert(dec_val(s@.take(i + 1)) == v * 10 + d);
                assert(v * 10 + d > u128::MAX) by (nonlinear_arith)
                    requires v > (u128::MAX - d) / 10 && d < 10;
                if all_digits(s@) {
                    lemma_dec_val_prefix_le(s@, i + 1);
                }
            }
            return None;
        }
        proof {
            assert(v * 10 + d <= u128::MAX) by (nonlinear_arith)
                requires v <= (u128::MAX - d) / 10 && d < 10;
        }
        v = v * 10 + d;
        i = i + 1;
        proof {
            assert(all_digits(s@.take(i as int)));
        }
    }
    proof {
        assert(s@.take(n as int) =~= s@);
    }
    Some(v)
}

/// Human-friendly projection of a ticket, with its id in base64, the
/// payload bytes alongside, and the last sale price rendered in decimal.
#[derive(Debug)]
pub struct TicketOutput {
    pub ticket_id: String,
    pub event_id: EventId,
    pub event_name: String,
    pub seat: String,
    pub organizer: AccountOwner,
    pub owner: AccountOwner,
    pub minter: AccountOwner,
    pub royalty_bps: u16,
    pub payload: Vec<u8>,
    pub last_sale_price: Option<String>,
}

impl TicketOutput {
    /// Projects a ticket record and its payload bytes for display.
    pub fn new(ticket: Ticket, payload: Vec<u8>) -> (r: TicketOutput)
        ensures
            r.ticket_id@ == base64_of(ticket@.ticket_id),
            r.event_id@ == ticket@.event_id,
            r.event_name@ == ticket@.event_name,
            r.seat@ == ticket@.seat,
            r.organizer@ == ticket@.organizer,
            r.owner@ == ticket@.owner,
            r.minter@ == ticket@.minter,
            r.royalty_bps == ticket@.royalty_bps,
            r.payload@ == payload@,
            (match ticket.last_sale_price {
                Some(p) => r.last_sale_price matches Some(s) && s@ == dec_digits(p as nat),
                None => r.last_sale_price is None,
            }),
    {
        let ticket_id = b64_encode(&ticket.ticket_id.id);
        let last_sale_price = match ticket.last_sale_price {
            Some(p) => Some(u128_to_decimal(p)),
            None => None,
        };
        TicketOutput {
            ticket_id: ticket_id,
            event_id: ticket.event_id,
            event_name: ticket.event_name,
            seat: ticket.seat,
            organizer: ticket.organizer,
            owner: ticket.owner,
            minter: ticket.minter,
            royalty_bps: ticket.royalty_bps,
            payload: payload,
            last_sale_price: last_sale_price,
        }
    }
}

impl BalanceEntryGraphQL {
    /// Projects a balance entry with the amount rendered in decimal.
    pub fn from(entry: &BalanceEntry) -> (r: BalanceEntryGraphQL)
        ensures
            r.pending@ == dec_digits(entry.pending as nat),
    {
        BalanceEntryGraphQL { pending: u128_to_decimal(entry.pending) }
    }
}

} // verus!
