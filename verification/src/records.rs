use vstd::prelude::*;

verus! {

/// An account on the ledger, reduced to the plain identity the rules read.
pub type AccountId = u64;

/// An amount of native currency.
pub type Balance = u128;

/// Largest number of tickets an event may be created with.
pub const MAX_TICKETS_PER_EVENT: u32 = 1_000_000;

/// Smallest ticket price an event may be created with.
pub const MIN_TICKET_PRICE: Balance = 1;

/// Largest accepted event name, in characters.
pub const MAX_EVENT_NAME_LENGTH: usize = 200;

/// Largest accepted metadata content identifier, in characters.
pub const MAX_METADATA_CID_LENGTH: usize = 1000;

/// Largest number of simultaneously valid tickets one account may hold.
pub const MAX_TICKETS_PER_USER: usize = 1000;

/// An event created by an organizer.
///
/// `id`, `organizer`, `price`, `total_tickets`, `timestamp` and
/// `metadata_cid` never change after creation. The lifecycle flags move one
/// way: an active event may become cancelled or completed (never both), and
/// `active` is false exactly when one of the terminal flags is set.
/// `withdrawn` records that the organizer has collected the earnings of a
/// completed event, so a second withdrawal is rejected.
#[derive(Debug)]
pub struct Event {
    pub id: u64,
    pub name: String,
    pub organizer: AccountId,
    pub price: Balance,
    pub total_tickets: u32,
    pub available_tickets: u32,
    pub timestamp: u64,
    pub metadata_cid: String,
    pub active: bool,
    pub cancelled: bool,
    pub completed: bool,
    pub withdrawn: bool,
}

impl Clone for Event {
    fn clone(&self) -> (r: Event)
        ensures
            r == *self,
    {
        Event {
            id: self.id,
            name: self.name.clone(),
            organizer: self.organizer,
            price: self.price,
            total_tickets: self.total_tickets,
            available_tickets: self.available_tickets,
            timestamp: self.timestamp,
            metadata_cid: self.metadata_cid.clone(),
            active: self.active,
            cancelled: self.cancelled,
            completed: self.completed,
            withdrawn: self.withdrawn,
        }
    }
}

/// A ticket record.
///
/// `id`, `event_id` and `purchase_time` never change; `owner` changes only by
/// transfer. The flags move one way: `is_used` and `is_refunded` start false
/// and only ever become true.
#[derive(Debug, Clone, Copy, PartialEq, Eq, Structural)]
pub struct Ticket {
    pub id: u64,
    pub event_id: u64,
    pub owner: AccountId,
    pub purchase_time: u64,
    pub is_used: bool,
    pub is_refunded: bool,
}

/// Notification reported by a successful `create_event`.
#[derive(Debug)]
pub struct EventCreated {
    pub event_id: u64,
    pub organizer: AccountId,
    pub name: String,
    pub price: Balance,
    pub total_tickets: u32,
}

/// Notification reported by a successful `buy_ticket`.
#[derive(Debug, Clone, Copy, PartialEq, Eq, Structural)]
pub struct TicketPurchased {
    pub ticket_id: u64,
    pub event_id: u64,
    pub buyer: AccountId,
    pub price: Balance,
}

/// Notification reported by a successful `transfer_ticket`.
#[derive(Debug, Clone, Copy, PartialEq, Eq, Structural)]
pub struct TicketTransferred {
    pub ticket_id: u64,
    pub from: AccountId,
    pub to: AccountId,
}

/// Notification reported by a successful `use_ticket`.
#[derive(Debug, Clone, Copy, PartialEq, Eq, Structural)]
pub struct TicketUsed {
    pub ticket_id: u64,
    pub event_id: u64,
}

/// Notification reported by a successful `cancel_event`.
#[derive(Debug, Clone, Copy, PartialEq, Eq, Structural)]
pub struct EventCancelled {
    pub event_id: u64,
    pub organizer: AccountId,
}

/// Notification reported by a successful `complete_event`.
#[derive(Debug, Clone, Copy, PartialEq, Eq, Structural)]
pub struct EventCompleted {
    pub event_id: u64,
}

/// Notification reported by a successful `refund_ticket`.
#[derive(Debug, Clone, Copy, PartialEq, Eq, Structural)]
pub struct TicketRefunded {
    pub ticket_id: u64,
    pub owner: AccountId,
    pub amount: Balance,
}

/// Notification reported by a successful `cancel_ticket`.
#[derive(Debug, Clone, Copy, PartialEq, Eq, Structural)]
pub struct TicketCancelled {
    pub ticket_id: u64,
    pub event_id: u64,
    pub owner: AccountId,
    pub refund_amount: Balance,
}

/// The creation inputs an event must satisfy; violating any of them makes
/// `create_event` return `InvalidInput`.
pub open spec fn valid_event_inputs(
    name: Seq<char>,
    price: Balance,
    total_tickets: u32,
    metadata_cid: Seq<char>,
) -> bool {
    &&& 1 <= name.len() <= MAX_EVENT_NAME_LENGTH
    &&& 1 <= metadata_cid.len() <= MAX_METADATA_CID_LENGTH
    &&& 1 <= total_tickets <= MAX_TICKETS_PER_EVENT
    &&& price >= MIN_TICKET_PRICE
}

/// Well-formedness of a single event record: valid creation inputs, supply
/// within bounds, and lifecycle flags in a legal combination.
pub open spec fn event_wf(e: Event) -> bool {
    &&& valid_event_inputs(e.name@, e.price, e.total_tickets, e.metadata_cid@)
    &&& e.available_tickets <= e.total_tickets
    &&& !(e.cancelled && e.completed)
    &&& e.active == (!e.cancelled && !e.completed)
    &&& (e.withdrawn ==> e.completed)
}

/// Whether ticket `t` counts against the supply of event `event_id`: it
/// belongs to that event and has not been refunded.
pub open spec fn counts_for(t: Ticket, event_id: u64) -> nat {
    if t.event_id == event_id && !t.is_refunded {
        1nat
    } else {
        0nat
    }
}

/// How many tickets of `event_id` in `tickets` are outstanding (sold and not
/// refunded). An active event's available supply plus this count equals its
/// total supply.
pub open spec fn valid_count(tickets: Seq<Ticket>, event_id: u64) -> nat
    decreases tickets.len(),
{
    if tickets.len() == 0 {
        0nat
    } else {
        valid_count(tickets.drop_last(), event_id) + counts_for(tickets.last(), event_id)
    }
}

/// Appending a ticket adds exactly its own contribution to the count.
pub proof fn lemma_valid_count_push(tickets: Seq<Ticket>, event_id: u64, t: Ticket)
    ensures
        valid_count(tickets.push(t), event_id) == valid_count(tickets, event_id) + counts_for(
            t,
            event_id,
        ),
{
    assert(tickets.push(t).drop_last() =~= tickets);
}

/// Replacing one ticket changes the count by the difference of the two
/// tickets' contributions.
pub proof fn lemma_valid_count_update(tickets: Seq<Ticket>, event_id: u64, i: int, t: Ticket)
    requires
        0 <= i < tickets.len(),
    ensures
        valid_count(tickets.update(i, t), event_id) + counts_for(tickets[i], event_id)
            == valid_count(tickets, event_id) + counts_for(t, event_id),
    decreases tickets.len(),
{
    if i == tickets.len() - 1 {
        assert(tickets.update(i, t).drop_last() =~= tickets.drop_last());
    } else {
        assert(tickets.update(i, t).drop_last() =~= tickets.drop_last().update(i, t));
        lemma_valid_count_update(tickets.drop_last(), event_id, i, t);
    }
}

/// An event no ticket refers to has no outstanding tickets.
pub proof fn lemma_valid_count_zero(tickets: Seq<Ticket>, event_id: u64)
    requires
        forall|i: int| 0 <= i < tickets.len() ==> (#[trigger] tickets[i]).event_id != event_id,
    ensures
        valid_count(tickets, event_id) == 0,
    decreases tickets.len(),
{
    if tickets.len() > 0 {
        lemma_valid_count_zero(tickets.drop_last(), event_id);
    }
}

/// A ticket that counts toward an event makes that event's count positive.
pub proof fn lemma_valid_count_at_least_one(tickets: Seq<Ticket>, event_id: u64, i: int)
    requires
        0 <= i < tickets.len(),
        counts_for(tickets[i], event_id) == 1,
    ensures
        valid_count(tickets, event_id) >= 1,
    decreases tickets.len(),
{
    if i < tickets.len() - 1 {
        lemma_valid_count_at_least_one(tickets.drop_last(), event_id, i);
    }
}

} // verus!
