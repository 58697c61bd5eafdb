use crate::contract::TicketDot;
use crate::records::AccountId;
use vstd::prelude::*;

verus! {

/// In a well-formed store, an event's available supply never exceeds its
/// total supply (and, being unsigned, it never goes negative; the operations
/// guard every decrement). Every operation requires and re-establishes
/// `wf`, so this bound holds after any sequence of calls.
pub proof fn lemma_supply_bounded(s: TicketDot, event_id: u64)
    requires
        s.wf(),
        event_id < s.events@.len(),
    ensures
        s.events@[event_id as int].available_tickets <= s.events@[event_id as int].total_tickets,
{
}

/// A ticket that is both used and refunded exists only because its event was
/// cancelled and `refund_ticket` accepted it; no other path creates that
/// combination.
pub proof fn lemma_used_and_refunded_only_on_cancelled_event(s: TicketDot, ticket_id: u64)
    requires
        s.wf(),
        ticket_id < s.tickets@.len(),
        s.tickets@[ticket_id as int].is_used,
        s.tickets@[ticket_id as int].is_refunded,
    ensures
        s.events@[s.tickets@[ticket_id as int].event_id as int].cancelled,
{
}

/// `cancel_ticket` never succeeds on a used ticket: whatever the caller and
/// whatever the transfer outcome, it reports an error.
pub proof fn lemma_cancel_ticket_rejects_used(
    s: TicketDot,
    caller: AccountId,
    ticket_id: u64,
    transfer_ok: bool,
)
    requires
        s.wf(),
        ticket_id < s.tickets@.len(),
        s.tickets@[ticket_id as int].is_used,
    ensures
        s.cancel_ticket_err(caller, ticket_id, transfer_ok) is Some,
{
}

/// The ownership index is exact: an account's set holds a ticket identifier
/// precisely when that ticket's record names the account as owner and is not
/// refunded. Every operation requires and re-establishes `wf`, so this holds
/// after any sequence of purchases, transfers, refunds and cancellations.
pub proof fn lemma_index_exact(s: TicketDot, a: AccountId, ticket_id: u64)
    requires
        s.wf(),
    ensures
        s.owned(a).contains(ticket_id) <==> (ticket_id < s.tickets@.len() && s.tickets@[
            ticket_id as int
        ].owner == a && !s.tickets@[ticket_id as int].is_refunded),
{
    assert(s.owned(a).contains(ticket_id) <==> s.owns_valid(a, ticket_id));
}

/// While a ticket is valid it sits in exactly one account's set; once
/// refunded, in none.
pub proof fn lemma_owned_by_one_account(s: TicketDot, a: AccountId, b: AccountId, ticket_id: u64)
    requires
        s.wf(),
        a != b,
        s.owned(a).contains(ticket_id),
    ensures
        !s.owned(b).contains(ticket_id),
{
    assert(s.owned(a).contains(ticket_id) <==> s.owns_valid(a, ticket_id));
    assert(s.owned(b).contains(ticket_id) <==> s.owns_valid(b, ticket_id));
}

/// Terminal event states reject both terminal transitions: on a cancelled or
/// completed event, `cancel_event` and `complete_event` report an error —
/// calling either twice is rejected the second time, never a silent success.
pub proof fn lemma_terminal_event_rejects_transitions(
    s: TicketDot,
    caller: AccountId,
    event_id: u64,
)
    requires
        s.wf(),
        event_id < s.events@.len(),
        s.events@[event_id as int].cancelled || s.events@[event_id as int].completed,
    ensures
        s.cancel_event_err(caller, event_id) is Some,
        s.complete_event_err(caller, event_id) is Some,
{
}

/// A withdrawn event rejects another withdrawal: after one successful
/// `withdraw_earnings`, every further call reports an error, whatever the
/// transfer outcome.
pub proof fn lemma_withdrawn_event_rejects_withdrawal(
    s: TicketDot,
    caller: AccountId,
    event_id: u64,
    transfer_ok: bool,
)
    requires
        s.wf(),
        event_id < s.events@.len(),
        s.events@[event_id as int].withdrawn,
    ensures
        s.withdraw_earnings_err(caller, event_id, transfer_ok) is Some,
{
}

} // verus!
