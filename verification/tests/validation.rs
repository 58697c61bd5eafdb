// Input validation, authorization, the per-account cap, and the ownership
// index seen through the query surface.

use ticketdot::contract::TicketDot;
use ticketdot::errors::Error;

const ADMIN: u64 = 100;
const ORGANIZER: u64 = 101;
const ALICE: u64 = 102;
const BOB: u64 = 103;
const NOW: u64 = 7;

fn event_with(
    contract: &mut TicketDot,
    name: &str,
    price: u128,
    total: u32,
    cid: &str,
) -> Result<u64, Error> {
    contract
        .create_event(ORGANIZER, NOW, String::from(name), price, total, String::from(cid))
        .map(|created| created.event_id)
}

#[test]
fn create_event_rejects_bad_inputs() {
    let mut contract = TicketDot::new(ADMIN);
    let long_name = "x".repeat(201);
    let long_cid = "y".repeat(1001);

    assert_eq!(event_with(&mut contract, "", 10, 5, "cid"), Err(Error::InvalidInput));
    assert_eq!(
        event_with(&mut contract, &long_name, 10, 5, "cid"),
        Err(Error::InvalidInput)
    );
    assert_eq!(event_with(&mut contract, "ok", 10, 5, ""), Err(Error::InvalidInput));
    assert_eq!(
        event_with(&mut contract, "ok", 10, 5, &long_cid),
        Err(Error::InvalidInput)
    );
    assert_eq!(event_with(&mut contract, "ok", 10, 0, "cid"), Err(Error::InvalidInput));
    assert_eq!(
        event_with(&mut contract, "ok", 10, 1_000_001, "cid"),
        Err(Error::InvalidInput)
    );
    assert_eq!(event_with(&mut contract, "ok", 0, 5, "cid"), Err(Error::InvalidInput));
    assert_eq!(contract.get_event_count(), 0);

    // The boundary values themselves are accepted.
    let max_name = "x".repeat(200);
    let max_cid = "y".repeat(1000);
    assert_eq!(event_with(&mut contract, &max_name, 1, 1_000_000, &max_cid), Ok(0));
}

#[test]
fn lookups_of_unknown_identifiers_fail() {
    let mut contract = TicketDot::new(ADMIN);
    assert_eq!(contract.buy_ticket(ALICE, NOW, 10, 3), Err(Error::EventNotFound));
    assert_eq!(contract.cancel_event(ORGANIZER, 3), Err(Error::EventNotFound));
    assert_eq!(contract.complete_event(ORGANIZER, 3), Err(Error::EventNotFound));
    assert_eq!(
        contract.withdraw_earnings(ORGANIZER, 3, true),
        Err(Error::EventNotFound)
    );
    assert_eq!(contract.transfer_ticket(ALICE, 3, BOB), Err(Error::TicketNotFound));
    assert_eq!(contract.use_ticket(ORGANIZER, 3), Err(Error::TicketNotFound));
    assert_eq!(contract.refund_ticket(ALICE, 3, true), Err(Error::TicketNotFound));
    assert_eq!(contract.cancel_ticket(ALICE, 3, true), Err(Error::TicketNotFound));
}

#[test]
fn only_the_owner_handles_a_ticket() {
    let mut contract = TicketDot::new(ADMIN);
    let event_id = event_with(&mut contract, "Show", 10, 5, "cid").unwrap();
    let ticket_id = contract.buy_ticket(ALICE, NOW, 10, event_id).unwrap().ticket_id;

    assert_eq!(contract.transfer_ticket(BOB, ticket_id, BOB), Err(Error::NotTicketOwner));
    assert_eq!(contract.cancel_ticket(BOB, ticket_id, true), Err(Error::NotTicketOwner));
    assert_eq!(contract.refund_ticket(BOB, ticket_id, true), Err(Error::NotTicketOwner));

    // Marking a ticket used authenticates against the event's organizer or
    // the admin, not the ticket's owner.
    assert_eq!(contract.use_ticket(ALICE, ticket_id), Err(Error::NotTicketOwner));
    assert_eq!(contract.use_ticket(BOB, ticket_id), Err(Error::NotTicketOwner));
    contract.use_ticket(ADMIN, ticket_id).unwrap();
    let ticket = contract.get_ticket(ticket_id).unwrap();
    assert!(ticket.is_used);

    // A used ticket stays visible in its owner's valid set.
    assert_eq!(contract.get_my_tickets(ALICE), vec![ticket_id]);
    assert_eq!(contract.transfer_ticket(ALICE, ticket_id, BOB), Err(Error::TicketAlreadyUsed));
    assert_eq!(contract.use_ticket(ORGANIZER, ticket_id), Err(Error::TicketAlreadyUsed));
}

#[test]
fn tickets_of_inactive_events_cannot_be_bought_or_used() {
    let mut contract = TicketDot::new(ADMIN);
    let cancelled = event_with(&mut contract, "Off", 10, 5, "cid").unwrap();
    let completed = event_with(&mut contract, "Done", 10, 5, "cid").unwrap();
    let t_cancelled = contract.buy_ticket(ALICE, NOW, 10, cancelled).unwrap().ticket_id;
    let t_completed = contract.buy_ticket(ALICE, NOW, 10, completed).unwrap().ticket_id;

    contract.cancel_event(ORGANIZER, cancelled).unwrap();
    contract.complete_event(ORGANIZER, completed).unwrap();

    assert_eq!(contract.buy_ticket(BOB, NOW, 10, cancelled), Err(Error::EventNotActive));
    assert_eq!(contract.buy_ticket(BOB, NOW, 10, completed), Err(Error::EventNotActive));
    assert_eq!(contract.use_ticket(ORGANIZER, t_cancelled), Err(Error::EventCancelled));
    assert_eq!(contract.use_ticket(ORGANIZER, t_completed), Err(Error::EventCompleted));
    assert_eq!(
        contract.cancel_ticket(ALICE, t_cancelled, true),
        Err(Error::EventCancelled)
    );
    assert_eq!(
        contract.cancel_ticket(ALICE, t_completed, true),
        Err(Error::EventCompleted)
    );

    // Refunds serve cancelled events only.
    assert_eq!(
        contract.refund_ticket(ALICE, t_completed, true),
        Err(Error::EventNotActive)
    );
    contract.refund_ticket(ALICE, t_cancelled, true).unwrap();
    assert_eq!(
        contract.refund_ticket(ALICE, t_cancelled, true),
        Err(Error::TicketAlreadyRefunded)
    );
    assert_eq!(
        contract.transfer_ticket(ALICE, t_cancelled, BOB),
        Err(Error::TicketAlreadyRefunded)
    );
}

#[test]
fn ownership_index_tracks_every_move() {
    let mut contract = TicketDot::new(ADMIN);
    let event_id = event_with(&mut contract, "Fair", 10, 10, "cid").unwrap();

    let t0 = contract.buy_ticket(ALICE, NOW, 10, event_id).unwrap().ticket_id;
    let t1 = contract.buy_ticket(BOB, NOW, 10, event_id).unwrap().ticket_id;
    let t2 = contract.buy_ticket(ALICE, NOW, 10, event_id).unwrap().ticket_id;
    assert_eq!(contract.get_my_tickets(ALICE), vec![t0, t2]);
    assert_eq!(contract.get_my_tickets(BOB), vec![t1]);

    // Transferring moves the identifier between the two sets; the result
    // stays sorted even when the incoming identifier is the smallest.
    contract.transfer_ticket(ALICE, t0, BOB).unwrap();
    assert_eq!(contract.get_my_tickets(ALICE), vec![t2]);
    assert_eq!(contract.get_my_tickets(BOB), vec![t0, t1]);

    // A self-transfer leaves the set as it was.
    contract.transfer_ticket(BOB, t1, BOB).unwrap();
    assert_eq!(contract.get_my_tickets(BOB), vec![t0, t1]);

    // Handing a ticket back removes it from the set and frees supply.
    contract.cancel_ticket(BOB, t0, true).unwrap();
    assert_eq!(contract.get_my_tickets(BOB), vec![t1]);
    assert_eq!(contract.get_event(event_id).unwrap().available_tickets, 8);

    // Supply never exceeds the total.
    let event = contract.get_event(event_id).unwrap();
    assert!(event.available_tickets <= event.total_tickets);
}

#[test]
fn per_account_cap_limits_purchases_and_transfers() {
    let mut contract = TicketDot::new(ADMIN);
    let event_id = event_with(&mut contract, "Big", 1, 5000, "cid").unwrap();

    for _ in 0..1000 {
        contract.buy_ticket(ALICE, NOW, 1, event_id).unwrap();
    }
    assert_eq!(contract.buy_ticket(ALICE, NOW, 1, event_id), Err(Error::TooManyTickets));
    assert_eq!(contract.get_my_tickets(ALICE).len(), 1000);

    // Transfers into a full account are rejected too, including to oneself.
    let spare = contract.buy_ticket(BOB, NOW, 1, event_id).unwrap().ticket_id;
    assert_eq!(contract.transfer_ticket(BOB, spare, ALICE), Err(Error::TooManyTickets));
    assert_eq!(contract.transfer_ticket(ALICE, 0, ALICE), Err(Error::TooManyTickets));

    // Freeing one slot lets the next purchase through.
    contract.cancel_ticket(ALICE, 0, true).unwrap();
    contract.buy_ticket(ALICE, NOW, 1, event_id).unwrap();
    assert_eq!(contract.buy_ticket(ALICE, NOW, 1, event_id), Err(Error::TooManyTickets));
}

#[test]
fn earnings_saturate_instead_of_overflowing() {
    let mut contract = TicketDot::new(ADMIN);
    let event_id = event_with(&mut contract, "Pricey", u128::MAX, 3, "cid").unwrap();
    contract.buy_ticket(ALICE, NOW, u128::MAX, event_id).unwrap();
    contract.buy_ticket(BOB, NOW, u128::MAX, event_id).unwrap();
    contract.complete_event(ORGANIZER, event_id).unwrap();
    assert_eq!(contract.withdraw_earnings(ORGANIZER, event_id, true), Ok(u128::MAX));
}
