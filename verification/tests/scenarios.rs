// End-to-end scenarios: selling out, exact payment, cancellation with
// refunds, and completion with a single organizer withdrawal.

use ticketdot::contract::TicketDot;
use ticketdot::errors::Error;

const ORGANIZER: u64 = 10;
const BUYER: u64 = 11;
const OTHER: u64 = 12;
const NOW: u64 = 1;

#[test]
fn selling_out_a_two_ticket_event() {
    let mut contract = TicketDot::new(ORGANIZER);
    let created = contract
        .create_event(ORGANIZER, NOW, String::from("Conf"), 1000, 2, String::from("cidA"))
        .unwrap();
    assert_eq!(created.event_id, 0);
    assert_eq!(contract.get_event(0).unwrap().available_tickets, 2);

    let first = contract.buy_ticket(BUYER, NOW, 1000, 0).unwrap();
    let second = contract.buy_ticket(BUYER, NOW, 1000, 0).unwrap();
    assert_eq!(first.ticket_id, 0);
    assert_eq!(second.ticket_id, 1);
    assert_eq!(contract.get_event(0).unwrap().available_tickets, 0);

    assert_eq!(contract.buy_ticket(BUYER, NOW, 1000, 0), Err(Error::SoldOut));
}

#[test]
fn payment_must_match_price_exactly() {
    let mut contract = TicketDot::new(ORGANIZER);
    contract
        .create_event(ORGANIZER, NOW, String::from("Conf"), 1000, 2, String::from("cidA"))
        .unwrap();

    assert_eq!(contract.buy_ticket(BUYER, NOW, 999, 0), Err(Error::InsufficientPayment));
    assert_eq!(contract.buy_ticket(BUYER, NOW, 1001, 0), Err(Error::InsufficientPayment));
    assert_eq!(contract.get_event(0).unwrap().available_tickets, 2);
    assert_eq!(contract.get_ticket_count(), 0);
}

#[test]
fn cancellation_enables_refunds() {
    let mut contract = TicketDot::new(ORGANIZER);
    contract
        .create_event(ORGANIZER, NOW, String::from("Conf"), 1000, 2, String::from("cidA"))
        .unwrap();
    let ticket_id = contract.buy_ticket(BUYER, NOW, 1000, 0).unwrap().ticket_id;

    assert_eq!(contract.cancel_event(OTHER, 0), Err(Error::NotOrganizer));

    contract.cancel_event(ORGANIZER, 0).unwrap();
    let event = contract.get_event(0).unwrap();
    assert!(event.cancelled);
    assert!(!event.active);

    let refunded = contract.refund_ticket(BUYER, ticket_id, true).unwrap();
    assert_eq!(refunded.amount, 1000);
    assert_eq!(refunded.owner, BUYER);
    assert!(contract.get_ticket(ticket_id).unwrap().is_refunded);
    assert_eq!(contract.get_my_tickets(BUYER), Vec::<u64>::new());
}

#[test]
fn earnings_are_withdrawn_once() {
    let mut contract = TicketDot::new(ORGANIZER);
    contract
        .create_event(ORGANIZER, NOW, String::from("Conf"), 1000, 5, String::from("cidA"))
        .unwrap();
    contract.buy_ticket(BUYER, NOW, 1000, 0).unwrap();
    contract.buy_ticket(OTHER, NOW, 1000, 0).unwrap();
    contract.buy_ticket(BUYER, NOW, 1000, 0).unwrap();

    assert_eq!(
        contract.withdraw_earnings(ORGANIZER, 0, true),
        Err(Error::EventNotCompleted)
    );

    contract.complete_event(ORGANIZER, 0).unwrap();
    assert_eq!(contract.withdraw_earnings(OTHER, 0, true), Err(Error::NotOrganizer));

    let paid = contract.withdraw_earnings(ORGANIZER, 0, true).unwrap();
    assert_eq!(paid, 3000);

    // A second withdrawal must fail instead of paying the escrow out again.
    assert_eq!(
        contract.withdraw_earnings(ORGANIZER, 0, true),
        Err(Error::InsufficientBalance)
    );
}

#[test]
fn failed_payout_commits_nothing() {
    let mut contract = TicketDot::new(ORGANIZER);
    contract
        .create_event(ORGANIZER, NOW, String::from("Conf"), 1000, 2, String::from("cidA"))
        .unwrap();
    let ticket_id = contract.buy_ticket(BUYER, NOW, 1000, 0).unwrap().ticket_id;

    assert_eq!(
        contract.cancel_ticket(BUYER, ticket_id, false),
        Err(Error::TransferFailed)
    );
    assert!(!contract.get_ticket(ticket_id).unwrap().is_refunded);
    assert_eq!(contract.get_event(0).unwrap().available_tickets, 1);
    assert_eq!(contract.get_my_tickets(BUYER), vec![ticket_id]);

    contract.cancel_event(ORGANIZER, 0).unwrap();
    assert_eq!(
        contract.refund_ticket(BUYER, ticket_id, false),
        Err(Error::TransferFailed)
    );
    assert!(!contract.get_ticket(ticket_id).unwrap().is_refunded);
    assert_eq!(contract.get_my_tickets(BUYER), vec![ticket_id]);

    contract
        .create_event(ORGANIZER, NOW, String::from("Expo"), 700, 2, String::from("cidB"))
        .unwrap();
    contract.buy_ticket(BUYER, NOW, 700, 1).unwrap();
    contract.complete_event(ORGANIZER, 1).unwrap();
    assert_eq!(
        contract.withdraw_earnings(ORGANIZER, 1, false),
        Err(Error::TransferFailed)
    );
    assert!(!contract.get_event(1).unwrap().withdrawn);
    assert_eq!(contract.withdraw_earnings(ORGANIZER, 1, true), Ok(700));
}

#[test]
fn used_ticket_of_cancelled_event_is_still_refundable() {
    let mut contract = TicketDot::new(ORGANIZER);
    contract
        .create_event(ORGANIZER, NOW, String::from("Conf"), 1000, 2, String::from("cidA"))
        .unwrap();
    let ticket_id = contract.buy_ticket(BUYER, NOW, 1000, 0).unwrap().ticket_id;
    contract.use_ticket(ORGANIZER, ticket_id).unwrap();

    // A used ticket cannot be handed back while the event is running ...
    assert_eq!(
        contract.cancel_ticket(BUYER, ticket_id, true),
        Err(Error::TicketAlreadyUsed)
    );

    // ... but once the event is cancelled the refund path accepts it, which
    // is the one way a ticket ends up both used and refunded.
    contract.cancel_event(ORGANIZER, 0).unwrap();
    contract.refund_ticket(BUYER, ticket_id, true).unwrap();
    let ticket = contract.get_ticket(ticket_id).unwrap();
    assert!(ticket.is_used);
    assert!(ticket.is_refunded);
    assert!(contract.get_event(0).unwrap().cancelled);
}

#[test]
fn terminal_transitions_are_not_idempotent() {
    let mut contract = TicketDot::new(ORGANIZER);
    contract
        .create_event(ORGANIZER, NOW, String::from("Conf"), 1000, 2, String::from("cidA"))
        .unwrap();
    contract
        .create_event(ORGANIZER, NOW, String::from("Expo"), 500, 2, String::from("cidB"))
        .unwrap();

    contract.cancel_event(ORGANIZER, 0).unwrap();
    assert_eq!(contract.cancel_event(ORGANIZER, 0), Err(Error::EventCancelled));
    assert_eq!(contract.complete_event(ORGANIZER, 0), Err(Error::EventCancelled));

    contract.complete_event(ORGANIZER, 1).unwrap();
    assert_eq!(contract.complete_event(ORGANIZER, 1), Err(Error::EventCompleted));
    assert_eq!(contract.cancel_event(ORGANIZER, 1), Err(Error::EventCompleted));
}
