// The basic lifecycle of events and tickets, driven through the public
// operations with the ledger facts (caller, time, payment, transfer outcome)
// supplied as plain values.

use ticketdot::contract::TicketDot;

const ALICE: u64 = 1;
const BOB: u64 = 2;
const NOW: u64 = 42;

#[test]
fn create_event_works() {
    let mut contract = TicketDot::new(ALICE);
    let created = contract
        .create_event(
            ALICE,
            NOW,
            String::from("Test Event"),
            1000,
            100,
            String::from("QmTest123"),
        )
        .unwrap();
    let event_id = created.event_id;

    assert_eq!(event_id, 0);
    let event = contract.get_event(event_id).unwrap();
    assert_eq!(event.name, "Test Event");
    assert_eq!(event.available_tickets, 100);
}

#[test]
fn buy_ticket_works() {
    let mut contract = TicketDot::new(ALICE);
    let event_id = contract
        .create_event(
            ALICE,
            NOW,
            String::from("Test Event"),
            1000,
            100,
            String::from("QmTest123"),
        )
        .unwrap()
        .event_id;

    let ticket_id = contract.buy_ticket(ALICE, NOW, 1000, event_id).unwrap().ticket_id;

    assert_eq!(ticket_id, 0);
    let ticket = contract.get_ticket(ticket_id).unwrap();
    assert_eq!(ticket.event_id, event_id);
}

#[test]
fn transfer_ticket_works() {
    let mut contract = TicketDot::new(ALICE);
    let event_id = contract
        .create_event(
            ALICE,
            NOW,
            String::from("Test Event"),
            1000,
            100,
            String::from("QmTest123"),
        )
        .unwrap()
        .event_id;

    let ticket_id = contract.buy_ticket(ALICE, NOW, 1000, event_id).unwrap().ticket_id;

    contract.transfer_ticket(ALICE, ticket_id, BOB).unwrap();

    let ticket = contract.get_ticket(ticket_id).unwrap();
    assert_eq!(ticket.owner, BOB);
}

#[test]
fn cancel_event_works() {
    let mut contract = TicketDot::new(ALICE);
    let event_id = contract
        .create_event(
            ALICE,
            NOW,
            String::from("Test Event"),
            1000,
            100,
            String::from("QmTest123"),
        )
        .unwrap()
        .event_id;

    contract.cancel_event(ALICE, event_id).unwrap();

    let event = contract.get_event(event_id).unwrap();
    assert!(event.cancelled);
    assert!(!event.active);
}

#[test]
fn complete_event_works() {
    let mut contract = TicketDot::new(ALICE);
    let event_id = contract
        .create_event(
            ALICE,
            NOW,
            String::from("Test Event"),
            1000,
            100,
            String::from("QmTest123"),
        )
        .unwrap()
        .event_id;

    contract.complete_event(ALICE, event_id).unwrap();

    let event = contract.get_event(event_id).unwrap();
    assert!(event.completed);
    assert!(!event.active);
}

#[test]
fn cancel_ticket_works() {
    let mut contract = TicketDot::new(ALICE);
    let event_id = contract
        .create_event(
            ALICE,
            NOW,
            String::from("Test Event"),
            1000,
            100,
            String::from("QmTest123"),
        )
        .unwrap()
        .event_id;

    let ticket_id = contract.buy_ticket(ALICE, NOW, 1000, event_id).unwrap().ticket_id;

    let event_before = contract.get_event(event_id).unwrap();
    assert_eq!(event_before.available_tickets, 99);

    contract.cancel_ticket(ALICE, ticket_id, true).unwrap();

    let ticket = contract.get_ticket(ticket_id).unwrap();
    assert!(ticket.is_refunded);

    let event_after = contract.get_event(event_id).unwrap();
    assert_eq!(event_after.available_tickets, 100);
}

#[test]
fn new_store_is_empty() {
    let contract = TicketDot::new(ALICE);
    assert_eq!(contract.get_event_count(), 0);
    assert_eq!(contract.get_ticket_count(), 0);
    assert_eq!(contract.get_admin(), ALICE);
    assert_eq!(contract.get_my_tickets(ALICE), Vec::<u64>::new());
    assert!(contract.get_event(0).is_none());
    assert!(contract.get_ticket(0).is_none());
}

#[test]
fn created_event_records_all_fields() {
    let mut contract = TicketDot::new(ALICE);
    let created = contract
        .create_event(BOB, 77, String::from("Gala"), 5, 3, String::from("cidG"))
        .unwrap();
    assert_eq!(created.organizer, BOB);
    assert_eq!(created.name, "Gala");
    assert_eq!(created.price, 5);
    assert_eq!(created.total_tickets, 3);

    let event = contract.get_event(0).unwrap();
    assert_eq!(event.id, 0);
    assert_eq!(event.organizer, BOB);
    assert_eq!(event.price, 5);
    assert_eq!(event.total_tickets, 3);
    assert_eq!(event.available_tickets, 3);
    assert_eq!(event.timestamp, 77);
    assert_eq!(event.metadata_cid, "cidG");
    assert!(event.active);
    assert!(!event.cancelled);
    assert!(!event.completed);
    assert!(!event.withdrawn);
    assert_eq!(contract.get_event_count(), 1);
}

#[test]
fn bought_ticket_records_all_fields() {
    let mut contract = TicketDot::new(ALICE);
    contract
        .create_event(ALICE, NOW, String::from("Show"), 250, 10, String::from("cidS"))
        .unwrap();
    let purchased = contract.buy_ticket(BOB, 99, 250, 0).unwrap();
    assert_eq!(purchased.ticket_id, 0);
    assert_eq!(purchased.event_id, 0);
    assert_eq!(purchased.buyer, BOB);
    assert_eq!(purchased.price, 250);

    let ticket = contract.get_ticket(0).unwrap();
    assert_eq!(ticket.id, 0);
    assert_eq!(ticket.event_id, 0);
    assert_eq!(ticket.owner, BOB);
    assert_eq!(ticket.purchase_time, 99);
    assert!(!ticket.is_used);
    assert!(!ticket.is_refunded);
    assert_eq!(contract.get_ticket_count(), 1);
}
