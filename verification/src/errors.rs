use vstd::prelude::*;

verus! {

/// Why an operation was rejected.
///
/// Every failure is reported to the caller through this enum; no operation
/// panics, and an operation that returns an error leaves the store unchanged.
#[derive(Debug, Clone, Copy, PartialEq, Eq, Structural)]
pub enum Error {
    /// Event does not exist.
    EventNotFound,
    /// No tickets available.
    SoldOut,
    /// Attached payment does not equal the ticket price.
    InsufficientPayment,
    /// Ticket does not exist.
    TicketNotFound,
    /// Caller is not authorized for this ticket.
    NotTicketOwner,
    /// Event is not active.
    EventNotActive,
    /// Ticket already used.
    TicketAlreadyUsed,
    /// The native-currency transfer failed.
    TransferFailed,
    /// Caller is not the event organizer.
    NotOrganizer,
    /// Event already cancelled.
    EventCancelled,
    /// Event already completed.
    EventCompleted,
    /// Ticket already refunded.
    TicketAlreadyRefunded,
    /// Invalid input parameters.
    InvalidInput,
    /// Account holds too many valid tickets.
    TooManyTickets,
    /// No escrowed balance is left for this event.
    InsufficientBalance,
    /// Event not completed yet.
    EventNotCompleted,
}

} // verus!
