//! A ledger-backed ticketing and escrow state machine.
//!
//! The library issues and tracks uniquely owned ticket records against
//! events, enforces the event and ticket lifecycles (active to cancelled or
//! completed; unused to used or refunded), and accounts for escrowed payments
//! (collection on sale, refund on cancellation, organizer withdrawal after
//! completion).
//!
//! The surrounding ledger environment — caller identity, the clock, attached
//! payments, and the native-currency transfer primitive — is an external
//! collaborator: every operation takes those facts as plain arguments and
//! reports the state transition it performed, so the whole state machine is
//! verified. The contracts pin down, for every input, exactly which error an
//! operation returns or exactly how the state changes, and every operation
//! preserves the store's well-formedness invariant: supply bounds, the
//! lifecycle rules, and an ownership index that always matches the ticket
//! records.

pub mod contract;
pub mod errors;
pub mod laws;
pub mod owner_index;
pub mod records;
