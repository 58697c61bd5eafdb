use crate::errors::Error;
use crate::owner_index::{ids_len, ids_of, insert_id, put_ids, remove_id, strictly_sorted, take_ids};
use crate::records::{
    AccountId, Balance, Event, EventCancelled, EventCompleted, EventCreated, Ticket,
    TicketCancelled, TicketPurchased, TicketRefunded, TicketTransferred, TicketUsed, counts_for,
    event_wf, lemma_valid_count_at_least_one, lemma_valid_count_push, lemma_valid_count_update,
    lemma_valid_count_zero, valid_count, valid_event_inputs, MAX_EVENT_NAME_LENGTH,
    MAX_METADATA_CID_LENGTH, MAX_TICKETS_PER_EVENT, MAX_TICKETS_PER_USER, MIN_TICKET_PRICE,
};
use std::collections::HashMap;
use vstd::prelude::*;
use vstd::string::StrSliceExecFns;

verus! {

broadcast use vstd::std_specs::hash::group_hash_axioms;

/// The authoritative store of the ticketing platform: every event and ticket
/// record ever issued, the per-account ownership index, the identifier
/// counters, and the admin identity fixed at construction.
///
/// Identifiers are the positions in the two record vectors, so they are
/// unique, strictly increasing, and never reused; records are never deleted,
/// terminal states are logical. All operations require and preserve
/// [`TicketDot::wf`].
pub struct TicketDot {
    pub event_counter: u64,
    pub ticket_counter: u64,
    pub events: Vec<Event>,
    pub tickets: Vec<Ticket>,
    pub owner_tickets: HashMap<AccountId, Vec<u64>>,
    pub admin: AccountId,
}

impl TicketDot {
    /// The ticket identifiers the ownership index currently holds for `a`.
    pub open spec fn owned(self, a: AccountId) -> Seq<u64> {
        ids_of(self.owner_tickets@, a)
    }

    /// Account `a` holds ticket `ticket_id` in valid (non-refunded) state.
    pub open spec fn owns_valid(self, a: AccountId, ticket_id: u64) -> bool {
        &&& ticket_id < self.tickets@.len()
        &&& self.tickets@[ticket_id as int].owner == a
        &&& !self.tickets@[ticket_id as int].is_refunded
    }

    /// Each stored event sits at the position its identifier names and is a
    /// well-formed record.
    pub open spec fn events_wf(self) -> bool {
        forall|i: int|
            0 <= i < self.events@.len() ==> (#[trigger] self.events@[i]).id == i && event_wf(
                self.events@[i],
            )
    }

    /// Each stored ticket sits at the position its identifier names, refers
    /// to an existing event, and is both used and refunded only when its
    /// event was cancelled (the one path that allows that combination).
    pub open spec fn tickets_wf(self) -> bool {
        forall|i: int|
            0 <= i < self.tickets@.len() ==> {
                let t = #[trigger] self.tickets@[i];
                &&& t.id == i
                &&& t.event_id < self.events@.len()
                &&& (t.is_used && t.is_refunded ==> self.events@[t.event_id as int].cancelled)
            }
    }

    /// Supply accounting: while an event is not cancelled, its available
    /// supply plus its outstanding (sold and unrefunded) tickets equals its
    /// total supply. Cancelled events leave the accounting through refunds,
    /// which return money, not supply.
    pub open spec fn supply_wf(self) -> bool {
        forall|eid: u64|
            eid < self.events@.len() && !(#[trigger] self.events@[eid as int]).cancelled
                ==> self.events@[eid as int].available_tickets + valid_count(self.tickets@, eid)
                == self.events@[eid as int].total_tickets
    }

    /// The ownership index is exact: it lists, strictly sorted, precisely
    /// the tickets each account holds in valid state, and no account holds
    /// more than `MAX_TICKETS_PER_USER` of them.
    pub open spec fn index_wf(self) -> bool {
        &&& forall|a: AccountId|
            strictly_sorted(#[trigger] self.owned(a)) && self.owned(a).len()
                <= MAX_TICKETS_PER_USER
        &&& forall|a: AccountId, ticket_id: u64|
            #[trigger] self.owned(a).contains(ticket_id) <==> self.owns_valid(a, ticket_id)
    }

    /// Well-formedness of the whole store; established by `new` and required
    /// and preserved by every operation.
    pub open spec fn wf(self) -> bool {
        &&& self.event_counter == self.events@.len()
        &&& self.ticket_counter == self.tickets@.len()
        &&& self.events_wf()
        &&& self.tickets_wf()
        &&& self.supply_wf()
        &&& self.index_wf()
    }

    /// Constructs an empty store whose admin identity — the one account
    /// besides an event's organizer allowed to mark tickets used — is the
    /// deploying caller.
    pub fn new(admin: AccountId) -> (result: TicketDot)
        ensures
            result.wf(),
            result.events@ == Seq::<Event>::empty(),
            result.tickets@ == Seq::<Ticket>::empty(),
            result.event_counter == 0,
            result.ticket_counter == 0,
            result.admin == admin,
            result.owner_tickets@ == Map::<AccountId, Vec<u64>>::empty(),
            forall|a: AccountId| #[trigger] result.owned(a) == Seq::<u64>::empty(),
    {
        let result = TicketDot {
            event_counter: 0,
            ticket_counter: 0,
            events: Vec::new(),
            tickets: Vec::new(),
            owner_tickets: HashMap::new(),
            admin,
        };
        result
    }

    /// The error `create_event` reports for these inputs, if any.
    pub open spec fn create_event_err(
        name: Seq<char>,
        price: Balance,
        total_tickets: u32,
        metadata_cid: Seq<char>,
    ) -> Option<Error> {
        if !valid_event_inputs(name, price, total_tickets, metadata_cid) {
            Some(Error::InvalidInput)
        } else {
            None::<Error>
        }
    }

    /// Creates an event with the next event identifier.
    ///
    /// `caller` becomes the immutable organizer and `now` the creation time;
    /// both come from the ledger environment. On success the whole supply is
    /// available, the event is active, and the reported notification carries
    /// the new identifier. Invalid inputs are rejected with `InvalidInput`
    /// and leave the store unchanged.
    pub fn create_event(
        &mut self,
        caller: AccountId,
        now: u64,
        name: String,
        price: Balance,
        total_tickets: u32,
        metadata_cid: String,
    ) -> (result: Result<EventCreated, Error>)
        requires
            old(self).wf(),
        ensures
            final(self).wf(),
            match Self::create_event_err(name@, price, total_tickets, metadata_cid@) {
                Some(e) => {
                    &&& result == Err::<EventCreated, Error>(e)
                    &&& *final(self) == *old(self)
                },
                None => {
                    &&& result == Ok::<EventCreated, Error>(
                        (EventCreated {
                            event_id: old(self).event_counter,
                            organizer: caller,
                            name: name,
                            price: price,
                            total_tickets: total_tickets,
                        }),
                    )
                    &&& final(self).events@ == old(self).events@.push(
                        (Event {
                            id: old(self).event_counter,
                            name: name,
                            organizer: caller,
                            price: price,
                            total_tickets: total_tickets,
                            available_tickets: total_tickets,
                            timestamp: now,
                            metadata_cid: metadata_cid,
                            active: true,
                            cancelled: false,
                            completed: false,
                            withdrawn: false,
                        }),
                    )
                    &&& final(self).event_counter == old(self).event_counter + 1
                    &&& final(self).tickets@ == old(self).tickets@
                    &&& final(self).ticket_counter == old(self).ticket_counter
                    &&& final(self).owner_tickets@ == old(self).owner_tickets@
                    &&& final(self).admin == old(self).admin
                },
            },
    {
        let name_len: usize = name.unicode_len();
        if name_len == 0 || name_len > MAX_EVENT_NAME_LENGTH {
            return Err(Error::InvalidInput);
        }
        let cid_len: usize = metadata_cid.unicode_len();
        if cid_len == 0 || cid_len > MAX_METADATA_CID_LENGTH {
            return Err(Error::InvalidInput);
        }
        if total_tickets == 0 || total_tickets > MAX_TICKETS_PER_EVENT {
            return Err(Error::InvalidInput);
        }
        if price < MIN_TICKET_PRICE {
            return Err(Error::InvalidInput);
        }
        let event_id = self.event_counter;
        let event = Event {
            id: event_id,
            name: name.clone(),
            organizer: caller,
            price,
            total_tickets,
            available_tickets: total_tickets,
            timestamp: now,
            metadata_cid,
            active: true,
            cancelled: false,
            completed: false,
            withdrawn: false,
        };
        self.events.push(event);
        let n = self.events.len();
        self.event_counter = n as u64;
        proof {
            let pre = *old(self);
            let post = *self;
            assert forall|i: int|
                0 <= i < post.events@.len() implies (#[trigger] post.events@[i]).id == i
                && event_wf(post.events@[i]) by {
                if i < pre.events@.len() {
                    assert(post.events@[i] == pre.events@[i]);
                }
            }
            assert(post.tickets_wf()) by {
                assert forall|i: int| 0 <= i < post.tickets@.len() implies {
                    let t = #[trigger] post.tickets@[i];
                    &&& t.id == i
                    &&& t.event_id < post.events@.len()
                    &&& (t.is_used && t.is_refunded ==> post.events@[t.event_id as int].cancelled)
                } by {
                    let t = post.tickets@[i];
                    assert(t == pre.tickets@[i]);
                    assert(post.events@[t.event_id as int] == pre.events@[t.event_id as int]);
                }
            }
            assert(post.supply_wf()) by {
                assert forall|eid: u64|
                    eid < post.events@.len() && !(#[trigger] post.events@[eid as int]).cancelled
                    implies post.events@[eid as int].available_tickets + valid_count(
                    post.tickets@,
                    eid,
                ) == post.events@[eid as int].total_tickets by {
                    if eid < pre.events@.len() {
                        assert(post.events@[eid as int] == pre.events@[eid as int]);
                    } else {
                        assert forall|i: int|
                            0 <= i < post.tickets@.len() implies (#[trigger] post.tickets@[i]).event_id
                            != eid by {
                            assert(post.tickets@[i].event_id < pre.events@.len());
                        }
                        lemma_valid_count_zero(post.tickets@, eid);
                    }
                }
            }
            assert(post.index_wf()) by {
                assert forall|a: AccountId|
                    strictly_sorted(#[trigger] post.owned(a)) && post.owned(a).len()
                    <= MAX_TICKETS_PER_USER by {
                    assert(post.owned(a) == pre.owned(a));
                }
                assert forall|a: AccountId, ticket_id: u64|
                    #[trigger] post.owned(a).contains(ticket_id) <==> post.owns_valid(
                    a,
                    ticket_id,
                ) by {
                    assert(post.owned(a) == pre.owned(a));
                    assert(pre.owned(a).contains(ticket_id) <==> pre.owns_valid(a, ticket_id));
                }
            }
        }
        Ok(EventCreated { event_id, organizer: caller, name, price, total_tickets })
    }

    /// The error `cancel_event` reports in this state, if any.
    pub open spec fn cancel_event_err(self, caller: AccountId, event_id: u64) -> Option<Error> {
        if event_id >= self.events@.len() {
            Some(Error::EventNotFound)
        } else if self.events@[event_id as int].organizer != caller {
            Some(Error::NotOrganizer)
        } else if self.events@[event_id as int].cancelled {
            Some(Error::EventCancelled)
        } else if self.events@[event_id as int].completed {
            Some(Error::EventCompleted)
        } else {
            None::<Error>
        }
    }

    /// Cancels an active event, enabling refunds for its ticket holders.
    ///
    /// Only the organizer may cancel; the transition is terminal, so a
    /// repeated call (or a call on a completed event) is an error, never a
    /// silent success.
    pub fn cancel_event(&mut self, caller: AccountId, event_id: u64) -> (result: Result<
        EventCancelled,
        Error,
    >)
        requires
            old(self).wf(),
        ensures
            final(self).wf(),
            match old(self).cancel_event_err(caller, event_id) {
                Some(e) => {
                    &&& result == Err::<EventCancelled, Error>(e)
                    &&& *final(self) == *old(self)
                },
                None => {
                    &&& result == Ok::<EventCancelled, Error>(
                        (EventCancelled { event_id, organizer: caller }),
                    )
                    &&& final(self).events@ == old(self).events@.update(
                        event_id as int,
                        (Event {
                            cancelled: true,
                            active: false,
                            ..old(self).events@[event_id as int]
                        }),
                    )
                    &&& final(self).tickets@ == old(self).tickets@
                    &&& final(self).owner_tickets@ == old(self).owner_tickets@
                    &&& final(self).event_counter == old(self).event_counter
                    &&& final(self).ticket_counter == old(self).ticket_counter
                    &&& final(self).admin == old(self).admin
                },
            },
    {
        if event_id >= self.events.len() as u64 {
            return Err(Error::EventNotFound);
        }
        let i = event_id as usize;
        if self.events[i].organizer != caller {
            return Err(Error::NotOrganizer);
        }
        if self.events[i].cancelled {
            return Err(Error::EventCancelled);
        }
        if self.events[i].completed {
            return Err(Error::EventCompleted);
        }
        let mut ev = self.events[i].clone();
        ev.cancelled = true;
        ev.active = false;
        self.events.set(i, ev);
        proof {
            self.lemma_event_flag_update_wf(*old(self), event_id);
        }
        Ok(EventCancelled { event_id, organizer: caller })
    }

    /// The error `complete_event` reports in this state, if any.
    pub open spec fn complete_event_err(self, caller: AccountId, event_id: u64) -> Option<Error> {
        if event_id >= self.events@.len() {
            Some(Error::EventNotFound)
        } else if self.events@[event_id as int].organizer != caller {
            Some(Error::NotOrganizer)
        } else if self.events@[event_id as int].cancelled {
            Some(Error::EventCancelled)
        } else if self.events@[event_id as int].completed {
            Some(Error::EventCompleted)
        } else {
            None::<Error>
        }
    }

    /// Marks an active event completed, after which no ticket of it can be
    /// used and the organizer may withdraw the earnings.
    ///
    /// Only the organizer may complete; the transition is terminal, so a
    /// repeated call (or a call on a cancelled event) is an error, never a
    /// silent success.
    pub fn complete_event(&mut self, caller: AccountId, event_id: u64) -> (result: Result<
        EventCompleted,
        Error,
    >)
        requires
            old(self).wf(),
        ensures
            final(self).wf(),
            match old(self).complete_event_err(caller, event_id) {
                Some(e) => {
                    &&& result == Err::<EventCompleted, Error>(e)
                    &&& *final(self) == *old(self)
                },
                None => {
                    &&& result == Ok::<EventCompleted, Error>((EventCompleted { event_id }))
                    &&& final(self).events@ == old(self).events@.update(
                        event_id as int,
                        (Event {
                            completed: true,
                            active: false,
                            ..old(self).events@[event_id as int]
                        }),
                    )
                    &&& final(self).tickets@ == old(self).tickets@
                    &&& final(self).owner_tickets@ == old(self).owner_tickets@
                    &&& final(self).event_counter == old(self).event_counter
                    &&& final(self).ticket_counter == old(self).ticket_counter
                    &&& final(self).admin == old(self).admin
                },
            },
    {
        if event_id >= self.events.len() as u64 {
            return Err(Error::EventNotFound);
        }
        let i = event_id as usize;
        if self.events[i].organizer != caller {
            return Err(Error::NotOrganizer);
        }
        if self.events[i].cancelled {
            return Err(Error::EventCancelled);
        }
        if self.events[i].completed {
            return Err(Error::EventCompleted);
        }
        let mut ev = self.events[i].clone();
        ev.completed = true;
        ev.active = false;
        self.events.set(i, ev);
        proof {
            self.lemma_event_flag_update_wf(*old(self), event_id);
        }
        Ok(EventCompleted { event_id })
    }

    /// The error `use_ticket` reports in this state, if any.
    pub open spec fn use_ticket_err(self, caller: AccountId, ticket_id: u64) -> Option<Error> {
        if ticket_id >= self.tickets@.len() {
            Some(Error::TicketNotFound)
        } else {
            let t = self.tickets@[ticket_id as int];
            if t.event_id >= self.events@.len() {
                Some(Error::EventNotFound)
            } else {
                let e = self.events@[t.event_id as int];
                if caller != e.organizer && caller != self.admin {
                    Some(Error::NotTicketOwner)
                } else if t.is_refunded {
                    Some(Error::TicketAlreadyRefunded)
                } else if t.is_used {
                    Some(Error::TicketAlreadyUsed)
                } else if e.cancelled {
                    Some(Error::EventCancelled)
                } else if e.completed {
                    Some(Error::EventCompleted)
                } else {
                    None::<Error>
                }
            }
        }
    }

    /// Marks a ticket used, modelling the entry scan at the venue.
    ///
    /// The one operation not guarded by ticket ownership: it authenticates the
    /// caller against the ticket's event organizer or the fixed admin. The
    /// ticket must be unused and unrefunded and its event still active. A
    /// used ticket stays in its owner's valid set: used is not invalid for
    /// queries.
    pub fn use_ticket(&mut self, caller: AccountId, ticket_id: u64) -> (result: Result<
        TicketUsed,
        Error,
    >)
        requires
            old(self).wf(),
        ensures
            final(self).wf(),
            match old(self).use_ticket_err(caller, ticket_id) {
                Some(e) => {
                    &&& result == Err::<TicketUsed, Error>(e)
                    &&& *final(self) == *old(self)
                },
                None => {
                    &&& result == Ok::<TicketUsed, Error>(
                        (TicketUsed {
                            ticket_id,
                            event_id: old(self).tickets@[ticket_id as int].event_id,
                        }),
                    )
                    &&& final(self).tickets@ == old(self).tickets@.update(
                        ticket_id as int,
                        (Ticket { is_used: true, ..old(self).tickets@[ticket_id as int] }),
                    )
                    &&& final(self).events@ == old(self).events@
                    &&& final(self).owner_tickets@ == old(self).owner_tickets@
                    &&& final(self).event_counter == old(self).event_counter
                    &&& final(self).ticket_counter == old(self).ticket_counter
                    &&& final(self).admin == old(self).admin
                },
            },
    {
        if ticket_id >= self.tickets.len() as u64 {
            return Err(Error::TicketNotFound);
        }
        let ti = ticket_id as usize;
        let t = self.tickets[ti];
        if t.event_id >= self.events.len() as u64 {
            return Err(Error::EventNotFound);
        }
        let ei = t.event_id as usize;
        if caller != self.events[ei].organizer && caller != self.admin {
            return Err(Error::NotTicketOwner);
        }
        if t.is_refunded {
            return Err(Error::TicketAlreadyRefunded);
        }
        if t.is_used {
            return Err(Error::TicketAlreadyUsed);
        }
        if self.events[ei].cancelled {
            return Err(Error::EventCancelled);
        }
        if self.events[ei].completed {
            return Err(Error::EventCompleted);
        }
        let mut t2 = t;
        t2.is_used = true;
        self.tickets.set(ti, t2);
        proof {
            let pre = *old(self);
            let post = *self;
            assert(post.events_wf());
            assert(post.tickets_wf()) by {
                assert forall|i: int| 0 <= i < post.tickets@.len() implies {
                    let tk = #[trigger] post.tickets@[i];
                    &&& tk.id == i
                    &&& tk.event_id < post.events@.len()
                    &&& (tk.is_used && tk.is_refunded ==> post.events@[tk.event_id as int].cancelled)
                } by {
                    if i != ticket_id {
                        assert(post.tickets@[i] == pre.tickets@[i]);
                    }
                }
            }
            assert(post.supply_wf()) by {
                assert forall|eid: u64|
                    eid < post.events@.len() && !(#[trigger] post.events@[eid as int]).cancelled
                    implies post.events@[eid as int].available_tickets + valid_count(
                    post.tickets@,
                    eid,
                ) == post.events@[eid as int].total_tickets by {
                    lemma_valid_count_update(pre.tickets@, eid, ticket_id as int, t2);
                }
            }
            assert(post.index_wf()) by {
                assert forall|a: AccountId|
                    strictly_sorted(#[trigger] post.owned(a)) && post.owned(a).len()
                    <= MAX_TICKETS_PER_USER by {
                    assert(post.owned(a) == pre.owned(a));
                }
                assert forall|a: AccountId, tid: u64|
                    #[trigger] post.owned(a).contains(tid) <==> post.owns_valid(a, tid) by {
                    assert(post.owned(a) == pre.owned(a));
                    assert(pre.owned(a).contains(tid) <==> pre.owns_valid(a, tid));
                    assert(post.owns_valid(a, tid) == pre.owns_valid(a, tid));
                }
            }
        }
        Ok(TicketUsed { ticket_id, event_id: t.event_id })
    }

    /// The error `buy_ticket` reports in this state, if any.
    pub open spec fn buy_ticket_err(
        self,
        caller: AccountId,
        payment: Balance,
        event_id: u64,
    ) -> Option<Error> {
        if event_id >= self.events@.len() {
            Some(Error::EventNotFound)
        } else {
            let e = self.events@[event_id as int];
            if !e.active {
                Some(Error::EventNotActive)
            } else if e.cancelled {
                Some(Error::EventCancelled)
            } else if e.completed {
                Some(Error::EventCompleted)
            } else if e.available_tickets == 0 {
                Some(Error::SoldOut)
            } else if payment != e.price {
                Some(Error::InsufficientPayment)
            } else if self.owned(caller).len() >= MAX_TICKETS_PER_USER {
                Some(Error::TooManyTickets)
            } else {
                None::<Error>
            }
        }
    }

    /// Sells one ticket of an active event to `caller`.
    ///
    /// The attached `payment` must equal the ticket price exactly — no
    /// overpayment tolerance, no change-making — and is retained by the
    /// contract as escrow, which is what makes later refunds unconditional.
    /// On success the available supply shrinks by one, a fresh ticket owned
    /// by the buyer is minted under the next ticket identifier, and the
    /// buyer's ownership index gains that identifier.
    pub fn buy_ticket(
        &mut self,
        caller: AccountId,
        now: u64,
        payment: Balance,
        event_id: u64,
    ) -> (result: Result<TicketPurchased, Error>)
        requires
            old(self).wf(),
        ensures
            final(self).wf(),
            match old(self).buy_ticket_err(caller, payment, event_id) {
                Some(e) => {
                    &&& result == Err::<TicketPurchased, Error>(e)
                    &&& *final(self) == *old(self)
                },
                None => {
                    &&& result == Ok::<TicketPurchased, Error>(
                        (TicketPurchased {
                            ticket_id: old(self).ticket_counter,
                            event_id,
                            buyer: caller,
                            price: old(self).events@[event_id as int].price,
                        }),
                    )
                    &&& final(self).tickets@ == old(self).tickets@.push(
                        (Ticket {
                            id: old(self).ticket_counter,
                            event_id,
                            owner: caller,
                            purchase_time: now,
                            is_used: false,
                            is_refunded: false,
                        }),
                    )
                    &&& final(self).events@ == old(self).events@.update(
                        event_id as int,
                        (Event {
                            available_tickets: (old(self).events@[
                                event_id as int
                            ].available_tickets - 1) as u32,
                            ..old(self).events@[event_id as int]
                        }),
                    )
                    &&& final(self).ticket_counter == old(self).ticket_counter + 1
                    &&& final(self).event_counter == old(self).event_counter
                    &&& final(self).admin == old(self).admin
                },
            },
    {
        if event_id >= self.events.len() as u64 {
            return Err(Error::EventNotFound);
        }
        let ei = event_id as usize;
        if !self.events[ei].active {
            return Err(Error::EventNotActive);
        }
        if self.events[ei].cancelled {
            return Err(Error::EventCancelled);
        }
        if self.events[ei].completed {
            return Err(Error::EventCompleted);
        }
        if self.events[ei].available_tickets == 0 {
            return Err(Error::SoldOut);
        }
        if payment != self.events[ei].price {
            return Err(Error::InsufficientPayment);
        }
        if ids_len(&self.owner_tickets, caller) >= MAX_TICKETS_PER_USER {
            return Err(Error::TooManyTickets);
        }
        let ticket_id = self.ticket_counter;
        let price = self.events[ei].price;
        let ticket = Ticket {
            id: ticket_id,
            event_id,
            owner: caller,
            purchase_time: now,
            is_used: false,
            is_refunded: false,
        };
        self.tickets.push(ticket);
        let n = self.tickets.len();
        self.ticket_counter = n as u64;
        let mut ev = self.events[ei].clone();
        ev.available_tickets = ev.available_tickets - 1;
        self.events.set(ei, ev);
        proof {
            let pre = *old(self);
            assert(self.owned(caller) == pre.owned(caller));
            assert(strictly_sorted(self.owned(caller)));
            assert(!self.owned(caller).contains(ticket_id)) by {
                assert(pre.owned(caller).contains(ticket_id) <==> pre.owns_valid(
                    caller,
                    ticket_id,
                ));
            }
        }
        let mut ids = take_ids(&mut self.owner_tickets, caller);
        insert_id(&mut ids, ticket_id);
        put_ids(&mut self.owner_tickets, caller, ids);
        proof {
            let pre = *old(self);
            let post = *self;
            let nt = (Ticket {
                id: pre.ticket_counter,
                event_id,
                owner: caller,
                purchase_time: now,
                is_used: false,
                is_refunded: false,
            });
            assert(post.tickets@ == pre.tickets@.push(nt));
            assert forall|i: int|
                0 <= i < post.events@.len() implies (#[trigger] post.events@[i]).id == i
                && event_wf(post.events@[i]) by {
                if i != event_id {
                    assert(post.events@[i] == pre.events@[i]);
                }
            }
            assert(post.tickets_wf()) by {
                assert forall|i: int| 0 <= i < post.tickets@.len() implies {
                    let tk = #[trigger] post.tickets@[i];
                    &&& tk.id == i
                    &&& tk.event_id < post.events@.len()
                    &&& (tk.is_used && tk.is_refunded ==> post.events@[tk.event_id as int].cancelled)
                } by {
                    if i < pre.tickets@.len() {
                        assert(post.tickets@[i] == pre.tickets@[i]);
                        let tk = pre.tickets@[i];
                        let eidx = tk.event_id as int;
                        assert(post.events@[eidx].cancelled == pre.events@[eidx].cancelled);
                    } else {
                        assert(post.tickets@[i] == nt);
                    }
                }
            }
            assert(post.supply_wf()) by {
                assert forall|eid: u64|
                    eid < post.events@.len() && !(#[trigger] post.events@[eid as int]).cancelled
                    implies post.events@[eid as int].available_tickets + valid_count(
                    post.tickets@,
                    eid,
                ) == post.events@[eid as int].total_tickets by {
                    lemma_valid_count_push(pre.tickets@, eid, nt);
                    if eid != event_id {
                        assert(post.events@[eid as int] == pre.events@[eid as int]);
                        assert(counts_for(nt, eid) == 0);
                    } else {
                        assert(counts_for(nt, eid) == 1);
                    }
                }
            }
            assert(post.index_wf()) by {
                assert(post.owner_tickets@ == pre.owner_tickets@.remove(caller).insert(
                    caller,
                    post.owner_tickets@[caller],
                ));
                assert forall|a: AccountId| a != caller implies post.owned(a) == pre.owned(
                    a,
                ) by {
                    assert(post.owner_tickets@.contains_key(a) == pre.owner_tickets@.contains_key(
                        a,
                    ));
                }
                assert(post.owned(caller) == post.owner_tickets@[caller]@);
                assert forall|a: AccountId|
                    strictly_sorted(#[trigger] post.owned(a)) && post.owned(a).len()
                    <= MAX_TICKETS_PER_USER by {
                    if a != caller {
                        assert(post.owned(a) == pre.owned(a));
                    } else {
                        assert(post.owned(a).len() == pre.owned(caller).len() + 1);
                    }
                }
                assert forall|a: AccountId, tid: u64|
                    #[trigger] post.owned(a).contains(tid) <==> post.owns_valid(a, tid) by {
                    assert(pre.owned(a).contains(tid) <==> pre.owns_valid(a, tid));
                    if a != caller {
                        assert(post.owned(a) == pre.owned(a));
                        if tid == pre.ticket_counter {
                            assert(post.tickets@[tid as int].owner == caller);
                        } else if tid < pre.tickets@.len() {
                            assert(post.tickets@[tid as int] == pre.tickets@[tid as int]);
                        }
                    } else {
                        assert(post.owned(a).contains(tid) <==> pre.owned(a).contains(tid) || tid
                            == pre.ticket_counter);
                        if tid < pre.tickets@.len() {
                            assert(post.tickets@[tid as int] == pre.tickets@[tid as int]);
                        }
                    }
                }
            }
        }
        Ok(TicketPurchased { ticket_id, event_id, buyer: caller, price })
    }

    /// The error `transfer_ticket` reports in this state, if any.
    pub open spec fn transfer_ticket_err(
        self,
        caller: AccountId,
        ticket_id: u64,
        to: AccountId,
    ) -> Option<Error> {
        if ticket_id >= self.tickets@.len() {
            Some(Error::TicketNotFound)
        } else {
            let t = self.tickets@[ticket_id as int];
            if t.owner != caller {
                Some(Error::NotTicketOwner)
            } else if t.is_used {
                Some(Error::TicketAlreadyUsed)
            } else if t.is_refunded {
                Some(Error::TicketAlreadyRefunded)
            } else if self.owned(to).len() >= MAX_TICKETS_PER_USER {
                Some(Error::TooManyTickets)
            } else {
                None::<Error>
            }
        }
    }

    /// Transfers an unused, unrefunded ticket from its owner to `to`.
    ///
    /// No payment moves. The ticket identifier leaves the sender's ownership
    /// index and joins the recipient's in one step, and the ticket record's
    /// owner is rewritten; the recipient must be below the per-account cap,
    /// counted before the ticket moves, so transferring to oneself at the cap
    /// is rejected just as the other transfers are.
    pub fn transfer_ticket(&mut self, caller: AccountId, ticket_id: u64, to: AccountId) -> (result:
        Result<TicketTransferred, Error>)
        requires
            old(self).wf(),
        ensures
            final(self).wf(),
            match old(self).transfer_ticket_err(caller, ticket_id, to) {
                Some(e) => {
                    &&& result == Err::<TicketTransferred, Error>(e)
                    &&& *final(self) == *old(self)
                },
                None => {
                    &&& result == Ok::<TicketTransferred, Error>(
                        (TicketTransferred { ticket_id, from: caller, to }),
                    )
                    &&& final(self).tickets@ == old(self).tickets@.update(
                        ticket_id as int,
                        (Ticket { owner: to, ..old(self).tickets@[ticket_id as int] }),
                    )
                    &&& final(self).events@ == old(self).events@
                    &&& final(self).event_counter == old(self).event_counter
                    &&& final(self).ticket_counter == old(self).ticket_counter
                    &&& final(self).admin == old(self).admin
                },
            },
    {
        if ticket_id >= self.tickets.len() as u64 {
            return Err(Error::TicketNotFound);
        }
        let ti = ticket_id as usize;
        let t = self.tickets[ti];
        if t.owner != caller {
            return Err(Error::NotTicketOwner);
        }
        if t.is_used {
            return Err(Error::TicketAlreadyUsed);
        }
        if t.is_refunded {
            return Err(Error::TicketAlreadyRefunded);
        }
        if ids_len(&self.owner_tickets, to) >= MAX_TICKETS_PER_USER {
            return Err(Error::TooManyTickets);
        }
        let mut t2 = t;
        t2.owner = to;
        self.tickets.set(ti, t2);
        proof {
            let pre = *old(self);
            assert(pre.owned(caller).contains(ticket_id) <==> pre.owns_valid(caller, ticket_id));
            assert(strictly_sorted(self.owned(caller)));
        }
        let mut from_ids = take_ids(&mut self.owner_tickets, caller);
        remove_id(&mut from_ids, ticket_id);
        put_ids(&mut self.owner_tickets, caller, from_ids);
        let ghost mid = self.owner_tickets@;
        proof {
            let pre = *old(self);
            assert(ids_of(mid, caller).len() == pre.owned(caller).len() - 1);
            if to != caller {
                assert(ids_of(mid, to) == pre.owned(to));
                assert(strictly_sorted(ids_of(mid, to)));
                assert(!pre.owned(to).contains(ticket_id)) by {
                    assert(pre.owned(to).contains(ticket_id) <==> pre.owns_valid(to, ticket_id));
                }
            }
        }
        let mut to_ids = take_ids(&mut self.owner_tickets, to);
        insert_id(&mut to_ids, ticket_id);
        put_ids(&mut self.owner_tickets, to, to_ids);
        proof {
            let pre = *old(self);
            let post = *self;
            assert(post.tickets@ == pre.tickets@.update(ticket_id as int, t2));
            assert(post.events_wf());
            assert(post.tickets_wf()) by {
                assert forall|i: int| 0 <= i < post.tickets@.len() implies {
                    let tk = #[trigger] post.tickets@[i];
                    &&& tk.id == i
                    &&& tk.event_id < post.events@.len()
                    &&& (tk.is_used && tk.is_refunded ==> post.events@[tk.event_id as int].cancelled)
                } by {
                    if i != ticket_id {
                        assert(post.tickets@[i] == pre.tickets@[i]);
                    }
                }
            }
            assert(post.supply_wf()) by {
                assert forall|eid: u64|
                    eid < post.events@.len() && !(#[trigger] post.events@[eid as int]).cancelled
                    implies post.events@[eid as int].available_tickets + valid_count(
                    post.tickets@,
                    eid,
                ) == post.events@[eid as int].total_tickets by {
                    lemma_valid_count_update(pre.tickets@, eid, ticket_id as int, t2);
                    assert(counts_for(pre.tickets@[ticket_id as int], eid) == counts_for(t2, eid));
                }
            }
            // What each account's index now holds.
            assert(post.owned(to) == post.owner_tickets@[to]@);
            assert forall|a: AccountId| a != to && a != caller implies post.owned(a) == pre.owned(
                a,
            ) by {
                assert(ids_of(mid, a) == pre.owned(a));
            }
            if to != caller {
                assert(post.owned(caller) == ids_of(mid, caller));
            }
            assert(post.index_wf()) by {
                assert forall|a: AccountId|
                    strictly_sorted(#[trigger] post.owned(a)) && post.owned(a).len()
                    <= MAX_TICKETS_PER_USER by {
                    if a == to {
                        assert(post.owned(a).len() == ids_of(mid, to).len() + 1);
                        if to != caller {
                            assert(ids_of(mid, to) == pre.owned(to));
                            assert(pre.owned(to).len() < MAX_TICKETS_PER_USER);
                        } else {
                            assert(ids_of(mid, to).len() == pre.owned(caller).len() - 1);
                        }
                    } else if a == caller {
                        assert(post.owned(a) == ids_of(mid, caller));
                    } else {
                        assert(post.owned(a) == pre.owned(a));
                    }
                }
                assert forall|a: AccountId, tid: u64|
                    #[trigger] post.owned(a).contains(tid) <==> post.owns_valid(a, tid) by {
                    assert(pre.owned(a).contains(tid) <==> pre.owns_valid(a, tid));
                    if tid != ticket_id && tid < pre.tickets@.len() {
                        assert(post.tickets@[tid as int] == pre.tickets@[tid as int]);
                    }
                    if a == to {
                        assert(post.owned(a).contains(tid) <==> ids_of(mid, to).contains(tid)
                            || tid == ticket_id);
                        if to == caller {
                            assert(ids_of(mid, to).contains(tid) <==> pre.owned(caller).contains(
                                tid,
                            ) && tid != ticket_id);
                        }
                    } else if a == caller {
                        assert(post.owned(a) == ids_of(mid, caller));
                        assert(ids_of(mid, caller).contains(tid) <==> pre.owned(caller).contains(
                            tid,
                        ) && tid != ticket_id);
                    } else {
                        assert(post.owned(a) == pre.owned(a));
                    }
                }
            }
        }
        Ok(TicketTransferred { ticket_id, from: caller, to })
    }

    /// The error `refund_ticket` reports in this state, if any;
    /// `transfer_ok` is the ledger's answer to paying the refund out.
    pub open spec fn refund_ticket_err(
        self,
        caller: AccountId,
        ticket_id: u64,
        transfer_ok: bool,
    ) -> Option<Error> {
        if ticket_id >= self.tickets@.len() {
            Some(Error::TicketNotFound)
        } else {
            let t = self.tickets@[ticket_id as int];
            if t.owner != caller {
                Some(Error::NotTicketOwner)
            } else if t.is_refunded {
                Some(Error::TicketAlreadyRefunded)
            } else if t.event_id >= self.events@.len() {
                Some(Error::EventNotFound)
            } else if !self.events@[t.event_id as int].cancelled {
                Some(Error::EventNotActive)
            } else if !transfer_ok {
                Some(Error::TransferFailed)
            } else {
                None::<Error>
            }
        }
    }

    /// Refunds a ticket of a cancelled event to its owner.
    ///
    /// The ticket price moves from escrow back to the owner; `transfer_ok`
    /// reports whether the ledger's transfer primitive honoured that payout,
    /// and on failure nothing is committed. A used ticket is still refundable
    /// here — the event was cancelled — which is the one path that makes a
    /// ticket both used and refunded. The refunded ticket leaves the owner's
    /// index; the event's available supply is not changed, refunds return
    /// money, not supply.
    pub fn refund_ticket(&mut self, caller: AccountId, ticket_id: u64, transfer_ok: bool) -> (result:
        Result<TicketRefunded, Error>)
        requires
            old(self).wf(),
        ensures
            final(self).wf(),
            match old(self).refund_ticket_err(caller, ticket_id, transfer_ok) {
                Some(e) => {
                    &&& result == Err::<TicketRefunded, Error>(e)
                    &&& *final(self) == *old(self)
                },
                None => {
                    &&& result == Ok::<TicketRefunded, Error>(
                        (TicketRefunded {
                            ticket_id,
                            owner: caller,
                            amount: old(self).events@[
                                old(self).tickets@[ticket_id as int].event_id as int
                            ].price,
                        }),
                    )
                    &&& final(self).tickets@ == old(self).tickets@.update(
                        ticket_id as int,
                        (Ticket { is_refunded: true, ..old(self).tickets@[ticket_id as int] }),
                    )
                    &&& final(self).events@ == old(self).events@
                    &&& final(self).event_counter == old(self).event_counter
                    &&& final(self).ticket_counter == old(self).ticket_counter
                    &&& final(self).admin == old(self).admin
                },
            },
    {
        if ticket_id >= self.tickets.len() as u64 {
            return Err(Error::TicketNotFound);
        }
        let ti = ticket_id as usize;
        let t = self.tickets[ti];
        if t.owner != caller {
            return Err(Error::NotTicketOwner);
        }
        if t.is_refunded {
            return Err(Error::TicketAlreadyRefunded);
        }
        if t.event_id >= self.events.len() as u64 {
            return Err(Error::EventNotFound);
        }
        let ei = t.event_id as usize;
        if !self.events[ei].cancelled {
            return Err(Error::EventNotActive);
        }
        if !transfer_ok {
            return Err(Error::TransferFailed);
        }
        let amount = self.events[ei].price;
        let mut t2 = t;
        t2.is_refunded = true;
        self.tickets.set(ti, t2);
        proof {
            let pre = *old(self);
            assert(pre.owned(caller).contains(ticket_id) <==> pre.owns_valid(caller, ticket_id));
            assert(strictly_sorted(self.owned(caller)));
        }
        let mut ids = take_ids(&mut self.owner_tickets, caller);
        remove_id(&mut ids, ticket_id);
        put_ids(&mut self.owner_tickets, caller, ids);
        proof {
            self.lemma_retire_ticket_wf(*old(self), caller, ticket_id, t2);
        }
        Ok(TicketRefunded { ticket_id, owner: caller, amount })
    }

    /// The error `cancel_ticket` reports in this state, if any;
    /// `transfer_ok` is the ledger's answer to paying the refund out.
    pub open spec fn cancel_ticket_err(
        self,
        caller: AccountId,
        ticket_id: u64,
        transfer_ok: bool,
    ) -> Option<Error> {
        if ticket_id >= self.tickets@.len() {
            Some(Error::TicketNotFound)
        } else {
            let t = self.tickets@[ticket_id as int];
            if t.owner != caller {
                Some(Error::NotTicketOwner)
            } else if t.is_refunded {
                Some(Error::TicketAlreadyRefunded)
            } else if t.is_used {
                Some(Error::TicketAlreadyUsed)
            } else if t.event_id >= self.events@.len() {
                Some(Error::EventNotFound)
            } else if self.events@[t.event_id as int].cancelled {
                Some(Error::EventCancelled)
            } else if self.events@[t.event_id as int].completed {
                Some(Error::EventCompleted)
            } else if !transfer_ok {
                Some(Error::TransferFailed)
            } else {
                None::<Error>
            }
        }
    }

    /// Pre-event self-service cancellation: the owner gives an unused ticket
    /// back while the event is still active.
    ///
    /// Distinct from `refund_ticket`, which serves cancelled events: here the
    /// ticket must be unused and the event neither cancelled nor completed,
    /// and the returned slot re-enters the sale pool. The price moves back to
    /// the owner; `transfer_ok` reports whether the ledger honoured that
    /// payout, and on failure nothing is committed.
    pub fn cancel_ticket(&mut self, caller: AccountId, ticket_id: u64, transfer_ok: bool) -> (result:
        Result<TicketCancelled, Error>)
        requires
            old(self).wf(),
        ensures
            final(self).wf(),
            match old(self).cancel_ticket_err(caller, ticket_id, transfer_ok) {
                Some(e) => {
                    &&& result == Err::<TicketCancelled, Error>(e)
                    &&& *final(self) == *old(self)
                },
                None => {
                    &&& result == Ok::<TicketCancelled, Error>(
                        (TicketCancelled {
                            ticket_id,
                            event_id: old(self).tickets@[ticket_id as int].event_id,
                            owner: caller,
                            refund_amount: old(self).events@[
                                old(self).tickets@[ticket_id as int].event_id as int
                            ].price,
                        }),
                    )
                    &&& final(self).tickets@ == old(self).tickets@.update(
                        ticket_id as int,
                        (Ticket { is_refunded: true, ..old(self).tickets@[ticket_id as int] }),
                    )
                    &&& final(self).events@ == old(self).events@.update(
                        old(self).tickets@[ticket_id as int].event_id as int,
                        (Event {
                            available_tickets: (old(self).events@[
                                old(self).tickets@[ticket_id as int].event_id as int
                            ].available_tickets + 1) as u32,
                            ..old(self).events@[
                                old(self).tickets@[ticket_id as int].event_id as int
                            ]
                        }),
                    )
                    &&& final(self).event_counter == old(self).event_counter
                    &&& final(self).ticket_counter == old(self).ticket_counter
                    &&& final(self).admin == old(self).admin
                },
            },
    {
        if ticket_id >= self.tickets.len() as u64 {
            return Err(Error::TicketNotFound);
        }
        let ti = ticket_id as usize;
        let t = self.tickets[ti];
        if t.owner != caller {
            return Err(Error::NotTicketOwner);
        }
        if t.is_refunded {
            return Err(Error::TicketAlreadyRefunded);
        }
        if t.is_used {
            return Err(Error::TicketAlreadyUsed);
        }
        if t.event_id >= self.events.len() as u64 {
            return Err(Error::EventNotFound);
        }
        let ei = t.event_id as usize;
        if self.events[ei].cancelled {
            return Err(Error::EventCancelled);
        }
        if self.events[ei].completed {
            return Err(Error::EventCompleted);
        }
        if !transfer_ok {
            return Err(Error::TransferFailed);
        }
        let amount = self.events[ei].price;
        proof {
            // The outstanding count of this event includes this very ticket,
            // so the available supply is strictly below the total and can
            // take the returned slot without leaving the supply bound.
            let pre = *old(self);
            assert(counts_for(pre.tickets@[ticket_id as int], t.event_id) == 1);
            lemma_valid_count_at_least_one(pre.tickets@, t.event_id, ticket_id as int);
            assert(pre.events@[t.event_id as int].available_tickets + valid_count(
                pre.tickets@,
                t.event_id,
            ) == pre.events@[t.event_id as int].total_tickets);
            assert(pre.events@[t.event_id as int].available_tickets < pre.events@[
                t.event_id as int
            ].total_tickets);
        }
        let mut t2 = t;
        t2.is_refunded = true;
        self.tickets.set(ti, t2);
        let mut ev = self.events[ei].clone();
        ev.available_tickets = ev.available_tickets + 1;
        self.events.set(ei, ev);
        proof {
            let pre = *old(self);
            assert(pre.owned(caller).contains(ticket_id) <==> pre.owns_valid(caller, ticket_id));
            assert(strictly_sorted(self.owned(caller)));
        }
        let mut ids = take_ids(&mut self.owner_tickets, caller);
        remove_id(&mut ids, ticket_id);
        put_ids(&mut self.owner_tickets, caller, ids);
        proof {
            let pre = *old(self);
            self.lemma_retire_ticket_wf(pre, caller, ticket_id, (Ticket {
                is_refunded: true,
                ..pre.tickets@[ticket_id as int]
            }));
        }
        Ok(TicketCancelled { ticket_id, event_id: t.event_id, owner: caller, refund_amount: amount })
    }

    /// After retiring one of `caller`'s tickets — marking it refunded,
    /// removing it from `caller`'s index, and possibly returning its slot to
    /// the event's available supply — the store is still well-formed.
    proof fn lemma_retire_ticket_wf(self, pre: TicketDot, caller: AccountId, ticket_id: u64, t2: Ticket)
        requires
            pre.wf(),
            ticket_id < pre.tickets@.len(),
            pre.tickets@[ticket_id as int].owner == caller,
            !pre.tickets@[ticket_id as int].is_refunded,
            t2 == (Ticket { is_refunded: true, ..pre.tickets@[ticket_id as int] }),
            self.tickets@ == pre.tickets@.update(ticket_id as int, t2),
            self.events@.len() == pre.events@.len(),
            forall|i: int|
                0 <= i < pre.events@.len() ==> (#[trigger] self.events@[i]).id
                    == pre.events@[i].id && event_wf(self.events@[i]) && self.events@[i].cancelled
                    == pre.events@[i].cancelled,
            forall|i: int|
                0 <= i < pre.events@.len() && i != t2.event_id ==> #[trigger] self.events@[i]
                    == pre.events@[i],
            self.events@[t2.event_id as int].available_tickets + counts_for(t2, t2.event_id)
                == pre.events@[t2.event_id as int].available_tickets + counts_for(
                pre.tickets@[ticket_id as int],
                t2.event_id,
            ) || self.events@[t2.event_id as int].cancelled,
            self.events@[t2.event_id as int].total_tickets == pre.events@[
                t2.event_id as int
            ].total_tickets,
            t2.is_used ==> self.events@[t2.event_id as int].cancelled,
            self.owner_tickets@ == pre.owner_tickets@.remove(caller).insert(
                caller,
                self.owner_tickets@[caller],
            ),
            self.owner_tickets@.contains_key(caller),
            strictly_sorted(self.owned(caller)),
            self.owned(caller).len() == pre.owned(caller).len() - 1,
            forall|y: u64|
                #[trigger] self.owned(caller).contains(y) <==> pre.owned(caller).contains(y) && y
                    != ticket_id,
            self.event_counter == pre.event_counter,
            self.ticket_counter == pre.ticket_counter,
        ensures
            self.wf(),
    {
        let post = self;
        assert(post.events_wf());
        assert(post.tickets_wf()) by {
            assert forall|i: int| 0 <= i < post.tickets@.len() implies {
                let tk = #[trigger] post.tickets@[i];
                &&& tk.id == i
                &&& tk.event_id < post.events@.len()
                &&& (tk.is_used && tk.is_refunded ==> post.events@[tk.event_id as int].cancelled)
            } by {
                assert(pre.tickets@[i].id == i);
                if i != ticket_id {
                    assert(post.tickets@[i] == pre.tickets@[i]);
                    let tk = pre.tickets@[i];
                    assert(post.events@[tk.event_id as int].cancelled == pre.events@[
                        tk.event_id as int
                    ].cancelled);
                } else {
                    assert(post.tickets@[i] == t2);
                }
            }
        }
        assert(post.supply_wf()) by {
            assert forall|eid: u64|
                eid < post.events@.len() && !(#[trigger] post.events@[eid as int]).cancelled
                implies post.events@[eid as int].available_tickets + valid_count(
                post.tickets@,
                eid,
            ) == post.events@[eid as int].total_tickets by {
                lemma_valid_count_update(pre.tickets@, eid, ticket_id as int, t2);
                assert(post.events@[eid as int].cancelled == pre.events@[eid as int].cancelled);
                assert(!pre.events@[eid as int].cancelled);
                assert(pre.events@[eid as int].available_tickets + valid_count(pre.tickets@, eid)
                    == pre.events@[eid as int].total_tickets);
                if eid != t2.event_id {
                    assert(counts_for(pre.tickets@[ticket_id as int], eid) == counts_for(t2, eid));
                    assert(post.events@[eid as int] == pre.events@[eid as int]);
                }
            }
        }
        assert(post.index_wf()) by {
            assert forall|a: AccountId| a != caller implies post.owned(a) == pre.owned(a) by {
                assert(post.owner_tickets@.contains_key(a) == pre.owner_tickets@.contains_key(a));
            }
            assert forall|a: AccountId|
                strictly_sorted(#[trigger] post.owned(a)) && post.owned(a).len()
                <= MAX_TICKETS_PER_USER by {
                if a != caller {
                    assert(post.owned(a) == pre.owned(a));
                }
            }
            assert forall|a: AccountId, tid: u64|
                #[trigger] post.owned(a).contains(tid) <==> post.owns_valid(a, tid) by {
                assert(pre.owned(a).contains(tid) <==> pre.owns_valid(a, tid));
                if tid != ticket_id && tid < pre.tickets@.len() {
                    assert(post.tickets@[tid as int] == pre.tickets@[tid as int]);
                }
                if a != caller {
                    assert(post.owned(a) == pre.owned(a));
                }
            }
        }
    }

    /// The earnings of an event: price times tickets sold, saturating at the
    /// largest balance as the ledger's arithmetic does.
    pub open spec fn earnings_of(e: Event) -> Balance {
        let sold = e.total_tickets - e.available_tickets;
        if e.price * sold > Balance::MAX {
            Balance::MAX
        } else {
            (e.price * sold) as Balance
        }
    }

    /// The error `withdraw_earnings` reports in this state, if any;
    /// `transfer_ok` is the ledger's answer to paying the earnings out.
    pub open spec fn withdraw_earnings_err(
        self,
        caller: AccountId,
        event_id: u64,
        transfer_ok: bool,
    ) -> Option<Error> {
        if event_id >= self.events@.len() {
            Some(Error::EventNotFound)
        } else {
            let e = self.events@[event_id as int];
            if e.organizer != caller {
                Some(Error::NotOrganizer)
            } else if !e.completed {
                Some(Error::EventNotCompleted)
            } else if e.withdrawn {
                Some(Error::InsufficientBalance)
            } else if !transfer_ok {
                Some(Error::TransferFailed)
            } else {
                None::<Error>
            }
        }
    }

    /// Pays a completed event's escrowed earnings — price times tickets sold
    /// — out to the organizer, and reports the amount paid.
    ///
    /// The event is then marked withdrawn, so a second call finds no escrowed
    /// balance left and fails with `InsufficientBalance` instead of paying
    /// twice. `transfer_ok` reports whether the ledger honoured the payout;
    /// on failure nothing is committed and the withdrawal stays available.
    pub fn withdraw_earnings(&mut self, caller: AccountId, event_id: u64, transfer_ok: bool) -> (result:
        Result<Balance, Error>)
        requires
            old(self).wf(),
        ensures
            final(self).wf(),
            match old(self).withdraw_earnings_err(caller, event_id, transfer_ok) {
                Some(e) => {
                    &&& result == Err::<Balance, Error>(e)
                    &&& *final(self) == *old(self)
                },
                None => {
                    &&& result == Ok::<Balance, Error>(
                        Self::earnings_of(old(self).events@[event_id as int]),
                    )
                    &&& final(self).events@ == old(self).events@.update(
                        event_id as int,
                        (Event { withdrawn: true, ..old(self).events@[event_id as int] }),
                    )
                    &&& final(self).tickets@ == old(self).tickets@
                    &&& final(self).owner_tickets@ == old(self).owner_tickets@
                    &&& final(self).event_counter == old(self).event_counter
                    &&& final(self).ticket_counter == old(self).ticket_counter
                    &&& final(self).admin == old(self).admin
                },
            },
    {
        if event_id >= self.events.len() as u64 {
            return Err(Error::EventNotFound);
        }
        let i = event_id as usize;
        if self.events[i].organizer != caller {
            return Err(Error::NotOrganizer);
        }
        if !self.events[i].completed {
            return Err(Error::EventNotCompleted);
        }
        if self.events[i].withdrawn {
            return Err(Error::InsufficientBalance);
        }
        if !transfer_ok {
            return Err(Error::TransferFailed);
        }
        let tickets_sold = self.events[i].total_tickets - self.events[i].available_tickets;
        let earnings = match self.events[i].price.checked_mul(tickets_sold as Balance) {
            Some(v) => v,
            None => Balance::MAX,
        };
        let mut ev = self.events[i].clone();
        ev.withdrawn = true;
        self.events.set(i, ev);
        proof {
            self.lemma_event_flag_update_wf(*old(self), event_id);
        }
        Ok(earnings)
    }

    /// After an update that only rewrites one event's lifecycle flags into
    /// another legal combination, the whole store is still well-formed.
    proof fn lemma_event_flag_update_wf(self, pre: TicketDot, event_id: u64)
        requires
            pre.wf(),
            event_id < pre.events@.len(),
            self.events@.len() == pre.events@.len(),
            forall|i: int|
                0 <= i < pre.events@.len() && i != event_id ==> self.events@[i]
                    == pre.events@[i],
            event_wf(self.events@[event_id as int]),
            self.events@[event_id as int].id == event_id,
            self.events@[event_id as int].available_tickets == pre.events@[
                event_id as int
            ].available_tickets,
            self.events@[event_id as int].total_tickets == pre.events@[
                event_id as int
            ].total_tickets,
            pre.events@[event_id as int].cancelled ==> self.events@[event_id as int].cancelled,
            self.tickets@ == pre.tickets@,
            self.owner_tickets@ == pre.owner_tickets@,
            self.event_counter == pre.event_counter,
            self.ticket_counter == pre.ticket_counter,
        ensures
            self.wf(),
    {
        assert forall|i: int|
            0 <= i < self.events@.len() implies (#[trigger] self.events@[i]).id == i && event_wf(
            self.events@[i],
        ) by {
            if i != event_id {
                assert(self.events@[i] == pre.events@[i]);
            }
        }
        assert(self.tickets_wf()) by {
            assert forall|i: int| 0 <= i < self.tickets@.len() implies {
                let t = #[trigger] self.tickets@[i];
                &&& t.id == i
                &&& t.event_id < self.events@.len()
                &&& (t.is_used && t.is_refunded ==> self.events@[t.event_id as int].cancelled)
            } by {
                let t = self.tickets@[i];
                assert(t == pre.tickets@[i]);
                if t.event_id != event_id {
                    assert(self.events@[t.event_id as int] == pre.events@[t.event_id as int]);
                }
            }
        }
        assert(self.supply_wf()) by {
            assert forall|eid: u64|
                eid < self.events@.len() && !(#[trigger] self.events@[eid as int]).cancelled
                implies self.events@[eid as int].available_tickets + valid_count(
                self.tickets@,
                eid,
            ) == self.events@[eid as int].total_tickets by {
                if eid != event_id {
                    assert(self.events@[eid as int] == pre.events@[eid as int]);
                } else {
                    assert(!pre.events@[eid as int].cancelled);
                }
            }
        }
        assert(self.index_wf()) by {
            assert forall|a: AccountId|
                strictly_sorted(#[trigger] self.owned(a)) && self.owned(a).len()
                <= MAX_TICKETS_PER_USER by {
                assert(self.owned(a) == pre.owned(a));
            }
            assert forall|a: AccountId, ticket_id: u64|
                #[trigger] self.owned(a).contains(ticket_id) <==> self.owns_valid(
                a,
                ticket_id,
            ) by {
                assert(self.owned(a) == pre.owned(a));
                assert(pre.owned(a).contains(ticket_id) <==> pre.owns_valid(a, ticket_id));
            }
        }
    }

    /// Event details, or nothing when no event has that identifier.
    pub fn get_event(&self, event_id: u64) -> (result: Option<Event>)
        ensures
            result == if event_id < self.events@.len() {
                Some(self.events@[event_id as int])
            } else {
                None::<Event>
            },
    {
        if event_id < self.events.len() as u64 {
            Some(self.events[event_id as usize].clone())
        } else {
            None
        }
    }

    /// Ticket details, or nothing when no ticket has that identifier.
    pub fn get_ticket(&self, ticket_id: u64) -> (result: Option<Ticket>)
        ensures
            result == if ticket_id < self.tickets@.len() {
                Some(self.tickets@[ticket_id as int])
            } else {
                None::<Ticket>
            },
    {
        if ticket_id < self.tickets.len() as u64 {
            Some(self.tickets[ticket_id as usize])
        } else {
            None
        }
    }

    /// The tickets `owner` currently holds in valid state, sorted by
    /// identifier: exactly those whose record names `owner` and is not
    /// refunded.
    pub fn get_my_tickets(&self, owner: AccountId) -> (result: Vec<u64>)
        requires
            self.wf(),
        ensures
            result@ == self.owned(owner),
            strictly_sorted(result@),
            forall|ticket_id: u64|
                result@.contains(ticket_id) <==> self.owns_valid(owner, ticket_id),
    {
        let mut out: Vec<u64> = Vec::new();
        match self.owner_tickets.get(&owner) {
            Some(ids) => {
                let mut i: usize = 0;
                while i < ids.len()
                    invariant
                        i <= ids@.len(),
                        out@ == ids@.subrange(0, i as int),
                    decreases ids@.len() - i,
                {
                    out.push(ids[i]);
                    i += 1;
                }
                proof {
                    assert(out@ =~= ids@);
                }
            },
            None => {},
        }
        proof {
            assert(out@ == self.owned(owner));
            assert(strictly_sorted(self.owned(owner)));
            assert forall|ticket_id: u64|
                out@.contains(ticket_id) <==> self.owns_valid(owner, ticket_id) by {
                assert(self.owned(owner).contains(ticket_id) <==> self.owns_valid(
                    owner,
                    ticket_id,
                ));
            }
        }
        out
    }

    /// How many events have been created; also the next event identifier.
    pub fn get_event_count(&self) -> (result: u64)
        ensures
            result == self.event_counter,
    {
        self.event_counter
    }

    /// How many tickets have been minted; also the next ticket identifier.
    pub fn get_ticket_count(&self) -> (result: u64)
        ensures
            result == self.ticket_counter,
    {
        self.ticket_counter
    }

    /// The admin identity captured at construction.
    pub fn get_admin(&self) -> (result: AccountId)
        ensures
            result == self.admin,
    {
        self.admin
    }
}

} // verus!
