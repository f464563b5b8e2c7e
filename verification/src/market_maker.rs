//! The producer: on every tick it adjusts the rate, then emits that many
//! quotes, each sent downstream before it is retained.
//!
//! Waiting for a tick and sending on the channel are the caller's work. The
//! producer decides: it is told what happened (an `Event`) and answers with
//! what to do next (an `Action`).

use crate::channel::{
    channel_bound, max_capacity, max_channel_capacity, open_channel, BUFFER_SECS,
};
use crate::quote::{spec_is_negative, Quote, Side, Symbol};
use crate::random::next_id;
use crate::rate::{RateController, RateState};
use crate::store::{QuoteStore, StoreModel, CAPACITY, TOTAL_CAPACITY};
use rand::rngs::StdRng;
use tokio::sync::mpsc::{Receiver, Sender};
use vstd::prelude::*;

verus! {

/// Where the producer stands in its loop.
#[derive(Debug, Copy, Clone, Eq, PartialEq, Structural)]
pub enum Phase {
    /// Between ticks.
    Idle,
    /// Inside a tick, with `remaining` quotes still to emit.
    Generating { remaining: u32 },
    /// The consumer is gone; nothing more is produced.
    Stopped,
}

/// What the caller reports to the producer.
#[derive(Debug, Copy, Clone, Eq, PartialEq, Structural)]
pub enum Event {
    /// The tick fired, `now` whole seconds after the producer was made.
    Tick { now: u64 },
    /// `quote` was accepted by the channel.
    Sent { quote: Quote },
    /// The channel refused a quote because the consumer is gone.
    Closed,
}

/// What the producer asks the caller to do next.
#[derive(Debug, Copy, Clone, Eq, PartialEq, Structural)]
pub enum Action {
    /// Wait for the next tick and report `Event::Tick`.
    AwaitTick,
    /// Generate one quote, send it, and report `Event::Sent` with that
    /// quote, or `Event::Closed` if the channel refused it.
    Emit,
    /// Stop: the loop is over.
    Halt,
}

/// What a producer holds, as mathematics.
pub struct MakerModel {
    pub rate: RateState,
    pub store: StoreModel,
    pub phase: Phase,
}

impl MakerModel {
    /// The rate is valid, the store's indexes agree, and a tick in progress
    /// has at least one quote left to emit and no more than the rate.
    pub open spec fn valid(self) -> bool {
        &&& self.rate.valid()
        &&& self.rate.max_rate <= u32::MAX
        &&& self.store.coherent()
        &&& self.phase matches Phase::Generating { remaining } ==> 0 < remaining
            <= self.rate.current_rate
    }

    /// What the producer asks for while it waits for the next event.
    pub open spec fn pending(self) -> Action {
        match self.phase {
            Phase::Idle => Action::AwaitTick,
            Phase::Generating { .. } => Action::Emit,
            Phase::Stopped => Action::Halt,
        }
    }

    /// The producer after an event.
    ///
    /// A tick between ticks adjusts the rate and opens a round of as many
    /// quotes as the adjusted rate says. A sent quote is retained and counts
    /// against the round, which ends with the last one. A closed channel
    /// inside a round stops the producer for good, and the refused quote is
    /// not retained. An event that does not fit the phase changes nothing.
    pub open spec fn next(self, event: Event) -> MakerModel {
        match (self.phase, event) {
            (Phase::Idle, Event::Tick { now }) => {
                let rate = self.rate.adjust(now as nat);
                MakerModel {
                    rate,
                    phase: Phase::Generating { remaining: rate.current_rate as u32 },
                    ..self
                }
            },
            (Phase::Generating { remaining }, Event::Sent { quote }) => MakerModel {
                store: self.store.insert(quote),
                phase: if remaining > 1 {
                    Phase::Generating { remaining: (remaining - 1) as u32 }
                } else {
                    Phase::Idle
                },
                ..self
            },
            (Phase::Generating { .. }, Event::Closed) => MakerModel {
                phase: Phase::Stopped,
                ..self
            },
            _ => self,
        }
    }

    /// The producer after a run of events, first to last.
    pub open spec fn run(self, events: Seq<Event>) -> MakerModel
        decreases events.len(),
    {
        if events.len() == 0 {
            self
        } else {
            self.run(events.drop_last()).next(events.last())
        }
    }
}

/// The events that report `quotes` as sent, one after the other.
pub open spec fn sent(quotes: Seq<Quote>) -> Seq<Event> {
    quotes.map_values(|quote: Quote| Event::Sent { quote })
}

/// Every event leaves a valid producer valid: the rate within its bounds,
/// the store's indexes in agreement, a round never longer than the rate.
pub proof fn lemma_next_valid(m: MakerModel, event: Event)
    requires
        m.valid(),
    ensures
        m.next(event).valid(),
        m.next(event).rate.min_rate == m.rate.min_rate,
        m.next(event).rate.max_rate == m.rate.max_rate,
        m.next(event).rate.current_rate >= m.rate.current_rate,
{
    match (m.phase, event) {
        (Phase::Idle, Event::Tick { now }) => {
            crate::rate::lemma_adjust_monotone(m.rate, now as nat);
        },
        (Phase::Generating { remaining }, Event::Sent { quote }) => {
            crate::store::lemma_insert_coherent(m.store, quote);
        },
        _ => {},
    }
}

/// Over any run of events a valid producer stays valid, its rate never
/// falls, no key retains more than `CAPACITY` identifiers and the store no
/// more than `TOTAL_CAPACITY`.
pub proof fn lemma_run_valid(m: MakerModel, events: Seq<Event>)
    requires
        m.valid(),
    ensures
        m.run(events).valid(),
        m.run(events).rate.min_rate == m.rate.min_rate,
        m.run(events).rate.max_rate == m.rate.max_rate,
        m.run(events).rate.current_rate >= m.rate.current_rate,
        forall|sym: Symbol, side: Side| #[trigger]
            m.run(events).store.sequence(sym, side).len() <= CAPACITY,
        m.run(events).store.quotes.dom().len() <= TOTAL_CAPACITY,
    decreases events.len(),
{
    if events.len() > 0 {
        lemma_run_valid(m, events.drop_last());
        lemma_next_valid(m.run(events.drop_last()), events.last());
    }
    crate::store::lemma_coherent_bounds(m.run(events).store);
    assert forall|sym: Symbol, side: Side| #[trigger]
        m.run(events).store.sequence(sym, side).len() <= CAPACITY by {
        assert(m.run(events).store.order[(sym, side)].len() <= CAPACITY);
    }
}

/// A stopped producer stays stopped and unchanged, whatever it is told.
pub proof fn lemma_stopped_is_final(m: MakerModel, events: Seq<Event>)
    requires
        m.phase == Phase::Stopped,
    ensures
        m.run(events) == m,
        m.run(events).pending() == Action::Halt,
    decreases events.len(),
{
    if events.len() > 0 {
        lemma_stopped_is_final(m, events.drop_last());
    }
}

/// Only a sent quote changes the store, and only inside a round: a tick or
/// a closed channel retains nothing, and a quote reported outside a round is
/// not retained.
pub proof fn lemma_store_changes_on_sent(m: MakerModel, event: Event)
    ensures
        m.next(event).store == (match (m.phase, event) {
            (Phase::Generating { .. }, Event::Sent { quote }) => m.store.insert(quote),
            _ => m.store,
        }),
        m.phase is Generating && event == Event::Closed ==> m.next(event).phase == Phase::Stopped,
{
}

/// A tick between ticks opens a round of exactly as many quotes as the
/// adjusted rate says.
pub proof fn lemma_tick_opens_round(m: MakerModel, now: u64)
    requires
        m.valid(),
        m.phase == Phase::Idle,
    ensures
        m.next(Event::Tick { now }).rate == m.rate.adjust(now as nat),
        m.next(Event::Tick { now }).phase == (Phase::Generating {
            remaining: m.rate.adjust(now as nat).current_rate as u32,
        }),
        m.rate.adjust(now as nat).current_rate as u32 == m.rate.adjust(now as nat).current_rate,
        m.next(Event::Tick { now }).pending() == Action::Emit,
{
    crate::rate::lemma_adjust_monotone(m.rate, now as nat);
}

/// Inside a round with `remaining` quotes to go, reporting no more than
/// `remaining` quotes as sent retains exactly those quotes, in order, and
/// leaves the rate alone; the round is over, and the producer idle, exactly
/// when all `remaining` have been reported.
pub proof fn lemma_round(m: MakerModel, remaining: u32, quotes: Seq<Quote>)
    requires
        m.phase == (Phase::Generating { remaining }),
        0 < remaining,
        quotes.len() <= remaining,
    ensures
        m.run(sent(quotes)).store == m.store.insert_all(quotes),
        m.run(sent(quotes)).rate == m.rate,
        m.run(sent(quotes)).phase == (if quotes.len() == remaining {
            Phase::Idle
        } else {
            Phase::Generating { remaining: (remaining - quotes.len()) as u32 }
        }),
    decreases quotes.len(),
{
    if quotes.len() > 0 {
        lemma_round(m, remaining, quotes.drop_last());
        assert(sent(quotes).drop_last() =~= sent(quotes.drop_last()));
        assert(sent(quotes).last() == Event::Sent { quote: quotes.last() });
    }
}

/// The quote producer.
pub struct MarketMaker {
    rate: RateController,
    store: QuoteStore,
    phase: Phase,
    sender: Sender<Quote>,
}

impl View for MarketMaker {
    type V = MakerModel;

    closed spec fn view(&self) -> MakerModel {
        MakerModel { rate: self.rate@, store: self.store@, phase: self.phase }
    }
}

impl MarketMaker {
    /// The sending end of the producer's channel.
    pub closed spec fn spec_sender(&self) -> Sender<Quote> {
        self.sender
    }

    /// The store is laid out.
    pub closed spec fn laid_out(&self) -> bool {
        self.store.laid_out()
    }

    /// The producer is laid out and what it holds is valid.
    pub open spec fn wf(&self) -> bool {
        self.laid_out() && self@.valid()
    }

    /// A producer at `min_rate`, idle, with nothing retained and its clock
    /// at zero, together with the receiving end of its channel. The channel
    /// buffers `BUFFER_SECS` seconds of quotes at `max_rate`.
    ///
    /// Rates of zero, and a minimum above the maximum, are refused with
    /// `INVALID_RATES`, and no channel is opened. For accepted rates the
    /// channel's capacity has to be one that the machine can give.
    pub fn new(min_rate: u32, max_rate: u32) -> (made: Result<
        (MarketMaker, Receiver<Quote>),
        &'static str,
    >)
        requires
            RateState::accepts(min_rate as nat, max_rate as nat) ==> max_rate * BUFFER_SECS
                <= max_channel_capacity(),
        ensures
            made is Ok <==> RateState::accepts(min_rate as nat, max_rate as nat),
            made matches Ok(pair) ==> {
                &&& pair.0.wf()
                &&& pair.0@ == (MakerModel {
                    rate: RateState::initial(min_rate as nat, max_rate as nat, 0),
                    store: StoreModel::empty(),
                    phase: Phase::Idle,
                })
                &&& channel_bound(pair.0.spec_sender()) == max_rate * BUFFER_SECS
            },
            made matches Err(reason) ==> reason@ == crate::rate::INVALID_RATES@,
    {
        match RateController::new(min_rate, max_rate, 0) {
            Err(reason) => Err(reason),
            Ok(rate) => {
                let capacity = capacity_for(max_rate);
                let (sender, receiver) = open_channel(capacity);
                let store = QuoteStore::new();
                Ok((MarketMaker { rate, store, phase: Phase::Idle, sender }, receiver))
            },
        }
    }

    /// Draws the key of the next quote: a symbol, then a side, each value
    /// with the same chance and the two draws independent.
    pub fn draw_key(rng: &mut StdRng) -> (key: (Symbol, Side)) {
        let sym = Symbol::sample(rng);
        let side = Side::sample(rng);
        (sym, side)
    }

    /// Completes a quote for a drawn key: the identifier is drawn from the
    /// whole 64-bit range, everything else is as given. Two quotes may draw
    /// the same identifier; the store takes the later one as an update.
    ///
    /// The price and the size are real-valued and come from the caller, as
    /// bit patterns. A price below zero is a fault in the price table, not
    /// an input: generation is not defined for it.
    pub fn generate_quote(
        rng: &mut StdRng,
        sym: Symbol,
        side: Side,
        price_bits: u64,
        size_bits: u64,
        ts: i64,
    ) -> (quote: Quote)
        requires
            !spec_is_negative(price_bits),
        ensures
            quote == (Quote { ts, sym, side, price_bits, size_bits, id: quote.id }),
    {
        let id = next_id(rng);
        Quote { ts, sym, side, price_bits, size_bits, id }
    }

    /// What the producer asks for while it waits for the next event.
    pub fn pending(&self) -> (action: Action)
        ensures
            action == self@.pending(),
    {
        match self.phase {
            Phase::Idle => Action::AwaitTick,
            Phase::Generating { .. } => Action::Emit,
            Phase::Stopped => Action::Halt,
        }
    }

    /// Takes an event and says what to do next.
    pub fn step(&mut self, event: Event) -> (action: Action)
        requires
            old(self).wf(),
        ensures
            final(self).wf(),
            final(self)@ == old(self)@.next(event),
            final(self).spec_sender() == old(self).spec_sender(),
            action == final(self)@.pending(),
    {
        match (self.phase, event) {
            (Phase::Idle, Event::Tick { now }) => {
                self.adjust_rate(now);
                self.phase = Phase::Generating { remaining: self.rate.current_rate() };
            },
            (Phase::Generating { remaining }, Event::Sent { quote }) => {
                self.insert_quote(quote);
                self.phase = if remaining > 1 {
                    Phase::Generating { remaining: remaining - 1 }
                } else {
                    Phase::Idle
                };
            },
            (Phase::Generating { .. }, Event::Closed) => {
                self.phase = Phase::Stopped;
            },
            _ => {},
        }
        self.pending()
    }

    /// Raises the rate if an increase is due `now` whole seconds after the
    /// producer was made.
    pub fn adjust_rate(&mut self, now: u64)
        requires
            old(self).wf(),
        ensures
            final(self).wf(),
            final(self)@ == (MakerModel { rate: old(self)@.rate.adjust(now as nat), ..old(self)@ }),
            final(self).spec_sender() == old(self).spec_sender(),
    {
        proof {
            crate::rate::lemma_adjust_monotone(self@.rate, now as nat);
        }
        self.rate.adjust(now);
    }

    /// Retains `quote` in the store.
    pub fn insert_quote(&mut self, quote: Quote)
        requires
            old(self).wf(),
        ensures
            final(self).wf(),
            final(self)@ == (MakerModel { store: old(self)@.store.insert(quote), ..old(self)@ }),
            final(self).spec_sender() == old(self).spec_sender(),
    {
        self.store.insert(quote);
    }

    /// The retained quote with identifier `id`, if there is one.
    pub fn get(&self, id: u64) -> (found: Option<&Quote>)
        ensures
            found == (if self@.store.quotes.contains_key(id) {
                Some(&self@.store.quotes[id])
            } else {
                None
            }),
    {
        self.store.get(id)
    }

    /// Number of identifiers retained under the key `(sym, side)`.
    pub fn size_of(&self, sym: Symbol, side: Side) -> (n: usize)
        requires
            self.wf(),
        ensures
            n == self@.store.sequence(sym, side).len(),
            n <= CAPACITY,
    {
        self.store.size_of(sym, side)
    }

    /// Number of identifiers retained under all keys together.
    pub fn retained(&self) -> (n: usize)
        requires
            self.wf(),
        ensures
            n == self@.store.quotes.dom().len(),
            n <= TOTAL_CAPACITY,
    {
        self.store.len()
    }

    /// The rate now in force.
    pub fn current_rate(&self) -> (rate: u32)
        ensures
            rate == self@.rate.current_rate,
    {
        self.rate.current_rate()
    }

    /// The upper bound of the rate.
    pub fn max_rate(&self) -> (rate: u32)
        ensures
            rate == self@.rate.max_rate,
    {
        self.rate.max_rate()
    }

    /// Where the producer stands in its loop.
    pub fn phase(&self) -> (phase: Phase)
        ensures
            phase == self@.phase,
    {
        self.phase
    }

    /// Number of quotes that the channel buffers before a send has to wait.
    pub fn channel_capacity(&self) -> (n: usize)
        ensures
            n == channel_bound(self.spec_sender()),
    {
        max_capacity(&self.sender)
    }

    /// The sending end of the channel, on which the caller sends each quote
    /// that `Action::Emit` asks for.
    pub fn sender(&self) -> (tx: &Sender<Quote>)
        ensures
            *tx == self.spec_sender(),
    {
        &self.sender
    }
}

/// The channel capacity for a maximum rate: room for `BUFFER_SECS` seconds
/// of quotes at that rate.
pub fn capacity_for(max_rate: u32) -> (capacity: usize)
    requires
        max_rate * BUFFER_SECS <= usize::MAX,
    ensures
        capacity == max_rate * BUFFER_SECS,
{
    max_rate as usize * BUFFER_SECS
}

} // verus!
