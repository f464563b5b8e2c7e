//! The bounded quote store: quotes by identifier, and per `(Symbol, Side)`
//! key the identifiers in the order in which they were first inserted.
//!
//! An identifier owns one slot, in the sequence of the key under which it
//! was first inserted, until that sequence evicts it. Identifiers are drawn
//! without regard to keys, so one can come back under another key while it
//! is still retained. The store takes that as an update like any other: the
//! stored quote is replaced and the slot stays where it is. The stored quote
//! then names a key other than the one whose sequence counts it. This is
//! accepted and bounded: it ends when the slot is evicted, and it never
//! breaks the agreement between the two indexes that `StoreModel::coherent`
//! states. `StoreModel::aligned` says when it has not happened.

use crate::quote::{key_index, spec_key_index, Quote, Side, Symbol, KEY_COUNT};
use std::collections::HashMap;
use std::collections::VecDeque;
use vstd::prelude::*;

verus! {

/// Most identifiers retained under one key.
pub const CAPACITY: usize = 100;

/// Most identifiers retained under all keys together.
pub const TOTAL_CAPACITY: usize = 600;

/// What a store holds, as mathematics.
pub struct StoreModel {
    /// The retained quotes by identifier.
    pub quotes: Map<u64, Quote>,
    /// For every key, the identifiers that occupy its slots, oldest first.
    pub order: Map<(Symbol, Side), Seq<u64>>,
}

impl StoreModel {
    /// The store that retains nothing.
    pub open spec fn empty() -> StoreModel {
        StoreModel {
            quotes: Map::empty(),
            order: Map::total(|key: (Symbol, Side)| Seq::<u64>::empty()),
        }
    }

    /// The identifiers in the slots of a key, oldest first.
    pub open spec fn sequence(self, sym: Symbol, side: Side) -> Seq<u64> {
        self.order[(sym, side)]
    }

    /// Whether slot `i` of `key` holds `id`.
    pub open spec fn holds_at(self, key: (Symbol, Side), i: int, id: u64) -> bool {
        0 <= i < self.order[key].len() && self.order[key][i] == id
    }

    /// Whether some slot holds `id`.
    pub open spec fn has_slot(self, id: u64) -> bool {
        exists|key: (Symbol, Side), i: int| self.holds_at(key, i, id)
    }

    /// Number of occupied slots over all keys.
    pub open spec fn slots(self) -> nat {
        self.order[(Symbol::BTCUSD, Side::Ask)].len() + self.order[(Symbol::BTCUSD, Side::Bid)].len()
            + self.order[(Symbol::ETHUSD, Side::Ask)].len() + self.order[(
            Symbol::ETHUSD,
            Side::Bid,
        )].len() + self.order[(Symbol::ETHBTC, Side::Ask)].len() + self.order[(
            Symbol::ETHBTC,
            Side::Bid,
        )].len()
    }

    /// The two indexes agree: every key has a sequence of at most `CAPACITY`
    /// slots, an identifier is retained exactly when it occupies a slot, it
    /// occupies no more than one, and the quote stored under an identifier
    /// carries that identifier.
    pub open spec fn coherent(self) -> bool {
        &&& self.quotes.dom().finite()
        &&& forall|key: (Symbol, Side)| self.order.contains_key(key)
        &&& forall|key: (Symbol, Side)| #[trigger] self.order[key].len() <= CAPACITY
        &&& forall|key: (Symbol, Side), i: int, id: u64| #[trigger]
            self.holds_at(key, i, id) ==> self.quotes.contains_key(id)
        &&& forall|id: u64| self.quotes.contains_key(id) ==> #[trigger] self.has_slot(id)
        &&& forall|k1: (Symbol, Side), i1: int, k2: (Symbol, Side), i2: int, id: u64|
            #[trigger] self.holds_at(k1, i1, id) && #[trigger] self.holds_at(k2, i2, id) ==> k1
                == k2 && i1 == i2
        &&& forall|id: u64| #[trigger]
            self.quotes.contains_key(id) ==> self.quotes[id].id == id
        &&& self.quotes.dom().len() == self.slots()
    }

    /// Every retained quote names the key in whose sequence its identifier
    /// stands. Inserts keep this as long as no identifier comes back under
    /// another key.
    pub open spec fn aligned(self) -> bool {
        forall|key: (Symbol, Side), i: int, id: u64| #[trigger]
            self.holds_at(key, i, id) ==> self.quotes[id].spec_key() == key
    }

    /// The store after one insert.
    ///
    /// A quote whose identifier is retained replaces the stored quote and
    /// leaves every sequence as it is, whatever key the new quote names: the
    /// identifier keeps the slot of its first insert. A quote with a new
    /// identifier takes a slot at the tail of its key's sequence; where that
    /// sequence is full, the identifier at its head leaves both indexes
    /// first.
    pub open spec fn insert(self, q: Quote) -> StoreModel {
        if self.quotes.contains_key(q.id) {
            StoreModel { quotes: self.quotes.insert(q.id, q), order: self.order }
        } else {
            let key = (q.sym, q.side);
            let seq = self.order[key];
            if seq.len() >= CAPACITY {
                StoreModel {
                    quotes: self.quotes.remove(seq[0]).insert(q.id, q),
                    order: self.order.insert(key, seq.drop_first().push(q.id)),
                }
            } else {
                StoreModel {
                    quotes: self.quotes.insert(q.id, q),
                    order: self.order.insert(key, seq.push(q.id)),
                }
            }
        }
    }

    /// The store after a run of inserts, first to last.
    pub open spec fn insert_all(self, qs: Seq<Quote>) -> StoreModel
        decreases qs.len(),
    {
        if qs.len() == 0 {
            self
        } else {
            self.insert_all(qs.drop_last()).insert(qs.last())
        }
    }
}

/// An insert keeps the two indexes in agreement.
pub proof fn lemma_insert_coherent(m: StoreModel, q: Quote)
    requires
        m.coherent(),
    ensures
        m.insert(q).coherent(),
{
    let n = m.insert(q);
    let key = (q.sym, q.side);
    let seq = m.order[key];
    if m.quotes.contains_key(q.id) {
        assert(n.quotes.dom() =~= m.quotes.dom());
        assert forall|k: (Symbol, Side), i: int, id: u64| #[trigger]
            n.holds_at(k, i, id) implies n.quotes.contains_key(id) by {
            assert(m.holds_at(k, i, id));
        }
        assert forall|id: u64| n.quotes.contains_key(id) implies #[trigger] n.has_slot(id) by {
            assert(m.has_slot(id));
            let (k, i) = choose|k: (Symbol, Side), i: int| m.holds_at(k, i, id);
            assert(n.holds_at(k, i, id));
        }
        assert forall|k1: (Symbol, Side), i1: int, k2: (Symbol, Side), i2: int, id: u64|
            #[trigger] n.holds_at(k1, i1, id) && #[trigger] n.holds_at(k2, i2, id) implies k1
            == k2 && i1 == i2 by {
            assert(m.holds_at(k1, i1, id) && m.holds_at(k2, i2, id));
        }
    } else if seq.len() >= CAPACITY {
        let oldest = seq[0];
        let tail = seq.drop_first().push(q.id);
        assert(m.order[key].len() <= CAPACITY);
        assert(m.holds_at(key, 0, oldest));
        assert(m.quotes.contains_key(oldest));
        assert(oldest != q.id);
        assert(n.order[key] == tail);
        assert(tail.len() == seq.len());
        // A slot of the new store is the new tail slot or a slot of the old
        // store that was not the evicted head.
        assert forall|k: (Symbol, Side), i: int, id: u64| #[trigger] n.holds_at(k, i, id) implies (
        k == key && i == tail.len() - 1 && id == q.id) || (id != q.id && id != oldest && (if k
            == key {
            m.holds_at(k, i + 1, id)
        } else {
            m.holds_at(k, i, id)
        })) by {
            if k == key {
                if i < tail.len() - 1 {
                    assert(tail[i] == seq[i + 1]);
                    assert(m.holds_at(key, i + 1, id));
                    assert(m.quotes.contains_key(id));
                    if id == oldest {
                        assert(m.holds_at(key, 0, id));
                    }
                }
            } else {
                assert(n.order[k] == m.order[k]);
                assert(m.holds_at(k, i, id));
                assert(m.quotes.contains_key(id));
                if id == oldest {
                    assert(m.holds_at(key, 0, id));
                }
            }
        }
        assert forall|id: u64| n.quotes.contains_key(id) implies #[trigger] n.has_slot(id) by {
            if id == q.id {
                assert(n.holds_at(key, tail.len() - 1, id));
            } else {
                assert(m.quotes.contains_key(id));
                assert(m.has_slot(id));
                let (k, i) = choose|k: (Symbol, Side), i: int| m.holds_at(k, i, id);
                if k == key {
                    if i == 0 {
                        assert(false);
                    }
                    assert(tail[i - 1] == seq[i]);
                    assert(n.holds_at(key, i - 1, id));
                } else {
                    assert(n.order[k] == m.order[k]);
                    assert(n.holds_at(k, i, id));
                }
            }
        }
        assert(m.quotes.remove(oldest).dom() =~= m.quotes.dom().remove(oldest));
        assert(n.quotes.dom() =~= m.quotes.dom().remove(oldest).insert(q.id));
        lemma_slots_after_replace(m, key, tail);
    } else {
        let tail = seq.push(q.id);
        assert(n.order[key] == tail);
        assert forall|k: (Symbol, Side), i: int, id: u64| #[trigger] n.holds_at(k, i, id) implies (
        k == key && i == tail.len() - 1 && id == q.id) || (id != q.id && m.holds_at(k, i, id)) by {
            if k == key {
                if i < tail.len() - 1 {
                    assert(tail[i] == seq[i]);
                    assert(m.holds_at(key, i, id));
                    assert(m.quotes.contains_key(id));
                }
            } else {
                assert(n.order[k] == m.order[k]);
                assert(m.holds_at(k, i, id));
                assert(m.quotes.contains_key(id));
            }
        }
        assert forall|id: u64| n.quotes.contains_key(id) implies #[trigger] n.has_slot(id) by {
            if id == q.id {
                assert(n.holds_at(key, tail.len() - 1, id));
            } else {
                assert(m.has_slot(id));
                let (k, i) = choose|k: (Symbol, Side), i: int| m.holds_at(k, i, id);
                if k == key {
                    assert(tail[i] == seq[i]);
                    assert(n.holds_at(key, i, id));
                } else {
                    assert(n.order[k] == m.order[k]);
                    assert(n.holds_at(k, i, id));
                }
            }
        }
        assert(n.quotes.dom() =~= m.quotes.dom().insert(q.id));
        lemma_slots_after_replace(m, key, tail);
    }
}

/// Any run of inserts keeps the two indexes in agreement.
pub proof fn lemma_insert_all_coherent(m: StoreModel, qs: Seq<Quote>)
    requires
        m.coherent(),
    ensures
        m.insert_all(qs).coherent(),
    decreases qs.len(),
{
    if qs.len() > 0 {
        lemma_insert_all_coherent(m, qs.drop_last());
        lemma_insert_coherent(m.insert_all(qs.drop_last()), qs.last());
    }
}

/// The empty store's indexes agree.
pub proof fn lemma_empty_coherent()
    ensures
        StoreModel::empty().coherent(),
{
    let m = StoreModel::empty();
    assert forall|id: u64| m.quotes.contains_key(id) implies #[trigger] m.has_slot(id) by {}
}

/// After any run of inserts into an empty store, no key retains more than
/// `CAPACITY` identifiers. Every prefix of a run is a run, so the bound
/// holds after each single insert as well.
pub proof fn lemma_size_bounded(qs: Seq<Quote>, sym: Symbol, side: Side)
    ensures
        StoreModel::empty().insert_all(qs).sequence(sym, side).len() <= CAPACITY,
{
    lemma_empty_coherent();
    lemma_insert_all_coherent(StoreModel::empty(), qs);
    let m = StoreModel::empty().insert_all(qs);
    assert(m.order[(sym, side)].len() <= CAPACITY);
}

/// After any run of inserts into an empty store, no more than
/// `TOTAL_CAPACITY` identifiers are retained: as many as there are occupied
/// slots, since an identifier keeps to one slot even when it comes back
/// under another key.
pub proof fn lemma_total_bounded(qs: Seq<Quote>)
    ensures
        StoreModel::empty().insert_all(qs).quotes.dom().finite(),
        StoreModel::empty().insert_all(qs).quotes.dom().len() == StoreModel::empty().insert_all(
            qs,
        ).slots(),
        StoreModel::empty().insert_all(qs).quotes.dom().len() <= TOTAL_CAPACITY,
{
    lemma_empty_coherent();
    lemma_insert_all_coherent(StoreModel::empty(), qs);
    lemma_coherent_bounds(StoreModel::empty().insert_all(qs));
}

/// An insert under a retained identifier overwrites the stored quote and
/// nothing else: every sequence, and so every length, stays as it was, and
/// every other identifier keeps its quote.
pub proof fn lemma_update_in_place(m: StoreModel, q: Quote)
    requires
        m.quotes.contains_key(q.id),
    ensures
        m.insert(q).order == m.order,
        m.insert(q).quotes.dom() == m.quotes.dom(),
        m.insert(q).quotes[q.id] == q,
        forall|id: u64| id != q.id ==> m.insert(q).quotes[id] == m.quotes[id],
{
    assert(m.insert(q).quotes.dom() =~= m.quotes.dom());
}

/// An insert under a new identifier appends it to its key's sequence and
/// leaves the other keys alone. If the sequence was full, its oldest
/// identifier is no longer retained and the rest move up by one; no other
/// identifier leaves.
pub proof fn lemma_insert_fresh(m: StoreModel, q: Quote)
    requires
        m.coherent(),
        !m.quotes.contains_key(q.id),
    ensures
        ({
            let before = m.sequence(q.sym, q.side);
            let after = m.insert(q).sequence(q.sym, q.side);
            &&& m.insert(q).quotes[q.id] == q
            &&& after.last() == q.id
            &&& before.len() < CAPACITY ==> after == before.push(q.id) && m.insert(q).quotes.dom()
                == m.quotes.dom().insert(q.id)
            &&& before.len() == CAPACITY ==> after == before.drop_first().push(q.id)
                && !m.insert(q).quotes.contains_key(before[0]) && m.insert(q).quotes.dom()
                == m.quotes.dom().remove(before[0]).insert(q.id)
            &&& forall|key: (Symbol, Side)|
                key != (q.sym, q.side) ==> m.insert(q).order[key] == m.order[key]
        }),
{
    let key = (q.sym, q.side);
    let before = m.order[key];
    assert(before.len() <= CAPACITY);
    if before.len() == CAPACITY {
        assert(m.holds_at(key, 0, before[0]));
        assert(m.insert(q).quotes.dom() =~= m.quotes.dom().remove(before[0]).insert(q.id));
    } else {
        assert(m.insert(q).quotes.dom() =~= m.quotes.dom().insert(q.id));
    }
}

/// An insert keeps every retained quote under the key it names, unless it
/// brings a retained identifier back under another key.
pub proof fn lemma_insert_aligned(m: StoreModel, q: Quote)
    requires
        m.coherent(),
        m.aligned(),
        m.quotes.contains_key(q.id) ==> m.quotes[q.id].spec_key() == q.spec_key(),
    ensures
        m.insert(q).aligned(),
{
    let n = m.insert(q);
    let key = (q.sym, q.side);
    let seq = m.order[key];
    lemma_insert_coherent(m, q);
    assert(seq.len() <= CAPACITY);
    assert forall|k: (Symbol, Side), i: int, id: u64| #[trigger]
        n.holds_at(k, i, id) implies n.quotes[id].spec_key() == k by {
        assert(n.quotes.contains_key(id));
        if m.quotes.contains_key(q.id) {
            assert(m.holds_at(k, i, id));
            assert(m.quotes.contains_key(id));
        } else if k != key {
            assert(n.order[k] == m.order[k]);
            assert(m.holds_at(k, i, id));
            assert(m.quotes.contains_key(id));
        } else if i == n.order[key].len() - 1 {
            assert(id == q.id);
        } else if seq.len() >= CAPACITY {
            assert(n.order[key][i] == seq[i + 1]);
            assert(m.holds_at(key, i + 1, id));
            assert(m.holds_at(key, 0, seq[0]));
            assert(m.quotes.contains_key(id));
            assert(id != seq[0]);
        } else {
            assert(n.order[key][i] == seq[i]);
            assert(m.holds_at(key, i, id));
            assert(m.quotes.contains_key(id));
        }
    }
}

/// The identifiers of a run of quotes, in order.
pub open spec fn ids_of(qs: Seq<Quote>) -> Seq<u64> {
    qs.map_values(|q: Quote| q.id)
}

/// Where the last `CAPACITY` of `n` inserts begin.
pub open spec fn window_start(n: nat) -> nat {
    if n > CAPACITY {
        (n - CAPACITY) as nat
    } else {
        0
    }
}

/// First in, first out: after inserting quotes with pairwise distinct
/// identifiers under one key into an empty store, that key holds the
/// identifiers of the last `CAPACITY` of them in their order of insertion,
/// exactly those identifiers are retained, each with its quote, and the
/// other keys hold nothing.
pub proof fn lemma_fifo_window(qs: Seq<Quote>, sym: Symbol, side: Side)
    requires
        forall|i: int| 0 <= i < qs.len() ==> (#[trigger] qs[i]).sym == sym && qs[i].side == side,
        ids_of(qs).no_duplicates(),
    ensures
        ({
            let m = StoreModel::empty().insert_all(qs);
            let window = ids_of(qs).subrange(window_start(qs.len()) as int, qs.len() as int);
            &&& m.sequence(sym, side) == window
            &&& forall|id: u64| m.quotes.contains_key(id) <==> window.contains(id)
            &&& forall|i: int|
                window_start(qs.len()) <= i < qs.len() ==> m.quotes[(#[trigger] qs[i]).id] == qs[i]
            &&& forall|key: (Symbol, Side)|
                key != (sym, side) ==> #[trigger] m.order[key] == Seq::<u64>::empty()
        }),
    decreases qs.len(),
{
    let m = StoreModel::empty().insert_all(qs);
    let n = qs.len() as int;
    let ids = ids_of(qs);
    let window = ids.subrange(window_start(qs.len()) as int, n);
    if qs.len() == 0 {
        assert(m.sequence(sym, side) =~= window);
    } else {
        let front = qs.drop_last();
        let q = qs.last();
        let m0 = StoreModel::empty().insert_all(front);
        let ids0 = ids_of(front);
        let start0 = window_start(front.len()) as int;
        let start = window_start(qs.len()) as int;
        let window0 = ids0.subrange(start0, n - 1);
        assert(ids0 =~= ids.drop_last());
        assert forall|i: int, j: int| 0 <= i < ids0.len() && 0 <= j < ids0.len() && i != j implies ids0[i]
            != ids0[j] by {
            assert(ids0[i] == ids[i] && ids0[j] == ids[j]);
        }
        lemma_fifo_window(front, sym, side);
        lemma_empty_coherent();
        lemma_insert_all_coherent(StoreModel::empty(), front);
        assert(m == m0.insert(q));
        assert(m0.sequence(sym, side) == window0);
        // The new identifier is not in the old window.
        if m0.quotes.contains_key(q.id) {
            assert(window0.contains(q.id));
            let j = choose|j: int| 0 <= j < window0.len() && window0[j] == q.id;
            assert(ids[start0 + j] == q.id);
            assert(ids[n - 1] == q.id);
            assert(false);
        }
        lemma_insert_fresh(m0, q);
        assert(m.sequence(sym, side) =~= window);
        assert forall|id: u64| m.quotes.contains_key(id) <==> window.contains(id) by {
            if window.contains(id) {
                let j = choose|j: int| 0 <= j < window.len() && window[j] == id;
                if start + j < n - 1 {
                    assert(window0[start + j - start0] == id);
                    assert(window0.contains(id));
                    if start > start0 {
                        assert(window0[0] == ids[start0]);
                        assert(ids[start + j] == id);
                    }
                }
            }
            if m.quotes.contains_key(id) {
                if id == q.id {
                    assert(window[window.len() - 1] == id);
                } else {
                    assert(m0.quotes.contains_key(id));
                    assert(window0.contains(id));
                    let j = choose|j: int| 0 <= j < window0.len() && window0[j] == id;
                    if start > start0 {
                        assert(j != 0);
                    }
                    assert(window[start0 + j - start] == id);
                }
            }
        }
        assert forall|i: int| start <= i < n implies m.quotes[(#[trigger] qs[i]).id] == qs[i] by {
            if i < n - 1 {
                assert(front[i] == qs[i]);
                assert(ids[i] == qs[i].id && ids[n - 1] == q.id);
                if start > start0 {
                    assert(window0[0] == ids[start0]);
                }
            }
        }
        assert forall|key: (Symbol, Side)| key != (sym, side) implies #[trigger] m.order[key]
            == Seq::<u64>::empty() by {
            assert(m0.order[key] == Seq::<u64>::empty());
        }
    }
}

/// The bounded store of retained quotes.
///
/// It answers a lookup by identifier in constant time, and keeps for each
/// key the identifiers in the order of their first insert, so that the
/// oldest can leave when a key is full. Both indexes change together inside
/// `insert`: no caller sees one without the other.
pub struct QuoteStore {
    by_id: HashMap<u64, Quote>,
    queues: Vec<VecDeque<u64>>,
}

impl View for QuoteStore {
    type V = StoreModel;

    closed spec fn view(&self) -> StoreModel {
        StoreModel {
            quotes: self.by_id@,
            order: Map::total(
                |key: (Symbol, Side)| self.queues@[spec_key_index(key.0, key.1)]@,
            ),
        }
    }
}

impl QuoteStore {
    /// The store has one queue per key.
    pub closed spec fn laid_out(&self) -> bool {
        self.queues@.len() == KEY_COUNT
    }

    /// The store is laid out and its two indexes agree.
    pub open spec fn wf(&self) -> bool {
        self.laid_out() && self@.coherent()
    }

    /// A store that retains nothing.
    pub fn new() -> (store: QuoteStore)
        ensures
            store.wf(),
            store@ == StoreModel::empty(),
    {
        let mut queues: Vec<VecDeque<u64>> = Vec::new();
        let mut k: usize = 0;
        while k < KEY_COUNT
            invariant
                k <= KEY_COUNT,
                queues@.len() == k,
                forall|j: int| 0 <= j < k ==> (#[trigger] queues@[j])@ == Seq::<u64>::empty(),
            decreases KEY_COUNT - k,
        {
            queues.push(VecDeque::new());
            k = k + 1;
        }
        let store = QuoteStore { by_id: HashMap::new(), queues };
        proof {
            assert(store@.quotes =~= StoreModel::empty().quotes);
            assert(store@.order =~= StoreModel::empty().order);
            assert forall|id: u64| store@.quotes.contains_key(id) implies #[trigger]
                store@.has_slot(id) by {}
        }
        store
    }

    /// Retains `quote`: replaces the stored quote of the same identifier
    /// where there is one, and otherwise appends the identifier to its key's
    /// sequence, after evicting the oldest identifier of a full key.
    pub fn insert(&mut self, quote: Quote)
        requires
            old(self).wf(),
        ensures
            final(self).wf(),
            final(self)@ == old(self)@.insert(quote),
    {
        broadcast use vstd::std_specs::hash::group_hash_axioms;

        let ghost before = self@;
        if self.by_id.contains_key(&quote.id) {
            self.by_id.insert(quote.id, quote);
            proof {
                assert(self@.order =~= before.order);
            }
        } else {
            let k = key_index(quote.sym, quote.side);
            if self.queues[k].len() >= CAPACITY {
                let evicted = self.queues[k].pop_front();
                if let Some(oldest) = evicted {
                    self.by_id.remove(&oldest);
                }
            }
            self.queues[k].push_back(quote.id);
            self.by_id.insert(quote.id, quote);
            proof {
                let key = (quote.sym, quote.side);
                let after = before.insert(quote);
                assert forall|other: (Symbol, Side)| #[trigger]
                    self@.order[other] == after.order[other] by {
                    crate::quote::lemma_key_index_injective(other.0, other.1, key.0, key.1);
                    if other == key {
                        assert(self@.order[other] =~= after.order[other]);
                    }
                }
                assert(self@.order =~= after.order);
                assert(self@.quotes =~= after.quotes);
            }
        }
        proof {
            lemma_insert_coherent(before, quote);
        }
    }

    /// The retained quote with identifier `id`, if there is one.
    pub fn get(&self, id: u64) -> (found: Option<&Quote>)
        ensures
            found == (if self@.quotes.contains_key(id) {
                Some(&self@.quotes[id])
            } else {
                None
            }),
    {
        broadcast use vstd::std_specs::hash::group_hash_axioms;

        self.by_id.get(&id)
    }

    /// Number of identifiers retained under the key `(sym, side)`.
    pub fn size_of(&self, sym: Symbol, side: Side) -> (n: usize)
        requires
            self.wf(),
        ensures
            n == self@.sequence(sym, side).len(),
            n <= CAPACITY,
    {
        let k = key_index(sym, side);
        proof {
            assert(self@.order[(sym, side)].len() <= CAPACITY);
        }
        self.queues[k].len()
    }

    /// Number of identifiers retained under all keys together.
    pub fn len(&self) -> (n: usize)
        requires
            self.wf(),
        ensures
            n == self@.quotes.dom().len(),
            n == self@.slots(),
            n <= TOTAL_CAPACITY,
    {
        broadcast use vstd::std_specs::hash::group_hash_axioms;

        proof {
            lemma_coherent_bounds(self@);
        }
        self.by_id.len()
    }
}

/// Where the indexes agree, no more than `TOTAL_CAPACITY` identifiers are
/// retained.
pub proof fn lemma_coherent_bounds(m: StoreModel)
    requires
        m.coherent(),
    ensures
        m.quotes.dom().len() == m.slots(),
        m.slots() <= TOTAL_CAPACITY,
{
    assert(m.order[(Symbol::BTCUSD, Side::Ask)].len() <= CAPACITY);
    assert(m.order[(Symbol::BTCUSD, Side::Bid)].len() <= CAPACITY);
    assert(m.order[(Symbol::ETHUSD, Side::Ask)].len() <= CAPACITY);
    assert(m.order[(Symbol::ETHUSD, Side::Bid)].len() <= CAPACITY);
    assert(m.order[(Symbol::ETHBTC, Side::Ask)].len() <= CAPACITY);
    assert(m.order[(Symbol::ETHBTC, Side::Bid)].len() <= CAPACITY);
}

/// Replacing the sequence of one key changes the number of occupied slots
/// by the change in that sequence's length.
proof fn lemma_slots_after_replace(m: StoreModel, key: (Symbol, Side), seq: Seq<u64>)
    requires
        forall|k: (Symbol, Side)| m.order.contains_key(k),
    ensures
        (StoreModel { quotes: m.quotes, order: m.order.insert(key, seq) }).slots() == m.slots()
            - m.order[key].len() + seq.len(),
{
    let n = StoreModel { quotes: m.quotes, order: m.order.insert(key, seq) };
    assert forall|k: (Symbol, Side)| #[trigger] n.order[k] == (if k == key {
        seq
    } else {
        m.order[k]
    }) by {
        assert(m.order.contains_key(k));
    }
    assert(key.0 == Symbol::BTCUSD || key.0 == Symbol::ETHUSD || key.0 == Symbol::ETHBTC);
    assert(key.1 == Side::Ask || key.1 == Side::Bid);
    assert(key == (key.0, key.1));
}

} // verus!
