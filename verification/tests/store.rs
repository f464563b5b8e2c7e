use market_maker::quote::{key_index, Quote, Side, Symbol};
use market_maker::store::{QuoteStore, CAPACITY, TOTAL_CAPACITY};

const SYMBOLS: [Symbol; 3] = [Symbol::BTCUSD, Symbol::ETHUSD, Symbol::ETHBTC];
const SIDES: [Side; 2] = [Side::Ask, Side::Bid];

fn quote(id: u64, sym: Symbol, side: Side, price: f64) -> Quote {
    Quote { ts: 0, sym, side, price_bits: price.to_bits(), size_bits: 1.0f64.to_bits(), id }
}

#[test]
fn store_starts_empty() {
    let store = QuoteStore::new();
    assert_eq!(store.len(), 0);
    for sym in SYMBOLS {
        for side in SIDES {
            assert_eq!(store.size_of(sym, side), 0);
        }
    }
    assert!(store.get(7).is_none());
}

#[test]
fn store_capacities() {
    assert_eq!(CAPACITY, 100);
    assert_eq!(TOTAL_CAPACITY, 600);
}

#[test]
fn store_update_in_place_keeps_length() {
    let mut store = QuoteStore::new();
    store.insert(quote(1, Symbol::BTCUSD, Side::Ask, 100.0));
    store.insert(quote(1, Symbol::BTCUSD, Side::Ask, 200.0));
    assert_eq!(f64::from_bits(store.get(1).unwrap().price_bits), 200.0);
    assert_eq!(store.size_of(Symbol::BTCUSD, Side::Ask), 1);
    assert_eq!(store.len(), 1);
}

#[test]
fn store_evicts_first_in_first_out() {
    let mut store = QuoteStore::new();
    for id in 0..150u64 {
        store.insert(quote(id, Symbol::BTCUSD, Side::Ask, 100.0 + id as f64));
    }
    assert_eq!(store.size_of(Symbol::BTCUSD, Side::Ask), 100);
    for id in 0..50u64 {
        assert!(store.get(id).is_none());
    }
    for id in 50..150u64 {
        assert_eq!(store.get(id), Some(&quote(id, Symbol::BTCUSD, Side::Ask, 100.0 + id as f64)));
    }
    assert_eq!(store.len(), 100);
}

#[test]
fn store_full_key_evicts_exactly_one() {
    let mut store = QuoteStore::new();
    for id in 0..100u64 {
        store.insert(quote(id, Symbol::ETHUSD, Side::Bid, 1.0));
    }
    assert_eq!(store.size_of(Symbol::ETHUSD, Side::Bid), 100);
    assert!(store.get(0).is_some());
    store.insert(quote(100, Symbol::ETHUSD, Side::Bid, 1.0));
    assert_eq!(store.size_of(Symbol::ETHUSD, Side::Bid), 100);
    assert!(store.get(0).is_none());
    assert!(store.get(1).is_some());
    assert!(store.get(100).is_some());
}

#[test]
fn store_update_does_not_protect_from_eviction() {
    let mut store = QuoteStore::new();
    for id in 0..100u64 {
        store.insert(quote(id, Symbol::BTCUSD, Side::Bid, 1.0));
    }
    store.insert(quote(0, Symbol::BTCUSD, Side::Bid, 9.0));
    assert_eq!(f64::from_bits(store.get(0).unwrap().price_bits), 9.0);
    assert_eq!(store.size_of(Symbol::BTCUSD, Side::Bid), 100);
    store.insert(quote(100, Symbol::BTCUSD, Side::Bid, 1.0));
    assert!(store.get(0).is_none());
    assert!(store.get(1).is_some());
    assert_eq!(store.size_of(Symbol::BTCUSD, Side::Bid), 100);
}

#[test]
fn store_keys_are_independent() {
    let mut store = QuoteStore::new();
    let mut id = 0u64;
    for sym in SYMBOLS {
        for side in SIDES {
            for _ in 0..(10 + key_index(sym, side)) {
                store.insert(quote(id, sym, side, 1.0));
                id += 1;
            }
        }
    }
    let mut total = 0;
    for sym in SYMBOLS {
        for side in SIDES {
            assert_eq!(store.size_of(sym, side), 10 + key_index(sym, side));
            total += store.size_of(sym, side);
        }
    }
    assert_eq!(store.len(), total);
    assert_eq!(total, 75);
}

#[test]
fn store_never_exceeds_its_bounds() {
    let mut store = QuoteStore::new();
    let mut state = 0x2545_F491_4F6C_DD1Du64;
    for _ in 0..5000 {
        state ^= state << 13;
        state ^= state >> 7;
        state ^= state << 17;
        let sym = SYMBOLS[(state % 3) as usize];
        let side = SIDES[((state >> 8) % 2) as usize];
        let id = (state >> 16) % 2000;
        store.insert(quote(id, sym, side, 1.0));
        let mut total = 0;
        for s in SYMBOLS {
            for d in SIDES {
                assert!(store.size_of(s, d) <= 100);
                total += store.size_of(s, d);
            }
        }
        assert!(store.len() <= 600);
        assert_eq!(store.len(), total);
        assert_eq!(store.get(id).unwrap().id, id);
    }
}

#[test]
fn store_fills_every_key_to_the_total() {
    let mut store = QuoteStore::new();
    let mut id = 0u64;
    for sym in SYMBOLS {
        for side in SIDES {
            for _ in 0..130 {
                store.insert(quote(id, sym, side, 1.0));
                id += 1;
            }
        }
    }
    assert_eq!(store.len(), 600);
    for sym in SYMBOLS {
        for side in SIDES {
            assert_eq!(store.size_of(sym, side), 100);
        }
    }
}

#[test]
fn store_identifier_keeps_its_slot_under_another_key() {
    let mut store = QuoteStore::new();
    store.insert(quote(1, Symbol::BTCUSD, Side::Ask, 100.0));
    store.insert(quote(1, Symbol::ETHUSD, Side::Bid, 200.0));
    assert_eq!(store.get(1), Some(&quote(1, Symbol::ETHUSD, Side::Bid, 200.0)));
    assert_eq!(store.size_of(Symbol::BTCUSD, Side::Ask), 1);
    assert_eq!(store.size_of(Symbol::ETHUSD, Side::Bid), 0);
    assert_eq!(store.len(), 1);
    for id in 2..102u64 {
        store.insert(quote(id, Symbol::BTCUSD, Side::Ask, 1.0));
    }
    assert!(store.get(1).is_none());
    assert_eq!(store.size_of(Symbol::BTCUSD, Side::Ask), 100);
    assert_eq!(store.len(), 100);
}
