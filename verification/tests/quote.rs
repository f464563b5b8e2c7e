use market_maker::quote::{
    is_negative, key_index, Quote, Side, Symbol, KEY_COUNT, NEGATIVE_INFINITY_BITS, NEGATIVE_ZERO_BITS,
};
use market_maker::text::{append_decimal, append_signed_decimal};
use rand::rngs::StdRng;
use rand::SeedableRng;

#[test]
fn symbol_from_index_maps_draws() {
    assert_eq!(Symbol::from_index(0), Symbol::BTCUSD);
    assert_eq!(Symbol::from_index(1), Symbol::ETHUSD);
    assert_eq!(Symbol::from_index(2), Symbol::ETHBTC);
    assert_eq!(Symbol::from_index(3), Symbol::ETHBTC);
    assert_eq!(Symbol::from_index(-1), Symbol::ETHBTC);
}

#[test]
fn side_from_index_maps_draws() {
    assert_eq!(Side::from_index(0), Side::Ask);
    assert_eq!(Side::from_index(1), Side::Bid);
    assert_eq!(Side::from_index(2), Side::Bid);
    assert_eq!(Side::from_index(-5), Side::Bid);
}

#[test]
fn index_inverts_from_index() {
    for i in 0..3 {
        assert_eq!(Symbol::from_index(i).index(), i as usize);
    }
    for i in 0..2 {
        assert_eq!(Side::from_index(i).index(), i as usize);
    }
}

#[test]
fn key_index_numbers_the_keys() {
    assert_eq!(KEY_COUNT, 6);
    assert_eq!(key_index(Symbol::BTCUSD, Side::Ask), 0);
    assert_eq!(key_index(Symbol::BTCUSD, Side::Bid), 1);
    assert_eq!(key_index(Symbol::ETHUSD, Side::Ask), 2);
    assert_eq!(key_index(Symbol::ETHUSD, Side::Bid), 3);
    assert_eq!(key_index(Symbol::ETHBTC, Side::Ask), 4);
    assert_eq!(key_index(Symbol::ETHBTC, Side::Bid), 5);
}

#[test]
fn sample_reaches_every_symbol_and_side() {
    let mut rng = StdRng::seed_from_u64(1);
    let mut symbols = [0usize; 3];
    let mut sides = [0usize; 2];
    for _ in 0..3000 {
        symbols[Symbol::sample(&mut rng).index()] += 1;
        sides[Side::sample(&mut rng).index()] += 1;
    }
    for count in symbols {
        assert!(count > 800 && count < 1200);
    }
    for count in sides {
        assert!(count > 1300 && count < 1700);
    }
}

#[test]
fn sample_is_repeatable_from_a_seed() {
    let mut rng = StdRng::seed_from_u64(5);
    let mut again = StdRng::seed_from_u64(5);
    for _ in 0..200 {
        assert_eq!(Symbol::sample(&mut rng), Symbol::sample(&mut again));
        assert_eq!(Side::sample(&mut rng), Side::sample(&mut again));
    }
}

#[test]
fn is_negative_agrees_with_the_numbers() {
    let values = [
        0.0f64,
        -0.0,
        1.0,
        -1.0,
        0.035,
        -0.035,
        50_000.0,
        -50_000.0,
        f64::MIN_POSITIVE,
        -f64::MIN_POSITIVE,
        5e-324,
        -5e-324,
        f64::MAX,
        f64::MIN,
        f64::INFINITY,
        f64::NEG_INFINITY,
        f64::NAN,
        -f64::NAN,
        f64::EPSILON,
        -f64::EPSILON,
    ];
    for value in values {
        assert_eq!(is_negative(value.to_bits()), value < 0.0, "{}", value);
    }
    assert_eq!(NEGATIVE_ZERO_BITS, (-0.0f64).to_bits());
    assert_eq!(NEGATIVE_INFINITY_BITS, f64::NEG_INFINITY.to_bits());
    assert!(!is_negative(NEGATIVE_ZERO_BITS));
    assert!(is_negative(NEGATIVE_ZERO_BITS + 1));
    assert!(is_negative(NEGATIVE_INFINITY_BITS));
    assert!(!is_negative(NEGATIVE_INFINITY_BITS + 1));
    assert!(!is_negative(u64::MAX));
    assert!(!is_negative(0));
    assert!(!is_negative(NEGATIVE_ZERO_BITS - 1));
}

#[test]
fn is_negative_agrees_on_many_patterns() {
    let mut state = 0x9E37_79B9_7F4A_7C15u64;
    for _ in 0..20_000 {
        state ^= state << 13;
        state ^= state >> 7;
        state ^= state << 17;
        assert_eq!(is_negative(state), f64::from_bits(state) < 0.0);
    }
}

#[test]
fn names_read_as_the_variants() {
    assert_eq!(Symbol::BTCUSD.name(), "BTCUSD");
    assert_eq!(Symbol::ETHUSD.name(), "ETHUSD");
    assert_eq!(Symbol::ETHBTC.name(), "ETHBTC");
    assert_eq!(Side::Ask.name(), "Ask");
    assert_eq!(Side::Bid.name(), "Bid");
    assert_eq!(Symbol::ETHBTC.name(), format!("{:?}", Symbol::ETHBTC));
    assert_eq!(Side::Bid.name(), format!("{:?}", Side::Bid));
}

#[test]
fn decimal_text_of_integers() {
    for n in [0u64, 1, 9, 10, 11, 99, 100, 101, 1_850, 50_000, 1_234_567_890, u64::MAX] {
        let mut out = String::from("x");
        append_decimal(&mut out, n);
        assert_eq!(out, format!("x{}", n));
    }
    for i in [0i64, 1, -1, 9, -9, 10, -10, 1_700_000_000, -1_700_000_000, i64::MAX, i64::MIN] {
        let mut out = String::from("ts=");
        append_signed_decimal(&mut out, i);
        assert_eq!(out, format!("ts={}", i));
    }
}

#[test]
fn to_line_lists_the_fields_in_order() {
    let price = 50_123.456f64;
    let size = 2.5f64;
    let quote = Quote {
        ts: 1_700_000_000,
        sym: Symbol::BTCUSD,
        side: Side::Ask,
        price_bits: price.to_bits(),
        size_bits: size.to_bits(),
        id: 42,
    };
    let line = quote.to_line(&format!("{:.7}", price), &format!("{:.7}", size));
    assert_eq!(line, "1700000000,BTCUSD,Ask,50123.4560000,2.5000000,42");
    assert_eq!(
        line,
        format!(
            "{},{:?},{:?},{:.7},{:.7},{}",
            quote.ts, quote.sym, quote.side, price, size, quote.id
        )
    );
}

#[test]
fn to_line_of_extreme_fields() {
    let quote = Quote {
        ts: i64::MIN,
        sym: Symbol::ETHBTC,
        side: Side::Bid,
        price_bits: 0.035f64.to_bits(),
        size_bits: 0.1f64.to_bits(),
        id: u64::MAX,
    };
    let line = quote.to_line("0.0350000", "0.1000000");
    assert_eq!(line, "-9223372036854775808,ETHBTC,Bid,0.0350000,0.1000000,18446744073709551615");
    let zero = Quote { ts: 0, sym: Symbol::ETHUSD, side: Side::Ask, price_bits: 0, size_bits: 0, id: 0 };
    assert_eq!(zero.to_line("0.0000000", "0.0000000"), "0,ETHUSD,Ask,0.0000000,0.0000000,0");
}
