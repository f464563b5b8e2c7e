//! Quote values and the keys under which they are retained.

use crate::random::next_index;
use rand::rngs::StdRng;
use vstd::prelude::*;

verus! {

/// The instruments for which quotes are produced.
#[derive(Debug, Copy, Clone, Eq, PartialEq, Hash, Structural)]
pub enum Symbol {
    BTCUSD,
    ETHUSD,
    ETHBTC,
}

/// The side of the book a quote stands on.
#[derive(Debug, Copy, Clone, Eq, PartialEq, Hash, Structural)]
pub enum Side {
    Ask,
    Bid,
}

/// Number of distinct instruments.
pub const SYMBOL_COUNT: usize = 3;

/// Number of distinct sides.
pub const SIDE_COUNT: usize = 2;

/// Number of distinct `(Symbol, Side)` keys.
pub const KEY_COUNT: usize = 6;

impl Symbol {
    /// The symbol selected by a draw: `0` and `1` pick the first two
    /// instruments, every other value picks the third.
    pub open spec fn spec_from_index(i: int) -> Symbol {
        if i == 0 {
            Symbol::BTCUSD
        } else if i == 1 {
            Symbol::ETHUSD
        } else {
            Symbol::ETHBTC
        }
    }

    /// Position of the symbol in declaration order.
    pub open spec fn spec_index(self) -> int {
        match self {
            Symbol::BTCUSD => 0,
            Symbol::ETHUSD => 1,
            Symbol::ETHBTC => 2,
        }
    }

    /// Maps a drawn integer to a symbol.
    pub fn from_index(i: i32) -> (s: Symbol)
        ensures
            s == Symbol::spec_from_index(i as int),
    {
        if i == 0 {
            Symbol::BTCUSD
        } else if i == 1 {
            Symbol::ETHUSD
        } else {
            Symbol::ETHBTC
        }
    }

    /// Draws a symbol, each with the same chance: one index out of
    /// `0..=2`, mapped by `from_index`.
    pub fn sample(rng: &mut StdRng) -> (s: Symbol) {
        Symbol::from_index(next_index(rng, 2))
    }

    /// Position of the symbol in declaration order, below `SYMBOL_COUNT`.
    pub fn index(self) -> (i: usize)
        ensures
            i == self.spec_index(),
            i < SYMBOL_COUNT,
    {
        match self {
            Symbol::BTCUSD => 0,
            Symbol::ETHUSD => 1,
            Symbol::ETHBTC => 2,
        }
    }
}

impl Side {
    /// The side selected by a draw: `0` picks the ask, every other value
    /// the bid.
    pub open spec fn spec_from_index(i: int) -> Side {
        if i == 0 {
            Side::Ask
        } else {
            Side::Bid
        }
    }

    /// Position of the side in declaration order.
    pub open spec fn spec_index(self) -> int {
        match self {
            Side::Ask => 0,
            Side::Bid => 1,
        }
    }

    /// Maps a drawn integer to a side.
    pub fn from_index(i: i32) -> (s: Side)
        ensures
            s == Side::spec_from_index(i as int),
    {
        if i == 0 {
            Side::Ask
        } else {
            Side::Bid
        }
    }

    /// Draws a side, each with the same chance: one index out of `0..=1`,
    /// mapped by `from_index`.
    pub fn sample(rng: &mut StdRng) -> (s: Side) {
        Side::from_index(next_index(rng, 1))
    }

    /// Position of the side in declaration order, below `SIDE_COUNT`.
    pub fn index(self) -> (i: usize)
        ensures
            i == self.spec_index(),
            i < SIDE_COUNT,
    {
        match self {
            Side::Ask => 0,
            Side::Bid => 1,
        }
    }
}

/// Position of a `(Symbol, Side)` key among the `KEY_COUNT` keys: keys are
/// numbered symbol by symbol, the ask before the bid.
pub open spec fn spec_key_index(sym: Symbol, side: Side) -> int {
    sym.spec_index() * 2 + side.spec_index()
}

/// Position of a `(Symbol, Side)` key among the `KEY_COUNT` keys.
pub fn key_index(sym: Symbol, side: Side) -> (k: usize)
    ensures
        k == spec_key_index(sym, side),
        k < KEY_COUNT,
{
    sym.index() * 2 + side.index()
}

/// Distinct keys have distinct positions, all of them below `KEY_COUNT`.
pub proof fn lemma_key_index_injective(s1: Symbol, d1: Side, s2: Symbol, d2: Side)
    ensures
        0 <= spec_key_index(s1, d1) < KEY_COUNT,
        spec_key_index(s1, d1) == spec_key_index(s2, d2) <==> s1 == s2 && d1 == d2,
{
}

/// One market quote.
///
/// `price_bits` and `size_bits` hold the price and the size as IEEE 754
/// binary64 bit patterns, exactly as `to_bits` gives them and `from_bits`
/// reads them back. A quote is a plain value: a stored quote changes only by
/// being replaced with another quote of the same identifier.
#[derive(Debug, Copy, Clone, Eq, PartialEq, Structural)]
pub struct Quote {
    /// Whole seconds since the epoch.
    pub ts: i64,
    /// Instrument.
    pub sym: Symbol,
    /// Side of the book.
    pub side: Side,
    /// Price, as a binary64 bit pattern.
    pub price_bits: u64,
    /// Size, as a binary64 bit pattern.
    pub size_bits: u64,
    /// Identifier.
    pub id: u64,
}

/// Bit pattern of binary64 negative zero: the sign bit alone.
pub const NEGATIVE_ZERO_BITS: u64 = 0x8000_0000_0000_0000;

/// Bit pattern of binary64 negative infinity: the sign bit and a full
/// exponent, with an empty fraction.
pub const NEGATIVE_INFINITY_BITS: u64 = 0xFFF0_0000_0000_0000;

/// Whether a binary64 bit pattern stands for a number below zero.
///
/// Patterns with the sign bit set run from negative zero upward through the
/// negative finite numbers to negative infinity, and beyond that are not
/// numbers. Negative zero is not below zero, and a pattern that is not a
/// number is below nothing.
pub open spec fn spec_is_negative(bits: u64) -> bool {
    NEGATIVE_ZERO_BITS < bits <= NEGATIVE_INFINITY_BITS
}

/// Whether a binary64 bit pattern stands for a number below zero.
pub fn is_negative(bits: u64) -> (b: bool)
    ensures
        b == spec_is_negative(bits),
{
    NEGATIVE_ZERO_BITS < bits && bits <= NEGATIVE_INFINITY_BITS
}

impl Quote {
    /// The `(Symbol, Side)` key under which the quote is retained.
    pub open spec fn spec_key(self) -> (Symbol, Side) {
        (self.sym, self.side)
    }
}

} // verus!
