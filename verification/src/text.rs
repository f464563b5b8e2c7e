//! The one-line text form of a quote: its fields separated by commas, in
//! the order timestamp, symbol, side, price, size, identifier.

use crate::quote::{Quote, Side, Symbol};
use vstd::prelude::*;
use vstd::string::StringExecFns;

verus! {

/// The character of a decimal digit.
pub open spec fn digit(d: int) -> char {
    if d == 0 {
        '0'
    } else if d == 1 {
        '1'
    } else if d == 2 {
        '2'
    } else if d == 3 {
        '3'
    } else if d == 4 {
        '4'
    } else if d == 5 {
        '5'
    } else if d == 6 {
        '6'
    } else if d == 7 {
        '7'
    } else if d == 8 {
        '8'
    } else {
        '9'
    }
}

/// A natural number in decimal, without leading zeros.
pub open spec fn decimal(n: nat) -> Seq<char>
    decreases n,
{
    if n < 10 {
        seq![digit(n as int)]
    } else {
        decimal(n / 10).push(digit((n % 10) as int))
    }
}

/// An integer in decimal, with a minus sign before a negative one.
pub open spec fn signed_decimal(i: int) -> Seq<char> {
    if i < 0 {
        seq!['-'] + decimal((-i) as nat)
    } else {
        decimal(i as nat)
    }
}

/// The name of a symbol as it stands in text.
pub open spec fn symbol_text(sym: Symbol) -> Seq<char> {
    match sym {
        Symbol::BTCUSD => seq!['B', 'T', 'C', 'U', 'S', 'D'],
        Symbol::ETHUSD => seq!['E', 'T', 'H', 'U', 'S', 'D'],
        Symbol::ETHBTC => seq!['E', 'T', 'H', 'B', 'T', 'C'],
    }
}

/// The name of a side as it stands in text.
pub open spec fn side_text(side: Side) -> Seq<char> {
    match side {
        Side::Ask => seq!['A', 's', 'k'],
        Side::Bid => seq!['B', 'i', 'd'],
    }
}

/// The text line of a quote, given its price and its size as text.
pub open spec fn line_text(quote: Quote, price: Seq<char>, size: Seq<char>) -> Seq<char> {
    signed_decimal(quote.ts as int) + seq![','] + symbol_text(quote.sym) + seq![','] + side_text(
        quote.side,
    ) + seq![','] + price + seq![','] + size + seq![','] + decimal(quote.id as nat)
}

/// The text of one decimal digit.
fn digit_str(d: u64) -> (s: &'static str)
    requires
        d < 10,
    ensures
        s@ == seq![digit(d as int)],
{
    proof {
        reveal_strlit("0");
        reveal_strlit("1");
        reveal_strlit("2");
        reveal_strlit("3");
        reveal_strlit("4");
        reveal_strlit("5");
        reveal_strlit("6");
        reveal_strlit("7");
        reveal_strlit("8");
        reveal_strlit("9");
    }
    let s = if d == 0 {
        "0"
    } else if d == 1 {
        "1"
    } else if d == 2 {
        "2"
    } else if d == 3 {
        "3"
    } else if d == 4 {
        "4"
    } else if d == 5 {
        "5"
    } else if d == 6 {
        "6"
    } else if d == 7 {
        "7"
    } else if d == 8 {
        "8"
    } else {
        "9"
    };
    assert(s@ =~= seq![digit(d as int)]);
    s
}

/// Appends `n` in decimal to `out`.
pub fn append_decimal(out: &mut String, n: u64)
    ensures
        final(out)@ == old(out)@ + decimal(n as nat),
    decreases n,
{
    if n >= 10 {
        append_decimal(out, n / 10);
    }
    out.append(digit_str(n % 10));
    assert(out@ =~= old(out)@ + decimal(n as nat));
}

/// Appends `i` in decimal to `out`, with a minus sign if it is negative.
pub fn append_signed_decimal(out: &mut String, i: i64)
    ensures
        final(out)@ == old(out)@ + signed_decimal(i as int),
{
    if i < 0 {
        proof {
            reveal_strlit("-");
        }
        out.append("-");
        let magnitude: u64 = (-(i + 1)) as u64 + 1;
        append_decimal(out, magnitude);
        assert(out@ =~= old(out)@ + signed_decimal(i as int));
    } else {
        append_decimal(out, i as u64);
    }
}

impl Symbol {
    /// The name of the symbol as it stands in text.
    pub fn name(self) -> (s: &'static str)
        ensures
            s@ == symbol_text(self),
    {
        proof {
            reveal_strlit("BTCUSD");
            reveal_strlit("ETHUSD");
            reveal_strlit("ETHBTC");
        }
        let s = match self {
            Symbol::BTCUSD => "BTCUSD",
            Symbol::ETHUSD => "ETHUSD",
            Symbol::ETHBTC => "ETHBTC",
        };
        assert(s@ =~= symbol_text(self));
        s
    }
}

impl Side {
    /// The name of the side as it stands in text.
    pub fn name(self) -> (s: &'static str)
        ensures
            s@ == side_text(self),
    {
        proof {
            reveal_strlit("Ask");
            reveal_strlit("Bid");
        }
        let s = match self {
            Side::Ask => "Ask",
            Side::Bid => "Bid",
        };
        assert(s@ =~= side_text(self));
        s
    }
}

impl Quote {
    /// The text line of the quote. The price and the size are real-valued:
    /// the caller gives their text, each with seven decimal places.
    pub fn to_line(&self, price: &str, size: &str) -> (line: String)
        ensures
            line@ == line_text(*self, price@, size@),
    {
        proof {
            reveal_strlit(",");
        }
        let mut line = String::new();
        append_signed_decimal(&mut line, self.ts);
        line.append(",");
        line.append(self.sym.name());
        line.append(",");
        line.append(self.side.name());
        line.append(",");
        line.append(price);
        line.append(",");
        line.append(size);
        line.append(",");
        append_decimal(&mut line, self.id);
        assert(line@ =~= line_text(*self, price@, size@));
        line
    }
}

} // verus!
