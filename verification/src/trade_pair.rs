//! Currencies and currency pairs, with the canonical `"BASE-QUOTE"` form
//! that names a market both on the wire and for display.

use vstd::prelude::*;
use vstd::string::StringExecFns;

verus! {

/// A currency from the closed set the feed understands.
#[derive(Clone, Copy, Debug, PartialEq, Eq, Structural)]
pub enum Currency {
    USD,
    BTC,
}

impl Currency {
    /// The ticker code of this currency, as a sequence of characters.
    pub open spec fn code_spec(self) -> Seq<char> {
        match self {
            Currency::USD => "USD"@,
            Currency::BTC => "BTC"@,
        }
    }

    /// The ticker code of this currency.
    pub fn code(&self) -> (r: &'static str)
        ensures
            r@ == self.code_spec(),
    {
        match self {
            Currency::USD => "USD",
            Currency::BTC => "BTC",
        }
    }
}

/// An ordered market pair: `from` is the base currency, `to` the quote.
#[derive(Clone, Copy, Debug, PartialEq, Eq, Structural)]
pub struct TradePair {
    pub from: Currency,
    pub to: Currency,
}

impl TradePair {
    /// The canonical textual form `"BASE-QUOTE"` of a pair.
    pub open spec fn canonical_spec(self) -> Seq<char> {
        self.from.code_spec() + "-"@ + self.to.code_spec()
    }

    pub fn new(from: Currency, to: Currency) -> (r: TradePair)
        ensures
            r.from == from,
            r.to == to,
    {
        TradePair { from, to }
    }

    /// The canonical `"BASE-QUOTE"` string of this pair.
    pub fn to_string(&self) -> (r: String)
        ensures
            r@ == self.canonical_spec(),
    {
        let mut s = String::new();
        s.append(self.from.code());
        s.append("-");
        s.append(self.to.code());
        s
    }
}

} // verus!
