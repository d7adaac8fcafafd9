//! Coins and traded pairs.
//!
//! `Coin` is an open vocabulary: an unknown ticker is kept verbatim in an
//! `Unknown` variant, never rejected. `Coins` (a traded pair) is a closed
//! catalog: an unsupported symbol is a reported error.

use vstd::prelude::*;
use vstd::string::StringExecFns;

use crate::base::ParseError;
use crate::text::{spec_fold, str_eq, str_fold_eq};

verus! {

/// A currency ticker: one of the known coins, or any other ticker kept
/// verbatim.
#[derive(Clone, Debug, PartialEq, Eq)]
pub enum Coin {
    TON,
    USDT,
    Unknown(String),
}

impl Coin {
    /// The canonical symbol of the coin: lowercase for the known coins, the
    /// original text for an unknown one.
    pub open spec fn spec_symbol(self) -> Seq<char> {
        match self {
            Coin::TON => "ton"@,
            Coin::USDT => "usdt"@,
            Coin::Unknown(other) => other@,
        }
    }

    /// The known coin a ticker denotes after ASCII case folding, or `None`
    /// when the ticker falls into the open `Unknown` vocabulary.
    pub open spec fn spec_known(s: Seq<char>) -> Option<Coin> {
        if spec_fold(s) == "ton"@ {
            Some(Coin::TON)
        } else if spec_fold(s) == "usdt"@ {
            Some(Coin::USDT)
        } else {
            None
        }
    }

    /// Parses a ticker, case-insensitively. An unsupported ticker is never
    /// rejected: it comes back as `Unknown` carrying the original text
    /// verbatim.
    pub fn parse(s: &str) -> (r: Coin)
        ensures
            match Coin::spec_known(s@) {
                Some(coin) => r == coin,
                None => r matches Coin::Unknown(other) && other@ == s@,
            },
    {
        if str_fold_eq(s, "ton") {
            Coin::TON
        } else if str_fold_eq(s, "usdt") {
            Coin::USDT
        } else {
            Coin::Unknown(s.to_owned())
        }
    }

    /// The coin a ticker denotes when the ticker is already owned: as
    /// `parse`, but an unknown ticker keeps the very string it was given.
    pub open spec fn spec_of_string(s: String) -> Coin {
        match Coin::spec_known(s@) {
            Some(coin) => coin,
            None => Coin::Unknown(s),
        }
    }

    /// Parses an owned ticker, case-insensitively; an unknown ticker is
    /// kept verbatim.
    pub fn of_string(s: String) -> (r: Coin)
        ensures
            r == Coin::spec_of_string(s),
    {
        if str_fold_eq(s.as_str(), "ton") {
            Coin::TON
        } else if str_fold_eq(s.as_str(), "usdt") {
            Coin::USDT
        } else {
            Coin::Unknown(s)
        }
    }

    /// The canonical symbol of the coin.
    pub fn symbol(&self) -> (r: String)
        ensures
            r@ == self.spec_symbol(),
    {
        match self {
            Coin::TON => String::from_str("ton"),
            Coin::USDT => String::from_str("usdt"),
            Coin::Unknown(other) => other.clone(),
        }
    }
}

/// Round trip of the known coins: the canonical symbol of a supported coin
/// parses back to that coin. (An `Unknown` ticker round-trips as well unless
/// its text folds to a supported symbol; that case is settled by the parse
/// contract itself.)
pub proof fn lemma_coin_round_trip(coin: Coin)
    requires
        coin matches Coin::TON || coin matches Coin::USDT,
    ensures
        Coin::spec_known(coin.spec_symbol()) == Some(coin),
{
    reveal_strlit("ton");
    reveal_strlit("usdt");
    assert(spec_fold("ton"@) =~= "ton"@);
    assert(spec_fold("usdt"@) =~= "usdt"@);
    assert("ton"@.len() != "usdt"@.len());
}

/// A traded pair in fixed base-then-quote order, from the closed catalog of
/// supported pairs.
#[derive(Clone, Copy, Debug, PartialEq, Eq, Structural)]
pub enum Coins {
    TonUsdt,
}

impl Coins {
    /// The base coin of the pair.
    pub open spec fn spec_base(self) -> Coin {
        match self {
            Coins::TonUsdt => Coin::TON,
        }
    }

    /// The quote coin of the pair.
    pub open spec fn spec_quote(self) -> Coin {
        match self {
            Coins::TonUsdt => Coin::USDT,
        }
    }

    /// The canonical symbol of the pair: the base symbol followed by the
    /// quote symbol.
    pub open spec fn spec_symbol(self) -> Seq<char> {
        self.spec_base().spec_symbol() + self.spec_quote().spec_symbol()
    }

    /// The supported pair a symbol denotes, if any. The lookup is an exact
    /// match against the closed catalog, never a decomposition into coins.
    pub open spec fn spec_parse(s: Seq<char>) -> Option<Coins> {
        if s == "tonusdt"@ {
            Some(Coins::TonUsdt)
        } else {
            None
        }
    }

    /// The base coin of the pair.
    pub fn base_coin(&self) -> (r: Coin)
        ensures
            r == self.spec_base(),
    {
        match self {
            Coins::TonUsdt => Coin::TON,
        }
    }

    /// The quote coin of the pair.
    pub fn quote_coin(&self) -> (r: Coin)
        ensures
            r == self.spec_quote(),
    {
        match self {
            Coins::TonUsdt => Coin::USDT,
        }
    }

    /// The canonical symbol of the pair.
    pub fn symbol(&self) -> (r: String)
        ensures
            r@ == self.spec_symbol(),
    {
        let mut s = self.base_coin().symbol();
        let quote = self.quote_coin().symbol();
        s.append(quote.as_str());
        s
    }

    /// Parses a pair symbol against the closed catalog. An unsupported
    /// symbol fails with `UnsupportedPair`: it is never mapped to any known
    /// pair.
    pub fn parse(s: &str) -> (r: Result<Coins, ParseError>)
        ensures
            r == match Coins::spec_parse(s@) {
                Some(pair) => Ok::<Coins, ParseError>(pair),
                None => Err::<Coins, ParseError>(ParseError::UnsupportedPair),
            },
    {
        if str_eq(s, "tonusdt") {
            Ok(Coins::TonUsdt)
        } else {
            Err(ParseError::UnsupportedPair)
        }
    }
}

/// Round trip of the pair catalog: the canonical symbol of a supported pair
/// parses back to that pair.
pub proof fn lemma_pair_round_trip(pair: Coins)
    ensures
        Coins::spec_parse(pair.spec_symbol()) == Some(pair),
{
    reveal_strlit("ton");
    reveal_strlit("usdt");
    reveal_strlit("tonusdt");
    assert(pair.spec_symbol() =~= "tonusdt"@);
}

} // verus!
