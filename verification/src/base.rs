//! The two closed order vocabularies and the parse failures they can report.
//!
//! `Side` and `Target` are strict vocabularies: parsing an unknown word is a
//! reported error, never a silent fallback.

use vstd::prelude::*;

use crate::text::{spec_fold, str_eq, str_fold_eq};

verus! {

/// Rejection reasons of the closed-vocabulary parsers.
#[derive(Clone, Copy, Debug, PartialEq, Eq, Structural)]
pub enum ParseError {
    /// The side word is neither `sell` nor `buy`.
    InvalidSide,
    /// The order-type word is neither `market` nor `limit` in any casing.
    InvalidTarget,
    /// The pair symbol is not in the closed catalog of supported pairs.
    UnsupportedPair,
}

/// Which way an order moves funds: a `Sell` offers the base coin, a `Buy`
/// acquires it.
#[derive(Clone, Copy, Debug, PartialEq, Eq, Structural)]
pub enum Side {
    Sell,
    Buy,
}

impl Side {
    /// The lowercase wire form of the side.
    pub open spec fn spec_wire(self) -> Seq<char> {
        match self {
            Side::Sell => "sell"@,
            Side::Buy => "buy"@,
        }
    }

    /// The side a lowercase wire word denotes, if any. The match is exact:
    /// this encoding is case-sensitive on the wire.
    pub open spec fn spec_parse(s: Seq<char>) -> Option<Side> {
        if s == "sell"@ {
            Some(Side::Sell)
        } else if s == "buy"@ {
            Some(Side::Buy)
        } else {
            None
        }
    }

    /// Parses the wire form of a side; any other text is rejected.
    pub fn parse(s: &str) -> (r: Result<Side, ParseError>)
        ensures
            r == match Side::spec_parse(s@) {
                Some(side) => Ok::<Side, ParseError>(side),
                None => Err::<Side, ParseError>(ParseError::InvalidSide),
            },
    {
        if str_eq(s, "sell") {
            Ok(Side::Sell)
        } else if str_eq(s, "buy") {
            Ok(Side::Buy)
        } else {
            Err(ParseError::InvalidSide)
        }
    }

    /// The wire form of the side.
    pub fn wire(self) -> (r: &'static str)
        ensures
            r@ == self.spec_wire(),
    {
        match self {
            Side::Sell => "sell",
            Side::Buy => "buy",
        }
    }
}

/// Round trip of the side encoding: the wire form of a side parses back to
/// that side.
pub proof fn lemma_side_round_trip(side: Side)
    ensures
        Side::spec_parse(side.spec_wire()) == Some(side),
{
    reveal_strlit("sell");
    reveal_strlit("buy");
    assert("sell"@.len() != "buy"@.len());
}

/// How an order is priced: at the current market or at a caller-given limit.
#[derive(Clone, Copy, Debug, PartialEq, Eq, Structural)]
pub enum Target {
    Market,
    Limit,
}

impl Target {
    /// The canonical lowercase wire form of the target.
    pub open spec fn spec_wire(self) -> Seq<char> {
        match self {
            Target::Market => "market"@,
            Target::Limit => "limit"@,
        }
    }

    /// The target a wire word denotes, if any: the word is matched after
    /// ASCII case folding, so any casing is accepted.
    pub open spec fn spec_parse(s: Seq<char>) -> Option<Target> {
        if spec_fold(s) == "market"@ {
            Some(Target::Market)
        } else if spec_fold(s) == "limit"@ {
            Some(Target::Limit)
        } else {
            None
        }
    }

    /// Parses the wire form of a target, case-insensitively; any other text
    /// is rejected.
    pub fn parse(s: &str) -> (r: Result<Target, ParseError>)
        ensures
            r == match Target::spec_parse(s@) {
                Some(target) => Ok::<Target, ParseError>(target),
                None => Err::<Target, ParseError>(ParseError::InvalidTarget),
            },
    {
        if str_fold_eq(s, "market") {
            Ok(Target::Market)
        } else if str_fold_eq(s, "limit") {
            Ok(Target::Limit)
        } else {
            Err(ParseError::InvalidTarget)
        }
    }

    /// The canonical wire form of the target.
    pub fn wire(self) -> (r: &'static str)
        ensures
            r@ == self.spec_wire(),
    {
        match self {
            Target::Market => "market",
            Target::Limit => "limit",
        }
    }
}

/// Round trip of the target encoding: the canonical wire form of a target,
/// being already lowercase, parses back to that target.
pub proof fn lemma_target_round_trip(target: Target)
    ensures
        Target::spec_parse(target.spec_wire()) == Some(target),
{
    reveal_strlit("market");
    reveal_strlit("limit");
    assert(spec_fold("market"@) =~= "market"@);
    assert(spec_fold("limit"@) =~= "limit"@);
    assert("market"@.len() != "limit"@.len());
}

} // verus!
