//! Coins and item values.
use vstd::prelude::*;
use vstd::string::*;
use crate::text::eq_str;

verus! {

/// A coin denomination.
#[derive(Clone, Copy, Debug, PartialEq, Eq, Structural, Hash)]
pub enum Currency {
    Copper,
    Silver,
    Electrum,
    Gold,
    Platinum,
}

/// The coin abbreviated or spelled `w` in lower case.
pub open spec fn currency_word(w: Seq<char>) -> Option<Currency> {
    if w == "cp"@ || w == "copper"@ {
        Some(Currency::Copper)
    } else if w == "sp"@ || w == "silver"@ {
        Some(Currency::Silver)
    } else if w == "ep"@ || w == "electrum"@ {
        Some(Currency::Electrum)
    } else if w == "gp"@ || w == "gold"@ {
        Some(Currency::Gold)
    } else if w == "pp"@ || w == "platinum"@ {
        Some(Currency::Platinum)
    } else {
        None
    }
}

impl Currency {
    /// The entry of the vocabulary spelled `w`, if any.
    pub fn from_word(w: &str) -> (r: Option<Currency>)
        ensures
            r == currency_word(w@),
    {
        if eq_str(w, "cp") || eq_str(w, "copper") {
            Some(Currency::Copper)
        } else if eq_str(w, "sp") || eq_str(w, "silver") {
            Some(Currency::Silver)
        } else if eq_str(w, "ep") || eq_str(w, "electrum") {
            Some(Currency::Electrum)
        } else if eq_str(w, "gp") || eq_str(w, "gold") {
            Some(Currency::Gold)
        } else if eq_str(w, "pp") || eq_str(w, "platinum") {
            Some(Currency::Platinum)
        } else {
            None
        }
    }
}

/// The worth of one coin in copper pieces.
pub open spec fn copper_per_coin(c: Currency) -> nat {
    match c {
        Currency::Copper => 1,
        Currency::Silver => 10,
        Currency::Electrum => 50,
        Currency::Gold => 100,
        Currency::Platinum => 1000,
    }
}

/// An amount of coins of one denomination.
#[derive(Debug, Clone, Copy, PartialEq, Eq, Structural)]
pub struct ItemValue {
    pub value: u32,
    pub unit: Currency,
}

impl ItemValue {
    /// The worth in copper pieces.
    pub fn in_copper(&self) -> (r: u64)
        ensures
            r == self.value * copper_per_coin(self.unit),
    {
        let per: u64 = match self.unit {
            Currency::Copper => 1,
            Currency::Silver => 10,
            Currency::Electrum => 50,
            Currency::Gold => 100,
            Currency::Platinum => 1000,
        };
        assert(self.value * per <= u32::MAX * 1000) by (nonlinear_arith)
            requires
                self.value <= u32::MAX,
                per <= 1000,
        ;
        self.value as u64 * per
    }
}

} // verus!
