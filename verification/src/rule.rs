//! Rules: a 64-bit number read as a table of 64 two-bit symbols, one for each
//! neighbourhood of three cells.

use crate::hex;
use crate::hex::ParseError;
use std::str::FromStr;
use vstd::prelude::*;

verus! {

/// The code of a neighbourhood: two bits for each of its three symbols, the left
/// one highest.
pub open spec fn code(left: u8, center: u8, right: u8) -> u8 {
    left << 4 | center << 2 | right
}

/// The symbol that the table `rule` holds for the neighbourhood `code`: the two bits
/// that lie `code` bits above the lowest.
pub open spec fn output(rule: u64, code: u8) -> u8 {
    ((rule >> code) & 3) as u8
}

/// Three symbols make a code below 64.
pub proof fn lemma_code_bound(left: u8, center: u8, right: u8)
    requires
        left < 4,
        center < 4,
        right < 4,
    ensures
        code(left, center, right) < 64,
        code(left, center, right) == 16 * left + 4 * center + right,
{
    assert(left << 4 | center << 2 | right == 16 * left + 4 * center + right) by (bit_vector)
        requires
            left < 4,
            center < 4,
            right < 4,
    ;
}

/// Every entry of a table is a symbol.
pub proof fn lemma_output_is_symbol(rule: u64, code: u8)
    ensures
        output(rule, code) < 4,
{
    assert((((rule >> code) & 3) as u8) < 4) by (bit_vector);
}

/// The table 0 holds the symbol 0 for every neighbourhood.
pub proof fn lemma_empty_rule(code: u8)
    ensures
        output(0, code) == 0,
{
    assert(((0u64 >> code) & 3) as u8 == 0) by (bit_vector);
}

/// The table of all ones holds the symbol 3 for every neighbourhood but the last:
/// above the code 63 lies a single bit of the table, so its symbol is 1.
pub proof fn lemma_full_rule(code: u8)
    requires
        code < 64,
    ensures
        output(u64::MAX, code) == if code < 63 { 3u8 } else { 1u8 },
{
    let full: u64 = u64::MAX;
    assert((((full >> code) & 3) as u8) == if code < 63 { 3u8 } else { 1u8 }) by (bit_vector)
        requires
            code < 64,
            full == 0xffff_ffff_ffff_ffffu64,
    ;
}

/// A transition rule of the automaton.
#[derive(Debug, Copy, Clone)]
pub struct Rule {
    rule: u64,
}

impl View for Rule {
    type V = u64;

    closed spec fn view(&self) -> u64 {
        self.rule
    }
}

impl Rule {
    /// The rule with the given table.
    pub fn new(rule: u64) -> (r: Self)
        ensures
            r@ == rule,
    {
        Self { rule }
    }

    /// The symbol for the neighbourhood with code `p`. It depends on the table and
    /// on `p` alone.
    pub fn apply(&self, p: u8) -> (out: u8)
        requires
            p < 64,
        ensures
            out == output(self@, p),
            out < 4,
    {
        let rule = self.rule;
        assert((rule >> p) & 3 < 4) by (bit_vector);
        ((rule >> p) & 3) as u8
    }

    /// Parses the hexadecimal form of a table.
    pub fn parse(s: &str) -> (r: Result<Self, ParseError>)
        ensures
            match hex::parse(s@) {
                Ok(v) => r is Ok && r.unwrap()@ == v,
                Err(e) => r == Err::<Self, ParseError>(e),
            },
    {
        match hex::parse_u64(s) {
            Ok(rule) => Ok(Self::new(rule)),
            Err(e) => Err(e),
        }
    }

    /// Parses a command-line argument; the error is the reason as text.
    pub fn from_arg(s: &str) -> (r: Result<Self, String>)
        ensures
            match hex::parse(s@) {
                Ok(v) => r is Ok && r.unwrap()@ == v,
                Err(e) => r is Err && r.unwrap_err()@ == e.text(),
            },
    {
        match Self::parse(s) {
            Ok(rule) => Ok(rule),
            Err(e) => Err(e.message()),
        }
    }

    /// The table in lower-case hexadecimal, without padding.
    pub fn to_string(&self) -> (s: String)
        ensures
            s@ == hex::digits(self@ as nat),
    {
        let s = hex::format_u64(self.rule, 0);
        proof {
            hex::lemma_digits_value(self.rule as nat);
        }
        s
    }
}

impl FromStr for Rule {
    type Err = ParseError;

    /// Parses the hexadecimal form of a table, as `Rule::parse` does.
    fn from_str(s: &str) -> (r: Result<Self, ParseError>)
        ensures
            match hex::parse(s@) {
                Ok(v) => r is Ok && r.unwrap()@ == v,
                Err(e) => r == Err::<Self, ParseError>(e),
            },
    {
        Rule::parse(s)
    }
}

/// Writing a rule and parsing the text gives the rule back.
pub proof fn lemma_rule_round_trip(rule: u64)
    ensures
        hex::parse(hex::digits(rule as nat)) == Ok::<u64, ParseError>(rule),
{
    hex::lemma_digits_value(rule as nat);
    hex::lemma_round_trip(rule, 0);
}

} // verus!
