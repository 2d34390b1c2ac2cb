//! The seed of a run: a 64-bit value with a stable hexadecimal form.

use crate::hex;
use crate::hex::ParseError;
use chrono::Utc;
use std::str::FromStr;
use vstd::prelude::*;
use vstd::string::*;

verus! {

/// The fewest digits that the text of a seed has.
pub const SEED_WIDTH: usize = 8;

/// The text that is refused, after the words that say so.
pub open spec fn invalid_seed(s: Seq<char>) -> Seq<char> {
    "invalid seed: "@ + s
}

/// The unsigned 64-bit value with the bits of the signed `secs`.
pub open spec fn timestamp_value(secs: i64) -> u64 {
    if secs >= 0 {
        secs as u64
    } else {
        (secs + 0x1_0000_0000_0000_0000) as u64
    }
}

/// Calls `Utc::now().timestamp()` of `chrono`: the whole seconds between the Unix
/// epoch and the system clock's present time. `Utc::now` panics where the clock
/// stands before the epoch. Nothing is claimed of the number.
#[verifier::external_body]
fn unix_time() -> i64 {
    Utc::now().timestamp()
}

/// The seed from which the pseudo-random stream of a run is derived.
#[derive(Clone, Copy, Debug, PartialEq, Eq, Structural)]
pub struct Seed {
    v: u64,
}

impl View for Seed {
    type V = u64;

    closed spec fn view(&self) -> u64 {
        self.v
    }
}

impl Seed {
    /// The seed with the given value.
    pub fn new(v: u64) -> (seed: Self)
        ensures
            seed@ == v,
    {
        Self { v }
    }

    /// The seed that stands for a Unix time in seconds: the same bits, read as
    /// unsigned.
    pub fn from_timestamp(secs: i64) -> (seed: Self)
        ensures
            seed@ == timestamp_value(secs),
    {
        assert(secs as u64 == timestamp_value(secs)) by (bit_vector);
        Self { v: secs as u64 }
    }

    /// The seed of the present time.
    pub fn now() -> (seed: Self) {
        Self::from_timestamp(unix_time())
    }

    /// Parses the hexadecimal form of a seed.
    pub fn parse(s: &str) -> (r: Result<Self, ParseError>)
        ensures
            match hex::parse(s@) {
                Ok(v) => r is Ok && r.unwrap()@ == v,
                Err(e) => r == Err::<Self, ParseError>(e),
            },
    {
        match hex::parse_u64(s) {
            Ok(v) => Ok(Self::new(v)),
            Err(e) => Err(e),
        }
    }

    /// Parses a command-line argument; the error names the text that was refused.
    pub fn from_arg(s: &str) -> (r: Result<Seed, String>)
        ensures
            match hex::parse(s@) {
                Ok(v) => r is Ok && r.unwrap()@ == v,
                Err(_) => r is Err && r.unwrap_err()@ == invalid_seed(s@),
            },
    {
        match Self::parse(s) {
            Ok(seed) => Ok(seed),
            Err(_) => {
                let mut msg = "invalid seed: ".to_owned();
                msg.append(s);
                Err(msg)
            },
        }
    }

    /// The value of the seed.
    pub fn value(&self) -> (v: u64)
        ensures
            v == self@,
    {
        self.v
    }

    /// The value in lower-case hexadecimal, with zeros in front up to eight digits;
    /// a value above 32 bits has more digits and loses none.
    pub fn to_string(&self) -> (s: String)
        ensures
            s@ == hex::padded(self@ as nat, 8),
    {
        hex::format_u64(self.v, SEED_WIDTH)
    }
}

impl Default for Seed {
    /// The seed of the present time.
    fn default() -> Self {
        Seed::now()
    }
}

impl FromStr for Seed {
    type Err = ParseError;

    /// Parses the hexadecimal form of a seed, as `Seed::parse` does.
    fn from_str(s: &str) -> (r: Result<Self, ParseError>)
        ensures
            match hex::parse(s@) {
                Ok(v) => r is Ok && r.unwrap()@ == v,
                Err(e) => r == Err::<Self, ParseError>(e),
            },
    {
        Seed::parse(s)
    }
}

/// Writing a seed and parsing the text gives the seed back.
pub proof fn lemma_seed_round_trip(v: u64)
    ensures
        hex::parse(hex::padded(v as nat, 8)) == Ok::<u64, ParseError>(v),
{
    hex::lemma_round_trip(v, 8);
}

} // verus!
