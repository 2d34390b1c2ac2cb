//! Hexadecimal text: the digits of a 64-bit value, and the value of a digit string.
//!
//! Text is read without regard to case and written in lower case. A sign or a
//! prefix is no digit, so a text that holds one is refused.

use vstd::prelude::*;
use vstd::string::*;

verus! {

/// Why a text is not the hexadecimal form of a 64-bit value.
#[derive(Clone, Copy, Debug, PartialEq, Eq, Structural)]
pub enum ParseError {
    /// The text is empty.
    Empty,
    /// The text holds a character that is no hexadecimal digit.
    InvalidDigit,
    /// The digits read so far already denote a value above `u64::MAX`.
    Overflow,
}

impl ParseError {
    /// The reason in words.
    pub open spec fn text(self) -> Seq<char> {
        match self {
            ParseError::Empty => "cannot parse integer from empty string"@,
            ParseError::InvalidDigit => "invalid digit found in string"@,
            ParseError::Overflow => "number too large to fit in target type"@,
        }
    }

    /// The reason in words.
    pub fn message(&self) -> (s: String)
        ensures
            s@ == self.text(),
    {
        match self {
            ParseError::Empty => "cannot parse integer from empty string".to_owned(),
            ParseError::InvalidDigit => "invalid digit found in string".to_owned(),
            ParseError::Overflow => "number too large to fit in target type".to_owned(),
        }
    }
}

/// The value of one hexadecimal digit, in either case; `None` for any other character.
pub open spec fn digit_value(c: char) -> Option<nat> {
    if '0' <= c && c <= '9' {
        Some((c as u32 - '0' as u32) as nat)
    } else if 'a' <= c && c <= 'f' {
        Some((c as u32 - 'a' as u32 + 10) as nat)
    } else if 'A' <= c && c <= 'F' {
        Some((c as u32 - 'A' as u32 + 10) as nat)
    } else {
        None
    }
}

/// The lower-case digit that stands for `d`, for `d < 16`.
pub open spec fn digit_char(d: nat) -> char {
    "0123456789abcdef"@[d as int]
}

/// Every character of `s` is a hexadecimal digit.
pub open spec fn all_digits(s: Seq<char>) -> bool {
    forall|i: int| 0 <= i < s.len() ==> (#[trigger] digit_value(s[i])) is Some
}

/// The number that the digits of `s` denote, most significant digit first.
pub open spec fn value(s: Seq<char>) -> nat
    decreases s.len(),
{
    if s.len() == 0 {
        0
    } else {
        value(s.drop_last()) * 16 + digit_value(s.last()).unwrap_or(0)
    }
}

/// Reads `s` from the left and stops at the first character that is no digit, or
/// with which the value read so far no longer fits in 64 bits.
pub open spec fn scan(s: Seq<char>) -> Result<nat, ParseError>
    decreases s.len(),
{
    if s.len() == 0 {
        Ok(0)
    } else {
        match (scan(s.drop_last()), digit_value(s.last())) {
            (Err(e), _) => Err(e),
            (Ok(_), None) => Err(ParseError::InvalidDigit),
            (Ok(v), Some(d)) => if v * 16 + d > u64::MAX {
                Err(ParseError::Overflow)
            } else {
                Ok(v * 16 + d)
            },
        }
    }
}

/// What parsing `s` gives: the value of a non-empty digit string that fits in 64
/// bits, and otherwise the first reason against it.
pub open spec fn parse(s: Seq<char>) -> Result<u64, ParseError> {
    if s.len() == 0 {
        Err(ParseError::Empty)
    } else {
        match scan(s) {
            Ok(v) => Ok(v as u64),
            Err(e) => Err(e),
        }
    }
}

/// The digits of `v` in lower case, without leading zeros; `"0"` for zero.
pub open spec fn digits(v: nat) -> Seq<char>
    decreases v,
{
    if v < 16 {
        seq![digit_char(v)]
    } else {
        digits(v / 16).push(digit_char(v % 16))
    }
}

/// The digits of `v`, with zeros in front where there are fewer than `width`.
pub open spec fn padded(v: nat, width: nat) -> Seq<char> {
    let d = digits(v);
    if d.len() >= width {
        d
    } else {
        zeros((width - d.len()) as nat) + d
    }
}

/// A scan succeeds exactly on digit strings whose value fits in 64 bits, and then
/// gives that value.
pub proof fn lemma_scan_ok(s: Seq<char>)
    ensures
        scan(s) is Ok <==> all_digits(s) && value(s) <= u64::MAX,
        scan(s) is Ok ==> scan(s) == Ok::<nat, ParseError>(value(s)),
        scan(s) != Err::<nat, ParseError>(ParseError::Empty),
    decreases s.len(),
{
    if s.len() > 0 {
        let init = s.drop_last();
        lemma_scan_ok(init);
        if all_digits(s) {
            assert forall|i: int| 0 <= i < init.len() implies (#[trigger] digit_value(
                init[i],
            )) is Some by {
                assert(init[i] == s[i]);
            }
            assert(digit_value(s[s.len() - 1]) is Some);
        }
        if scan(s) is Ok {
            assert forall|i: int| 0 <= i < s.len() implies (#[trigger] digit_value(s[i])) is Some by {
                if i < init.len() {
                    assert(init[i] == s[i]);
                }
            }
        }
    }
}

/// Parsing succeeds exactly on non-empty digit strings whose value fits in 64 bits,
/// and then gives that value.
pub proof fn lemma_parse_ok(s: Seq<char>)
    ensures
        parse(s) is Ok <==> s.len() > 0 && all_digits(s) && value(s) <= u64::MAX,
        parse(s) is Ok ==> parse(s) == Ok::<u64, ParseError>(value(s) as u64),
        parse(s) == Err::<u64, ParseError>(ParseError::Empty) <==> s.len() == 0,
{
    lemma_scan_ok(s);
}

/// Once a scan has failed on the first `k` characters, it fails in the same way on
/// the whole text.
proof fn lemma_scan_err_stays(s: Seq<char>, k: int)
    requires
        0 <= k <= s.len(),
        scan(s.take(k)) is Err,
    ensures
        scan(s) == scan(s.take(k)),
    decreases s.len() - k,
{
    if k < s.len() {
        assert(s.take(k + 1).drop_last() =~= s.take(k));
        lemma_scan_err_stays(s, k + 1);
    } else {
        assert(s.take(k) =~= s);
    }
}

/// The value of a digit in either case.
fn digit_of(c: char) -> (r: Option<u64>)
    ensures
        match r {
            Some(d) => digit_value(c) == Some(d as nat) && d < 16,
            None => digit_value(c) is None,
        },
{
    if c >= '0' && c <= '9' {
        Some((c as u32 - '0' as u32) as u64)
    } else if c >= 'a' && c <= 'f' {
        Some((c as u32 - 'a' as u32 + 10) as u64)
    } else if c >= 'A' && c <= 'F' {
        Some((c as u32 - 'A' as u32 + 10) as u64)
    } else {
        None
    }
}

/// Parses a hexadecimal text of any length into a 64-bit value.
pub fn parse_u64(s: &str) -> (r: Result<u64, ParseError>)
    ensures
        r == parse(s@),
{
    if s.is_empty() {
        return Err(ParseError::Empty);
    }
    let mut acc: u64 = 0;
    for c in it: s.chars()
        invariant
            it.seq() == s@,
            scan(s@.take(it.index() as int)) == Ok::<nat, ParseError>(acc as nat),
    {
        let ghost k = it.index() as int;
        proof {
            assert(s@.take(k + 1).drop_last() =~= s@.take(k));
            assert(s@.take(k + 1).last() == c);
        }
        let d = match digit_of(c) {
            Some(d) => d,
            None => {
                proof {
                    lemma_scan_err_stays(s@, k + 1);
                }
                return Err(ParseError::InvalidDigit);
            },
        };
        if acc > (u64::MAX - d) / 16 {
            proof {
                lemma_scan_err_stays(s@, k + 1);
            }
            return Err(ParseError::Overflow);
        }
        acc = acc * 16 + d;
    }
    proof {
        assert(s@.take(s@.len() as int) =~= s@);
    }
    Ok(acc)
}

/// `count` zeros.
pub open spec fn zeros(count: nat) -> Seq<char> {
    Seq::new(count, |i: int| '0')
}

/// Each lower-case digit has the value that it stands for.
pub proof fn lemma_digit_round_trip(d: nat)
    requires
        d < 16,
    ensures
        digit_value(digit_char(d)) == Some(d),
{
    reveal_strlit("0123456789abcdef");
}

/// The digits of a number are digits, and they denote that number.
pub proof fn lemma_digits_value(v: nat)
    ensures
        digits(v).len() >= 1,
        all_digits(digits(v)),
        value(digits(v)) == v,
    decreases v,
{
    let d = digits(v);
    if v < 16 {
        lemma_digit_round_trip(v);
        assert(d.drop_last() =~= Seq::<char>::empty());
        assert(value(d.drop_last()) == 0);
    } else {
        lemma_digits_value(v / 16);
        lemma_digit_round_trip(v % 16);
        assert(d.drop_last() =~= digits(v / 16));
        assert forall|i: int| 0 <= i < d.len() implies (#[trigger] digit_value(d[i])) is Some by {
            if i < d.len() - 1 {
                assert(d[i] == digits(v / 16)[i]);
            }
        }
    }
}

/// Zeros in front change neither whether a text is made of digits nor its value.
pub proof fn lemma_leading_zeros(count: nat, s: Seq<char>)
    ensures
        all_digits(zeros(count) + s) <==> all_digits(s),
        value(zeros(count) + s) == value(s),
    decreases s.len(), count,
{
    let t = zeros(count) + s;
    if s.len() > 0 {
        lemma_leading_zeros(count, s.drop_last());
        assert(t.drop_last() =~= zeros(count) + s.drop_last());
        assert(t.last() == s.last());
    } else if count > 0 {
        lemma_leading_zeros((count - 1) as nat, s);
        assert(t.drop_last() =~= zeros((count - 1) as nat) + s);
    } else {
        assert(t =~= s);
    }
    if all_digits(s) {
        assert forall|i: int| 0 <= i < t.len() implies (#[trigger] digit_value(t[i])) is Some by {
            if i >= count {
                assert(t[i] == s[i - count]);
            }
        }
    }
    if all_digits(t) {
        assert forall|i: int| 0 <= i < s.len() implies (#[trigger] digit_value(s[i])) is Some by {
            assert(s[i] == t[i + count]);
        }
    }
}

/// Writing a 64-bit value with any minimum width and parsing the text gives the
/// value back.
pub proof fn lemma_round_trip(v: u64, width: nat)
    ensures
        parse(padded(v as nat, width)) == Ok::<u64, ParseError>(v),
{
    let d = digits(v as nat);
    lemma_digits_value(v as nat);
    if d.len() < width {
        lemma_leading_zeros((width - d.len()) as nat, d);
    }
    lemma_parse_ok(padded(v as nat, width));
}

/// The text of one lower-case digit.
pub(crate) fn digit_str(d: u64) -> (s: &'static str)
    requires
        d < 16,
    ensures
        s@ == seq![digit_char(d as nat)],
{
    proof {
        reveal_strlit("0123456789abcdef");
        reveal_strlit("0");
        reveal_strlit("1");
        reveal_strlit("2");
        reveal_strlit("3");
        reveal_strlit("4");
        reveal_strlit("5");
        reveal_strlit("6");
        reveal_strlit("7");
        reveal_strlit("8");
        reveal_strlit("9");
        reveal_strlit("a");
        reveal_strlit("b");
        reveal_strlit("c");
        reveal_strlit("d");
        reveal_strlit("e");
        reveal_strlit("f");
    }
    let s = match d {
        0 => "0",
        1 => "1",
        2 => "2",
        3 => "3",
        4 => "4",
        5 => "5",
        6 => "6",
        7 => "7",
        8 => "8",
        9 => "9",
        10 => "a",
        11 => "b",
        12 => "c",
        13 => "d",
        14 => "e",
        _ => "f",
    };
    assert(s@ =~= seq![digit_char(d as nat)]);
    s
}

/// Sixteen to the power `k`.
pub open spec fn pow16(k: nat) -> nat
    decreases k,
{
    if k == 0 {
        1
    } else {
        16 * pow16((k - 1) as nat)
    }
}

/// A number below the `k`-th power of sixteen has at most `k` digits.
pub proof fn lemma_digits_len(v: nat, k: nat)
    requires
        k >= 1,
        v < pow16(k),
    ensures
        1 <= digits(v).len() <= k,
    decreases k,
{
    if v >= 16 {
        assert(pow16(1) == 16) by {
            reveal_with_fuel(pow16, 2);
        }
        lemma_digits_len(v / 16, (k - 1) as nat);
    }
}

/// A 64-bit value has at most sixteen digits.
pub proof fn lemma_digits_len_u64(v: u64)
    ensures
        1 <= digits(v as nat).len() <= 16,
{
    assert(pow16(16) == 0x1_0000_0000_0000_0000) by {
        reveal_with_fuel(pow16, 17);
    }
    lemma_digits_len(v as nat, 16);
}

/// How many digits `v` has.
fn digit_count(v: u64) -> (n: usize)
    ensures
        n == digits(v as nat).len(),
        1 <= n <= 16,
    decreases v,
{
    proof {
        lemma_digits_len_u64(v);
    }
    if v < 16 {
        1
    } else {
        let n = digit_count(v / 16);
        n + 1
    }
}

/// Appends the digits of `v` to `out`.
fn push_digits(out: &mut String, v: u64)
    ensures
        final(out)@ == old(out)@ + digits(v as nat),
    decreases v,
{
    if v >= 16 {
        push_digits(out, v / 16);
    }
    out.append(digit_str(v % 16));
    assert(out@ =~= old(out)@ + digits(v as nat));
}

/// Appends to `out` the digits of `v`, at least `width` of them.
pub fn push_padded(out: &mut String, v: u64, width: usize)
    ensures
        final(out)@ == old(out)@ + padded(v as nat, width as nat),
{
    let n = digit_count(v);
    let mut i: usize = n;
    while i < width
        invariant
            n <= i,
            i <= width || i == n,
            out@ == old(out)@ + zeros((i - n) as nat),
        decreases width - i,
    {
        proof {
            reveal_strlit("0");
        }
        out.append("0");
        i = i + 1;
        assert(out@ =~= old(out)@ + zeros((i - n) as nat));
    }
    push_digits(out, v);
    assert(out@ =~= old(out)@ + padded(v as nat, width as nat));
}

/// The digits of `v` in lower case, at least `width` of them.
pub fn format_u64(v: u64, width: usize) -> (s: String)
    ensures
        s@ == padded(v as nat, width as nat),
{
    let mut s = String::new();
    push_padded(&mut s, v, width);
    s
}

} // verus!
