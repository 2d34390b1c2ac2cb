//! The row of cells of the automaton, with circular indexing.

use crate::hex;
use crate::rule::{code, lemma_code_bound, output, Rule};
use vstd::arithmetic::div_mod::{
    lemma_fundamental_div_mod, lemma_fundamental_div_mod_converse, lemma_mod_add_multiples_vanish,
    lemma_mod_sub_multiples_vanish,
};
use vstd::prelude::*;
use vstd::string::*;

verus! {

/// The cell of the row `s` at the circular position `i`: any integer names a cell,
/// and positions that differ by the length of the row name the same one.
pub open spec fn cell(s: Seq<u8>, i: int) -> u8 {
    s[i % (s.len() as int)]
}

/// Every cell of `s` holds one of the four symbols.
pub open spec fn symbols(s: Seq<u8>) -> bool {
    forall|i: int| 0 <= i < s.len() ==> #[trigger] s[i] < 4
}

/// The generation after `s` under the table `rule`: each cell becomes what the table
/// holds for its left neighbour, itself and its right neighbour, taken circularly.
pub open spec fn step(s: Seq<u8>, rule: u64) -> Seq<u8> {
    Seq::new(
        s.len(),
        |i: int| output(rule, code(cell(s, i - 1), cell(s, i), cell(s, i + 1))),
    )
}

/// The symbols of `s` as digits with commas between them.
pub open spec fn joined(s: Seq<u8>) -> Seq<char>
    decreases s.len(),
{
    if s.len() == 0 {
        Seq::empty()
    } else if s.len() == 1 {
        seq![hex::digit_char(s[0] as nat)]
    } else {
        joined(s.drop_last()) + seq![',', hex::digit_char(s.last() as nat)]
    }
}

/// The text of a row: its symbols between square brackets, as in `[0,3,0]`.
pub open spec fn row_text(s: Seq<u8>) -> Seq<char> {
    seq!['['] + joined(s) + seq![']']
}

/// Positions that differ by the length of the row name the same cell.
pub proof fn lemma_circular(s: Seq<u8>, i: int)
    requires
        s.len() > 0,
    ensures
        cell(s, i) == cell(s, i + s.len()),
        cell(s, i) == cell(s, i - s.len()),
        0 <= i % (s.len() as int) < s.len(),
{
    let n = s.len() as int;
    lemma_mod_add_multiples_vanish(i, n);
    lemma_mod_sub_multiples_vanish(i, n);
    assert(i + n == n + i);
    assert(i - n == -n + i);
}

/// Every generation is a row of symbols, as long as the one before it.
pub proof fn lemma_step_symbols(s: Seq<u8>, rule: u64)
    ensures
        step(s, rule).len() == s.len(),
        symbols(step(s, rule)),
{
    assert forall|i: int| 0 <= i < s.len() implies #[trigger] step(s, rule)[i] < 4 by {
        crate::rule::lemma_output_is_symbol(
            rule,
            code(cell(s, i - 1), cell(s, i), cell(s, i + 1)),
        );
    }
}

/// The position in a row of `n` cells that the circular index `i` names.
fn wrap(i: i32, n: usize) -> (k: usize)
    requires
        n > 0,
    ensures
        k == (i as int) % (n as int),
        k < n,
{
    if i >= 0 {
        (i as usize) % n
    } else {
        let back = (-(i as i64)) as usize;
        let m = back % n;
        proof {
            let q = (back as int) / (n as int);
            lemma_fundamental_div_mod(back as int, n as int);
            assert(n * q == q * n) by (nonlinear_arith);
            if m == 0 {
                assert((-q) * n == -(q * n)) by (nonlinear_arith);
                lemma_fundamental_div_mod_converse(i as int, n as int, -q, 0);
            } else {
                assert((-q - 1) * n == -(q * n) - n) by (nonlinear_arith);
                lemma_fundamental_div_mod_converse(i as int, n as int, -q - 1, n - m);
            }
        }
        if m == 0 {
            0
        } else {
            n - m
        }
    }
}

/// A row of cells of fixed length, each holding a symbol from 0 to 3.
pub struct State {
    v: Vec<u8>,
}

impl View for State {
    type V = Seq<u8>;

    closed spec fn view(&self) -> Seq<u8> {
        self.v@
    }
}

impl State {
    /// The invariant of a row: every cell holds a symbol.
    pub open spec fn wf(&self) -> bool {
        symbols(self@)
    }

    /// A row of `n` cells that all hold 0.
    pub fn with_size(n: usize) -> (s: Self)
        ensures
            s.wf(),
            s@ == Seq::new(n as nat, |i: int| 0u8),
    {
        let s = Self { v: vec![0u8; n] };
        assert(s.v@ =~= Seq::new(n as nat, |i: int| 0u8));
        s
    }

    /// The symbol at the circular position `i`.
    pub fn get(&self, i: i32) -> (value: u8)
        requires
            self@.len() > 0,
        ensures
            value == cell(self@, i as int),
            self.wf() ==> value < 4,
    {
        self.v[wrap(i, self.v.len())]
    }

    /// The number of cells.
    pub fn len(&self) -> (n: usize)
        ensures
            n == self@.len(),
    {
        self.v.len()
    }

    /// Puts the symbol `value` at the circular position `i`.
    pub fn set(&mut self, i: i32, value: u8)
        requires
            old(self).wf(),
            old(self)@.len() > 0,
            value < 4,
        ensures
            final(self).wf(),
            final(self)@ == old(self)@.update((i as int) % (old(self)@.len() as int), value),
    {
        let n = self.len();
        let k = wrap(i, n);
        self.v.set(k, value);
    }

    /// The row as text, as in `[0,3,0]`.
    pub fn to_string(&self) -> (text: String)
        requires
            self.wf(),
        ensures
            text@ == row_text(self@),
    {
        proof {
            reveal_strlit("[");
            reveal_strlit("]");
        }
        let mut text = "[".to_owned();
        let n = self.v.len();
        for i in 0..n
            invariant
                n == self.v@.len(),
                symbols(self.v@),
                text@ == seq!['['] + joined(self.v@.take(i as int)),
        {
            if i > 0 {
                proof {
                    reveal_strlit(",");
                }
                text.append(",");
            }
            text.append(hex::digit_str(self.v[i] as u64));
            proof {
                let before = self.v@.take(i as int);
                let now = self.v@.take(i + 1);
                assert(now.drop_last() =~= before);
                assert(now.last() == self.v@[i as int]);
                let d = hex::digit_char(self.v@[i as int] as nat);
                if i == 0 {
                    assert(joined(before) =~= Seq::<char>::empty());
                    assert(joined(now) =~= seq![d]);
                } else {
                    assert(seq![','] + seq![d] =~= seq![',', d]);
                    assert(joined(now) =~= joined(before) + seq![',', d]);
                }
                assert(text@ =~= seq!['['] + joined(now));
            }
        }
        text.append("]");
        proof {
            assert(self.v@.take(n as int) =~= self.v@);
        }
        text
    }

    /// The next generation. The row itself stays as it is, and the result depends
    /// on the row and the rule alone.
    pub fn apply(&self, rule: Rule) -> (next: Self)
        requires
            self.wf(),
        ensures
            next.wf(),
            next@ == step(self@, rule@),
    {
        let n = self.v.len();
        let mut next: Vec<u8> = Vec::with_capacity(n);
        for i in 0..n
            invariant
                n == self.v@.len(),
                symbols(self.v@),
                next@.len() == i,
                forall|j: int| 0 <= j < i ==> #[trigger] next@[j] == step(self.v@, rule@)[j],
        {
            let left = if i == 0 {
                n - 1
            } else {
                i - 1
            };
            let right = if i + 1 == n {
                0
            } else {
                i + 1
            };
            let a = self.v[left];
            let b = self.v[i];
            let c = self.v[right];
            proof {
                let s = self.v@;
                lemma_fundamental_div_mod_converse(i as int, n as int, 0, i as int);
                if i == 0 {
                    lemma_fundamental_div_mod_converse(-1, n as int, -1, n - 1);
                } else {
                    lemma_fundamental_div_mod_converse(i - 1, n as int, 0, i - 1);
                }
                if i + 1 == n {
                    lemma_fundamental_div_mod_converse(i + 1, n as int, 1, 0);
                } else {
                    lemma_fundamental_div_mod_converse(i + 1, n as int, 0, i + 1);
                }
                assert(a == cell(s, i - 1) && b == cell(s, i as int) && c == cell(s, i + 1));
                lemma_code_bound(a, b, c);
            }
            next.push(rule.apply(a << 4 | b << 2 | c));
        }
        proof {
            lemma_step_symbols(self.v@, rule@);
            assert(next@ =~= step(self.v@, rule@));
        }
        Self { v: next }
    }
}

} // verus!
