//! One run: the seed gives a pseudo-random stream, the stream gives a theme and,
//! where none was asked for, a rule; then the automaton is stepped row by row, and
//! each row names the squares that a renderer has to fill.

use crate::color::Color;
use crate::rng;
use crate::rule::Rule;
use crate::seed::Seed;
use crate::state::{cell, step, symbols, State};
use crate::themes::{is_palette, record_count, Themes};
use vstd::arithmetic::div_mod::lemma_fundamental_div_mod_converse;
use vstd::prelude::*;

verus! {

/// The symbol of the single cell that is set in the first row.
pub const SEED_SYMBOL: u8 = 3;

/// What a run has settled once its stream was consulted.
pub struct Setup {
    /// The index of the theme that was drawn.
    pub theme: usize,
    /// The five colours of that theme.
    pub colors: Vec<Color>,
    /// The rule of the run.
    pub rule: Rule,
}

/// A square that a renderer fills, in the colour that its symbol indexes.
#[derive(Clone, Copy, Debug, PartialEq, Eq, Structural)]
pub struct Cell {
    /// The left edge.
    pub x: i32,
    /// The upper edge.
    pub y: i32,
    /// The length of a side.
    pub size: i32,
    /// The symbol of the cell, from 1 to 3: an index into the palette.
    pub symbol: u8,
}

/// The length in pixels of `count` cells of side `cell_size`, with a line of one
/// pixel before, between and after them.
pub open spec fn extent(count: int, cell_size: int) -> int {
    count * cell_size + count + 1
}

/// The pixel at which the cell with the given index begins.
pub open spec fn offset(index: int, cell_size: int) -> int {
    index * (cell_size + 1) + 1
}

/// The geometries that a run accepts: at least one column, no negative measure,
/// and an image whose width and height fit in 32 bits.
pub open spec fn valid_geometry(rows: int, cols: int, cell_size: int) -> bool {
    &&& rows >= 0
    &&& cols >= 1
    &&& cell_size >= 0
    &&& extent(rows, cell_size) <= i32::MAX
    &&& extent(cols, cell_size) <= i32::MAX
}

/// The first row: zeros, but for the seed symbol at the midpoint.
pub open spec fn first_row(cols: int) -> Seq<u8> {
    Seq::new(cols as nat, |i: int| 0u8).update(cols / 2, SEED_SYMBOL)
}

/// The square of column `i` in the given row.
pub open spec fn square(i: int, row: int, cell_size: int, symbol: u8) -> Cell {
    Cell {
        x: offset(i, cell_size) as i32,
        y: offset(row, cell_size) as i32,
        size: cell_size as i32,
        symbol,
    }
}

/// The squares to fill for the first `n` cells of the row `s`, from left to right:
/// one for each cell that does not hold 0.
pub open spec fn painted(s: Seq<u8>, row: int, cell_size: int, n: int) -> Seq<Cell>
    decreases n,
{
    if n <= 0 {
        Seq::empty()
    } else if s[n - 1] == 0 {
        painted(s, row, cell_size, n - 1)
    } else {
        painted(s, row, cell_size, n - 1).push(square(n - 1, row, cell_size, s[n - 1]))
    }
}

/// The rule of a run: the one that was asked for, else the one that was drawn.
pub fn resolve_rule(given: Option<Rule>, drawn: u64) -> (rule: Rule)
    ensures
        rule@ == match given {
            Some(r) => r@,
            None => drawn,
        },
{
    match given {
        Some(r) => r,
        None => Rule::new(drawn),
    }
}

/// Seeds the stream of a run and takes from it the theme and then a rule, which
/// stands where `rule` names none. A store without records gives `None`.
pub fn configure(seed: Seed, themes: &Themes, rule: Option<Rule>) -> (r: Option<Setup>)
    ensures
        r is Some <==> record_count(themes@) > 0,
        match r {
            Some(s) => {
                &&& s.theme < record_count(themes@)
                &&& is_palette(s.colors@, themes@, s.theme as int)
                &&& rule is Some ==> s.rule@ == rule.unwrap()@
            },
            None => true,
        },
{
    if themes.is_empty() {
        return None;
    }
    let mut stream = rng::seeded(seed.value());
    let (theme, colors) = themes.pick(&mut stream);
    let drawn = rng::next_u64(&mut stream);
    Some(Setup { theme, colors, rule: resolve_rule(rule, drawn) })
}

/// The model of a run in progress.
pub struct RunView {
    /// The row that is painted next.
    pub state: Seq<u8>,
    /// The table of the rule.
    pub rule: u64,
    /// The index of that row.
    pub row: int,
    /// The number of rows of the whole run.
    pub rows: int,
    /// The side of a cell in pixels.
    pub cell_size: int,
}

impl RunView {
    /// The invariant of a run: a valid geometry, a row of symbols, and no more rows
    /// done than there are.
    pub open spec fn wf(self) -> bool {
        &&& valid_geometry(self.rows, self.state.len() as int, self.cell_size)
        &&& symbols(self.state)
        &&& 0 <= self.row <= self.rows
    }
}

/// A run in progress: the current row and what is needed to paint and advance it.
pub struct Run {
    state: State,
    rule: Rule,
    row: i32,
    rows: i32,
    cell_size: i32,
}

impl View for Run {
    type V = RunView;

    closed spec fn view(&self) -> RunView {
        RunView {
            state: self.state@,
            rule: self.rule@,
            row: self.row as int,
            rows: self.rows as int,
            cell_size: self.cell_size as int,
        }
    }
}

/// Within a valid extent, every index has an offset that fits in 32 bits.
proof fn lemma_offset_fits(i: int, count: int, cell_size: int)
    by (nonlinear_arith)
    requires
        0 <= i < count,
        cell_size >= 0,
        extent(count, cell_size) <= i32::MAX,
    ensures
        1 <= offset(i, cell_size) <= i32::MAX,
        offset(i, cell_size) + cell_size <= extent(count, cell_size),
{
}

/// The extent of `count` cells where it fits in 32 bits.
fn checked_extent(count: i32, cell_size: i32) -> (r: Option<i32>)
    requires
        count >= 0,
        cell_size >= 0,
    ensures
        match r {
            Some(e) => e == extent(count as int, cell_size as int),
            None => extent(count as int, cell_size as int) > i32::MAX,
        },
{
    let c = count as i64;
    let s = cell_size as i64;
    assert(0 <= c * s <= 0x7fff_ffff * 0x7fff_ffff) by (nonlinear_arith)
        requires
            0 <= c <= 0x7fff_ffff,
            0 <= s <= 0x7fff_ffff,
    ;
    let e = c * s + c + 1;
    if e > i32::MAX as i64 {
        None
    } else {
        Some(e as i32)
    }
}

/// The extent of `count` cells, which is known to fit.
fn extent_of(count: i32, cell_size: i32) -> (e: i32)
    requires
        count >= 0,
        cell_size >= 0,
        extent(count as int, cell_size as int) <= i32::MAX,
    ensures
        e == extent(count as int, cell_size as int),
{
    assert(0 <= count * cell_size) by (nonlinear_arith)
        requires
            count >= 0,
            cell_size >= 0,
    ;
    count * cell_size + count + 1
}

impl Run {
    /// The invariant of a run.
    pub open spec fn wf(&self) -> bool {
        self@.wf()
    }

    /// A run before its first row, or `None` where the geometry is not valid.
    pub fn new(rows: i32, cols: i32, cell_size: i32, rule: Rule) -> (r: Option<Self>)
        ensures
            r is Some <==> valid_geometry(rows as int, cols as int, cell_size as int),
            match r {
                Some(run) => run.wf() && run@ == (RunView {
                    state: first_row(cols as int),
                    rule: rule@,
                    row: 0,
                    rows: rows as int,
                    cell_size: cell_size as int,
                }),
                None => true,
            },
    {
        if rows < 0 || cols < 1 || cell_size < 0 {
            return None;
        }
        if checked_extent(rows, cell_size).is_none() || checked_extent(cols, cell_size).is_none() {
            return None;
        }
        let mut state = State::with_size(cols as usize);
        state.set(cols / 2, SEED_SYMBOL);
        proof {
            lemma_fundamental_div_mod_converse(cols as int / 2, cols as int, 0, cols as int / 2);
            assert(state@ =~= first_row(cols as int));
        }
        Some(Run { state, rule, row: 0, rows, cell_size })
    }

    /// The width of the image in pixels.
    pub fn width(&self) -> (w: i32)
        requires
            self.wf(),
        ensures
            w == extent(self@.state.len() as int, self@.cell_size),
    {
        let cols = self.state.len() as i32;
        extent_of(cols, self.cell_size)
    }

    /// The height of the image in pixels.
    pub fn height(&self) -> (h: i32)
        requires
            self.wf(),
        ensures
            h == extent(self@.rows, self@.cell_size),
    {
        extent_of(self.rows, self.cell_size)
    }

    /// Gives the squares to fill for the current row and advances to the next
    /// generation; `None`, and no change, once every row was given.
    pub fn next_row(&mut self) -> (r: Option<Vec<Cell>>)
        requires
            old(self).wf(),
        ensures
            final(self).wf(),
            match r {
                Some(cells) => {
                    &&& old(self)@.row < old(self)@.rows
                    &&& cells@ == painted(
                        old(self)@.state,
                        old(self)@.row,
                        old(self)@.cell_size,
                        old(self)@.state.len() as int,
                    )
                    &&& final(self)@ == (RunView {
                        state: step(old(self)@.state, old(self)@.rule),
                        row: old(self)@.row + 1,
                        ..old(self)@
                    })
                },
                None => old(self)@.row >= old(self)@.rows && final(self)@ == old(self)@,
            },
    {
        if self.row >= self.rows {
            return None;
        }
        let cols = self.state.len() as i32;
        let size = self.cell_size;
        proof {
            lemma_offset_fits(self.row as int, self.rows as int, size as int);
        }
        let y = self.row * (size + 1) + 1;
        let mut cells: Vec<Cell> = Vec::new();
        for i in 0..cols
            invariant
                self.wf(),
                *self == *old(self),
                cols == self.state@.len(),
                size == self.cell_size,
                y == offset(self.row as int, size as int),
                cells@ == painted(self.state@, self.row as int, size as int, i as int),
        {
            proof {
                lemma_offset_fits(i as int, cols as int, size as int);
                lemma_fundamental_div_mod_converse(i as int, cols as int, 0, i as int);
            }
            let symbol = self.state.get(i);
            if symbol != 0 {
                let x = i * (size + 1) + 1;
                cells.push(Cell { x, y, size, symbol });
            }
        }
        self.state = self.state.apply(self.rule);
        self.row = self.row + 1;
        Some(cells)
    }
}

} // verus!
