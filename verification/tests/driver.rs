use ca1::driver::{configure, resolve_rule, Cell, Run};
use ca1::{Rule, Seed, Themes};
use rand::distributions::{Distribution, Uniform};
use rand::{Rng, SeedableRng};
use rand_pcg::Pcg64;

fn store(records: u8) -> Themes {
    let mut bytes = Vec::new();
    for i in 0..records {
        for k in 0..5u8 {
            bytes.extend_from_slice(&[0, i, k, i.wrapping_add(k)]);
        }
    }
    Themes::from_bytes(bytes)
}

#[test]
fn resolve_rule_prefers_the_given_rule() {
    assert_eq!(resolve_rule(Some(Rule::new(7)), 9).to_string(), "7");
    assert_eq!(resolve_rule(None, 9).to_string(), "9");
    assert_eq!(resolve_rule(None, u64::MAX).to_string(), "ffffffffffffffff");
}

#[test]
fn configure_needs_a_record() {
    assert!(configure(Seed::new(1), &store(0), None).is_none());
    assert!(configure(Seed::new(1), &store(1), None).is_some());
}

#[test]
fn configure_draws_theme_then_rule_from_the_seeded_stream() {
    let themes = store(50);
    for seed in [0u64, 1, 255, 0xdead_beef, u64::MAX] {
        let setup = configure(Seed::new(seed), &themes, None).unwrap();
        let mut rng = Pcg64::seed_from_u64(seed);
        let theme = Uniform::new(0, themes.len()).sample(&mut rng);
        let rule: u64 = rng.gen();
        assert_eq!(setup.theme, theme);
        assert_eq!(setup.rule.to_string(), format!("{:x}", rule));
        let expected = themes.get(theme).unwrap();
        assert_eq!(setup.colors.len(), 5);
        for k in 0..5 {
            assert_eq!(setup.colors[k].to_string(), expected[k].to_string());
        }
    }
}

#[test]
fn configure_keeps_a_given_rule() {
    let themes = store(9);
    let setup = configure(Seed::new(3), &themes, Some(Rule::new(0x1e))).unwrap();
    assert_eq!(setup.rule.to_string(), "1e");
    assert!(setup.theme < 9);
    let again = configure(Seed::new(3), &themes, None).unwrap();
    assert_eq!(setup.theme, again.theme);
}

#[test]
fn configure_is_reproducible() {
    let themes = store(200);
    let a = configure(Seed::new(77), &themes, None).unwrap();
    let b = configure(Seed::new(77), &themes, None).unwrap();
    assert_eq!(a.theme, b.theme);
    assert_eq!(a.rule.to_string(), b.rule.to_string());
}

#[test]
fn run_refuses_invalid_geometry() {
    let rule = Rule::new(0);
    assert!(Run::new(10, 0, 6, rule).is_none());
    assert!(Run::new(10, -1, 6, rule).is_none());
    assert!(Run::new(-1, 10, 6, rule).is_none());
    assert!(Run::new(10, 10, -1, rule).is_none());
    assert!(Run::new(10, i32::MAX, 0, rule).is_none());
    assert!(Run::new(i32::MAX, 10, 0, rule).is_none());
    assert!(Run::new(10, 1 << 16, 1 << 15, rule).is_none());
    assert!(Run::new(0, 1, 0, rule).is_some());
    assert!(Run::new(1000, 100, 6, rule).is_some());
}

#[test]
fn run_measures_the_image() {
    let run = Run::new(1000, 100, 6, Rule::new(0)).unwrap();
    assert_eq!(run.width(), 100 * 6 + 100 + 1);
    assert_eq!(run.height(), 1000 * 6 + 1000 + 1);
    let small = Run::new(0, 1, 0, Rule::new(0)).unwrap();
    assert_eq!((small.width(), small.height()), (2, 1));
    let largest = Run::new(0, i32::MAX - 1, 0, Rule::new(0));
    assert!(largest.is_none() || largest.unwrap().width() == i32::MAX);
}

#[test]
fn run_starts_with_the_seed_cell_at_the_midpoint() {
    let mut run = Run::new(1, 7, 6, Rule::new(0)).unwrap();
    let cells = run.next_row().unwrap();
    assert_eq!(cells, vec![Cell { x: 3 * 7 + 1, y: 1, size: 6, symbol: 3 }]);
    assert_eq!(run.next_row(), None);
    let mut even = Run::new(1, 8, 2, Rule::new(0)).unwrap();
    assert_eq!(even.next_row().unwrap(), vec![Cell { x: 4 * 3 + 1, y: 1, size: 2, symbol: 3 }]);
    let mut one = Run::new(1, 1, 5, Rule::new(0)).unwrap();
    assert_eq!(one.next_row().unwrap(), vec![Cell { x: 1, y: 1, size: 5, symbol: 3 }]);
}

#[test]
fn run_gives_each_row_once_and_then_stops() {
    let mut run = Run::new(3, 7, 6, Rule::new(u64::MAX)).unwrap();
    let first = run.next_row().unwrap();
    assert_eq!(first.len(), 1);
    let second = run.next_row().unwrap();
    assert_eq!(second.len(), 7);
    for (i, cell) in second.iter().enumerate() {
        assert_eq!(*cell, Cell { x: i as i32 * 7 + 1, y: 8, size: 6, symbol: 3 });
    }
    let third = run.next_row().unwrap();
    assert_eq!(third.len(), 7);
    for (i, cell) in third.iter().enumerate() {
        assert_eq!(*cell, Cell { x: i as i32 * 7 + 1, y: 15, size: 6, symbol: 1 });
    }
    assert_eq!(run.next_row(), None);
    assert_eq!(run.next_row(), None);
}

#[test]
fn run_with_the_empty_rule_dies_out() {
    let mut run = Run::new(4, 9, 1, Rule::new(0)).unwrap();
    assert_eq!(run.next_row().unwrap().len(), 1);
    assert_eq!(run.next_row().unwrap(), vec![]);
    assert_eq!(run.next_row().unwrap(), vec![]);
    assert_eq!(run.next_row().unwrap(), vec![]);
    assert_eq!(run.next_row(), None);
}

#[test]
fn run_without_rows_gives_nothing() {
    let mut run = Run::new(0, 5, 3, Rule::new(1)).unwrap();
    assert_eq!(run.next_row(), None);
}

#[test]
fn run_skips_background_cells_and_keeps_the_order() {
    let table: u64 = 0x0123_4567_89ab_cdef;
    let mut run = Run::new(6, 11, 4, Rule::new(table)).unwrap();
    let mut state = ca1::State::with_size(11);
    state.set(5, 3);
    for row in 0..6 {
        let cells = run.next_row().unwrap();
        let mut expected = Vec::new();
        for i in 0..11 {
            let symbol = state.get(i);
            if symbol != 0 {
                expected.push(Cell { x: i * 5 + 1, y: row * 5 + 1, size: 4, symbol });
            }
        }
        assert_eq!(cells, expected);
        state = state.apply(Rule::new(table));
    }
    assert_eq!(run.next_row(), None);
}
