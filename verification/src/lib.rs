//! Deterministic generative art from a one-dimensional cellular automaton over
//! four symbols, coloured by palettes drawn from a theme store.

pub mod color;
pub mod driver;
pub mod hex;
pub mod rng;
pub mod rule;
pub mod seed;
pub mod state;
pub mod themes;

pub use color::Color;
pub use rule::Rule;
pub use seed::Seed;
pub use state::State;
pub use themes::Themes;
