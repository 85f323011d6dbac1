//! Game rules of a side-scrolling dragon runner: a seeded pseudo-random
//! generator, the obstacle and jump rules, scoring, collision, and the
//! text frame that shows the playfield.

pub mod dragon;
pub mod frame;
pub mod input;
pub mod lcg;
pub mod rules;
pub mod text;
