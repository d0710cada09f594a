//! Drill logic for practising Invoker's skill combinations: a round asks for ten
//! randomly chosen skills, the player types the orb keys (Q = ice, W = light,
//! E = fire) and confirms each attempt with R.

pub mod game;
pub mod random;
pub mod skills;
