//! A falling-sand cellular automaton: a grid of particles that fall one row
//! per tick, leave a fading heat trail, and can be painted along lines.

pub mod grid;
pub mod line;
pub mod particle;
pub mod seed;
