//! Core of an interpolation-grid library for particle-physics cross sections: particle
//! identifier algebra, channel bookkeeping for scale evolution, command-line argument parsing and
//! the section structure of legacy FK-table files.

pub mod pids;
pub mod text;
pub mod args;
pub mod order;
pub mod evolution;
pub mod fktable;
