//! Raw binary files of fixed-width IEEE-754 values: decoding, encoding and
//! reshaping into one- or two-dimensional arrays.
//!
//! A value is carried as its bit pattern, so what is decoded and encoded is
//! exact, whatever the bits stand for: `word` spells numbers as bytes in
//! either order, `codec` does so for whole sequences, `config` says what is
//! read of a file, `data`, `shape` and `base` hold values and their layout,
//! `grid` shows them as arrays, `random` frames files of random values and
//! `args` reads what is typed on a command line.

pub mod args;
pub mod base;
pub mod codec;
pub mod config;
pub mod data;
pub mod error;
pub mod grid;
pub mod random;
pub mod shape;
pub mod word;
