//! Synthetic noise signal generation: white, pink and brown noise, produced
//! block by block in bounded memory, quantized for a 16-bit PCM sink.
//!
//! Samples travel as IEEE-754 binary32 bit patterns (`u32`); the arithmetic
//! behind them is specified in [`fbits`].

pub mod config;
pub mod entropy;
pub mod fbits;
pub mod noise;
pub mod quant;
pub mod stream;
