//! Systematic BCH outer encoding for second-generation satellite broadcast
//! frames: GF(2) polynomial arithmetic, the standardised generator
//! polynomials, a word-packed division register, and a streaming encoder
//! that works in whole frames.
pub mod config;
pub mod poly;
pub mod division;
pub mod shift_reg;
pub mod bch_code;
pub mod bch_encoder;
