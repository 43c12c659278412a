//! Encoders: each turns the operands of one operation into steps of a command stream.

pub mod broadcast;
pub mod conv;
pub mod elementwise;
pub mod grouped;
pub mod norm;
pub mod quant;
pub mod recurrent;
pub mod reduce;
pub mod shape;
pub mod synth;
