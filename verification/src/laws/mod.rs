//! What the encoded streams do: which kernel runs, what it is handed, and what it covers.

pub mod attention;
pub mod broadcasting;
pub mod caches;
pub mod choices;
pub mod conv;
pub mod dequant;
pub mod elementwise;
pub mod execution;
pub mod graphs;
pub mod mps;
pub mod norm;
pub mod numbers;
pub mod numerals;
pub mod packed;
pub mod plans;
pub mod pointwise;
pub mod products;
pub mod recurrent;
pub mod reduce;
pub mod scratch;
pub mod segments;
pub mod settings;
pub mod shape;
pub mod switches;
pub mod synth;
pub mod texts;
pub mod transforms;
pub mod transposes;
