//! Quantization step tables for a DCT-based image encoder.

pub mod quantization;

pub use quantization::{QuantizationTable, QuantizationTableType};
