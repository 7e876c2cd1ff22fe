//! Decoding of the byte stream that a touch and stylus sensor device emits:
//! frame reassembly over short reads, and the layered records inside a frame.

pub mod chunk;
pub mod event;
pub mod heatmap;
pub mod interface;
pub mod payload;
pub mod reassembler;
pub mod stylus;
pub mod touch;
pub mod wire;
