//! Readers for a family of legacy game-engine binary assets: map files,
//! unit/item databases, sprites, WAV sound, a registry blob, and a
//! Smacker-family video container.  The video decoder (bit reader, adaptive
//! prefix trees with a most-recently-used escape cache, block-based frame
//! decode, delta-coded palette) is the algorithmic core; the remaining
//! modules are flat record deserializers over in-memory byte buffers.

pub mod errors;
pub mod byte_stream;
pub mod bit_reader;
pub mod huffman;
pub mod smacker;
pub mod video;
pub mod shared_types;
pub mod alm;
pub mod data_bin;
pub mod images;
pub mod wavefile;
pub mod regfile;
