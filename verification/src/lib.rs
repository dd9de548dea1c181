//! Data model and binary codec for a hardware drum-sequencer template.
//!
//! A template is a [`DrumGen`] pattern: four parts, each a [`DrumGenLayer`]
//! of three velocity tiers, each tier a [`DrumGenSequence`] of 32 probability
//! steps. The codec packs each sequence into 16 bytes (two 4-bit steps per
//! byte), a layer into 48 bytes and a whole pattern into 192 bytes. All
//! transform operations (randomize, shift, add, repeat, clear, step
//! assignment) mutate sequences in place and are specified exactly.

pub mod error;
pub mod laws;
pub mod layer;
pub mod pattern;
pub mod random;
pub mod sequence;

pub use error::DrumGenError;
pub use layer::DrumGenLayer;
pub use pattern::DrumGen;
pub use sequence::DrumGenSequence;
pub use random::ThreadRandom;
pub use random::UniformSource;
