//! Runtime backend selection for a native acceleration engine.
//!
//! Given one host machine, the library decides which compute device to use
//! (CPU at a detected instruction-set tier, CUDA GPU, or Metal GPU), which
//! pre-built backend variants on disk are usable by that device, in which
//! order they should be attempted, and which three shared-library files each
//! attempt must load. The decisions are pure functions of plain values; the
//! probing, directory scanning and dynamic loading that feed them live
//! outside the library.

pub mod capability;
pub mod device;
pub mod error;
pub mod loader;
pub mod matcher;
pub mod options;
pub mod probe;
pub mod prompt;
pub mod strutil;
pub mod variant;
pub mod version;
pub mod vocab;
