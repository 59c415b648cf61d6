//! Core arithmetic of the ChaCha20 stream cipher together with a small
//! counter-mode lane codec: the quarter-round mixing function, the 8/12/20
//! double-round schedule with feed-forward and little-endian serialization,
//! and 16-bit counter "flavors" that merge a running counter with a fixed
//! nonce into the input block of a block-generation function.

pub mod chacha;
pub mod ctr16;
pub mod endian;
