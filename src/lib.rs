//! Algebraic permutation-based hashing over prime fields: arithmetic in the
//! 64-bit field `p = 2^64 - 2^32 + 1`, S-box and linear layers, the round
//! schedule, compression and a sponge-based XOF built on the permutation,
//! word and byte-buffer entry points, and buffer arithmetic modulo the
//! BN254 group order with its flystel S-box.

pub mod field;
pub mod nonlinear;
pub mod linear;
pub mod permutation;
pub mod sponge;
pub mod boundary;
pub mod bn254;
