//! Signing of partially signed Bitcoin transaction inputs with hierarchical
//! deterministic keys, and the framing helpers of the hardware wallet model.

pub mod keys;
pub mod psbt;
pub mod crypto;
pub mod sighash;
pub mod signer;
pub mod derived;
pub mod aggregate;
pub mod laws;
pub mod emulator;
pub mod write_buffer;
pub mod flash;
pub mod encryption;
pub mod reg;
