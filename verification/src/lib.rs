//! The code-talker stack rebuilt on modern primitives, with every layer
//! independently switchable, so a reader can find out which one was
//! load-bearing.

pub mod aead;
pub mod bytes;
mod entropy;
pub mod error;
pub mod explain;
pub mod handshake;
pub mod identity;
pub mod kdf;
pub mod kem;
pub mod lab;
pub mod ratchet;
pub mod session;
pub mod threat;
pub mod transcript;
pub mod transport;
pub mod wire;

pub use error::{Error, Result};
pub use session::{adversary, establish, exchange, Channel, Exchange, Frame, Layers, Recovery};
