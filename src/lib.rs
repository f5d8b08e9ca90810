//! Signed, serialisable pre-key records ("key packages") for asynchronous
//! group membership: a canonical binary codec, an extension framework with
//! unique type tags, signature verification per ciphersuite, and the bundle
//! that pairs a fresh private key with its signed public record.
pub mod ciphersuite;
pub mod codec;
pub mod credentials;
pub mod extensions;
pub mod key_packages;
pub mod crypto;
