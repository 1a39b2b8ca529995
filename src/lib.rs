//! Typed construction, submission and tracking of NFT-pallet extrinsics.
//!
//! - [`codec`]: named capability flags to and from their fixed-width wire bits.
//! - [`payload`]: call payloads checked against a versioned runtime schema.
//! - [`tracker`]: the status state machine of one submitted transaction.
mod codec_bits;

pub mod codec;
pub mod payload;
pub mod tracker;
pub mod nfts;
pub mod submission;
