//! BitSong NFT collection logic: royalty payouts, contributor registries
//! and the planning side of the deployment scripts.

pub mod msg;
pub mod text;
pub mod royalties;
pub mod deploy;
pub mod account;
