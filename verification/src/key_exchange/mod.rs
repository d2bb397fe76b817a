//! The key exchange protocols of the login step and what they share.
pub mod group;
pub mod shared;
pub mod tripledh;
pub mod sigma_i;
