//! Cryptographic erasure of block devices: the staged wipe pipeline, its
//! progress contract, device discovery and unmount planning, and the
//! completion certificate.

pub mod text;
pub mod identity;
pub mod overwrite;
pub mod device;
pub mod unmount;
pub mod keygen;
pub mod certificate;
pub mod registry;
pub mod readback;
pub mod session;
pub mod cli;
pub mod demo;
