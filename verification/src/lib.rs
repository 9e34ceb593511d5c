//! DropAir's verified core: shelf bookkeeping, settings normalisation,
//! shake detection and the LAN discovery/transfer wire format.

pub mod text;
pub mod shake_shelf;
pub mod windows_shelf;
pub mod settings;
pub mod shelf;
pub mod transfer;
