//! Game Boy / Game Boy Color and Game Boy Advance emulation library.
//!
//! The modules hold the machine models (CPUs, memory buses, cartridge bank
//! controllers, picture and sound units), the cheat-code decoders and the
//! input state helpers. Every function states its behaviour in its contract.
pub mod bits;
pub mod button;
pub(crate) mod clock;
pub mod cheats;
pub mod gbc;
pub mod input;
pub mod library;
pub mod gba;
