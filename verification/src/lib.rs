//! Verified core of a serial console for a solid-state power amplifier
//! controller: the packet format exchanged with the controller board, its
//! decimal line framing, the register/signal panel that the operator drives
//! from the keyboard, and the reader that skips the serial terminal's banner.

pub mod packet;
pub mod wire;
pub mod panel;
pub mod panel_laws;
pub mod link;
pub mod view;
