//! Core of a minimal interactive console: an interrupt-safe scancode bridge
//! (a bounded queue plus an idempotent wake-up slot) and a dual-screen text
//! console that mirrors the selected screen into a display-ordered byte
//! buffer.

pub mod keyboard;
pub mod smol_script;
pub mod vga_buffer;
