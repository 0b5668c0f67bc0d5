//! Hardware abstraction layer of a small kernel, with machine-checked contracts.
//!
//! Devices are reached through a register bus. Every driver states, over the
//! history of accesses on that bus, exactly which registers it touches and in
//! which order.

pub mod ai_subsystem;
pub mod baud;
pub mod console;
pub mod hal;
pub mod mmio;
pub mod platform;
pub mod shell;
pub mod sim;
pub mod uart;
