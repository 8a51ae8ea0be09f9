//! Arbitration and transfer engine for one SPI controller shared by several
//! devices: configuration checking, pin-mux routing, an exclusive lock with
//! crash recovery, and the byte pump that drives a transfer to completion.
//!
//! The library decides; it never touches hardware. Every hardware effect is
//! handed to the caller as an `Action`, and every hardware observation comes
//! back as an `Event`.

pub mod action;
pub mod config;
pub mod mux;
pub mod pins;
pub mod server;
pub mod transfer;

pub use action::{Action, Event, GpioMode, PinConfig, PinWrite};
pub use config::{
    check_server_config, pin_count, DeviceDescriptor, PinGroup, PinSet, ServerConfig, SpiMuxOption,
};
pub use mux::{activate_mux_option, deactivate_mux_option};
pub use pins::PinState;
pub use server::{CsState, LockState, Server, SpiError, TaskId};
pub use transfer::{Transfer, TX_PERMITS};
