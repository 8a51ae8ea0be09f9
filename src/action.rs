use vstd::prelude::*;

verus! {

/// A write to a port's set/reset register: pins in `set_mask` go high, pins
/// in `reset_mask` go low.
#[derive(Clone, Copy, PartialEq, Eq, Structural, Debug)]
pub struct PinWrite {
    pub port: u8,
    pub set_mask: u16,
    pub reset_mask: u16,
}

/// What a GPIO pin is connected to.
#[derive(Clone, Copy, PartialEq, Eq, Structural, Debug)]
pub enum GpioMode {
    /// Plain input: high impedance.
    Input,
    /// Plain output, driven at its output level.
    Output,
    /// Handed to a peripheral through an alternate function.
    Alternate,
}

/// Reconfiguration of some pins of one port. The electrical settings not
/// named here are always push-pull, high speed and no pull resistor.
#[derive(Clone, Copy, PartialEq, Eq, Structural, Debug)]
pub struct PinConfig {
    pub port: u8,
    pub pin_mask: u16,
    pub mode: GpioMode,
    /// Alternate-function number; it only matters in `Alternate` mode.
    pub af: u8,
}

/// One thing for the hardware to do, as decided by the library.
///
/// Actions whose name starts with `Query`, or that are `CheckOverrun` or
/// `CheckEot`, ask a yes/no question, answered with `Event::Ready`;
/// `Receive` is answered with `Event::Received`; every other action is
/// answered with `Event::Ack` once performed.
#[derive(Clone, Copy, PartialEq, Eq, Structural, Debug)]
pub enum Action {
    /// Drive routing pins high or low.
    SetPins(PinWrite),
    /// Reconfigure pins.
    Configure(PinConfig),
    /// Drive a chip-select line (active low).
    ChipSelect(PinWrite),
    /// Set whether the controller swaps its data lines.
    SetDataLineSwap(bool),
    /// Enable the controller for a transaction of `len` bytes.
    Enable { len: u16, clock_divider: u8 },
    /// Start the transaction.
    Start,
    /// Clear the end-of-transaction flag.
    ClearEot,
    /// Enable the transfer interrupts.
    EnableTransferInterrupts,
    /// Is there room in the transmit FIFO for a frame?
    QueryTxFrame,
    /// Put one byte in the transmit FIFO.
    Send(u8),
    /// Stop taking transmit-ready interrupts.
    DisableTxInterrupt,
    /// Is there a byte in the receive FIFO?
    QueryRxByte,
    /// Take one byte out of the receive FIFO.
    Receive,
    /// Has the receive FIFO overrun?
    CheckOverrun,
    /// Suspend until the controller's interrupt fires.
    WaitForInterrupt,
    /// Is the end-of-transaction flag set?
    CheckEot,
    /// End the transaction.
    End,
    /// The transfer is over and succeeded; nothing more to do.
    Complete,
    /// The hardware broke the transfer's invariants (a FIFO overrun, or a byte
    /// received that was never sent): the task must halt.
    Halt,
}

/// What the hardware reports back after an action.
#[derive(Clone, Copy, PartialEq, Eq, Structural, Debug)]
pub enum Event {
    /// The action was performed; it has no answer.
    Ack,
    /// The answer to a yes/no question.
    Ready(bool),
    /// The byte taken out of the receive FIFO.
    Received(u8),
}

} // verus!
