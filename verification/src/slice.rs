//! How a task's slice ends.

use vstd::prelude::*;

use crate::ipc::{IpcError, MSG_MAX};

verus! {

/// How a slice ends.
#[derive(Debug, Clone, Copy, PartialEq, Eq, Structural)]
pub enum SliceEnd {
    /// The task yields.
    Yield,
    /// The task asks to be killed and restarted.
    Fault,
    /// The task found the protocol broken: a kernel bug. The machine halts.
    Panic(Bug),
}

/// What a task found broken.
#[derive(Debug, Clone, Copy, PartialEq, Eq, Structural)]
pub enum Bug {
    /// The reply to the ping with this number is not its pong.
    BadReply(u32),
    /// A message of this length is not a ping.
    MalformedPing(usize),
    /// The GPIO capsule refused to configure the LED pin.
    GpioConfigure,
    /// The GPIO capsule refused to drive the LED pin.
    GpioOp,
    /// The LED capsule refused to toggle.
    LedToggle,
    /// A call to the partner failed.
    Call(IpcError),
    /// A call to the GPIO capsule failed.
    GpioCall(IpcError),
    /// A call to the LED capsule failed.
    LedCall(IpcError),
    /// A call to the UART capsule failed.
    UartCall(IpcError),
    Recv(IpcError),
    Reply(IpcError),
    /// The reply to a bad request failed.
    ErrorReply(IpcError),
    Notify(IpcError),
    Wait(IpcError),
}

/// A message buffer full of zeros.
pub open spec fn zeros() -> Seq<u8> {
    Seq::new(MSG_MAX as nat, |i: int| 0u8)
}

} // verus!
