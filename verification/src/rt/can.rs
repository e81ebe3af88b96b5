//! Receive policy of the interrupt-driven CAN driver: how one
//! FIFO-pending interrupt drains the hardware receive FIFO.

use vstd::prelude::*;
use crate::canopen::frame::Frame;

verus! {

/// Receives one FIFO-pending interrupt performs at most.
pub const DRAIN_MAX: u32 = 8;

/// What one receive from the hardware FIFO gave.
#[derive(Clone, Copy, Debug)]
pub enum RxOutcome {
    /// A frame, as the CANopen layer sees it (`None`: an extended or remote
    /// frame, which it does not use).
    Received(Option<Frame>),
    /// The FIFO is empty.
    Empty,
    /// The FIFO overran and lost a frame.
    Overrun,
}

/// What the interrupt does after one receive.
#[derive(Clone, Copy, Debug)]
pub struct DrainStep {
    /// The frame to queue for the CANopen layer, if any.
    pub deliver: Option<Frame>,
    /// Whether to receive again.
    pub again: bool,
}

/// One receive of the drain, `taken` receives having been made before it
/// (`taken < DRAIN_MAX`): queue a received standard data frame, skip an
/// extended or remote one and an overrun, and receive again until the FIFO
/// is empty or [`DRAIN_MAX`] receives have been made.
pub fn drain_step(taken: u32, outcome: RxOutcome) -> (r: DrainStep)
    requires
        taken < DRAIN_MAX,
    ensures
        outcome matches RxOutcome::Empty ==> r.deliver is None && !r.again,
        outcome matches RxOutcome::Overrun ==> r.deliver is None && r.again == (taken + 1 < DRAIN_MAX),
        outcome matches RxOutcome::Received(f) ==> r.deliver == f && r.again == (taken + 1 < DRAIN_MAX),
{
    let again = taken + 1 < DRAIN_MAX;
    match outcome {
        RxOutcome::Received(f) => DrainStep { deliver: f, again },
        RxOutcome::Empty => DrainStep { deliver: None, again: false },
        RxOutcome::Overrun => DrainStep { deliver: None, again },
    }
}

} // verus!
