//! The pair of chained interrupt controllers.

use vstd::prelude::*;

verus! {

/// Command sent to begin PIC initialization.
pub const CMD_INIT: u8 = 0x11;

/// Command sent to acknowledge an interrupt.
pub const CMD_END_OF_INTERRUPT: u8 = 0x20;

/// The mode in which we want to run our PICs.
pub const MODE_8086: u8 = 0x01;

/// An individual PIC chip.
#[derive(Debug, PartialEq, Eq, Structural, Clone, Copy)]
pub struct Pic {
    /// The base offset to which our interrupts are mapped.
    pub offset: u8,
}

impl Pic {
    /// Whether the chip handles the interrupt: it handles the eight
    /// interrupts from its offset on.
    pub open spec fn handles(&self, interrupt_id: u8) -> bool {
        self.offset <= interrupt_id < self.offset + 8
    }

    /// Are we in charge of handling the specified interrupt?
    /// (Each PIC handles 8 interrupts.)
    pub fn does_handle_interrupt(&self, interrupt_id: u8) -> (r: bool)
        ensures
            r == self.handles(interrupt_id),
    {
        self.offset <= interrupt_id && interrupt_id - self.offset < 8
    }
}

/// A pair of chained PIC controllers. This is the standard setup on x86.
#[derive(Debug, PartialEq, Eq, Structural, Clone, Copy)]
pub struct ChainedPics {
    pub master: Pic,
    pub slave: Pic,
}

/// Which of the two chips are to be told that an interrupt has been handled.
#[derive(Debug, PartialEq, Eq, Structural, Clone, Copy)]
pub struct EndOfInterrupt {
    pub master: bool,
    pub slave: bool,
}

impl ChainedPics {
    /// Create a new interface for the standard PIC1 and PIC2 controllers,
    /// specifying the desired interrupt offsets.
    pub fn new(offset1: u8, offset2: u8) -> (pics: ChainedPics)
        ensures
            pics.master.offset == offset1,
            pics.slave.offset == offset2,
    {
        ChainedPics { master: Pic { offset: offset1 }, slave: Pic { offset: offset2 } }
    }

    /// Do we handle this interrupt?
    pub fn does_handle_interrupt(&self, interrupt_id: u8) -> (r: bool)
        ensures
            r == (self.master.handles(interrupt_id) || self.slave.handles(interrupt_id)),
    {
        self.master.does_handle_interrupt(interrupt_id) || self.slave.does_handle_interrupt(
            interrupt_id,
        )
    }

    /// Which chips are to get the end-of-interrupt command for the interrupt:
    /// none if neither chip handles it; else the master, and the slave too if
    /// the interrupt came through it.
    pub fn notify_isr_eoi(&self, interrupt_id: u8) -> (eoi: EndOfInterrupt)
        ensures
            eoi.master == (self.master.handles(interrupt_id) || self.slave.handles(interrupt_id)),
            eoi.slave == self.slave.handles(interrupt_id),
    {
        if self.does_handle_interrupt(interrupt_id) {
            EndOfInterrupt { master: true, slave: self.slave.does_handle_interrupt(interrupt_id) }
        } else {
            EndOfInterrupt { master: false, slave: false }
        }
    }
}

} // verus!
