//! The walk over all functions of all devices on all PCI buses.

use vstd::prelude::*;
use crate::drivers::pci::headers::Header;

pub mod headers;

verus! {

/// The highest bus number.
pub const MAX_BUS: u8 = 255;

/// The highest device number on a bus.
pub const MAX_DEVICE: u8 = 31;

/// The highest function number of a device.
pub const MAX_FUNCTION: u8 = 7;

/// The configuration address of the register at `offset` of a device
/// function: the enable bit, the bus in bits 16 to 23, the slot in bits 11
/// to 15, the function in bits 8 to 10, and the offset with its two lowest
/// bits cleared.
pub open spec fn config_address_spec(bus: u8, slot: u8, function: u8, offset: u8) -> int {
    0x8000_0000 + bus * 0x1_0000 + slot * 0x800 + function * 0x100 + (offset - offset % 4)
}

/// The address to write to the configuration address port in order to read
/// the register at `offset` of the device function.
pub fn config_address(bus: u8, slot: u8, function: u8, offset: u8) -> (address: u32)
    requires
        slot <= MAX_DEVICE,
        function <= MAX_FUNCTION,
    ensures
        address == config_address_spec(bus, slot, function, offset),
{
    let bus = bus as u32;
    let slot = slot as u32;
    let function = function as u32;
    let offset = offset as u32;
    assert(slot <= 31 && function <= 7 && bus <= 255 && offset <= 255 ==> (0x8000_0000u32 | bus
        << 16 | slot << 11 | function << 8 | (offset & 0b1111_1100)) == 0x8000_0000u32 + bus
        * 0x1_0000 + slot * 0x800 + function * 0x100 + (offset - offset % 4)) by (bit_vector);
    0x80000000 | bus << 16 | slot << 11 | function << 8 | (offset & 0b1111_1100)
}

/// A device function that was found on a bus.
#[derive(Debug, Clone, Copy)]
pub struct PciDeviceFunction {
    pub bus: u8,
    pub device_id: u8,
    pub function: u8,
    pub header: Header,
    pub owned: bool,
}

/// Where the walk over the buses stands: at the device function that is to
/// be probed next, or at its end.
#[derive(Debug, PartialEq, Eq, Structural, Clone, Copy)]
pub struct PciDeviceFunctionIterator {
    pub done: bool,
    pub bus: u8,
    pub device: u8,
    pub multifunction: bool,
    pub function: u8,
}

impl PciDeviceFunctionIterator {
    /// Where the walk goes from this place: to the next function of a device
    /// with several functions, else to the next device of the bus, else to
    /// the next bus, else to its end.
    pub open spec fn successor(&self) -> PciDeviceFunctionIterator {
        if self.multifunction && self.function < MAX_FUNCTION {
            PciDeviceFunctionIterator {
                done: self.done,
                bus: self.bus,
                device: self.device,
                multifunction: self.multifunction,
                function: (self.function + 1) as u8,
            }
        } else if self.device < MAX_DEVICE {
            PciDeviceFunctionIterator {
                done: self.done,
                bus: self.bus,
                device: (self.device + 1) as u8,
                multifunction: false,
                function: 0,
            }
        } else if self.bus < MAX_BUS {
            PciDeviceFunctionIterator {
                done: self.done,
                bus: (self.bus + 1) as u8,
                device: 0,
                multifunction: false,
                function: 0,
            }
        } else {
            PciDeviceFunctionIterator {
                done: true,
                bus: self.bus,
                device: self.device,
                multifunction: self.multifunction,
                function: self.function,
            }
        }
    }

    /// The place counted in device functions from the start of the walk.
    pub open spec fn position(&self) -> int {
        if self.done {
            65536int
        } else {
            (self.bus * 32 + self.device) * 8 + self.function
        }
    }

    /// The walk stays within the numbers that a device function can have.
    pub open spec fn wf(&self) -> bool {
        self.device <= MAX_DEVICE && self.function <= MAX_FUNCTION
    }

    /// Moves on to the device function that is to be probed next.
    pub fn update_state(&mut self)
        ensures
            *final(self) == old(self).successor(),
    {
        if self.multifunction && self.function < MAX_FUNCTION {
            self.function += 1;
        } else if self.device < MAX_DEVICE {
            self.function = 0;
            self.multifunction = false;
            self.device += 1;
        } else if self.bus < MAX_BUS {
            self.function = 0;
            self.multifunction = false;
            self.device = 0;
            self.bus += 1;
        } else {
            self.done = true;
        }
    }

    /// Takes note of what probing the current place has found, and moves on.
    /// `found` holds, if a device function is there, whether its header says
    /// that the device has several functions; that counts at function 0 only.
    /// Returns whether a device function was there.
    pub fn advance(&mut self, found: Option<bool>) -> (present: bool)
        ensures
            present == found is Some,
            *final(self) == (PciDeviceFunctionIterator {
                done: old(self).done,
                bus: old(self).bus,
                device: old(self).device,
                multifunction: old(self).multifunction || (found == Some(true) && old(
                    self,
                ).function == 0),
                function: old(self).function,
            }).successor(),
    {
        let present = match found {
            Some(multifunction) => {
                if self.function == 0 && multifunction {
                    self.multifunction = true;
                }
                true
            },
            None => false,
        };
        self.update_state();
        present
    }
}

/// Every step of the walk leads further, so the walk ends: a place that is
/// not the end has a successor that lies strictly behind it.
pub proof fn lemma_walk_advances(place: PciDeviceFunctionIterator)
    requires
        place.wf(),
        !place.done,
    ensures
        place.successor().wf(),
        place.successor().position() > place.position(),
{
}

/// Brute-force PCI bus probing: the start of the walk.
pub fn pci_iter() -> (iter: PciDeviceFunctionIterator)
    ensures
        iter == (PciDeviceFunctionIterator {
            done: false,
            bus: 0,
            device: 0,
            multifunction: false,
            function: 0,
        }),
{
    PciDeviceFunctionIterator { done: false, bus: 0, device: 0, multifunction: false, function: 0 }
}

} // verus!
