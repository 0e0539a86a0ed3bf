//! The entries of the I/O APIC redirection table.

use vstd::prelude::*;

verus! {

/// How an interrupt is delivered.
#[derive(Debug, PartialEq, Eq, Structural, Clone, Copy)]
pub enum DeliveryMode {
    /// To the vector of the entry.
    Fixed,
    /// To the processor with the lowest priority.
    LowestPriority,
    /// As an SMI.
    Smi,
    /// As an NMI.
    Nmi,
    /// As an INIT request.
    Init,
    /// As an external interrupt.
    ExtInt,
}

impl DeliveryMode {
    /// The three bits that stand for the mode in an entry.
    pub open spec fn code(&self) -> u8 {
        match *self {
            DeliveryMode::Fixed => 0b000,
            DeliveryMode::LowestPriority => 0b001,
            DeliveryMode::Smi => 0b010,
            DeliveryMode::Nmi => 0b100,
            DeliveryMode::Init => 0b101,
            DeliveryMode::ExtInt => 0b111,
        }
    }

    fn bits(&self) -> (bits: u64)
        ensures
            bits == self.code(),
    {
        match *self {
            DeliveryMode::Fixed => 0b000,
            DeliveryMode::LowestPriority => 0b001,
            DeliveryMode::Smi => 0b010,
            DeliveryMode::Nmi => 0b100,
            DeliveryMode::Init => 0b101,
            DeliveryMode::ExtInt => 0b111,
        }
    }
}

/// What an entry of the redirection table says.
pub struct Redirection {
    /// The interrupt vector.
    pub vector: u8,
    /// The code of the delivery mode.
    pub delivery_mode: u8,
    /// Whether the destination is a logical processor ID, not a physical one.
    pub logical_destination: bool,
    /// Whether the pin is active when low, not when high.
    pub low_active: bool,
    /// Whether the interrupt is level sensitive, not edge sensitive.
    pub level_sensitive: bool,
    /// Whether the interrupt is masked.
    pub masked: bool,
    /// The destination processor.
    pub destination: u8,
}

/// What the entry with the given bits says.
pub open spec fn redirection_of(bits: u64) -> Redirection {
    Redirection {
        vector: (bits % 0x100) as u8,
        delivery_mode: ((bits / 0x100) % 8) as u8,
        logical_destination: (bits / 0x800) % 2 == 1,
        low_active: (bits / 0x2000) % 2 == 1,
        level_sensitive: (bits / 0x8000) % 2 == 1,
        masked: (bits / 0x1_0000) % 2 == 1,
        destination: (bits / 0x100_0000_0000_0000) as u8,
    }
}

/// Represents an entry in the I/O APIC redirection table.
#[derive(Debug, PartialEq, Eq, Structural, Clone, Copy)]
pub struct IORedirectionEntry {
    bits: u64,
}

/// The two halves of an entry and the register numbers they are written to:
/// first the mask alone goes to the low register, so that the entry is off
/// while it changes; then the high half; then the low half.
#[derive(Debug, PartialEq, Eq, Structural, Clone, Copy)]
pub struct RegisterWrites {
    pub low_register: u8,
    pub high_register: u8,
    pub mask: u32,
    pub high: u32,
    pub low: u32,
}

impl View for IORedirectionEntry {
    type V = Redirection;

    closed spec fn view(&self) -> Redirection {
        redirection_of(self.bits)
    }
}

impl IORedirectionEntry {
    /// The entry as a number.
    pub closed spec fn raw(&self) -> u64 {
        self.bits
    }

    /// Creates a new entry: active, with fixed delivery, edge sensitive,
    /// active when high, and with the given CPU as its physical destination.
    /// The vector is 0.
    pub fn new(cpu_id: u8) -> (register: IORedirectionEntry)
        ensures
            register@ == (Redirection {
                vector: 0,
                delivery_mode: 0,
                logical_destination: false,
                low_active: false,
                level_sensitive: false,
                masked: false,
                destination: cpu_id,
            }),
    {
        let mut register = IORedirectionEntry { bits: 0 };
        register.set_active();
        register.set_delivery_mode(DeliveryMode::Fixed);
        register.set_trigger_mode(false);
        register.set_polarity(false);
        register.set_destination(false, cpu_id);
        register
    }

    /// The entry as a number.
    pub fn bits(&self) -> (bits: u64)
        ensures
            bits == self.raw(),
            redirection_of(bits) == self@,
    {
        self.bits
    }

    /// Sets the vector of this interrupt.
    pub fn set_vector(&mut self, num: u8)
        ensures
            final(self)@ == (Redirection { vector: num, ..old(self)@ }),
    {
        let b = self.bits;
        let n = num as u64;
        assert(n < 0x100 ==> {
            let r = (b & !0xffu64) | n;
            &&& r % 0x100 == n
            &&& (r / 0x100) % 8 == (b / 0x100) % 8
            &&& (r / 0x800) % 2 == (b / 0x800) % 2
            &&& (r / 0x2000) % 2 == (b / 0x2000) % 2
            &&& (r / 0x8000) % 2 == (b / 0x8000) % 2
            &&& (r / 0x1_0000) % 2 == (b / 0x1_0000) % 2
            &&& r / 0x100_0000_0000_0000 == b / 0x100_0000_0000_0000
        }) by (bit_vector);
        self.bits &= !0xff;
        self.bits |= num as u64;
    }

    /// Sets the delivery mode for this interrupt.
    pub fn set_delivery_mode(&mut self, mode: DeliveryMode)
        ensures
            final(self)@ == (Redirection { delivery_mode: mode.code(), ..old(self)@ }),
    {
        let b = self.bits;
        let m = mode.bits();
        assert(m < 8 ==> {
            let r = (b & !0x700u64) | (m << 8);
            &&& r % 0x100 == b % 0x100
            &&& (r / 0x100) % 8 == m
            &&& (r / 0x800) % 2 == (b / 0x800) % 2
            &&& (r / 0x2000) % 2 == (b / 0x2000) % 2
            &&& (r / 0x8000) % 2 == (b / 0x8000) % 2
            &&& (r / 0x1_0000) % 2 == (b / 0x1_0000) % 2
            &&& r / 0x100_0000_0000_0000 == b / 0x100_0000_0000_0000
        }) by (bit_vector);
        self.bits &= !0x700;
        self.bits |= m << 8;
    }

    /// Sets the trigger mode for this interrupt: level sensitive or edge
    /// sensitive.
    pub fn set_trigger_mode(&mut self, level_sensitive: bool)
        ensures
            final(self)@ == (Redirection { level_sensitive, ..old(self)@ }),
    {
        self.set_bit(15, level_sensitive);
    }

    /// Sets the polarity for this interrupt: active when low or when high.
    pub fn set_polarity(&mut self, low_active: bool)
        ensures
            final(self)@ == (Redirection { low_active, ..old(self)@ }),
    {
        self.set_bit(13, low_active);
    }

    /// Deactivates this interrupt.
    pub fn set_inactive(&mut self)
        ensures
            final(self)@ == (Redirection { masked: true, ..old(self)@ }),
    {
        self.set_bit(16, true);
    }

    /// Activates this interrupt.
    pub fn set_active(&mut self)
        ensures
            final(self)@ == (Redirection { masked: false, ..old(self)@ }),
    {
        self.set_bit(16, false);
    }

    /// Sets the destination for this interrupt: a logical or a physical
    /// processor ID.
    pub fn set_destination(&mut self, logical: bool, dest: u8)
        ensures
            final(self)@ == (Redirection {
                logical_destination: logical,
                destination: dest,
                ..old(self)@
            }),
    {
        self.set_bit(11, logical);
        let b = self.bits;
        let d = dest as u64;
        assert(d < 0x100 ==> {
            let r = (b & !0xff00_0000_0000_0000u64) | (d << 56);
            &&& r % 0x100 == b % 0x100
            &&& (r / 0x100) % 8 == (b / 0x100) % 8
            &&& (r / 0x800) % 2 == (b / 0x800) % 2
            &&& (r / 0x2000) % 2 == (b / 0x2000) % 2
            &&& (r / 0x8000) % 2 == (b / 0x8000) % 2
            &&& (r / 0x1_0000) % 2 == (b / 0x1_0000) % 2
            &&& r / 0x100_0000_0000_0000 == d
        }) by (bit_vector);
        self.bits &= !0xff00_0000_0000_0000;
        self.bits |= (dest as u64) << 56;
    }

    /// Sets or clears one of the four single-bit fields.
    fn set_bit(&mut self, bit: u32, value: bool)
        requires
            bit == 11 || bit == 13 || bit == 15 || bit == 16,
        ensures
            redirection_of(final(self).bits) == (Redirection {
                logical_destination: if bit == 11 {
                    value
                } else {
                    redirection_of(old(self).bits).logical_destination
                },
                low_active: if bit == 13 {
                    value
                } else {
                    redirection_of(old(self).bits).low_active
                },
                level_sensitive: if bit == 15 {
                    value
                } else {
                    redirection_of(old(self).bits).level_sensitive
                },
                masked: if bit == 16 {
                    value
                } else {
                    redirection_of(old(self).bits).masked
                },
                ..redirection_of(old(self).bits)
            }),
    {
        let b = self.bits;
        let v: u64 = if value {
            1
        } else {
            0
        };
        assert((bit == 11 || bit == 13 || bit == 15 || bit == 16) && v < 2 ==> {
            let r = (b & !(1u64 << bit)) | (v << bit);
            &&& r % 0x100 == b % 0x100
            &&& (r / 0x100) % 8 == (b / 0x100) % 8
            &&& (r / 0x800) % 2 == (if bit == 11 { v } else { (b / 0x800) % 2 })
            &&& (r / 0x2000) % 2 == (if bit == 13 { v } else { (b / 0x2000) % 2 })
            &&& (r / 0x8000) % 2 == (if bit == 15 { v } else { (b / 0x8000) % 2 })
            &&& (r / 0x1_0000) % 2 == (if bit == 16 { v } else { (b / 0x1_0000) % 2 })
            &&& r / 0x100_0000_0000_0000 == b / 0x100_0000_0000_0000
        }) by (bit_vector);
        self.bits = (self.bits & !(1u64 << bit)) | (v << bit);
    }
}

/// What is written to the I/O APIC to set the redirection of the IRQ with
/// the given number, which must be below 24, to the entry.
pub fn set_irq(number: u8, value: IORedirectionEntry) -> (writes: RegisterWrites)
    requires
        number < 24,
    ensures
        writes.low_register == 0x10 + number * 2,
        writes.high_register == 0x11 + number * 2,
        writes.mask == 0x1_0000,
        writes.high == value.raw() / 0x1_0000_0000,
        writes.low == value.raw() % 0x1_0000_0000,
{
    let reg = 0x10 + number * 2;
    let bits = value.bits();
    assert(bits >> 32 == bits / 0x1_0000_0000 && bits & 0xffff_ffff == bits % 0x1_0000_0000)
        by (bit_vector);
    RegisterWrites {
        low_register: reg,
        high_register: reg + 1,
        mask: 0x1_0000,
        high: (bits >> 32) as u32,
        low: (bits & 0xffff_ffff) as u32,
    }
}

} // verus!
