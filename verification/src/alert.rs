use vstd::prelude::*;

verus! {

/// Alert bit: port status changed.
pub const ALERT_PORT_STATUS: u8 = 0x40;

/// Alert bit: Type-C monitoring status changed.
pub const ALERT_TYPEC_MONITORING_STATUS: u8 = 0x20;

/// Alert bit: CC hardware fault.
pub const ALERT_CC_HW_FAULT_STATUS: u8 = 0x10;

/// Alert bit: protocol layer status changed.
pub const ALERT_PRT_STATUS: u8 = 0x02;

/// The mask written to the alert mask register: a set bit suppresses the
/// matching interrupt. A flat bitmask with set, test and clear helpers.
#[derive(Clone, Copy, Debug, PartialEq, Eq, Structural)]
pub struct AlertMask {
    pub bits: u8,
}

impl AlertMask {
    /// No interrupt masked.
    pub fn empty() -> (r: AlertMask)
        ensures
            r.bits == 0,
    {
        AlertMask { bits: 0 }
    }

    /// A mask from a raw bit value.
    pub fn from_bits(bits: u8) -> (r: AlertMask)
        ensures
            r.bits == bits,
    {
        AlertMask { bits }
    }

    /// The raw bit value.
    pub fn bits(&self) -> (r: u8)
        ensures
            r == self.bits,
    {
        self.bits
    }

    /// Whether every bit of `flag` is set.
    pub fn contains(&self, flag: u8) -> (r: bool)
        ensures
            r == (self.bits & flag == flag),
    {
        self.bits & flag == flag
    }

    /// The mask with every bit of `flag` also set.
    pub fn insert(&self, flag: u8) -> (r: AlertMask)
        ensures
            r.bits == self.bits | flag,
    {
        AlertMask { bits: self.bits | flag }
    }

    /// The mask with every bit of `flag` cleared.
    pub fn remove(&self, flag: u8) -> (r: AlertMask)
        ensures
            r.bits == self.bits & !flag,
    {
        AlertMask { bits: self.bits & !flag }
    }
}

/// The alert flags read from the status register. Reading the register
/// clears it on the device, so a value of this type is a one-shot snapshot;
/// the driver never caches one between calls.
#[derive(Clone, Copy, Debug, PartialEq, Eq, Structural)]
pub struct Alert {
    pub bits: u8,
}

impl Alert {
    /// A snapshot from the raw byte the status register returned.
    pub fn from_masked_bits(bits: u8) -> (r: Alert)
        ensures
            r.bits == bits,
    {
        Alert { bits }
    }

    /// The raw bit value.
    pub fn bits(&self) -> (r: u8)
        ensures
            r == self.bits,
    {
        self.bits
    }

    /// Whether every bit of `flag` is set.
    pub fn contains(&self, flag: u8) -> (r: bool)
        ensures
            r == (self.bits & flag == flag),
    {
        self.bits & flag == flag
    }
}

} // verus!
