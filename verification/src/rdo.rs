use vstd::prelude::*;

verus! {

/// The request data object: the chip's record of the currently negotiated
/// power contract. It is read-only telemetry, so it is kept as the raw
/// 32-bit word with accessors layered on top; every bit pattern is a valid
/// snapshot and decoding never fails.
#[derive(Clone, Copy, Debug, PartialEq, Eq, Structural)]
pub struct Rdo(pub u32);

impl Rdo {
    /// Which source PDO the contract selected: bits 30..=28.
    pub open spec fn spec_object_position(self) -> u8 {
        ((self.0 >> 28) & 0x7) as u8
    }

    /// Whether the sink asked for a give-back contract: bit 27.
    pub open spec fn spec_giveback(self) -> bool {
        (self.0 >> 27) & 1 == 1
    }

    /// Whether the sink could not be fully satisfied: bit 26.
    pub open spec fn spec_capability_mismatch(self) -> bool {
        (self.0 >> 26) & 1 == 1
    }

    /// Whether the sink is USB-communications capable: bit 25.
    pub open spec fn spec_usb_comms_capable(self) -> bool {
        (self.0 >> 25) & 1 == 1
    }

    /// Whether the sink asked to ignore USB suspend: bit 24.
    pub open spec fn spec_no_usb_suspend(self) -> bool {
        (self.0 >> 24) & 1 == 1
    }

    /// The operating current in 10 mA units: bits 19..=10.
    pub open spec fn spec_operating_current(self) -> u16 {
        ((self.0 >> 10) & 0x3FF) as u16
    }

    /// The maximum operating current in 10 mA units: bits 9..=0.
    pub open spec fn spec_max_operating_current(self) -> u16 {
        (self.0 & 0x3FF) as u16
    }

    /// Which source PDO the contract selected.
    pub fn object_position(&self) -> (r: u8)
        ensures
            r == self.spec_object_position(),
    {
        ((self.0 >> 28u32) & 0x7) as u8
    }

    /// Whether the sink asked for a give-back contract.
    pub fn giveback(&self) -> (r: bool)
        ensures
            r == self.spec_giveback(),
    {
        (self.0 >> 27u32) & 1 == 1
    }

    /// Whether the sink could not be fully satisfied.
    pub fn capability_mismatch(&self) -> (r: bool)
        ensures
            r == self.spec_capability_mismatch(),
    {
        (self.0 >> 26u32) & 1 == 1
    }

    /// Whether the sink is USB-communications capable.
    pub fn usb_comms_capable(&self) -> (r: bool)
        ensures
            r == self.spec_usb_comms_capable(),
    {
        (self.0 >> 25u32) & 1 == 1
    }

    /// Whether the sink asked to ignore USB suspend.
    pub fn no_usb_suspend(&self) -> (r: bool)
        ensures
            r == self.spec_no_usb_suspend(),
    {
        (self.0 >> 24u32) & 1 == 1
    }

    /// The operating current in 10 mA units.
    pub fn operating_current(&self) -> (r: u16)
        ensures
            r == self.spec_operating_current(),
    {
        ((self.0 >> 10u32) & 0x3FF) as u16
    }

    /// The maximum operating current in 10 mA units.
    pub fn max_operating_current(&self) -> (r: u16)
        ensures
            r == self.spec_max_operating_current(),
    {
        (self.0 & 0x3FF) as u16
    }
}

} // verus!
