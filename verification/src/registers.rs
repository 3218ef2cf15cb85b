use vstd::prelude::*;

verus! {

/// The registers of the chip that this driver touches. The numeric address
/// of each one is fixed by the datasheet and must be reproduced bit-for-bit;
/// see `Register::spec_addr`.
#[derive(Clone, Copy)]
pub enum Register {
    /// First of the interrupt status registers; read in bulk to drain them.
    PortStatus0,
    /// Alert status, read-to-clear.
    AlertStatus1,
    /// Mask companion of `AlertStatus1`.
    AlertStatus1Mask,
    /// Low byte of the transmit header, part of the soft-reset sequence.
    TXHeaderL,
    /// Command register that issues the soft reset.
    PDCommandCtrl,
    /// Number of sink PDOs advertised.
    DPMPDONumb,
    /// Sink PDO slot 1.
    DPMSNKPDO1,
    /// Sink PDO slot 2.
    DPMSNKPDO2,
    /// Sink PDO slot 3.
    DPMSNKPDO3,
    /// The currently negotiated request data object.
    RDORegStatus,
    /// Customer password register guarding the NVM.
    Password,
    /// NVM control: command request bit and sector select.
    CTRL0,
    /// NVM control: operation opcode and sector erase mask.
    CTRL1,
    /// 8-byte staging buffer for NVM sector data.
    RWBuffer,
}

impl Register {
    /// The wire address of the register.
    pub open spec fn spec_addr(self) -> u8 {
        match self {
            Register::AlertStatus1 => 0x0B,
            Register::AlertStatus1Mask => 0x0C,
            Register::PortStatus0 => 0x0D,
            Register::PDCommandCtrl => 0x1A,
            Register::TXHeaderL => 0x51,
            Register::RWBuffer => 0x53,
            Register::DPMPDONumb => 0x70,
            Register::DPMSNKPDO1 => 0x85,
            Register::DPMSNKPDO2 => 0x89,
            Register::DPMSNKPDO3 => 0x8D,
            Register::RDORegStatus => 0x91,
            Register::Password => 0x95,
            Register::CTRL0 => 0x96,
            Register::CTRL1 => 0x97,
        }
    }

    /// The wire address of the register.
    pub fn addr(self) -> (r: u8)
        ensures
            r == self.spec_addr(),
    {
        match self {
            Register::AlertStatus1 => 0x0B,
            Register::AlertStatus1Mask => 0x0C,
            Register::PortStatus0 => 0x0D,
            Register::PDCommandCtrl => 0x1A,
            Register::TXHeaderL => 0x51,
            Register::RWBuffer => 0x53,
            Register::DPMPDONumb => 0x70,
            Register::DPMSNKPDO1 => 0x85,
            Register::DPMSNKPDO2 => 0x89,
            Register::DPMSNKPDO3 => 0x8D,
            Register::RDORegStatus => 0x91,
            Register::Password => 0x95,
            Register::CTRL0 => 0x96,
            Register::CTRL1 => 0x97,
        }
    }
}

/// Password value that unlocks the NVM for erase and program operations.
pub const NVM_UNLOCK_PASSWORD: u8 = 0x47;

/// Value written to the password register to lock the NVM again.
pub const NVM_LOCK_PASSWORD: u8 = 0x00;

/// CTRL0 bit: power the NVM cells.
pub const CTRL0_PWR: u8 = 0x80;

/// CTRL0 bit: release the NVM controller from reset.
pub const CTRL0_RST_N: u8 = 0x40;

/// CTRL0 bit: command request; stays set while the command is in flight, so
/// it doubles as the busy indicator that `nvm_wait` polls.
pub const CTRL0_REQ: u8 = 0x10;

/// CTRL0 field: the three sector-select bits.
pub const CTRL0_SECT: u8 = 0x07;

/// The CTRL0 value that launches a command: power, reset release and request.
pub const CTRL0_DEFAULT: u8 = CTRL0_PWR | CTRL0_RST_N | CTRL0_REQ;

/// CTRL1 opcode: load the staging buffer into the selected sector's read path.
pub const NVM_CMD_READ: u8 = 0x00;

/// CTRL1 opcode: transfer the staging buffer to the program load register.
pub const NVM_CMD_WRITE_PL: u8 = 0x01;

/// CTRL1 opcode: transfer the sector erase mask to its internal register.
pub const NVM_CMD_WRITE_SER: u8 = 0x02;

/// CTRL1 opcode: erase the sectors named by the erase mask.
pub const NVM_CMD_ERASE_SECTOR: u8 = 0x05;

/// CTRL1 opcode: program the selected sector from the program load register.
pub const NVM_CMD_PROG_SECTOR: u8 = 0x06;

/// CTRL1 opcode: soft-program the sectors named by the erase mask, required
/// by the device before an erase to avoid undefined cell states.
pub const NVM_CMD_SOFT_PROG_SECTOR: u8 = 0x07;

/// CTRL1 value selecting every sector for erase: the full five-bit sector
/// mask above the `WRITE_SER` opcode.
pub const NVM_ERASE_ALL: u8 = 0xF8 | NVM_CMD_WRITE_SER;

} // verus!
