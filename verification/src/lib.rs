pub mod alert;
pub mod bus;
pub mod nvm;
pub mod pdo;
pub mod rdo;
pub mod registers;
pub mod sim;

use vstd::prelude::*;

use vstd::bytes::{
    lemma_auto_spec_u32_to_from_le_bytes, lemma_auto_spec_u64_to_from_le_bytes,
    spec_u32_to_le_bytes, spec_u64_to_le_bytes, u32_from_le_bytes, u32_to_le_bytes,
    u64_from_le_bytes, u64_to_le_bytes,
};

use crate::alert::{Alert, AlertMask};
use crate::bus::{BusOp, Transport, is_aborted_reg_read, reg_read_ops, reg_write_ops};
use crate::nvm::{
    bytes_to_sectors, is_erase_step, is_lock_step, is_nvm_read_trace, is_nvm_write_trace, is_poll,
    is_read_sector_step, is_sector_reads, is_sector_writes, is_write_sector_step,
    lemma_poll_trace_push, lemma_sector_reads_push, lemma_sector_writes_push,
    is_aborted_erase_step, is_aborted_lock_step, is_aborted_nvm_read, is_aborted_nvm_write,
    is_aborted_poll, is_aborted_read_sector_step, is_aborted_write_sector_step, is_exhausted_poll,
    lemma_aborted_poll_trivial, lemma_sectors_bytes_round_trip, lemma_timeout_prepend,
    lemma_wait_timeout, nvm_read_post,
    nvm_timeout_post, nvm_write_post, poll_trace, sectors_to_bytes,
    spec_busy, spec_bytes_to_sectors, spec_password, spec_poll_vals_ok,
};
use crate::pdo::{Pdo, lemma_word_round_trip, spec_decode_pdo, spec_word_is_fixed};
use crate::rdo::Rdo;
use crate::registers::{
    CTRL0_DEFAULT, CTRL0_REQ, CTRL0_SECT, NVM_CMD_ERASE_SECTOR, NVM_CMD_PROG_SECTOR, NVM_CMD_READ,
    NVM_CMD_SOFT_PROG_SECTOR, NVM_CMD_WRITE_PL, NVM_ERASE_ALL, NVM_LOCK_PASSWORD,
    NVM_UNLOCK_PASSWORD, Register,
};

verus! {

/// Bus address of the chip with both strap pins tied low.
pub const STUSB4500_ADDR: u8 = 0x28;

/// How the 7-bit bus address of the device is chosen at construction.
pub enum Address {
    /// The fixed default address, all strap pins low.
    Default,
    /// Address given by the A1 and A0 strap pins; true means tied high.
    Strap(bool, bool),
    /// An explicit caller-supplied address.
    Custom(u8),
}

impl Address {
    /// Whether the choice resolves to a legal 7-bit bus address: the fixed
    /// default and the strap forms always do; a custom address must fit in
    /// seven bits.
    pub open spec fn spec_valid(self) -> bool {
        match self {
            Address::Custom(addr) => addr < 0x80,
            _ => true,
        }
    }

    /// The resolved 7-bit bus address.
    pub open spec fn spec_addr(self) -> u8 {
        match self {
            Address::Default => STUSB4500_ADDR,
            Address::Strap(a1, a0) => STUSB4500_ADDR | (if a1 { 2u8 } else { 0u8 }) | (if a0 {
                1u8
            } else {
                0u8
            }),
            Address::Custom(addr) => addr,
        }
    }

    /// The resolved 7-bit bus address.
    pub fn addr(&self) -> (r: u8)
        requires
            self.spec_valid(),
        ensures
            r == self.spec_addr(),
            r < 0x80,
    {
        proof {
            assert((0x28u8 | 0u8 | 0u8) < 0x80 && (0x28u8 | 0u8 | 1u8) < 0x80 && (0x28u8 | 2u8
                | 0u8) < 0x80 && (0x28u8 | 2u8 | 1u8) < 0x80) by (bit_vector);
        }
        match self {
            Address::Default => STUSB4500_ADDR,
            Address::Strap(a1, a0) => STUSB4500_ADDR | (if *a1 { 2u8 } else { 0u8 }) | (if *a0 {
                1u8
            } else {
                0u8
            }),
            Address::Custom(addr) => *addr,
        }
    }
}

impl Default for Address {
    /// The default is the fixed bus address with all strap pins low.
    fn default() -> (r: Self)
        ensures
            r == Address::Default,
    {
        Address::Default
    }
}

/// The error taxonomy of the driver: a wrapped transport failure, a power
/// data object of a shape the device cannot hold, or a caller-supplied value
/// outside the device's valid domain.
#[derive(Debug)]
pub enum Error<E> {
    I2CError(E),
    InvalidPdo,
    OutaRangePdo,
    /// The busy poll of the NVM command register gave up after
    /// `NVM_POLL_LIMIT` reads without seeing the request bit clear.
    NvmTimeout,
}

/// How many times the busy poll re-reads the control register before it
/// gives up. The hardware completes a command in well under a millisecond,
/// so this bound is orders of magnitude above anything a live device needs;
/// it exists so that a dead device surfaces as an error instead of hanging
/// the caller forever.
pub const NVM_POLL_LIMIT: u32 = 1000000;

/// The three sink PDO register slots of the device.
pub enum PdoChannel {
    PDO1,
    PDO2,
    PDO3,
}

impl PdoChannel {
    /// The register slot backing this channel.
    pub open spec fn spec_register(self) -> Register {
        match self {
            PdoChannel::PDO1 => Register::DPMSNKPDO1,
            PdoChannel::PDO2 => Register::DPMSNKPDO2,
            PdoChannel::PDO3 => Register::DPMSNKPDO3,
        }
    }
}

/// Driver for the USB power-delivery sink controller. It owns the bus
/// transport for its lifetime; the device address is fixed at construction
/// and never recomputed.
pub struct STUSB4500<T: Transport> {
    i2c: T,
    address: u8,
}

impl<T: Transport> STUSB4500<T> {
    /// The device address every transaction is directed at.
    pub closed spec fn dev(&self) -> u8 {
        self.address
    }

    /// The history of bus transactions the driver's transport has performed.
    pub closed spec fn log(&self) -> Seq<BusOp> {
        self.i2c.log()
    }

    pub fn new(i2c: T, address: Address) -> (r: Self)
        requires
            address.spec_valid(),
        ensures
            r.dev() == address.spec_addr(),
            r.dev() < 0x80,
            r.log() == i2c.log(),
    {
        STUSB4500 { address: address.addr(), i2c }
    }

    /// Borrow the bus transport, so that a caller can inspect it.
    pub fn transport(&self) -> (r: &T)
        ensures
            r.log() == self.log(),
    {
        &self.i2c
    }

    /// Write a byte register: one bus write of the register address followed
    /// by the value.
    pub(crate) fn write(&mut self, register: Register, value: u8) -> (r: Result<
        (),
        Error<T::BusError>,
    >)
        ensures
            final(self).dev() == old(self).dev(),
            r is Ok ==> final(self).log() == old(self).log() + reg_write_ops(
                old(self).dev(),
                register.spec_addr(),
                value,
            ),
            r is Err ==> final(self).log() == old(self).log() || final(self).log() == old(
                self,
            ).log() + reg_write_ops(old(self).dev(), register.spec_addr(), value),
            r matches Err(e) ==> e is I2CError,
    {
        let mut buf: Vec<u8> = Vec::new();
        buf.push(register.addr());
        buf.push(value);
        proof {
            assert(buf@ =~= seq![register.spec_addr(), value]);
        }
        match self.i2c.write(self.address, buf.as_slice()) {
            Ok(()) => {
                proof {
                    assert(self.log() =~= old(self).log() + reg_write_ops(
                        old(self).dev(),
                        register.spec_addr(),
                        value,
                    ));
                }
                Ok(())
            },
            Err(err) => {
                proof {
                    assert(old(self).log() + reg_write_ops(
                        old(self).dev(),
                        register.spec_addr(),
                        value,
                    ) =~= old(self).log().push(BusOp::Write { dev: old(self).dev(), data: buf@ }));
                }
                Err(Error::I2CError(err))
            },
        }
    }

    /// Read a byte register: the address phase, then a one-byte read.
    pub(crate) fn read(&mut self, register: Register) -> (r: Result<u8, Error<T::BusError>>)
        ensures
            final(self).dev() == old(self).dev(),
            r matches Ok(v) ==> final(self).log() == old(self).log() + reg_read_ops(
                old(self).dev(),
                register.spec_addr(),
                seq![v],
            ),
            r is Err ==> is_aborted_reg_read(
                old(self).dev(),
                register.spec_addr(),
                old(self).log(),
                final(self).log(),
            ),
            r matches Err(e) ==> e is I2CError,
    {
        let mut addr_buf: Vec<u8> = Vec::new();
        addr_buf.push(register.addr());
        proof {
            assert(addr_buf@ =~= seq![register.spec_addr()]);
        }
        match self.i2c.write(self.address, addr_buf.as_slice()) {
            Ok(()) => {},
            Err(err) => {
                proof {
                    assert(is_aborted_reg_read(
                        old(self).dev(),
                        register.spec_addr(),
                        old(self).log(),
                        self.log(),
                    ));
                }
                return Err(Error::I2CError(err));
            },
        }
        match self.i2c.read(self.address, 1) {
            Ok(buf) => {
                let v = buf[0];
                proof {
                    assert(buf@ =~= seq![v]);
                    assert(self.log() =~= old(self).log() + reg_read_ops(
                        old(self).dev(),
                        register.spec_addr(),
                        seq![v],
                    ));
                }
                Ok(v)
            },
            Err(err) => {
                proof {
                    assert(is_aborted_reg_read(
                        old(self).dev(),
                        register.spec_addr(),
                        old(self).log(),
                        self.log(),
                    ));
                }
                Err(Error::I2CError(err))
            },
        }
    }

    /// Write a word register: one bus write of the register address followed
    /// by the four little-endian bytes of the word.
    pub(crate) fn write_word(&mut self, register: Register, word: u32) -> (r: Result<
        (),
        Error<T::BusError>,
    >)
        ensures
            final(self).dev() == old(self).dev(),
            r is Ok ==> final(self).log() == old(self).log() + seq![
                BusOp::Write {
                    dev: old(self).dev(),
                    data: seq![register.spec_addr()] + spec_u32_to_le_bytes(word),
                },
            ],
            r is Err ==> final(self).log() == old(self).log() || final(self).log() == old(
                self,
            ).log() + seq![
                BusOp::Write {
                    dev: old(self).dev(),
                    data: seq![register.spec_addr()] + spec_u32_to_le_bytes(word),
                },
            ],
            r matches Err(e) ==> e is I2CError,
    {
        let mut buf: Vec<u8> = Vec::new();
        buf.push(register.addr());
        let wb = u32_to_le_bytes(word);
        buf.push(wb[0]);
        buf.push(wb[1]);
        buf.push(wb[2]);
        buf.push(wb[3]);
        proof {
            assert(buf@ =~= seq![register.spec_addr()] + spec_u32_to_le_bytes(word));
        }
        match self.i2c.write(self.address, buf.as_slice()) {
            Ok(()) => {
                proof {
                    assert(self.log() =~= old(self).log() + seq![
                        BusOp::Write {
                            dev: old(self).dev(),
                            data: seq![register.spec_addr()] + spec_u32_to_le_bytes(word),
                        },
                    ]);
                }
                Ok(())
            },
            Err(err) => {
                proof {
                    assert(old(self).log() + seq![
                        BusOp::Write {
                            dev: old(self).dev(),
                            data: seq![register.spec_addr()] + spec_u32_to_le_bytes(word),
                        },
                    ] =~= old(self).log().push(BusOp::Write { dev: old(self).dev(), data: buf@ }));
                }
                Err(Error::I2CError(err))
            },
        }
    }

    /// Write a double-word register: one bus write of the register address
    /// followed by the eight little-endian bytes of the word.
    pub(crate) fn write_double_word(&mut self, register: Register, word: u64) -> (r: Result<
        (),
        Error<T::BusError>,
    >)
        ensures
            final(self).dev() == old(self).dev(),
            r is Ok ==> final(self).log() == old(self).log() + seq![
                BusOp::Write {
                    dev: old(self).dev(),
                    data: seq![register.spec_addr()] + spec_u64_to_le_bytes(word),
                },
            ],
            r is Err ==> final(self).log() == old(self).log() || final(self).log() == old(
                self,
            ).log() + seq![
                BusOp::Write {
                    dev: old(self).dev(),
                    data: seq![register.spec_addr()] + spec_u64_to_le_bytes(word),
                },
            ],
            r matches Err(e) ==> e is I2CError,
    {
        let mut buf: Vec<u8> = Vec::new();
        buf.push(register.addr());
        let wb = u64_to_le_bytes(word);
        let mut k: usize = 0;
        while k < 8
            invariant
                k <= 8,
                wb@ == spec_u64_to_le_bytes(word),
                wb@.len() == 8,
                buf@ =~= seq![register.spec_addr()] + wb@.take(k as int),
            decreases 8 - k,
        {
            buf.push(wb[k]);
            k += 1;
        }
        proof {
            assert(buf@ =~= seq![register.spec_addr()] + spec_u64_to_le_bytes(word));
        }
        match self.i2c.write(self.address, buf.as_slice()) {
            Ok(()) => {
                proof {
                    assert(self.log() =~= old(self).log() + seq![
                        BusOp::Write {
                            dev: old(self).dev(),
                            data: seq![register.spec_addr()] + spec_u64_to_le_bytes(word),
                        },
                    ]);
                }
                Ok(())
            },
            Err(err) => {
                proof {
                    assert(old(self).log() + seq![
                        BusOp::Write {
                            dev: old(self).dev(),
                            data: seq![register.spec_addr()] + spec_u64_to_le_bytes(word),
                        },
                    ] =~= old(self).log().push(BusOp::Write { dev: old(self).dev(), data: buf@ }));
                }
                Err(Error::I2CError(err))
            },
        }
    }

    /// Read a word register: the address phase, then a four-byte read
    /// decoded little-endian.
    pub(crate) fn read_word(&mut self, register: Register) -> (r: Result<u32, Error<T::BusError>>)
        ensures
            final(self).dev() == old(self).dev(),
            r matches Ok(w) ==> final(self).log() == old(self).log() + reg_read_ops(
                old(self).dev(),
                register.spec_addr(),
                spec_u32_to_le_bytes(w),
            ),
            r is Err ==> is_aborted_reg_read(
                old(self).dev(),
                register.spec_addr(),
                old(self).log(),
                final(self).log(),
            ),
            r matches Err(e) ==> e is I2CError,
    {
        let mut addr_buf: Vec<u8> = Vec::new();
        addr_buf.push(register.addr());
        proof {
            assert(addr_buf@ =~= seq![register.spec_addr()]);
        }
        match self.i2c.write(self.address, addr_buf.as_slice()) {
            Ok(()) => {},
            Err(err) => {
                proof {
                    assert(is_aborted_reg_read(
                        old(self).dev(),
                        register.spec_addr(),
                        old(self).log(),
                        self.log(),
                    ));
                }
                return Err(Error::I2CError(err));
            },
        }
        match self.i2c.read(self.address, 4) {
            Ok(buf) => {
                let w = u32_from_le_bytes(buf.as_slice());
                proof {
                    lemma_auto_spec_u32_to_from_le_bytes();
                    assert(spec_u32_to_le_bytes(w) == buf@);
                    assert(self.log() =~= old(self).log() + reg_read_ops(
                        old(self).dev(),
                        register.spec_addr(),
                        spec_u32_to_le_bytes(w),
                    ));
                }
                Ok(w)
            },
            Err(err) => {
                proof {
                    assert(is_aborted_reg_read(
                        old(self).dev(),
                        register.spec_addr(),
                        old(self).log(),
                        self.log(),
                    ));
                }
                Err(Error::I2CError(err))
            },
        }
    }

    /// Read a double-word register: the address phase, then an eight-byte
    /// read decoded little-endian.
    pub(crate) fn read_double_word(&mut self, register: Register) -> (r: Result<
        u64,
        Error<T::BusError>,
    >)
        ensures
            final(self).dev() == old(self).dev(),
            r matches Ok(w) ==> final(self).log() == old(self).log() + reg_read_ops(
                old(self).dev(),
                register.spec_addr(),
                spec_u64_to_le_bytes(w),
            ),
            r is Err ==> is_aborted_reg_read(
                old(self).dev(),
                register.spec_addr(),
                old(self).log(),
                final(self).log(),
            ),
            r matches Err(e) ==> e is I2CError,
    {
        let mut addr_buf: Vec<u8> = Vec::new();
        addr_buf.push(register.addr());
        proof {
            assert(addr_buf@ =~= seq![register.spec_addr()]);
        }
        match self.i2c.write(self.address, addr_buf.as_slice()) {
            Ok(()) => {},
            Err(err) => {
                proof {
                    assert(is_aborted_reg_read(
                        old(self).dev(),
                        register.spec_addr(),
                        old(self).log(),
                        self.log(),
                    ));
                }
                return Err(Error::I2CError(err));
            },
        }
        match self.i2c.read(self.address, 8) {
            Ok(buf) => {
                let w = u64_from_le_bytes(buf.as_slice());
                proof {
                    lemma_auto_spec_u64_to_from_le_bytes();
                    assert(spec_u64_to_le_bytes(w) == buf@);
                    assert(self.log() =~= old(self).log() + reg_read_ops(
                        old(self).dev(),
                        register.spec_addr(),
                        spec_u64_to_le_bytes(w),
                    ));
                }
                Ok(w)
            },
            Err(err) => {
                proof {
                    assert(is_aborted_reg_read(
                        old(self).dev(),
                        register.spec_addr(),
                        old(self).log(),
                        self.log(),
                    ));
                }
                Err(Error::I2CError(err))
            },
        }
    }

    /// Read the whole interrupt register block once, purely to drain the
    /// pending flags; the bytes themselves are discarded.
    pub fn clear_interrupts(&mut self) -> (r: Result<(), Error<T::BusError>>)
        ensures
            final(self).dev() == old(self).dev(),
            r is Ok ==> exists|flags: Seq<u8>|
                flags.len() == 10 && final(self).log() == old(self).log() + #[trigger] reg_read_ops(
                    old(self).dev(),
                    Register::PortStatus0.spec_addr(),
                    flags,
                ),
            r is Err ==> is_aborted_reg_read(
                old(self).dev(),
                Register::PortStatus0.spec_addr(),
                old(self).log(),
                final(self).log(),
            ),
            r matches Err(e) ==> e is I2CError,
    {
        let mut addr_buf: Vec<u8> = Vec::new();
        addr_buf.push(Register::PortStatus0.addr());
        proof {
            assert(addr_buf@ =~= seq![Register::PortStatus0.spec_addr()]);
        }
        match self.i2c.write(self.address, addr_buf.as_slice()) {
            Ok(()) => {},
            Err(err) => {
                proof {
                    assert(is_aborted_reg_read(
                        old(self).dev(),
                        Register::PortStatus0.spec_addr(),
                        old(self).log(),
                        self.log(),
                    ));
                }
                return Err(Error::I2CError(err));
            },
        }
        match self.i2c.read(self.address, 10) {
            Ok(buf) => {
                proof {
                    assert(self.log() =~= old(self).log() + reg_read_ops(
                        old(self).dev(),
                        Register::PortStatus0.spec_addr(),
                        buf@,
                    ));
                }
                Ok(())
            },
            Err(err) => {
                proof {
                    assert(is_aborted_reg_read(
                        old(self).dev(),
                        Register::PortStatus0.spec_addr(),
                        old(self).log(),
                        self.log(),
                    ));
                }
                Err(Error::I2CError(err))
            },
        }
    }

    /// Set the interrupt mask register.
    pub fn set_alerts_mask(&mut self, alerts: AlertMask) -> (r: Result<(), Error<T::BusError>>)
        ensures
            final(self).dev() == old(self).dev(),
            r is Ok ==> final(self).log() == old(self).log() + reg_write_ops(
                old(self).dev(),
                Register::AlertStatus1Mask.spec_addr(),
                alerts.bits,
            ),
            r is Err ==> final(self).log() == old(self).log() || final(self).log() == old(
                self,
            ).log() + reg_write_ops(
                old(self).dev(),
                Register::AlertStatus1Mask.spec_addr(),
                alerts.bits,
            ),
            r matches Err(e) ==> e is I2CError,
    {
        self.write(Register::AlertStatus1Mask, alerts.bits())
    }

    /// Read the active alert flags; the device clears them by the read.
    pub fn get_alerts(&mut self) -> (r: Result<Alert, Error<T::BusError>>)
        ensures
            final(self).dev() == old(self).dev(),
            r matches Ok(a) ==> final(self).log() == old(self).log() + reg_read_ops(
                old(self).dev(),
                Register::AlertStatus1.spec_addr(),
                seq![a.bits],
            ),
            r is Err ==> is_aborted_reg_read(
                old(self).dev(),
                Register::AlertStatus1.spec_addr(),
                old(self).log(),
                final(self).log(),
            ),
            r matches Err(e) ==> e is I2CError,
    {
        match self.read(Register::AlertStatus1) {
            Ok(v) => Ok(Alert::from_masked_bits(v)),
            Err(err) => Err(err),
        }
    }

    /// Perform a soft reset: the fixed two-write command sequence that
    /// triggers renegotiation of the PDOs. Fire-and-forget, no polling.
    pub fn soft_reset(&mut self) -> (r: Result<(), Error<T::BusError>>)
        ensures
            final(self).dev() == old(self).dev(),
            r is Ok ==> final(self).log() == old(self).log() + reg_write_ops(
                old(self).dev(),
                Register::TXHeaderL.spec_addr(),
                0x0D,
            ) + reg_write_ops(old(self).dev(), Register::PDCommandCtrl.spec_addr(), 0x26),
            r is Err ==> {
                ||| final(self).log() == old(self).log()
                ||| final(self).log() == old(self).log() + reg_write_ops(
                    old(self).dev(),
                    Register::TXHeaderL.spec_addr(),
                    0x0D,
                )
                ||| final(self).log() == old(self).log() + reg_write_ops(
                    old(self).dev(),
                    Register::TXHeaderL.spec_addr(),
                    0x0D,
                ) + reg_write_ops(old(self).dev(), Register::PDCommandCtrl.spec_addr(), 0x26)
            },
            r matches Err(e) ==> e is I2CError,
    {
        match self.write(Register::TXHeaderL, 0x0D) {
            Ok(()) => {},
            Err(err) => {
                return Err(err);
            },
        }
        match self.write(Register::PDCommandCtrl, 0x26) {
            Ok(()) => {},
            Err(err) => {
                return Err(err);
            },
        }
        Ok(())
    }

    /// Write one PDO register slot. Only a Fixed PDO is accepted: a
    /// non-Fixed shape is rejected with the invalid-PDO error and an
    /// over-wide field with the out-of-range error, in both cases before
    /// anything touches the bus.
    pub fn set_pdo(&mut self, pdo: PdoChannel, data: &Pdo) -> (r: Result<(), Error<T::BusError>>)
        ensures
            final(self).dev() == old(self).dev(),
            !data.spec_is_fixed() ==> r == Err::<(), Error<T::BusError>>(Error::InvalidPdo)
                && *final(self) == *old(self),
            data.spec_is_fixed() && data.spec_bits() is None ==> r == Err::<
                (),
                Error<T::BusError>,
            >(Error::OutaRangePdo) && *final(self) == *old(self),
            r is Ok ==> (data.spec_bits() matches Some(w) && final(self).log() == old(
                self,
            ).log() + seq![
                BusOp::Write {
                    dev: old(self).dev(),
                    data: seq![pdo.spec_register().spec_addr()] + spec_u32_to_le_bytes(w),
                },
            ]),
            data.spec_bits() matches Some(w) ==> (r is Err ==> final(self).log() == old(
                self,
            ).log() || final(self).log() == old(self).log() + seq![
                BusOp::Write {
                    dev: old(self).dev(),
                    data: seq![pdo.spec_register().spec_addr()] + spec_u32_to_le_bytes(w),
                },
            ]),
            data.spec_bits() is Some ==> (r matches Err(e) ==> e is I2CError),
    {
        match data {
            Pdo::Fixed { .. } => {
                match data.bits() {
                    Some(w) => {
                        let reg = match pdo {
                            PdoChannel::PDO1 => Register::DPMSNKPDO1,
                            PdoChannel::PDO2 => Register::DPMSNKPDO2,
                            PdoChannel::PDO3 => Register::DPMSNKPDO3,
                        };
                        self.write_word(reg, w)
                    },
                    None => Err(Error::OutaRangePdo),
                }
            },
            _ => Err(Error::InvalidPdo),
        }
    }

    /// Read one PDO register slot and decode it. A slot holding a word
    /// whose type selector is not Fixed yields the invalid-PDO error.
    pub fn get_pdo(&mut self, pdo: PdoChannel) -> (r: Result<Pdo, Error<T::BusError>>)
        ensures
            final(self).dev() == old(self).dev(),
            r matches Ok(p) ==> (p.spec_bits() matches Some(w) && spec_decode_pdo(w) == Some(p)
                && final(self).log() == old(self).log() + reg_read_ops(
                old(self).dev(),
                pdo.spec_register().spec_addr(),
                spec_u32_to_le_bytes(w),
            )),
            r == Err::<Pdo, Error<T::BusError>>(Error::InvalidPdo) ==> exists|w: u32|
                !spec_word_is_fixed(w) && final(self).log() == old(self).log() + reg_read_ops(
                    old(self).dev(),
                    pdo.spec_register().spec_addr(),
                    #[trigger] spec_u32_to_le_bytes(w),
                ),
            r matches Err(e) ==> (e is I2CError ==> is_aborted_reg_read(
                old(self).dev(),
                pdo.spec_register().spec_addr(),
                old(self).log(),
                final(self).log(),
            )),
            r matches Err(e) ==> e is I2CError || e is InvalidPdo,
    {
        let reg = match pdo {
            PdoChannel::PDO1 => Register::DPMSNKPDO1,
            PdoChannel::PDO2 => Register::DPMSNKPDO2,
            PdoChannel::PDO3 => Register::DPMSNKPDO3,
        };
        match self.read_word(reg) {
            Ok(w) => {
                match Pdo::from_bits(w) {
                    Some(p) => {
                        proof {
                            lemma_word_round_trip(w);
                        }
                        Ok(p)
                    },
                    None => Err(Error::InvalidPdo),
                }
            },
            Err(err) => Err(err),
        }
    }

    /// Read the currently negotiated request data object. Any word is a
    /// valid snapshot, so success only depends on the transport.
    pub fn get_current_rdo(&mut self) -> (r: Result<Rdo, Error<T::BusError>>)
        ensures
            final(self).dev() == old(self).dev(),
            r matches Ok(rdo) ==> final(self).log() == old(self).log() + reg_read_ops(
                old(self).dev(),
                Register::RDORegStatus.spec_addr(),
                spec_u32_to_le_bytes(rdo.0),
            ),
            r is Err ==> is_aborted_reg_read(
                old(self).dev(),
                Register::RDORegStatus.spec_addr(),
                old(self).log(),
                final(self).log(),
            ),
            r matches Err(e) ==> e is I2CError,
    {
        match self.read_word(Register::RDORegStatus) {
            Ok(w) => Ok(Rdo(w)),
            Err(err) => Err(err),
        }
    }

    /// Set how many of the PDO slots the device advertises. Only 1 to 3 are
    /// valid; anything else is rejected with the out-of-range error before
    /// anything touches the bus.
    pub fn set_num_pdo(&mut self, num: u8) -> (r: Result<(), Error<T::BusError>>)
        ensures
            final(self).dev() == old(self).dev(),
            (num < 1 || num > 3) ==> r == Err::<(), Error<T::BusError>>(Error::OutaRangePdo)
                && *final(self) == *old(self),
            r is Ok ==> 1 <= num && num <= 3 && final(self).log() == old(self).log() + reg_write_ops(
                old(self).dev(),
                Register::DPMPDONumb.spec_addr(),
                num,
            ),
            1 <= num && num <= 3 ==> (r is Err ==> final(self).log() == old(self).log() || final(self).log() == old(self).log() + reg_write_ops(
                old(self).dev(),
                Register::DPMPDONumb.spec_addr(),
                num,
            )),
            1 <= num && num <= 3 ==> (r matches Err(e) ==> e is I2CError),
    {
        match num {
            1..=3 => self.write(Register::DPMPDONumb, num),
            _ => Err(Error::OutaRangePdo),
        }
    }

    /// Poll the control register until the command-request bit clears, up
    /// to `NVM_POLL_LIMIT` reads. A live device clears the bit within a few
    /// reads; a dead one surfaces as `NvmTimeout` instead of hanging the
    /// caller forever.
    fn nvm_wait(&mut self) -> (r: Result<(), Error<T::BusError>>)
        ensures
            final(self).dev() == old(self).dev(),
            r is Ok ==> exists|p: Seq<BusOp>| #[trigger]
                is_poll(old(self).dev(), p) && final(self).log() == old(self).log() + p,
            r == Err::<(), Error<T::BusError>>(Error::NvmTimeout) ==> exists|vals: Seq<u8>|
                #![trigger poll_trace(old(self).dev(), vals)]
                {
                    &&& vals.len() == NVM_POLL_LIMIT
                    &&& forall|i: int| 0 <= i < vals.len() ==> spec_busy(#[trigger] vals[i])
                    &&& final(self).log() == old(self).log() + poll_trace(old(self).dev(), vals)
                },
            r matches Err(e) ==> (e is I2CError ==> is_aborted_poll(
                old(self).dev(),
                NVM_POLL_LIMIT as int,
                old(self).log(),
                final(self).log(),
            )),
            r matches Err(e) ==> e is I2CError || e is NvmTimeout,
    {
        let ghost base = self.log();
        let ghost dev = self.dev();
        let ghost mut vals: Seq<u8> = Seq::<u8>::empty();
        let mut tries: u32 = 0;
        while tries < NVM_POLL_LIMIT
            invariant
                self.dev() == dev,
                dev == old(self).dev(),
                base == old(self).log(),
                self.log() == base + poll_trace(dev, vals),
                vals.len() == tries,
                tries <= NVM_POLL_LIMIT,
                forall|i: int| 0 <= i < vals.len() ==> spec_busy(#[trigger] vals[i]),
            decreases NVM_POLL_LIMIT - tries,
        {
            match self.read(Register::CTRL0) {
                Ok(value) => {
                    proof {
                        lemma_poll_trace_push(dev, vals, value);
                        vals = vals.push(value);
                    }
                    if value & CTRL0_REQ == 0 {
                        proof {
                            assert(!spec_busy(vals.last()));
                            assert(spec_poll_vals_ok(vals));
                            assert(is_poll(dev, poll_trace(dev, vals)));
                        }
                        return Ok(());
                    }
                    proof {
                        assert(spec_busy(vals.last()));
                    }
                },
                Err(err) => {
                    proof {
                        assert(is_aborted_reg_read(
                            dev,
                            Register::CTRL0.spec_addr(),
                            base + poll_trace(dev, vals),
                            self.log(),
                        ));
                        assert(is_aborted_poll(dev, NVM_POLL_LIMIT as int, base, self.log()));
                    }
                    return Err(err);
                },
            }
            tries += 1;
        }
        proof {
            assert(vals.len() == NVM_POLL_LIMIT);
            assert(self.log() == old(self).log() + poll_trace(old(self).dev(), vals));
        }
        Err(Error::NvmTimeout)
    }

    /// Lock or unlock the NVM: write the matching password, then poll the
    /// command register until idle.
    fn set_nvm_lock(&mut self, lock: bool) -> (r: Result<(), Error<T::BusError>>)
        ensures
            final(self).dev() == old(self).dev(),
            r is Ok ==> exists|t: Seq<BusOp>| #[trigger]
                is_lock_step(old(self).dev(), lock, t) && final(self).log() == old(self).log() + t,
            r == Err::<(), Error<T::BusError>>(Error::NvmTimeout) ==> nvm_timeout_post(
                old(self).dev(),
                NVM_POLL_LIMIT as int,
                old(self).log(),
                final(self).log(),
            ),
            r matches Err(e) ==> (e is I2CError ==> is_aborted_lock_step(
                old(self).dev(),
                lock,
                NVM_POLL_LIMIT as int,
                old(self).log(),
                final(self).log(),
            )),
            r matches Err(e) ==> e is I2CError || e is NvmTimeout,
    {
        let ghost dev = self.dev();
        if lock {
            match self.write(Register::Password, NVM_LOCK_PASSWORD) {
                Ok(()) => {},
                Err(err) => {
                    proof {
                        lemma_aborted_poll_trivial(dev, NVM_POLL_LIMIT as int, self.log());
                        assert(is_aborted_lock_step(
                            dev,
                            lock,
                            NVM_POLL_LIMIT as int,
                            old(self).log(),
                            self.log(),
                        ));
                    }
                    return Err(err);
                },
            }
        } else {
            match self.write(Register::Password, NVM_UNLOCK_PASSWORD) {
                Ok(()) => {},
                Err(err) => {
                    proof {
                        lemma_aborted_poll_trivial(dev, NVM_POLL_LIMIT as int, self.log());
                        assert(is_aborted_lock_step(
                            dev,
                            lock,
                            NVM_POLL_LIMIT as int,
                            old(self).log(),
                            self.log(),
                        ));
                    }
                    return Err(err);
                },
            }
        }
        let ghost w_ops = reg_write_ops(dev, Register::Password.spec_addr(), spec_password(lock));
        let ghost mid = self.log();
        proof {
            assert(mid == old(self).log() + w_ops);
        }
        match self.nvm_wait() {
            Ok(()) => {
                proof {
                    let p = choose|p: Seq<BusOp>| is_poll(dev, p) && self.log() == mid + p;
                    assert(self.log() =~= old(self).log() + (w_ops + p));
                    assert(is_lock_step(dev, lock, w_ops + p));
                }
                Ok(())
            },
            Err(err) => {
                proof {
                    if err is NvmTimeout {
                        let vals = choose|vals: Seq<u8>|
                            {
                                &&& vals.len() == NVM_POLL_LIMIT
                                &&& forall|i: int|
                                    0 <= i < vals.len() ==> spec_busy(#[trigger] vals[i])
                                &&& self.log() == mid + poll_trace(dev, vals)
                            };
                        let ex = poll_trace(dev, vals);
                        assert(is_exhausted_poll(dev, NVM_POLL_LIMIT as int, ex));
                        assert(self.log() =~= old(self).log() + (w_ops + ex));
                        assert(nvm_timeout_post(
                            dev,
                            NVM_POLL_LIMIT as int,
                            old(self).log(),
                            self.log(),
                        ));
                    }
                    if err is I2CError {
                        assert(is_aborted_lock_step(
                            dev,
                            lock,
                            NVM_POLL_LIMIT as int,
                            old(self).log(),
                            self.log(),
                        ));
                    }
                }
                Err(err)
            },
        }
    }

    /// Erase the whole NVM: load the all-sector erase mask, soft-program,
    /// then erase, polling after each command. The erase is unconditional
    /// across all sectors, never selective.
    fn delete_nvm(&mut self) -> (r: Result<(), Error<T::BusError>>)
        ensures
            final(self).dev() == old(self).dev(),
            r is Ok ==> exists|t: Seq<BusOp>| #[trigger]
                is_erase_step(old(self).dev(), t) && final(self).log() == old(self).log() + t,
            r == Err::<(), Error<T::BusError>>(Error::NvmTimeout) ==> nvm_timeout_post(
                old(self).dev(),
                NVM_POLL_LIMIT as int,
                old(self).log(),
                final(self).log(),
            ),
            r matches Err(e) ==> (e is I2CError ==> is_aborted_erase_step(
                old(self).dev(),
                NVM_POLL_LIMIT as int,
                old(self).log(),
                final(self).log(),
            )),
            r matches Err(e) ==> e is I2CError || e is NvmTimeout,
    {
        let ghost dev = self.dev();
        match self.write(Register::CTRL1, NVM_ERASE_ALL) {
            Ok(()) => {},
            Err(err) => {
                proof {
                    if err is I2CError {
                        lemma_aborted_poll_trivial(dev, NVM_POLL_LIMIT as int, self.log());
                        assert(is_aborted_erase_step(dev, NVM_POLL_LIMIT as int, old(self).log(), self.log()));
                    }
                }
                return Err(err);
            },
        }
        match self.write(Register::CTRL0, CTRL0_DEFAULT) {
            Ok(()) => {},
            Err(err) => {
                proof {
                    if err is I2CError {
                        lemma_aborted_poll_trivial(dev, NVM_POLL_LIMIT as int, self.log());
                        assert(is_aborted_erase_step(dev, NVM_POLL_LIMIT as int, old(self).log(), self.log()));
                    }
                }
                return Err(err);
            },
        }
        let ghost m1 = self.log();
        match self.nvm_wait() {
            Ok(()) => {},
            Err(err) => {
                proof {
                    if err is NvmTimeout {
                        let lead = reg_write_ops(dev, Register::CTRL1.spec_addr(), NVM_ERASE_ALL)
                            + reg_write_ops(dev, Register::CTRL0.spec_addr(), CTRL0_DEFAULT);
                        assert(m1 =~= old(self).log() + lead);
                        lemma_wait_timeout(
                            dev,
                            NVM_POLL_LIMIT as int,
                            old(self).log(),
                            lead,
                            self.log(),
                        );
                    }
                    if err is I2CError {
                        assert(is_aborted_erase_step(dev, NVM_POLL_LIMIT as int, old(self).log(), self.log()));
                    }
                }
                return Err(err);
            },
        }
        let ghost p1 = choose|p: Seq<BusOp>| is_poll(dev, p) && self.log() == m1 + p;
        match self.write(Register::CTRL1, NVM_CMD_SOFT_PROG_SECTOR) {
            Ok(()) => {},
            Err(err) => {
                proof {
                    if err is I2CError {
                        lemma_aborted_poll_trivial(dev, NVM_POLL_LIMIT as int, self.log());
                        assert(is_aborted_erase_step(dev, NVM_POLL_LIMIT as int, old(self).log(), self.log()));
                    }
                }
                return Err(err);
            },
        }
        match self.write(Register::CTRL0, CTRL0_DEFAULT) {
            Ok(()) => {},
            Err(err) => {
                proof {
                    if err is I2CError {
                        lemma_aborted_poll_trivial(dev, NVM_POLL_LIMIT as int, self.log());
                        assert(is_aborted_erase_step(dev, NVM_POLL_LIMIT as int, old(self).log(), self.log()));
                    }
                }
                return Err(err);
            },
        }
        let ghost m2 = self.log();
        match self.nvm_wait() {
            Ok(()) => {},
            Err(err) => {
                proof {
                    if err is NvmTimeout {
                        let lead = reg_write_ops(dev, Register::CTRL1.spec_addr(), NVM_ERASE_ALL)
                            + reg_write_ops(dev, Register::CTRL0.spec_addr(), CTRL0_DEFAULT) + p1
                            + reg_write_ops(
                            dev,
                            Register::CTRL1.spec_addr(),
                            NVM_CMD_SOFT_PROG_SECTOR,
                        ) + reg_write_ops(dev, Register::CTRL0.spec_addr(), CTRL0_DEFAULT);
                        assert(m2 =~= old(self).log() + lead);
                        lemma_wait_timeout(
                            dev,
                            NVM_POLL_LIMIT as int,
                            old(self).log(),
                            lead,
                            self.log(),
                        );
                    }
                    if err is I2CError {
                        assert(is_aborted_erase_step(dev, NVM_POLL_LIMIT as int, old(self).log(), self.log()));
                    }
                }
                return Err(err);
            },
        }
        let ghost p2 = choose|p: Seq<BusOp>| is_poll(dev, p) && self.log() == m2 + p;
        match self.write(Register::CTRL1, NVM_CMD_ERASE_SECTOR) {
            Ok(()) => {},
            Err(err) => {
                proof {
                    if err is I2CError {
                        lemma_aborted_poll_trivial(dev, NVM_POLL_LIMIT as int, self.log());
                        assert(is_aborted_erase_step(dev, NVM_POLL_LIMIT as int, old(self).log(), self.log()));
                    }
                }
                return Err(err);
            },
        }
        match self.write(Register::CTRL0, CTRL0_DEFAULT) {
            Ok(()) => {},
            Err(err) => {
                proof {
                    if err is I2CError {
                        lemma_aborted_poll_trivial(dev, NVM_POLL_LIMIT as int, self.log());
                        assert(is_aborted_erase_step(dev, NVM_POLL_LIMIT as int, old(self).log(), self.log()));
                    }
                }
                return Err(err);
            },
        }
        let ghost m3 = self.log();
        match self.nvm_wait() {
            Ok(()) => {},
            Err(err) => {
                proof {
                    if err is NvmTimeout {
                        let lead = reg_write_ops(dev, Register::CTRL1.spec_addr(), NVM_ERASE_ALL)
                            + reg_write_ops(dev, Register::CTRL0.spec_addr(), CTRL0_DEFAULT) + p1
                            + reg_write_ops(
                            dev,
                            Register::CTRL1.spec_addr(),
                            NVM_CMD_SOFT_PROG_SECTOR,
                        ) + reg_write_ops(dev, Register::CTRL0.spec_addr(), CTRL0_DEFAULT) + p2
                            + reg_write_ops(dev, Register::CTRL1.spec_addr(), NVM_CMD_ERASE_SECTOR)
                            + reg_write_ops(dev, Register::CTRL0.spec_addr(), CTRL0_DEFAULT);
                        assert(m3 =~= old(self).log() + lead);
                        lemma_wait_timeout(
                            dev,
                            NVM_POLL_LIMIT as int,
                            old(self).log(),
                            lead,
                            self.log(),
                        );
                    }
                    if err is I2CError {
                        assert(is_aborted_erase_step(dev, NVM_POLL_LIMIT as int, old(self).log(), self.log()));
                    }
                }
                return Err(err);
            },
        }
        proof {
            let p3 = choose|p: Seq<BusOp>| is_poll(dev, p) && self.log() == m3 + p;
            let t = reg_write_ops(dev, Register::CTRL1.spec_addr(), NVM_ERASE_ALL) + reg_write_ops(
                dev,
                Register::CTRL0.spec_addr(),
                CTRL0_DEFAULT,
            ) + p1 + reg_write_ops(dev, Register::CTRL1.spec_addr(), NVM_CMD_SOFT_PROG_SECTOR)
                + reg_write_ops(dev, Register::CTRL0.spec_addr(), CTRL0_DEFAULT) + p2
                + reg_write_ops(dev, Register::CTRL1.spec_addr(), NVM_CMD_ERASE_SECTOR)
                + reg_write_ops(dev, Register::CTRL0.spec_addr(), CTRL0_DEFAULT) + p3;
            assert(is_erase_step(dev, t));
            assert(self.log() =~= old(self).log() + t);
        }
        Ok(())
    }

    /// Program one sector: stage the data in the buffer register, load the
    /// program register, then program the selected sector, polling after
    /// each command.
    fn write_nvm_sector(&mut self, sector: u8, data: u64) -> (r: Result<(), Error<T::BusError>>)
        ensures
            final(self).dev() == old(self).dev(),
            r is Ok ==> exists|t: Seq<BusOp>| #[trigger]
                is_write_sector_step(old(self).dev(), sector, data, t) && final(self).log() == old(
                    self,
                ).log() + t,
            r == Err::<(), Error<T::BusError>>(Error::NvmTimeout) ==> nvm_timeout_post(
                old(self).dev(),
                NVM_POLL_LIMIT as int,
                old(self).log(),
                final(self).log(),
            ),
            r matches Err(e) ==> (e is I2CError ==> is_aborted_write_sector_step(
                old(self).dev(),
                sector,
                data,
                NVM_POLL_LIMIT as int,
                old(self).log(),
                final(self).log(),
            )),
            r matches Err(e) ==> e is I2CError || e is NvmTimeout,
    {
        let ghost dev = self.dev();
        match self.write_double_word(Register::RWBuffer, data) {
            Ok(()) => {},
            Err(err) => {
                proof {
                    if err is I2CError {
                        lemma_aborted_poll_trivial(dev, NVM_POLL_LIMIT as int, self.log());
                        assert(is_aborted_write_sector_step(
                            dev,
                            sector,
                            data,
                            NVM_POLL_LIMIT as int,
                            old(self).log(),
                            self.log(),
                        ));
                    }
                }
                return Err(err);
            },
        }
        match self.write(Register::CTRL1, NVM_CMD_WRITE_PL) {
            Ok(()) => {},
            Err(err) => {
                proof {
                    if err is I2CError {
                        lemma_aborted_poll_trivial(dev, NVM_POLL_LIMIT as int, self.log());
                        assert(is_aborted_write_sector_step(
                            dev,
                            sector,
                            data,
                            NVM_POLL_LIMIT as int,
                            old(self).log(),
                            self.log(),
                        ));
                    }
                }
                return Err(err);
            },
        }
        match self.write(Register::CTRL0, CTRL0_DEFAULT) {
            Ok(()) => {},
            Err(err) => {
                proof {
                    if err is I2CError {
                        lemma_aborted_poll_trivial(dev, NVM_POLL_LIMIT as int, self.log());
                        assert(is_aborted_write_sector_step(
                            dev,
                            sector,
                            data,
                            NVM_POLL_LIMIT as int,
                            old(self).log(),
                            self.log(),
                        ));
                    }
                }
                return Err(err);
            },
        }
        let ghost m1 = self.log();
        match self.nvm_wait() {
            Ok(()) => {},
            Err(err) => {
                proof {
                    if err is NvmTimeout {
                        let lead = seq![
                            BusOp::Write {
                                dev,
                                data: seq![Register::RWBuffer.spec_addr()] + spec_u64_to_le_bytes(
                                    data,
                                ),
                            },
                        ] + reg_write_ops(dev, Register::CTRL1.spec_addr(), NVM_CMD_WRITE_PL)
                            + reg_write_ops(dev, Register::CTRL0.spec_addr(), CTRL0_DEFAULT);
                        assert(m1 =~= old(self).log() + lead);
                        lemma_wait_timeout(
                            dev,
                            NVM_POLL_LIMIT as int,
                            old(self).log(),
                            lead,
                            self.log(),
                        );
                    }
                    if err is I2CError {
                        assert(is_aborted_write_sector_step(
                            dev,
                            sector,
                            data,
                            NVM_POLL_LIMIT as int,
                            old(self).log(),
                            self.log(),
                        ));
                    }
                }
                return Err(err);
            },
        }
        let ghost p1 = choose|p: Seq<BusOp>| is_poll(dev, p) && self.log() == m1 + p;
        match self.write(Register::CTRL1, NVM_CMD_PROG_SECTOR) {
            Ok(()) => {},
            Err(err) => {
                proof {
                    if err is I2CError {
                        lemma_aborted_poll_trivial(dev, NVM_POLL_LIMIT as int, self.log());
                        assert(is_aborted_write_sector_step(
                            dev,
                            sector,
                            data,
                            NVM_POLL_LIMIT as int,
                            old(self).log(),
                            self.log(),
                        ));
                    }
                }
                return Err(err);
            },
        }
        match self.write(Register::CTRL0, CTRL0_DEFAULT | (sector & CTRL0_SECT)) {
            Ok(()) => {},
            Err(err) => {
                proof {
                    if err is I2CError {
                        lemma_aborted_poll_trivial(dev, NVM_POLL_LIMIT as int, self.log());
                        assert(is_aborted_write_sector_step(
                            dev,
                            sector,
                            data,
                            NVM_POLL_LIMIT as int,
                            old(self).log(),
                            self.log(),
                        ));
                    }
                }
                return Err(err);
            },
        }
        let ghost m2 = self.log();
        match self.nvm_wait() {
            Ok(()) => {},
            Err(err) => {
                proof {
                    if err is NvmTimeout {
                        let lead = seq![
                            BusOp::Write {
                                dev,
                                data: seq![Register::RWBuffer.spec_addr()] + spec_u64_to_le_bytes(
                                    data,
                                ),
                            },
                        ] + reg_write_ops(dev, Register::CTRL1.spec_addr(), NVM_CMD_WRITE_PL)
                            + reg_write_ops(dev, Register::CTRL0.spec_addr(), CTRL0_DEFAULT) + p1
                            + reg_write_ops(dev, Register::CTRL1.spec_addr(), NVM_CMD_PROG_SECTOR)
                            + reg_write_ops(
                            dev,
                            Register::CTRL0.spec_addr(),
                            CTRL0_DEFAULT | (sector & CTRL0_SECT),
                        );
                        assert(m2 =~= old(self).log() + lead);
                        lemma_wait_timeout(
                            dev,
                            NVM_POLL_LIMIT as int,
                            old(self).log(),
                            lead,
                            self.log(),
                        );
                    }
                    if err is I2CError {
                        assert(is_aborted_write_sector_step(
                            dev,
                            sector,
                            data,
                            NVM_POLL_LIMIT as int,
                            old(self).log(),
                            self.log(),
                        ));
                    }
                }
                return Err(err);
            },
        }
        proof {
            let p2 = choose|p: Seq<BusOp>| is_poll(dev, p) && self.log() == m2 + p;
            let t = seq![
                BusOp::Write {
                    dev,
                    data: seq![Register::RWBuffer.spec_addr()] + spec_u64_to_le_bytes(data),
                },
            ] + reg_write_ops(dev, Register::CTRL1.spec_addr(), NVM_CMD_WRITE_PL) + reg_write_ops(
                dev,
                Register::CTRL0.spec_addr(),
                CTRL0_DEFAULT,
            ) + p1 + reg_write_ops(dev, Register::CTRL1.spec_addr(), NVM_CMD_PROG_SECTOR)
                + reg_write_ops(
                dev,
                Register::CTRL0.spec_addr(),
                CTRL0_DEFAULT | (sector & CTRL0_SECT),
            ) + p2;
            assert(is_write_sector_step(dev, sector, data, t));
            assert(self.log() =~= old(self).log() + t);
        }
        Ok(())
    }

    /// Read one sector: issue the read command for the selected sector,
    /// poll to completion, then fetch the staged bytes from the buffer
    /// register.
    fn read_nvm_sector(&mut self, sector: u8) -> (r: Result<u64, Error<T::BusError>>)
        ensures
            final(self).dev() == old(self).dev(),
            r matches Ok(value) ==> exists|t: Seq<BusOp>| #[trigger]
                is_read_sector_step(old(self).dev(), sector, value, t) && final(self).log() == old(
                    self,
                ).log() + t,
            r == Err::<u64, Error<T::BusError>>(Error::NvmTimeout) ==> nvm_timeout_post(
                old(self).dev(),
                NVM_POLL_LIMIT as int,
                old(self).log(),
                final(self).log(),
            ),
            r matches Err(e) ==> (e is I2CError ==> is_aborted_read_sector_step(
                old(self).dev(),
                sector,
                NVM_POLL_LIMIT as int,
                old(self).log(),
                final(self).log(),
            )),
            r matches Err(e) ==> e is I2CError || e is NvmTimeout,
    {
        let ghost dev = self.dev();
        match self.write(Register::CTRL1, NVM_CMD_READ) {
            Ok(()) => {},
            Err(err) => {
                proof {
                    if err is I2CError {
                        lemma_aborted_poll_trivial(dev, NVM_POLL_LIMIT as int, self.log());
                        assert(is_aborted_read_sector_step(
                            dev,
                            sector,
                            NVM_POLL_LIMIT as int,
                            old(self).log(),
                            self.log(),
                        ));
                    }
                }
                return Err(err);
            },
        }
        match self.write(Register::CTRL0, CTRL0_DEFAULT | (sector & CTRL0_SECT)) {
            Ok(()) => {},
            Err(err) => {
                proof {
                    if err is I2CError {
                        lemma_aborted_poll_trivial(dev, NVM_POLL_LIMIT as int, self.log());
                        assert(is_aborted_read_sector_step(
                            dev,
                            sector,
                            NVM_POLL_LIMIT as int,
                            old(self).log(),
                            self.log(),
                        ));
                    }
                }
                return Err(err);
            },
        }
        let ghost m1 = self.log();
        match self.nvm_wait() {
            Ok(()) => {},
            Err(err) => {
                proof {
                    if err is NvmTimeout {
                        let lead = reg_write_ops(dev, Register::CTRL1.spec_addr(), NVM_CMD_READ)
                            + reg_write_ops(
                            dev,
                            Register::CTRL0.spec_addr(),
                            CTRL0_DEFAULT | (sector & CTRL0_SECT),
                        );
                        assert(m1 =~= old(self).log() + lead);
                        lemma_wait_timeout(
                            dev,
                            NVM_POLL_LIMIT as int,
                            old(self).log(),
                            lead,
                            self.log(),
                        );
                    }
                    if err is I2CError {
                        assert(is_aborted_read_sector_step(
                            dev,
                            sector,
                            NVM_POLL_LIMIT as int,
                            old(self).log(),
                            self.log(),
                        ));
                    }
                }
                return Err(err);
            },
        }
        let ghost p1 = choose|p: Seq<BusOp>| is_poll(dev, p) && self.log() == m1 + p;
        match self.read_double_word(Register::RWBuffer) {
            Ok(value) => {
                proof {
                    let t = reg_write_ops(dev, Register::CTRL1.spec_addr(), NVM_CMD_READ)
                        + reg_write_ops(
                        dev,
                        Register::CTRL0.spec_addr(),
                        CTRL0_DEFAULT | (sector & CTRL0_SECT),
                    ) + p1 + reg_read_ops(
                        dev,
                        Register::RWBuffer.spec_addr(),
                        spec_u64_to_le_bytes(value),
                    );
                    assert(is_read_sector_step(dev, sector, value, t));
                    assert(self.log() =~= old(self).log() + t);
                }
                Ok(value)
            },
            Err(err) => Err(err),
        }
    }

    /// Read the whole NVM image: unlock, read the five sectors in index
    /// order, lock again. The sequence aborts at the first failing step.
    #[verifier::spinoff_prover]
    #[verifier::rlimit(60)]
    pub fn get_nvm(&mut self) -> (r: Result<[u64; 5], Error<T::BusError>>)
        ensures
            final(self).dev() == old(self).dev(),
            r matches Ok(sectors) ==> nvm_read_post(
                old(self).dev(),
                old(self).log(),
                final(self).log(),
                sectors@,
            ),
            r == Err::<[u64; 5], Error<T::BusError>>(Error::NvmTimeout) ==> nvm_timeout_post(
                old(self).dev(),
                NVM_POLL_LIMIT as int,
                old(self).log(),
                final(self).log(),
            ),
            r matches Err(e) ==> (e is I2CError ==> is_aborted_nvm_read(
                old(self).dev(),
                NVM_POLL_LIMIT as int,
                old(self).log(),
                final(self).log(),
            )),
            r matches Err(e) ==> e is I2CError || e is NvmTimeout,
    {
        let ghost dev = self.dev();
        let mut buf: [u64; 5] = [0; 5];
        match self.set_nvm_lock(false) {
            Ok(()) => {},
            Err(err) => {
                proof {
                    if err is NvmTimeout {
                        assert(nvm_timeout_post(
                            dev,
                            NVM_POLL_LIMIT as int,
                            old(self).log(),
                            self.log(),
                        ));
                    }
                    if err is I2CError {
                        assert(is_aborted_nvm_read(dev, NVM_POLL_LIMIT as int, old(self).log(), self.log()));
                    }
                }
                return Err(err);
            },
        }
        let ghost u = choose|t: Seq<BusOp>|
            is_lock_step(dev, false, t) && self.log() == old(self).log() + t;
        let ghost base = self.log();
        let ghost mut body: Seq<BusOp> = Seq::<BusOp>::empty();
        let mut x: usize = 0;
        while x < 5
            invariant
                x <= 5,
                self.dev() == dev,
                dev == old(self).dev(),
                base == old(self).log() + u,
                is_lock_step(dev, false, u),
                self.log() == base + body,
                is_sector_reads(dev, 0, buf@.take(x as int), body),
            decreases 5 - x,
        {
            let ghost prev = self.log();
            let ghost old_taken = buf@.take(x as int);
            match self.read_nvm_sector(x as u8) {
                Ok(value) => {
                    buf[x] = value;
                    proof {
                        let t2 = choose|t: Seq<BusOp>|
                            is_read_sector_step(dev, x as u8, value, t) && self.log() == prev + t;
                        lemma_sector_reads_push(dev, 0, old_taken, body, value, t2);
                        assert(buf@.take(x + 1) =~= old_taken.push(value));
                        body = body + t2;
                        assert(self.log() =~= base + body);
                    }
                },
                Err(err) => {
                    proof {
                        if err is NvmTimeout {
                            assert(prev =~= old(self).log() + (u + body));
                            lemma_timeout_prepend(
                                dev,
                                NVM_POLL_LIMIT as int,
                                old(self).log(),
                                u + body,
                                self.log(),
                            );
                        }
                        if err is I2CError {
                            assert(prev =~= old(self).log() + u + body);
                            assert(is_aborted_read_sector_step(
                                dev,
                                x as u8,
                                NVM_POLL_LIMIT as int,
                                old(self).log() + u + body,
                                self.log(),
                            ));
                            assert(buf@.take(x as int).len() == x);
                            assert(is_aborted_nvm_read(
                            dev,
                            NVM_POLL_LIMIT as int,
                            old(self).log(),
                            self.log(),
                        ));
                        }
                    }
                    return Err(err);
                },
            }
            x += 1;
        }
        proof {
            assert(buf@.take(5) =~= buf@);
        }
        let ghost mid = self.log();
        match self.set_nvm_lock(true) {
            Ok(()) => {},
            Err(err) => {
                proof {
                    if err is NvmTimeout {
                        assert(mid =~= old(self).log() + (u + body));
                        lemma_timeout_prepend(
                            dev,
                            NVM_POLL_LIMIT as int,
                            old(self).log(),
                            u + body,
                            self.log(),
                        );
                    }
                    if err is I2CError {
                        assert(mid =~= old(self).log() + u + body);
                        assert(is_aborted_lock_step(
                            dev,
                            true,
                            NVM_POLL_LIMIT as int,
                            old(self).log() + u + body,
                            self.log(),
                        ));
                        assert(is_sector_reads(dev, 0, buf@, body));
                        assert(is_aborted_nvm_read(
                            dev,
                            NVM_POLL_LIMIT as int,
                            old(self).log(),
                            self.log(),
                        ));
                    }
                }
                return Err(err);
            },
        }
        proof {
            let l = choose|t: Seq<BusOp>| is_lock_step(dev, true, t) && self.log() == mid + t;
            let t = u + body + l;
            assert(is_sector_reads(dev, 0, buf@, body));
            assert(is_nvm_read_trace(dev, buf@, t));
            assert(self.log() =~= old(self).log() + t);
            assert(nvm_read_post(dev, old(self).log(), self.log(), buf@));
        }
        Ok(buf)
    }

    /// Read the whole NVM image in its forty-byte serialized form.
    #[verifier::spinoff_prover]
    #[verifier::rlimit(60)]
    pub fn get_nvm_bytes(&mut self) -> (r: Result<[u8; 40], Error<T::BusError>>)
        ensures
            final(self).dev() == old(self).dev(),
            r matches Ok(bytes) ==> nvm_read_post(
                old(self).dev(),
                old(self).log(),
                final(self).log(),
                spec_bytes_to_sectors(bytes@),
            ),
            r == Err::<[u8; 40], Error<T::BusError>>(Error::NvmTimeout) ==> nvm_timeout_post(
                old(self).dev(),
                NVM_POLL_LIMIT as int,
                old(self).log(),
                final(self).log(),
            ),
            r matches Err(e) ==> (e is I2CError ==> is_aborted_nvm_read(
                old(self).dev(),
                NVM_POLL_LIMIT as int,
                old(self).log(),
                final(self).log(),
            )),
            r matches Err(e) ==> e is I2CError || e is NvmTimeout,
    {
        let ghost dev = self.dev();
        let data = match self.get_nvm() {
            Ok(data) => data,
            Err(err) => {
                proof {
                    if err is NvmTimeout {
                        assert(nvm_timeout_post(
                            dev,
                            NVM_POLL_LIMIT as int,
                            old(self).log(),
                            self.log(),
                        ));
                    }
                    if err is I2CError {
                        assert(is_aborted_nvm_read(
                            dev,
                            NVM_POLL_LIMIT as int,
                            old(self).log(),
                            self.log(),
                        ));
                    }
                }
                return Err(err);
            },
        };
        let out = sectors_to_bytes(&data);
        proof {
            lemma_sectors_bytes_round_trip(data@);
            assert(spec_bytes_to_sectors(out@) == data@);
            assert(nvm_read_post(dev, old(self).log(), self.log(), spec_bytes_to_sectors(out@)));
        }
        Ok(out)
    }

    /// Write the whole NVM image: unlock, erase every sector, program the
    /// five sectors in index order, lock again. The sequence aborts at the
    /// first failing step, which can leave the device erased or partially
    /// programmed and still unlocked.
    #[verifier::spinoff_prover]
    #[verifier::rlimit(60)]
    pub fn write_nvm(&mut self, data: [u64; 5]) -> (r: Result<(), Error<T::BusError>>)
        ensures
            final(self).dev() == old(self).dev(),
            r is Ok ==> exists|t: Seq<BusOp>| #[trigger]
                is_nvm_write_trace(old(self).dev(), data@, t) && final(self).log() == old(
                    self,
                ).log() + t,
            r == Err::<(), Error<T::BusError>>(Error::NvmTimeout) ==> nvm_timeout_post(
                old(self).dev(),
                NVM_POLL_LIMIT as int,
                old(self).log(),
                final(self).log(),
            ),
            r matches Err(e) ==> (e is I2CError ==> is_aborted_nvm_write(
                old(self).dev(),
                data@,
                NVM_POLL_LIMIT as int,
                old(self).log(),
                final(self).log(),
            )),
            r matches Err(e) ==> e is I2CError || e is NvmTimeout,
    {
        let ghost dev = self.dev();
        match self.set_nvm_lock(false) {
            Ok(()) => {},
            Err(err) => {
                proof {
                    if err is NvmTimeout {
                        assert(nvm_timeout_post(
                            dev,
                            NVM_POLL_LIMIT as int,
                            old(self).log(),
                            self.log(),
                        ));
                    }
                    if err is I2CError {
                        assert(is_aborted_nvm_write(dev, data@, NVM_POLL_LIMIT as int, old(self).log(), self.log()));
                    }
                }
                return Err(err);
            },
        }
        let ghost u = choose|t: Seq<BusOp>|
            is_lock_step(dev, false, t) && self.log() == old(self).log() + t;
        let ghost m1 = self.log();
        match self.delete_nvm() {
            Ok(()) => {},
            Err(err) => {
                proof {
                    if err is NvmTimeout {
                        assert(m1 =~= old(self).log() + u);
                        lemma_timeout_prepend(
                            dev,
                            NVM_POLL_LIMIT as int,
                            old(self).log(),
                            u,
                            self.log(),
                        );
                    }
                    if err is I2CError {
                        assert(m1 == old(self).log() + u);
                        assert(is_aborted_erase_step(
                            dev,
                            NVM_POLL_LIMIT as int,
                            old(self).log() + u,
                            self.log(),
                        ));
                        assert(is_aborted_nvm_write(
                            dev,
                            data@,
                            NVM_POLL_LIMIT as int,
                            old(self).log(),
                            self.log(),
                        ));
                    }
                }
                return Err(err);
            },
        }
        let ghost e = choose|t: Seq<BusOp>| is_erase_step(dev, t) && self.log() == m1 + t;
        let ghost base = self.log();
        let ghost mut body: Seq<BusOp> = Seq::<BusOp>::empty();
        let mut x: usize = 0;
        while x < 5
            invariant
                x <= 5,
                self.dev() == dev,
                dev == old(self).dev(),
                base == old(self).log() + (u + e),
                is_lock_step(dev, false, u),
                is_erase_step(dev, e),
                self.log() == base + body,
                is_sector_writes(dev, 0, data@.take(x as int), body),
            decreases 5 - x,
        {
            let ghost prev = self.log();
            match self.write_nvm_sector(x as u8, data[x]) {
                Ok(()) => {
                    proof {
                        let t2 = choose|t: Seq<BusOp>|
                            is_write_sector_step(dev, x as u8, data@[x as int], t) && self.log()
                                == prev + t;
                        lemma_sector_writes_push(dev, 0, data@.take(x as int), body, data@[x as int], t2);
                        assert(data@.take(x + 1) =~= data@.take(x as int).push(data@[x as int]));
                        body = body + t2;
                        assert(self.log() =~= base + body);
                    }
                },
                Err(err) => {
                    proof {
                        if err is NvmTimeout {
                            assert(prev =~= old(self).log() + ((u + e) + body));
                            lemma_timeout_prepend(
                                dev,
                                NVM_POLL_LIMIT as int,
                                old(self).log(),
                                (u + e) + body,
                                self.log(),
                            );
                        }
                        if err is I2CError {
                            assert(prev =~= old(self).log() + u + e + body);
                            assert(is_aborted_write_sector_step(
                                dev,
                                x as u8,
                                data@[x as int],
                                NVM_POLL_LIMIT as int,
                                old(self).log() + u + e + body,
                                self.log(),
                            ));
                            assert(data@.take(x as int).len() == x);
                            assert(data@.take(x as int) == data@.take(data@.take(x as int).len() as int));
                            assert(is_aborted_nvm_write(
                            dev,
                            data@,
                            NVM_POLL_LIMIT as int,
                            old(self).log(),
                            self.log(),
                        ));
                        }
                    }
                    return Err(err);
                },
            }
            x += 1;
        }
        proof {
            assert(data@.take(5) =~= data@);
        }
        let ghost mid = self.log();
        match self.set_nvm_lock(true) {
            Ok(()) => {},
            Err(err) => {
                proof {
                    if err is NvmTimeout {
                        assert(mid =~= old(self).log() + ((u + e) + body));
                        lemma_timeout_prepend(
                            dev,
                            NVM_POLL_LIMIT as int,
                            old(self).log(),
                            (u + e) + body,
                            self.log(),
                        );
                    }
                    if err is I2CError {
                        assert(mid =~= old(self).log() + u + e + body);
                        assert(is_aborted_lock_step(
                            dev,
                            true,
                            NVM_POLL_LIMIT as int,
                            old(self).log() + u + e + body,
                            self.log(),
                        ));
                        assert(is_sector_writes(dev, 0, data@, body));
                        assert(data@ == data@.take(5));
                        assert(is_aborted_nvm_write(
                            dev,
                            data@,
                            NVM_POLL_LIMIT as int,
                            old(self).log(),
                            self.log(),
                        ));
                    }
                }
                return Err(err);
            },
        }
        proof {
            let l = choose|t: Seq<BusOp>| is_lock_step(dev, true, t) && self.log() == mid + t;
            let t = u + e + body + l;
            assert(is_nvm_write_trace(dev, data@, t));
            assert(self.log() =~= old(self).log() + t);
            assert(nvm_write_post(dev, old(self).log(), self.log(), data@));
        }
        Ok(())
    }

    /// Write the whole NVM image from its forty-byte serialized form.
    #[verifier::spinoff_prover]
    #[verifier::rlimit(60)]
    pub fn write_nvm_bytes(&mut self, data: [u8; 40]) -> (r: Result<(), Error<T::BusError>>)
        ensures
            final(self).dev() == old(self).dev(),
            r is Ok ==> nvm_write_post(
                old(self).dev(),
                old(self).log(),
                final(self).log(),
                spec_bytes_to_sectors(data@),
            ),
            r == Err::<(), Error<T::BusError>>(Error::NvmTimeout) ==> nvm_timeout_post(
                old(self).dev(),
                NVM_POLL_LIMIT as int,
                old(self).log(),
                final(self).log(),
            ),
            r matches Err(e) ==> (e is I2CError ==> is_aborted_nvm_write(
                old(self).dev(),
                spec_bytes_to_sectors(data@),
                NVM_POLL_LIMIT as int,
                old(self).log(),
                final(self).log(),
            )),
            r matches Err(e) ==> e is I2CError || e is NvmTimeout,
    {
        let buf = bytes_to_sectors(&data);
        self.write_nvm(buf)
    }
}

} // verus!
