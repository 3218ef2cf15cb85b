use vstd::prelude::*;

use vstd::bytes::{u32_from_le_bytes, u32_to_le_bytes, u64_from_le_bytes, u64_to_le_bytes};

use crate::bus::{BusOp, Transport};

verus! {

/// The error a simulated bus reports. The device simulator itself never
/// fails; the faulty transport fails every call with it.
#[derive(Clone, Copy, Debug, PartialEq, Eq, Structural)]
pub struct SimBusFault;

/// A software model of the chip on a simulated bus: it stores written
/// sector values and replays them on read, tracks the password, control and
/// PDO registers, and counts transactions. `busy_budget` makes the control
/// register report the command-request bit as still set for that many more
/// reads, which lets a test watch the driver's busy poll at work.
pub struct SimTransport {
    /// The five persistent sectors of the simulated NVM.
    pub sectors: [u64; 5],
    /// The 8-byte staging buffer register.
    pub rw_buffer: u64,
    /// Last value written to the NVM control register.
    pub ctrl0: u8,
    /// Last value written to the NVM opcode register.
    pub ctrl1: u8,
    /// Current password register value; commands run only when unlocked.
    pub password: u8,
    /// The three sink PDO slots.
    pub pdo_words: [u32; 3],
    /// The advertised PDO count register.
    pub pdo_count: u8,
    /// The alert mask register.
    pub alert_mask: u8,
    /// Pending alert flags; cleared by the act of reading them.
    pub alert_status: u8,
    /// The negotiated request data object register.
    pub rdo_word: u32,
    /// Last value written to the transmit header register.
    pub tx_header: u8,
    /// Last value written to the command control register.
    pub pd_command: u8,
    /// Register address set by the last address phase.
    pub pointer: u8,
    /// Reads of the control register that will still report busy.
    pub busy_budget: u32,
    /// How many control-register data reads have happened.
    pub ctrl0_reads: u32,
    /// How many bus write transactions have happened.
    pub write_ops: u32,
    /// How many bus read transactions have happened.
    pub read_ops: u32,
    /// Ghost history of every transaction, the transport's log.
    pub hist: Ghost<Seq<BusOp>>,
}

/// Pad or truncate a byte vector to exactly `len` bytes.
fn fit_len(v: &Vec<u8>, len: usize) -> (r: Vec<u8>)
    ensures
        r@.len() == len,
{
    let mut out: Vec<u8> = Vec::new();
    let mut i: usize = 0;
    while i < len
        invariant
            out@.len() == i,
            i <= len,
        decreases len - i,
    {
        if i < v.len() {
            out.push(v[i]);
        } else {
            out.push(0);
        }
        i += 1;
    }
    out
}

impl SimTransport {
    /// A fresh simulated device: everything zeroed, NVM locked, never busy.
    pub fn new() -> (r: SimTransport)
        ensures
            r.log() == Seq::<BusOp>::empty(),
            r.busy_budget == 0,
            r.ctrl0_reads == 0,
            r.write_ops == 0,
            r.read_ops == 0,
    {
        SimTransport {
            sectors: [0; 5],
            rw_buffer: 0,
            ctrl0: 0,
            ctrl1: 0,
            password: 0,
            pdo_words: [0; 3],
            pdo_count: 0,
            alert_mask: 0,
            alert_status: 0,
            rdo_word: 0,
            tx_header: 0,
            pd_command: 0,
            pointer: 0,
            busy_budget: 0,
            ctrl0_reads: 0,
            write_ops: 0,
            read_ops: 0,
            hist: Ghost(Seq::<BusOp>::empty()),
        }
    }

    /// Execute the command named by the opcode register, as the chip does
    /// when the request bit is raised while unlocked.
    fn run_command(&mut self)
        ensures
            final(self).hist == old(self).hist,
    {
        let op = self.ctrl1 & 0x07;
        let sect = (self.ctrl0 & 0x07) as usize;
        if op == 0x00 {
            // Load the selected sector into the staging buffer.
            if sect < 5 {
                self.rw_buffer = self.sectors[sect];
            }
        } else if op == 0x06 {
            // Program the selected sector from the staging buffer.
            if sect < 5 {
                self.sectors[sect] = self.rw_buffer;
            }
        } else if op == 0x05 {
            // Erase: the driver always erases with the all-sector mask, so
            // the model wipes everything to the flash-erased state.
            self.sectors = [0xFFFFFFFFFFFFFFFF; 5];
        }
        // Opcodes for the erase mask, the program load register and the
        // soft-program pass have no effect visible to this model.
    }

    /// Handle the payload of a bus write addressed at register `reg`.
    fn store(&mut self, reg: u8, data: &[u8])
        requires
            data@.len() >= 2,
        ensures
            final(self).hist == old(self).hist,
    {
        let v = data[1];
        if reg == 0x95 {
            self.password = v;
        } else if reg == 0x97 {
            self.ctrl1 = v;
        } else if reg == 0x96 {
            self.ctrl0 = v;
            if v & 0x10 != 0 && self.password == 0x47 {
                self.run_command();
            }
        } else if reg == 0x53 {
            if data.len() >= 9 {
                let mut chunk: Vec<u8> = Vec::new();
                let mut i: usize = 1;
                while i < 9
                    invariant
                        i <= 9,
                        data@.len() >= 9,
                        chunk@.len() == i - 1,
                    decreases 9 - i,
                {
                    chunk.push(data[i]);
                    i += 1;
                }
                self.rw_buffer = u64_from_le_bytes(chunk.as_slice());
            }
        } else if reg == 0x70 {
            self.pdo_count = v;
        } else if reg == 0x0C {
            self.alert_mask = v;
        } else if reg == 0x51 {
            self.tx_header = v;
        } else if reg == 0x1A {
            self.pd_command = v;
        } else if reg == 0x85 || reg == 0x89 || reg == 0x8D {
            if data.len() >= 5 {
                let mut chunk: Vec<u8> = Vec::new();
                let mut i: usize = 1;
                while i < 5
                    invariant
                        i <= 5,
                        data@.len() >= 5,
                        chunk@.len() == i - 1,
                    decreases 5 - i,
                {
                    chunk.push(data[i]);
                    i += 1;
                }
                let w = u32_from_le_bytes(chunk.as_slice());
                let slot: usize = if reg == 0x85 {
                    0
                } else if reg == 0x89 {
                    1
                } else {
                    2
                };
                self.pdo_words[slot] = w;
            }
        }
    }

    /// The bytes the device returns for a data-phase read at the current
    /// register pointer.
    fn fetch(&mut self, len: usize) -> (r: Vec<u8>)
        ensures
            r@.len() == len,
            final(self).hist == old(self).hist,
    {
        let reg = self.pointer;
        let mut raw: Vec<u8> = Vec::new();
        if reg == 0x96 {
            if self.ctrl0_reads < 0xFFFFFFFF {
                self.ctrl0_reads = self.ctrl0_reads + 1;
            }
            if self.busy_budget > 0 {
                self.busy_budget = self.busy_budget - 1;
                raw.push(self.ctrl0 | 0x10);
            } else {
                raw.push(self.ctrl0 & 0xEF);
            }
        } else if reg == 0x53 {
            raw = u64_to_le_bytes(self.rw_buffer);
        } else if reg == 0x85 {
            raw = u32_to_le_bytes(self.pdo_words[0]);
        } else if reg == 0x89 {
            raw = u32_to_le_bytes(self.pdo_words[1]);
        } else if reg == 0x8D {
            raw = u32_to_le_bytes(self.pdo_words[2]);
        } else if reg == 0x91 {
            raw = u32_to_le_bytes(self.rdo_word);
        } else if reg == 0x0B {
            raw.push(self.alert_status);
            self.alert_status = 0;
        } else if reg == 0x70 {
            raw.push(self.pdo_count);
        }
        fit_len(&raw, len)
    }
}

impl Transport for SimTransport {
    type BusError = SimBusFault;

    closed spec fn log(&self) -> Seq<BusOp> {
        self.hist@
    }

    fn write(&mut self, dev: u8, data: &[u8]) -> (r: Result<(), SimBusFault>) {
        if self.write_ops < 0xFFFFFFFF {
            self.write_ops = self.write_ops + 1;
        }
        if data.len() >= 1 {
            let reg = data[0];
            self.pointer = reg;
            if data.len() >= 2 {
                self.store(reg, data);
            }
        }
        self.hist = Ghost(self.hist@.push(BusOp::Write { dev, data: data@ }));
        Ok(())
    }

    fn read(&mut self, dev: u8, len: usize) -> (r: Result<Vec<u8>, SimBusFault>) {
        if self.read_ops < 0xFFFFFFFF {
            self.read_ops = self.read_ops + 1;
        }
        let out = self.fetch(len);
        self.hist = Ghost(self.hist@.push(BusOp::Read { dev, data: out@ }));
        Ok(out)
    }
}

/// A bus on which every transaction fails: what a driver sees when the
/// device is absent or the wiring is broken.
pub struct FaultyTransport {
    /// Ghost history of every transaction, the transport's log.
    pub hist: Ghost<Seq<BusOp>>,
}

impl FaultyTransport {
    /// A fresh broken bus.
    pub fn new() -> (r: FaultyTransport)
        ensures
            r.log() == Seq::<BusOp>::empty(),
    {
        FaultyTransport { hist: Ghost(Seq::<BusOp>::empty()) }
    }
}

impl Transport for FaultyTransport {
    type BusError = SimBusFault;

    closed spec fn log(&self) -> Seq<BusOp> {
        self.hist@
    }

    fn write(&mut self, dev: u8, data: &[u8]) -> (r: Result<(), SimBusFault>) {
        Err(SimBusFault)
    }

    fn read(&mut self, dev: u8, len: usize) -> (r: Result<Vec<u8>, SimBusFault>) {
        Err(SimBusFault)
    }
}

} // verus!
