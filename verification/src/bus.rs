use vstd::prelude::*;

verus! {

/// One transaction on the two-wire bus, as seen from the driver: either a
/// write of a byte string to a device, or a read of a byte string from it.
/// A sequence of these is the complete observable behaviour of the driver,
/// so every contract in this crate is stated over such sequences.
pub enum BusOp {
    Write { dev: u8, data: Seq<u8> },
    Read { dev: u8, data: Seq<u8> },
}

/// The bus capability the driver is built over: synchronous, blocking,
/// byte-oriented write and read, each of which may fail with a
/// transport-specific error.
///
/// `log` is the history of transactions the transport has carried out. A
/// successful call appends exactly one transaction. A failed call appends at
/// most the one transaction it attempted — a real bus may or may not have
/// reached the device — so a caller that stops at the first failure has put
/// nothing on the bus beyond that attempt.
pub trait Transport: Sized {
    type BusError;

    spec fn log(&self) -> Seq<BusOp>;

    fn write(&mut self, dev: u8, data: &[u8]) -> (r: Result<(), Self::BusError>)
        ensures
            r is Ok ==> final(self).log() == old(self).log().push(
                BusOp::Write { dev, data: data@ },
            ),
            r is Err ==> final(self).log() == old(self).log() || final(self).log() == old(
                self,
            ).log().push(BusOp::Write { dev, data: data@ }),
    ;

    fn read(&mut self, dev: u8, len: usize) -> (r: Result<Vec<u8>, Self::BusError>)
        ensures
            r matches Ok(buf) ==> buf@.len() == len && final(self).log() == old(self).log().push(
                BusOp::Read { dev, data: buf@ },
            ),
            r is Err ==> final(self).log() == old(self).log() || exists|d: Seq<u8>|
                final(self).log() == old(self).log().push(BusOp::Read { dev, data: d }),
    ;
}

/// The two bus transactions of a single-byte register write: one bus write
/// carrying the register address followed by the value.
pub open spec fn reg_write_ops(dev: u8, reg: u8, value: u8) -> Seq<BusOp> {
    seq![BusOp::Write { dev, data: seq![reg, value] }]
}

/// The two bus transactions of a register read: the address phase, then the
/// data phase returning `data`.
pub open spec fn reg_read_ops(dev: u8, reg: u8, data: Seq<u8>) -> Seq<BusOp> {
    seq![BusOp::Write { dev, data: seq![reg] }, BusOp::Read { dev, data }]
}

/// The log after a register read aborted on a transport error: nothing, the
/// attempted address phase alone, or the address phase and the attempted
/// data phase. In particular: at most two transactions, a data phase only
/// after its address phase, and nothing beyond the failed attempt.
pub open spec fn is_aborted_reg_read(dev: u8, reg: u8, pre: Seq<BusOp>, post: Seq<BusOp>) -> bool {
    ||| post == pre
    ||| post == pre.push(BusOp::Write { dev, data: seq![reg] })
    ||| exists|d: Seq<u8>|
        post == #[trigger] pre.push(BusOp::Write { dev, data: seq![reg] }).push(
            BusOp::Read { dev, data: d },
        )
}

} // verus!
