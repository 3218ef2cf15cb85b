use vstd::prelude::*;

use vstd::bytes::{
    lemma_auto_spec_u64_to_from_le_bytes, spec_u64_from_le_bytes, spec_u64_to_le_bytes,
    u64_from_le_bytes, u64_to_le_bytes,
};

use crate::bus::{BusOp, is_aborted_reg_read, reg_read_ops, reg_write_ops};
use crate::registers::{
    CTRL0_DEFAULT, CTRL0_REQ, CTRL0_SECT, NVM_CMD_ERASE_SECTOR, NVM_CMD_PROG_SECTOR, NVM_CMD_READ,
    NVM_CMD_SOFT_PROG_SECTOR, NVM_CMD_WRITE_PL, NVM_ERASE_ALL, NVM_LOCK_PASSWORD,
    NVM_UNLOCK_PASSWORD, Register,
};

verus! {

/// The NVM image is exactly five 64-bit sectors, forty bytes in all.
pub const NVM_SECTOR_COUNT: usize = 5;

/// Serialization of a sector array: each 64-bit sector as eight
/// little-endian bytes, sectors concatenated in index order.
pub open spec fn spec_sectors_to_bytes(s: Seq<u64>) -> Seq<u8> {
    Seq::new(s.len() * 8, |i: int| spec_u64_to_le_bytes(s[i / 8])[i % 8])
}

/// The inverse: each aligned 8-byte run read as one little-endian sector.
pub open spec fn spec_bytes_to_sectors(b: Seq<u8>) -> Seq<u64> {
    Seq::new(b.len() / 8, |i: int| spec_u64_from_le_bytes(b.subrange(8 * i, 8 * i + 8)))
}

/// Serialize the five-sector image to its forty-byte form.
pub fn sectors_to_bytes(data: &[u64; 5]) -> (r: [u8; 40])
    ensures
        r@ == spec_sectors_to_bytes(data@),
{
    let mut out: [u8; 40] = [0; 40];
    let mut i: usize = 0;
    while i < 5
        invariant
            i <= 5,
            forall|k: int| 0 <= k < 8 * i ==> out@[k] == spec_sectors_to_bytes(data@)[k],
        decreases 5 - i,
    {
        let b = u64_to_le_bytes(data[i]);
        let mut j: usize = 0;
        while j < 8
            invariant
                i < 5,
            j <= 8,
            b@ == spec_u64_to_le_bytes(data@[i as int]),
            b@.len() == 8,
            forall|k: int| 0 <= k < 8 * i + j ==> out@[k] == spec_sectors_to_bytes(data@)[k],
            decreases 8 - j,
        {
            out[i * 8 + j] = b[j];
            proof {
                let k = 8 * (i as int) + j;
                assert(k / 8 == i && k % 8 == j);
            }
            j += 1;
        }
        i += 1;
    }
    proof {
        assert(out@ =~= spec_sectors_to_bytes(data@));
    }
    out
}

/// Parse the forty-byte image back into its five sectors.
pub fn bytes_to_sectors(data: &[u8; 40]) -> (r: [u64; 5])
    ensures
        r@ == spec_bytes_to_sectors(data@),
{
    let mut out: [u64; 5] = [0; 5];
    let mut i: usize = 0;
    while i < 5
        invariant
            i <= 5,
            forall|k: int| 0 <= k < i ==> out@[k] == spec_bytes_to_sectors(data@)[k],
        decreases 5 - i,
    {
        let mut chunk: Vec<u8> = Vec::new();
        let mut j: usize = 0;
        while j < 8
            invariant
                i < 5,
                j <= 8,
                chunk@ =~= data@.subrange(8 * i, 8 * i + j),
            decreases 8 - j,
        {
            chunk.push(data[8 * i + j]);
            j += 1;
        }
        let w = u64_from_le_bytes(chunk.as_slice());
        out[i] = w;
        i += 1;
    }
    proof {
        assert(out@ =~= spec_bytes_to_sectors(data@));
    }
    out
}

/// Law: a sector image survives serialization. Turning sectors into bytes
/// and back yields the sectors unchanged.
pub proof fn lemma_sectors_bytes_round_trip(s: Seq<u64>)
    ensures
        spec_bytes_to_sectors(spec_sectors_to_bytes(s)) == s,
{
    lemma_auto_spec_u64_to_from_le_bytes();
    let b = spec_sectors_to_bytes(s);
    assert forall|i: int| 0 <= i < s.len() implies spec_bytes_to_sectors(b)[i] == s[i] by {
        assert(b.subrange(8 * i, 8 * i + 8) =~= spec_u64_to_le_bytes(s[i]));
    };
    assert(spec_bytes_to_sectors(b) =~= s);
}

/// Law: a byte image survives parsing. For a buffer of whole sectors,
/// turning bytes into sectors and back yields the bytes unchanged.
pub proof fn lemma_bytes_sectors_round_trip(b: Seq<u8>)
    requires
        b.len() % 8 == 0,
    ensures
        spec_sectors_to_bytes(spec_bytes_to_sectors(b)) == b,
{
    lemma_auto_spec_u64_to_from_le_bytes();
    let s = spec_bytes_to_sectors(b);
    assert forall|k: int| 0 <= k < b.len() implies spec_sectors_to_bytes(s)[k] == b[k] by {
        let i = k / 8;
        assert(0 <= i && 8 * i + 8 <= b.len());
        let chunk = b.subrange(8 * i, 8 * i + 8);
        assert(spec_u64_to_le_bytes(spec_u64_from_le_bytes(chunk)) == chunk);
        assert(chunk[k % 8] == b[k]);
    };
    assert(spec_sectors_to_bytes(s) =~= b);
}

/// Whether a control-register byte still shows the command-request bit, the
/// busy indicator the state machine polls.
pub open spec fn spec_busy(v: u8) -> bool {
    v & CTRL0_REQ != 0
}

/// The bus transactions of one busy-poll run that observed the control
/// bytes `vals`: one control-register read transaction per observed byte.
pub open spec fn poll_trace(dev: u8, vals: Seq<u8>) -> Seq<BusOp>
    decreases vals.len(),
{
    if vals.len() == 0 {
        Seq::<BusOp>::empty()
    } else {
        reg_read_ops(dev, Register::CTRL0.spec_addr(), seq![vals[0]]) + poll_trace(
            dev,
            vals.drop_first(),
        )
    }
}

/// The observed control bytes of a finished poll: at least one read, every
/// byte but the last still busy, and the last one idle.
pub open spec fn spec_poll_vals_ok(vals: Seq<u8>) -> bool {
    &&& vals.len() >= 1
    &&& !spec_busy(vals.last())
    &&& forall|i: int| 0 <= i < vals.len() - 1 ==> spec_busy(#[trigger] vals[i])
}

/// A complete busy-poll: some run of control-register reads that stopped at
/// the first idle byte.
pub open spec fn is_poll(dev: u8, t: Seq<BusOp>) -> bool {
    exists|vals: Seq<u8>| #![trigger poll_trace(dev, vals)] t == poll_trace(dev, vals)
        && spec_poll_vals_ok(vals)
}

/// Appending one more observed control byte to a poll run appends exactly
/// its read transaction to the trace.
pub proof fn lemma_poll_trace_push(dev: u8, vals: Seq<u8>, v: u8)
    ensures
        poll_trace(dev, vals.push(v)) == poll_trace(dev, vals) + reg_read_ops(
            dev,
            Register::CTRL0.spec_addr(),
            seq![v],
        ),
    decreases vals.len(),
{
    let vp = vals.push(v);
    let ops = reg_read_ops(dev, Register::CTRL0.spec_addr(), seq![v]);
    assert(vp.len() == vals.len() + 1);
    assert(poll_trace(dev, vp) == reg_read_ops(dev, Register::CTRL0.spec_addr(), seq![vp[0]])
        + poll_trace(dev, vp.drop_first()));
    if vals.len() == 0 {
        assert(vp.drop_first() =~= Seq::<u8>::empty());
        assert(vp[0] == v);
        assert(poll_trace(dev, vp) =~= poll_trace(dev, vals) + ops);
    } else {
        assert(vp.drop_first() =~= vals.drop_first().push(v));
        assert(vp[0] == vals[0]);
        lemma_poll_trace_push(dev, vals.drop_first(), v);
        assert(poll_trace(dev, vp) =~= poll_trace(dev, vals) + ops);
    }
}

/// The password byte the lock step writes: the documented unlock password,
/// or the lock value.
pub open spec fn spec_password(lock: bool) -> u8 {
    if lock {
        NVM_LOCK_PASSWORD
    } else {
        NVM_UNLOCK_PASSWORD
    }
}

/// One lock-state change: the password write followed by a busy-poll.
pub open spec fn is_lock_step(dev: u8, lock: bool, t: Seq<BusOp>) -> bool {
    exists|p: Seq<BusOp>| #[trigger]
        is_poll(dev, p) && t == reg_write_ops(
            dev,
            Register::Password.spec_addr(),
            spec_password(lock),
        ) + p
}

/// The full-chip erase step: load the all-sector erase mask, soft-program,
/// then erase, each command launched through the control register and
/// polled to completion.
pub open spec fn is_erase_step(dev: u8, t: Seq<BusOp>) -> bool {
    exists|p1: Seq<BusOp>, p2: Seq<BusOp>, p3: Seq<BusOp>|
        #![trigger is_poll(dev, p1), is_poll(dev, p2), is_poll(dev, p3)]
        {
            &&& is_poll(dev, p1)
            &&& is_poll(dev, p2)
            &&& is_poll(dev, p3)
            &&& t == reg_write_ops(dev, Register::CTRL1.spec_addr(), NVM_ERASE_ALL)
                + reg_write_ops(dev, Register::CTRL0.spec_addr(), CTRL0_DEFAULT) + p1
                + reg_write_ops(dev, Register::CTRL1.spec_addr(), NVM_CMD_SOFT_PROG_SECTOR)
                + reg_write_ops(dev, Register::CTRL0.spec_addr(), CTRL0_DEFAULT) + p2
                + reg_write_ops(dev, Register::CTRL1.spec_addr(), NVM_CMD_ERASE_SECTOR)
                + reg_write_ops(dev, Register::CTRL0.spec_addr(), CTRL0_DEFAULT) + p3
        }
}

/// Programming one sector: stage the eight little-endian bytes in the
/// buffer register, load the program register, then program the selected
/// sector, polling after each command.
pub open spec fn is_write_sector_step(dev: u8, sector: u8, data: u64, t: Seq<BusOp>) -> bool {
    exists|p1: Seq<BusOp>, p2: Seq<BusOp>|
        #![trigger is_poll(dev, p1), is_poll(dev, p2)]
        {
            &&& is_poll(dev, p1)
            &&& is_poll(dev, p2)
            &&& t == seq![
                BusOp::Write {
                    dev,
                    data: seq![Register::RWBuffer.spec_addr()] + spec_u64_to_le_bytes(data),
                },
            ] + reg_write_ops(dev, Register::CTRL1.spec_addr(), NVM_CMD_WRITE_PL) + reg_write_ops(
                dev,
                Register::CTRL0.spec_addr(),
                CTRL0_DEFAULT,
            ) + p1 + reg_write_ops(dev, Register::CTRL1.spec_addr(), NVM_CMD_PROG_SECTOR)
                + reg_write_ops(
                dev,
                Register::CTRL0.spec_addr(),
                CTRL0_DEFAULT | (sector & CTRL0_SECT),
            ) + p2
        }
}

/// Reading one sector: issue the read command for the selected sector, poll
/// to completion, then fetch the eight little-endian bytes of `value` from
/// the buffer register.
pub open spec fn is_read_sector_step(dev: u8, sector: u8, value: u64, t: Seq<BusOp>) -> bool {
    exists|p: Seq<BusOp>| #[trigger]
        is_poll(dev, p) && t == reg_write_ops(dev, Register::CTRL1.spec_addr(), NVM_CMD_READ)
            + reg_write_ops(
            dev,
            Register::CTRL0.spec_addr(),
            CTRL0_DEFAULT | (sector & CTRL0_SECT),
        ) + p + reg_read_ops(dev, Register::RWBuffer.spec_addr(), spec_u64_to_le_bytes(value))
}

/// The sector reads of indices `start`, `start + 1`, ... yielding `vals`,
/// concatenated in index order.
pub open spec fn is_sector_reads(dev: u8, start: u8, vals: Seq<u64>, t: Seq<BusOp>) -> bool
    decreases vals.len(),
{
    if vals.len() == 0 {
        t == Seq::<BusOp>::empty()
    } else {
        exists|a: Seq<BusOp>, b: Seq<BusOp>|
            #![trigger a + b]
            {
                &&& is_read_sector_step(dev, start, vals[0], a)
                &&& is_sector_reads(dev, (start + 1) as u8, vals.drop_first(), b)
                &&& t == a + b
            }
    }
}

/// The sector programming steps of indices `start`, `start + 1`, ... with
/// data `vals`, concatenated in index order.
pub open spec fn is_sector_writes(dev: u8, start: u8, vals: Seq<u64>, t: Seq<BusOp>) -> bool
    decreases vals.len(),
{
    if vals.len() == 0 {
        t == Seq::<BusOp>::empty()
    } else {
        exists|a: Seq<BusOp>, b: Seq<BusOp>|
            #![trigger a + b]
            {
                &&& is_write_sector_step(dev, start, vals[0], a)
                &&& is_sector_writes(dev, (start + 1) as u8, vals.drop_first(), b)
                &&& t == a + b
            }
    }
}

/// Extending a run of sector reads by the next index appends its step.
pub proof fn lemma_sector_reads_push(
    dev: u8,
    start: u8,
    vals: Seq<u64>,
    t: Seq<BusOp>,
    v: u64,
    t2: Seq<BusOp>,
)
    requires
        is_sector_reads(dev, start, vals, t),
        is_read_sector_step(dev, (start + vals.len()) as u8, v, t2),
        start + vals.len() < 256,
    ensures
        is_sector_reads(dev, start, vals.push(v), t + t2),
    decreases vals.len(),
{
    if vals.len() == 0 {
        assert(vals.push(v)[0] == v);
        assert(vals.push(v).drop_first() =~= Seq::<u64>::empty());
        assert(is_sector_reads(
            dev,
            (start + 1) as u8,
            vals.push(v).drop_first(),
            Seq::<BusOp>::empty(),
        ));
        assert(t + t2 =~= t2 + Seq::<BusOp>::empty());
        assert(is_read_sector_step(dev, start, vals.push(v)[0], t2));
        assert(is_sector_reads(dev, start, vals.push(v), t + t2));
    } else {
        let (a, b) = choose|a: Seq<BusOp>, b: Seq<BusOp>|
            {
                &&& is_read_sector_step(dev, start, vals[0], a)
                &&& is_sector_reads(dev, (start + 1) as u8, vals.drop_first(), b)
                &&& t == a + b
            };
        lemma_sector_reads_push(dev, (start + 1) as u8, vals.drop_first(), b, v, t2);
        assert(vals.push(v).drop_first() =~= vals.drop_first().push(v));
        assert(vals.push(v)[0] == vals[0]);
        assert(t + t2 =~= a + (b + t2));
        assert(is_sector_reads(dev, start, vals.push(v), t + t2));
    }
}

/// Extending a run of sector programming steps by the next index appends
/// its step.
pub proof fn lemma_sector_writes_push(
    dev: u8,
    start: u8,
    vals: Seq<u64>,
    t: Seq<BusOp>,
    v: u64,
    t2: Seq<BusOp>,
)
    requires
        is_sector_writes(dev, start, vals, t),
        is_write_sector_step(dev, (start + vals.len()) as u8, v, t2),
        start + vals.len() < 256,
    ensures
        is_sector_writes(dev, start, vals.push(v), t + t2),
    decreases vals.len(),
{
    if vals.len() == 0 {
        assert(vals.push(v)[0] == v);
        assert(vals.push(v).drop_first() =~= Seq::<u64>::empty());
        assert(is_sector_writes(
            dev,
            (start + 1) as u8,
            vals.push(v).drop_first(),
            Seq::<BusOp>::empty(),
        ));
        assert(t + t2 =~= t2 + Seq::<BusOp>::empty());
        assert(is_write_sector_step(dev, start, vals.push(v)[0], t2));
        assert(is_sector_writes(dev, start, vals.push(v), t + t2));
    } else {
        let (a, b) = choose|a: Seq<BusOp>, b: Seq<BusOp>|
            {
                &&& is_write_sector_step(dev, start, vals[0], a)
                &&& is_sector_writes(dev, (start + 1) as u8, vals.drop_first(), b)
                &&& t == a + b
            };
        lemma_sector_writes_push(dev, (start + 1) as u8, vals.drop_first(), b, v, t2);
        assert(vals.push(v).drop_first() =~= vals.drop_first().push(v));
        assert(vals.push(v)[0] == vals[0]);
        assert(t + t2 =~= a + (b + t2));
        assert(is_sector_writes(dev, start, vals.push(v), t + t2));
    }
}

/// A saturated busy-poll: exactly `limit` control-register read
/// transactions, every one of which still showed the busy bit.
pub open spec fn is_exhausted_poll(dev: u8, limit: int, t: Seq<BusOp>) -> bool {
    exists|vals: Seq<u8>| #![trigger poll_trace(dev, vals)]
        {
            &&& t == poll_trace(dev, vals)
            &&& vals.len() == limit
            &&& forall|i: int| 0 <= i < vals.len() ==> spec_busy(#[trigger] vals[i])
        }
}

/// Relation between the transaction log before and after an NVM operation
/// gave up waiting: the log grew by bus work whose tail is a saturated
/// busy-poll of `limit` reads. The timeout error is thus tied to the bus
/// evidence that caused it; it can never be returned out of thin air.
pub open spec fn nvm_timeout_post(dev: u8, limit: int, pre: Seq<BusOp>, post: Seq<BusOp>) -> bool {
    exists|w: Seq<BusOp>, ex: Seq<BusOp>| #![trigger w + ex]
        post == pre + (w + ex) && is_exhausted_poll(dev, limit, ex)
}

/// The log after a busy-poll ended on a transport error: fewer than `limit`
/// busy reads completed, then one control-register read aborted. Polling
/// stops at the failed read; nothing follows it.
pub open spec fn is_aborted_poll(dev: u8, limit: int, pre: Seq<BusOp>, post: Seq<BusOp>) -> bool {
    exists|vals: Seq<u8>|
        #![trigger poll_trace(dev, vals)]
        {
            &&& vals.len() < limit
            &&& forall|i: int| 0 <= i < vals.len() ==> spec_busy(#[trigger] vals[i])
            &&& is_aborted_reg_read(
                dev,
                Register::CTRL0.spec_addr(),
                pre + poll_trace(dev, vals),
                post,
            )
        }
}

/// A conversation that stopped right where a busy-poll would have begun is
/// an aborted poll that never read the control register.
pub proof fn lemma_aborted_poll_trivial(dev: u8, limit: int, pre: Seq<BusOp>)
    requires
        limit >= 1,
    ensures
        is_aborted_poll(dev, limit, pre, pre),
{
    let vals = Seq::<u8>::empty();
    assert(poll_trace(dev, vals) == Seq::<BusOp>::empty());
    assert(pre + poll_trace(dev, vals) =~= pre);
    assert(is_aborted_reg_read(dev, Register::CTRL0.spec_addr(), pre + poll_trace(dev, vals), pre));
}

/// The log after a lock-state change ended on a transport error: either the
/// password write itself aborted, or it completed and the busy-poll
/// aborted. Nothing beyond the failed attempt is on the bus.
pub open spec fn is_aborted_lock_step(
    dev: u8,
    lock: bool,
    limit: int,
    pre: Seq<BusOp>,
    post: Seq<BusOp>,
) -> bool {
    ||| post == pre
    ||| is_aborted_poll(
        dev,
        limit,
        pre + reg_write_ops(dev, Register::Password.spec_addr(), spec_password(lock)),
        post,
    )
}

/// The log after the erase sequence ended on a transport error: a prefix of
/// its three command/poll brackets, cut at the failed transaction. Once a
/// step fails, no later command of the sequence is issued.
pub open spec fn is_aborted_erase_step(dev: u8, limit: int, pre: Seq<BusOp>, post: Seq<BusOp>) -> bool {
    let w1 = reg_write_ops(dev, Register::CTRL1.spec_addr(), NVM_ERASE_ALL);
    let w2 = reg_write_ops(dev, Register::CTRL0.spec_addr(), CTRL0_DEFAULT);
    let w3 = reg_write_ops(dev, Register::CTRL1.spec_addr(), NVM_CMD_SOFT_PROG_SECTOR);
    let w5 = reg_write_ops(dev, Register::CTRL1.spec_addr(), NVM_CMD_ERASE_SECTOR);
    ||| post == pre
    ||| post == pre + w1
    ||| is_aborted_poll(dev, limit, pre + w1 + w2, post)
    ||| exists|p1: Seq<BusOp>| #[trigger]
        is_poll(dev, p1) && {
            ||| post == pre + w1 + w2 + p1
            ||| post == pre + w1 + w2 + p1 + w3
            ||| is_aborted_poll(dev, limit, pre + w1 + w2 + p1 + w3 + w2, post)
            ||| exists|p2: Seq<BusOp>| #[trigger]
                is_poll(dev, p2) && {
                    ||| post == pre + w1 + w2 + p1 + w3 + w2 + p2
                    ||| post == pre + w1 + w2 + p1 + w3 + w2 + p2 + w5
                    ||| is_aborted_poll(dev, limit, pre + w1 + w2 + p1 + w3 + w2 + p2 + w5 + w2, post)
                }
        }
}

/// The log after programming one sector ended on a transport error: a
/// prefix of staging, load and program brackets, cut at the failed
/// transaction. In particular no program command without its staged data.
pub open spec fn is_aborted_write_sector_step(
    dev: u8,
    sector: u8,
    data: u64,
    limit: int,
    pre: Seq<BusOp>,
    post: Seq<BusOp>,
) -> bool {
    let st = seq![
        BusOp::Write { dev, data: seq![Register::RWBuffer.spec_addr()] + spec_u64_to_le_bytes(data) },
    ];
    let w1 = reg_write_ops(dev, Register::CTRL1.spec_addr(), NVM_CMD_WRITE_PL);
    let w2 = reg_write_ops(dev, Register::CTRL0.spec_addr(), CTRL0_DEFAULT);
    let w3 = reg_write_ops(dev, Register::CTRL1.spec_addr(), NVM_CMD_PROG_SECTOR);
    let w4 = reg_write_ops(dev, Register::CTRL0.spec_addr(), CTRL0_DEFAULT | (sector & CTRL0_SECT));
    ||| post == pre
    ||| post == pre + st
    ||| post == pre + st + w1
    ||| is_aborted_poll(dev, limit, pre + st + w1 + w2, post)
    ||| exists|p1: Seq<BusOp>| #[trigger]
        is_poll(dev, p1) && {
            ||| post == pre + st + w1 + w2 + p1
            ||| post == pre + st + w1 + w2 + p1 + w3
            ||| is_aborted_poll(dev, limit, pre + st + w1 + w2 + p1 + w3 + w4, post)
        }
}

/// The log after reading one sector ended on a transport error: a prefix of
/// command, poll and buffer fetch, cut at the failed transaction.
pub open spec fn is_aborted_read_sector_step(
    dev: u8,
    sector: u8,
    limit: int,
    pre: Seq<BusOp>,
    post: Seq<BusOp>,
) -> bool {
    let w1 = reg_write_ops(dev, Register::CTRL1.spec_addr(), NVM_CMD_READ);
    let w2 = reg_write_ops(dev, Register::CTRL0.spec_addr(), CTRL0_DEFAULT | (sector & CTRL0_SECT));
    ||| post == pre
    ||| post == pre + w1
    ||| is_aborted_poll(dev, limit, pre + w1 + w2, post)
    ||| exists|p: Seq<BusOp>| #[trigger]
        is_poll(dev, p) && is_aborted_reg_read(
            dev,
            Register::RWBuffer.spec_addr(),
            pre + w1 + w2 + p,
            post,
        )
}

/// A wait that saturated its poll bound, entered after `lead` bus work on
/// top of `pre`, leaves the log in the timeout relation to `pre`.
pub proof fn lemma_wait_timeout(
    dev: u8,
    limit: int,
    pre: Seq<BusOp>,
    lead: Seq<BusOp>,
    post: Seq<BusOp>,
)
    requires
        exists|vals: Seq<u8>|
            #![trigger poll_trace(dev, vals)]
            {
                &&& vals.len() == limit
                &&& forall|i: int| 0 <= i < vals.len() ==> spec_busy(#[trigger] vals[i])
                &&& post == (pre + lead) + poll_trace(dev, vals)
            },
    ensures
        nvm_timeout_post(dev, limit, pre, post),
{
    let vals = choose|vals: Seq<u8>|
        {
            &&& vals.len() == limit
            &&& forall|i: int| 0 <= i < vals.len() ==> spec_busy(#[trigger] vals[i])
            &&& post == (pre + lead) + #[trigger] poll_trace(dev, vals)
        };
    let ex = poll_trace(dev, vals);
    assert(is_exhausted_poll(dev, limit, ex));
    assert(post =~= pre + (lead + ex));
    assert(nvm_timeout_post(dev, limit, pre, post));
}

/// Bus work already done before a step timed out stays part of the grown
/// log: a timeout trace seen from a later point is one from an earlier
/// point too.
pub proof fn lemma_timeout_prepend(
    dev: u8,
    limit: int,
    pre: Seq<BusOp>,
    lead: Seq<BusOp>,
    post: Seq<BusOp>,
)
    requires
        nvm_timeout_post(dev, limit, pre + lead, post),
    ensures
        nvm_timeout_post(dev, limit, pre, post),
{
    let (w, ex) = choose|w: Seq<BusOp>, ex: Seq<BusOp>|
        post == (pre + lead) + (w + ex) && is_exhausted_poll(dev, limit, ex);
    assert(post =~= pre + ((lead + w) + ex));
    assert(nvm_timeout_post(dev, limit, pre, post));
}

/// Relation between the transaction log before and after a successful full
/// NVM read returning `sectors`: the log grew by exactly one read trace.
pub open spec fn nvm_read_post(dev: u8, pre: Seq<BusOp>, post: Seq<BusOp>, sectors: Seq<u64>) -> bool {
    exists|t: Seq<BusOp>| #[trigger] is_nvm_read_trace(dev, sectors, t) && post == pre + t
}

/// Relation between the transaction log before and after a successful full
/// NVM write of `sectors`: the log grew by exactly one write trace.
pub open spec fn nvm_write_post(dev: u8, pre: Seq<BusOp>, post: Seq<BusOp>, sectors: Seq<u64>) -> bool {
    exists|t: Seq<BusOp>| #[trigger] is_nvm_write_trace(dev, sectors, t) && post == pre + t
}

/// The complete bus behaviour of a full NVM read that returned `sectors`:
/// unlock, the five sector reads in index order, lock.
pub open spec fn is_nvm_read_trace(dev: u8, sectors: Seq<u64>, t: Seq<BusOp>) -> bool {
    exists|u: Seq<BusOp>, body: Seq<BusOp>, l: Seq<BusOp>|
        #![trigger is_lock_step(dev, false, u), is_sector_reads(dev, 0, sectors, body), is_lock_step(dev, true, l)]
        {
            &&& is_lock_step(dev, false, u)
            &&& is_sector_reads(dev, 0, sectors, body)
            &&& is_lock_step(dev, true, l)
            &&& t == u + body + l
        }
}

/// The complete bus behaviour of a full NVM write of `sectors`: unlock, the
/// unconditional all-sector erase, the five programming steps in index
/// order, lock.
pub open spec fn is_nvm_write_trace(dev: u8, sectors: Seq<u64>, t: Seq<BusOp>) -> bool {
    exists|u: Seq<BusOp>, e: Seq<BusOp>, body: Seq<BusOp>, l: Seq<BusOp>|
        #![trigger is_lock_step(dev, false, u), is_erase_step(dev, e), is_sector_writes(dev, 0, sectors, body), is_lock_step(dev, true, l)]
        {
            &&& is_lock_step(dev, false, u)
            &&& is_erase_step(dev, e)
            &&& is_sector_writes(dev, 0, sectors, body)
            &&& is_lock_step(dev, true, l)
            &&& t == u + e + body + l
        }
}

/// The log after a full NVM read ended on a transport error: the unlock
/// aborted; or the unlock completed, some leading run of sectors was fully
/// read, and the next sector's step aborted; or all five were read and the
/// re-lock aborted. Later sectors and the re-lock are never attempted past
/// the first failure.
pub open spec fn is_aborted_nvm_read(dev: u8, limit: int, pre: Seq<BusOp>, post: Seq<BusOp>) -> bool {
    ||| is_aborted_lock_step(dev, false, limit, pre, post)
    ||| exists|u: Seq<BusOp>, vals: Seq<u64>, body: Seq<BusOp>|
        #![trigger is_lock_step(dev, false, u), is_sector_reads(dev, 0, vals, body)]
        {
            &&& is_lock_step(dev, false, u)
            &&& is_sector_reads(dev, 0, vals, body)
            &&& vals.len() <= 5
            &&& {
                ||| vals.len() < 5 && is_aborted_read_sector_step(
                    dev,
                    vals.len() as u8,
                    limit,
                    pre + u + body,
                    post,
                )
                ||| vals.len() == 5 && is_aborted_lock_step(dev, true, limit, pre + u + body, post)
            }
        }
}

/// The log after a full NVM write ended on a transport error: the unlock or
/// the erase aborted at its own point, or some leading run of sectors was
/// fully programmed and the next sector's step or the re-lock aborted.
/// Later sectors and the re-lock are never attempted past the first
/// failure; what was already erased or programmed stays visible in the log.
pub open spec fn is_aborted_nvm_write(
    dev: u8,
    sectors: Seq<u64>,
    limit: int,
    pre: Seq<BusOp>,
    post: Seq<BusOp>,
) -> bool {
    ||| is_aborted_lock_step(dev, false, limit, pre, post)
    ||| exists|u: Seq<BusOp>| #[trigger]
        is_lock_step(dev, false, u) && {
            ||| is_aborted_erase_step(dev, limit, pre + u, post)
            ||| exists|e: Seq<BusOp>, vals: Seq<u64>, body: Seq<BusOp>|
                #![trigger is_erase_step(dev, e), is_sector_writes(dev, 0, vals, body)]
                {
                    &&& is_erase_step(dev, e)
                    &&& is_sector_writes(dev, 0, vals, body)
                    &&& vals.len() <= 5
                    &&& vals == sectors.take(vals.len() as int)
                    &&& {
                        ||| vals.len() < 5 && is_aborted_write_sector_step(
                            dev,
                            vals.len() as u8,
                            sectors[vals.len() as int],
                            limit,
                            pre + u + e + body,
                            post,
                        )
                        ||| vals.len() == 5 && is_aborted_lock_step(
                            dev,
                            true,
                            limit,
                            pre + u + e + body,
                            post,
                        )
                    }
                }
        }
}

} // verus!
