use vstd::prelude::*;

verus! {

/// Capability-flag bit, relative to bit 20 of the PDO word: dual-role power.
pub const FLAG_DUAL_ROLE_POWER: u16 = 0x200;

/// Capability-flag bit: higher capability.
pub const FLAG_HIGHER_CAPABILITY: u16 = 0x100;

/// Capability-flag bit: unconstrained power.
pub const FLAG_UNCONSTRAINED_POWER: u16 = 0x080;

/// Capability-flag bit: USB communications capable.
pub const FLAG_USB_COMMS_CAPABLE: u16 = 0x040;

/// Capability-flag bit: dual-role data.
pub const FLAG_DUAL_ROLE_DATA: u16 = 0x020;

/// Capability-flag field, two bits: fast-role-swap requirement.
pub const FLAG_FRS_MASK: u16 = 0x018;

/// All flag bits a Fixed PDO word can carry: the ten bits 29..=20.
pub const FLAG_MASK: u16 = 0x3FF;

/// Largest voltage (in 50 mV device units) that the ten-bit field holds.
pub const PDO_VOLTAGE_MAX: u16 = 0x3FF;

/// Largest current (in 10 mA device units) that the ten-bit field holds.
pub const PDO_CURRENT_MAX: u16 = 0x3FF;

/// The capability flags of a Fixed PDO as a flat bitmask: the ten bits that
/// sit at positions 29..=20 of the 32-bit word, kept here in the low ten
/// bits of `bits`. Values above `FLAG_MASK` do not fit the wire format and
/// are rejected at encode time.
#[derive(Clone, Copy, Debug, PartialEq, Eq, Structural)]
pub struct PdoFlags {
    pub bits: u16,
}

impl PdoFlags {
    /// No flags set.
    pub fn empty() -> (r: PdoFlags)
        ensures
            r.bits == 0,
    {
        PdoFlags { bits: 0 }
    }

    /// Flags from a raw bit value.
    pub fn from_bits(bits: u16) -> (r: PdoFlags)
        ensures
            r.bits == bits,
    {
        PdoFlags { bits }
    }

    /// The raw bit value.
    pub fn bits(&self) -> (r: u16)
        ensures
            r == self.bits,
    {
        self.bits
    }

    /// Whether every bit of `flag` is set.
    pub fn contains(&self, flag: u16) -> (r: bool)
        ensures
            r == (self.bits & flag == flag),
    {
        self.bits & flag == flag
    }

    /// The flags with every bit of `flag` also set.
    pub fn insert(&self, flag: u16) -> (r: PdoFlags)
        ensures
            r.bits == self.bits | flag,
    {
        PdoFlags { bits: self.bits | flag }
    }

    /// The flags with every bit of `flag` cleared.
    pub fn remove(&self, flag: u16) -> (r: PdoFlags)
        ensures
            r.bits == self.bits & !flag,
    {
        PdoFlags { bits: self.bits & !flag }
    }
}

/// One power-delivery data object. Only the Fixed shape is legal on this
/// device's write path; the other wire shapes exist so that a caller can be
/// told apart and rejected rather than silently truncated.
pub enum Pdo {
    /// Fixed supply: voltage in 50 mV units, current in 10 mA units, and the
    /// capability flags.
    Fixed { voltage: u16, current: u16, flags: PdoFlags },
    /// Battery supply, carried as its raw word; not programmable here.
    Battery { raw: u32 },
    /// Variable supply, carried as its raw word; not programmable here.
    Variable { raw: u32 },
    /// Augmented (programmable) supply, carried as its raw word; not
    /// programmable here.
    Augmented { raw: u32 },
}

/// The 32-bit wire word of a Fixed PDO: current in bits 9..=0, voltage in
/// bits 19..=10, flags in bits 29..=20, and the type selector 0b00 in bits
/// 31..=30.
pub open spec fn spec_fixed_word(voltage: u16, current: u16, flags: u16) -> u32
    recommends
        voltage <= PDO_VOLTAGE_MAX,
        current <= PDO_CURRENT_MAX,
        flags <= FLAG_MASK,
{
    ((flags as u32) << 20) | ((voltage as u32) << 10) | (current as u32)
}

/// Whether the type-selector bits of a wire word say Fixed.
pub open spec fn spec_word_is_fixed(word: u32) -> bool {
    word >> 30 == 0
}

/// The voltage field of a Fixed wire word.
pub open spec fn spec_fixed_voltage(word: u32) -> u16 {
    ((word >> 10) & 0x3FF) as u16
}

/// The current field of a Fixed wire word.
pub open spec fn spec_fixed_current(word: u32) -> u16 {
    (word & 0x3FF) as u16
}

/// The flag field of a Fixed wire word.
pub open spec fn spec_fixed_flags(word: u32) -> u16 {
    ((word >> 20) & 0x3FF) as u16
}

/// What decoding a wire word yields: a Fixed PDO whenever the type selector
/// says Fixed (any such word decodes to some triple), and nothing otherwise.
pub open spec fn spec_decode_pdo(word: u32) -> Option<Pdo> {
    if spec_word_is_fixed(word) {
        Some(
            Pdo::Fixed {
                voltage: spec_fixed_voltage(word),
                current: spec_fixed_current(word),
                flags: PdoFlags { bits: spec_fixed_flags(word) },
            },
        )
    } else {
        None
    }
}

impl Pdo {
    /// Whether this PDO has the Fixed shape, the only one the device's
    /// write path accepts.
    pub open spec fn spec_is_fixed(self) -> bool {
        match self {
            Pdo::Fixed { .. } => true,
            _ => false,
        }
    }

    /// What encoding this PDO yields: the wire word for an in-range Fixed
    /// PDO, and nothing for an out-of-range one (a field would overflow its
    /// bit width) or for a non-Fixed shape.
    pub open spec fn spec_bits(self) -> Option<u32> {
        match self {
            Pdo::Fixed { voltage, current, flags } => if voltage <= PDO_VOLTAGE_MAX && current
                <= PDO_CURRENT_MAX && flags.bits <= FLAG_MASK {
                Some(spec_fixed_word(voltage, current, flags.bits))
            } else {
                None
            },
            _ => None,
        }
    }

    /// Encode the PDO to its 32-bit wire word. Only an in-range Fixed PDO
    /// encodes; an over-wide field is rejected rather than wrapped.
    pub fn bits(&self) -> (r: Option<u32>)
        ensures
            r == self.spec_bits(),
    {
        match self {
            Pdo::Fixed { voltage, current, flags } => {
                if *voltage <= PDO_VOLTAGE_MAX && *current <= PDO_CURRENT_MAX && flags.bits
                    <= FLAG_MASK {
                    Some(
                        ((flags.bits as u32) << 20u32) | ((*voltage as u32) << 10u32) | (*current
                            as u32),
                    )
                } else {
                    None
                }
            },
            _ => None,
        }
    }

    /// Decode a 32-bit wire word. A word whose type selector is not Fixed is
    /// rejected; every word with the Fixed selector decodes to some triple.
    pub fn from_bits(word: u32) -> (r: Option<Pdo>)
        ensures
            r == spec_decode_pdo(word),
    {
        if word >> 30u32 == 0 {
            Some(
                Pdo::Fixed {
                    voltage: ((word >> 10u32) & 0x3FF) as u16,
                    current: (word & 0x3FF) as u16,
                    flags: PdoFlags { bits: ((word >> 20u32) & 0x3FF) as u16 },
                },
            )
        } else {
            None
        }
    }
}

/// Law: round trip. Every in-range Fixed triple encodes, and decoding the
/// encoded word yields the triple back unchanged.
pub proof fn lemma_pdo_round_trip(voltage: u16, current: u16, flags: PdoFlags)
    requires
        voltage <= PDO_VOLTAGE_MAX,
        current <= PDO_CURRENT_MAX,
        flags.bits <= FLAG_MASK,
    ensures
        (Pdo::Fixed { voltage, current, flags }).spec_bits() == Some(
            spec_fixed_word(voltage, current, flags.bits),
        ),
        spec_decode_pdo(spec_fixed_word(voltage, current, flags.bits)) == Some(
            Pdo::Fixed { voltage, current, flags },
        ),
{
    let f = flags.bits;
    assert(voltage <= 0x3FF && current <= 0x3FF && f <= 0x3FF ==> {
        let w = ((f as u32) << 20) | ((voltage as u32) << 10) | (current as u32);
        &&& w >> 30 == 0
        &&& ((w >> 10) & 0x3FF) == voltage as u32
        &&& (w & 0x3FF) == current as u32
        &&& ((w >> 20) & 0x3FF) == f as u32
    }) by (bit_vector);
}

/// Law: round trip, the other way. A wire word with the Fixed selector
/// decodes, and re-encoding the decoded PDO yields the word unchanged.
pub proof fn lemma_word_round_trip(word: u32)
    requires
        spec_word_is_fixed(word),
    ensures
        spec_decode_pdo(word) matches Some(p) && p.spec_bits() == Some(word),
{
    assert(word >> 30 == 0 ==> {
        let v = ((word >> 10) & 0x3FF) as u16;
        let c = (word & 0x3FF) as u16;
        let f = ((word >> 20) & 0x3FF) as u16;
        &&& v <= 0x3FF
        &&& c <= 0x3FF
        &&& f <= 0x3FF
        &&& (((f as u32) << 20) | ((v as u32) << 10) | (c as u32)) == word
    }) by (bit_vector);
}

/// Law: idempotence. Encoding is a pure function of the PDO value alone, so
/// two equal PDOs always encode to the same word.
pub proof fn lemma_encode_deterministic(a: Pdo, b: Pdo)
    requires
        a == b,
    ensures
        a.spec_bits() == b.spec_bits(),
{
}

/// Law: rejection. A word whose type-selector bits name a non-Fixed shape
/// never decodes.
pub proof fn lemma_non_fixed_word_rejected(word: u32)
    requires
        word >> 30 != 0,
    ensures
        spec_decode_pdo(word) is None,
{
}

} // verus!
