use stusb4500::nvm::{bytes_to_sectors, sectors_to_bytes};
use stusb4500::pdo::{
    FLAG_DUAL_ROLE_DATA, FLAG_DUAL_ROLE_POWER, FLAG_MASK, FLAG_USB_COMMS_CAPABLE, Pdo, PdoFlags,
};
use stusb4500::rdo::Rdo;

#[test]
fn it_works() {
    assert_eq!(2 + 2, 4);
}

#[test]
fn pdo_round_trip() {
    let cases: [(u16, u16, u16); 4] = [
        (100, 150, 0),
        (0x3FF, 0x3FF, FLAG_MASK),
        (0, 0, 0),
        (300, 50, FLAG_DUAL_ROLE_POWER | FLAG_USB_COMMS_CAPABLE),
    ];
    for &(voltage, current, flag_bits) in cases.iter() {
        let pdo = Pdo::Fixed { voltage, current, flags: PdoFlags::from_bits(flag_bits) };
        let word = pdo.bits().expect("in-range fixed PDO must encode");
        let back = Pdo::from_bits(word).expect("fixed word must decode");
        match back {
            Pdo::Fixed { voltage: v, current: c, flags: f } => {
                assert_eq!(v, voltage);
                assert_eq!(c, current);
                assert_eq!(f.bits(), flag_bits);
            }
            _ => panic!("decoded PDO is not fixed"),
        }
    }
}

#[test]
fn pdo_encode_idempotent() {
    let pdo = Pdo::Fixed { voltage: 96, current: 300, flags: PdoFlags::from_bits(FLAG_DUAL_ROLE_DATA) };
    assert_eq!(pdo.bits(), pdo.bits());
}

#[test]
fn pdo_exact_word() {
    // 5 V in 50 mV units is 100; 1.5 A in 10 mA units is 150; no flags.
    let pdo = Pdo::Fixed { voltage: 100, current: 150, flags: PdoFlags::empty() };
    assert_eq!(pdo.bits(), Some(0x19096));
}

#[test]
fn pdo_non_fixed_word_rejected() {
    assert!(Pdo::from_bits(0x4000_0000).is_none());
    assert!(Pdo::from_bits(0x8000_0000).is_none());
    assert!(Pdo::from_bits(0xC000_0000).is_none());
    assert!(Pdo::from_bits(0xFFFF_FFFF).is_none());
    assert!(Pdo::from_bits(0x3FFF_FFFF).is_some());
}

#[test]
fn pdo_out_of_range_encode_rejected() {
    let too_wide_voltage = Pdo::Fixed { voltage: 0x400, current: 0, flags: PdoFlags::empty() };
    assert!(too_wide_voltage.bits().is_none());
    let too_wide_current = Pdo::Fixed { voltage: 0, current: 0x400, flags: PdoFlags::empty() };
    assert!(too_wide_current.bits().is_none());
    let too_wide_flags = Pdo::Fixed { voltage: 0, current: 0, flags: PdoFlags::from_bits(0x400) };
    assert!(too_wide_flags.bits().is_none());
}

#[test]
fn pdo_flags_ops() {
    let f = PdoFlags::empty().insert(FLAG_DUAL_ROLE_POWER).insert(FLAG_USB_COMMS_CAPABLE);
    assert!(f.contains(FLAG_DUAL_ROLE_POWER));
    assert!(f.contains(FLAG_USB_COMMS_CAPABLE));
    assert!(!f.contains(FLAG_DUAL_ROLE_DATA));
    let g = f.remove(FLAG_DUAL_ROLE_POWER);
    assert!(!g.contains(FLAG_DUAL_ROLE_POWER));
    assert!(g.contains(FLAG_USB_COMMS_CAPABLE));
}

#[test]
fn nvm_bytes_round_trip() {
    let sectors: [u64; 5] = [
        0x0123_4567_89AB_CDEF,
        0,
        0xFFFF_FFFF_FFFF_FFFF,
        0xDEAD_BEEF_0BAD_F00D,
        42,
    ];
    let bytes = sectors_to_bytes(&sectors);
    assert_eq!(bytes_to_sectors(&bytes), sectors);

    let mut pattern: [u8; 40] = [0; 40];
    let mut i = 0;
    while i < 40 {
        pattern[i] = (7 * i + 3) as u8;
        i += 1;
    }
    let parsed = bytes_to_sectors(&pattern);
    assert_eq!(sectors_to_bytes(&parsed), pattern);
}

#[test]
fn nvm_bytes_little_endian_order() {
    let sectors: [u64; 5] = [0x0102_0304_0506_0708, 0, 0, 0, 0x1122_3344_5566_7788];
    let bytes = sectors_to_bytes(&sectors);
    assert_eq!(bytes[0], 0x08);
    assert_eq!(bytes[1], 0x07);
    assert_eq!(bytes[7], 0x01);
    assert_eq!(bytes[8], 0x00);
    assert_eq!(bytes[32], 0x88);
    assert_eq!(bytes[39], 0x11);
}

#[test]
fn rdo_accessors() {
    let word: u32 = (3 << 28) | (1 << 26) | (200 << 10) | 300;
    let rdo = Rdo(word);
    assert_eq!(rdo.object_position(), 3);
    assert!(!rdo.giveback());
    assert!(rdo.capability_mismatch());
    assert!(!rdo.usb_comms_capable());
    assert!(!rdo.no_usb_suspend());
    assert_eq!(rdo.operating_current(), 200);
    assert_eq!(rdo.max_operating_current(), 300);
}
