use stusb4500::alert::{ALERT_PORT_STATUS, AlertMask};
use stusb4500::pdo::{Pdo, PdoFlags};
use stusb4500::sim::{FaultyTransport, SimTransport};
use stusb4500::{Address, Error, NVM_POLL_LIMIT, PdoChannel, STUSB4500};

const FACTORY_NVM: [u8; 40] = [
    0xF0, 0x00, 0xB0, 0xAA, 0x00, 0x45, 0x00, 0x00, 0x10, 0x40, 0x9C, 0x1C, 0xF0, 0x01, 0x00,
    0xDF, 0x02, 0x40, 0x0F, 0x00, 0x32, 0x00, 0xFC, 0xF1, 0x00, 0x19, 0x54, 0xAF, 0xF5, 0x35,
    0x5F, 0x00, 0x00, 0x2D, 0x2C, 0x21, 0x43, 0x00, 0x40, 0xFB,
];

#[test]
fn address_resolution() {
    assert_eq!(Address::Default.addr(), 0x28);
    assert_eq!(Address::Strap(false, false).addr(), 0x28);
    assert_eq!(Address::Strap(false, true).addr(), 0x29);
    assert_eq!(Address::Strap(true, false).addr(), 0x2A);
    assert_eq!(Address::Strap(true, true).addr(), 0x2B);
    assert_eq!(Address::Custom(0x42).addr(), 0x42);
}

#[test]
fn set_num_pdo_boundaries() {
    let mut stusb = STUSB4500::new(SimTransport::new(), Address::Default);
    assert!(matches!(stusb.set_num_pdo(0), Err(Error::OutaRangePdo)));
    assert!(matches!(stusb.set_num_pdo(4), Err(Error::OutaRangePdo)));
    assert!(matches!(stusb.set_num_pdo(255), Err(Error::OutaRangePdo)));
    assert!(stusb.set_num_pdo(1).is_ok());
    assert!(stusb.set_num_pdo(2).is_ok());
    assert!(stusb.set_num_pdo(3).is_ok());
    assert_eq!(stusb.transport().pdo_count, 3);
}

#[test]
fn factory_default_nvm_round_trip() {
    let mut stusb = STUSB4500::new(SimTransport::new(), Address::Default);
    stusb.write_nvm_bytes(FACTORY_NVM).expect("writing the factory image must succeed");
    let read_back = stusb.get_nvm_bytes().expect("reading the image back must succeed");
    assert_eq!(read_back, FACTORY_NVM);
}

#[test]
fn nvm_sector_round_trip() {
    let mut sim = SimTransport::new();
    sim.sectors = [11, 22, 33, 44, 55];
    let mut stusb = STUSB4500::new(sim, Address::Default);
    assert_eq!(stusb.get_nvm().unwrap(), [11, 22, 33, 44, 55]);
    stusb.write_nvm([5, 4, 3, 2, 1]).unwrap();
    assert_eq!(stusb.transport().sectors, [5, 4, 3, 2, 1]);
    assert_eq!(stusb.get_nvm().unwrap(), [5, 4, 3, 2, 1]);
}

#[test]
fn busy_poll_read_count() {
    // A full NVM write performs fifteen busy-polled commands: one unlock,
    // three erase steps, two per sector programmed, one lock. A transport
    // that stays busy for the first seven reads therefore costs seven extra
    // control-register reads on top of the fifteen that see it idle.
    let mut sim = SimTransport::new();
    sim.busy_budget = 7;
    let mut stusb = STUSB4500::new(sim, Address::Default);
    stusb.write_nvm([1, 2, 3, 4, 5]).expect("write must succeed once the device unblocks");
    assert_eq!(stusb.transport().ctrl0_reads, 7 + 15);
}

#[test]
fn stuck_device_times_out() {
    let mut sim = SimTransport::new();
    sim.busy_budget = 0xFFFF_FFFF;
    let mut stusb = STUSB4500::new(sim, Address::Default);
    assert!(matches!(stusb.write_nvm([0; 5]), Err(Error::NvmTimeout)));
    assert_eq!(stusb.transport().ctrl0_reads, NVM_POLL_LIMIT);
}

#[test]
fn set_pdo_rejects_non_fixed_without_bus_traffic() {
    let mut stusb = STUSB4500::new(SimTransport::new(), Address::Default);
    let result = stusb.set_pdo(PdoChannel::PDO1, &Pdo::Battery { raw: 0x4000_0000 });
    assert!(matches!(result, Err(Error::InvalidPdo)));
    let result = stusb.set_pdo(PdoChannel::PDO2, &Pdo::Variable { raw: 0x8000_0000 });
    assert!(matches!(result, Err(Error::InvalidPdo)));
    assert_eq!(stusb.transport().write_ops, 0);
    assert_eq!(stusb.transport().read_ops, 0);
}

#[test]
fn set_pdo_rejects_out_of_range_without_bus_traffic() {
    let mut stusb = STUSB4500::new(SimTransport::new(), Address::Default);
    let too_wide = Pdo::Fixed { voltage: 0x400, current: 0, flags: PdoFlags::empty() };
    assert!(matches!(stusb.set_pdo(PdoChannel::PDO1, &too_wide), Err(Error::OutaRangePdo)));
    assert_eq!(stusb.transport().write_ops, 0);
}

#[test]
fn set_and_get_pdo() {
    let mut stusb = STUSB4500::new(SimTransport::new(), Address::Default);
    let pdo = Pdo::Fixed { voltage: 100, current: 150, flags: PdoFlags::empty() };
    stusb.set_pdo(PdoChannel::PDO1, &pdo).unwrap();
    assert_eq!(stusb.transport().pdo_words[0], 0x19096);
    match stusb.get_pdo(PdoChannel::PDO1).unwrap() {
        Pdo::Fixed { voltage, current, flags } => {
            assert_eq!(voltage, 100);
            assert_eq!(current, 150);
            assert_eq!(flags.bits(), 0);
        }
        _ => panic!("slot should decode as fixed"),
    }
}

#[test]
fn get_pdo_rejects_non_fixed_slot() {
    let mut sim = SimTransport::new();
    sim.pdo_words[1] = 0x8000_0000;
    let mut stusb = STUSB4500::new(sim, Address::Default);
    assert!(matches!(stusb.get_pdo(PdoChannel::PDO2), Err(Error::InvalidPdo)));
}

#[test]
fn get_current_rdo_snapshot() {
    let mut sim = SimTransport::new();
    sim.rdo_word = (2 << 28) | (350 << 10) | 125;
    let mut stusb = STUSB4500::new(sim, Address::Default);
    let rdo = stusb.get_current_rdo().unwrap();
    assert_eq!(rdo.object_position(), 2);
    assert_eq!(rdo.operating_current(), 350);
    assert_eq!(rdo.max_operating_current(), 125);
}

#[test]
fn alerts_clear_on_read() {
    let mut sim = SimTransport::new();
    sim.alert_status = 0x42;
    let mut stusb = STUSB4500::new(sim, Address::Default);
    assert_eq!(stusb.get_alerts().unwrap().bits(), 0x42);
    assert_eq!(stusb.get_alerts().unwrap().bits(), 0);
}

#[test]
fn alert_mask_written() {
    let mut stusb = STUSB4500::new(SimTransport::new(), Address::Default);
    let mask = AlertMask::empty().insert(ALERT_PORT_STATUS);
    stusb.set_alerts_mask(mask).unwrap();
    assert_eq!(stusb.transport().alert_mask, ALERT_PORT_STATUS);
}

#[test]
fn soft_reset_command_sequence() {
    let mut stusb = STUSB4500::new(SimTransport::new(), Address::Default);
    stusb.soft_reset().unwrap();
    assert_eq!(stusb.transport().tx_header, 0x0D);
    assert_eq!(stusb.transport().pd_command, 0x26);
}

#[test]
fn clear_interrupts_reads_status_block() {
    let mut stusb = STUSB4500::new(SimTransport::new(), Address::Default);
    stusb.clear_interrupts().unwrap();
    assert_eq!(stusb.transport().read_ops, 1);
    assert_eq!(stusb.transport().write_ops, 1);
}

#[test]
fn transport_failure_is_wrapped() {
    let mut stusb = STUSB4500::new(FaultyTransport::new(), Address::Default);
    assert!(matches!(stusb.get_alerts(), Err(Error::I2CError(_))));
    assert!(matches!(stusb.get_nvm(), Err(Error::I2CError(_))));
    assert!(matches!(stusb.soft_reset(), Err(Error::I2CError(_))));
}
