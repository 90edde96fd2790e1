use vallicks::arch::pci::{
    bar_count, decode_bar, with_int_disabled, with_int_enabled, with_mastering, Device, Pci,
    CLASS_NETWORK, DEVICE_RTL8139, SUBCLASS_ETHERNET, VENDOR_REALTEK,
};
use vallicks::driver::rtl8139::plan_flush;
use vallicks::qemu::{ExitCode, EXIT_PORT};

fn device(class_id: u16, subclass_id: u16, vendor_id: u16, device_id: u16, bus: u16) -> Device {
    Device {
        bus,
        device: 0,
        function: 0,
        vendor_id,
        device_id,
        class_id,
        subclass_id,
        interface_id: 0,
        revision: 0,
        interrupt: 11,
        port_base: Some(0xc000),
    }
}

#[test]
fn exit_codes() {
    assert_eq!(ExitCode::Success.raw(), 0x10);
    assert_eq!(ExitCode::Failed.raw(), 0x11);
    assert_eq!(EXIT_PORT, 0xf4);
}

#[test]
fn pci_finds_the_first_match() {
    let mut pci = Pci::new();
    assert!(pci.find(0x2, 0x00, 0x10ec, 0x8139).is_none());
    pci.devices.push(device(0x1, 0x01, 0x8086, 0x7010, 0));
    pci.devices.push(device(0x2, 0x00, 0x10ec, 0x8139, 1));
    pci.devices.push(device(0x2, 0x00, 0x10ec, 0x8139, 2));
    let found = pci
        .find(CLASS_NETWORK, SUBCLASS_ETHERNET, VENDOR_REALTEK, DEVICE_RTL8139)
        .expect("the card is on the bus");
    assert_eq!(found.bus, 1);
    assert_eq!(found.port_base, Some(0xc000));
    assert!(pci.find(0x2, 0x00, 0x10ec, 0x8140).is_none());
    assert!(pci.find(0x2, 0x01, 0x10ec, 0x8139).is_none());
    assert!(pci.find(0x3, 0x00, 0x10ec, 0x8139).is_none());
    assert!(pci.find(0x2, 0x00, 0x10ed, 0x8139).is_none());
}

#[test]
fn pci_command_word_bits() {
    assert_eq!(with_mastering(0x0003), 0x0007);
    assert_eq!(with_int_disabled(0x0007), 0x0407);
    assert_eq!(with_int_enabled(0x0407), 0x0007);
    assert_eq!(with_int_enabled(0x0007), 0x0007);
    let d = Device::at(1, 2, 3);
    assert_eq!(d.get_id(0x04), 0x8000_0000 | 1 << 16 | 2 << 11 | 3 << 8 | 0x04);
    assert!(!d.is_present());
    assert!(device(2, 0, 0x10ec, 0x8139, 0).is_present());
    assert!(!device(2, 0, 0xffff, 0x8139, 0).is_present());
    assert!(!device(2, 0, 0x0004, 0x8139, 0).is_present());
    assert_eq!(bar_count(0), 6);
    assert_eq!(bar_count(1), 2);
    assert_eq!(bar_count(2), 0);
    assert_eq!(bar_count(0x80), 6);
    let bar = decode_bar(0xc001).expect("an I/O register");
    assert_eq!(bar.addr, 0xc000);
    assert!(decode_bar(0xfebf_0000).is_none());
}

#[test]
fn flush_plan_walks_the_slots() {
    let (writes, next) = plan_flush(0xc000, 2, &vec![60, 1514, 0x1234]);
    assert_eq!(next, 1);
    assert_eq!(writes.len(), 3);
    assert_eq!((writes[0].frame, writes[0].data_port, writes[0].cmd_port, writes[0].len_word), (0, 0xc028, 0xc018, 60));
    assert_eq!((writes[1].frame, writes[1].data_port, writes[1].cmd_port, writes[1].len_word), (1, 0xc02c, 0xc01c, 1514));
    assert_eq!((writes[2].frame, writes[2].data_port, writes[2].cmd_port, writes[2].len_word), (2, 0xc020, 0xc010, 0x234));
    let (writes, next) = plan_flush(0xc000, 3, &vec![]);
    assert!(writes.is_empty());
    assert_eq!(next, 3);
}
