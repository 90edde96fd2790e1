//! The devices found on the PCI bus, and the search among them.

use vstd::prelude::*;

verus! {

/// The class of a network controller.
pub const CLASS_NETWORK: u16 = 0x2;

/// The subclass of an Ethernet controller.
pub const SUBCLASS_ETHERNET: u16 = 0x00;

/// The vendor of the RTL8139.
pub const VENDOR_REALTEK: u16 = 0x10ec;

/// The device number of the RTL8139.
pub const DEVICE_RTL8139: u16 = 0x8139;

/// What a base address register maps.
#[derive(Debug, Clone, Copy, PartialEq, Eq, Structural)]
pub enum DeviceType {
    MemoryMapping,
    InputOutput,
}

/// A decoded base address register.
#[derive(Debug, Clone, Copy)]
pub struct BaseAddrReg {
    pub addr: u32,
    pub size: u32,
    pub reg_type: DeviceType,
    pub prefetch: bool,
}

/// One device on the bus.
#[derive(Debug, Clone, Copy)]
pub struct Device {
    pub bus: u16,
    pub device: u16,
    pub function: u16,
    pub vendor_id: u16,
    pub device_id: u16,
    pub class_id: u16,
    pub subclass_id: u16,
    pub interface_id: u8,
    pub revision: u8,
    pub interrupt: u16,
    pub port_base: Option<u32>,
}

/// Whether device `d` has the given class, subclass, vendor and device
/// number.
pub open spec fn matches_ids(
    d: Device,
    class_id: u16,
    subclass_id: u16,
    vendor_id: u16,
    device_id: u16,
) -> bool {
    d.class_id == class_id && d.subclass_id == subclass_id && d.vendor_id == vendor_id
        && d.device_id == device_id
}

/// The devices found on the bus, in the order they were found.
pub struct Pci {
    pub devices: Vec<Device>,
}

impl Pci {
    /// A list without devices.
    pub fn new() -> (r: Self)
        ensures
            r.devices@.len() == 0,
    {
        Pci { devices: Vec::new() }
    }

    /// The first device with the given class, subclass, vendor and device
    /// number, if there is one.
    pub fn find(&self, class_id: u16, subclass_id: u16, vendor_id: u16, device_id: u16) -> (r:
        Option<Device>)
        ensures
            match r {
                Some(d) => exists|i: int|
                    {
                        &&& 0 <= i < self.devices@.len()
                        &&& #[trigger] self.devices@[i] == d
                        &&& matches_ids(d, class_id, subclass_id, vendor_id, device_id)
                        &&& forall|j: int|
                            0 <= j < i ==> !matches_ids(
                                #[trigger] self.devices@[j],
                                class_id,
                                subclass_id,
                                vendor_id,
                                device_id,
                            )
                    },
                None => forall|j: int|
                    0 <= j < self.devices@.len() ==> !matches_ids(
                        #[trigger] self.devices@[j],
                        class_id,
                        subclass_id,
                        vendor_id,
                        device_id,
                    ),
            },
    {
        let mut i: usize = 0;
        while i < self.devices.len()
            invariant
                i <= self.devices@.len(),
                forall|j: int|
                    0 <= j < i ==> !matches_ids(
                        #[trigger] self.devices@[j],
                        class_id,
                        subclass_id,
                        vendor_id,
                        device_id,
                    ),
            decreases self.devices.len() - i,
        {
            let d = self.devices[i];
            if d.class_id == class_id && d.subclass_id == subclass_id && d.vendor_id == vendor_id
                && d.device_id == device_id {
                return Some(d);
            }
            i = i + 1;
        }
        None
    }
}

/// The port to which the address of a configuration register is written.
pub const CONFIG_ADDRESS: u16 = 0xcf8;

/// The port through which the addressed configuration register is read and
/// written.
pub const CONFIG_DATA: u16 = 0xcfc;

/// The offset of the command word in a device's configuration space.
pub const COMMAND_OFFSET: u32 = 0x04;

/// The bit of the command word that lets the device master the bus.
pub const COMMAND_MASTER: u32 = 0x04;

/// The bit of the command word that disables the device's interrupts.
pub const COMMAND_INT_DISABLE: u32 = 0x400;

impl Device {
    /// A device at `bus`, `device`, `function` of which nothing else is
    /// known yet.
    pub fn at(bus: u16, device: u16, function: u16) -> (r: Device)
        ensures
            r == (Device {
                bus: bus,
                device: device,
                function: function,
                vendor_id: 0,
                device_id: 0,
                class_id: 0,
                subclass_id: 0,
                interface_id: 0,
                revision: 0,
                interrupt: 0,
                port_base: None,
            }),
    {
        Device {
            bus,
            device,
            function,
            vendor_id: 0,
            device_id: 0,
            class_id: 0,
            subclass_id: 0,
            interface_id: 0,
            revision: 0,
            interrupt: 0,
            port_base: None,
        }
    }

    /// Whether a device answers at this place: one does unless the vendor
    /// number read is one of the lowest five or all ones.
    pub fn is_present(&self) -> (r: bool)
        ensures
            r == !(self.vendor_id <= 0x0004 || self.vendor_id == 0xffff),
    {
        !(self.vendor_id <= 0x0004 || self.vendor_id == 0xffff)
    }

    /// The address of the configuration register at `offset` of this
    /// device: the enable bit, then bus, device and function, then the
    /// offset.
    pub fn get_id(&self, offset: u32) -> (r: u32)
        ensures
            r == (0x8000_0000u32 | (self.bus as u32) << 16 | (self.device as u32) << 11 | (
            self.function as u32) << 8 | offset),
    {
        0x8000_0000u32 | (self.bus as u32) << 16 | (self.device as u32) << 11 | (
        self.function as u32) << 8 | offset
    }
}

/// The command word `conf` with bus mastering switched on.
pub fn with_mastering(conf: u32) -> (r: u32)
    ensures
        r == conf | 0x04,
{
    conf | COMMAND_MASTER
}

/// The command word `conf` with the device's interrupts enabled.
pub fn with_int_enabled(conf: u32) -> (r: u32)
    ensures
        r == conf & !0x400u32,
{
    conf & !COMMAND_INT_DISABLE
}

/// The command word `conf` with the device's interrupts disabled.
pub fn with_int_disabled(conf: u32) -> (r: u32)
    ensures
        r == conf | 0x400,
{
    conf | COMMAND_INT_DISABLE
}

/// Enabling the interrupts undoes disabling them and leaves every other bit
/// of the command word alone, and the other way round.
pub proof fn lemma_int_toggle(conf: u32)
    ensures
        (conf | 0x400) & !0x400u32 == conf & !0x400u32,
        (conf & !0x400u32) | 0x400 == conf | 0x400,
        (conf | 0x400) & 0x400 == 0x400,
        (conf & !0x400u32) & 0x400 == 0,
{
    assert((conf | 0x400) & !0x400u32 == conf & !0x400u32) by (bit_vector);
    assert((conf & !0x400u32) | 0x400 == conf | 0x400) by (bit_vector);
    assert((conf | 0x400) & 0x400 == 0x400) by (bit_vector);
    assert((conf & !0x400u32) & 0x400 == 0) by (bit_vector);
}

/// How many base address registers a device with header type `hdr_type`
/// has.
pub fn bar_count(hdr_type: u16) -> (r: u16)
    ensures
        r == if 4 * (hdr_type % 128) >= 6 {
            0
        } else {
            (6 - 4 * (hdr_type % 128)) as u16
        },
{
    let kind: u16 = hdr_type % 128;
    if 4 * kind >= 6 {
        0
    } else {
        6 - 4 * kind
    }
}

/// Decodes the base address register value `bar_val`: an I/O register
/// gives its port base, a memory register nothing.
pub fn decode_bar(bar_val: u32) -> (r: Option<BaseAddrReg>)
    ensures
        r is Some <==> bar_val % 2 == 1,
        r is Some ==> r->Some_0.addr == (bar_val & 0xfffc) && r->Some_0.size == 0
            && r->Some_0.reg_type == DeviceType::InputOutput && !r->Some_0.prefetch,
{
    if bar_val % 2 == 1 {
        Some(
            BaseAddrReg {
                addr: bar_val & 0xfffc,
                size: 0,
                reg_type: DeviceType::InputOutput,
                prefetch: false,
            },
        )
    } else {
        None
    }
}

} // verus!
