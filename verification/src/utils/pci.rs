//! PCI configuration space: the address register and bus scanning.
//!
//! A configuration address is
//! `0x8000_0000 | bus << 16 | device << 11 | function << 8 | offset`;
//! it is written to port `0xCF8`, and the addressed double word is read from
//! port `0xCFC`.
use vstd::prelude::*;

verus! {

/// A 16-bit configuration value.
pub type Word = u16;

/// A 32-bit configuration value.
pub type DWord = u32;

/// The port that takes a configuration address.
pub const CONFIG_ADDRESS_PORT: u16 = 0xCF8;

/// The port that reads the addressed configuration double word.
pub const CONFIG_DATA_PORT: u16 = 0xCFC;

/// The number of devices on a bus.
pub const DEVICES_PER_BUS: u8 = 32;

/// The vendor id that an absent device reads as.
pub const NO_VENDOR: Word = 0xFFFF;

/// Whether `a` is the configuration address of register `offset` of
/// function `func` of device `device` on bus `bus`: the enable bit 31 is set,
/// bits 24 to 30 are clear, and each field stands in its own bits (the
/// device in 5 bits, the function in 3, the offset in 8 with its two low
/// bits clear).
pub open spec fn addresses(a: u32, bus: u8, device: u8, func: u8, offset: u8) -> bool {
    &&& (a >> 31u32) == 1
    &&& (a >> 24u32) & 0x7f == 0
    &&& (a >> 16u32) & 0xff == bus as u32
    &&& (a >> 11u32) & 0x1f == device as u32
    &&& (a >> 8u32) & 0x7 == func as u32
    &&& a & 0xff == offset as u32
}

/// A PCI configuration address.
#[derive(Debug, Clone, Copy)]
pub struct PCIConfigAddr(u32);

impl PCIConfigAddr {
    /// The address as a 32-bit value.
    pub closed spec fn value(&self) -> u32 {
        self.0
    }

    /// The address of register `offset` of function `func_number` of device
    /// `device_number` on bus `bus_number`. Only the bits that fit a field are
    /// kept: 5 bits of the device, 3 of the function, and the offset with its
    /// two low bits cleared.
    pub fn new(bus_number: u8, device_number: u8, func_number: u8, offset: u8) -> (r: Self)
        ensures
            addresses(
                r.value(),
                bus_number,
                device_number & 0x1f,
                func_number & 0x7,
                offset & 0xfc,
            ),
    {
        let bus = bus_number as u32;
        let device = (device_number as u32) & 0b0001_1111u32;
        let func = (func_number as u32) & 0b0000_0111u32;
        let off = (offset as u32) & 0b1111_1100u32;
        let tmp = 0x8000_0000u32 | bus << 16u32 | device << 11u32 | func << 8u32 | off;
        let (d, f, o) = (device_number, func_number, offset);
        assert(addresses(tmp, bus_number, d & 0x1f, f & 0x7, o & 0xfc)) by (bit_vector)
            requires
                bus == bus_number as u32,
                device == (d as u32) & 0x1fu32,
                func == (f as u32) & 0x7u32,
                off == (o as u32) & 0xfcu32,
                tmp == 0x8000_0000u32 | bus << 16u32 | device << 11u32 | func << 8u32 | off,
        ;
        PCIConfigAddr(tmp)
    }

    /// The same composition as [`PCIConfigAddr::new`] with no masking: a field
    /// too wide for its bits spills into its neighbours.
    pub fn new_unchecked(bus_number: u8, device_number: u8, func_number: u8, offset: u8) -> (r:
        Self)
        ensures
            r.value() == 0x8000_0000u32 | (bus_number as u32) << 16u32 | (device_number as u32)
                << 11u32 | (func_number as u32) << 8u32 | (offset as u32),
    {
        let tmp = 0x8000_0000u32 | (bus_number as u32) << 16u32 | (device_number as u32) << 11u32
            | (func_number as u32) << 8u32 | (offset as u32);
        PCIConfigAddr(tmp)
    }

    /// The address as the value to write to the address port.
    pub fn as_u32(&self) -> (r: u32)
        ensures
            r == self.value(),
    {
        self.0
    }
}

/// When every field fits its bits, masking changes nothing: the checked and
/// the unchecked composition give the same address.
pub proof fn lemma_new_agrees_with_unchecked(a: u32, bus: u8, device: u8, func: u8, offset: u8)
    requires
        device < 32,
        func < 8,
        offset & 3 == 0,
        addresses(a, bus, device & 0x1f, func & 0x7, offset & 0xfc),
    ensures
        a == 0x8000_0000u32 | (bus as u32) << 16u32 | (device as u32) << 11u32 | (func as u32)
            << 8u32 | (offset as u32),
{
    assert(a == 0x8000_0000u32 | (bus as u32) << 16u32 | (device as u32) << 11u32 | (func as u32)
        << 8u32 | (offset as u32)) by (bit_vector)
        requires
            device < 32,
            func < 8,
            offset & 3 == 0,
            (a >> 31u32) == 1,
            (a >> 24u32) & 0x7f == 0,
            (a >> 16u32) & 0xff == bus as u32,
            (a >> 11u32) & 0x1f == (device & 0x1f) as u32,
            (a >> 8u32) & 0x7 == (func & 0x7) as u32,
            a & 0xff == (offset & 0xfc) as u32,
    ;
}

/// The 16-bit word at `offset` of a configuration double word: the high half
/// when bit 1 of the offset is set, the low half otherwise.
pub fn config_word(dword: DWord, offset: u8) -> (r: Word)
    ensures
        offset & 2 == 0 ==> r == dword & 0xffff,
        offset & 2 != 0 ==> r == dword >> 16u32,
{
    let masked = (offset as u16) & 2u16;
    assert(masked <= 2) by (bit_vector)
        requires
            masked == (offset as u16) & 2u16,
    ;
    let shift = masked * 8u16;
    let r = (dword >> shift) as u16;
    assert(offset & 2 == 0 ==> r == dword & 0xffff) by (bit_vector)
        requires
            masked == (offset as u16) & 2u16,
            shift == masked * 8u16,
            r == (dword >> shift) as u16,
    ;
    assert(offset & 2 != 0 ==> r == dword >> 16u32) by (bit_vector)
        requires
            masked == (offset as u16) & 2u16,
            shift == masked * 8u16,
            r == (dword >> shift) as u16,
    ;
    r
}

/// A device found on a PCI bus.
#[derive(Debug, Clone)]
pub struct DeviceInfo {
    bus: u8,
    slot: u8,
    id: Word,
    vendor: Word,
}

impl View for DeviceInfo {
    /// The bus, the slot, the device id and the vendor id.
    type V = (u8, u8, Word, Word);

    closed spec fn view(&self) -> (u8, u8, Word, Word) {
        (self.bus, self.slot, self.id, self.vendor)
    }
}

impl DeviceInfo {
    /// The device in `slot` of `bus`, with its device and vendor ids.
    pub fn new(bus: u8, slot: u8, id: Word, vendor: Word) -> (r: Self)
        ensures
            r@ == (bus, slot, id, vendor),
    {
        DeviceInfo { bus, slot, id, vendor }
    }

    /// The bus.
    pub fn bus(&self) -> (r: u8)
        ensures
            r == self@.0,
    {
        self.bus
    }

    /// The slot.
    pub fn slot(&self) -> (r: u8)
        ensures
            r == self@.1,
    {
        self.slot
    }

    /// The device id.
    pub fn id(&self) -> (r: Word)
        ensures
            r == self@.2,
    {
        self.id
    }

    /// The vendor id.
    pub fn vendor(&self) -> (r: Word)
        ensures
            r == self@.3,
    {
        self.vendor
    }
}

/// The devices of `bus` among the first `n` slots, given the (vendor id,
/// device id) read from function 0 of each slot: a slot whose vendor id reads
/// as all ones is empty.
pub open spec fn present_devices(bus: u8, readings: Seq<(Word, Word)>, n: int) -> Seq<
    (u8, u8, Word, Word),
>
    decreases n,
{
    if n <= 0 {
        seq![]
    } else {
        let (vendor, id) = readings[n - 1];
        present_devices(bus, readings, n - 1) + if vendor != NO_VENDOR {
            seq![(bus, (n - 1) as u8, id, vendor)]
        } else {
            seq![]
        }
    }
}

/// A slot is reported exactly when its vendor id is not all ones: every such
/// slot among the first `n` appears once, with its bus, slot, device id and
/// vendor id, every reported device is such a slot, and slots come in
/// increasing order.
pub proof fn lemma_present_devices_are_the_present_slots(
    bus: u8,
    readings: Seq<(Word, Word)>,
    n: int,
)
    requires
        0 <= n <= DEVICES_PER_BUS,
        readings.len() >= n,
    ensures
        forall|s: int|
            0 <= s < n && readings[s].0 != 0xFFFFu16 ==> exists|k: int|
                0 <= k < present_devices(bus, readings, n).len() && #[trigger] present_devices(
                    bus,
                    readings,
                    n,
                )[k] == (bus, s as u8, readings[s].1, readings[s].0),
        forall|k: int|
            0 <= k < present_devices(bus, readings, n).len() ==> {
                let (b, slot, id, vendor) = #[trigger] present_devices(bus, readings, n)[k];
                &&& b == bus
                &&& slot < n
                &&& vendor != 0xFFFFu16
                &&& readings[slot as int] == (vendor, id)
            },
        forall|k1: int, k2: int|
            0 <= k1 < k2 < present_devices(bus, readings, n).len() ==> (#[trigger] present_devices(
                bus,
                readings,
                n,
            )[k1]).1 < (#[trigger] present_devices(bus, readings, n)[k2]).1,
    decreases n,
{
    if n > 0 {
        lemma_present_devices_are_the_present_slots(bus, readings, n - 1);
        let before = present_devices(bus, readings, n - 1);
        let now = present_devices(bus, readings, n);
        let (vendor, id) = readings[n - 1];
        let added: Seq<(u8, u8, Word, Word)> = if vendor != NO_VENDOR {
            seq![(bus, (n - 1) as u8, id, vendor)]
        } else {
            seq![]
        };
        assert(now == before + added);
        assert forall|k: int| 0 <= k < before.len() implies now[k] == before[k] by {}
        assert forall|s: int|
            0 <= s < n && readings[s].0 != 0xFFFFu16 implies exists|k: int|
                0 <= k < now.len() && #[trigger] now[k] == (bus, s as u8, readings[s].1, readings[s].0) by {
            if s < n - 1 {
                let k = choose|k: int|
                    0 <= k < before.len() && #[trigger] before[k] == (
                        bus,
                        s as u8,
                        readings[s].1,
                        readings[s].0,
                    );
                assert(now[k] == before[k]);
            } else {
                assert(now[before.len() as int] == (bus, s as u8, readings[s].1, readings[s].0));
            }
        }
        assert forall|k: int| 0 <= k < now.len() implies {
            let (b, slot, id, vendor) = #[trigger] now[k];
            &&& b == bus
            &&& slot < n
            &&& vendor != 0xFFFFu16
            &&& readings[slot as int] == (vendor, id)
        } by {
            if k < before.len() {
                assert(now[k] == before[k]);
            }
        }
        assert forall|k1: int, k2: int| 0 <= k1 < k2 < now.len() implies (#[trigger] now[k1]).1 < (
        #[trigger] now[k2]).1 by {
            assert(now[k1] == before[k1]);
            if k2 < before.len() {
                assert(now[k2] == before[k2]);
            }
        }
    }
}

/// Discovers the devices of `bus` from the (vendor id, device id) read from
/// function 0 of each of its 32 slots, in slot order.
pub fn scan_bus_devices(bus: u8, readings: &[(Word, Word)]) -> (r: Vec<DeviceInfo>)
    requires
        readings@.len() == DEVICES_PER_BUS,
    ensures
        r@.len() == present_devices(bus, readings@, DEVICES_PER_BUS as int).len(),
        forall|k: int|
            0 <= k < r@.len() ==> #[trigger] r@[k]@ == present_devices(
                bus,
                readings@,
                DEVICES_PER_BUS as int,
            )[k],
        forall|slot: int|
            0 <= slot < DEVICES_PER_BUS && readings@[slot].0 != 0xFFFFu16 ==> exists|k: int|
                0 <= k < r@.len() && #[trigger] r@[k]@ == (
                    bus,
                    slot as u8,
                    readings@[slot].1,
                    readings@[slot].0,
                ),
        forall|k: int|
            0 <= k < r@.len() ==> {
                let (b, slot, id, vendor) = #[trigger] r@[k]@;
                &&& b == bus
                &&& slot < DEVICES_PER_BUS
                &&& vendor != 0xFFFFu16
                &&& readings@[slot as int] == (vendor, id)
            },
        forall|k1: int, k2: int|
            0 <= k1 < k2 < r@.len() ==> (#[trigger] r@[k1]@).1 < (#[trigger] r@[k2]@).1,
{
    let mut res: Vec<DeviceInfo> = Vec::with_capacity(32);
    let mut device_id: u8 = 0;
    while device_id < DEVICES_PER_BUS
        invariant
            device_id <= DEVICES_PER_BUS,
            readings@.len() == DEVICES_PER_BUS,
            res@.len() == present_devices(bus, readings@, device_id as int).len(),
            forall|k: int|
                0 <= k < res@.len() ==> #[trigger] res@[k]@ == present_devices(
                    bus,
                    readings@,
                    device_id as int,
                )[k],
        decreases DEVICES_PER_BUS - device_id,
    {
        let (vendor, id) = readings[device_id as usize];
        if vendor != NO_VENDOR {
            res.push(DeviceInfo::new(bus, device_id, id, vendor));
        }
        device_id = device_id + 1;
    }
    proof {
        let p = present_devices(bus, readings@, DEVICES_PER_BUS as int);
        lemma_present_devices_are_the_present_slots(bus, readings@, DEVICES_PER_BUS as int);
        assert forall|slot: int|
            0 <= slot < DEVICES_PER_BUS && readings@[slot].0 != 0xFFFFu16 implies exists|k: int|
                0 <= k < res@.len() && #[trigger] res@[k]@ == (
                    bus,
                    slot as u8,
                    readings@[slot].1,
                    readings@[slot].0,
                ) by {
            let k = choose|k: int|
                0 <= k < p.len() && #[trigger] p[k] == (
                    bus,
                    slot as u8,
                    readings@[slot].1,
                    readings@[slot].0,
                );
            assert(res@[k]@ == p[k]);
        }
        assert forall|k: int| 0 <= k < res@.len() implies {
            let (b, slot, id, vendor) = #[trigger] res@[k]@;
            &&& b == bus
            &&& slot < DEVICES_PER_BUS
            &&& vendor != 0xFFFFu16
            &&& readings@[slot as int] == (vendor, id)
        } by {
            assert(res@[k]@ == p[k]);
        }
        assert forall|k1: int, k2: int| 0 <= k1 < k2 < res@.len() implies (#[trigger] res@[k1]@).1
            < (#[trigger] res@[k2]@).1 by {
            assert(res@[k1]@ == p[k1]);
            assert(res@[k2]@ == p[k2]);
        }
    }
    res
}

} // verus!
