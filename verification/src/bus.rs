use vstd::prelude::*;
use vstd::bytes::*;
use vstd::slice::*;

use crate::machine::Firmware;
use crate::ram::Memory;
use crate::rom::Rom;

verus! {

/// A byte address on the machine bus.
#[derive(Debug, PartialEq, Eq, Clone, Copy)]
pub struct Address(pub u64);

/// A signed displacement applied to an [`Address`].
#[derive(Debug, Copy, Clone, PartialEq, Eq, PartialOrd, Ord, Hash)]
pub struct Offset(pub i64);

/// A raw machine word, as moved over the bus.
#[derive(Debug, Copy, Clone, PartialEq, Eq, PartialOrd, Ord, Hash)]
pub struct Native(pub u64);

/// `a + off` modulo 2^64: the address arithmetic of the bus.
pub open spec fn offset_address(a: u64, off: i64) -> u64 {
    vstd::wrapping::u64_specs::wrapping_add_signed(a, off)
}

/// `a - off` modulo 2^64.
pub open spec fn offset_address_back(a: u64, off: i64) -> u64 {
    vstd::wrapping::u64_specs::wrapping_sub(a, off as u64)
}

impl Address {
    /// Moves the address forwards by `off` bytes, wrapping around the address space.
    pub fn offset_by(self, off: Offset) -> (r: Address)
        ensures
            r.0 == offset_address(self.0, off.0),
    {
        Address(self.0.wrapping_add_signed(off.0))
    }

    /// Moves the address backwards by `off` bytes, wrapping around the address space.
    pub fn offset_back(self, off: Offset) -> (r: Address)
        ensures
            r.0 == offset_address_back(self.0, off.0),
    {
        Address(self.0.wrapping_sub(off.0 as u64))
    }
}

impl std::ops::Add<Offset> for Address {
    type Output = Address;

    fn add(self, rhs: Offset) -> (r: Address) {
        self.offset_by(rhs)
    }
}

impl vstd::std_specs::ops::AddSpecImpl<Offset> for Address {
    open spec fn obeys_add_spec() -> bool {
        true
    }

    open spec fn add_req(self, rhs: Offset) -> bool {
        true
    }

    open spec fn add_spec(self, rhs: Offset) -> Address {
        Address(offset_address(self.0, rhs.0))
    }
}

impl std::ops::Sub<Offset> for Address {
    type Output = Address;

    fn sub(self, rhs: Offset) -> (r: Address) {
        self.offset_back(rhs)
    }
}

impl vstd::std_specs::ops::SubSpecImpl<Offset> for Address {
    open spec fn obeys_sub_spec() -> bool {
        true
    }

    open spec fn sub_req(self, rhs: Offset) -> bool {
        true
    }

    open spec fn sub_spec(self, rhs: Offset) -> Address {
        Address(offset_address_back(self.0, rhs.0))
    }
}

impl std::ops::Add<Native> for Native {
    type Output = Native;

    /// Word addition; the sum wraps around at 2^64 as machine registers do.
    fn add(self, rhs: Native) -> (r: Native) {
        Native(self.0.wrapping_add(rhs.0))
    }
}

impl vstd::std_specs::ops::AddSpecImpl<Native> for Native {
    open spec fn obeys_add_spec() -> bool {
        true
    }

    open spec fn add_req(self, rhs: Native) -> bool {
        true
    }

    open spec fn add_spec(self, rhs: Native) -> Native {
        Native(vstd::wrapping::u64_specs::wrapping_add(self.0, rhs.0))
    }
}

impl std::ops::Sub<Native> for Native {
    type Output = Native;

    fn sub(self, rhs: Native) -> (r: Native) {
        Native(self.0.wrapping_sub(rhs.0))
    }
}

impl vstd::std_specs::ops::SubSpecImpl<Native> for Native {
    open spec fn obeys_sub_spec() -> bool {
        true
    }

    open spec fn sub_req(self, rhs: Native) -> bool {
        true
    }

    open spec fn sub_spec(self, rhs: Native) -> Native {
        Native(vstd::wrapping::u64_specs::wrapping_sub(self.0, rhs.0))
    }
}

impl From<u64> for Native {
    fn from(value: u64) -> (r: Native) {
        Native(value)
    }
}

impl vstd::std_specs::convert::FromSpecImpl<u64> for Native {
    open spec fn obeys_from_spec() -> bool {
        true
    }

    open spec fn from_spec(v: u64) -> Native {
        Native(v)
    }
}

impl From<Native> for u64 {
    fn from(value: Native) -> (r: u64) {
        value.0
    }
}

impl vstd::std_specs::convert::FromSpecImpl<Native> for u64 {
    open spec fn obeys_from_spec() -> bool {
        true
    }

    open spec fn from_spec(v: Native) -> u64 {
        v.0
    }
}

impl From<Address> for Native {
    fn from(value: Address) -> (r: Native) {
        Native(value.0)
    }
}

impl vstd::std_specs::convert::FromSpecImpl<Address> for Native {
    open spec fn obeys_from_spec() -> bool {
        true
    }

    open spec fn from_spec(v: Address) -> Native {
        Native(v.0)
    }
}

impl From<Native> for Address {
    fn from(value: Native) -> (r: Address) {
        Address(value.0)
    }
}

impl vstd::std_specs::convert::FromSpecImpl<Native> for Address {
    open spec fn obeys_from_spec() -> bool {
        true
    }

    open spec fn from_spec(v: Native) -> Address {
        Address(v.0)
    }
}

/// Little-endian bytes `s[at..at + 8]` read as one word.
pub open spec fn word_at(s: Seq<u8>, at: int) -> u64 {
    spec_u64_from_le_bytes(s.subrange(at, at + 8))
}

/// `s` with the little-endian bytes of `w` written at `at..at + 8`.
pub open spec fn with_word_at(s: Seq<u8>, at: int, w: u64) -> Seq<u8> {
    s.subrange(0, at) + spec_u64_to_le_bytes(w) + s.subrange(at + 8, s.len() as int)
}

/// One block of a firmware image: bytes placed at a base address.
pub struct SectionState {
    pub base: int,
    pub data: Seq<u8>,
}

/// The first section (from index `i` on) whose bytes cover address `a`.
pub open spec fn section_covering(sections: Seq<SectionState>, a: int, i: int) -> Option<int>
    decreases sections.len() - i,
{
    if i < 0 || i >= sections.len() {
        None
    } else if sections[i].base <= a && a < sections[i].base + sections[i].data.len() {
        Some(i)
    } else {
        section_covering(sections, a, i + 1)
    }
}

/// A section found by [`section_covering`] does cover the address.
pub proof fn lemma_section_covering(sections: Seq<SectionState>, a: int, i: int)
    ensures
        section_covering(sections, a, i) matches Some(k) ==> {
            &&& i <= k < sections.len()
            &&& 0 <= k
            &&& sections[k].base <= a < sections[k].base + sections[k].data.len()
        },
    decreases sections.len() - i,
{
    if 0 <= i < sections.len() {
        lemma_section_covering(sections, a, i + 1);
    }
}

/// What a device holds, as seen by contracts.
pub enum DeviceState {
    /// Writable bytes.
    Ram { bytes: Seq<u8> },
    /// Read-only bytes; writes are ignored.
    Rom { bytes: Seq<u8> },
    /// Read-only sections of an assembled image, addressed from `base`.
    Firmware { base: int, sections: Seq<SectionState> },
}

impl DeviceState {
    /// A byte access at `a` stays inside the device.
    pub open spec fn byte_in_bounds(self, a: u64) -> bool {
        match self {
            DeviceState::Ram { bytes } => a < bytes.len(),
            DeviceState::Rom { bytes } => a < bytes.len(),
            DeviceState::Firmware { base, .. } => a + base <= usize::MAX,
        }
    }

    /// A word access at `a..a + 8` stays inside the device.
    pub open spec fn word_in_bounds(self, a: u64) -> bool {
        match self {
            DeviceState::Ram { bytes } => a + 8 <= bytes.len(),
            DeviceState::Rom { bytes } => a + 8 <= bytes.len(),
            DeviceState::Firmware { base, sections } => {
                &&& a + base <= usize::MAX
                &&& match section_covering(sections, a + base, 0) {
                    Some(i) => a + base - sections[i].base + 8 <= sections[i].data.len(),
                    None => true,
                }
            },
        }
    }

    pub open spec fn read_byte(self, a: u64) -> u8 {
        match self {
            DeviceState::Ram { bytes } => bytes[a as int],
            DeviceState::Rom { bytes } => bytes[a as int],
            DeviceState::Firmware { base, sections } => match section_covering(
                sections,
                a + base,
                0,
            ) {
                Some(i) => sections[i].data[a + base - sections[i].base],
                None => 0,
            },
        }
    }

    pub open spec fn read_word(self, a: u64) -> u64 {
        match self {
            DeviceState::Ram { bytes } => word_at(bytes, a as int),
            DeviceState::Rom { bytes } => word_at(bytes, a as int),
            DeviceState::Firmware { base, sections } => match section_covering(
                sections,
                a + base,
                0,
            ) {
                Some(i) => word_at(sections[i].data, a + base - sections[i].base),
                None => 0,
            },
        }
    }

    pub open spec fn write_byte(self, a: u64, d: u8) -> DeviceState {
        match self {
            DeviceState::Ram { bytes } => DeviceState::Ram { bytes: bytes.update(a as int, d) },
            _ => self,
        }
    }

    pub open spec fn write_word(self, a: u64, d: u64) -> DeviceState {
        match self {
            DeviceState::Ram { bytes } => DeviceState::Ram { bytes: with_word_at(bytes, a as int, d) },
            _ => self,
        }
    }

    pub open spec fn located_at(self, base: u64) -> DeviceState {
        match self {
            DeviceState::Firmware { sections, .. } => DeviceState::Firmware {
                base: (base as usize) as int,
                sections,
            },
            _ => self,
        }
    }
}

/// Something that answers reads and writes at offsets from where it is mapped.
pub trait Device {
    /// The contents of the device.
    spec fn state(&self) -> DeviceState;

    fn set_location(&mut self, base_address: Address)
        ensures
            final(self).state() == old(self).state().located_at(base_address.0),
    ;

    fn read_word(&self, address: Address) -> (r: Native)
        requires
            self.state().word_in_bounds(address.0),
        ensures
            r.0 == self.state().read_word(address.0),
    ;

    fn write_word(&mut self, address: Address, data: Native)
        requires
            old(self).state().word_in_bounds(address.0),
        ensures
            final(self).state() == old(self).state().write_word(address.0, data.0),
    ;

    fn read_byte(&self, address: Address) -> (r: u8)
        requires
            self.state().byte_in_bounds(address.0),
        ensures
            r == self.state().read_byte(address.0),
    ;

    fn write_byte(&mut self, address: Address, data: u8)
        requires
            old(self).state().byte_in_bounds(address.0),
        ensures
            final(self).state() == old(self).state().write_byte(address.0, data),
    ;
}

/// Reads the word stored little-endian at `bytes[at..at + 8]`.
pub(crate) fn bytes_read_word(bytes: &Vec<u8>, at: usize) -> (r: u64)
    requires
        at + 8 <= bytes.len(),
    ensures
        r == word_at(bytes@, at as int),
{
    u64_from_le_bytes(slice_subrange(bytes.as_slice(), at, at + 8))
}

/// Stores `w` little-endian at `bytes[at..at + 8]`.
pub(crate) fn bytes_write_word(bytes: &mut Vec<u8>, at: usize, w: u64)
    requires
        at + 8 <= old(bytes).len(),
    ensures
        final(bytes)@ == with_word_at(old(bytes)@, at as int, w),
{
    let enc = u64_to_le_bytes(w);
    let ghost before = bytes@;
    let mut i: usize = 0;
    while i < 8
        invariant
            0 <= i <= 8,
            at + 8 <= bytes.len(),
            enc@ == spec_u64_to_le_bytes(w),
            enc@.len() == 8,
            bytes@.len() == before.len(),
            forall|j: int| 0 <= j < at ==> bytes@[j] == before[j],
            forall|j: int| at + 8 <= j < before.len() ==> bytes@[j] == before[j],
            forall|j: int| at <= j < at + i ==> bytes@[j] == enc@[j - at],
        decreases 8 - i,
    {
        bytes.set(at + i, enc[i]);
        i = i + 1;
    }
    assert(bytes@ =~= with_word_at(before, at as int, w));
}

/// The devices the machine can place on its bus.
pub enum BusDevice {
    Ram(Memory),
    Rom(Rom),
    Firmware(Firmware),
}

impl Device for BusDevice {
    open spec fn state(&self) -> DeviceState {
        match self {
            BusDevice::Ram(m) => m.state(),
            BusDevice::Rom(r) => r.state(),
            BusDevice::Firmware(f) => f.state(),
        }
    }

    fn set_location(&mut self, base_address: Address) {
        match self {
            BusDevice::Ram(m) => m.set_location(base_address),
            BusDevice::Rom(r) => r.set_location(base_address),
            BusDevice::Firmware(f) => f.set_location(base_address),
        }
    }

    fn read_word(&self, address: Address) -> (r: Native) {
        match self {
            BusDevice::Ram(m) => m.read_word(address),
            BusDevice::Rom(r) => r.read_word(address),
            BusDevice::Firmware(f) => f.read_word(address),
        }
    }

    fn write_word(&mut self, address: Address, data: Native) {
        match self {
            BusDevice::Ram(m) => m.write_word(address, data),
            BusDevice::Rom(r) => r.write_word(address, data),
            BusDevice::Firmware(f) => f.write_word(address, data),
        }
    }

    fn read_byte(&self, address: Address) -> (r: u8) {
        match self {
            BusDevice::Ram(m) => m.read_byte(address),
            BusDevice::Rom(r) => r.read_byte(address),
            BusDevice::Firmware(f) => f.read_byte(address),
        }
    }

    fn write_byte(&mut self, address: Address, data: u8) {
        match self {
            BusDevice::Ram(m) => m.write_byte(address, data),
            BusDevice::Rom(r) => r.write_byte(address, data),
            BusDevice::Firmware(f) => f.write_byte(address, data),
        }
    }
}

/// A device placed at the addresses `start..end`.
pub struct MappingState {
    pub start: u64,
    pub end: u64,
    pub device: DeviceState,
}

/// The first mapping (from index `i` on) whose range holds `a`.
pub open spec fn mapping_for(m: Seq<MappingState>, a: u64, i: int) -> Option<int>
    decreases m.len() - i,
{
    if i < 0 || i >= m.len() {
        None
    } else if m[i].start <= a && a < m[i].end {
        Some(i)
    } else {
        mapping_for(m, a, i + 1)
    }
}

/// A mapping found by [`mapping_for`] does hold the address.
pub proof fn lemma_mapping_for(m: Seq<MappingState>, a: u64, i: int)
    ensures
        mapping_for(m, a, i) matches Some(k) ==> {
            &&& i <= k < m.len()
            &&& 0 <= k
            &&& m[k].start <= a < m[k].end
        },
    decreases m.len() - i,
{
    if 0 <= i < m.len() {
        lemma_mapping_for(m, a, i + 1);
    }
}

/// Which mapping holds an address depends only on where the mappings sit.
proof fn lemma_mapping_for_same_ranges(m: Seq<MappingState>, n: Seq<MappingState>, a: u64, i: int)
    requires
        m.len() == n.len(),
        forall|k: int| 0 <= k < m.len() ==> m[k].start == n[k].start && m[k].end == n[k].end,
    ensures
        mapping_for(m, a, i) == mapping_for(n, a, i),
    decreases m.len() - i,
{
    if 0 <= i < m.len() {
        lemma_mapping_for_same_ranges(m, n, a, i + 1);
    }
}

/// A word written through the bus to memory is read back unchanged at the same address.
pub proof fn lemma_bus_word_roundtrip(m: Seq<MappingState>, a: u64, d: u64)
    requires
        mapping_for(m, a, 0) matches Some(i) && m[i].device is Ram && m[i].device.word_in_bounds(
            (a - m[i].start) as u64,
        ),
    ensures
        bus_read_word(bus_write_word(m, a, d), a) == d,
{
    lemma_mapping_for(m, a, 0);
    let i = mapping_for(m, a, 0).unwrap();
    let n = bus_write_word(m, a, d);
    lemma_mapping_for_same_ranges(m, n, a, 0);
    let off = (a - m[i].start) as u64;
    let bytes = m[i].device->Ram_bytes;
    let written = with_word_at(bytes, off as int, d);
    assert(written.subrange(off as int, off + 8) =~= spec_u64_to_le_bytes(d)) by {
        lemma_auto_spec_u64_to_from_le_bytes();
    }
    lemma_auto_spec_u64_to_from_le_bytes();
}

/// A byte written through the bus to memory is read back unchanged at the same address.
pub proof fn lemma_bus_byte_roundtrip(m: Seq<MappingState>, a: u64, d: u8)
    requires
        mapping_for(m, a, 0) matches Some(i) && m[i].device is Ram && m[i].device.byte_in_bounds(
            (a - m[i].start) as u64,
        ),
    ensures
        bus_read_byte(bus_write_byte(m, a, d), a) == d,
{
    lemma_mapping_for(m, a, 0);
    let n = bus_write_byte(m, a, d);
    lemma_mapping_for_same_ranges(m, n, a, 0);
}

/// The word at `a` lies in memory: the first mapping that holds `a` is RAM, and the
/// word's eight bytes lie inside it.
pub open spec fn ram_word(m: Seq<MappingState>, a: u64) -> bool {
    mapping_for(m, a, 0) matches Some(i) && m[i].device is Ram && m[i].device.word_in_bounds(
        (a - m[i].start) as u64,
    )
}

/// Every mapping keeps its range and its kind of device, and memory its size.
pub open spec fn same_layout(m: Seq<MappingState>, n: Seq<MappingState>) -> bool {
    &&& m.len() == n.len()
    &&& forall|k: int|
        0 <= k < m.len() ==> {
            &&& #[trigger] m[k].start == n[k].start
            &&& m[k].end == n[k].end
            &&& (m[k].device is Ram) == (n[k].device is Ram)
            &&& m[k].device is Ram ==> m[k].device->Ram_bytes.len() == n[k].device->Ram_bytes.len()
        }
}

/// Writes change contents only, never where devices sit or how large memory is.
pub(crate) proof fn lemma_writes_keep_layout(m: Seq<MappingState>, b: u64, d: u64, e: u8)
    ensures
        same_layout(m, bus_write_word(m, b, d)),
        same_layout(m, bus_write_byte(m, b, e)),
{
    lemma_mapping_for(m, b, 0);
    lemma_auto_spec_u64_to_from_le_bytes();
}

/// A word in memory stays in memory across any write.
pub(crate) proof fn lemma_ram_word_kept(m: Seq<MappingState>, n: Seq<MappingState>, a: u64)
    requires
        same_layout(m, n),
        ram_word(m, a),
    ensures
        ram_word(n, a),
{
    lemma_mapping_for_same_ranges(m, n, a, 0);
    lemma_mapping_for(m, a, 0);
}

/// The word at `oa` of `bytes` survives writing a word at a non-overlapping `ob`.
proof fn lemma_word_at_elsewhere(bytes: Seq<u8>, oa: int, ob: int, d: u64)
    requires
        0 <= oa,
        oa + 8 <= bytes.len(),
        0 <= ob,
        ob + 8 <= bytes.len(),
        oa + 8 <= ob || ob + 8 <= oa,
    ensures
        word_at(with_word_at(bytes, ob, d), oa) == word_at(bytes, oa),
{
    lemma_auto_spec_u64_to_from_le_bytes();
    assert(with_word_at(bytes, ob, d).subrange(oa, oa + 8) =~= bytes.subrange(oa, oa + 8));
}

/// A word write leaves every word that it does not overlap as it was.
pub proof fn lemma_bus_word_write_elsewhere(m: Seq<MappingState>, a: u64, b: u64, d: u64)
    requires
        a + 8 <= b || b + 8 <= a,
    ensures
        bus_read_word(bus_write_word(m, b, d), a) == bus_read_word(m, a),
{
    let n = bus_write_word(m, b, d);
    lemma_writes_keep_layout(m, b, d, 0);
    lemma_mapping_for_same_ranges(m, n, a, 0);
    lemma_mapping_for(m, a, 0);
    lemma_mapping_for(m, b, 0);
    if let Some(i) = mapping_for(m, a, 0) {
        if let Some(j) = mapping_for(m, b, 0) {
            if i == j && m[j].device.word_in_bounds((b - m[j].start) as u64) && m[i].device is Ram
                && m[i].device.word_in_bounds((a - m[i].start) as u64) {
                lemma_word_at_elsewhere(
                    m[i].device->Ram_bytes,
                    a - m[i].start,
                    b - m[j].start,
                    d,
                );
            }
        }
    }
}

/// A byte write leaves every word that does not hold that byte as it was.
pub proof fn lemma_bus_byte_write_elsewhere(m: Seq<MappingState>, a: u64, b: u64, e: u8)
    requires
        b < a || a + 8 <= b,
    ensures
        bus_read_word(bus_write_byte(m, b, e), a) == bus_read_word(m, a),
{
    let n = bus_write_byte(m, b, e);
    lemma_writes_keep_layout(m, b, 0, e);
    lemma_mapping_for_same_ranges(m, n, a, 0);
    lemma_mapping_for(m, a, 0);
    lemma_mapping_for(m, b, 0);
    if let Some(i) = mapping_for(m, a, 0) {
        if let Some(j) = mapping_for(m, b, 0) {
            if i == j && m[i].device is Ram && m[j].device.byte_in_bounds((b - m[j].start) as u64)
                && m[i].device.word_in_bounds((a - m[i].start) as u64) {
                let bytes = m[i].device->Ram_bytes;
                let oa = a - m[i].start;
                assert(bytes.update(b - m[j].start, e).subrange(oa, oa + 8) =~= bytes.subrange(oa, oa + 8));
            }
        }
    }
}

/// A word written to memory reads back unchanged after a later word write that does
/// not overlap it.
pub proof fn lemma_bus_word_survives_write(m: Seq<MappingState>, a: u64, v: u64, b: u64, d: u64)
    requires
        ram_word(m, a),
        a + 8 <= b || b + 8 <= a,
    ensures
        bus_read_word(bus_write_word(bus_write_word(m, a, v), b, d), a) == v,
{
    lemma_bus_word_roundtrip(m, a, v);
    lemma_bus_word_write_elsewhere(bus_write_word(m, a, v), a, b, d);
}

/// A word written to memory reads back unchanged after a later byte write outside it.
pub proof fn lemma_bus_word_survives_byte_write(m: Seq<MappingState>, a: u64, v: u64, b: u64, e: u8)
    requires
        ram_word(m, a),
        b < a || a + 8 <= b,
    ensures
        bus_read_word(bus_write_byte(bus_write_word(m, a, v), b, e), a) == v,
{
    lemma_bus_word_roundtrip(m, a, v);
    lemma_bus_byte_write_elsewhere(bus_write_word(m, a, v), a, b, e);
}

/// Words are stored little-endian: after a word write to memory, byte `k` of the word
/// reads back as byte `k` of its little-endian encoding, wherever the first mapping
/// holding that byte is the one holding the word.
pub proof fn lemma_bus_word_bytes(m: Seq<MappingState>, b: u64, d: u64, k: int)
    requires
        ram_word(m, b),
        0 <= k < 8,
        b + k <= u64::MAX,
        mapping_for(m, (b + k) as u64, 0) == mapping_for(m, b, 0),
    ensures
        bus_read_byte(bus_write_word(m, b, d), (b + k) as u64) == spec_u64_to_le_bytes(d)[k],
{
    let n = bus_write_word(m, b, d);
    lemma_writes_keep_layout(m, b, d, 0);
    lemma_mapping_for_same_ranges(m, n, (b + k) as u64, 0);
    lemma_mapping_for(m, b, 0);
    lemma_auto_spec_u64_to_from_le_bytes();
}

/// Writes to read-only devices, and to addresses no device holds, leave the bus as it was.
pub proof fn lemma_bus_write_to_rom_ignored(m: Seq<MappingState>, a: u64, d: u64)
    requires
        !(mapping_for(m, a, 0) matches Some(i) && m[i].device is Ram),
    ensures
        bus_write_word(m, a, d) == m,
{
    lemma_mapping_for(m, a, 0);
    if let Some(i) = mapping_for(m, a, 0) {
        if m[i].device.word_in_bounds((a - m[i].start) as u64) {
            assert(bus_write_word(m, a, d) =~= m);
        }
    }
}

/// The word the bus answers at `a`: 0 where no device holds `a`, or where the word
/// would run past the end of the device that does.
pub open spec fn bus_read_word(m: Seq<MappingState>, a: u64) -> u64 {
    match mapping_for(m, a, 0) {
        Some(i) => if m[i].device.word_in_bounds((a - m[i].start) as u64) {
            m[i].device.read_word((a - m[i].start) as u64)
        } else {
            0
        },
        None => 0,
    }
}

/// The byte the bus answers at `a`, 0 where no device holds it.
pub open spec fn bus_read_byte(m: Seq<MappingState>, a: u64) -> u8 {
    match mapping_for(m, a, 0) {
        Some(i) => if m[i].device.byte_in_bounds((a - m[i].start) as u64) {
            m[i].device.read_byte((a - m[i].start) as u64)
        } else {
            0
        },
        None => 0,
    }
}

/// The bus after a word write at `a`; writes nothing can take are dropped.
pub open spec fn bus_write_word(m: Seq<MappingState>, a: u64, d: u64) -> Seq<MappingState> {
    match mapping_for(m, a, 0) {
        Some(i) => if m[i].device.word_in_bounds((a - m[i].start) as u64) {
            m.update(
                i,
                MappingState {
                    start: m[i].start,
                    end: m[i].end,
                    device: m[i].device.write_word((a - m[i].start) as u64, d),
                },
            )
        } else {
            m
        },
        None => m,
    }
}

/// The bus after a byte write at `a`; writes nothing can take are dropped.
pub open spec fn bus_write_byte(m: Seq<MappingState>, a: u64, d: u8) -> Seq<MappingState> {
    match mapping_for(m, a, 0) {
        Some(i) => if m[i].device.byte_in_bounds((a - m[i].start) as u64) {
            m.update(
                i,
                MappingState {
                    start: m[i].start,
                    end: m[i].end,
                    device: m[i].device.write_byte((a - m[i].start) as u64, d),
                },
            )
        } else {
            m
        },
        None => m,
    }
}

struct Mapping {
    range: std::ops::Range<u64>,
    device: BusDevice,
}

impl Mapping {
    spec fn state(&self) -> MappingState {
        MappingState { start: self.range.start, end: self.range.end, device: self.device.state() }
    }
}

/// The machine bus: routes each access to the first device whose range holds the address.
pub struct Bus {
    mappings: Vec<Mapping>,
}

impl View for Bus {
    type V = Seq<MappingState>;

    closed spec fn view(&self) -> Seq<MappingState> {
        self.mappings@.map_values(|m: Mapping| m.state())
    }
}

#[derive(Debug)]
pub enum BusError {
    NoMapping,
}

impl Bus {
    pub fn new() -> (b: Self)
        ensures
            b@ == Seq::<MappingState>::empty(),
    {
        let b = Bus { mappings: Vec::new() };
        assert(b@ =~= Seq::<MappingState>::empty());
        b
    }

    /// Places `device` at `range`, after the devices already there. Overlapping ranges
    /// are not refused: the earlier mapping wins.
    pub fn install(&mut self, range: std::ops::Range<u64>, device: BusDevice) -> (r: Result<
        (),
        BusError,
    >)
        ensures
            r is Ok,
            final(self)@ == old(self)@.push(
                MappingState {
                    start: range.start,
                    end: range.end,
                    device: device.state().located_at(range.start),
                },
            ),
    {
        let mut device = device;
        device.set_location(Address(range.start));
        let m = Mapping { range, device };
        let ghost st = m.state();
        self.mappings.push(m);
        assert(self@ =~= old(self)@.push(st));
        Ok(())
    }

    fn find(&self, a: u64) -> (r: Option<usize>)
        ensures
            match r {
                Some(i) => mapping_for(self@, a, 0) == Some(i as int) && i < self@.len()
                    && self@[i as int].start <= a < self@[i as int].end,
                None => mapping_for(self@, a, 0) is None,
            },
    {
        let mut i: usize = 0;
        while i < self.mappings.len()
            invariant
                0 <= i <= self.mappings.len(),
                self@.len() == self.mappings.len(),
                mapping_for(self@, a, 0) == mapping_for(self@, a, i as int),
            decreases self.mappings.len() - i,
        {
            let m = &self.mappings[i];
            assert(self@[i as int] == m.state());
            if m.range.start <= a && a < m.range.end {
                proof {
                    lemma_mapping_for(self@, a, i as int);
                }
                return Some(i);
            }
            i = i + 1;
        }
        None
    }

    pub fn read_word(&self, address: Address) -> (r: Native)
        ensures
            r.0 == bus_read_word(self@, address.0),
    {
        let a = address.0;
        match self.find(a) {
            Some(i) => {
                let m = &self.mappings[i];
                assert(self@[i as int] == m.state());
                let off = Address(a - m.range.start);
                if word_in_bounds(&m.device, off.0) {
                    m.device.read_word(off)
                } else {
                    Native(0x00)
                }
            },
            None => Native(0x00),
        }
    }

    pub fn write_word(&mut self, address: Address, data: Native)
        ensures
            final(self)@ == bus_write_word(old(self)@, address.0, data.0),
    {
        let a = address.0;
        match self.find(a) {
            Some(i) => {
                let ghost before = self@;
                assert(before[i as int] == self.mappings@[i as int].state());
                let start = self.mappings[i].range.start;
                let off = Address(a - start);
                if word_in_bounds(&self.mappings[i].device, off.0) {
                    let mut m = self.mappings.remove(i);
                    m.device.write_word(off, data);
                    self.mappings.insert(i, m);
                    assert(self@ =~= bus_write_word(before, a, data.0));
                }
            },
            None => {},
        }
    }

    pub fn read_byte(&self, address: Address) -> (r: u8)
        ensures
            r == bus_read_byte(self@, address.0),
    {
        let a = address.0;
        match self.find(a) {
            Some(i) => {
                let m = &self.mappings[i];
                assert(self@[i as int] == m.state());
                let off = Address(a - m.range.start);
                if byte_in_bounds(&m.device, off.0) {
                    m.device.read_byte(off)
                } else {
                    0x00
                }
            },
            None => 0x00,
        }
    }

    pub fn write_byte(&mut self, address: Address, data: u8)
        ensures
            final(self)@ == bus_write_byte(old(self)@, address.0, data),
    {
        let a = address.0;
        match self.find(a) {
            Some(i) => {
                let ghost before = self@;
                assert(before[i as int] == self.mappings@[i as int].state());
                let start = self.mappings[i].range.start;
                let off = Address(a - start);
                if byte_in_bounds(&self.mappings[i].device, off.0) {
                    let mut m = self.mappings.remove(i);
                    m.device.write_byte(off, data);
                    self.mappings.insert(i, m);
                    assert(self@ =~= bus_write_byte(before, a, data));
                }
            },
            None => {},
        }
    }
}

/// Whether a byte access at `a` stays inside `device`.
fn byte_in_bounds(device: &BusDevice, a: u64) -> (r: bool)
    ensures
        r == device.state().byte_in_bounds(a),
{
    match device {
        BusDevice::Ram(m) => a < m.bytes.len() as u64,
        BusDevice::Rom(r) => a < r.bytes.len() as u64,
        BusDevice::Firmware(f) => f.byte_in_bounds(a),
    }
}

/// Whether a word access at `a..a + 8` stays inside `device`.
fn word_in_bounds(device: &BusDevice, a: u64) -> (r: bool)
    ensures
        r == device.state().word_in_bounds(a),
{
    match device {
        BusDevice::Ram(m) => a <= m.bytes.len() as u64 && 8 <= m.bytes.len() as u64 - a,
        BusDevice::Rom(r) => a <= r.bytes.len() as u64 && 8 <= r.bytes.len() as u64 - a,
        BusDevice::Firmware(f) => f.word_in_bounds(a),
    }
}

} // verus!
