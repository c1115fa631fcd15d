use vstd::prelude::*;

use crate::bus::{bytes_read_word, bytes_write_word, Address, Device, DeviceState, Native};
use crate::rom::Rom;

verus! {

/// A bank of RAM together with the small ROM that describes it to the firmware.
pub struct Ram {
    pub ram_device: Memory,
    pub configuration_device: Rom,
}

/// Writable memory, addressed from 0.
pub struct Memory {
    pub bytes: Vec<u8>,
}

/// The configuration block of a RAM bank of `size` bytes: a signature, the size
/// (little-endian), zero-padded to 32 bytes.
pub open spec fn configuration_block(size: usize) -> Seq<u8> {
    seq![0xaau8, 0x55u8, 0x74u8, 0x6fu8, 0x72u8, 0x64u8, 0x65u8, 0x6bu8, 0u8, 0u8, 0u8, 0u8, 0u8, 0u8, 0u8, 0u8]
        + vstd::bytes::spec_u64_to_le_bytes(size as u64)
        + Seq::new(8, |i: int| 0u8)
}

impl Ram {
    pub fn new(size: usize) -> (r: Self)
        ensures
            r.ram_device.bytes@ == Seq::new(size as nat, |i: int| 0u8),
            r.configuration_device.bytes@ == configuration_block(size),
    {
        let mut romdata: Vec<u8> = vec![0xaa, 0x55, 0x74, 0x6f, 0x72, 0x64, 0x65, 0x6b, 0, 0, 0, 0, 0, 0, 0, 0];
        let size_bytes = vstd::bytes::u64_to_le_bytes(size as u64);
        let mut i: usize = 0;
        while i < 8
            invariant
                0 <= i <= 8,
                size_bytes@ == vstd::bytes::spec_u64_to_le_bytes(size as u64),
                size_bytes@.len() == 8,
                romdata@ == seq![0xaau8, 0x55u8, 0x74u8, 0x6fu8, 0x72u8, 0x64u8, 0x65u8, 0x6bu8, 0u8, 0u8, 0u8, 0u8, 0u8, 0u8, 0u8, 0u8]
                    + size_bytes@.subrange(0, i as int),
            decreases 8 - i,
        {
            romdata.push(size_bytes[i]);
            i = i + 1;
            assert(size_bytes@.subrange(0, i as int) =~= size_bytes@.subrange(0, i - 1).push(size_bytes@[i - 1]));
        }
        while romdata.len() < 32
            invariant
                24 <= romdata.len() <= 32,
                romdata@.subrange(0, 24) == seq![0xaau8, 0x55u8, 0x74u8, 0x6fu8, 0x72u8, 0x64u8, 0x65u8, 0x6bu8, 0u8, 0u8, 0u8, 0u8, 0u8, 0u8, 0u8, 0u8]
                    + size_bytes@,
                forall|j: int| 24 <= j < romdata.len() ==> romdata@[j] == 0u8,
            decreases 32 - romdata.len(),
        {
            romdata.push(0);
        }
        assert(romdata@ =~= configuration_block(size));
        let bytes = vec![0u8; size];
        assert(bytes@ =~= Seq::new(size as nat, |i: int| 0u8));
        Self { ram_device: Memory { bytes }, configuration_device: Rom::new(romdata) }
    }
}

impl Device for Memory {
    open spec fn state(&self) -> DeviceState {
        DeviceState::Ram { bytes: self.bytes@ }
    }

    fn set_location(&mut self, _base: Address) {
    }

    fn read_byte(&self, address: Address) -> (r: u8) {
        assert(address.0 < self.bytes.len());
        let i = address.0 as usize;
        self.bytes[i]
    }

    fn write_byte(&mut self, address: Address, data: u8) {
        assert(address.0 < self.bytes.len());
        let i = address.0 as usize;
        self.bytes.set(i, data);
    }

    fn read_word(&self, addr: Address) -> (r: Native) {
        assert(addr.0 + 8 <= self.bytes.len());
        let i = addr.0 as usize;
        Native(bytes_read_word(&self.bytes, i))
    }

    fn write_word(&mut self, addr: Address, data: Native) {
        assert(addr.0 + 8 <= self.bytes.len());
        let i = addr.0 as usize;
        bytes_write_word(&mut self.bytes, i, data.0);
    }
}

} // verus!
