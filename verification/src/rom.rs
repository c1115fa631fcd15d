use vstd::prelude::*;

use crate::bus::{bytes_read_word, Address, Device, DeviceState, Native};

verus! {

/// Read-only memory, addressed from 0. Writes are ignored.
pub struct Rom {
    pub bytes: Vec<u8>,
}

impl Rom {
    pub fn new(data: Vec<u8>) -> (r: Self)
        ensures
            r.bytes@ == data@,
    {
        Rom { bytes: data }
    }
}

impl Device for Rom {
    open spec fn state(&self) -> DeviceState {
        DeviceState::Rom { bytes: self.bytes@ }
    }

    fn set_location(&mut self, _base: Address) {
    }

    fn read_byte(&self, address: Address) -> (r: u8) {
        assert(address.0 < self.bytes.len());
        let i = address.0 as usize;
        self.bytes[i]
    }

    fn write_byte(&mut self, _address: Address, _data: u8) {
    }

    fn read_word(&self, addr: Address) -> (r: Native) {
        assert(addr.0 + 8 <= self.bytes.len());
        let i = addr.0 as usize;
        Native(bytes_read_word(&self.bytes, i))
    }

    fn write_word(&mut self, _address: Address, _data: Native) {
    }
}

} // verus!
