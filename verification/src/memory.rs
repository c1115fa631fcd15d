//! Plain address arithmetic and a byte store, independent of the bus.
use vstd::prelude::*;

use crate::bus::{offset_address, offset_address_back};

verus! {

/// A byte address.
#[derive(Debug, PartialEq, Eq, Clone, Copy)]
pub struct Address(pub u64);

impl std::ops::Add<Offset> for Address {
    type Output = Address;

    /// Moves forwards by `rhs` bytes, wrapping around at 2^64.
    fn add(self, rhs: Offset) -> (r: Address) {
        Address(self.0.wrapping_add_signed(rhs.0))
    }
}

impl vstd::std_specs::ops::AddSpecImpl<Offset> for Address {
    open spec fn obeys_add_spec() -> bool {
        true
    }

    open spec fn add_req(self, rhs: Offset) -> bool {
        true
    }

    open spec fn add_spec(self, rhs: Offset) -> Address {
        Address(offset_address(self.0, rhs.0))
    }
}

impl std::ops::Sub<Offset> for Address {
    type Output = Address;

    /// Moves backwards by `rhs` bytes, wrapping around at 2^64.
    fn sub(self, rhs: Offset) -> (r: Address) {
        Address(self.0.wrapping_sub(rhs.0 as u64))
    }
}

impl vstd::std_specs::ops::SubSpecImpl<Offset> for Address {
    open spec fn obeys_sub_spec() -> bool {
        true
    }

    open spec fn sub_req(self, rhs: Offset) -> bool {
        true
    }

    open spec fn sub_spec(self, rhs: Offset) -> Address {
        Address(offset_address_back(self.0, rhs.0))
    }
}

/// A signed displacement.
#[derive(Debug, Copy, Clone, PartialEq, Eq, PartialOrd, Ord, Hash)]
pub struct Offset(pub i64);

/// A block of bytes.
pub struct Memory {
    pub bytes: Vec<u8>,
}

} // verus!
