//! The values that are moved to and from the target: unsigned integers of 8
//! to 128 bits, as the 32-bit slots in which the debug module holds them.

use crate::error::RiscvBusAccess;
use vstd::prelude::*;

verus! {

/// A value that can be read and written through the debug module.
pub trait RiscvValue: Copy + Sized {
    spec fn spec_width() -> RiscvBusAccess;

    /// The width of the value.
    fn width() -> (w: RiscvBusAccess)
        ensures
            w == Self::spec_width(),
    ;

    spec fn spec_slot(self, slot: usize) -> u32;

    /// The bits `32 * slot` to `32 * slot + 31` of the value; zero where the
    /// value has no such bits.
    fn slot(self, slot: usize) -> (word: u32)
        ensures
            word == self.spec_slot(slot),
    ;

    spec fn spec_from_slots(s0: u32, s1: u32, s2: u32, s3: u32) -> Self;

    /// The value whose slots are `s0` to `s3`, as far as it has them; what does
    /// not fit its lowest slot is cut off.
    fn from_slots(s0: u32, s1: u32, s2: u32, s3: u32) -> (value: Self)
        ensures
            value == Self::spec_from_slots(s0, s1, s2, s3),
    ;

    /// A value is put together again from its slots.
    proof fn lemma_slots_round_trip(self)
        ensures
            Self::spec_from_slots(
                self.spec_slot(0),
                self.spec_slot(1),
                self.spec_slot(2),
                self.spec_slot(3),
            ) == self,
    ;
}

/// A value of at most 32 bits: it takes one slot.
pub trait RiscvValue32: RiscvValue {
    /// The value that a register holds in its lowest bits.
    fn from_register_value(value: u32) -> (v: Self)
        ensures
            v == Self::spec_from_slots(value, 0, 0, 0),
    ;

    /// The value, extended with zeros to the width of a register.
    fn register_value(self) -> (word: u32)
        ensures
            word == self.spec_slot(0),
    ;

    proof fn lemma_single_slot()
        ensures
            Self::spec_width().spec_slots() == 1,
            Self::spec_width().spec_code() <= 2,
    ;
}

impl RiscvValue for u8 {
    open spec fn spec_width() -> RiscvBusAccess {
        RiscvBusAccess::A8
    }

    fn width() -> (w: RiscvBusAccess) {
        RiscvBusAccess::A8
    }

    open spec fn spec_slot(self, slot: usize) -> u32 {
        if slot == 0 {
            self as u32
        } else {
            0
        }
    }

    fn slot(self, slot: usize) -> (word: u32) {
        if slot == 0 {
            self as u32
        } else {
            0
        }
    }

    open spec fn spec_from_slots(s0: u32, s1: u32, s2: u32, s3: u32) -> Self {
        s0 as u8
    }

    fn from_slots(s0: u32, s1: u32, s2: u32, s3: u32) -> (value: Self) {
        #[verifier::truncate]
        (s0 as u8)
    }

    proof fn lemma_slots_round_trip(self) {
        let v = self;
        assert((v as u32) as u8 == v) by (bit_vector);
    }
}

impl RiscvValue32 for u8 {
    fn from_register_value(value: u32) -> (v: Self) {
        #[verifier::truncate]
        (value as u8)
    }

    fn register_value(self) -> (word: u32) {
        self as u32
    }

    proof fn lemma_single_slot() {
    }
}

impl RiscvValue for u16 {
    open spec fn spec_width() -> RiscvBusAccess {
        RiscvBusAccess::A16
    }

    fn width() -> (w: RiscvBusAccess) {
        RiscvBusAccess::A16
    }

    open spec fn spec_slot(self, slot: usize) -> u32 {
        if slot == 0 {
            self as u32
        } else {
            0
        }
    }

    fn slot(self, slot: usize) -> (word: u32) {
        if slot == 0 {
            self as u32
        } else {
            0
        }
    }

    open spec fn spec_from_slots(s0: u32, s1: u32, s2: u32, s3: u32) -> Self {
        s0 as u16
    }

    fn from_slots(s0: u32, s1: u32, s2: u32, s3: u32) -> (value: Self) {
        #[verifier::truncate]
        (s0 as u16)
    }

    proof fn lemma_slots_round_trip(self) {
        let v = self;
        assert((v as u32) as u16 == v) by (bit_vector);
    }
}

impl RiscvValue32 for u16 {
    fn from_register_value(value: u32) -> (v: Self) {
        #[verifier::truncate]
        (value as u16)
    }

    fn register_value(self) -> (word: u32) {
        self as u32
    }

    proof fn lemma_single_slot() {
    }
}

impl RiscvValue for u32 {
    open spec fn spec_width() -> RiscvBusAccess {
        RiscvBusAccess::A32
    }

    fn width() -> (w: RiscvBusAccess) {
        RiscvBusAccess::A32
    }

    open spec fn spec_slot(self, slot: usize) -> u32 {
        if slot == 0 {
            self
        } else {
            0
        }
    }

    fn slot(self, slot: usize) -> (word: u32) {
        if slot == 0 {
            self
        } else {
            0
        }
    }

    open spec fn spec_from_slots(s0: u32, s1: u32, s2: u32, s3: u32) -> Self {
        s0
    }

    fn from_slots(s0: u32, s1: u32, s2: u32, s3: u32) -> (value: Self) {
        s0
    }

    proof fn lemma_slots_round_trip(self) {
    }
}

impl RiscvValue32 for u32 {
    fn from_register_value(value: u32) -> (v: Self) {
        value
    }

    fn register_value(self) -> (word: u32) {
        self
    }

    proof fn lemma_single_slot() {
    }
}

impl RiscvValue for u64 {
    open spec fn spec_width() -> RiscvBusAccess {
        RiscvBusAccess::A64
    }

    fn width() -> (w: RiscvBusAccess) {
        RiscvBusAccess::A64
    }

    open spec fn spec_slot(self, slot: usize) -> u32 {
        if slot == 0 {
            (self & 0xffff_ffffu64) as u32
        } else if slot == 1 {
            (self >> 32u64) as u32
        } else {
            0
        }
    }

    fn slot(self, slot: usize) -> (word: u32) {
        if slot == 0 {
            #[verifier::truncate]
            ((self & 0xffff_ffffu64) as u32)
        } else if slot == 1 {
            #[verifier::truncate]
            ((self >> 32u64) as u32)
        } else {
            0
        }
    }

    open spec fn spec_from_slots(s0: u32, s1: u32, s2: u32, s3: u32) -> Self {
        ((s1 as u64) << 32u64) | (s0 as u64)
    }

    fn from_slots(s0: u32, s1: u32, s2: u32, s3: u32) -> (value: Self) {
        ((s1 as u64) << 32u64) | (s0 as u64)
    }

    proof fn lemma_slots_round_trip(self) {
        let v = self;
        assert(((((v >> 32u64) as u32) as u64) << 32u64) | (((v & 0xffff_ffffu64) as u32) as u64)
            == v) by (bit_vector);
    }
}

impl RiscvValue for u128 {
    open spec fn spec_width() -> RiscvBusAccess {
        RiscvBusAccess::A128
    }

    fn width() -> (w: RiscvBusAccess) {
        RiscvBusAccess::A128
    }

    open spec fn spec_slot(self, slot: usize) -> u32 {
        if slot == 0 {
            (self & 0xffff_ffffu128) as u32
        } else if slot == 1 {
            (self >> 32u128) as u32
        } else if slot == 2 {
            (self >> 64u128) as u32
        } else if slot == 3 {
            (self >> 96u128) as u32
        } else {
            0
        }
    }

    fn slot(self, slot: usize) -> (word: u32) {
        if slot == 0 {
            #[verifier::truncate]
            ((self & 0xffff_ffffu128) as u32)
        } else if slot == 1 {
            #[verifier::truncate]
            ((self >> 32u128) as u32)
        } else if slot == 2 {
            #[verifier::truncate]
            ((self >> 64u128) as u32)
        } else if slot == 3 {
            #[verifier::truncate]
            ((self >> 96u128) as u32)
        } else {
            0
        }
    }

    open spec fn spec_from_slots(s0: u32, s1: u32, s2: u32, s3: u32) -> Self {
        ((s3 as u128) << 96u128) | ((s2 as u128) << 64u128) | ((s1 as u128) << 32u128) | (
        s0 as u128)
    }

    fn from_slots(s0: u32, s1: u32, s2: u32, s3: u32) -> (value: Self) {
        ((s3 as u128) << 96u128) | ((s2 as u128) << 64u128) | ((s1 as u128) << 32u128) | (
        s0 as u128)
    }

    proof fn lemma_slots_round_trip(self) {
        let v = self;
        assert(((((v >> 96u128) as u32) as u128) << 96u128) | ((((v >> 64u128) as u32) as u128)
            << 64u128) | ((((v >> 32u128) as u32) as u128) << 32u128) | (((v
            & 0xffff_ffffu128) as u32) as u128) == v) by (bit_vector);
    }
}

} // verus!
