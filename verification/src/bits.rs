//! Bit ranges of 32-bit words: the common ground of the register views and
//! of the instruction encodings.

use vstd::prelude::*;

verus! {

/// A mask of `msb - lsb + 1` ones in the lowest bits.
pub open spec fn low_mask(msb: u32, lsb: u32) -> u32 {
    0xffff_ffffu32 >> ((31 - (msb - lsb)) as u32)
}

/// The bits `lsb..=msb` of `raw`, moved down to bit 0.
pub open spec fn field(raw: u32, msb: u32, lsb: u32) -> u32 {
    (raw >> lsb) & low_mask(msb, lsb)
}

/// `raw` with its bits `lsb..=msb` replaced by the lowest bits of `value`.
pub open spec fn with_field(raw: u32, msb: u32, lsb: u32, value: u32) -> u32 {
    (raw & !(low_mask(msb, lsb) << lsb)) | ((value & low_mask(msb, lsb)) << lsb)
}

/// Bit `n` of `raw`.
pub open spec fn flag(raw: u32, n: u32) -> bool {
    field(raw, n, n) == 1
}

/// `raw` with bit `n` set or cleared.
pub open spec fn with_flag(raw: u32, n: u32, on: bool) -> u32 {
    with_field(raw, n, n, if on { 1u32 } else { 0u32 })
}

/// The number of ones among the lowest `width` bits of `raw`.
pub open spec fn ones_below(raw: u32, width: nat) -> nat
    decreases width,
{
    if width == 0 {
        0
    } else {
        let rest = ones_below(raw, (width - 1) as nat);
        if flag(raw, (width - 1) as u32) {
            rest + 1
        } else {
            rest
        }
    }
}

/// The number of ones in the binary form of `raw`.
pub open spec fn ones(raw: u32) -> nat {
    ones_below(raw, 32)
}

/// The bits `lsb..=msb` of `raw`, moved down to bit 0.
pub fn get_field(raw: u32, msb: u32, lsb: u32) -> (r: u32)
    requires
        lsb <= msb < 32,
    ensures
        r == field(raw, msb, lsb),
        r <= low_mask(msb, lsb),
{
    let mask: u32 = 0xffff_ffffu32 >> (31 - (msb - lsb));
    assert((raw >> lsb) & mask <= mask) by (bit_vector);
    (raw >> lsb) & mask
}

/// `raw` with its bits `lsb..=msb` replaced by the lowest bits of `value`.
pub fn set_field(raw: u32, msb: u32, lsb: u32, value: u32) -> (r: u32)
    requires
        lsb <= msb < 32,
    ensures
        r == with_field(raw, msb, lsb, value),
{
    let mask: u32 = 0xffff_ffffu32 >> (31 - (msb - lsb));
    (raw & !(mask << lsb)) | ((value & mask) << lsb)
}

/// Bit `n` of `raw`.
pub fn get_flag(raw: u32, n: u32) -> (r: bool)
    requires
        n < 32,
    ensures
        r == flag(raw, n),
{
    get_field(raw, n, n) == 1
}

/// `raw` with bit `n` set or cleared.
pub fn set_flag(raw: u32, n: u32, on: bool) -> (r: u32)
    requires
        n < 32,
    ensures
        r == with_flag(raw, n, on),
{
    set_field(raw, n, n, if on { 1u32 } else { 0u32 })
}

/// Counts the ones in the binary form of `raw`.
pub fn count_ones(raw: u32) -> (r: u32)
    ensures
        r == ones(raw),
        r <= 32,
{
    let mut count: u32 = 0;
    let mut n: u32 = 0;
    while n < 32
        invariant
            n <= 32,
            count <= n,
            count == ones_below(raw, n as nat),
        decreases 32 - n,
    {
        if get_flag(raw, n) {
            count = count + 1;
        }
        n = n + 1;
    }
    count
}

/// A field reads back what was stored in it, cut to the field's width.
pub proof fn lemma_field_of_with_field(raw: u32, msb: u32, lsb: u32, value: u32)
    requires
        lsb <= msb < 32,
    ensures
        field(with_field(raw, msb, lsb, value), msb, lsb) == value & low_mask(msb, lsb),
{
    let mask = low_mask(msb, lsb);
    assert(mask == 0xffff_ffffu32 >> ((31 - (msb - lsb)) as u32));
    let shift: u32 = (31 - (msb - lsb)) as u32;
    assert((((raw & !(mask << lsb)) | ((value & mask) << lsb)) >> lsb) & mask == value & mask)
        by (bit_vector)
        requires
            mask == 0xffff_ffffu32 >> shift,
            lsb <= shift <= 31,
    ;
}

/// Storing into one field leaves every field that does not overlap it as it was.
pub proof fn lemma_field_apart(
    raw: u32,
    msb: u32,
    lsb: u32,
    value: u32,
    other_msb: u32,
    other_lsb: u32,
)
    requires
        lsb <= msb < 32,
        other_lsb <= other_msb < 32,
        other_msb < lsb || msb < other_lsb,
    ensures
        field(with_field(raw, msb, lsb, value), other_msb, other_lsb) == field(
            raw,
            other_msb,
            other_lsb,
        ),
{
    let mask = low_mask(msb, lsb);
    let other = low_mask(other_msb, other_lsb);
    let shift: u32 = (31 - (msb - lsb)) as u32;
    let other_shift: u32 = (31 - (other_msb - other_lsb)) as u32;
    assert((((raw & !(mask << lsb)) | ((value & mask) << lsb)) >> other_lsb) & other == (raw
        >> other_lsb) & other) by (bit_vector)
        requires
            mask == 0xffff_ffffu32 >> shift,
            other == 0xffff_ffffu32 >> other_shift,
            lsb <= shift <= 31,
            other_lsb <= other_shift <= 31,
            (31 - other_shift) + other_lsb < lsb || (31 - shift) + lsb < other_lsb,
    ;
}

/// A word with nothing above bit `width - 1` has at most `width` ones.
pub proof fn lemma_ones_of_narrow(raw: u32, width: u32)
    requires
        width <= 32,
        width < 32 ==> raw >> width == 0,
    ensures
        ones(raw) <= width,
{
    lemma_ones_above(raw, width, 32);
    lemma_ones_below_bound(raw, width as nat);
}

proof fn lemma_ones_below_bound(raw: u32, width: nat)
    ensures
        ones_below(raw, width) <= width,
    decreases width,
{
    if width > 0 {
        lemma_ones_below_bound(raw, (width - 1) as nat);
    }
}

proof fn lemma_ones_above(raw: u32, width: u32, upto: u32)
    requires
        width <= upto <= 32,
        width < 32 ==> raw >> width == 0,
    ensures
        ones_below(raw, upto as nat) == ones_below(raw, width as nat),
    decreases upto,
{
    if upto > width {
        lemma_ones_above(raw, width, (upto - 1) as u32);
        let n: u32 = (upto - 1) as u32;
        assert(((raw >> n) & (0xffff_ffffu32 >> 31u32)) != 1) by (bit_vector)
            requires
                raw >> width == 0,
                width <= n < 32,
        ;
        assert(low_mask(n, n) == 0xffff_ffffu32 >> 31u32);
    }
}

} // verus!
