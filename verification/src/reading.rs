//! What a sensor shows, kept exact: the numbers that were read and the formula that makes the
//! value out of them. The single-precision arithmetic itself is left to whoever displays it.
use vstd::prelude::*;

verus! {

/// Bytes in a gigabyte, as the memory sensors count it.
pub const GIGABYTE: u64 = 1_073_741_824;

/// Bytes in a megabyte, as the traffic sensors count it.
pub const MEGABYTE: u64 = 1_048_576;

/// Millidegrees in a degree, millivolts in a volt, milliwatts in a watt.
pub const MILLI: u64 = 1_000;

/// Microwatts in a watt.
pub const MICRO: u64 = 1_000_000;

/// The value of a sensor. Floating-point numbers stand as the bit pattern of a single-precision
/// number.
#[derive(Clone, Copy, Debug, PartialEq, Eq, Structural)]
pub enum Reading {
    /// Nothing was measured. It is shown as zero.
    Absent,
    /// `value / divisor`.
    Scaled { value: u64, divisor: u64 },
    /// `value / divisor` in `millis` thousandths of a second, per second.
    Rate { value: u64, divisor: u64, millis: u64 },
    /// `bits / divisor`.
    Float { bits: u32, divisor: u64 },
    /// `part / whole * 100` in single precision.
    Percent { part: u64, whole: u64 },
    /// `part / whole * 100` in double precision, then rounded to single precision.
    WidePercent { part: u64, whole: u64 },
    /// `part_bits / whole_bits * 100` in single precision.
    FloatPercent { part_bits: u32, whole_bits: u32 },
}

impl View for Reading {
    type V = Reading;

    open spec fn view(&self) -> Reading {
        *self
    }
}

/// The single-precision number with these bits is greater than zero: its sign is plus, and it is
/// neither zero nor something other than a number.
pub open spec fn is_positive(bits: u32) -> bool {
    0 < bits <= 0x7f80_0000
}

/// Whether the single-precision number with these bits is greater than zero.
pub fn positive(bits: u32) -> (r: bool)
    ensures
        r == is_positive(bits),
{
    0 < bits && bits <= 0x7f80_0000
}

/// A single-precision number is greater than zero where it has no sign, some other bit is set, and
/// it is a number: its exponent is not all ones, or its fraction is zero.
pub proof fn positive_by_its_parts(bits: u32, r: bool)
    ensures
        call_ensures(positive, (bits,), r) ==> r == is_positive(bits),
        is_positive(bits) <==> {
            &&& bits & 0x8000_0000 == 0
            &&& bits != 0
            &&& bits & 0x7f80_0000 != 0x7f80_0000 || bits & 0x007f_ffff == 0
        },
{
    assert((0 < bits && bits <= 0x7f80_0000) <==> (bits & 0x8000_0000 == 0 && bits != 0 && (bits
        & 0x7f80_0000 != 0x7f80_0000 || bits & 0x007f_ffff == 0))) by (bit_vector);
}

/// A reading is found as it is.
pub proof fn reading_is_itself(reading: Reading)
    ensures
        reading@ == reading,
{
}

} // verus!
