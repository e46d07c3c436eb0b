//! Bringing numbers to the type of a column through the `num` crate. Floating point numbers
//! are given by their bit patterns.

use vstd::prelude::*;

verus! {

/// Whether a bit pattern is that of a finite double-precision number.
pub open spec fn is_finite(bits: u64) -> bool {
    bits & 0x7ff0_0000_0000_0000 != 0x7ff0_0000_0000_0000
}

/// Whether a bit pattern is that of a single-precision number, be it infinite.
pub open spec fn is_single(bits: u32) -> bool {
    bits & 0x7fff_ffff <= 0x7f80_0000
}

/// The double-precision number that `num::cast::cast` makes of an integer.
pub uninterp spec fn double_of_int(v: i64) -> u64;

/// The single-precision number that `num::cast::cast` makes of an integer.
pub uninterp spec fn single_of_int(v: i64) -> u32;

/// The single-precision number that `num::cast::cast` makes of a double-precision number.
pub uninterp spec fn single_of(bits: u64) -> u32;

/// The integer that `num::cast::cast` makes of a double-precision number: the fraction is cut
/// off, and there is none where the rest does not fit.
pub uninterp spec fn integer_of(bits: u64) -> Option<i128>;

/// `num::cast::cast`, from `i64` to double precision: there is a finite number for every
/// integer.
#[verifier::external_body]
pub(crate) fn cast_double(v: i64) -> (bits: u64)
    ensures
        bits == double_of_int(v),
        is_finite(bits),
{
    arrow::array::Float64Array::from_iter_values(num::cast::cast(v)).value(0).to_bits()
}

/// `num::cast::cast`, from `i64` to single precision: there is a number for every integer.
#[verifier::external_body]
pub(crate) fn cast_single(v: i64) -> (bits: u32)
    ensures
        bits == single_of_int(v),
        is_single(bits),
{
    arrow::array::Float32Array::from_iter_values(num::cast::cast(v)).value(0).to_bits()
}

/// `num::cast::cast`, from double to single precision: there is a number, maybe an infinite
/// one, for every finite number. The bits of what is not a number depend on the machine.
#[verifier::external_body]
pub(crate) fn narrow(bits: u64) -> (single: u32)
    requires
        is_finite(bits),
    ensures
        single == single_of(bits),
        is_single(single),
{
    let buffer = arrow::buffer::Buffer::from_vec(vec![bits]);
    let double = arrow::array::Float64Array::new(buffer.into(), None).value(0);
    arrow::array::Float32Array::from_iter_values(num::cast::cast(double)).value(0).to_bits()
}

/// `num::cast::cast`, from double precision to `i128`.
#[verifier::external_body]
pub(crate) fn truncate(bits: u64) -> (v: Option<i128>)
    ensures
        v == integer_of(bits),
{
    let buffer = arrow::buffer::Buffer::from_vec(vec![bits]);
    num::cast::cast(arrow::array::Float64Array::new(buffer.into(), None).value(0))
}

/// `num::cast::cast`, from `i128` to `i8`: the same integer, where it is one of the type's.
#[verifier::external_body]
pub(crate) fn cast_i8(v: i128) -> (cast: Option<i8>)
    ensures
        match cast {
            Some(w) => w == v,
            None => !(i8::MIN <= v <= i8::MAX),
        },
{
    num::cast::cast(v)
}

/// `num::cast::cast`, from `i128` to `i16`: the same integer, where it is one of the type's.
#[verifier::external_body]
pub(crate) fn cast_i16(v: i128) -> (cast: Option<i16>)
    ensures
        match cast {
            Some(w) => w == v,
            None => !(i16::MIN <= v <= i16::MAX),
        },
{
    num::cast::cast(v)
}

/// `num::cast::cast`, from `i128` to `i32`: the same integer, where it is one of the type's.
#[verifier::external_body]
pub(crate) fn cast_i32(v: i128) -> (cast: Option<i32>)
    ensures
        match cast {
            Some(w) => w == v,
            None => !(i32::MIN <= v <= i32::MAX),
        },
{
    num::cast::cast(v)
}

/// `num::cast::cast`, from `i128` to `i64`: the same integer, where it is one of the type's.
#[verifier::external_body]
pub(crate) fn cast_i64(v: i128) -> (cast: Option<i64>)
    ensures
        match cast {
            Some(w) => w == v,
            None => !(i64::MIN <= v <= i64::MAX),
        },
{
    num::cast::cast(v)
}

/// `num::cast::cast`, from `i128` to `u8`: the same integer, where it is one of the type's.
#[verifier::external_body]
pub(crate) fn cast_u8(v: i128) -> (cast: Option<u8>)
    ensures
        match cast {
            Some(w) => w == v,
            None => !(0 <= v <= u8::MAX),
        },
{
    num::cast::cast(v)
}

/// `num::cast::cast`, from `i128` to `u16`: the same integer, where it is one of the type's.
#[verifier::external_body]
pub(crate) fn cast_u16(v: i128) -> (cast: Option<u16>)
    ensures
        match cast {
            Some(w) => w == v,
            None => !(0 <= v <= u16::MAX),
        },
{
    num::cast::cast(v)
}

/// `num::cast::cast`, from `i128` to `u32`: the same integer, where it is one of the type's.
#[verifier::external_body]
pub(crate) fn cast_u32(v: i128) -> (cast: Option<u32>)
    ensures
        match cast {
            Some(w) => w == v,
            None => !(0 <= v <= u32::MAX),
        },
{
    num::cast::cast(v)
}

/// `num::cast::cast`, from `i128` to `u64`: the same integer, where it is one of the type's.
#[verifier::external_body]
pub(crate) fn cast_u64(v: i128) -> (cast: Option<u64>)
    ensures
        match cast {
            Some(w) => w == v,
            None => !(0 <= v <= u64::MAX),
        },
{
    num::cast::cast(v)
}

} // verus!
