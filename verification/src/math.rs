//! Packed 24-bit sample values, stored most-significant byte first as they
//! arrive from the device, with verified conversions to and from the
//! machine's 32-bit integers.

use vstd::prelude::*;

verus! {

/// A signed 24-bit sample: three bytes, most significant first.
#[allow(non_camel_case_types)]
#[derive(Debug, Clone, Copy, PartialEq, Eq, Structural)]
pub struct i24 {
    pub first_byte: u8,
    pub second_byte: u8,
    pub third_byte: u8,
}

/// An unsigned 24-bit sample: three bytes, most significant first.
#[allow(non_camel_case_types)]
#[derive(Debug, Clone, Copy, PartialEq, Eq, Structural)]
pub struct u24 {
    pub first_byte: u8,
    pub second_byte: u8,
    pub third_byte: u8,
}

impl i24 {
    /// The three bytes read as an unsigned 24-bit integer.
    pub open spec fn spec_unsigned(self) -> int {
        self.first_byte * 0x10000 + self.second_byte * 0x100 + self.third_byte
    }

    /// The two's-complement value of the three bytes.
    pub open spec fn spec_value(self) -> int {
        if self.first_byte >= 0x80 {
            self.spec_unsigned() - 0x1000000
        } else {
            self.spec_unsigned()
        }
    }

    pub fn new(data: &[u8]) -> (r: Self)
        requires
            data@.len() == 3,
        ensures
            r.first_byte == data@[0],
            r.second_byte == data@[1],
            r.third_byte == data@[2],
    {
        Self { first_byte: data[0], second_byte: data[1], third_byte: data[2] }
    }

    pub fn new_bytes(first_byte: u8, second_byte: u8, third_byte: u8) -> (r: Self)
        ensures
            r == (i24 { first_byte, second_byte, third_byte }),
    {
        Self { first_byte, second_byte, third_byte }
    }

    /// Sign-extend the 24-bit value to an `i32`.
    pub fn value_to_i32(&self) -> (r: i32)
        ensures
            r == self.spec_value(),
    {
        let m: u32 = (self.first_byte as u32) * 0x10000 + (self.second_byte as u32) * 0x100
            + (self.third_byte as u32);
        if self.first_byte >= 0x80 {
            -((0x1000000u32 - m) as i32)
        } else {
            m as i32
        }
    }

    /// Keep the low 24 bits of `val` (two's complement), dropping the high
    /// byte.
    pub fn value_from_i32(val: i32) -> (r: Self)
        ensures
            r.spec_unsigned() == (val as int) % 0x1000000,
    {
        let v: i64 = (val as i64) + 0x80000000;
        let m: i64 = v % 0x1000000;
        proof {
            vstd::arithmetic::div_mod::lemma_mod_multiples_vanish(0x80, val as int, 0x1000000);
            assert(0x1000000int * 0x80 + val == v);
            vstd::arithmetic::div_mod::lemma_mod_bound(val as int, 0x1000000);
            vstd::arithmetic::div_mod::lemma_mod_bound(v as int, 0x1000000);
        }
        let first: u8 = (m / 0x10000) as u8;
        let second: u8 = ((m / 0x100) % 0x100) as u8;
        let third: u8 = (m % 0x100) as u8;
        proof {
            lemma_byte_split(m as int);
        }
        Self { first_byte: first, second_byte: second, third_byte: third }
    }
}

impl Default for i24 {
    fn default() -> (r: Self)
        ensures
            r.spec_value() == 0,
    {
        Self { first_byte: 0, second_byte: 0, third_byte: 0 }
    }
}

/// Splitting a 24-bit value into its three bytes reassembles to the value.
proof fn lemma_byte_split(m: int)
    requires
        0 <= m < 0x1000000,
    ensures
        (m / 0x10000) * 0x10000 + ((m / 0x100) % 0x100) * 0x100 + m % 0x100 == m,
        0 <= m / 0x10000 < 0x100,
        0 <= (m / 0x100) % 0x100 < 0x100,
        0 <= m % 0x100 < 0x100,
{
    vstd::arithmetic::div_mod::lemma_fundamental_div_mod(m, 0x100);
    vstd::arithmetic::div_mod::lemma_fundamental_div_mod(m / 0x100, 0x100);
    vstd::arithmetic::div_mod::lemma_mod_bound(m, 0x100);
    vstd::arithmetic::div_mod::lemma_mod_bound(m / 0x100, 0x100);
    vstd::arithmetic::div_mod::lemma_div_denominator(m, 0x100, 0x100);
}

impl u24 {
    /// The three bytes read as an unsigned 24-bit integer.
    pub open spec fn spec_value(self) -> int {
        self.first_byte * 0x10000 + self.second_byte * 0x100 + self.third_byte
    }

    pub fn new(data: &[u8]) -> (r: Self)
        requires
            data@.len() == 3,
        ensures
            r.first_byte == data@[0],
            r.second_byte == data@[1],
            r.third_byte == data@[2],
    {
        Self { first_byte: data[0], second_byte: data[1], third_byte: data[2] }
    }

    pub fn new_bytes(first_byte: u8, second_byte: u8, third_byte: u8) -> (r: Self)
        ensures
            r == (u24 { first_byte, second_byte, third_byte }),
    {
        Self { first_byte, second_byte, third_byte }
    }

    /// Widen the 24-bit value to a `u32`.
    pub fn value_to_u32(&self) -> (r: u32)
        ensures
            r == self.spec_value(),
    {
        (self.first_byte as u32) * 0x10000 + (self.second_byte as u32) * 0x100
            + (self.third_byte as u32)
    }

    /// Keep the low 24 bits of `val`, dropping the high byte.
    pub fn value_from_u32(val: u32) -> (r: Self)
        ensures
            r.spec_value() == (val as int) % 0x1000000,
    {
        let m: u32 = val % 0x1000000;
        let first: u8 = (m / 0x10000) as u8;
        let second: u8 = ((m / 0x100) % 0x100) as u8;
        let third: u8 = (m % 0x100) as u8;
        proof {
            lemma_byte_split(m as int);
        }
        Self { first_byte: first, second_byte: second, third_byte: third }
    }
}

impl Default for u24 {
    fn default() -> (r: Self)
        ensures
            r.spec_value() == 0,
    {
        Self { first_byte: 0, second_byte: 0, third_byte: 0 }
    }
}

/// Round trip: an `i32` that fits in 24 bits survives conversion to a
/// 24-bit sample and back unchanged. `value_from_i32` stores
/// `val mod 2^24` in the bytes; reading the bytes back as a
/// two's-complement value recovers `val`.
pub proof fn lemma_i24_round_trip(v: i24, val: i32)
    requires
        -0x800000 <= val < 0x800000,
        v.spec_unsigned() == (val as int) % 0x1000000,
    ensures
        v.spec_value() == val,
{
    if val >= 0 {
        vstd::arithmetic::div_mod::lemma_small_mod(val as nat, 0x1000000nat);
        assert(v.first_byte < 0x80);
    } else {
        vstd::arithmetic::div_mod::lemma_mod_multiples_vanish(1, val as int, 0x1000000);
        vstd::arithmetic::div_mod::lemma_small_mod((val + 0x1000000) as nat, 0x1000000nat);
        assert(v.spec_unsigned() == val + 0x1000000);
        assert(v.first_byte >= 0x80);
    }
}

} // verus!
