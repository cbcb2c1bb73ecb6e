use vstd::arithmetic::div_mod::{lemma_div_denominator, lemma_fundamental_div_mod};
use vstd::arithmetic::mul::lemma_mul_inequality;
use vstd::prelude::*;

use crate::error::FamError;
use crate::fam::{fam_bytes, round_up, vec_with_array_field};

verus! {

/// The value of the two little-endian bytes of `s` starting at `i`.
pub open spec fn u16_le_spec(s: Seq<u8>, i: int) -> int {
    s[i] + 0x100 * s[i + 1]
}

/// The value of the four little-endian bytes of `s` starting at `i`.
pub open spec fn u32_le_spec(s: Seq<u8>, i: int) -> int {
    s[i] + 0x100 * s[i + 1] + 0x10000 * s[i + 2] + 0x1000000 * s[i + 3]
}

/// Any value below 2^32 is the sum of its four base-256 digits in place.
proof fn lemma_u32_le_decompose(v: int)
    requires
        0 <= v < 0x1_0000_0000,
    ensures
        v == v % 0x100 + 0x100 * ((v / 0x100) % 0x100) + 0x10000 * ((v / 0x10000) % 0x100)
            + 0x1000000 * (v / 0x1000000),
{
    lemma_fundamental_div_mod(v, 0x100);
    lemma_fundamental_div_mod(v / 0x100, 0x100);
    lemma_div_denominator(v, 0x100, 0x100);
    lemma_fundamental_div_mod(v / 0x10000, 0x100);
    lemma_div_denominator(v, 0x10000, 0x100);
    lemma_fundamental_div_mod(v, 0x1000000);
    if v / 0x1000000 >= 0x100 {
        lemma_mul_inequality(0x100, v / 0x1000000, 0x1000000);
        assert(false);
    }
}

/// A value below 2^16 is the sum of its two base-256 digits in place.
proof fn lemma_u16_le_decompose(v: int)
    requires
        0 <= v < 0x1_0000,
    ensures
        v == v % 0x100 + 0x100 * (v / 0x100),
{
    lemma_fundamental_div_mod(v, 0x100);
}

/// A single contiguous, caller-owned allocation that holds a fixed header
/// immediately followed by a trailing element array. The header and the
/// trailing region live in one block because the kernel call that fills the
/// structure operates on one pointer.
pub struct Buffer {
    data: Vec<u8>,
}

impl View for Buffer {
    type V = Seq<u8>;

    closed spec fn view(&self) -> Seq<u8> {
        self.data@
    }
}

impl Buffer {
    /// Wraps bytes obtained elsewhere, so that the pre-flight guards can be
    /// applied to a buffer this crate did not build.
    pub fn from_vec(data: Vec<u8>) -> (b: Buffer)
        ensures
            b@ == data@,
    {
        Buffer { data }
    }

    /// Hands the raw bytes back to the caller.
    pub fn into_vec(self) -> (r: Vec<u8>)
        ensures
            r@ == self@,
    {
        self.data
    }

    /// Borrows the raw bytes.
    pub fn as_bytes(&self) -> (r: &Vec<u8>)
        ensures
            r@ == self@,
    {
        &self.data
    }

    /// Length of the allocation in bytes.
    pub fn len(&self) -> (n: usize)
        ensures
            n == self@.len(),
    {
        self.data.len()
    }

    /// The byte at `i`.
    pub fn byte_at(&self, i: usize) -> (b: u8)
        requires
            i < self@.len(),
        ensures
            b == self@[i as int],
    {
        self.data[i]
    }

    /// Overwrites the byte at `i`.
    pub fn set_byte(&mut self, i: usize, b: u8)
        requires
            i < old(self)@.len(),
        ensures
            final(self)@ == old(self)@.update(i as int, b),
    {
        self.data.set(i, b);
    }

    /// Reads the little-endian `u16` at byte offset `offset`.
    pub fn read_u16_le(&self, offset: usize) -> (r: u16)
        requires
            offset + 2 <= self@.len(),
        ensures
            r == u16_le_spec(self@, offset as int),
    {
        proof {
            vstd::std_specs::vec::axiom_spec_len(&self.data);
        }
        let b0 = self.data[offset] as u16;
        let b1 = self.data[offset + 1] as u16;
        b0 + 0x100 * b1
    }

    /// Reads the little-endian `u32` at byte offset `offset`.
    pub fn read_u32_le(&self, offset: usize) -> (r: u32)
        requires
            offset + 4 <= self@.len(),
        ensures
            r == u32_le_spec(self@, offset as int),
    {
        proof {
            vstd::std_specs::vec::axiom_spec_len(&self.data);
        }
        let b0 = self.data[offset] as u32;
        let b1 = self.data[offset + 1] as u32;
        let b2 = self.data[offset + 2] as u32;
        let b3 = self.data[offset + 3] as u32;
        b0 + 0x100 * b1 + 0x10000 * b2 + 0x1000000 * b3
    }

    /// Writes `val` as four little-endian bytes at byte offset `offset`,
    /// leaving every other byte unchanged.
    pub fn write_u32_le(&mut self, offset: usize, val: u32)
        requires
            offset + 4 <= old(self)@.len(),
        ensures
            final(self)@.len() == old(self)@.len(),
            u32_le_spec(final(self)@, offset as int) == val,
            forall|i: int|
                0 <= i < old(self)@.len() && !(offset <= i < offset + 4) ==> final(self)@[i]
                    == old(self)@[i],
    {
        proof {
            vstd::std_specs::vec::axiom_spec_len(&self.data);
        }
        let b0 = (val % 0x100) as u8;
        let b1 = ((val / 0x100) % 0x100) as u8;
        let b2 = ((val / 0x10000) % 0x100) as u8;
        let b3 = (val / 0x1000000) as u8;
        self.data.set(offset, b0);
        self.data.set(offset + 1, b1);
        self.data.set(offset + 2, b2);
        self.data.set(offset + 3, b3);
        proof {
            lemma_u32_le_decompose(val as int);
        }
    }

    /// Writes `val` as two little-endian bytes at byte offset `offset`,
    /// leaving every other byte unchanged.
    pub fn write_u16_le(&mut self, offset: usize, val: u16)
        requires
            offset + 2 <= old(self)@.len(),
        ensures
            final(self)@.len() == old(self)@.len(),
            u16_le_spec(final(self)@, offset as int) == val,
            forall|i: int|
                0 <= i < old(self)@.len() && !(offset <= i < offset + 2) ==> final(self)@[i]
                    == old(self)@[i],
    {
        proof {
            vstd::std_specs::vec::axiom_spec_len(&self.data);
        }
        let b0 = (val % 0x100) as u8;
        let b1 = (val / 0x100) as u8;
        self.data.set(offset, b0);
        self.data.set(offset + 1, b1);
        proof {
            lemma_u16_le_decompose(val as int);
        }
    }
}

/// Builds the single zero-filled allocation for a header of `header_size`
/// bytes followed by `element_count` trailing elements of `element_size`
/// bytes each: at least `header_size + element_count * element_size` bytes,
/// rounded up to whole header-sized units, with all size arithmetic checked.
pub fn build_buffer(header_size: usize, element_size: usize, element_count: usize) -> (r: Result<
    Buffer,
    FamError,
>)
    requires
        1 <= header_size,
        1 <= element_size,
    ensures
        r matches Ok(b) ==> {
            let need = fam_bytes(header_size as int, element_size as int, element_count as int);
            &&& b@.len() == round_up(need, header_size as int)
            &&& need <= b@.len()
            &&& b@.len() as int % (header_size as int) == 0
            &&& forall|i: int| 0 <= i < b@.len() ==> b@[i] == 0u8
        },
        (r is Ok) <==> round_up(
            fam_bytes(header_size as int, element_size as int, element_count as int),
            header_size as int,
        ) <= usize::MAX,
        r is Err ==> r == Err::<Buffer, FamError>(FamError::Overflow),
{
    match vec_with_array_field(header_size, element_size, element_count) {
        Ok(v) => Ok(Buffer::from_vec(v)),
        Err(e) => Err(e),
    }
}

} // verus!
