use vstd::arithmetic::div_mod::{lemma_fundamental_div_mod, lemma_mod_multiples_basic};
use vstd::arithmetic::mul::{
    lemma_mul_inequality, lemma_mul_is_commutative, lemma_mul_is_distributive_add_other_way,
};
use vstd::prelude::*;

use crate::error::FamError;

verus! {

/// Quotient of `x / d` rounded towards positive infinity.
pub open spec fn div_round_up(x: int, d: int) -> int {
    x / d + if x % d == 0 { 0int } else { 1int }
}

/// `size` rounded up to the next whole multiple of `unit`.
pub open spec fn round_up(size: int, unit: int) -> int {
    div_round_up(size, unit) * unit
}

/// Total byte size of a fixed header of `header_size` bytes followed by
/// `element_count` trailing elements of `element_size` bytes each.
pub open spec fn fam_bytes(header_size: int, element_size: int, element_count: int) -> int {
    header_size + element_count * element_size
}

/// The rounded-up quotient covers `x` and overshoots by less than one unit.
pub proof fn lemma_div_round_up(x: int, d: int)
    requires
        0 <= x,
        1 <= d,
    ensures
        0 <= div_round_up(x, d),
        x <= div_round_up(x, d) * d < x + d,
{
    lemma_fundamental_div_mod(x, d);
    lemma_mul_is_commutative(x / d, d);
    if x % d == 0 {
        assert(div_round_up(x, d) * d == d * (x / d));
    } else {
        lemma_mul_is_distributive_add_other_way(d, x / d, 1);
        assert(div_round_up(x, d) * d == d * (x / d) + d);
    }
}

/// Rounding up covers the requested size, overshoots by less than one unit,
/// and lands on a whole multiple of the unit.
pub proof fn lemma_round_up(size: int, unit: int)
    requires
        0 <= size,
        1 <= unit,
    ensures
        size <= round_up(size, unit) < size + unit,
        round_up(size, unit) % unit == 0,
{
    lemma_div_round_up(size, unit);
    lemma_mod_multiples_basic(div_round_up(size, unit), unit);
}

/// Returns a zero-filled byte vector whose length is `size_in_bytes` rounded
/// up to whole units of `unit_size`, the granularity the allocation is dealt
/// in, so that the block covers both the requested size and a whole number
/// of unit-sized slots. Fails with `Overflow` instead of letting the byte
/// computation wrap.
pub fn vec_with_size_in_bytes(unit_size: usize, size_in_bytes: usize) -> (r: Result<
    Vec<u8>,
    FamError,
>)
    requires
        1 <= unit_size,
    ensures
        r matches Ok(v) ==> {
            &&& v@.len() == round_up(size_in_bytes as int, unit_size as int)
            &&& forall|i: int| 0 <= i < v@.len() ==> v@[i] == 0u8
        },
        (r is Ok) <==> round_up(size_in_bytes as int, unit_size as int) <= usize::MAX,
        r is Err ==> r == Err::<Vec<u8>, FamError>(FamError::Overflow),
{
    let q = size_in_bytes / unit_size;
    let rem = size_in_bytes % unit_size;
    proof {
        lemma_fundamental_div_mod(size_in_bytes as int, unit_size as int);
        if rem != 0 {
            // `q + 1` cannot wrap: a nonzero remainder means the unit is at
            // least two bytes wide, so the quotient is at most half the size.
            lemma_mul_inequality(2, unit_size as int, q as int);
        }
    }
    let count: usize = if rem == 0 {
        q
    } else {
        q + 1
    };
    match count.checked_mul(unit_size) {
        Some(n_bytes) => {
            let mut v: Vec<u8> = Vec::new();
            let mut i: usize = 0;
            while i < n_bytes
                invariant
                    i <= n_bytes,
                    v@.len() == i,
                    forall|j: int| 0 <= j < v@.len() ==> v@[j] == 0u8,
                decreases n_bytes - i,
            {
                v.push(0u8);
                i = i + 1;
            }
            Ok(v)
        },
        None => Err(FamError::Overflow),
    }
}

/// Byte provisioning for a header type followed by a trailing array: room
/// for the header plus `element_count` elements, computed with overflow
/// checks and rounded up to whole header-sized units so the allocation also
/// satisfies the header type's own granularity.
pub fn vec_with_array_field(
    header_size: usize,
    element_size: usize,
    element_count: usize,
) -> (r: Result<Vec<u8>, FamError>)
    requires
        1 <= header_size,
        1 <= element_size,
    ensures
        r matches Ok(v) ==> {
            let need = fam_bytes(header_size as int, element_size as int, element_count as int);
            &&& v@.len() == round_up(need, header_size as int)
            &&& need <= v@.len()
            &&& v@.len() as int % (header_size as int) == 0
            &&& forall|i: int| 0 <= i < v@.len() ==> v@[i] == 0u8
        },
        (r is Ok) <==> round_up(
            fam_bytes(header_size as int, element_size as int, element_count as int),
            header_size as int,
        ) <= usize::MAX,
        r is Err ==> r == Err::<Vec<u8>, FamError>(FamError::Overflow),
{
    proof {
        lemma_round_up(
            fam_bytes(header_size as int, element_size as int, element_count as int),
            header_size as int,
        );
    }
    match element_count.checked_mul(element_size) {
        None => Err(FamError::Overflow),
        Some(element_space) => match header_size.checked_add(element_space) {
            None => Err(FamError::Overflow),
            Some(bytes) => vec_with_size_in_bytes(header_size, bytes),
        },
    }
}

} // verus!
