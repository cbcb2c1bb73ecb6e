use vstd::arithmetic::div_mod::{
    lemma_div_by_multiple, lemma_div_is_ordered, lemma_div_pos_is_pos, lemma_fundamental_div_mod,
    lemma_mod_bound,
};
use vstd::arithmetic::mul::{
    lemma_mul_inequality, lemma_mul_is_commutative, lemma_mul_is_distributive_add_other_way,
    lemma_mul_nonnegative,
};
use vstd::prelude::*;

use crate::buffer::{build_buffer, u32_le_spec, Buffer};
use crate::error::FamError;
use crate::fam::{div_round_up, fam_bytes, lemma_div_round_up, round_up};

verus! {

/// Number of whole trailing elements contained in a structure whose declared
/// total size is `reported` bytes: remainder bytes past the last whole
/// element are ignored, never interpreted as a partial element.
pub open spec fn trailing_count_spec(header_size: int, element_size: int, reported: int) -> int {
    if reported >= header_size {
        (reported - header_size) / element_size
    } else {
        0
    }
}

/// Element count that makes a rebuilt buffer hold at least `reported` bytes:
/// the trailing byte shortfall divided by the element size, rounded up to
/// cover any remainder.
pub open spec fn grow_count_spec(header_size: int, element_size: int, reported: int) -> int {
    div_round_up(reported - header_size, element_size)
}

/// Byte length of the buffer the grow step builds for a kernel-reported
/// total size of `reported` bytes.
pub open spec fn grown_len_spec(header_size: int, element_size: int, reported: int) -> int {
    round_up(
        fam_bytes(header_size, element_size, grow_count_spec(header_size, element_size, reported)),
        header_size,
    )
}

/// Executable counterpart of `trailing_count_spec`.
pub fn trailing_count(header_size: usize, element_size: usize, reported: u32) -> (n: usize)
    requires
        1 <= element_size,
    ensures
        n == trailing_count_spec(header_size as int, element_size as int, reported as int),
{
    let reported_us = reported as usize;
    if reported_us >= header_size {
        (reported_us - header_size) / element_size
    } else {
        0
    }
}

/// Pre-flight guard: a declared total size is trusted only when it does not
/// exceed the buffer actually supplied. Accepts exactly the pairs where
/// `declared_size` fits; rejecting the rest keeps an inconsistent pair from
/// ever reaching the kernel call or a trailing-data read.
pub fn validate_bounds(buffer: &Buffer, declared_size: usize) -> (r: Result<(), FamError>)
    ensures
        (r is Ok) <==> declared_size <= buffer@.len(),
        r is Err ==> r == Err::<(), FamError>(FamError::BoundsViolation),
{
    if declared_size <= buffer.len() {
        Ok(())
    } else {
        Err(FamError::BoundsViolation)
    }
}

/// What the caller must do next with one kernel response handed back.
pub enum QueryDecision {
    /// The structure did not fit the probe buffer: issue the kernel call
    /// once more with this larger buffer, whose declared-size field already
    /// names its full length. `first_reported` is the size the kernel asked
    /// for, kept so the second response can be checked against it.
    Reissue { buffer: Buffer, first_reported: u32 },
    /// The structure fit: the buffer holds it, with `actual_count` whole
    /// trailing elements present.
    Complete { buffer: Buffer, actual_count: usize },
    /// The query failed; no further call may be issued.
    Fail { error: FamError },
}

/// Builds the probe buffer for the first kernel call: room for the header
/// and `initial_count` trailing elements, zero-filled, with the declared
/// total size field set to the buffer's own byte length.
pub fn start_query(header_size: usize, element_size: usize, initial_count: usize) -> (r: Result<
    Buffer,
    FamError,
>)
    requires
        8 <= header_size,
        1 <= element_size,
    ensures
        r matches Ok(b) ==> {
            let need = fam_bytes(header_size as int, element_size as int, initial_count as int);
            &&& b@.len() == round_up(need, header_size as int)
            &&& need <= b@.len() <= u32::MAX
            &&& u32_le_spec(b@, 0) == b@.len()
            &&& forall|i: int| 4 <= i < b@.len() ==> b@[i] == 0u8
        },
        (r is Ok) <==> round_up(
            fam_bytes(header_size as int, element_size as int, initial_count as int),
            header_size as int,
        ) <= u32::MAX,
        r is Err ==> r == Err::<Buffer, FamError>(FamError::Overflow),
{
    proof {
        lemma_mul_nonnegative(initial_count as int, element_size as int);
    }
    match build_buffer(header_size, element_size, initial_count) {
        Err(e) => Err(e),
        Ok(mut b) => {
            let n = b.len();
            if (n as u64) > (u32::MAX as u64) {
                Err(FamError::Overflow)
            } else {
                b.write_u32_le(0, n as u32);
                Ok(b)
            }
        },
    }
}

/// Decides the query's fate from the kernel's response to the probe call.
/// A negative result code is a transport failure. Otherwise the size the
/// kernel wrote back decides: if it fits the buffer that was supplied, the
/// structure is complete and no further call is needed; if it does not, a
/// single larger buffer is built for one reissue, carrying the returned
/// header fields forward and declaring its own full length.
pub fn after_probe(header_size: usize, element_size: usize, code: i32, buffer: Buffer) -> (d:
    QueryDecision)
    requires
        8 <= header_size,
        1 <= element_size,
        header_size <= buffer@.len() <= u32::MAX,
    ensures
        code < 0 ==> d == (QueryDecision::Fail { error: FamError::TransportFailure(code) }),
        code >= 0 && u32_le_spec(buffer@, 0) <= buffer@.len() ==> (d matches QueryDecision::Complete {
            buffer: b,
            actual_count,
        } && b@ == buffer@ && actual_count == trailing_count_spec(
            header_size as int,
            element_size as int,
            u32_le_spec(buffer@, 0),
        )),
        code >= 0 && u32_le_spec(buffer@, 0) > buffer@.len() ==> {
            let reported = u32_le_spec(buffer@, 0);
            let grown = grown_len_spec(header_size as int, element_size as int, reported);
            &&& grown <= u32::MAX ==> (d matches QueryDecision::Reissue { buffer: b, first_reported }
                && first_reported == reported && b@.len() == grown && reported <= b@.len()
                <= u32::MAX && u32_le_spec(b@, 0) == b@.len() && b@.subrange(4, header_size as int)
                == buffer@.subrange(4, header_size as int) && (forall|i: int|
                header_size <= i < b@.len() ==> b@[i] == 0u8))
            &&& grown > u32::MAX ==> d == (QueryDecision::Fail { error: FamError::Overflow })
        },
{
    if code < 0 {
        return QueryDecision::Fail { error: FamError::TransportFailure(code) };
    }
    let reported = buffer.read_u32_le(0);
    let buf_len = buffer.len();
    if reported as u64 <= buf_len as u64 {
        let actual_count = trailing_count(header_size, element_size, reported);
        return QueryDecision::Complete { buffer, actual_count };
    }
    let reported_us = reported as usize;
    let needed = reported_us - header_size;
    let q = needed / element_size;
    let rem = needed % element_size;
    proof {
        lemma_fundamental_div_mod(needed as int, element_size as int);
        lemma_div_round_up(needed as int, element_size as int);
        if rem != 0 {
            // `q + 1` cannot wrap: a nonzero remainder means the element is
            // at least two bytes wide, so the quotient is at most half.
            lemma_mul_inequality(2, element_size as int, q as int);
        }
    }
    let count = if rem == 0 {
        q
    } else {
        q + 1
    };
    match build_buffer(header_size, element_size, count) {
        Err(_) => QueryDecision::Fail { error: FamError::Overflow },
        Ok(mut b) => {
            let new_len = b.len();
            if (new_len as u64) > (u32::MAX as u64) {
                return QueryDecision::Fail { error: FamError::Overflow };
            }
            // Carry the still-valid header fields past the declared-size
            // field forward into the fresh buffer.
            let mut i: usize = 4;
            while i < header_size
                invariant
                    4 <= i <= header_size,
                    header_size <= b@.len(),
                    header_size <= buffer@.len(),
                    b@.len() == new_len,
                    forall|j: int| 4 <= j < i ==> b@[j] == buffer@[j],
                    forall|j: int| i <= j < b@.len() ==> b@[j] == 0u8,
                decreases header_size - i,
            {
                let byte = buffer.byte_at(i);
                b.set_byte(i, byte);
                i = i + 1;
            }
            b.write_u32_le(0, new_len as u32);
            proof {
                assert(b@.subrange(4, header_size as int) =~= buffer@.subrange(
                    4,
                    header_size as int,
                ));
            }
            QueryDecision::Reissue { buffer: b, first_reported: reported }
        },
    }
}

/// Decides the query's fate from the kernel's response to the single grow
/// call. A negative result code is a transport failure. A size that still
/// does not fit the grown buffer, or that shrank below what the first call
/// reported, violates the protocol's contract and fails the query; there is
/// never a further call.
pub fn after_grow(
    header_size: usize,
    element_size: usize,
    first_reported: u32,
    code: i32,
    buffer: Buffer,
) -> (d: QueryDecision)
    requires
        8 <= header_size,
        1 <= element_size,
        header_size <= buffer@.len() <= u32::MAX,
    ensures
        !(d is Reissue),
        code < 0 ==> d == (QueryDecision::Fail { error: FamError::TransportFailure(code) }),
        code >= 0 ==> {
            let reported = u32_le_spec(buffer@, 0);
            &&& first_reported <= reported <= buffer@.len() ==> (d matches QueryDecision::Complete {
                buffer: b,
                actual_count,
            } && b@ == buffer@ && actual_count == trailing_count_spec(
                header_size as int,
                element_size as int,
                reported,
            ))
            &&& (reported > buffer@.len() || reported < first_reported) ==> d
                == (QueryDecision::Fail { error: FamError::SizeInconsistent })
        },
{
    if code < 0 {
        return QueryDecision::Fail { error: FamError::TransportFailure(code) };
    }
    let reported = buffer.read_u32_le(0);
    let buf_len = buffer.len();
    if (reported as u64) > (buf_len as u64) || reported < first_reported {
        return QueryDecision::Fail { error: FamError::SizeInconsistent };
    }
    let actual_count = trailing_count(header_size, element_size, reported);
    QueryDecision::Complete { buffer, actual_count }
}

/// Round-trip law: a buffer provisioned for `element_count` elements and
/// then reduced to a kernel-reported total size that fits it yields exactly
/// the whole elements those bytes hold. The count never exceeds what was
/// provisioned, and remainder bytes past the last whole element are ignored
/// rather than read as a partial element.
pub proof fn lemma_count_round_trip(
    header_size: int,
    element_size: int,
    element_count: int,
    reported: int,
)
    requires
        1 <= header_size,
        1 <= element_size,
        0 <= element_count,
        header_size <= reported <= fam_bytes(header_size, element_size, element_count),
    ensures
        trailing_count_spec(header_size, element_size, reported) == (reported - header_size)
            / element_size,
        0 <= trailing_count_spec(header_size, element_size, reported) <= element_count,
        header_size + trailing_count_spec(header_size, element_size, reported) * element_size
            <= reported,
        reported < header_size + (trailing_count_spec(header_size, element_size, reported) + 1)
            * element_size,
{
    let m = reported - header_size;
    let c = m / element_size;
    lemma_fundamental_div_mod(m, element_size);
    lemma_mod_bound(m, element_size);
    lemma_div_pos_is_pos(m, element_size);
    lemma_mul_is_commutative(c, element_size);
    lemma_mul_is_distributive_add_other_way(element_size, c, 1);
    lemma_div_is_ordered(m, element_count * element_size, element_size);
    lemma_mul_is_commutative(element_count, element_size);
    lemma_div_by_multiple(element_count, element_size);
}

} // verus!
