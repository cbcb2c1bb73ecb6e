//! Allocation and size negotiation for kernel structures that consist of a
//! fixed header followed by a variable-length trailing array.
//!
//! The buffer builder provisions a single contiguous, zero-filled block that
//! is large enough for the header plus a requested number of trailing
//! elements, with all size arithmetic checked. The query protocol drives the
//! probe-then-grow negotiation by which the true size of such a structure is
//! learned from the kernel, validating every kernel-declared size against the
//! buffer actually supplied before any trailing data is interpreted. The
//! chain walker locates capability records embedded in the trailing region
//! without ever following an offset outside the buffer.

mod buffer;
mod chain;
mod error;
mod fam;
mod protocol;

pub use buffer::{build_buffer, u16_le_spec, u32_le_spec, Buffer};
pub use chain::{chain_offsets, walk_cap_chain, CapEntry};
pub use error::FamError;
pub use fam::{div_round_up, fam_bytes, round_up, vec_with_array_field, vec_with_size_in_bytes};
pub use fam::{lemma_div_round_up, lemma_round_up};
pub use protocol::{
    after_grow, after_probe, grow_count_spec, grown_len_spec, lemma_count_round_trip, start_query,
    trailing_count, trailing_count_spec, validate_bounds, QueryDecision,
};
