use vstd::prelude::*;

use crate::buffer::{u16_le_spec, u32_le_spec, Buffer};
use crate::error::FamError;

verus! {

/// One capability record located in the trailing region: a two-byte
/// identifier, a two-byte version, and the byte offset at which the record
/// sits inside the buffer.
#[derive(Clone, Copy, Debug, PartialEq, Eq, Structural)]
pub struct CapEntry {
    pub id: u16,
    pub version: u16,
    pub offset: u32,
}

/// The offsets of the capability records reachable from `off`, in walk
/// order, or `None` when the chain is malformed. Offset `0` ends a chain. A
/// record's eight fixed bytes (id, version, next offset) must lie wholly
/// inside the buffer, and its successor must sit at a strictly larger
/// offset or be `0`: an offset that points backwards or at the record
/// itself would loop, so such a chain is malformed rather than followed.
pub open spec fn chain_offsets(s: Seq<u8>, off: int) -> Option<Seq<int>>
    decreases 0x1_0000_0000 - off,
{
    if !(0 < off <= 0xffff_ffff) {
        if off == 0 {
            Some(Seq::empty())
        } else {
            None
        }
    } else if off + 8 > s.len() {
        None
    } else {
        let next = u32_le_spec(s, off + 4);
        if next == 0 {
            Some(seq![off])
        } else if next <= off {
            None
        } else {
            match chain_offsets(s, next) {
                Some(rest) => Some(seq![off] + rest),
                None => None,
            }
        }
    }
}

/// The offsets of a sequence of collected records, in order.
spec fn entry_offsets(s: Seq<CapEntry>) -> Seq<int> {
    Seq::new(s.len(), |i: int| s[i].offset as int)
}

/// Walks the capability chain that starts at `first_offset`, collecting
/// each record's identifier, version and offset. Every offset is checked
/// against the buffer before any byte of the record is read, and a chain
/// that leaves the buffer or fails to advance is rejected with
/// `BoundsViolation` instead of being followed.
pub fn walk_cap_chain(buffer: &Buffer, first_offset: u32) -> (r: Result<Vec<CapEntry>, FamError>)
    ensures
        (r is Ok) <==> chain_offsets(buffer@, first_offset as int) is Some,
        r matches Ok(v) ==> (chain_offsets(buffer@, first_offset as int) matches Some(offs)
            && v@.len() == offs.len() && (forall|k: int|
            0 <= k < v@.len() ==> {
                &&& (#[trigger] v@[k]).offset == offs[k]
                &&& 0 < v@[k].offset && v@[k].offset + 8 <= buffer@.len()
                &&& v@[k].id == u16_le_spec(buffer@, offs[k])
                &&& v@[k].version == u16_le_spec(buffer@, offs[k] + 2)
            })),
        r is Err ==> r == Err::<Vec<CapEntry>, FamError>(FamError::BoundsViolation),
{
    let mut entries: Vec<CapEntry> = Vec::new();
    if first_offset == 0 {
        return Ok(entries);
    }
    let buf_len = buffer.len();
    let mut off: u32 = first_offset;
    proof {
        match chain_offsets(buffer@, first_offset as int) {
            Some(rest) => {
                assert(entry_offsets(entries@) + rest =~= rest);
            },
            None => {},
        }
    }
    loop
        invariant
            off != 0,
            buf_len == buffer@.len(),
            (chain_offsets(buffer@, off as int) matches Some(rest) ==> chain_offsets(
                buffer@,
                first_offset as int,
            ) == Some(entry_offsets(entries@) + rest)),
            (chain_offsets(buffer@, off as int) is None ==> chain_offsets(
                buffer@,
                first_offset as int,
            ) is None),
            forall|k: int|
                0 <= k < entries@.len() ==> {
                    &&& 0 < (#[trigger] entries@[k]).offset
                    &&& entries@[k].offset + 8 <= buffer@.len()
                    &&& entries@[k].id == u16_le_spec(buffer@, entries@[k].offset as int)
                    &&& entries@[k].version == u16_le_spec(buffer@, entries@[k].offset as int + 2)
                },
        decreases 0x1_0000_0000 - off,
    {
        if (off as u64) + 8 > (buf_len as u64) {
            return Err(FamError::BoundsViolation);
        }
        let off_us = off as usize;
        let id = buffer.read_u16_le(off_us);
        let version = buffer.read_u16_le(off_us + 2);
        let next = buffer.read_u32_le(off_us + 4);
        let ghost old_entries = entries@;
        entries.push(CapEntry { id, version, offset: off });
        proof {
            assert(entry_offsets(entries@) =~= entry_offsets(old_entries) + seq![off as int]);
        }
        if next == 0 {
            proof {
                assert(chain_offsets(buffer@, off as int) == Some(seq![off as int]));
                assert(entry_offsets(old_entries) + seq![off as int] =~= entry_offsets(entries@));
            }
            return Ok(entries);
        }
        if next <= off {
            return Err(FamError::BoundsViolation);
        }
        proof {
            match chain_offsets(buffer@, next as int) {
                Some(rest) => {
                    assert(chain_offsets(buffer@, off as int) == Some(
                        seq![off as int] + rest,
                    ));
                    assert(entry_offsets(old_entries) + (seq![off as int] + rest)
                        =~= entry_offsets(entries@) + rest);
                },
                None => {
                    assert(chain_offsets(buffer@, off as int) is None);
                },
            }
        }
        off = next;
    }
}

} // verus!
