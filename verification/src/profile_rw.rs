//! Chunking of profile-memory transfers.
//!
//! The transport packet carries at most 10 data bytes, so reads and writes
//! of profile memory are split into chunks of up to 10 bytes, never
//! crossing the 0x1B00 end of profile memory.  The requests themselves are
//! issued outside this crate, one `ReadProfileData` or `WriteProfileData`
//! packet per chunk, in order.

use crate::raw_profile::{Segment, DATA_END};
use vstd::prelude::*;

verus! {

/// The read chunks covering `[pos, end)`: at most 10 bytes each,
/// consecutive, in order.
pub open spec fn spec_read_chunks(pos: int, end: int) -> Seq<(int, int)>
    decreases end - pos,
{
    if pos >= end {
        Seq::empty()
    } else {
        let l = if end - pos < 10 {
            end - pos
        } else {
            10
        };
        seq![(pos, l)] + spec_read_chunks(pos + l, end)
    }
}

/// The mathematical values of a chunk list.
pub open spec fn chunks_view(v: Seq<(usize, usize)>) -> Seq<(int, int)> {
    Seq::new(v.len(), |i: int| (v[i].0 as int, v[i].1 as int))
}

/// Plans the `ReadProfileData` requests that fetch `len` bytes of profile
/// memory starting at `origin`: chunks of at most 10 bytes, clamped at the
/// 0x1B00 end of profile memory.
#[verifier::loop_isolation(false)]
pub fn read_plan(origin: usize, len: usize) -> (r: Vec<(usize, usize)>)
    requires
        origin <= DATA_END,
    ensures
        chunks_view(r@) == spec_read_chunks(
            origin as int,
            if origin + len <= DATA_END {
                origin + len
            } else {
                DATA_END as int
            },
        ),
{
    let end: usize = if len > DATA_END - origin {
        DATA_END
    } else {
        origin + len
    };
    let mut chunks: Vec<(usize, usize)> = Vec::new();
    let mut pos = origin;
    proof {
        assert(chunks_view(chunks@) =~= Seq::<(int, int)>::empty());
    }
    while pos < end
        invariant
            origin <= pos <= end <= DATA_END,
            spec_read_chunks(origin as int, end as int) == chunks_view(chunks@)
                + spec_read_chunks(pos as int, end as int),
        decreases end - pos,
    {
        let l: usize = if end - pos < 10 {
            end - pos
        } else {
            10
        };
        chunks.push((pos, l));
        proof {
            assert(chunks_view(chunks@) =~= chunks_view(chunks@.drop_last()).push(
                (pos as int, l as int),
            ));
            assert(spec_read_chunks(pos as int, end as int) == seq![(pos as int, l as int)]
                + spec_read_chunks(pos + l, end as int));
        }
        pos = pos + l;
    }
    proof {
        assert(spec_read_chunks(pos as int, end as int) =~= Seq::<(int, int)>::empty());
        assert(chunks_view(chunks@) =~= chunks_view(chunks@) + Seq::<(int, int)>::empty());
    }
    chunks
}

/// The write chunks of one segment: at most 10 bytes each, consecutive,
/// clamped at the 0x1B00 end of profile memory.
pub open spec fn spec_write_chunks(addr: int, bytes: Seq<u8>) -> Seq<(int, Seq<u8>)>
    decreases bytes.len(),
{
    if bytes.len() == 0 || addr >= DATA_END {
        Seq::empty()
    } else {
        let room = DATA_END - addr;
        let l = if bytes.len() <= room {
            if bytes.len() <= 10 {
                bytes.len() as int
            } else {
                10
            }
        } else {
            if room <= 10 {
                room
            } else {
                10
            }
        };
        seq![(addr, bytes.take(l))] + spec_write_chunks(addr + l, bytes.skip(l))
    }
}

/// The mathematical values of a write chunk list.
pub open spec fn write_chunks_view(v: Seq<(usize, Vec<u8>)>) -> Seq<(int, Seq<u8>)> {
    Seq::new(v.len(), |i: int| (v[i].0 as int, v[i].1@))
}

/// Plans the `WriteProfileData` requests that send one segment: chunks of
/// at most 10 bytes at consecutive addresses, never writing at or past the
/// 0x1B00 end of profile memory.
#[verifier::loop_isolation(false)]
pub fn write_plan(segment: &Segment) -> (r: Vec<(usize, Vec<u8>)>)
    ensures
        write_chunks_view(r@) == spec_write_chunks(segment@.address, segment@.bytes),
{
    let mut chunks: Vec<(usize, Vec<u8>)> = Vec::new();
    let mut pos: usize = 0;
    let addr0 = segment.address;
    let total = segment.bytes.len();
    proof {
        assert(write_chunks_view(chunks@) =~= Seq::<(int, Seq<u8>)>::empty());
        assert(segment@.bytes.skip(0) =~= segment@.bytes);
    }
    while pos < total && addr0 + pos < DATA_END
        invariant
            pos <= total,
            addr0 == segment@.address,
            total == segment@.bytes.len(),
            addr0 + pos <= DATA_END || pos == 0,
            spec_write_chunks(segment@.address, segment@.bytes) == write_chunks_view(chunks@)
                + spec_write_chunks(addr0 + pos, segment@.bytes.skip(pos as int)),
        decreases total - pos,
    {
        let remaining = total - pos;
        let room = DATA_END - (addr0 + pos);
        let mut l: usize = 10;
        if remaining < l {
            l = remaining;
        }
        if room < l {
            l = room;
        }
        let mut data: Vec<u8> = Vec::new();
        let mut k: usize = 0;
        while k < l
            invariant
                k <= l,
                pos + l <= total,
                data@ =~= segment@.bytes.subrange(pos as int, pos + k),
            decreases l - k,
        {
            let b = segment.bytes[pos + k];
            data.push(b);
            proof {
                assert(segment@.bytes.subrange(pos as int, pos + k + 1) =~= segment@.bytes.subrange(
                    pos as int,
                    pos + k,
                ).push(b));
            }
            k = k + 1;
        }
        chunks.push((addr0 + pos, data));
        proof {
            let rest = segment@.bytes.skip(pos as int);
            assert(rest.take(l as int) =~= segment@.bytes.subrange(pos as int, pos + l));
            assert(rest.skip(l as int) =~= segment@.bytes.skip(pos + l));
            assert(write_chunks_view(chunks@) =~= write_chunks_view(chunks@.drop_last()).push(
                ((addr0 + pos) as int, segment@.bytes.subrange(pos as int, pos + l)),
            ));
            assert(spec_write_chunks(addr0 + pos, rest) == seq![
                ((addr0 + pos) as int, rest.take(l as int)),
            ] + spec_write_chunks(addr0 + pos + l, rest.skip(l as int)));
        }
        pos = pos + l;
    }
    proof {
        assert(spec_write_chunks(addr0 + pos, segment@.bytes.skip(pos as int)) =~= Seq::<
            (int, Seq<u8>),
        >::empty());
        assert(write_chunks_view(chunks@) =~= write_chunks_view(chunks@) + Seq::<
            (int, Seq<u8>),
        >::empty());
    }
    chunks
}

} // verus!
