use vstd::prelude::*;
use crate::RangeBytes;

verus! {

/// Size of one read buffer.
pub const BUF_LENGTH: usize = 1024;

/// The byte value that marks a not-yet-written gap.
pub const NULL_BYTE: u8 = 0;

/// `rs` lists maximal runs of zero bytes of `buffer`, in order: every listed
/// range is nonempty, holds zero bytes only, and cannot be extended on either
/// side.
pub open spec fn zero_runs_of(buffer: Seq<u8>, rs: Seq<RangeBytes>) -> bool {
    &&& forall|a: int| 0 <= a < rs.len() ==> 0 <= (#[trigger] rs[a]).0 < rs[a].1 <= buffer.len()
    &&& forall|a: int, k: int|
        #![trigger rs[a].0, buffer[k]]
        0 <= a < rs.len() && rs[a].0 <= k < rs[a].1 ==> buffer[k] == 0
    &&& forall|a: int| 0 <= a < rs.len() && (#[trigger] rs[a]).0 > 0 ==> buffer[rs[a].0 - 1] != 0
    &&& forall|a: int|
        0 <= a < rs.len() && (#[trigger] rs[a]).1 < buffer.len() ==> buffer[rs[a].1 as int] != 0
    &&& forall|a: int| 0 <= a < rs.len() - 1 ==> (#[trigger] rs[a]).1 < rs[a + 1].0
}

/// Every zero byte of `buffer` falls inside one of the listed runs.
pub open spec fn zero_bytes_covered(buffer: Seq<u8>, rs: Seq<RangeBytes>) -> bool {
    forall|k: int|
        0 <= k < buffer.len() && (#[trigger] buffer[k]) == 0 ==> exists|a: int|
            0 <= a < rs.len() && (#[trigger] rs[a].0) <= k < rs[a].1
}

/// Scan one buffer for the maximal runs of zero bytes it holds, in order.
pub fn check_for_null_bytes(buffer: &[u8; BUF_LENGTH]) -> (range_bytes: Vec<RangeBytes>)
    ensures
        zero_runs_of(buffer@, range_bytes@),
        zero_bytes_covered(buffer@, range_bytes@),
{
    let mut processing = false;
    let mut beg: u64 = 0;
    let mut range_bytes: Vec<RangeBytes> = Vec::new();
    let mut i: usize = 0;
    while i < BUF_LENGTH
        invariant
            buffer@.len() == BUF_LENGTH,
            0 <= i <= BUF_LENGTH,
            forall|a: int|
                0 <= a < range_bytes@.len() ==> 0 <= (#[trigger] range_bytes@[a]).0
                    < range_bytes@[a].1 <= i,
            forall|a: int, k: int|
                #![trigger range_bytes@[a].0, buffer@[k]]
                0 <= a < range_bytes@.len() && range_bytes@[a].0 <= k < range_bytes@[a].1
                    ==> buffer@[k] == 0,
            forall|a: int|
                0 <= a < range_bytes@.len() && (#[trigger] range_bytes@[a]).0 > 0 ==> buffer@[
                    range_bytes@[a].0 - 1] != 0,
            forall|a: int|
                0 <= a < range_bytes@.len() ==> buffer@[(#[trigger] range_bytes@[a]).1 as int]
                    != 0,
            forall|a: int|
                0 <= a < range_bytes@.len() - 1 ==> (#[trigger] range_bytes@[a]).1
                    < range_bytes@[a + 1].0,
            processing ==> beg < i && (forall|k: int| beg <= k < i ==> buffer@[k] == 0) && (beg
                == 0 || buffer@[beg - 1] != 0) && (forall|a: int|
                0 <= a < range_bytes@.len() ==> (#[trigger] range_bytes@[a]).1 < beg),
            !processing ==> (i == 0 || buffer@[i - 1] != 0),
            forall|k: int|
                0 <= k < i && (#[trigger] buffer@[k]) == 0 ==> (exists|a: int|
                    0 <= a < range_bytes@.len() && (#[trigger] range_bytes@[a].0) <= k
                        < range_bytes@[a].1) || (processing && beg <= k),
        decreases BUF_LENGTH - i,
    {
        let byte = buffer[i];
        if byte == NULL_BYTE && !processing {
            processing = true;
            beg = i as u64;
        }
        if byte != NULL_BYTE && processing {
            processing = false;
            let ghost before = range_bytes@;
            range_bytes.push(RangeBytes(beg, i as u64));
            proof {
                assert forall|k: int|
                    0 <= k < i + 1 && (#[trigger] buffer@[k]) == 0 implies (exists|a: int|
                    0 <= a < range_bytes@.len() && (#[trigger] range_bytes@[a].0) <= k
                        < range_bytes@[a].1) by {
                    if beg <= k < i {
                        assert(range_bytes@[before.len() as int].0 <= k < range_bytes@[
                            before.len() as int].1);
                    } else if !(exists|a: int|
                        0 <= a < before.len() && (#[trigger] before[a].0) <= k < before[a].1) {
                    } else {
                        let a = choose|a: int|
                            0 <= a < before.len() && (#[trigger] before[a].0) <= k < before[a].1;
                        assert(range_bytes@[a].0 <= k < range_bytes@[a].1);
                    }
                }
            }
            beg = 0;
        }
        i = i + 1;
    }
    if processing {
        let ghost before = range_bytes@;
        range_bytes.push(RangeBytes(beg, BUF_LENGTH as u64));
        proof {
            assert forall|k: int|
                0 <= k < buffer@.len() && (#[trigger] buffer@[k]) == 0 implies (exists|a: int|
                0 <= a < range_bytes@.len() && (#[trigger] range_bytes@[a].0) <= k
                    < range_bytes@[a].1) by {
                if beg <= k {
                    assert(range_bytes@[before.len() as int].0 <= k < range_bytes@[before.len()
                        as int].1);
                } else {
                    let a = choose|a: int|
                        0 <= a < before.len() && (#[trigger] before[a].0) <= k < before[a].1;
                    assert(range_bytes@[a].0 <= k < range_bytes@[a].1);
                }
            }
        }
    }
    range_bytes
}

/// Keeps, per input file, the not-yet-written gaps that scanning found.
pub struct InputChunkReader {
    pub zero_bytes_chunks: Vec<RangeBytes>,
}

impl InputChunkReader {
    /// A reader that has not recorded any gap yet.
    pub fn new() -> (reader: InputChunkReader)
        ensures
            reader.zero_bytes_chunks@.len() == 0,
    {
        InputChunkReader { zero_bytes_chunks: Vec::new() }
    }
}

} // verus!
