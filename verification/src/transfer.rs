//! The chunked transfer protocol: slicing outbound payloads into fixed-size
//! segments, and reassembling inbound segment streams into one payload.

use vstd::prelude::*;
use crate::error::StatusError;
use crate::messages::DataChunk;

verus! {

/// Size of one transfer segment, in bytes.
pub const CHUNK_SIZE: usize = 65536;

/// How many segments a payload of `len` bytes becomes: none for an empty
/// payload, otherwise the rounded-up quotient.
pub open spec fn chunk_count(len: nat) -> nat {
    (len + 65535) / 65536
}

/// Slices a payload into transfer segments. Every segment carries the
/// payload's virtual path; segment `i` holds the bytes from position
/// `i * CHUNK_SIZE` on (at most `CHUNK_SIZE` of them) and is stamped with
/// their absolute offset; exactly the final segment is marked last.
pub fn make_chunks(path: &str, data: &Vec<u8>, start_offset: u64) -> (r: Vec<DataChunk>)
    requires
        start_offset + data@.len() <= u64::MAX,
    ensures
        r@.len() == chunk_count(data@.len()),
        r@.len() > 0 ==> (r@.len() - 1) * 65536 < data@.len() <= r@.len() * 65536,
        forall|i: int|
            0 <= i < r@.len() ==> {
                let c = #[trigger] r@[i];
                &&& c.path@ == path@
                &&& c.offset == start_offset + i * 65536
                &&& c.data@ == data@.subrange(
                    i * 65536,
                    if i == r@.len() - 1 {
                        data@.len() as int
                    } else {
                        (i + 1) * 65536
                    },
                )
                &&& (c.is_last <==> i == r@.len() - 1)
            },
{
    let len = data.len();
    let mut out: Vec<DataChunk> = Vec::new();
    let mut pos: usize = 0;
    while pos < len
        invariant
            len == data@.len(),
            start_offset + len <= u64::MAX,
            pos == out@.len() * 65536 || (pos == len && out@.len() * 65536 >= len),
            pos <= len,
            out@.len() > 0 ==> (out@.len() - 1) * 65536 < len,
            forall|i: int|
                0 <= i < out@.len() ==> {
                    let c = #[trigger] out@[i];
                    &&& c.path@ == path@
                    &&& c.offset == start_offset + i * 65536
                    &&& c.data@ == data@.subrange(
                        i * 65536,
                        if (i + 1) * 65536 > len {
                            len as int
                        } else {
                            (i + 1) * 65536
                        },
                    )
                    &&& (c.is_last <==> (i + 1) * 65536 >= len)
                },
        decreases len - pos,
    {
        let end: usize = if len - pos > CHUNK_SIZE {
            pos + CHUNK_SIZE
        } else {
            len
        };
        let is_last = end == len;
        let mut piece: Vec<u8> = Vec::new();
        let mut k: usize = pos;
        while k < end
            invariant
                len == data@.len(),
                pos <= k <= end,
                end <= len,
                piece@ =~= data@.subrange(pos as int, k as int),
            decreases end - k,
        {
            piece.push(data[k]);
            proof {
                assert(piece@ =~= data@.subrange(pos as int, k + 1));
            }
            k = k + 1;
        }
        let chunk = DataChunk {
            path: String::from_str(path),
            data: piece,
            offset: start_offset + pos as u64,
            is_last,
        };
        out.push(chunk);
        pos = end;
    }
    proof {
        let k = out@.len() as int;
        assert(k * 65536 >= len);
        if len == 0 {
            assert(chunk_count(len as nat) == 0);
        } else {
            assert(k > 0);
            assert((k - 1) * 65536 < len);
            assert(k == chunk_count(len as nat));
        }
        assert forall|i: int| 0 <= i < k implies {
            let c = #[trigger] out@[i];
            &&& c.path@ == path@
            &&& c.offset == start_offset + i * 65536
            &&& c.data@ == data@.subrange(
                i * 65536,
                if i == k - 1 {
                    len as int
                } else {
                    (i + 1) * 65536
                },
            )
            &&& (c.is_last <==> i == k - 1)
        } by {
            if i < k - 1 {
                assert((i + 1) * 65536 <= (k - 1) * 65536);
            }
        }
    }
    out
}

/// Spec-level state of a write-transfer reassembly: the path announced by
/// the first segment, the bytes gathered so far, whether the final segment
/// has arrived, and whether a segment contradicted the announced path.
#[verifier::ext_equal]
pub struct TransferModel {
    pub path: Option<Seq<char>>,
    pub buffer: Seq<u8>,
    pub done: bool,
    pub failed: bool,
}

/// The reassembly state before any segment.
pub open spec fn transfer_init() -> TransferModel {
    TransferModel { path: None, buffer: Seq::<u8>::empty(), done: false, failed: false }
}

/// One segment's effect on the reassembly: segments after a failure or
/// after the final segment change nothing; the first segment announces the
/// path; a segment naming another path fails the transfer; otherwise its
/// bytes are appended and its last-mark recorded.
pub open spec fn transfer_step(st: TransferModel, c: DataChunk) -> TransferModel {
    if st.failed || st.done {
        st
    } else {
        match st.path {
            None => TransferModel {
                path: Some(c.path@),
                buffer: st.buffer + c.data@,
                done: c.is_last,
                failed: false,
            },
            Some(p) => {
                if p == c.path@ {
                    TransferModel { path: st.path, buffer: st.buffer + c.data@, done: c.is_last, failed: false }
                } else {
                    TransferModel { path: st.path, buffer: st.buffer, done: st.done, failed: true }
                }
            },
        }
    }
}

/// The reassembly state after a whole segment sequence.
pub open spec fn transfer_run(st: TransferModel, cs: Seq<DataChunk>) -> TransferModel
    decreases cs.len(),
{
    if cs.len() == 0 {
        st
    } else {
        transfer_run(transfer_step(st, cs[0]), cs.drop_first())
    }
}

/// Law: a segment sequence whose segments mix two different virtual paths
/// — some segment naming a path other than the first segment's, with no
/// final mark before it — fails the reassembly, so nothing is written.
pub proof fn lemma_mixed_paths_abort(cs: Seq<DataChunk>, j: int)
    requires
        0 < j < cs.len(),
        cs[j].path@ != cs[0].path@,
        forall|k: int| 0 <= k < j ==> !(#[trigger] cs[k]).is_last,
    ensures
        transfer_run(transfer_init(), cs).failed,
{
    let st1 = transfer_step(transfer_init(), cs[0]);
    assert(st1.path == Some(cs[0].path@));
    lemma_mixed_paths_abort_from(st1, cs.drop_first(), j - 1, cs[0].path@);
    assert(cs.drop_first()[j - 1] == cs[j]);
}

/// Helper induction: from a healthy state already bound to `p`, a segment
/// naming another path, not preceded by a final mark, fails the run.
proof fn lemma_mixed_paths_abort_from(st: TransferModel, cs: Seq<DataChunk>, j: int, p: Seq<char>)
    requires
        0 <= j < cs.len(),
        st.path == Some(p),
        !st.done,
        cs[j].path@ != p,
        forall|k: int| 0 <= k < j ==> !(#[trigger] cs[k]).is_last,
    ensures
        transfer_run(st, cs).failed,
    decreases cs.len(),
{
    if st.failed {
        lemma_run_keeps_failure(st, cs);
    } else {
        let st1 = transfer_step(st, cs[0]);
        if j == 0 {
            assert(st1.failed);
            lemma_run_keeps_failure(st1, cs.drop_first());
        } else {
            if cs[0].path@ == p {
                assert(st1.path == Some(p) && !st1.done);
                lemma_mixed_paths_abort_from(st1, cs.drop_first(), j - 1, p);
                assert(cs.drop_first()[j - 1] == cs[j]);
            } else {
                assert(st1.failed);
                lemma_run_keeps_failure(st1, cs.drop_first());
            }
        }
    }
}

/// A failed reassembly stays failed.
pub proof fn lemma_run_keeps_failure(st: TransferModel, cs: Seq<DataChunk>)
    requires
        st.failed,
    ensures
        transfer_run(st, cs).failed,
    decreases cs.len(),
{
    if cs.len() > 0 {
        lemma_run_keeps_failure(transfer_step(st, cs[0]), cs.drop_first());
    }
}

/// Reassembles a client's write stream: gathers segment payloads in
/// arrival order, holding every segment to the path announced by the first.
pub struct WriteAccumulator {
    path: Option<String>,
    buffer: Vec<u8>,
    done: bool,
}

impl WriteAccumulator {
    /// The spec-level state this accumulator stands in. An accumulator
    /// never holds a failed state: its owner aborts on the first error.
    pub closed spec fn model(&self) -> TransferModel {
        TransferModel {
            path: match self.path {
                Some(p) => Some(p@),
                None => None,
            },
            buffer: self.buffer@,
            done: self.done,
            failed: false,
        }
    }

    /// An empty accumulator.
    pub fn new() -> (r: Self)
        ensures
            r.model() == transfer_init(),
    {
        WriteAccumulator { path: None, buffer: Vec::new(), done: false }
    }

    /// Takes one segment. The state advances exactly as `transfer_step`
    /// says; a path mismatch is reported instead of stored, leaving the
    /// accumulator unchanged.
    pub fn push_chunk(&mut self, chunk: &DataChunk) -> (r: Result<(), StatusError>)
        ensures
            transfer_step(old(self).model(), *chunk).failed <==> r is Err,
            r is Ok ==> final(self).model() == transfer_step(old(self).model(), *chunk),
            r is Err ==> (final(self).model() == old(self).model() && r->Err_0 is InvalidArgument
                && r->Err_0.detail_spec() == "All chunks must have the same path"@),
    {
        if self.done {
            return Ok(());
        }
        let bound = match &self.path {
            Some(p) => {
                if !crate::text::str_eq(p.as_str(), chunk.path.as_str()) {
                    return Err(
                        StatusError::InvalidArgument(
                            String::from_str("All chunks must have the same path"),
                        ),
                    );
                }
                true
            },
            None => false,
        };
        if !bound {
            self.path = Some(chunk.path.clone());
        }
        let mut k: usize = 0;
        let n = chunk.data.len();
        let ghost buf0 = self.buffer@;
        let ghost path0 = self.path;
        let ghost done0 = self.done;
        while k < n
            invariant
                n == chunk.data@.len(),
                0 <= k <= n,
                self.path == path0,
                self.done == done0,
                self.buffer@ =~= buf0 + chunk.data@.subrange(0, k as int),
        decreases n - k,
        {
            let b = chunk.data[k];
            self.buffer.push(b);
            proof {
                assert(self.buffer@ =~= buf0 + chunk.data@.subrange(0, k + 1));
            }
            k = k + 1;
        }
        proof {
            assert(chunk.data@.subrange(0, n as int) =~= chunk.data@);
        }
        if chunk.is_last {
            self.done = true;
        }
        proof {
            assert(self.model() =~= transfer_step(old(self).model(), *chunk));
        }
        Ok(())
    }

    /// Closes the transfer: the announced path and the gathered bytes, or
    /// the rejection owed to a stream that never carried a final segment.
    pub fn finish(self) -> (r: Result<(String, Vec<u8>), StatusError>)
        ensures
            match r {
                Ok(pb) => self.model().done && self.model().path == Some(pb.0@) && pb.1@
                    == self.model().buffer,
                Err(e) => (!self.model().done || self.model().path is None) && e
                    is InvalidArgument && e.detail_spec() == "No data received"@,
            },
    {
        if !self.done {
            return Err(StatusError::InvalidArgument(String::from_str("No data received")));
        }
        match self.path {
            Some(p) => Ok((p, self.buffer)),
            None => Err(StatusError::InvalidArgument(String::from_str("No data received"))),
        }
    }
}

} // verus!
