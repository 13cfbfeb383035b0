//! Annex-B session buffer.
//!
//! Bytes read from the socket accumulate in a growing buffer. Whenever two
//! start codes are in sight, the span from the first through the byte before
//! the second is carved out as one complete NAL unit and the consumed prefix
//! is dropped, keeping the second start code as the lead-in of the next
//! unit. A NAL is never emitted on the strength of a single boundary. After
//! carving, a buffer still above 4 MiB is cut down to its trailing 1 MiB so
//! that a stream which never shows another start code cannot grow it
//! without bound.

use vstd::prelude::*;
use vstd::slice::{slice_subrange, slice_to_vec};
use crate::scan::{
    find_start_code, has_annexb_prefix, is_start_code_at, lemma_find_start_code_properties,
    push_all, spec_find_start_code,
};

verus! {

/// Ceiling on the accumulated buffer after carving.
pub const ANNEXB_MAX_BUFFER: usize = 4 * 1024 * 1024;

/// Tail kept when the ceiling is exceeded.
pub const ANNEXB_KEEP_TAIL: usize = 1024 * 1024;

/// Carve every complete NAL out of `s`: while a start code and a second
/// start code at least 3 bytes later are both present, the span between
/// them is one NAL and scanning resumes at the second code. The result is
/// the carved NALs in stream order and the bytes that remain buffered.
pub open spec fn carve_nals(s: Seq<u8>) -> (Seq<Seq<u8>>, Seq<u8>)
    decreases s.len(),
{
    match spec_find_start_code(s, 0) {
        None => (Seq::<Seq<u8>>::empty(), s),
        Some(st) => match spec_find_start_code(s, st + 3) {
            None => (Seq::<Seq<u8>>::empty(), s),
            Some(en) => if 0 <= st && st + 3 <= en && en <= s.len() {
                let rest = carve_nals(s.skip(en));
                (seq![s.subrange(st, en)] + rest.0, rest.1)
            } else {
                (Seq::<Seq<u8>>::empty(), s)
            },
        },
    }
}

/// The guard inside `carve_nals` always holds, so the definition unfolds to
/// the recursive case whenever both start codes exist.
pub proof fn lemma_carve_nals_unfold(s: Seq<u8>)
    ensures
        match spec_find_start_code(s, 0) {
            None => carve_nals(s) == (Seq::<Seq<u8>>::empty(), s),
            Some(st) => match spec_find_start_code(s, st + 3) {
                None => carve_nals(s) == (Seq::<Seq<u8>>::empty(), s),
                Some(en) => {
                    &&& 0 <= st
                    &&& st + 3 <= en
                    &&& en + 3 <= s.len()
                    &&& carve_nals(s).0 == seq![s.subrange(st, en)] + carve_nals(s.skip(en)).0
                    &&& carve_nals(s).1 == carve_nals(s.skip(en)).1
                },
            },
        },
{
    lemma_find_start_code_properties(s, 0);
    match spec_find_start_code(s, 0) {
        None => {}
        Some(st) => {
            lemma_find_start_code_properties(s, st + 3);
            match spec_find_start_code(s, st + 3) {
                None => {}
                Some(en) => {
                    assert(is_start_code_at(s, en));
                }
            }
        }
    }
}

/// Every NAL that `carve_nals` produces begins with a start code: the span
/// starts at a start-code position, and the next start code is far enough
/// away that the marker is never cut short.
pub proof fn lemma_carved_nals_have_start_codes(s: Seq<u8>)
    ensures
        forall|k: int|
            0 <= k < carve_nals(s).0.len() ==> has_annexb_prefix(#[trigger] carve_nals(s).0[k]),
    decreases s.len(),
{
    lemma_carve_nals_unfold(s);
    lemma_find_start_code_properties(s, 0);
    match spec_find_start_code(s, 0) {
        None => {}
        Some(st) => match spec_find_start_code(s, st + 3) {
            None => {}
            Some(en) => {
                lemma_find_start_code_properties(s, st + 3);
                lemma_carved_nals_have_start_codes(s.skip(en));
                let nal = s.subrange(st, en);
                assert(is_start_code_at(s, st));
                assert(is_start_code_at(s, en));
                if s[st + 2] == 1u8 {
                    assert(is_start_code_at(nal, 0));
                } else {
                    // Only the 4-byte form holds at `st`; the next start code
                    // cannot begin at `st + 3`, where the byte is 1, so the
                    // whole 4-byte marker lies inside the span.
                    assert(s[st + 3] == 1u8);
                    assert(en != st + 3) by {
                        if en == st + 3 {
                            assert(s[en] == 0u8);
                        }
                    }
                    assert(is_start_code_at(nal, 0));
                }
                assert forall|k: int| 0 <= k < carve_nals(s).0.len()
                    implies has_annexb_prefix(#[trigger] carve_nals(s).0[k]) by {
                    if k == 0 {
                        assert(carve_nals(s).0[0] == nal);
                    } else {
                        assert(carve_nals(s).0[k] == carve_nals(s.skip(en)).0[k - 1]);
                    }
                }
            }
        },
    }
}

/// The views of a vector of byte vectors.
pub open spec fn views_of(v: Seq<Vec<u8>>) -> Seq<Seq<u8>> {
    v.map_values(|x: Vec<u8>| x@)
}

/// What remains buffered after the growth bound is enforced: a buffer over
/// 4 MiB keeps only its trailing 1 MiB.
pub open spec fn spec_truncate_tail(s: Seq<u8>) -> Seq<u8> {
    if s.len() > ANNEXB_MAX_BUFFER {
        s.skip(s.len() - ANNEXB_KEEP_TAIL)
    } else {
        s
    }
}

/// Accumulation buffer for one Annex-B session.
pub struct AnnexBBuffer {
    data: Vec<u8>,
}

impl View for AnnexBBuffer {
    type V = Seq<u8>;

    closed spec fn view(&self) -> Seq<u8> {
        self.data@
    }
}

impl AnnexBBuffer {
    /// A fresh, empty buffer for a new session.
    pub fn new() -> (b: AnnexBBuffer)
        ensures
            b@ == Seq::<u8>::empty(),
    {
        AnnexBBuffer { data: Vec::new() }
    }

    /// Number of bytes currently buffered.
    pub fn len(&self) -> (n: usize)
        ensures
            n == self@.len(),
    {
        self.data.len()
    }

    /// Append one socket read to the buffer.
    pub fn append(&mut self, chunk: &[u8])
        ensures
            final(self)@ == old(self)@ + chunk@,
    {
        push_all(&mut self.data, chunk);
    }

    /// Carve every complete NAL out of the buffer, in stream order, then
    /// enforce the growth bound on what remains. Each returned NAL begins
    /// with a start code and is ready for the decoder.
    pub fn extract_nals(&mut self) -> (nals: Vec<Vec<u8>>)
        ensures
            views_of(nals@) == carve_nals(old(self)@).0,
            final(self)@ == spec_truncate_tail(carve_nals(old(self)@).1),
            final(self)@.len() <= ANNEXB_MAX_BUFFER,
            forall|k: int| 0 <= k < nals@.len() ==> has_annexb_prefix(#[trigger] nals@[k]@),
    {
        proof {
            lemma_carved_nals_have_start_codes(self.data@);
        }
        let ghost orig: Seq<u8> = self.data@;
        let mut nals: Vec<Vec<u8>> = Vec::new();
        let mut done = false;
        while !done
            invariant
                carve_nals(orig).0 == views_of(nals@) + carve_nals(self.data@).0,
                carve_nals(orig).1 == carve_nals(self.data@).1,
                done ==> carve_nals(self.data@) == (Seq::<Seq<u8>>::empty(), self.data@),
            decreases self.data@.len(), (if done { 0int } else { 1int }),
        {
            let ghost s = self.data@;
            proof {
                lemma_carve_nals_unfold(s);
            }
            let n = self.data.len();
            let sl = self.data.as_slice();
            let first = find_start_code(sl, 0);
            match first {
                None => {
                    done = true;
                }
                Some(start) => {
                    let second = find_start_code(sl, start + 3);
                    match second {
                        None => {
                            done = true;
                        }
                        Some(end) => {
                            proof {
                                assert(spec_find_start_code(s, 0) == Some(start as int));
                                assert(spec_find_start_code(s, start as int + 3)
                                    == Some(end as int));
                                assert(carve_nals(s).0
                                    == seq![s.subrange(start as int, end as int)]
                                        + carve_nals(s.skip(end as int)).0);
                                assert(carve_nals(s).1 == carve_nals(s.skip(end as int)).1);
                            }
                            let nal = slice_to_vec(slice_subrange(sl, start, end));
                            let tail = slice_to_vec(slice_subrange(sl, end, n));
                            proof {
                                assert(tail@ =~= s.skip(end as int));
                                assert(nal@ == s.subrange(start as int, end as int));
                                assert(views_of(nals@.push(nal))
                                    =~= views_of(nals@).push(nal@));
                                assert(views_of(nals@) + carve_nals(s).0
                                    =~= views_of(nals@.push(nal))
                                        + carve_nals(s.skip(end as int)).0);
                            }
                            nals.push(nal);
                            self.data = tail;
                        }
                    }
                }
            }
        }
        if self.data.len() > ANNEXB_MAX_BUFFER {
            let keep_from = self.data.len() - ANNEXB_KEEP_TAIL;
            let ghost before = self.data@;
            let tail = slice_to_vec(slice_subrange(self.data.as_slice(), keep_from, self.data.len()));
            self.data = tail;
            proof {
                assert(self.data@ =~= before.skip(before.len() - ANNEXB_KEEP_TAIL));
            }
        }
        proof {
            assert(views_of(nals@) =~= carve_nals(orig).0);
            assert forall|k: int| 0 <= k < nals@.len()
                implies has_annexb_prefix(#[trigger] nals@[k]@) by {
                assert(nals@[k]@ == views_of(nals@)[k]);
                assert(has_annexb_prefix(carve_nals(orig).0[k]));
            }
        }
        nals
    }
}

} // verus!
