//! Start-code scanning and NAL normalization.
//!
//! An Annex-B stream delimits NAL units with the markers `00 00 01` or
//! `00 00 00 01`. The scanner locates the next marker in a buffer; the
//! normalizer guarantees that every payload handed to the decoder begins
//! with a start code.

use vstd::prelude::*;

verus! {

/// A 3- or 4-byte Annex-B start code begins at index `i` of `s`.
pub open spec fn is_start_code_at(s: Seq<u8>, i: int) -> bool {
    (0 <= i && i + 3 <= s.len() && s[i] == 0u8 && s[i + 1] == 0u8 && s[i + 2] == 1u8)
    || (0 <= i && i + 4 <= s.len() && s[i] == 0u8 && s[i + 1] == 0u8 && s[i + 2] == 0u8
        && s[i + 3] == 1u8)
}

/// Index of the leftmost start code at or after `from`, if any.
pub open spec fn spec_find_start_code(s: Seq<u8>, from: int) -> Option<int>
    decreases s.len() - from,
{
    if from < 0 || from + 3 > s.len() {
        None
    } else if is_start_code_at(s, from) {
        Some(from)
    } else {
        spec_find_start_code(s, from + 1)
    }
}

/// What `spec_find_start_code` returns is the leftmost start code at or
/// after `from`, or there is none.
pub proof fn lemma_find_start_code_properties(s: Seq<u8>, from: int)
    requires
        0 <= from,
    ensures
        match spec_find_start_code(s, from) {
            Some(i) => from <= i && is_start_code_at(s, i)
                && forall|j: int| from <= j < i ==> !is_start_code_at(s, j),
            None => forall|j: int| from <= j ==> !is_start_code_at(s, j),
        },
    decreases s.len() - from,
{
    if from + 3 > s.len() {
        assert forall|j: int| from <= j implies !is_start_code_at(s, j) by {
            assert(j + 3 > s.len());
        }
    } else if is_start_code_at(s, from) {
    } else {
        lemma_find_start_code_properties(s, from + 1);
        match spec_find_start_code(s, from + 1) {
            Some(i) => {
                assert forall|j: int| from <= j < i implies !is_start_code_at(s, j) by {}
            }
            None => {
                assert forall|j: int| from <= j implies !is_start_code_at(s, j) by {}
            }
        }
    }
}

/// Locate the next Annex-B start code (`00 00 01` or `00 00 00 01`) in
/// `buf` at or after `offset`, scanning left to right.
pub fn find_start_code(buf: &[u8], offset: usize) -> (r: Option<usize>)
    ensures
        match r {
            Some(i) => offset <= i && i + 3 <= buf@.len() && is_start_code_at(buf@, i as int)
                && forall|j: int| offset <= j < i ==> !is_start_code_at(buf@, j),
            None => forall|j: int| offset <= j ==> !is_start_code_at(buf@, j),
        },
        spec_find_start_code(buf@, offset as int) == match r {
            Some(i) => Some(i as int),
            None => None::<int>,
        },
{
    if buf.len() < 3 || offset > buf.len() - 3 {
        proof {
            assert forall|j: int| offset <= j implies !is_start_code_at(buf@, j) by {
                assert(j + 3 > buf@.len());
            }
            lemma_find_start_code_properties(buf@, offset as int);
            if spec_find_start_code(buf@, offset as int) is Some {
                let k = spec_find_start_code(buf@, offset as int)->Some_0;
                assert(is_start_code_at(buf@, k));
            }
        }
        return None;
    }
    let mut i: usize = offset;
    while i <= buf.len() - 3
        invariant
            buf@.len() >= 3,
            offset <= i,
            i <= buf@.len(),
            forall|j: int| offset <= j < i ==> !is_start_code_at(buf@, j),
        decreases buf@.len() - i,
    {
        let mut found = false;
        if buf[i] == 0x00 && buf[i + 1] == 0x00 {
            if buf[i + 2] == 0x01 {
                found = true;
            } else if i + 3 < buf.len() && buf[i + 2] == 0x00 && buf[i + 3] == 0x01 {
                found = true;
            }
        }
        if found {
            proof {
                assert(is_start_code_at(buf@, i as int));
                lemma_find_start_code_properties(buf@, offset as int);
                match spec_find_start_code(buf@, offset as int) {
                    Some(k) => {
                        if k < i {
                            assert(!is_start_code_at(buf@, k));
                        }
                        if k > i {
                            assert(!is_start_code_at(buf@, i as int));
                        }
                        assert(k == i as int);
                    }
                    None => {
                        assert(!is_start_code_at(buf@, i as int));
                    }
                }
            }
            return Some(i);
        }
        proof {
            assert(!is_start_code_at(buf@, i as int));
        }
        i = i + 1;
    }
    proof {
        assert forall|j: int| offset <= j implies !is_start_code_at(buf@, j) by {
            if j < i {
            } else {
                assert(j + 3 > buf@.len());
            }
        }
        lemma_find_start_code_properties(buf@, offset as int);
        if spec_find_start_code(buf@, offset as int) is Some {
            let k = spec_find_start_code(buf@, offset as int)->Some_0;
            assert(is_start_code_at(buf@, k));
        }
    }
    None
}

/// The payload already begins with a recognized start code.
pub open spec fn has_annexb_prefix(s: Seq<u8>) -> bool {
    is_start_code_at(s, 0)
}

/// The normalized form of a raw NAL payload: unchanged when it already
/// carries a start code, else prefixed with the canonical 4-byte code.
pub open spec fn spec_normalize_nal(s: Seq<u8>) -> Seq<u8> {
    if has_annexb_prefix(s) {
        s
    } else {
        seq![0u8, 0u8, 0u8, 1u8] + s
    }
}

/// Append every byte of `src` to `dst`.
pub fn push_all(dst: &mut Vec<u8>, src: &[u8])
    ensures
        final(dst)@ == old(dst)@ + src@,
{
    let mut k: usize = 0;
    while k < src.len()
        invariant
            k <= src@.len(),
            dst@ == old(dst)@ + src@.subrange(0, k as int),
        decreases src@.len() - k,
    {
        dst.push(src[k]);
        proof {
            assert(old(dst)@ + src@.subrange(0, k as int + 1)
                =~= (old(dst)@ + src@.subrange(0, k as int)).push(src@[k as int]));
        }
        k = k + 1;
    }
    proof {
        assert(src@.subrange(0, src@.len() as int) =~= src@);
    }
}

/// Ensure a raw NAL payload carries a leading Annex-B start code: pass it
/// through unchanged if it already does, else prepend `00 00 00 01`, so the
/// decoder never receives a unit without a valid start code.
pub fn normalize_nal(payload: &[u8]) -> (r: Vec<u8>)
    ensures
        r@ == spec_normalize_nal(payload@),
        has_annexb_prefix(r@),
{
    let has_code = payload.len() >= 3 && payload[0] == 0x00 && payload[1] == 0x00
        && (payload[2] == 0x01 || (payload.len() >= 4 && payload[2] == 0x00 && payload[3] == 0x01));
    let mut out: Vec<u8> = Vec::new();
    if !has_code {
        out.push(0x00);
        out.push(0x00);
        out.push(0x00);
        out.push(0x01);
    }
    push_all(&mut out, payload);
    proof {
        if has_code {
            assert(out@ =~= payload@);
        } else {
            assert(out@ =~= seq![0u8, 0u8, 0u8, 1u8] + payload@);
            assert(is_start_code_at(out@, 0));
        }
    }
    out
}

} // verus!
