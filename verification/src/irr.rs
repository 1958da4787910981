//! Selection of an internal rate of return from the roots of a cash-flow
//! polynomial.
//!
//! The root provider hands back complex roots; this module decides which of
//! them yield candidate rates and which candidate wins.  A root is a
//! candidate exactly when it is real and its real part is strictly positive;
//! the candidate whose rate lies closest to zero is selected.  The rate
//! transform `1/x - 1` itself is floating-point work done by the caller: it
//! maps each candidate's real part to a rate, and the magnitude of that rate
//! is handed back here as a bit pattern, whose unsigned order agrees with
//! the numeric order of the magnitudes.

use vstd::prelude::*;

use crate::float_bits::{encodes_positive, encodes_zero, is_positive_bits, is_zero_bits};

verus! {

/// One root of the cash-flow polynomial: a complex number whose real and
/// imaginary parts are carried as raw IEEE-754 bit patterns of doubles.
#[derive(Clone, Copy, PartialEq, Eq, Structural, Debug)]
pub struct Root {
    /// Bit pattern of the real part.
    pub re_bits: u64,
    /// Bit pattern of the imaginary part.
    pub im_bits: u64,
}

/// A root yields a candidate rate exactly when it is real (its imaginary
/// part encodes a zero of either sign) and its real part encodes a value
/// strictly greater than zero.  The same predicate governs both the
/// existence check and the candidate filter, so the two can never disagree.
pub open spec fn is_candidate_root(r: Root) -> bool {
    encodes_zero(r.im_bits) && encodes_positive(r.re_bits)
}

/// The real parts (as bit patterns) of the candidate roots, kept in the
/// order in which the roots were given.
pub open spec fn candidate_bits_of(rs: Seq<Root>) -> Seq<u64>
    decreases rs.len(),
{
    if rs.len() == 0 {
        Seq::empty()
    } else {
        let rest = candidate_bits_of(rs.drop_last());
        if is_candidate_root(rs.last()) {
            rest.push(rs.last().re_bits)
        } else {
            rest
        }
    }
}

/// Decides whether any root at all yields a candidate rate.  When none
/// does, no internal rate of return exists for the cash-flow sequence.
pub fn has_candidate_root(rs: &Vec<Root>) -> (found: bool)
    ensures
        found == exists|i: int| 0 <= i < rs@.len() && is_candidate_root(rs@[i]),
{
    let n = rs.len();
    let mut i: usize = 0;
    while i < n
        invariant
            n == rs@.len(),
            i <= n,
            forall|k: int| 0 <= k < i ==> !is_candidate_root(rs@[k]),
        decreases n - i,
    {
        let r = rs[i];
        if is_zero_bits(r.im_bits) && is_positive_bits(r.re_bits) {
            assert(is_candidate_root(rs@[i as int]));
            return true;
        }
        i = i + 1;
    }
    false
}

/// Collects the real parts of the candidate roots, in order.  Each entry is
/// the bit pattern of a double strictly greater than zero, ready for the
/// caller's rate transform.
pub fn candidate_real_bits(rs: &Vec<Root>) -> (cands: Vec<u64>)
    ensures
        cands@ == candidate_bits_of(rs@),
{
    let n = rs.len();
    let mut out: Vec<u64> = Vec::new();
    let mut i: usize = 0;
    while i < n
        invariant
            n == rs@.len(),
            i <= n,
            out@ == candidate_bits_of(rs@.subrange(0, i as int)),
        decreases n - i,
    {
        let r = rs[i];
        proof {
            let prefix = rs@.subrange(0, i as int);
            let grown = rs@.subrange(0, i as int + 1);
            assert(grown.drop_last() =~= prefix);
            assert(grown.last() == rs@[i as int]);
        }
        if is_zero_bits(r.im_bits) && is_positive_bits(r.re_bits) {
            out.push(r.re_bits);
        }
        i = i + 1;
    }
    proof {
        assert(rs@.subrange(0, n as int) =~= rs@);
    }
    out
}

/// The existence check and the candidate filter agree: some root passes the
/// check exactly when the filtered candidate list is non-empty, because one
/// shared predicate governs both.
pub proof fn lemma_root_gate_matches_candidates(rs: Seq<Root>)
    ensures
        (exists|i: int| 0 <= i < rs.len() && is_candidate_root(rs[i])) <==> candidate_bits_of(
            rs,
        ).len() > 0,
    decreases rs.len(),
{
    if rs.len() > 0 {
        lemma_root_gate_matches_candidates(rs.drop_last());
        if is_candidate_root(rs.last()) {
            assert(is_candidate_root(rs[rs.len() - 1]));
        } else {
            if exists|i: int| 0 <= i < rs.len() && is_candidate_root(rs[i]) {
                let i = choose|i: int| 0 <= i < rs.len() && is_candidate_root(rs[i]);
                assert(rs.drop_last()[i] == rs[i]);
            }
        }
    }
}

/// Selects the index of the smallest key, taking the earliest index when
/// several keys are equally small, and nothing when there is no key.  The
/// keys are the bit patterns of the candidate rates' magnitudes; those are
/// non-negative doubles, whose unsigned bit order agrees with their numeric
/// order, so the selected candidate is the one whose rate lies closest to
/// zero.
pub fn index_of_first_min(keys: &Vec<u64>) -> (sel: Option<usize>)
    ensures
        match sel {
            Some(i) => 0 <= i < keys@.len() && (forall|j: int|
                0 <= j < keys@.len() ==> keys@[i as int] <= keys@[j]) && (forall|j: int|
                0 <= j < i as int ==> keys@[i as int] < keys@[j]),
            None => keys@.len() == 0,
        },
{
    if keys.len() == 0 {
        return None;
    }
    let mut best: usize = 0;
    let mut i: usize = 1;
    while i < keys.len()
        invariant
            0 < keys@.len(),
            best < i,
            i <= keys@.len(),
            forall|j: int| 0 <= j < i ==> keys@[best as int] <= keys@[j],
            forall|j: int| 0 <= j < best ==> keys@[best as int] < keys@[j],
        decreases keys@.len() - i,
    {
        if keys[i] < keys[best] {
            best = i;
        }
        i = i + 1;
    }
    Some(best)
}

} // verus!
