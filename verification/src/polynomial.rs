//! Construction of the cash-flow polynomial handed to the root provider.
//!
//! A cash-flow sequence is given in chronological order: the flow of period
//! zero first.  Read as a discounting polynomial in `x = 1/(1+rate)`, the
//! flow of period `i` is the coefficient of `x^i`, so the sequence reversed
//! lists the coefficients from the highest degree down — the order the root
//! provider expects.  Leading coefficients that are zeros contribute no
//! degree and are trimmed; what remains must still have a degree of at
//! least one, or the polynomial is degenerate and no rate exists.

use vstd::prelude::*;

use crate::float_bits::{encodes_zero, is_zero_bits};

verus! {

/// The sequence with its longest prefix of zero-encoding patterns removed.
pub open spec fn trim_zero_lead(s: Seq<u64>) -> Seq<u64>
    decreases s.len(),
{
    if s.len() == 0 {
        s
    } else if encodes_zero(s.first()) {
        trim_zero_lead(s.drop_first())
    } else {
        s
    }
}

/// Trimming removes exactly the zero-encoding prefix: if the first `m`
/// entries encode zeros and entry `m` (when there is one) does not, the
/// trimmed sequence is the tail starting at `m`.
proof fn lemma_trim_zero_lead_at(s: Seq<u64>, m: int)
    requires
        0 <= m <= s.len(),
        forall|j: int| 0 <= j < m ==> encodes_zero(s[j]),
        m < s.len() ==> !encodes_zero(s[m]),
    ensures
        trim_zero_lead(s) == s.subrange(m, s.len() as int),
    decreases m,
{
    if m == 0 {
        assert(s.subrange(0, s.len() as int) =~= s);
    } else {
        lemma_trim_zero_lead_at(s.drop_first(), m - 1);
        assert(s.drop_first().subrange(m - 1, s.drop_first().len() as int) =~= s.subrange(
            m,
            s.len() as int,
        ));
    }
}

/// Builds the polynomial for a cash-flow sequence, each flow carried as the
/// bit pattern of a double: reverses the sequence into descending-degree
/// coefficient order and trims the zero leading coefficients.  Returns
/// nothing when fewer than two coefficients remain — a constant or empty
/// polynomial has no roots to offer — so in particular a cash-flow sequence
/// of length zero or one never yields a polynomial.
pub fn prepare_polynomial(cashflows: &Vec<u64>) -> (poly: Option<Vec<u64>>)
    ensures
        match poly {
            Some(v) => v@ == trim_zero_lead(cashflows@.reverse()) && 2 <= v@.len(),
            None => trim_zero_lead(cashflows@.reverse()).len() < 2,
        },
{
    let n = cashflows.len();
    let ghost rev = cashflows@.reverse();

    // Find the highest period whose flow is not a zero; the flows above it
    // are exactly the zero leading coefficients of the reversed sequence.
    let mut k = n;
    while k > 0 && is_zero_bits(cashflows[k - 1])
        invariant
            k <= n,
            n == cashflows@.len(),
            forall|j: int| k <= j < n ==> encodes_zero(cashflows@[j]),
        decreases k,
    {
        k = k - 1;
    }

    proof {
        assert(forall|j: int| 0 <= j < n - k ==> rev[j] == cashflows@[n - 1 - j]);
        lemma_trim_zero_lead_at(rev, n - k);
    }

    if k < 2 {
        return None;
    }

    let mut out: Vec<u64> = Vec::new();
    let mut i: usize = 0;
    while i < k
        invariant
            2 <= k <= n,
            n == cashflows@.len(),
            i <= k,
            out@.len() == i as int,
            forall|t: int| 0 <= t < i ==> out@[t] == cashflows@[k - 1 - t],
        decreases k - i,
    {
        let flow = cashflows[k - 1 - i];
        out.push(flow);
        i = i + 1;
    }

    proof {
        assert(out@ =~= rev.subrange(n - k, n as int));
    }
    Some(out)
}

} // verus!
