//! Estimates: binary64 numbers of the half-open range from minus one to one.

use crate::binary64::{
    is_nan, lemma_one_encodes_one, lemma_rank_orders, less, one_in_units, order, ordered, rank,
    rank_of, same, same_number, units, ONE_BITS, SIGN_BIT,
};
use core::cmp::Ordering;
use vstd::prelude::*;
use vstd::std_specs::cmp::{PartialEqSpecImpl, PartialOrdSpecImpl};

verus! {

/// Whether the pattern encodes a number of the half-open range from minus one
/// (included) to one (excluded). No NaN and no infinity does.
pub open spec fn in_range(bits: u64) -> bool {
    !is_nan(bits) && -one_in_units() <= units(bits) < one_in_units()
}

/// The patterns of the range are those whose rank lies between the rank of
/// minus one (included) and the rank of one (excluded).
pub proof fn lemma_range_by_rank(bits: u64)
    ensures
        in_range(bits) <==> -ONE_BITS <= rank(bits) < ONE_BITS,
{
    let minus_one: u64 = (SIGN_BIT + ONE_BITS) as u64;
    lemma_one_encodes_one();
    lemma_rank_orders(bits, ONE_BITS);
    lemma_rank_orders(minus_one, bits);
    assert(rank(ONE_BITS) == ONE_BITS);
    assert(rank(minus_one) == -ONE_BITS);
}

/// Why a pattern was refused as an estimate.
#[derive(Clone, Copy, Debug, PartialEq, Eq, Structural)]
pub enum QValueError {
    /// The pattern is a NaN, an infinity, or a number outside the range.
    OutOfRange { given: u64 },
}

/// An estimate: a binary64 pattern of the range from minus one to one.
#[derive(Clone, Copy, Debug)]
pub struct QValue {
    bits: u64,
}

impl View for QValue {
    type V = u64;

    /// The pattern that the estimate holds.
    closed spec fn view(&self) -> u64 {
        self.bits
    }
}

impl QValue {
    /// Every estimate lies in the range.
    #[verifier::type_invariant]
    pub open spec fn wf(self) -> bool {
        in_range(self@)
    }

    /// Accepts the pattern exactly when it lies in the range.
    pub fn new(bits: u64) -> (res: Result<QValue, QValueError>)
        ensures
            in_range(bits) ==> (res matches Ok(v) && v@ == bits),
            !in_range(bits) ==> res == Err::<QValue, QValueError>(
                QValueError::OutOfRange { given: bits },
            ),
    {
        proof {
            lemma_range_by_rank(bits);
        }
        let r: i128 = rank_of(bits);
        if -(ONE_BITS as i128) <= r && r < ONE_BITS as i128 {
            Ok(QValue { bits })
        } else {
            Err(QValueError::OutOfRange { given: bits })
        }
    }

    /// The pattern of the estimate, which always lies in the range.
    pub fn bits(&self) -> (b: u64)
        ensures
            b == self@,
            in_range(b),
    {
        proof {
            use_type_invariant(self);
        }
        self.bits
    }
}

/// Estimates are totally ordered: any two of them compare, as equal exactly
/// when they are the same number and as less exactly when the first is the
/// smaller number, and the order is transitive.
pub proof fn lemma_estimates_totally_ordered(a: QValue, b: QValue, c: QValue)
    requires
        a.wf(),
        b.wf(),
        c.wf(),
    ensures
        order(a@, b@) is Some,
        order(a@, b@) == Some(Ordering::Equal) <==> same(a@, b@),
        order(a@, b@) == Some(Ordering::Less) <==> less(a@, b@),
        order(a@, b@) == Some(Ordering::Greater) <==> less(b@, a@),
        less(a@, b@) && less(b@, c@) ==> less(a@, c@),
        same(a@, a@),
{
}

impl PartialEq for QValue {
    /// Equality of the two estimates as numbers, under which the two zeros are
    /// equal.
    fn eq(&self, other: &Self) -> (r: bool) {
        same_number(self.bits, other.bits)
    }
}

impl PartialEqSpecImpl for QValue {
    open spec fn obeys_eq_spec() -> bool {
        true
    }

    open spec fn eq_spec(&self, other: &Self) -> bool {
        same(self@, other@)
    }
}

impl PartialOrd for QValue {
    /// The order of the two estimates as numbers.
    fn partial_cmp(&self, other: &Self) -> (r: Option<Ordering>) {
        ordered(self.bits, other.bits)
    }
}

impl PartialOrdSpecImpl for QValue {
    open spec fn obeys_partial_cmp_spec() -> bool {
        true
    }

    open spec fn partial_cmp_spec(&self, other: &Self) -> Option<Ordering> {
        order(self@, other@)
    }
}

} // verus!
