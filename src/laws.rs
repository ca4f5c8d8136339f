use crate::producer::{span, DynamicInclusiveRange, ExclusiveRange, InclusiveRange, Producer};
use crate::sum::{sum_of, wrapped_sum};
use vstd::prelude::*;

verus! {

/// An exclusive run ending at `high + 1` yields the same values as the
/// inclusive run ending at `high`, and so has the same wrap-around sum,
/// whenever `high + 1` fits in a `u64`.
pub proof fn lemma_exclusive_matches_inclusive(low: u64, high: u64)
    requires
        low <= high,
        high < u64::MAX,
    ensures
        ExclusiveRange::spec_new(low, (high + 1) as u64).remaining()
            == InclusiveRange::spec_new(low, high).remaining(),
        wrapped_sum(ExclusiveRange::spec_new(low, (high + 1) as u64).remaining()) == wrapped_sum(
            InclusiveRange::spec_new(low, high).remaining(),
        ),
{
}

/// With its end at `u64::MAX` the dynamic run takes the inclusive form and
/// still yields exactly `low, ..., u64::MAX`.
pub proof fn lemma_dynamic_reaches_max(low: u64)
    ensures
        DynamicInclusiveRange::spec_new(low, u64::MAX) is Inclusive,
        DynamicInclusiveRange::spec_new(low, u64::MAX).remaining() == span(
            low as int,
            u64::MAX as int + 1,
        ),
{
}

/// Whichever form it takes, the dynamic run yields the same values as the
/// plain inclusive run over the same bounds, and so has the same
/// wrap-around sum.
pub proof fn lemma_dynamic_matches_inclusive(low: u64, high: u64)
    ensures
        DynamicInclusiveRange::spec_new(low, high).remaining() == InclusiveRange::spec_new(
            low,
            high,
        ).remaining(),
        wrapped_sum(DynamicInclusiveRange::spec_new(low, high).remaining()) == wrapped_sum(
            InclusiveRange::spec_new(low, high).remaining(),
        ),
{
    if high < u64::MAX {
        assert(DynamicInclusiveRange::spec_new(low, high).remaining()
            =~= InclusiveRange::spec_new(low, high).remaining());
    }
}

/// A run with nothing in it sums to zero: an exclusive run whose end is not
/// above its start, or an inclusive run whose end is below its start.
pub proof fn lemma_empty_sums_to_zero(low: u64, high: u64)
    requires
        low > high,
    ensures
        wrapped_sum(ExclusiveRange::spec_new(low, high).remaining()) == 0,
        wrapped_sum(ExclusiveRange::spec_new(low, low).remaining()) == 0,
        wrapped_sum(InclusiveRange::spec_new(low, high).remaining()) == 0,
{
    assert(sum_of(ExclusiveRange::spec_new(low, high).remaining()) == 0);
    assert(sum_of(ExclusiveRange::spec_new(low, low).remaining()) == 0);
    assert(sum_of(InclusiveRange::spec_new(low, high).remaining()) == 0);
}

} // verus!
