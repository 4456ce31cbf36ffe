//! Labelling a gene from its real observed count and the two thresholds.
use vstd::prelude::*;
use crate::calibrate::Thresholds;

verus! {

#[derive(Clone, Copy, Debug, PartialEq, Eq, Structural)]
pub enum GeneLabel {
    Core,
    Rare,
    Middle,
}

/// Core when the count reaches the core threshold, checked first; else rare
/// when it is at most the rare threshold; else middle.
pub open spec fn spec_label(count: int, th: Thresholds) -> GeneLabel {
    if count >= th.core {
        GeneLabel::Core
    } else if count <= th.rare {
        GeneLabel::Rare
    } else {
        GeneLabel::Middle
    }
}

pub fn label_for(count: usize, th: &Thresholds) -> (r: GeneLabel)
    ensures
        r == spec_label(count as int, *th),
{
    if count >= th.core {
        GeneLabel::Core
    } else if count <= th.rare {
        GeneLabel::Rare
    } else {
        GeneLabel::Middle
    }
}

impl GeneLabel {
    /// The label as written in an output table.
    pub fn as_str(&self) -> (r: &'static str)
        ensures
            *self == GeneLabel::Core ==> r@ == "core"@,
            *self == GeneLabel::Rare ==> r@ == "rare"@,
            *self == GeneLabel::Middle ==> r@ == "middle"@,
    {
        match self {
            GeneLabel::Core => "core",
            GeneLabel::Rare => "rare",
            GeneLabel::Middle => "middle",
        }
    }
}

pub open spec fn sum_of(s: Seq<usize>) -> int
    decreases s.len(),
{
    if s.len() == 0 {
        0
    } else {
        sum_of(s.drop_last()) + s.last()
    }
}

/// A gene's total observed count over several count columns; `None` when the
/// sum does not fit in `usize`.
pub fn total_count(values: &Vec<usize>) -> (r: Option<usize>)
    ensures
        r is Some <==> sum_of(values@) <= usize::MAX,
        r is Some ==> r->Some_0 == sum_of(values@),
{
    let mut total: usize = 0;
    let mut i: usize = 0;
    while i < values.len()
        invariant
            i <= values@.len(),
            total == sum_of(values@.subrange(0, i as int)),
        decreases values@.len() - i,
    {
        proof {
            assert(values@.subrange(0, i as int + 1).drop_last() =~= values@.subrange(0, i as int));
        }
        if values[i] > usize::MAX - total {
            proof {
                assert(forall|k: int| i < k <= values@.len() ==> sum_of(values@.subrange(0, k)) > usize::MAX) by {
                    assert forall|k: int| i < k <= values@.len() implies sum_of(values@.subrange(0, k)) > usize::MAX by {
                        lemma_sum_grows(values@, i as int + 1, k);
                    }
                }
                assert(values@.subrange(0, values@.len() as int) =~= values@);
            }
            return None;
        }
        total = total + values[i];
        i = i + 1;
    }
    assert(values@.subrange(0, values@.len() as int) =~= values@);
    Some(total)
}

/// A longer prefix never sums to less.
proof fn lemma_sum_grows(s: Seq<usize>, j: int, k: int)
    requires
        0 <= j <= k <= s.len(),
    ensures
        sum_of(s.subrange(0, j)) <= sum_of(s.subrange(0, k)),
    decreases k - j,
{
    if j < k {
        lemma_sum_grows(s, j, k - 1);
        assert(s.subrange(0, k).drop_last() =~= s.subrange(0, k - 1));
    }
}

} // verus!
