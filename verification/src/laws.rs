//! Laws of the resampling algebra.
//!
//! These proof functions state, over the same spec values that the
//! operations' contracts use, the identities that hold across several
//! operations.  Each is stated for every input its hypotheses allow, not for
//! chosen values.

use vstd::prelude::*;
use crate::pipeline::{
    candidate_weight, lemma_candidate_weight_wf, lemma_total_weight_wf, total_weight, Candidate,
};
use crate::ratio::{
    lemma_add_assoc, lemma_add_comm, lemma_add_congruence, lemma_add_le, lemma_add_then_sub,
    lemma_le_congruence, lemma_mul_congruence, lemma_rat_eq_trans, rat_add, rat_div, rat_eq,
    rat_le, rat_mul, rat_sub, rat_whole, Rat,
};

use crate::reservoir::ReservoirBuilder;
use vstd::arithmetic::mul::{lemma_mul_is_commutative, lemma_mul_strictly_positive};

verus! {

/// A merge may always be undone: what `merge` adds never exceeds the merged
/// totals, so `unmerge`'s preconditions hold for the builder that was merged.
pub proof fn lemma_merge_allows_unmerge(
    a: ReservoirBuilder,
    b: ReservoirBuilder,
    merged: ReservoirBuilder,
)
    requires
        a.wf(),
        b.wf(),
        merged.wf(),
        merged.history == a.history + b.history,
        rat_eq(merged.ws(), rat_add(a.ws(), b.ws())),
    ensures
        rat_le(b.ws(), merged.ws()),
        b.history <= merged.history,
{
    lemma_add_le(a.ws(), b.ws());
    lemma_le_congruence(b.ws(), rat_add(a.ws(), b.ws()), b.ws(), merged.ws());
}

/// `merge` followed by `unmerge` of the same builder restores `weight_sum`
/// and `history` to their pre-merge values: the bookkeeping totals are
/// exactly inverted, independently of which sample the merge selected.
pub proof fn lemma_merge_then_unmerge_restores(
    a: ReservoirBuilder,
    b: ReservoirBuilder,
    merged: ReservoirBuilder,
    unmerged: ReservoirBuilder,
)
    requires
        a.wf(),
        b.wf(),
        merged.wf(),
        unmerged.wf(),
        merged.history == a.history + b.history,
        rat_eq(merged.ws(), rat_add(a.ws(), b.ws())),
        unmerged.history == merged.history - b.history,
        rat_eq(unmerged.ws(), rat_sub(merged.ws(), b.ws())),
    ensures
        unmerged.history == a.history,
        rat_eq(unmerged.ws(), a.ws()),
{
    lemma_add_then_sub(a.ws(), b.ws(), merged.ws());
    lemma_mul_strictly_positive(merged.ws().d, b.ws().d);
    lemma_rat_eq_trans(unmerged.ws(), rat_sub(merged.ws(), b.ws()), a.ws());
}

/// The bookkeeping of a merge does not depend on the order of its
/// arguments: weight sums and histories combine symmetrically, so reuse
/// streamed in any order carries the same totals into the final weight.
pub proof fn lemma_merge_commutes(a: ReservoirBuilder, b: ReservoirBuilder)
    ensures
        rat_eq(rat_add(a.ws(), b.ws()), rat_add(b.ws(), a.ws())),
        a.history + b.history == b.history + a.history,
{
    lemma_mul_is_commutative(a.ws().d, b.ws().d);
}

/// Every element of a well-formed candidate sequence is well-formed after
/// removing one position.
proof fn lemma_remove_keeps_wf(s: Seq<Candidate>, i: int)
    requires
        0 <= i < s.len(),
        forall|j: int| 0 <= j < s.len() ==> (#[trigger] s[j]).wf(),
    ensures
        forall|j: int| 0 <= j < s.remove(i).len() ==> (#[trigger] s.remove(i)[j]).wf(),
{
    assert forall|j: int| 0 <= j < s.remove(i).len() implies (#[trigger] s.remove(i)[j]).wf() by {
        if j < i {
            assert(s.remove(i)[j] == s[j]);
        } else {
            assert(s.remove(i)[j] == s[j + 1]);
        }
    }
}

/// Any one candidate's weight can be split off the total: the total weight
/// equals that candidate's weight plus the total of the rest.
proof fn lemma_total_weight_extract(s: Seq<Candidate>, i: int)
    requires
        0 <= i < s.len(),
        forall|j: int| 0 <= j < s.len() ==> (#[trigger] s[j]).wf(),
    ensures
        rat_eq(
            total_weight(s),
            rat_add(candidate_weight(s[i]), total_weight(s.remove(i))),
        ),
    decreases i,
{
    lemma_remove_keeps_wf(s, i);
    if i == 0 {
        assert(s.remove(0) =~= s.skip(1));
    } else {
        let rest = s.skip(1);
        assert(forall|j: int| 0 <= j < rest.len() ==> (#[trigger] rest[j]).wf());
        lemma_total_weight_extract(rest, i - 1);
        let w0 = candidate_weight(s[0]);
        let wi = candidate_weight(s[i]);
        assert(rest[i - 1] == s[i]);
        let x = total_weight(rest.remove(i - 1));
        assert(s.remove(i).skip(1) =~= rest.remove(i - 1));
        assert(s.remove(i)[0] == s[0]);
        assert(s.remove(i).len() > 0);
        // total(s) == w0 + total(rest) ~ w0 + (wi + x) ~ wi + (w0 + x)
        // and w0 + x == total(s.remove(i)).
        lemma_candidate_weight_wf(s[0]);
        lemma_candidate_weight_wf(s[i]);
        lemma_remove_keeps_wf(rest, i - 1);
        lemma_total_weight_wf(rest);
        lemma_total_weight_wf(rest.remove(i - 1));
        lemma_add_le(wi, x);
        lemma_add_le(w0, x);
        lemma_add_le(w0, wi);
        lemma_add_le(wi, w0);
        lemma_add_le(w0, rat_add(wi, x));
        lemma_add_le(rat_add(w0, wi), x);
        lemma_add_le(rat_add(wi, w0), x);
        lemma_add_le(wi, rat_add(w0, x));
        lemma_add_congruence(w0, total_weight(rest), w0, rat_add(wi, x));
        lemma_add_le(w0, total_weight(rest));
        lemma_rat_eq_trans(
            total_weight(s),
            rat_add(w0, total_weight(rest)),
            rat_add(w0, rat_add(wi, x)),
        );
        lemma_add_assoc(w0, wi, x);
        lemma_rat_eq_trans(
            total_weight(s),
            rat_add(w0, rat_add(wi, x)),
            rat_add(rat_add(w0, wi), x),
        );
        lemma_add_comm(w0, wi);
        lemma_add_congruence(rat_add(w0, wi), x, rat_add(wi, w0), x);
        lemma_rat_eq_trans(
            total_weight(s),
            rat_add(rat_add(w0, wi), x),
            rat_add(rat_add(wi, w0), x),
        );
        lemma_add_assoc(wi, w0, x);
        lemma_rat_eq_trans(
            total_weight(s),
            rat_add(rat_add(wi, w0), x),
            rat_add(wi, rat_add(w0, x)),
        );
    }
}

/// For a fixed set of candidates streamed in any order, the accumulated
/// weight sum is the same: the total weight depends only on which
/// candidates were streamed, not on their order.  (Together with the
/// acceptance contracts of `stream`, this is the order-independence half of
/// the reservoir-sampling correctness law; the selection frequencies
/// themselves are a statistical property.)
pub proof fn lemma_total_weight_permutation_invariant(s1: Seq<Candidate>, s2: Seq<Candidate>)
    requires
        forall|j: int| 0 <= j < s1.len() ==> (#[trigger] s1[j]).wf(),
        forall|j: int| 0 <= j < s2.len() ==> (#[trigger] s2[j]).wf(),
        s1.to_multiset() == s2.to_multiset(),
    ensures
        rat_eq(total_weight(s1), total_weight(s2)),
    decreases s1.len(),
{
    s1.to_multiset_ensures();
    s2.to_multiset_ensures();
    if s1.len() == 0 {
        assert(s2.len() == 0);
    } else {
        let c = s1[0];
        assert(s1.contains(c));
        assert(s2.to_multiset().count(c) > 0);
        assert(s2.contains(c));
        let i = choose|i: int| 0 <= i < s2.len() && s2[i] == c;
        assert(s1.remove(0) =~= s1.skip(1));
        assert(s1.skip(1).to_multiset() =~= s1.to_multiset().remove(c));
        assert(s2.remove(i).to_multiset() =~= s2.to_multiset().remove(c));
        assert(s1.skip(1).to_multiset() == s2.remove(i).to_multiset());
        let rest1 = s1.skip(1);
        let rest2 = s2.remove(i);
        assert(forall|j: int| 0 <= j < rest1.len() ==> (#[trigger] rest1[j]).wf());
        lemma_remove_keeps_wf(s2, i);
        lemma_total_weight_permutation_invariant(rest1, rest2);
        lemma_total_weight_extract(s2, i);
        // total(s1) == w(c) + total(rest1) ~ w(c) + total(rest2) ~ total(s2)
        lemma_candidate_weight_wf(c);
        lemma_total_weight_wf(rest1);
        lemma_total_weight_wf(rest2);
        let w = candidate_weight(c);
        lemma_add_congruence(w, total_weight(rest1), w, total_weight(rest2));
        lemma_add_le(w, total_weight(rest1));
        lemma_add_le(w, total_weight(rest2));
        lemma_rat_eq_trans(
            total_weight(s1),
            rat_add(w, total_weight(rest1)),
            rat_add(w, total_weight(rest2)),
        );
        lemma_rat_eq_trans(
            total_weight(s1),
            rat_add(w, total_weight(rest2)),
            total_weight(s2),
        );
    }
}

/// Streaming and merging agree on the weight a sample carries: a
/// single-sample reservoir (`from_sample`, contribution weight
/// `1 / source_pdf`) re-read under target value `tv` (`to_builder`, weight
/// sum `(1 / source_pdf) * 1 * tv`) carries exactly the streaming weight
/// `tv / source_pdf`.  However a sample arrives, its share of the selection
/// is the same.
pub proof fn lemma_single_sample_weight(source_pdf: Rat, target_value: Rat)
    requires
        source_pdf.n > 0,
        source_pdf.d > 0,
        target_value.d > 0,
    ensures
        rat_eq(
            rat_mul(
                rat_mul(rat_div(rat_whole(1), source_pdf), rat_whole(1)),
                target_value,
            ),
            rat_div(target_value, source_pdf),
        ),
{
    let recip = rat_div(rat_whole(1), source_pdf);
    assert(rat_eq(rat_mul(recip, rat_whole(1)), recip));
    lemma_mul_congruence(rat_mul(recip, rat_whole(1)), target_value, recip, target_value);
    assert(rat_whole(1) == Rat { n: 1, d: 1 });
    assert(recip.n == 1 * source_pdf.d);
    assert(recip.d == 1 * source_pdf.n);
    assert(rat_mul(recip, target_value).n == source_pdf.d * target_value.n);
    assert(rat_mul(recip, target_value).d == source_pdf.n * target_value.d);
    lemma_mul_is_commutative(source_pdf.d, target_value.n);
    lemma_mul_is_commutative(source_pdf.n, target_value.d);
    assert(rat_eq(rat_mul(recip, target_value), rat_div(target_value, source_pdf)));
    lemma_mul_strictly_positive(recip.d, target_value.d);
    lemma_rat_eq_trans(
        rat_mul(rat_mul(recip, rat_whole(1)), target_value),
        rat_mul(recip, target_value),
        rat_div(target_value, source_pdf),
    );
}

} // verus!
