//! Per-point resampling pipeline.
//!
//! One frame's update of a surface point runs in strict phases: stream a
//! fixed set of initial candidates, clamp and collapse the result, reuse the
//! point's previous reservoir (temporal) and its neighbors' (spatial),
//! account for bias, and finish.  Everything the scene oracle answers —
//! light values, visibility — enters these functions as plain values, so the
//! caller performs the oracle queries between phases and this module holds
//! the decisions and the bookkeeping.

use vstd::prelude::*;
use crate::ratio::{
    add_fits, div_fits, lemma_add_assoc, lemma_add_congruence, lemma_add_le, lemma_add_zero,
    lemma_norm_keeps_value, lemma_norm_shrinks, lemma_rat_eq_trans, mul_fits, rat_add, rat_div,
    rat_eq, rat_is_zero, rat_le, rat_mul, rat_norm, rat_sub, rat_whole, rat_wf, sub_fits, Rat,
    Ratio,
};
use crate::reservoir::{to_builder_fits, Reservoir, ReservoirBuilder};
use vstd::arithmetic::mul::{lemma_mul_nonnegative, lemma_mul_strictly_positive};

verus! {

/// How the pipeline trades bias against cost.
#[derive(Clone, Copy, Debug)]
pub enum ReusePolicy {
    /// Gate candidates and spatial reuse by visibility; optionally count a
    /// separate unbiased history for the normalization.
    Precise {
        /// Re-examine each spatial neighbor against the winning sample and
        /// normalize only by the histories that pass the reciprocity test.
        unbias: bool,
    },
    /// Skip the visibility gates during selection and accept the bias.
    LeanAndMean {
        /// Check the selection once against visibility after the initial
        /// candidates, invalidating it when occluded.
        initial_visibility: bool,
    },
}

impl ReusePolicy {
    /// Whether candidate generation tests visibility before streaming;
    /// occluded candidates then enter as empty samples.
    pub fn gates_candidates(&self) -> (r: bool)
        ensures
            r == (*self matches ReusePolicy::Precise { .. }),
    {
        match self {
            ReusePolicy::Precise { .. } => true,
            ReusePolicy::LeanAndMean { .. } => false,
        }
    }

    /// Whether spatial reuse tests visibility of the shifted sample before
    /// merging; gated-out neighbors contribute history only.
    pub fn gates_spatial_reuse(&self) -> (r: bool)
        ensures
            r == (*self matches ReusePolicy::Precise { .. }),
    {
        match self {
            ReusePolicy::Precise { .. } => true,
            ReusePolicy::LeanAndMean { .. } => false,
        }
    }

    /// Whether the selection is re-tested against visibility right after the
    /// initial candidates, and invalidated when occluded.
    pub fn rechecks_initial_selection(&self) -> (r: bool)
        ensures
            r == (*self matches ReusePolicy::LeanAndMean { initial_visibility: true }),
    {
        match self {
            ReusePolicy::LeanAndMean { initial_visibility: true } => true,
            _ => false,
        }
    }

    /// Whether the final selection is re-tested against visibility before
    /// finishing, and invalidated when occluded.
    pub fn rechecks_final_selection(&self) -> (r: bool)
        ensures
            r == (*self matches ReusePolicy::LeanAndMean { .. }),
    {
        match self {
            ReusePolicy::LeanAndMean { .. } => true,
            _ => false,
        }
    }

    /// Whether the normalization history is the sum of the histories that
    /// pass the reciprocity test, instead of the raw merged history.
    pub fn counts_unbiased_history(&self) -> (r: bool)
        ensures
            r == (*self matches ReusePolicy::Precise { unbias: true }),
    {
        match self {
            ReusePolicy::Precise { unbias: true } => true,
            _ => false,
        }
    }
}

/// The sample a pixel keeps beside its reservoir.  The direction itself is
/// geometry owned by the caller; here it is an opaque key the caller can map
/// back to its vector.  The distance is present only for samples that hit a
/// finite surface; background samples carry none and are directionally
/// invariant under shift mapping.
#[derive(Clone, Copy, Debug)]
pub struct SelectedSample {
    /// Caller's key for the sampled direction.
    pub direction_key: u64,
    /// Distance to the hit, absent for background samples.
    pub distance: Option<Ratio>,
}

impl SelectedSample {
    /// A background sample keeps its direction unchanged under shift
    /// mapping; only samples with a finite hit distance are re-aimed.
    pub fn is_shift_invariant(&self) -> (r: bool)
        ensures
            r == (self.distance is None),
    {
        self.distance.is_none()
    }
}

/// One initial candidate, as the caller drew and evaluated it: whether it
/// passed the (policy-dependent) early visibility gate, the density it was
/// drawn with, and the oracle's target value for it.
#[derive(Clone, Copy, Debug)]
pub struct Candidate {
    /// Candidate passed the early visibility gate and is streamed; an
    /// occluded candidate only counts toward history.
    pub visible: bool,
    /// Density the direction was drawn with; positive for visible samples.
    pub source_pdf: Ratio,
    /// The oracle's value for the sample, used as its target density.
    pub target_value: Ratio,
}

impl Candidate {
    /// Both ratios are well-formed, and a visible candidate's source
    /// density is positive.
    pub open spec fn wf(self) -> bool {
        &&& self.source_pdf.wf()
        &&& self.target_value.wf()
        &&& (self.visible ==> !rat_is_zero(self.source_pdf@))
    }
}

/// The resampling weight a candidate carries: `target_value / source_pdf`
/// for a visible candidate, zero for an occluded one.
pub open spec fn candidate_weight(c: Candidate) -> Rat {
    if c.visible {
        rat_div(c.target_value@, c.source_pdf@)
    } else {
        rat_whole(0)
    }
}

/// Exact sum of the weights of a candidate sequence.
pub open spec fn total_weight(s: Seq<Candidate>) -> Rat
    decreases s.len(),
{
    if s.len() == 0 {
        rat_whole(0)
    } else {
        rat_add(candidate_weight(s[0]), total_weight(s.skip(1)))
    }
}

/// The weight-sum representation after streaming a candidate sequence,
/// reduced step by step exactly as the executable code reduces it.
pub open spec fn fold_ws(ws: Rat, s: Seq<Candidate>) -> Rat
    decreases s.len(),
{
    if s.len() == 0 {
        ws
    } else {
        let next = if s[0].visible {
            rat_norm(rat_add(ws, rat_norm(rat_div(s[0].target_value@, s[0].source_pdf@))))
        } else {
            ws
        };
        fold_ws(next, s.skip(1))
    }
}

/// Every step of streaming the candidate sequence stays representable.
pub open spec fn fold_fits(ws: Rat, s: Seq<Candidate>) -> bool
    decreases s.len(),
{
    if s.len() == 0 {
        true
    } else if s[0].visible {
        let w = rat_norm(rat_div(s[0].target_value@, s[0].source_pdf@));
        let next = rat_norm(rat_add(ws, w));
        &&& div_fits(s[0].target_value@, s[0].source_pdf@)
        &&& add_fits(ws, w)
        &&& (!rat_is_zero(next) ==> div_fits(w, next))
        &&& fold_fits(next, s.skip(1))
    } else {
        fold_fits(ws, s.skip(1))
    }
}

/// A candidate's weight is a well-formed ratio.
pub proof fn lemma_candidate_weight_wf(c: Candidate)
    requires
        c.wf(),
    ensures
        rat_wf(candidate_weight(c)),
{
    if c.visible {
        lemma_mul_nonnegative(c.target_value@.n, c.source_pdf@.d);
        lemma_mul_strictly_positive(c.target_value@.d, c.source_pdf@.n);
    }
}

/// The total weight of well-formed candidates is a well-formed ratio.
pub proof fn lemma_total_weight_wf(s: Seq<Candidate>)
    requires
        forall|j: int| 0 <= j < s.len() ==> (#[trigger] s[j]).wf(),
    ensures
        rat_wf(total_weight(s)),
    decreases s.len(),
{
    if s.len() > 0 {
        lemma_candidate_weight_wf(s[0]);
        lemma_total_weight_wf(s.skip(1));
        lemma_add_le(candidate_weight(s[0]), total_weight(s.skip(1)));
    }
}

/// Stream the candidates from index `i` on into the builder, one visibility
/// gated sample at a time.  `None` reports that some step's weight sum left
/// `u64`, with the builder unchanged.  On `Some(sel)`, `sel` is the index of
/// the candidate now selected, or `None` when the selection is untouched.
pub fn stream_candidates_from(
    b: &mut ReservoirBuilder,
    candidates: &Vec<Candidate>,
    i: usize,
    rng: &mut rand::rngs::ThreadRng,
) -> (r: Option<Option<usize>>)
    requires
        old(b).wf(),
        i <= candidates@.len(),
        forall|j: int| i <= j < candidates@.len() ==> (#[trigger] candidates@[j]).wf(),
        old(b).history + candidates@.len() - i <= u32::MAX,
    ensures
        r is Some <==> fold_fits(old(b).ws(), candidates@.skip(i as int)),
        r is None ==> *final(b) == *old(b),
        r matches Some(sel) ==> {
            &&& final(b).wf()
            &&& final(b).history == old(b).history + candidates@.len() - i
            &&& final(b).ws() == fold_ws(old(b).ws(), candidates@.skip(i as int))
            &&& rat_eq(
                final(b).ws(),
                rat_add(old(b).ws(), total_weight(candidates@.skip(i as int))),
            )
            &&& (sel matches Some(j) ==> i <= j < candidates@.len() && candidates@[j as int].visible
                && final(b).selected_target_pdf == candidates@[j as int].target_value)
            &&& (sel is None ==> final(b).selected_target_pdf == old(b).selected_target_pdf)
        },
    decreases candidates@.len() - i,
{
    if i == candidates.len() {
        proof {
            lemma_add_zero(old(b).ws(), rat_whole(0));
        }
        return Some(None);
    }
    let saved = *b;
    let c = candidates[i];
    let mut this_sel: Option<usize> = None;
    if c.visible {
        match b.try_stream(c.source_pdf, c.target_value, rng) {
            Some(accepted) => {
                if accepted {
                    this_sel = Some(i);
                }
            },
            None => {
                return None;
            },
        }
    } else {
        b.add_empty_sample();
    }
    let ghost mid = *b;
    proof {
        assert(candidates@.skip(i as int).skip(1) =~= candidates@.skip(i as int + 1));
    }
    match stream_candidates_from(b, candidates, i + 1, rng) {
        Some(rest_sel) => {
            proof {
                let s_i = candidates@.skip(i as int);
                let s_n = candidates@.skip(i as int + 1);
                let w = candidate_weight(c);
                let t_n = total_weight(s_n);
                assert(s_i[0] == c);
                lemma_candidate_weight_wf(c);
                assert(forall|j: int| 0 <= j < s_n.len() ==> (#[trigger] s_n[j]).wf());
                lemma_total_weight_wf(s_n);
                if !c.visible {
                    lemma_add_zero(saved.ws(), rat_whole(0));
                }
                // mid.ws ~ saved.ws + w, and final.ws ~ mid.ws + total of the rest
                lemma_add_le(saved.ws(), w);
                lemma_add_congruence(mid.ws(), t_n, rat_add(saved.ws(), w), t_n);
                lemma_add_le(rat_add(saved.ws(), w), t_n);
                lemma_add_le(mid.ws(), t_n);
                lemma_rat_eq_trans(
                    (*b).ws(),
                    rat_add(mid.ws(), t_n),
                    rat_add(rat_add(saved.ws(), w), t_n),
                );
                lemma_add_assoc(saved.ws(), w, t_n);
                lemma_add_le(w, t_n);
                lemma_add_le(saved.ws(), rat_add(w, t_n));
                lemma_rat_eq_trans(
                    (*b).ws(),
                    rat_add(rat_add(saved.ws(), w), t_n),
                    rat_add(saved.ws(), rat_add(w, t_n)),
                );
            }
            match rest_sel {
                Some(j) => Some(Some(j)),
                None => Some(this_sel),
            }
        },
        None => {
            *b = saved;
            None
        },
    }
}

/// Stream a whole candidate set into a fresh builder.  `None` reports that
/// some step's weight sum left `u64`.  On `Some((b, sel))`, the builder
/// holds one unit of history per candidate and the exact sum of the
/// candidates' weights, and `sel` names the selected candidate, if any.
pub fn stream_candidates(
    candidates: &Vec<Candidate>,
    rng: &mut rand::rngs::ThreadRng,
) -> (r: Option<(ReservoirBuilder, Option<usize>)>)
    requires
        forall|j: int| 0 <= j < candidates@.len() ==> (#[trigger] candidates@[j]).wf(),
        candidates@.len() <= u32::MAX,
    ensures
        r is Some <==> fold_fits(rat_whole(0), candidates@),
        r matches Some((b, sel)) ==> {
            &&& b.wf()
            &&& b.history == candidates@.len()
            &&& rat_eq(b.ws(), total_weight(candidates@))
            &&& (sel matches Some(j) ==> 0 <= j < candidates@.len()
                && candidates@[j as int].visible
                && b.selected_target_pdf == candidates@[j as int].target_value)
            &&& (sel is None ==> rat_is_zero(b.pdf()))
        },
    {
    let mut b = ReservoirBuilder::default();
    let ghost start = b;
    proof {
        assert(candidates@.skip(0) =~= candidates@);
    }
    match stream_candidates_from(&mut b, candidates, 0, rng) {
        Some(sel) => {
            proof {
                lemma_total_weight_wf(candidates@);
                lemma_add_zero(total_weight(candidates@), start.ws());
                assert(rat_eq(rat_add(start.ws(), total_weight(candidates@)), total_weight(
                    candidates@,
                )));
                lemma_add_le(start.ws(), total_weight(candidates@));
                lemma_rat_eq_trans(
                    b.ws(),
                    rat_add(start.ws(), total_weight(candidates@)),
                    total_weight(candidates@),
                );
            }
            Some((b, sel))
        },
        None => None,
    }
}

/// The history a neighbor is read with: its own, bounded by the reuse limit.
pub open spec fn clamped_history(neighbor: Reservoir, max_history: u32) -> int {
    if neighbor.history <= max_history {
        neighbor.history as int
    } else {
        max_history as int
    }
}

/// `reuse` can represent its bookkeeping: the neighbor's reconstructed
/// weight sum, the combined weight sum, and the acceptance ratio.
pub open spec fn reuse_fits(
    b: ReservoirBuilder,
    neighbor: Reservoir,
    reeval_target: Ratio,
    max_history: u32,
) -> bool {
    let ch = clamped_history(neighbor, max_history);
    let clamped = Reservoir {
        history: ch as u32,
        contribution_weight: neighbor.contribution_weight,
    };
    if rat_is_zero(neighbor.cw()) {
        b.history + ch <= u32::MAX
    } else {
        let ows = rat_norm(
            rat_mul(rat_norm(rat_mul(neighbor.cw(), rat_whole(ch))), reeval_target@),
        );
        let ws2 = rat_norm(rat_add(b.ws(), ows));
        &&& to_builder_fits(clamped, reeval_target)
        &&& b.history + ch <= u32::MAX
        &&& add_fits(b.ws(), ows)
        &&& (!rat_is_zero(ws2) ==> div_fits(ows, ws2))
    }
}

/// Reuse a reservoir from another domain — the same point's previous frame
/// (temporal) or a neighbor's (spatial).  The neighbor's history is clamped
/// to `max_history`; if it carries weight, its weight sum is reconstructed
/// under the re-evaluated target value and merged, otherwise only its
/// history is merged.  `None` reports an unrepresentable weight sum, with
/// the builder unchanged.
pub fn reuse(
    b: &mut ReservoirBuilder,
    neighbor: &Reservoir,
    reeval_target: Ratio,
    max_history: u32,
    rng: &mut rand::rngs::ThreadRng,
) -> (r: Option<bool>)
    requires
        old(b).wf(),
        neighbor.wf(),
        reeval_target.wf(),
    ensures
        r is Some <==> reuse_fits(*old(b), *neighbor, reeval_target, max_history),
        r is None ==> *final(b) == *old(b),
        r matches Some(accepted) ==> {
            let ch = clamped_history(*neighbor, max_history);
            &&& final(b).wf()
            &&& final(b).history == old(b).history + ch
            &&& (rat_is_zero(neighbor.cw()) ==> !accepted
                && final(b).weight_sum == old(b).weight_sum
                && final(b).selected_target_pdf == old(b).selected_target_pdf)
            &&& (!rat_is_zero(neighbor.cw()) ==> {
                &&& rat_eq(
                    final(b).ws(),
                    rat_add(
                        old(b).ws(),
                        rat_mul(rat_mul(neighbor.cw(), rat_whole(ch)), reeval_target@),
                    ),
                )
                &&& (accepted ==> final(b).selected_target_pdf == reeval_target)
                &&& (!accepted ==> final(b).selected_target_pdf == old(b).selected_target_pdf)
                &&& (rat_is_zero(reeval_target@) ==> !accepted)
            })
        },
    {
    let clamped = neighbor.with_max_history(max_history);
    if clamped.has_weight() {
        let other = match clamped.try_to_builder(reeval_target) {
            Some(o) => o,
            None => {
                return None;
            },
        };
        proof {
            let ch = clamped_history(*neighbor, max_history);
            let t1 = rat_mul(neighbor.cw(), rat_whole(ch));
            lemma_mul_nonnegative(neighbor.cw().n, ch);
            lemma_norm_keeps_value(t1);
            let t2 = rat_mul(rat_norm(t1), reeval_target@);
            lemma_mul_nonnegative(rat_norm(t1).n, reeval_target@.n);
            lemma_mul_strictly_positive(rat_norm(t1).d, reeval_target@.d);
            lemma_norm_keeps_value(t2);
            if rat_is_zero(reeval_target@) {
                assert(rat_is_zero(t2));
                assert(rat_is_zero(other.ws()));
            }
        }
        match b.try_merge(&other, rng) {
            Some(accepted) => {
                proof {
                    let ch = clamped_history(*neighbor, max_history);
                    let exact = rat_mul(rat_mul(neighbor.cw(), rat_whole(ch)), reeval_target@);
                    lemma_mul_nonnegative(neighbor.cw().n, ch);
                    lemma_norm_keeps_value(rat_mul(neighbor.cw(), rat_whole(ch)));
                    lemma_mul_nonnegative(
                        rat_mul(neighbor.cw(), rat_whole(ch)).n,
                        reeval_target@.n,
                    );
                    lemma_mul_strictly_positive(
                        rat_mul(neighbor.cw(), rat_whole(ch)).d,
                        reeval_target@.d,
                    );
                    lemma_add_congruence(old(b).ws(), other.ws(), old(b).ws(), exact);
                    lemma_add_le(old(b).ws(), other.ws());
                    lemma_rat_eq_trans(
                        (*b).ws(),
                        rat_add(old(b).ws(), other.ws()),
                        rat_add(old(b).ws(), exact),
                    );
                }
                Some(accepted)
            },
            None => None,
        }
    } else {
        if clamped.history() > u32::MAX - b.history() {
            return None;
        }
        b.merge_history(&clamped);
        Some(false)
    }
}

/// One spatial neighbor's part in the reciprocity audit of the unbiased
/// policy: how much clamped history it merged, whether it produced the
/// winning sample, and whether the winning sample is visible from its
/// domain.
#[derive(Clone, Copy, Debug)]
pub struct NeighborAudit {
    /// The history this neighbor was merged with.
    pub clamped_history: u32,
    /// The winning sample came from this neighbor.
    pub produced_selection: bool,
    /// The winning sample, shift-mapped into this neighbor's domain, is
    /// visible there.
    pub visible_in_domain: bool,
}

/// A neighbor's history counts toward the normalization exactly when its
/// domain could have produced the winning sample: it did produce it, or the
/// sample is visible from its domain.
pub open spec fn audit_passes(a: NeighborAudit) -> bool {
    a.produced_selection || a.visible_in_domain
}

/// The unbiased normalization history: the point's own history plus the
/// clamped histories of the neighbors that pass the reciprocity test.
pub open spec fn unbiased_total(own: int, s: Seq<NeighborAudit>) -> int
    decreases s.len(),
{
    if s.len() == 0 {
        own
    } else {
        unbiased_total(own, s.drop_last()) + if audit_passes(s.last()) {
            s.last().clamped_history as int
        } else {
            0
        }
    }
}

/// Sum the histories of the reciprocity-passing neighbors on top of the
/// point's own history.  `None` exactly when the total leaves `u32`.
pub fn unbiased_history(own: u32, audits: &Vec<NeighborAudit>) -> (r: Option<u32>)
    requires
        audits@.len() <= u32::MAX,
    ensures
        r is Some <==> unbiased_total(own as int, audits@) <= u32::MAX,
        r matches Some(h) ==> h == unbiased_total(own as int, audits@),
    {
    let mut acc: u64 = own as u64;
    let n = audits.len();
    let mut i: usize = 0;
    while i < n
        invariant
            i <= n,
            n == audits@.len(),
            n <= u32::MAX,
            acc == unbiased_total(own as int, audits@.take(i as int)),
            acc <= own + i * (u32::MAX as int),
        decreases n - i,
    {
        let a = audits[i];
        proof {
            assert(audits@.take(i as int + 1).drop_last() =~= audits@.take(i as int));
            assert(audits@.take(i as int + 1).last() == audits@[i as int]);
        }
        if a.produced_selection || a.visible_in_domain {
            acc = acc + a.clamped_history as u64;
        }
        i = i + 1;
    }
    proof {
        assert(audits@.take(n as int) =~= audits@);
    }
    if acc <= u32::MAX as u64 {
        Some(acc as u32)
    } else {
        None
    }
}

/// `smooth` can represent its bookkeeping: both scaled terms and their sum.
pub open spec fn smooth_fits(average: Ratio, value: Ratio, alpha: Ratio) -> bool {
    let keep = rat_norm(rat_sub(rat_whole(1), alpha@));
    let t1 = rat_norm(rat_mul(average@, keep));
    let t2 = rat_norm(rat_mul(value@, alpha@));
    &&& mul_fits(average@, keep)
    &&& mul_fits(value@, alpha@)
    &&& add_fits(t1, t2)
}

/// One step of the exponential moving average used for the diagnostic
/// color and variance accumulators: `average * (1 - alpha) + value * alpha`.
/// `None` exactly when a term leaves `u64`.
pub fn smooth(average: Ratio, value: Ratio, alpha: Ratio) -> (r: Option<Ratio>)
    requires
        average.wf(),
        value.wf(),
        alpha.wf(),
        rat_le(alpha@, rat_whole(1)),
    ensures
        r is Some <==> smooth_fits(average, value, alpha),
        r matches Some(q) ==> q.wf() && rat_eq(
            q@,
            rat_add(
                rat_mul(average@, rat_sub(rat_whole(1), alpha@)),
                rat_mul(value@, alpha@),
            ),
        ),
    {
    let one = Ratio::whole(1);
    proof {
        lemma_norm_shrinks(rat_sub(rat_whole(1), alpha@));
    }
    let keep = one.try_sub(&alpha).unwrap();
    let t1 = match average.try_mul(&keep) {
        Some(t) => t,
        None => {
            return None;
        },
    };
    let t2 = match value.try_mul(&alpha) {
        Some(t) => t,
        None => {
            return None;
        },
    };
    match t1.try_add(&t2) {
        Some(q) => {
            proof {
                let exact_keep = rat_sub(rat_whole(1), alpha@);
                let exact1 = rat_mul(average@, exact_keep);
                let exact2 = rat_mul(value@, alpha@);
                crate::ratio::lemma_mul_congruence(average@, keep@, average@, exact_keep);
                lemma_mul_nonnegative(average@.n, exact_keep.n);
                lemma_mul_strictly_positive(average@.d, exact_keep.d);
                lemma_mul_nonnegative(value@.n, alpha@.n);
                lemma_mul_strictly_positive(value@.d, alpha@.d);
                lemma_mul_strictly_positive(average@.d, keep@.d);
                lemma_rat_eq_trans(t1@, rat_mul(average@, keep@), exact1);
                lemma_add_congruence(t1@, t2@, exact1, exact2);
                lemma_add_le(exact1, exact2);
                lemma_add_le(t1@, t2@);
                lemma_rat_eq_trans(q@, rat_add(t1@, t2@), rat_add(exact1, exact2));
            }
            Some(q)
        },
        None => None,
    }
}

/// The squared distance between a value and the running average, used for
/// the variance accumulator.  `None` exactly when the difference or its
/// square leaves `u64`.
pub fn squared_deviation(value: Ratio, average: Ratio) -> (r: Option<Ratio>)
    requires
        value.wf(),
        average.wf(),
    ensures
        ({
            let hi = if rat_le(average@, value@) {
                value@
            } else {
                average@
            };
            let lo = if rat_le(average@, value@) {
                average@
            } else {
                value@
            };
            let diff = rat_sub(hi, lo);
            &&& (r is Some <==> sub_fits(hi, lo) && mul_fits(rat_norm(diff), rat_norm(diff)))
            &&& (r matches Some(q) ==> q.wf() && rat_eq(q@, rat_mul(diff, diff)))
        }),
    {
    let sub = if average.le(&value) {
        value.try_sub(&average)
    } else {
        proof {
            if !rat_le(average@, value@) {
                crate::ratio::lemma_lt_flips(value@, average@);
            }
        }
        average.try_sub(&value)
    };
    let diff = match sub {
        Some(d) => d,
        None => {
            return None;
        },
    };
    match diff.try_mul(&diff) {
        Some(q) => {
            proof {
                let exact = if rat_le(average@, value@) {
                    rat_sub(value@, average@)
                } else {
                    rat_sub(average@, value@)
                };
                crate::ratio::lemma_mul_congruence(diff@, diff@, exact, exact);
                lemma_mul_strictly_positive(diff@.d, diff@.d);
                lemma_rat_eq_trans(q@, rat_mul(diff@, diff@), rat_mul(exact, exact));
            }
            Some(q)
        },
        None => None,
    }
}

} // verus!
