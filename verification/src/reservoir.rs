//! Weighted-reservoir resampling with exact bookkeeping.
//!
//! A `ReservoirBuilder` streams weighted samples and merges with other
//! reservoirs; a `Reservoir` is the finished, reweighted result.  All weights
//! are exact rationals, and each operation's contract states the exact value
//! of every field it touches.  Operations whose reduced results could leave
//! the `u64` range exist in two forms: a `try_` form that reports the
//! overflow as `None`, and a plain form whose precondition rules the
//! overflow out.

use vstd::prelude::*;
use crate::ratio::{
    add_fits, div_fits, lemma_add_congruence, lemma_add_le, lemma_add_zero, lemma_div_congruence,
    lemma_div_div_whole, lemma_div_self_like, lemma_eq_components, lemma_mul_congruence,
    lemma_norm_keeps_value, lemma_norm_shrinks, lemma_rat_eq_trans, lemma_scale_then_div,
    mul_fits, rat_add, rat_div, rat_eq, rat_is_zero, rat_le, rat_mul, rat_norm, rat_sub,
    rat_whole, rat_wf, sub_fits, Rat, Ratio,
};
use crate::rng::draw_below;
use vstd::arithmetic::mul::{lemma_mul_nonnegative, lemma_mul_strictly_positive};

verus! {

/// Accumulator for one resampling pass: streams in weighted samples,
/// merges with reused reservoirs, and is consumed into a `Reservoir`.
#[derive(Clone, Copy, Debug)]
pub struct ReservoirBuilder {
    /// Number of samples accounted for so far.
    pub history: u32,
    /// Sum of the resampling weights of all streamed or merged samples.
    pub weight_sum: Ratio,
    /// Target value (unnormalized target density) of the selected sample.
    pub selected_target_pdf: Ratio,
}

/// A finished resampling result: how many samples went in, and the factor
/// that turns the selected sample's value into an estimator contribution.
#[derive(Clone, Copy, Debug)]
pub struct Reservoir {
    /// Number of samples this reservoir stands for.
    pub history: u32,
    /// Multiplicative weight of the selected sample.
    pub contribution_weight: Ratio,
}

impl ReservoirBuilder {
    /// Both rational fields are well-formed.
    pub open spec fn wf(self) -> bool {
        self.weight_sum.wf() && self.selected_target_pdf.wf()
    }

    /// The weight sum as a mathematical rational.
    pub open spec fn ws(self) -> Rat {
        self.weight_sum@
    }

    /// The selected target density as a mathematical rational.
    pub open spec fn pdf(self) -> Rat {
        self.selected_target_pdf@
    }
}

impl Reservoir {
    /// The rational field is well-formed.
    pub open spec fn wf(self) -> bool {
        self.contribution_weight.wf()
    }

    /// The contribution weight as a mathematical rational.
    pub open spec fn cw(self) -> Rat {
        self.contribution_weight@
    }
}

impl Default for ReservoirBuilder {
    /// The empty accumulator: no history, no weight, no selection.
    fn default() -> (r: ReservoirBuilder)
        ensures
            r.wf(),
            r.history == 0,
            r.ws() == rat_whole(0),
            r.pdf() == rat_whole(0),
            rat_is_zero(r.ws()),
            rat_is_zero(r.pdf()),
    {
        ReservoirBuilder {
            history: 0,
            weight_sum: Ratio::zero(),
            selected_target_pdf: Ratio::zero(),
        }
    }
}

impl Default for Reservoir {
    /// The empty reservoir: no history and zero contribution weight.
    fn default() -> (r: Reservoir)
        ensures
            r.wf(),
            r.history == 0,
            r.cw() == rat_whole(0),
            rat_is_zero(r.cw()),
    {
        Reservoir { history: 0, contribution_weight: Ratio::zero() }
    }
}

/// `to_builder` can represent its weight sum: first the product
/// `contribution_weight * history`, then that product times the density.
pub open spec fn to_builder_fits(r: Reservoir, selected_target_pdf: Ratio) -> bool {
    mul_fits(r.cw(), rat_whole(r.history as int)) && mul_fits(
        rat_norm(rat_mul(r.cw(), rat_whole(r.history as int))),
        selected_target_pdf@,
    )
}

impl Reservoir {
    /// Construct a reservoir from a single sample: one unit of history and
    /// the reciprocal of the sample's source density as its weight.
    pub fn from_sample(source_pdf: Ratio) -> (r: Reservoir)
        requires
            source_pdf.wf(),
            !rat_is_zero(source_pdf@),
        ensures
            r.wf(),
            r.history == 1,
            rat_eq(r.cw(), rat_div(rat_whole(1), source_pdf@)),
            !rat_is_zero(r.cw()),
    {
        let one = Ratio::whole(1);
        proof {
            lemma_norm_shrinks(rat_div(rat_whole(1), source_pdf@));
        }
        let cw = one.try_div(&source_pdf).unwrap();
        Reservoir { history: 1, contribution_weight: cw }
    }

    /// Check if the reservoir has any weight.  This is useful in order to
    /// early out from doing expensive computation when reconstructing the
    /// target density of a selected sample.
    pub fn has_weight(&self) -> (r: bool)
        requires
            self.wf(),
        ensures
            r == !rat_is_zero(self.cw()),
    {
        !self.contribution_weight.is_zero()
    }

    /// Return a copy of the reservoir with clamped history.
    pub fn with_max_history(&self, max_history: u32) -> (r: Reservoir)
        ensures
            r.history == if self.history <= max_history {
                self.history as int
            } else {
                max_history as int
            },
            r.contribution_weight == self.contribution_weight,
    {
        Reservoir {
            history: if self.history <= max_history {
                self.history
            } else {
                max_history
            },
            contribution_weight: self.contribution_weight,
        }
    }

    /// Convert the reservoir back into a builder state, reading the stored
    /// weight under a target density re-evaluated in the consuming domain.
    /// `None` exactly when the reconstructed weight sum leaves `u64`.
    pub fn try_to_builder(&self, selected_target_pdf: Ratio) -> (r: Option<ReservoirBuilder>)
        requires
            self.wf(),
            selected_target_pdf.wf(),
        ensures
            r is Some <==> to_builder_fits(*self, selected_target_pdf),
            r matches Some(b) ==> b.wf() && b.history == self.history
                && b.selected_target_pdf == selected_target_pdf,
            r matches Some(b) ==> rat_eq(
                b.ws(),
                rat_mul(rat_mul(self.cw(), rat_whole(self.history as int)), selected_target_pdf@),
            ),
            r matches Some(b) ==> b.ws() == rat_norm(
                rat_mul(
                    rat_norm(rat_mul(self.cw(), rat_whole(self.history as int))),
                    selected_target_pdf@,
                ),
            ),
    {
        let hr = Ratio::whole(self.history as u64);
        let t1 = match self.contribution_weight.try_mul(&hr) {
            Some(t) => t,
            None => {
                return None;
            },
        };
        let t2 = match t1.try_mul(&selected_target_pdf) {
            Some(t) => t,
            None => {
                return None;
            },
        };
        proof {
            let exact1 = rat_mul(self.cw(), rat_whole(self.history as int));
            lemma_mul_congruence(t1@, selected_target_pdf@, exact1, selected_target_pdf@);
            lemma_mul_strictly_positive(t1@.d, selected_target_pdf@.d);
            lemma_rat_eq_trans(
                t2@,
                rat_mul(t1@, selected_target_pdf@),
                rat_mul(exact1, selected_target_pdf@),
            );
        }
        Some(
            ReservoirBuilder {
                history: self.history,
                weight_sum: t2,
                selected_target_pdf,
            },
        )
    }

    /// Convert the reservoir back into a builder state.
    pub fn to_builder(&self, selected_target_pdf: Ratio) -> (b: ReservoirBuilder)
        requires
            self.wf(),
            selected_target_pdf.wf(),
            to_builder_fits(*self, selected_target_pdf),
        ensures
            b.wf(),
            b.history == self.history,
            b.selected_target_pdf == selected_target_pdf,
            rat_eq(
                b.ws(),
                rat_mul(rat_mul(self.cw(), rat_whole(self.history as int)), selected_target_pdf@),
            ),
    {
        self.try_to_builder(selected_target_pdf).unwrap()
    }

    /// Return the contribution weight of the selected sample.
    pub fn contribution_weight(&self) -> (r: Ratio)
        ensures
            r == self.contribution_weight,
    {
        self.contribution_weight
    }

    /// Return the stored history.
    pub fn history(&self) -> (r: u32)
        ensures
            r == self.history,
    {
        self.history
    }
}

/// `stream` can represent its bookkeeping: the new sample's weight, the new
/// weight sum, and (when that sum is positive) the acceptance ratio.
pub open spec fn stream_fits(b: ReservoirBuilder, source_pdf: Ratio, target_value: Ratio) -> bool {
    let w = rat_norm(rat_div(target_value@, source_pdf@));
    let ws2 = rat_norm(rat_add(b.ws(), w));
    &&& b.history < u32::MAX
    &&& div_fits(target_value@, source_pdf@)
    &&& add_fits(b.ws(), w)
    &&& (!rat_is_zero(ws2) ==> div_fits(w, ws2))
}

/// `merge` can represent its bookkeeping: the combined weight sum and (when
/// that sum is positive) the acceptance ratio.
pub open spec fn merge_fits(b: ReservoirBuilder, other: ReservoirBuilder) -> bool {
    let ws2 = rat_norm(rat_add(b.ws(), other.ws()));
    &&& b.history + other.history <= u32::MAX
    &&& add_fits(b.ws(), other.ws())
    &&& (!rat_is_zero(ws2) ==> div_fits(other.ws(), ws2))
}

/// `unmerge` can represent the remaining weight sum.
pub open spec fn unmerge_fits(b: ReservoirBuilder, other: ReservoirBuilder) -> bool {
    sub_fits(b.ws(), other.ws())
}

/// `clamp_history` can represent the rescaled weight sum.
pub open spec fn clamp_fits(b: ReservoirBuilder, limit: u32) -> bool {
    b.history > limit ==> mul_fits(b.ws(), Rat { n: limit as int, d: b.history as int })
}

/// `collapse` can represent the averaged weight sum.
pub open spec fn collapse_fits(b: ReservoirBuilder) -> bool {
    div_fits(b.ws(), rat_whole(b.history as int))
}

/// `finish_with_history` can represent the contribution weight: the weight
/// sum over the density, then that quotient over the history count.
pub open spec fn finish_fits(b: ReservoirBuilder, unbiased_history: u32) -> bool {
    unbiased_history > 0 && !rat_is_zero(b.pdf()) ==> div_fits(b.ws(), b.pdf()) && div_fits(
        rat_norm(rat_div(b.ws(), b.pdf())),
        rat_whole(unbiased_history as int),
    )
}

impl ReservoirBuilder {
    /// Stream in a new sample, reporting an unrepresentable weight sum as
    /// `None` and leaving the builder untouched in that case.
    ///
    /// On `Some(accepted)`: the sample's weight `target_value / source_pdf`
    /// joins the weight sum, history grows by one, and the sample was
    /// selected exactly when `accepted` — with probability weight over new
    /// weight sum for a uniform draw.
    pub fn try_stream(
        &mut self,
        source_pdf: Ratio,
        target_value: Ratio,
        rng: &mut rand::rngs::ThreadRng,
    ) -> (r: Option<bool>)
        requires
            old(self).wf(),
            source_pdf.wf(),
            target_value.wf(),
            !rat_is_zero(source_pdf@),
        ensures
            r is Some <==> stream_fits(*old(self), source_pdf, target_value),
            r is None ==> *final(self) == *old(self),
            r matches Some(accepted) ==> {
                &&& final(self).wf()
                &&& final(self).history == old(self).history + 1
                &&& rat_eq(
                    final(self).ws(),
                    rat_add(old(self).ws(), rat_div(target_value@, source_pdf@)),
                )
                &&& final(self).ws() == rat_norm(
                    rat_add(
                        old(self).ws(),
                        rat_norm(rat_div(target_value@, source_pdf@)),
                    ),
                )
                &&& (accepted ==> final(self).selected_target_pdf == target_value)
                &&& (!accepted ==> final(self).selected_target_pdf == old(
                    self,
                ).selected_target_pdf)
                &&& (rat_is_zero(target_value@) ==> !accepted)
                &&& (rat_is_zero(old(self).ws()) && !rat_is_zero(target_value@) ==> accepted)
            },
    {
        if self.history == u32::MAX {
            return None;
        }
        let w = match target_value.try_div(&source_pdf) {
            Some(w) => w,
            None => {
                return None;
            },
        };
        let ws2 = match self.weight_sum.try_add(&w) {
            Some(s) => s,
            None => {
                return None;
            },
        };
        proof {
            lemma_mul_strictly_positive(target_value@.d, source_pdf@.n);
            lemma_add_le(old(self).ws(), w@);
            lemma_norm_keeps_value(rat_add(old(self).ws(), w@));
            lemma_add_congruence(
                old(self).ws(),
                w@,
                old(self).ws(),
                rat_div(target_value@, source_pdf@),
            );
            lemma_rat_eq_trans(
                ws2@,
                rat_add(old(self).ws(), w@),
                rat_add(old(self).ws(), rat_div(target_value@, source_pdf@)),
            );
        }
        let accepted: bool;
        if ws2.is_zero() {
            accepted = false;
        } else {
            let p = match w.try_div(&ws2) {
                Some(p) => p,
                None => {
                    return None;
                },
            };
            proof {
                if rat_is_zero(old(self).ws()) && !rat_is_zero(target_value@) {
                    lemma_accept_ratio_is_one(old(self).ws(), w@, ws2@, p@);
                }
            }
            let roll = draw_below(rng, p.den);
            accepted = roll < p.num;
        }
        self.history = self.history + 1;
        self.weight_sum = ws2;
        if accepted {
            self.selected_target_pdf = target_value;
        }
        Some(accepted)
    }

    /// Stream in a new sample into a reservoir.
    ///
    /// Returns true if the sample got stored into the reservoir.
    ///
    /// The `source_pdf` is a density of how the sample was produced.
    /// The `target_value` is how much we consider this sample to be important
    /// for the target function.
    pub fn stream(
        &mut self,
        source_pdf: Ratio,
        target_value: Ratio,
        rng: &mut rand::rngs::ThreadRng,
    ) -> (accepted: bool)
        requires
            old(self).wf(),
            source_pdf.wf(),
            target_value.wf(),
            !rat_is_zero(source_pdf@),
            stream_fits(*old(self), source_pdf, target_value),
        ensures
            final(self).wf(),
            final(self).history == old(self).history + 1,
            rat_eq(
                final(self).ws(),
                rat_add(old(self).ws(), rat_div(target_value@, source_pdf@)),
            ),
            accepted ==> final(self).selected_target_pdf == target_value,
            !accepted ==> final(self).selected_target_pdf == old(self).selected_target_pdf,
            rat_is_zero(target_value@) ==> !accepted,
            rat_is_zero(old(self).ws()) && !rat_is_zero(target_value@) ==> accepted,
    {
        self.try_stream(source_pdf, target_value, rng).unwrap()
    }

    /// Register a sample with zero value.
    pub fn add_empty_sample(&mut self)
        requires
            old(self).history < u32::MAX,
        ensures
            final(self).history == old(self).history + 1,
            final(self).weight_sum == old(self).weight_sum,
            final(self).selected_target_pdf == old(self).selected_target_pdf,
    {
        self.history = self.history + 1;
    }

    /// Merge another reservoir builder into this one, reporting an
    /// unrepresentable weight sum as `None` and leaving the builder
    /// untouched in that case.
    ///
    /// On `Some(accepted)`: weight sums and histories add, and the other
    /// builder's selection was taken over exactly when `accepted` — with
    /// probability `other` weight sum over combined weight sum for a uniform
    /// draw.
    pub fn try_merge(
        &mut self,
        other: &ReservoirBuilder,
        rng: &mut rand::rngs::ThreadRng,
    ) -> (r: Option<bool>)
        requires
            old(self).wf(),
            other.wf(),
        ensures
            r is Some <==> merge_fits(*old(self), *other),
            r is None ==> *final(self) == *old(self),
            r matches Some(accepted) ==> {
                &&& final(self).wf()
                &&& final(self).history == old(self).history + other.history
                &&& rat_eq(final(self).ws(), rat_add(old(self).ws(), other.ws()))
                &&& final(self).ws() == rat_norm(rat_add(old(self).ws(), other.ws()))
                &&& (accepted ==> final(self).selected_target_pdf == other.selected_target_pdf)
                &&& (!accepted ==> final(self).selected_target_pdf == old(
                    self,
                ).selected_target_pdf)
                &&& (rat_is_zero(other.ws()) ==> !accepted)
                &&& (rat_is_zero(old(self).ws()) && !rat_is_zero(other.ws()) ==> accepted)
            },
    {
        if other.history > u32::MAX - self.history {
            return None;
        }
        let ws2 = match self.weight_sum.try_add(&other.weight_sum) {
            Some(s) => s,
            None => {
                return None;
            },
        };
        proof {
            lemma_add_le(old(self).ws(), other.ws());
            lemma_norm_keeps_value(rat_add(old(self).ws(), other.ws()));
        }
        let accepted: bool;
        if ws2.is_zero() {
            accepted = false;
        } else {
            let p = match other.weight_sum.try_div(&ws2) {
                Some(p) => p,
                None => {
                    return None;
                },
            };
            proof {
                if rat_is_zero(old(self).ws()) && !rat_is_zero(other.ws()) {
                    lemma_accept_ratio_is_one(old(self).ws(), other.ws(), ws2@, p@);
                }
            }
            let roll = draw_below(rng, p.den);
            accepted = roll < p.num;
        }
        self.history = self.history + other.history;
        self.weight_sum = ws2;
        if accepted {
            self.selected_target_pdf = other.selected_target_pdf;
        }
        Some(accepted)
    }

    /// Merge another reservoir into this one.
    ///
    /// Returns true if the other's sample got stored into the reservoir.
    pub fn merge(
        &mut self,
        other: &ReservoirBuilder,
        rng: &mut rand::rngs::ThreadRng,
    ) -> (accepted: bool)
        requires
            old(self).wf(),
            other.wf(),
            merge_fits(*old(self), *other),
        ensures
            final(self).wf(),
            final(self).history == old(self).history + other.history,
            rat_eq(final(self).ws(), rat_add(old(self).ws(), other.ws())),
            accepted ==> final(self).selected_target_pdf == other.selected_target_pdf,
            !accepted ==> final(self).selected_target_pdf == old(self).selected_target_pdf,
            rat_is_zero(other.ws()) ==> !accepted,
            rat_is_zero(old(self).ws()) && !rat_is_zero(other.ws()) ==> accepted,
    {
        self.try_merge(other, rng).unwrap()
    }

    /// Merge history from another reservoir that has no weight.
    pub fn merge_history(&mut self, other: &Reservoir)
        requires
            old(self).history + other.history <= u32::MAX,
        ensures
            final(self).history == old(self).history + other.history,
            final(self).weight_sum == old(self).weight_sum,
            final(self).selected_target_pdf == old(self).selected_target_pdf,
    {
        self.history = self.history + other.history;
    }

    /// Subtract a previously merged builder's totals, reporting an
    /// unrepresentable remainder as `None` and leaving the builder untouched
    /// in that case.  The selection is not reverted: if the merge changed
    /// which sample is selected, the caller must decide separately whether
    /// to invalidate it.
    pub fn try_unmerge(&mut self, other: &ReservoirBuilder) -> (r: bool)
        requires
            old(self).wf(),
            other.wf(),
            rat_le(other.ws(), old(self).ws()),
            other.history <= old(self).history,
        ensures
            r == unmerge_fits(*old(self), *other),
            !r ==> *final(self) == *old(self),
            r ==> {
                &&& final(self).wf()
                &&& final(self).history == old(self).history - other.history
                &&& rat_eq(final(self).ws(), rat_sub(old(self).ws(), other.ws()))
                &&& final(self).selected_target_pdf == old(self).selected_target_pdf
            },
    {
        match self.weight_sum.try_sub(&other.weight_sum) {
            Some(s) => {
                self.weight_sum = s;
                self.history = self.history - other.history;
                true
            },
            None => false,
        }
    }

    /// Subtract a previously merged builder's totals.  The selection is not
    /// reverted: if the merge changed which sample is selected, the caller
    /// must decide separately whether to invalidate it.
    pub fn unmerge(&mut self, other: &ReservoirBuilder)
        requires
            old(self).wf(),
            other.wf(),
            rat_le(other.ws(), old(self).ws()),
            other.history <= old(self).history,
            unmerge_fits(*old(self), *other),
        ensures
            final(self).wf(),
            final(self).history == old(self).history - other.history,
            rat_eq(final(self).ws(), rat_sub(old(self).ws(), other.ws())),
            final(self).selected_target_pdf == old(self).selected_target_pdf,
    {
        let _ = self.try_unmerge(other);
    }

    /// Subtract history that was previously merged from a reservoir.
    pub fn unmerge_history(&mut self, other: &Reservoir)
        requires
            other.history <= old(self).history,
        ensures
            final(self).history == old(self).history - other.history,
            final(self).weight_sum == old(self).weight_sum,
            final(self).selected_target_pdf == old(self).selected_target_pdf,
    {
        self.history = self.history - other.history;
    }

    /// Invalidate the target density of the selected sample, forcing the
    /// final contribution weight to zero while keeping the history.
    pub fn invalidate(&mut self)
        ensures
            final(self).wf(),
            final(self).history == old(self).history,
            rat_is_zero(final(self).ws()),
            rat_is_zero(final(self).pdf()),
    {
        self.selected_target_pdf = Ratio::zero();
        self.weight_sum = Ratio::zero();
    }

    /// Reweight the reservoir as if it had fewer samples, reporting an
    /// unrepresentable rescaled weight sum as `false` and leaving the
    /// builder untouched in that case.
    ///
    /// When the limit is not below the current history nothing changes;
    /// otherwise the weight sum is scaled by `history / old history`, so the
    /// average weight per unit of history is preserved.
    pub fn try_clamp_history(&mut self, history: u32) -> (r: bool)
        requires
            old(self).wf(),
            history > 0,
        ensures
            r == clamp_fits(*old(self), history),
            !r ==> *final(self) == *old(self),
            r && old(self).history <= history ==> *final(self) == *old(self),
            r && old(self).history > history ==> {
                &&& final(self).wf()
                &&& final(self).history == history
                &&& rat_eq(
                    final(self).ws(),
                    rat_mul(
                        old(self).ws(),
                        Rat { n: history as int, d: old(self).history as int },
                    ),
                )
                &&& rat_eq(
                    rat_div(final(self).ws(), rat_whole(history as int)),
                    rat_div(old(self).ws(), rat_whole(old(self).history as int)),
                )
                &&& final(self).selected_target_pdf == old(self).selected_target_pdf
            },
    {
        if self.history > history {
            let factor = Ratio { num: history as u64, den: self.history as u64 };
            match self.weight_sum.try_mul(&factor) {
                Some(w) => {
                    proof {
                        lemma_clamp_preserves_average(
                            old(self).ws(),
                            w@,
                            history as int,
                            old(self).history as int,
                        );
                    }
                    self.weight_sum = w;
                    self.history = history;
                    true
                },
                None => false,
            }
        } else {
            true
        }
    }

    /// Reweight the reservoir as if it had fewer samples.
    pub fn clamp_history(&mut self, history: u32)
        requires
            old(self).wf(),
            history > 0,
            clamp_fits(*old(self), history),
        ensures
            old(self).history <= history ==> *final(self) == *old(self),
            old(self).history > history ==> {
                &&& final(self).wf()
                &&& final(self).history == history
                &&& rat_eq(
                    final(self).ws(),
                    rat_mul(
                        old(self).ws(),
                        Rat { n: history as int, d: old(self).history as int },
                    ),
                )
                &&& rat_eq(
                    rat_div(final(self).ws(), rat_whole(history as int)),
                    rat_div(old(self).ws(), rat_whole(old(self).history as int)),
                )
                &&& final(self).selected_target_pdf == old(self).selected_target_pdf
            },
    {
        let _ = self.try_clamp_history(history);
    }

    /// Average the weight sum over the current history and reset the history
    /// to one, so that many initial candidates count as a single logical
    /// sample when combined with reservoirs from other domains.  Reports an
    /// unrepresentable averaged weight sum as `false`, leaving the builder
    /// untouched.
    pub fn try_collapse(&mut self) -> (r: bool)
        requires
            old(self).wf(),
            old(self).history > 0,
        ensures
            r == collapse_fits(*old(self)),
            !r ==> *final(self) == *old(self),
            r ==> {
                &&& final(self).wf()
                &&& final(self).history == 1
                &&& rat_eq(
                    final(self).ws(),
                    rat_div(old(self).ws(), rat_whole(old(self).history as int)),
                )
                &&& final(self).selected_target_pdf == old(self).selected_target_pdf
            },
    {
        let divisor = Ratio::whole(self.history as u64);
        match self.weight_sum.try_div(&divisor) {
            Some(w) => {
                self.weight_sum = w;
                self.history = 1;
                true
            },
            None => false,
        }
    }

    /// Average the weight sum over the current history and reset the history
    /// to one.
    pub fn collapse(&mut self)
        requires
            old(self).wf(),
            old(self).history > 0,
            collapse_fits(*old(self)),
        ensures
            final(self).wf(),
            final(self).history == 1,
            rat_eq(final(self).ws(), rat_div(old(self).ws(), rat_whole(old(self).history as int))),
            final(self).selected_target_pdf == old(self).selected_target_pdf,
    {
        let _ = self.try_collapse();
    }

    /// Finish building a reservoir with a chosen normalization history,
    /// reporting an unrepresentable contribution weight as `None`.
    ///
    /// The stored history is the builder's history; the contribution weight
    /// is `weight_sum / (unbiased_history * selected_target_pdf)` when that
    /// denominator is positive and exactly zero otherwise.
    pub fn try_finish_with_history(self, unbiased_history: u32) -> (r: Option<Reservoir>)
        requires
            self.wf(),
        ensures
            r is Some <==> finish_fits(self, unbiased_history),
            r matches Some(res) ==> {
                &&& res.wf()
                &&& res.history == self.history
                &&& (unbiased_history == 0 || rat_is_zero(self.pdf()) ==> rat_is_zero(res.cw()))
                &&& (unbiased_history > 0 && !rat_is_zero(self.pdf()) ==> rat_eq(
                    res.cw(),
                    rat_div(self.ws(), rat_mul(rat_whole(unbiased_history as int), self.pdf())),
                ))
            },
    {
        if unbiased_history == 0 || self.selected_target_pdf.is_zero() {
            return Some(Reservoir { history: self.history, contribution_weight: Ratio::zero() });
        }
        let q = match self.weight_sum.try_div(&self.selected_target_pdf) {
            Some(q) => q,
            None => {
                return None;
            },
        };
        let uh = Ratio::whole(unbiased_history as u64);
        let cw = match q.try_div(&uh) {
            Some(c) => c,
            None => {
                return None;
            },
        };
        proof {
            let exact_q = rat_div(self.ws(), self.pdf());
            lemma_mul_strictly_positive(self.ws().d, self.pdf().n);
            lemma_mul_strictly_positive(exact_q.d, unbiased_history as int);
            lemma_div_congruence(q@, rat_whole(unbiased_history as int), exact_q, rat_whole(
                unbiased_history as int,
            ));
            lemma_rat_eq_trans(
                cw@,
                rat_div(q@, rat_whole(unbiased_history as int)),
                rat_div(exact_q, rat_whole(unbiased_history as int)),
            );
            lemma_div_div_whole(self.ws(), self.pdf(), unbiased_history as int);
            lemma_rat_eq_trans(
                cw@,
                rat_div(exact_q, rat_whole(unbiased_history as int)),
                rat_div(self.ws(), rat_mul(rat_whole(unbiased_history as int), self.pdf())),
            );
        }
        Some(Reservoir { history: self.history, contribution_weight: cw })
    }

    /// Finish building a reservoir, using the given history for weighting
    /// (while the stored history is unaffected).
    pub fn finish_with_history(self, unbiased_history: u32) -> (r: Reservoir)
        requires
            self.wf(),
            finish_fits(self, unbiased_history),
        ensures
            r.wf(),
            r.history == self.history,
            unbiased_history == 0 || rat_is_zero(self.pdf()) ==> rat_is_zero(r.cw()),
            unbiased_history > 0 && !rat_is_zero(self.pdf()) ==> rat_eq(
                r.cw(),
                rat_div(self.ws(), rat_mul(rat_whole(unbiased_history as int), self.pdf())),
            ),
    {
        self.try_finish_with_history(unbiased_history).unwrap()
    }

    /// Finish building a reservoir, reporting an unrepresentable
    /// contribution weight as `None`.  The stored history is clamped to
    /// `max_history`; the weight is normalized by the full, unclamped
    /// history.
    pub fn try_finish(self, max_history: u32) -> (r: Option<Reservoir>)
        requires
            self.wf(),
        ensures
            r is Some <==> finish_fits(self, self.history),
            r matches Some(res) ==> {
                &&& res.wf()
                &&& res.history == if self.history <= max_history {
                    self.history as int
                } else {
                    max_history as int
                }
                &&& (self.history == 0 || rat_is_zero(self.pdf()) ==> rat_is_zero(res.cw()))
                &&& (self.history > 0 && !rat_is_zero(self.pdf()) ==> rat_eq(
                    res.cw(),
                    rat_div(self.ws(), rat_mul(rat_whole(self.history as int), self.pdf())),
                ))
            },
    {
        let unbiased_history = self.history;
        match self.try_finish_with_history(unbiased_history) {
            Some(res) => Some(res.with_max_history(max_history)),
            None => None,
        }
    }

    /// Finish building a reservoir.  The stored history is clamped to
    /// `max_history`; the weight is normalized by the full, unclamped
    /// history, so finishing commutes with clamping the stored history.
    pub fn finish(self, max_history: u32) -> (r: Reservoir)
        requires
            self.wf(),
            finish_fits(self, self.history),
        ensures
            r.wf(),
            r.history == if self.history <= max_history {
                self.history as int
            } else {
                max_history as int
            },
            self.history == 0 || rat_is_zero(self.pdf()) ==> rat_is_zero(r.cw()),
            self.history > 0 && !rat_is_zero(self.pdf()) ==> rat_eq(
                r.cw(),
                rat_div(self.ws(), rat_mul(rat_whole(self.history as int), self.pdf())),
            ),
    {
        self.try_finish(max_history).unwrap()
    }

    /// Return the stored history.
    pub fn history(&self) -> (r: u32)
        ensures
            r == self.history,
    {
        self.history
    }

    /// Return the accumulated weight sum.
    pub fn weight_sum(&self) -> (r: Ratio)
        ensures
            r == self.weight_sum,
    {
        self.weight_sum
    }

    /// Return the target density of the currently selected sample.
    pub fn selected_target_pdf(&self) -> (r: Ratio)
        ensures
            r == self.selected_target_pdf,
    {
        self.selected_target_pdf
    }
}

/// When the prior weight sum is zero and the incoming weight is positive,
/// the acceptance ratio reduces to one: numerator and denominator agree.
proof fn lemma_accept_ratio_is_one(prior: Rat, w: Rat, ws2: Rat, p: Rat)
    requires
        rat_wf(prior),
        rat_wf(w),
        rat_is_zero(prior),
        !rat_is_zero(w),
        ws2 == rat_norm(rat_add(prior, w)),
        rat_eq(p, rat_div(w, ws2)),
    ensures
        p.n == p.d,
{
    lemma_add_le(prior, w);
    lemma_norm_keeps_value(rat_add(prior, w));
    lemma_add_zero(w, prior);
    lemma_rat_eq_trans(ws2, rat_add(prior, w), w);
    assert(ws2.n * w.d == w.n * ws2.d);
    lemma_div_self_like(w, ws2);
    lemma_eq_components(p, rat_div(w, ws2));
}

/// Rescaling a weight sum by `limit / history` keeps the per-history
/// average: the clamped sum over the limit equals the old sum over the old
/// history.
proof fn lemma_clamp_preserves_average(ws: Rat, scaled: Rat, limit: int, history: int)
    requires
        rat_wf(ws),
        limit > 0,
        history > 0,
        scaled == rat_norm(rat_mul(ws, Rat { n: limit, d: history })),
    ensures
        rat_eq(scaled, rat_mul(ws, Rat { n: limit, d: history })),
        rat_eq(rat_div(scaled, rat_whole(limit)), rat_div(ws, rat_whole(history))),
{
    let exact = rat_mul(ws, Rat { n: limit, d: history });
    lemma_mul_strictly_positive(ws.d, history);
    lemma_mul_nonnegative(ws.n, limit);
    lemma_norm_keeps_value(exact);
    lemma_div_congruence(scaled, rat_whole(limit), exact, rat_whole(limit));
    lemma_scale_then_div(ws, limit, history);
    lemma_mul_strictly_positive(exact.d, limit);
    lemma_rat_eq_trans(
        rat_div(scaled, rat_whole(limit)),
        rat_div(exact, rat_whole(limit)),
        rat_div(ws, rat_whole(history)),
    );
}

} // verus!
