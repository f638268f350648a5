//! The training and inference orchestrator: one training step sequences
//! forward propagation, backpropagation and the weight update as a
//! single atomic step; inference runs forward propagation alone.

use vstd::prelude::*;
use crate::backward::{deltas_spec, lemma_bias_deltas_vanish, lemma_deltas_grid_wf};
use crate::errors::Error;
use crate::fixed::{fx_mul_spec, fx_sub_spec, in_cap, SCALE};
use crate::forward::{compute_spec, forward_spec, lemma_activations_structure,
    lemma_forward_grid_wf};
use crate::matrix::lemma_flat_index;
use crate::network::{all_in_cap, grid_wf, lemma_grid_view, prefixed, Mode, Network};
use crate::update::{updated_entry, updated_store};

verus! {

/// The gradient-descent step size used by `train`: 0.1 in fixed point.
pub const LEARNING_RATE: i64 = 6554;

/// The whole weight store after one training step on one sample: the
/// store corrected from the forward activations and the backward deltas
/// of that sample.
pub open spec fn train_spec(
    net: Network,
    input: Seq<i64>,
    target: Seq<i64>,
    mode: Mode,
    rate: int,
) -> Seq<Seq<i64>> {
    let acts = forward_spec(net, input, mode);
    let ds = deltas_spec(net, acts, prefixed(target), mode);
    updated_store(net, acts, ds, rate)
}

/// A training step leaves every bias column's incoming weights exactly
/// as they were: the bias slot's activation is pinned at 1.0, its delta
/// is exactly zero, so the gradient correction of weight `(l, i, 0)`
/// vanishes - in fixed point as in the real numbers.
pub proof fn lemma_bias_columns_fixed(
    net: Network,
    input: Seq<i64>,
    target: Seq<i64>,
    mode: Mode,
    rate: int,
    l: int,
    i: int,
)
    requires
        net.wf(),
        1 <= l < net.sizes@.len(),
        0 <= i < net.mats@[l].rows,
    ensures
        train_spec(net, input, target, mode, rate)[l][i * (net.mats@[l].cols as int)]
            == net.mats@[l].data@[i * (net.mats@[l].cols as int)],
{
    let acts = forward_spec(net, input, mode);
    let tp = prefixed(target);
    let ds = deltas_spec(net, acts, tp, mode);
    let m = net.mats@[l];
    let cols = m.cols as int;
    let k = i * cols;
    lemma_activations_structure(net, input, mode, net.sizes@.len() as nat);
    assert(acts[l][0] == SCALE);
    assert(tp[0] == SCALE);
    lemma_bias_deltas_vanish(net, acts, tp, mode, l);
    assert(ds[l][0] == 0);
    lemma_flat_index(i, 0, m.rows as int, cols);
    assert(train_spec(net, input, target, mode, rate)[l] == updated_matrix_at(net, acts, ds, rate, l));
    let w = m.data@[k] as int;
    let a = acts[l - 1][i] as int;
    assert(updated_matrix_at(net, acts, ds, rate, l)[k] == updated_entry(w, a, 0, rate) as i64);
    let u = fx_mul_spec(rate, a);
    assert(u * 0 == 0) by (nonlinear_arith);
    assert(0int / (SCALE as int) == 0) by (nonlinear_arith)
        requires
            SCALE == 65536,
    ;
    assert(fx_mul_spec(u, 0) == 0);
    assert(in_cap(w));
    assert(fx_sub_spec(w, 0) == w);
}

/// The corrected contents of one transition of the store, as `train`
/// leaves them.
pub open spec fn updated_matrix_at(
    net: Network,
    acts: Seq<Seq<i64>>,
    ds: Seq<Seq<i64>>,
    rate: int,
    l: int,
) -> Seq<i64> {
    crate::update::updated_matrix(net.mats@[l], acts[l - 1], ds[l], rate)
}

impl Network {
    /// One stochastic-gradient step on one sample: forward pass, delta
    /// computation, weight update, as one atomic call. A dimension
    /// mismatch of `input` or `target` is refused as `DimensionMismatch`
    /// and leaves the weight store untouched.
    pub fn train(&mut self, input: &Vec<i64>, target: &Vec<i64>, mode: Mode) -> (r: Result<
        (),
        Error,
    >)
        requires
            old(self).wf(),
            all_in_cap(input@),
            all_in_cap(target@),
        ensures
            final(self).wf(),
            final(self).sizes@ == old(self).sizes@,
            final(self).mats@.len() == old(self).mats@.len(),
            forall|l: int|
                0 <= l < old(self).mats@.len() ==> (#[trigger] final(self).mats@[l]).rows
                    == old(self).mats@[l].rows && final(self).mats@[l].cols
                    == old(self).mats@[l].cols,
            match r {
                Ok(()) => {
                    &&& input@.len() == old(self).sizes@[0]
                    &&& target@.len() == old(self).sizes@[old(self).last_layer()]
                    &&& final(self).weights_view() == train_spec(
                        *old(self),
                        input@,
                        target@,
                        mode,
                        LEARNING_RATE as int,
                    )
                },
                Err(e) => {
                    &&& e == Error::DimensionMismatch
                    &&& (input@.len() != old(self).sizes@[0] || target@.len() != old(self).sizes@[
                        old(self).last_layer()
                    ])
                    &&& final(self).weights_view() == old(self).weights_view()
                },
            },
    {
        let acts = match self.propagate(input, mode) {
            Ok(a) => a,
            Err(e) => {
                return Err(e);
            },
        };
        proof {
            lemma_forward_grid_wf(*self, input@, mode);
        }
        let ds = match self.backpropagate(&acts, target, mode) {
            Ok(d) => d,
            Err(e) => {
                return Err(e);
            },
        };
        proof {
            lemma_deltas_grid_wf(*self, acts.deep_view(), prefixed(target@), mode);
        }
        self.update(&acts, &ds, LEARNING_RATE);
        Ok(())
    }

    /// Inference: the output layer's activations for `input`, bias slot
    /// dropped. The weight store is read, never written; the result is a
    /// function of topology, weights, input and mode alone.
    pub fn compute(&self, input: &Vec<i64>, mode: Mode) -> (r: Result<Vec<i64>, Error>)
        requires
            self.wf(),
            all_in_cap(input@),
        ensures
            match r {
                Ok(out) => {
                    &&& input@.len() == self.sizes@[0]
                    &&& out@ == compute_spec(*self, input@, mode)
                    &&& out@.len() == self.sizes@[self.last_layer()]
                },
                Err(e) => e == Error::DimensionMismatch && input@.len() != self.sizes@[0],
            },
    {
        let acts = match self.propagate(input, mode) {
            Ok(a) => a,
            Err(e) => {
                return Err(e);
            },
        };
        proof {
            lemma_forward_grid_wf(*self, input@, mode);
            lemma_grid_view(acts);
        }
        let last_v = &acts[acts.len() - 1];
        proof {
            assert(last_v@ == acts.deep_view()[self.last_layer()]);
            assert(last_v@.len() == self.sizes@[self.last_layer()] + 1);
            assert(acts.deep_view().len() == self.sizes@.len());
            assert(last_v@ == forward_spec(*self, input@, mode).last());
        }
        let n = last_v.len();
        let mut out: Vec<i64> = Vec::new();
        let mut k: usize = 1;
        while k < n
            invariant
                1 <= k <= n,
                n == last_v@.len(),
                out@.len() == k - 1,
                forall|q: int| 0 <= q < k - 1 ==> out@[q] == last_v@[q + 1],
            decreases n - k,
        {
            out.push(last_v[k]);
            k += 1;
        }
        proof {
            assert forall|q: int| 0 <= q < out@.len() implies out@[q] == compute_spec(
                *self,
                input@,
                mode,
            )[q] by {
                assert(out@[q] == last_v@[q + 1]);
            }
            assert(out@ =~= compute_spec(*self, input@, mode));
        }
        Ok(out)
    }
}

} // verus!
