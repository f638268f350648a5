//! Forward propagation: from an input vector to the activation vector of
//! every layer.

use vstd::prelude::*;
use crate::errors::Error;
use crate::fixed::{
    fx_add, fx_add_spec, fx_mul, fx_mul_spec, in_cap, lemma_squash_bounds, squash, squash_spec,
    SCALE,
};
use crate::matrix::Matrix;
use crate::network::{all_in_cap, grid_wf, lemma_grid_view, prefix_array, prefixed, Mode, Network};

verus! {

/// The saturating weighted sum of the first `n` inputs of the neuron in
/// column `j`: each step adds `weight(i, j) * prev[i]`.
pub open spec fn dot_col(m: Matrix, j: int, prev: Seq<i64>, n: nat) -> int
    decreases n,
{
    if n == 0 {
        0
    } else {
        fx_add_spec(
            dot_col(m, j, prev, (n - 1) as nat),
            fx_mul_spec(m.at(n - 1, j) as int, prev[n - 1] as int),
        )
    }
}

/// A weighted sum always stays in the representable band.
pub proof fn lemma_dot_col_in_cap(m: Matrix, j: int, prev: Seq<i64>, n: nat)
    ensures
        in_cap(dot_col(m, j, prev, n)),
{
    if n == 0 {
    } else {
    }
}

/// The output of the neuron in column `j`: its weighted sum over the
/// whole previous layer, squashed unless the neuron belongs to a linear
/// output layer.
pub open spec fn neuron_value(m: Matrix, j: int, prev: Seq<i64>, linear: bool) -> int {
    if linear {
        dot_col(m, j, prev, prev.len())
    } else {
        squash_spec(dot_col(m, j, prev, prev.len()))
    }
}

/// The activation vector of one computed layer: slot 0 is the constant
/// bias activation 1.0, slot `j >= 1` the output of neuron `j`.
pub open spec fn layer_values(m: Matrix, prev: Seq<i64>, size: nat, linear: bool) -> Seq<i64> {
    Seq::new((size + 1) as nat, |j: int| if j == 0 {
        SCALE
    } else {
        (neuron_value(m, j, prev, linear) as i64)
    })
}

/// Shape and range of one computed layer: the right length, a bias slot
/// of exactly 1.0, every entry representable, and, when the layer
/// saturates, every entry inside the unit band.
pub proof fn lemma_layer_values_wf(m: Matrix, prev: Seq<i64>, size: nat, linear: bool)
    ensures
        layer_values(m, prev, size, linear).len() == size + 1,
        layer_values(m, prev, size, linear)[0] == SCALE,
        all_in_cap(layer_values(m, prev, size, linear)),
        !linear ==> forall|k: int|
            0 <= k < size + 1 ==> -SCALE <= #[trigger] layer_values(m, prev, size, linear)[k]
                <= SCALE,
{
    let lv = layer_values(m, prev, size, linear);
    assert forall|k: int| 0 <= k < lv.len() implies in_cap(#[trigger] lv[k] as int) && (!linear
        ==> -SCALE <= lv[k] <= SCALE) by {
        if k == 0 {
        } else {
            lemma_dot_col_in_cap(m, k, prev, prev.len());
            if !linear {
                lemma_squash_bounds(dot_col(m, k, prev, prev.len()));
            }
        }
    }
}

/// The activation vectors of layers `0 .. upto`, layer 0 being the
/// bias-prefixed input.
pub open spec fn activations_upto(net: Network, input: Seq<i64>, mode: Mode, upto: nat) -> Seq<
    Seq<i64>,
>
    decreases upto,
{
    if upto <= 1 {
        seq![prefixed(input)]
    } else {
        let prev = activations_upto(net, input, mode, (upto - 1) as nat);
        let linear = mode == Mode::Regression && upto - 1 == net.last_layer();
        prev.push(
            layer_values(
                net.mats@[upto - 1],
                prev.last(),
                net.sizes@[upto - 1] as nat,
                linear,
            ),
        )
    }
}

/// The activation vectors of every layer of the network.
pub open spec fn forward_spec(net: Network, input: Seq<i64>, mode: Mode) -> Seq<Seq<i64>> {
    activations_upto(net, input, mode, net.sizes@.len() as nat)
}

/// The model's prediction: the output layer's activations with the bias
/// slot dropped.
pub open spec fn compute_spec(net: Network, input: Seq<i64>, mode: Mode) -> Seq<i64> {
    let out = forward_spec(net, input, mode).last();
    out.subrange(1, out.len() as int)
}

/// How the activation grid is built, layer by layer: layer 0 is the
/// prefixed input and every later layer is computed from the one before.
pub proof fn lemma_activations_structure(net: Network, input: Seq<i64>, mode: Mode, upto: nat)
    requires
        1 <= upto,
    ensures
        activations_upto(net, input, mode, upto).len() == upto,
        activations_upto(net, input, mode, upto)[0] == prefixed(input),
        forall|l: int|
            1 <= l < upto ==> #[trigger] activations_upto(net, input, mode, upto)[l]
                == layer_values(
                net.mats@[l],
                activations_upto(net, input, mode, upto)[l - 1],
                net.sizes@[l] as nat,
                mode == Mode::Regression && l == net.last_layer(),
            ),
    decreases upto,
{
    if upto > 1 {
        lemma_activations_structure(net, input, mode, (upto - 1) as nat);
    }
}

/// The forward pass yields a well-formed grid: one vector per layer, the
/// layer's size plus bias slot each, every entry representable.
pub proof fn lemma_forward_grid_wf(net: Network, input: Seq<i64>, mode: Mode)
    requires
        net.wf(),
        input.len() == net.sizes@[0],
        all_in_cap(input),
    ensures
        grid_wf(net.sizes@, forward_spec(net, input, mode)),
        forward_spec(net, input, mode)[0] == prefixed(input),
{
    let acts = forward_spec(net, input, mode);
    lemma_activations_structure(net, input, mode, net.sizes@.len() as nat);
    assert(acts[0].len() == net.sizes@[0] + 1);
    assert forall|l: int| 0 <= l < acts.len() implies (#[trigger] acts[l]).len() == net.sizes@[l]
        + 1 && all_in_cap(acts[l]) by {
        if l == 0 {
            assert(all_in_cap(prefixed(input)));
        } else {
            lemma_layer_values_wf(
                net.mats@[l],
                acts[l - 1],
                net.sizes@[l] as nat,
                mode == Mode::Regression && l == net.last_layer(),
            );
        }
    }
}

/// Every computed activation of a layer that saturates - every hidden
/// layer, and the output layer outside regression mode - lies in the
/// unit band [-1.0, 1.0].
pub proof fn lemma_activations_saturate(net: Network, input: Seq<i64>, mode: Mode, l: int, k: int)
    requires
        net.wf(),
        1 <= l < net.sizes@.len(),
        0 <= k < forward_spec(net, input, mode)[l].len(),
        !(mode == Mode::Regression && l == net.last_layer()),
    ensures
        -SCALE <= forward_spec(net, input, mode)[l][k] <= SCALE,
{
    let acts = forward_spec(net, input, mode);
    lemma_activations_structure(net, input, mode, net.sizes@.len() as nat);
    lemma_layer_values_wf(net.mats@[l], acts[l - 1], net.sizes@[l] as nat, false);
}

/// A weighted sum reads only the matrix's width and flat contents: two
/// matrices that agree on both yield the same sums.
pub proof fn lemma_dot_col_same_weights(m1: Matrix, m2: Matrix, j: int, prev: Seq<i64>, n: nat)
    requires
        m1.cols == m2.cols,
        m1.data@ == m2.data@,
    ensures
        dot_col(m1, j, prev, n) == dot_col(m2, j, prev, n),
    decreases n,
{
    if n > 0 {
        lemma_dot_col_same_weights(m1, m2, j, prev, (n - 1) as nat);
        assert(m1.at(n - 1, j) == m2.at(n - 1, j));
    }
}

/// The forward pass reads only the topology and the weight values: two
/// networks that agree on both produce the same activations on every
/// input, in either mode.
pub proof fn lemma_forward_same_weights(n1: Network, n2: Network, input: Seq<i64>, mode: Mode, upto: nat)
    requires
        n1.wf(),
        n2.wf(),
        n1.sizes@ == n2.sizes@,
        n1.weights_view() == n2.weights_view(),
        upto <= n1.sizes@.len(),
    ensures
        activations_upto(n1, input, mode, upto) == activations_upto(n2, input, mode, upto),
    decreases upto,
{
    if upto > 1 {
        lemma_forward_same_weights(n1, n2, input, mode, (upto - 1) as nat);
        let prev = activations_upto(n1, input, mode, (upto - 1) as nat);
        let l = upto - 1;
        let linear = mode == Mode::Regression && l == n1.last_layer();
        assert(n1.weights_view()[l] == n1.mats@[l].data@);
        assert(n2.weights_view()[l] == n2.mats@[l].data@);
        let lv1 = layer_values(n1.mats@[l], prev.last(), n1.sizes@[l] as nat, linear);
        let lv2 = layer_values(n2.mats@[l], prev.last(), n2.sizes@[l] as nat, linear);
        assert forall|k: int| 0 <= k < lv1.len() implies lv1[k] == lv2[k] by {
            if k > 0 {
                lemma_dot_col_same_weights(
                    n1.mats@[l],
                    n2.mats@[l],
                    k,
                    prev.last(),
                    prev.last().len(),
                );
            }
        }
        assert(lv1 =~= lv2);
    }
}

/// Inference is a pure function of topology, weights, input and mode:
/// with the same weight store and the same arguments - in particular,
/// on two calls with no training step between them - the prediction is
/// the same.
pub proof fn lemma_compute_pure(n1: Network, n2: Network, input: Seq<i64>, mode: Mode)
    requires
        n1.wf(),
        n2.wf(),
        n1.sizes@ == n2.sizes@,
        n1.weights_view() == n2.weights_view(),
    ensures
        compute_spec(n1, input, mode) == compute_spec(n2, input, mode),
{
    lemma_forward_same_weights(n1, n2, input, mode, n1.sizes@.len() as nat);
}

impl Network {
    /// Forward propagation: computes the activation vector of every
    /// layer from the given input, which must match the input layer's
    /// size; a wrong length is refused as `DimensionMismatch`.
    pub fn propagate(&self, input: &Vec<i64>, mode: Mode) -> (r: Result<Vec<Vec<i64>>, Error>)
        requires
            self.wf(),
            all_in_cap(input@),
        ensures
            match r {
                Ok(acts) => input@.len() == self.sizes@[0] && acts.deep_view() == forward_spec(
                    *self,
                    input@,
                    mode,
                ),
                Err(e) => e == Error::DimensionMismatch && input@.len() != self.sizes@[0],
            },
    {
        if input.len() != self.sizes[0] {
            return Err(Error::DimensionMismatch);
        }
        proof {
            lemma_forward_grid_wf(*self, input@, mode);
            lemma_activations_structure(*self, input@, mode, self.sizes@.len() as nat);
        }
        let mut acts: Vec<Vec<i64>> = Vec::new();
        let layer0 = prefix_array(input);
        acts.push(layer0);
        proof {
            lemma_grid_view(acts);
            assert(acts.deep_view() =~= activations_upto(*self, input@, mode, 1));
        }
        let count = self.sizes.len();
        let mut l: usize = 1;
        while l < count
            invariant
                self.wf(),
                all_in_cap(input@),
                input@.len() == self.sizes@[0],
                count == self.sizes@.len(),
                1 <= l <= count,
                acts.deep_view() == activations_upto(*self, input@, mode, l as nat),
                acts@.len() == l,
            decreases count - l,
        {
            proof {
                lemma_activations_structure(*self, input@, mode, l as nat);
                lemma_forward_upto_wf(*self, input@, mode, l as nat);
                lemma_grid_view(acts);
            }
            let size = self.sizes[l];
            let m = &self.mats[l];
            let prev = &acts[l - 1];
            let prev_len = prev.len();
            proof {
                assert(prev@ == acts.deep_view()[l - 1]);
                assert(prev@.len() == self.sizes@[l - 1] + 1);
                assert(prev_len == m.rows);
            }
            let linear = match mode {
                Mode::Regression => l == count - 1,
                Mode::Classification => false,
            };
            let ghost glv = layer_values(*m, prev@, size as nat, linear);
            proof {
                lemma_layer_values_wf(*m, prev@, size as nat, linear);
            }
            let mut lv: Vec<i64> = Vec::new();
            lv.push(SCALE);
            let mut j: usize = 1;
            while j <= size
                invariant
                    m.wf(),
                    all_in_cap(prev@),
                    prev_len == prev@.len(),
                    prev_len == m.rows,
                    size < m.cols,
                    1 <= j <= size + 1,
                    lv@.len() == j,
                    glv == layer_values(*m, prev@, size as nat, linear),
                    glv.len() == size + 1,
                    forall|q: int| 0 <= q < j ==> lv@[q] == glv[q],
                decreases size + 1 - j,
            {
                let mut acc: i64 = 0;
                let mut i: usize = 0;
                while i < prev_len
                    invariant
                        m.wf(),
                        all_in_cap(prev@),
                        prev_len == prev@.len(),
                        prev_len == m.rows,
                        1 <= j < m.cols,
                        i <= prev_len,
                        in_cap(acc as int),
                        acc == dot_col(*m, j as int, prev@, i as nat),
                    decreases prev_len - i,
                {
                    let w = m.entry(i, j);
                    let a = prev[i];
                    acc = fx_add(acc, fx_mul(w, a));
                    i += 1;
                }
                let v = if linear {
                    acc
                } else {
                    squash(acc)
                };
                proof {
                    assert(glv[j as int] == neuron_value(*m, j as int, prev@, linear) as i64);
                    if !linear {
                        lemma_squash_bounds(dot_col(*m, j as int, prev@, prev@.len()));
                    }
                }
                lv.push(v);
                j += 1;
            }
            proof {
                assert(lv@ =~= glv);
            }
            acts.push(lv);
            l += 1;
            proof {
                lemma_grid_view(acts);
                assert(acts.deep_view() =~= activations_upto(*self, input@, mode, l as nat));
            }
        }
        Ok(acts)
    }
}

/// A prefix of the forward pass is itself a well-formed grid over the
/// first layers.
pub proof fn lemma_forward_upto_wf(net: Network, input: Seq<i64>, mode: Mode, upto: nat)
    requires
        net.wf(),
        input.len() == net.sizes@[0],
        all_in_cap(input),
        1 <= upto <= net.sizes@.len(),
    ensures
        activations_upto(net, input, mode, upto).len() == upto,
        forall|l: int|
            0 <= l < upto ==> (#[trigger] activations_upto(net, input, mode, upto)[l]).len()
                == net.sizes@[l] + 1 && all_in_cap(activations_upto(net, input, mode, upto)[l]),
    decreases upto,
{
    lemma_activations_structure(net, input, mode, upto);
    let acts = activations_upto(net, input, mode, upto);
    assert forall|l: int| 0 <= l < upto implies (#[trigger] acts[l]).len() == net.sizes@[l] + 1
        && all_in_cap(acts[l]) by {
        if l == 0 {
            assert(all_in_cap(prefixed(input)));
        } else {
            lemma_layer_values_wf(
                net.mats@[l],
                acts[l - 1],
                net.sizes@[l] as nat,
                mode == Mode::Regression && l == net.last_layer(),
            );
        }
    }
}

} // verus!
