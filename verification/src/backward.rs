//! Backpropagation: from the forward activations and a target vector to
//! an error signal (delta) per neuron per layer, computed strictly
//! backward from the output layer.

use vstd::prelude::*;
use crate::errors::Error;
use crate::fixed::{
    fx_add, fx_add_spec, fx_mul, fx_mul_spec, fx_sub, fx_sub_spec, in_cap, SCALE,
};
use crate::matrix::Matrix;
use crate::network::{all_in_cap, grid_wf, lemma_grid_view, prefix_array, prefixed, Mode, Network};

verus! {

/// The saturating weighted sum of the first `n` downstream deltas seen
/// from source neuron `i`: each step adds `weight(i, j) * next[j]`. The
/// sum runs over every slot of the downstream layer, its bias slot
/// included.
pub open spec fn dot_row(m: Matrix, i: int, next: Seq<i64>, n: nat) -> int
    decreases n,
{
    if n == 0 {
        0
    } else {
        fx_add_spec(
            dot_row(m, i, next, (n - 1) as nat),
            fx_mul_spec(m.at(i, n - 1) as int, next[n - 1] as int),
        )
    }
}

/// The delta of output neuron `j`: the residual `a - t`, multiplied in
/// classification mode by the saturation derivative term `1 - a*a`.
pub open spec fn out_delta(a: int, t: int, mode: Mode) -> int {
    if mode == Mode::Regression {
        fx_sub_spec(a, t)
    } else {
        fx_mul_spec(fx_sub_spec(SCALE as int, fx_mul_spec(a, a)), fx_sub_spec(a, t))
    }
}

/// The delta of neuron `i` in a non-output layer: the derivative term
/// `1 - a*a` times the weighted sum of the downstream layer's deltas.
pub open spec fn hidden_delta(a: int, m_next: Matrix, i: int, next: Seq<i64>) -> int {
    fx_mul_spec(
        fx_sub_spec(SCALE as int, fx_mul_spec(a, a)),
        dot_row(m_next, i, next, next.len()),
    )
}

/// The delta vector of layer `l`, defined backward from the output
/// layer.
pub open spec fn delta_layer(
    net: Network,
    acts: Seq<Seq<i64>>,
    target_p: Seq<i64>,
    mode: Mode,
    l: nat,
) -> Seq<i64>
    decreases net.sizes@.len() - l,
    when l < net.sizes@.len()
{
    let last = net.sizes@.len() - 1;
    if l == last {
        Seq::new(
            (net.sizes@[last] + 1) as nat,
            |j: int| (out_delta(acts[last][j] as int, target_p[j] as int, mode) as i64),
        )
    } else {
        let next = delta_layer(net, acts, target_p, mode, (l + 1) as nat);
        Seq::new(
            (net.sizes@[l as int] + 1) as nat,
            |i: int| (hidden_delta(acts[l as int][i] as int, net.mats@[l as int + 1], i, next)
                as i64),
        )
    }
}

/// The delta vectors of every layer.
pub open spec fn deltas_spec(net: Network, acts: Seq<Seq<i64>>, target_p: Seq<i64>, mode: Mode) -> Seq<
    Seq<i64>,
> {
    Seq::new(net.sizes@.len() as nat, |l: int| delta_layer(net, acts, target_p, mode, l as nat))
}

/// Shape and range of one delta vector: the layer's size plus its bias
/// slot, every entry representable.
pub proof fn lemma_delta_layer_wf(
    net: Network,
    acts: Seq<Seq<i64>>,
    target_p: Seq<i64>,
    mode: Mode,
    l: nat,
)
    requires
        l < net.sizes@.len(),
    ensures
        delta_layer(net, acts, target_p, mode, l).len() == net.sizes@[l as int] + 1,
        all_in_cap(delta_layer(net, acts, target_p, mode, l)),
{
    let dv = delta_layer(net, acts, target_p, mode, l);
    let last = net.sizes@.len() - 1;
    assert forall|k: int| 0 <= k < dv.len() implies in_cap(#[trigger] dv[k] as int) by {
        if l == last {
            assert(dv[k] == out_delta(acts[last][k] as int, target_p[k] as int, mode) as i64);
        } else {
            let next = delta_layer(net, acts, target_p, mode, (l + 1) as nat);
            assert(dv[k] == hidden_delta(acts[l as int][k] as int, net.mats@[l as int + 1], k,
            next) as i64);
        }
    }
}

/// A bias slot's delta is exactly zero, even in fixed point: its
/// activation is exactly 1.0, so the derivative term `1 - a*a` vanishes
/// at the output layer and at every layer below it, and at the output
/// layer the residual against the target's bias prefix vanishes too.
/// Bias deltas are computed only to keep shapes aligned; a zero delta is
/// why gradient descent never moves a bias column's incoming weights.
pub proof fn lemma_bias_deltas_vanish(
    net: Network,
    acts: Seq<Seq<i64>>,
    target_p: Seq<i64>,
    mode: Mode,
    l: int,
)
    requires
        0 <= l < net.sizes@.len(),
        acts[l][0] == SCALE,
        target_p[0] == SCALE,
    ensures
        delta_layer(net, acts, target_p, mode, l as nat)[0] == 0,
{
    let s = SCALE as int;
    assert((s * s) / s == s) by (nonlinear_arith)
        requires
            s == 65536,
    ;
    assert(fx_mul_spec(s, s) == s);
    assert(fx_sub_spec(s, fx_mul_spec(s, s)) == 0);
    let last = net.sizes@.len() - 1;
    if l == last {
        assert(delta_layer(net, acts, target_p, mode, l as nat)[0] == out_delta(
            s,
            s,
            mode,
        ) as i64);
        assert(fx_sub_spec(s, s) == 0);
        assert(0 * 0 == 0) by (nonlinear_arith);
        assert(out_delta(s, s, mode) == 0);
    } else {
        let next = delta_layer(net, acts, target_p, mode, (l + 1) as nat);
        assert(delta_layer(net, acts, target_p, mode, l as nat)[0] == hidden_delta(
            s,
            net.mats@[l + 1],
            0,
            next,
        ) as i64);
        let rhs = dot_row(net.mats@[l + 1], 0, next, next.len());
        assert(0 * rhs == 0) by (nonlinear_arith);
        assert(hidden_delta(s, net.mats@[l + 1], 0, next) == 0);
    }
}

/// The whole delta grid is well formed over the topology.
pub proof fn lemma_deltas_grid_wf(net: Network, acts: Seq<Seq<i64>>, target_p: Seq<i64>, mode: Mode)
    requires
        net.sizes@.len() >= 1,
    ensures
        grid_wf(net.sizes@, deltas_spec(net, acts, target_p, mode)),
{
    let ds = deltas_spec(net, acts, target_p, mode);
    assert forall|l: int| 0 <= l < ds.len() implies (#[trigger] ds[l]).len() == net.sizes@[l] + 1
        && all_in_cap(ds[l]) by {
        lemma_delta_layer_wf(net, acts, target_p, mode, l as nat);
    }
}

impl Network {
    /// Backpropagation: computes every layer's delta vector from the
    /// forward activations and a target vector, which must match the
    /// output layer's size; a wrong length is refused as
    /// `DimensionMismatch`.
    pub fn backpropagate(&self, acts: &Vec<Vec<i64>>, target: &Vec<i64>, mode: Mode) -> (r: Result<
        Vec<Vec<i64>>,
        Error,
    >)
        requires
            self.wf(),
            grid_wf(self.sizes@, acts.deep_view()),
            all_in_cap(target@),
        ensures
            match r {
                Ok(ds) => target@.len() == self.sizes@[self.last_layer()] && ds.deep_view()
                    == deltas_spec(*self, acts.deep_view(), prefixed(target@), mode),
                Err(e) => e == Error::DimensionMismatch && target@.len() != self.sizes@[
                    self.last_layer()
                ],
            },
    {
        let count = self.sizes.len();
        let last = count - 1;
        if target.len() != self.sizes[last] {
            return Err(Error::DimensionMismatch);
        }
        let tp = prefix_array(target);
        let ghost gacts = acts.deep_view();
        let ghost gtp = tp@;
        proof {
            lemma_grid_view(*acts);
            assert(all_in_cap(gtp));
        }

        // Output layer.
        let size_last = self.sizes[last];
        let outv = &acts[last];
        proof {
            assert(outv@ == gacts[last as int]);
            assert(outv@.len() == size_last + 1);
        }
        let ghost glast = delta_layer(*self, gacts, gtp, mode, last as nat);
        let mut lv: Vec<i64> = Vec::new();
        let mut j: usize = 0;
        while j <= size_last
            invariant
                self.wf(),
                j <= size_last + 1,
                size_last <= 4096,
                lv@.len() == j,
                outv@.len() == size_last + 1,
                tp@ == gtp,
                gtp.len() == size_last + 1,
                all_in_cap(outv@),
                all_in_cap(gtp),
                glast == delta_layer(*self, gacts, gtp, mode, last as nat),
                glast.len() == size_last + 1,
                outv@ == gacts[last as int],
                last == self.sizes@.len() - 1,
                self.sizes@[last as int] == size_last,
                forall|q: int| 0 <= q < j ==> lv@[q] == glast[q],
            decreases size_last + 1 - j,
        {
            let a = outv[j];
            let t = tp[j];
            let d = match mode {
                Mode::Regression => fx_sub(a, t),
                Mode::Classification => fx_mul(fx_sub(SCALE, fx_mul(a, a)), fx_sub(a, t)),
            };
            proof {
                assert(glast[j as int] == out_delta(gacts[last as int][j as int] as int, gtp[
                    j as int] as int, mode) as i64);
            }
            lv.push(d);
            j += 1;
        }
        proof {
            assert(lv@ =~= glast);
        }

        let mut ds: Vec<Vec<i64>> = Vec::new();
        ds.push(lv);

        // Non-output layers, strictly backward.
        let mut l: usize = last;
        while l > 0
            invariant
                self.wf(),
                grid_wf(self.sizes@, gacts),
                gacts == acts.deep_view(),
                count == self.sizes@.len(),
                last == count - 1,
                l <= last,
                ds@.len() == count - l,
                forall|k: int|
                    0 <= k < ds@.len() ==> #[trigger] ds@[k]@ == delta_layer(
                        *self,
                        gacts,
                        gtp,
                        mode,
                        (l + k) as nat,
                    ),
            decreases l,
        {
            l -= 1;
            let size_l = self.sizes[l];
            let m = &self.mats[l + 1];
            let next = &ds[0];
            let ghost gnext = delta_layer(*self, gacts, gtp, mode, (l + 1) as nat);
            proof {
                assert(next@ == ds@[0]@);
                assert(ds@[0]@ == gnext);
                lemma_delta_layer_wf(*self, gacts, gtp, mode, (l + 1) as nat);
                assert(gnext.len() == self.sizes@[l + 1] + 1);
            }
            let next_len = next.len();
            let av = &acts[l];
            proof {
                assert(av@ == gacts[l as int]);
                assert(av@.len() == size_l + 1);
            }
            let ghost ghid = delta_layer(*self, gacts, gtp, mode, l as nat);
            proof {
                assert(ghid == Seq::new(
                    (size_l + 1) as nat,
                    |i: int| (hidden_delta(gacts[l as int][i] as int, self.mats@[l + 1], i, gnext)
                        as i64),
                ));
            }
            let mut lv: Vec<i64> = Vec::new();
            let mut i: usize = 0;
            while i <= size_l
                invariant
                    m.wf(),
                    m == self.mats@[l + 1],
                    m.rows == size_l + 1,
                    m.cols == next_len,
                    i <= size_l + 1,
                    lv@.len() == i,
                    av@.len() == size_l + 1,
                    all_in_cap(av@),
                    next_len == next@.len(),
                    next@ == gnext,
                    all_in_cap(gnext),
                    ghid == delta_layer(*self, gacts, gtp, mode, l as nat),
                    ghid.len() == size_l + 1,
                    av@ == gacts[l as int],
                    l < self.sizes@.len() - 1,
                    ghid == Seq::new(
                        (size_l + 1) as nat,
                        |q: int| (hidden_delta(gacts[l as int][q] as int, self.mats@[l + 1], q,
                        gnext) as i64),
                    ),
                    forall|q: int| 0 <= q < i ==> lv@[q] == ghid[q],
                decreases size_l + 1 - i,
            {
                let a = av[i];
                let lhs = fx_sub(SCALE, fx_mul(a, a));
                let mut acc: i64 = 0;
                let mut jj: usize = 0;
                while jj < next_len
                    invariant
                        m.wf(),
                        m.cols == next_len,
                        i < m.rows,
                        jj <= next_len,
                        next_len == next@.len(),
                        all_in_cap(next@),
                        in_cap(acc as int),
                        acc == dot_row(*m, i as int, next@, jj as nat),
                    decreases next_len - jj,
                {
                    let w = m.entry(i, jj);
                    let dnext = next[jj];
                    acc = fx_add(acc, fx_mul(w, dnext));
                    jj += 1;
                }
                let d = fx_mul(lhs, acc);
                proof {
                    assert(ghid[i as int] == hidden_delta(gacts[l as int][i as int] as int,
                    self.mats@[l + 1], i as int, gnext) as i64);
                }
                lv.push(d);
                i += 1;
            }
            proof {
                assert(lv@ =~= ghid);
            }
            let ghost pre = ds@;
            ds.insert(0, lv);
            proof {
                pre.insert_ensures(0, lv);
                assert forall|k: int| 0 <= k < ds@.len() implies #[trigger] ds@[k]@ == delta_layer(
                    *self,
                    gacts,
                    gtp,
                    mode,
                    (l + k) as nat,
                ) by {
                    if k == 0 {
                        assert(ds@[0] == lv);
                    } else {
                        assert(ds@[k] == pre[k - 1]);
                        assert(pre[k - 1]@ == delta_layer(*self, gacts, gtp, mode, (l + k) as nat));
                    }
                }
            }
        }
        proof {
            lemma_grid_view(ds);
            assert forall|k: int| 0 <= k < count implies ds.deep_view()[k] == deltas_spec(
                *self,
                gacts,
                gtp,
                mode,
            )[k] by {
                assert(ds.deep_view()[k] == ds@[k]@);
                assert(ds@[k]@ == delta_layer(*self, gacts, gtp, mode, k as nat));
            }
            assert(ds.deep_view() =~= deltas_spec(*self, gacts, gtp, mode));
            assert(gtp == prefixed(target@));
        }
        Ok(ds)
    }
}

} // verus!
