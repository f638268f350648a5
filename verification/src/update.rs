//! The weight updater: one gradient-descent correction applied to every
//! weight of every layer transition.

use vstd::prelude::*;
use vstd::arithmetic::mul::lemma_mul_is_distributive_add_other_way;
use crate::fixed::{fx_mul, fx_mul_spec, fx_sub, fx_sub_spec, in_cap};
use crate::matrix::{lemma_flat_index, Matrix};
use crate::network::{all_in_cap, grid_wf, lemma_grid_view, Network};

verus! {

/// One corrected weight: the old value minus
/// `rate * activation(source) * delta(destination)`.
pub open spec fn updated_entry(w: int, a: int, d: int, rate: int) -> int {
    fx_sub_spec(w, fx_mul_spec(fx_mul_spec(rate, a), d))
}

/// The corrected flat contents of one matrix: entry `(i, j)` pairs the
/// source activation `prev[i]` with the destination delta `dl[j]`.
pub open spec fn updated_matrix(m: Matrix, prev: Seq<i64>, dl: Seq<i64>, rate: int) -> Seq<i64> {
    Seq::new(
        m.data@.len(),
        |k: int| (updated_entry(
            m.data@[k] as int,
            prev[k / (m.cols as int)] as int,
            dl[k % (m.cols as int)] as int,
            rate,
        ) as i64),
    )
}

/// The whole corrected weight store: every transition corrected from the
/// activations of its source layer and the deltas of its destination
/// layer; the layer-0 placeholder stays empty.
pub open spec fn updated_store(net: Network, acts: Seq<Seq<i64>>, ds: Seq<Seq<i64>>, rate: int) -> Seq<
    Seq<i64>,
> {
    Seq::new(
        net.mats@.len(),
        |l: int| if l == 0 {
            net.mats@[0].data@
        } else {
            updated_matrix(net.mats@[l], acts[l - 1], ds[l], rate)
        },
    )
}

impl Network {
    /// Applies one gradient-descent step: for every layer transition,
    /// every weight moves by `-rate * activation * delta`.
    pub fn update(&mut self, acts: &Vec<Vec<i64>>, deltas: &Vec<Vec<i64>>, rate: i64)
        requires
            old(self).wf(),
            grid_wf(old(self).sizes@, acts.deep_view()),
            grid_wf(old(self).sizes@, deltas.deep_view()),
            in_cap(rate as int),
        ensures
            final(self).wf(),
            final(self).sizes@ == old(self).sizes@,
            final(self).mats@.len() == old(self).mats@.len(),
            forall|l: int|
                0 <= l < old(self).mats@.len() ==> (#[trigger] final(self).mats@[l]).rows
                    == old(self).mats@[l].rows && final(self).mats@[l].cols
                    == old(self).mats@[l].cols,
            final(self).weights_view() == updated_store(
                *old(self),
                acts.deep_view(),
                deltas.deep_view(),
                rate as int,
            ),
    {
        proof {
            lemma_grid_view(*acts);
            lemma_grid_view(*deltas);
        }
        let count = self.sizes.len();
        let mut l: usize = 1;
        while l < count
            invariant
                old(self).wf(),
                grid_wf(old(self).sizes@, acts.deep_view()),
                grid_wf(old(self).sizes@, deltas.deep_view()),
                in_cap(rate as int),
                count == old(self).sizes@.len(),
                1 <= l <= count,
                self.sizes@ == old(self).sizes@,
                self.mats@.len() == old(self).mats@.len(),
                forall|q: int| l <= q < count ==> self.mats@[q] == old(self).mats@[q],
                self.mats@[0] == old(self).mats@[0],
                forall|q: int|
                    1 <= q < l ==> (#[trigger] self.mats@[q]).wf() && self.mats@[q].rows
                        == old(self).mats@[q].rows && self.mats@[q].cols == old(self).mats@[q].cols
                        && self.mats@[q].data@ == updated_matrix(
                        old(self).mats@[q],
                        acts.deep_view()[q - 1],
                        deltas.deep_view()[q],
                        rate as int,
                    ),
                forall|i: int| 0 <= i < acts@.len() ==> #[trigger] acts@[i]@ == acts.deep_view()[i],
                forall|i: int|
                    0 <= i < deltas@.len() ==> #[trigger] deltas@[i]@ == deltas.deep_view()[i],
                acts@.len() == count,
                deltas@.len() == count,
            decreases count - l,
        {
            let rows = self.mats[l].rows;
            let cols = self.mats[l].cols;
            let ghost gm = self.mats@[l as int];
            let prev = &acts[l - 1];
            let dl = &deltas[l];
            proof {
                assert(prev@ == acts.deep_view()[l - 1]);
                assert(dl@ == deltas.deep_view()[l as int]);
                assert(prev@.len() == old(self).sizes@[l - 1] + 1);
                assert(dl@.len() == old(self).sizes@[l as int] + 1);
                assert(rows == prev@.len());
                assert(cols == dl@.len());
            }
            let ghost gu = updated_matrix(gm, prev@, dl@, rate as int);
            let mut nd: Vec<i64> = Vec::new();
            let mut i: usize = 0;
            while i < rows
                invariant
                    in_cap(rate as int),
                    self.mats@[l as int] == gm,
                    l < self.mats@.len(),
                    gm.wf(),
                    gm.rows == rows,
                    gm.cols == cols,
                    prev@.len() == rows,
                    dl@.len() == cols,
                    all_in_cap(prev@),
                    all_in_cap(dl@),
                    i <= rows,
                    nd@.len() == i * cols,
                    gu == updated_matrix(gm, prev@, dl@, rate as int),
                    gu.len() == gm.data@.len(),
                    forall|k: int| 0 <= k < nd@.len() ==> nd@[k] == gu[k],
                decreases rows - i,
            {
                let mut j: usize = 0;
                proof {
                    assert(i * cols >= 0) by (nonlinear_arith)
                        requires
                            i >= 0,
                            cols >= 0,
                    ;
                    assert(i * cols + cols <= rows * cols) by (nonlinear_arith)
                        requires
                            0 <= i < rows,
                            0 <= cols,
                    ;
                }
                while j < cols
                    invariant
                        in_cap(rate as int),
                        self.mats@[l as int] == gm,
                        l < self.mats@.len(),
                        gm.wf(),
                        gm.rows == rows,
                        gm.cols == cols,
                        prev@.len() == rows,
                        dl@.len() == cols,
                        all_in_cap(prev@),
                        all_in_cap(dl@),
                        i < rows,
                        j <= cols,
                        nd@.len() == i * cols + j,
                        gu == updated_matrix(gm, prev@, dl@, rate as int),
                        gu.len() == gm.data@.len(),
                        gm.data@.len() == rows * cols,
                        i * cols + cols <= rows * cols,
                        forall|k: int| 0 <= k < nd@.len() ==> nd@[k] == gu[k],
                    decreases cols - j,
                {
                    let w = self.mats[l].entry(i, j);
                    let a = prev[i];
                    let d = dl[j];
                    let nw = fx_sub(w, fx_mul(fx_mul(rate, a), d));
                    proof {
                        lemma_flat_index(i as int, j as int, rows as int, cols as int);
                        assert(gu[i as int * cols as int + j as int] == updated_entry(
                            gm.data@[i as int * cols as int + j as int] as int,
                            prev@[i as int] as int,
                            dl@[j as int] as int,
                            rate as int,
                        ) as i64);
                    }
                    nd.push(nw);
                    j += 1;
                }
                proof {
                    lemma_mul_is_distributive_add_other_way(cols as int, i as int, 1);
                    assert((i + 1) * cols == i * cols + cols);
                }
                i += 1;
            }
            proof {
                assert(nd@ =~= gu);
            }
            let m_new = Matrix { rows, cols, data: nd };
            self.mats[l] = m_new;
            l += 1;
        }
        proof {
            assert(self.weights_view() =~= updated_store(
                *old(self),
                acts.deep_view(),
                deltas.deep_view(),
                rate as int,
            ));
        }
    }
}

} // verus!
