//! The network itself: an immutable topology plus its weight store, one
//! dense matrix per layer transition.

use vstd::prelude::*;
use crate::errors::Error;
use crate::fixed::{in_cap, CAP, SCALE};
use crate::matrix::Matrix;
use crate::random::RandomSource;

verus! {

/// Classification saturates the output layer; regression leaves it linear.
/// Hidden layers always saturate.
#[derive(Clone, Copy, Debug, PartialEq, Eq, Structural)]
pub enum Mode {
    Classification,
    Regression,
}

/// Largest accepted neuron count per layer, so that every matrix shape
/// and flat index fits the machine's word.
pub const MAX_LAYER_SIZE: usize = 4096;

/// Raw lower bound of the initial weight draw: -0.9 in fixed point,
/// rounded toward zero.
pub const WEIGHT_MIN: i64 = -58982;

/// Raw upper bound of the initial weight draw: 1.1 in fixed point,
/// rounded toward zero. The asymmetry of the range around zero is a
/// deliberate property of the initializer.
pub const WEIGHT_MAX: i64 = 72089;

/// A topology is valid when it has an input and an output layer and
/// every layer holds at least one, at most `MAX_LAYER_SIZE`, neurons.
pub open spec fn valid_topology(sizes: Seq<usize>) -> bool {
    &&& sizes.len() >= 2
    &&& forall|l: int| 0 <= l < sizes.len() ==> 1 <= #[trigger] sizes[l] <= MAX_LAYER_SIZE
}

/// An input vector prefixed with the constant bias activation 1.0.
pub open spec fn prefixed(v: Seq<i64>) -> Seq<i64> {
    seq![SCALE].add(v)
}

/// Whether every entry of a vector is a representable fixed-point value.
pub open spec fn all_in_cap(v: Seq<i64>) -> bool {
    forall|k: int| 0 <= k < v.len() ==> in_cap(#[trigger] v[k] as int)
}

/// A per-layer grid (activations or deltas): one vector per layer, each
/// of the layer's size plus its bias slot, every entry representable.
pub open spec fn grid_wf(sizes: Seq<usize>, g: Seq<Seq<i64>>) -> bool {
    &&& g.len() == sizes.len()
    &&& forall|l: int| 0 <= l < g.len() ==> (#[trigger] g[l]).len() == sizes[l] + 1
    &&& forall|l: int| 0 <= l < g.len() ==> all_in_cap(#[trigger] g[l])
}

/// The deep view of a vector of layer vectors is, entry for entry, the
/// view of each layer vector.
pub proof fn lemma_grid_view(v: Vec<Vec<i64>>)
    ensures
        v.deep_view().len() == v@.len(),
        forall|i: int| 0 <= i < v@.len() ==> #[trigger] v.deep_view()[i] == v@[i]@,
{
    assert forall|i: int| 0 <= i < v@.len() implies #[trigger] v.deep_view()[i] == v@[i]@ by {
        assert(v.deep_view()[i] =~= v@[i]@);
    }
}

/// One multi-layer perceptron: the layer sizes fixed at creation, and
/// the weight matrix of every layer transition. `mats[0]` is the 0-by-0
/// placeholder that keeps layer and matrix indices aligned.
#[derive(Debug)]
pub struct Network {
    pub sizes: Vec<usize>,
    pub mats: Vec<Matrix>,
}

impl Network {
    /// The structural invariant: a valid topology, one matrix per layer,
    /// and every matrix shaped by its two adjacent layers plus bias.
    pub open spec fn wf(self) -> bool {
        &&& valid_topology(self.sizes@)
        &&& self.mats@.len() == self.sizes@.len()
        &&& self.mats@[0].wf()
        &&& self.mats@[0].rows == 0
        &&& self.mats@[0].cols == 0
        &&& forall|l: int|
            1 <= l < self.mats@.len() ==> (#[trigger] self.mats@[l]).wf()
                && self.mats@[l].rows == self.sizes@[l - 1] + 1
                && self.mats@[l].cols == self.sizes@[l] + 1
    }

    /// The whole weight store as one mathematical value: per layer, the
    /// flat row-major contents of its matrix.
    pub open spec fn weights_view(self) -> Seq<Seq<i64>> {
        Seq::new(self.mats@.len(), |l: int| self.mats@[l].data@)
    }

    /// Index of the output layer.
    pub open spec fn last_layer(self) -> int {
        self.sizes@.len() - 1
    }

    /// How many layers the network has.
    pub fn layer_count(&self) -> (n: usize)
        ensures
            n == self.sizes@.len(),
    {
        self.sizes.len()
    }

    /// The neuron count of one layer, bias unit excluded.
    pub fn layer_size(&self, layer: usize) -> (r: Result<usize, Error>)
        ensures
            match r {
                Ok(n) => layer < self.sizes@.len() && n == self.sizes@[layer as int],
                Err(e) => e == Error::IndexOutOfBounds && layer >= self.sizes@.len(),
            },
    {
        if layer < self.sizes.len() {
            Ok(self.sizes[layer])
        } else {
            Err(Error::IndexOutOfBounds)
        }
    }

    /// Allocates a network for `topology`, every weight drawn
    /// independently and uniformly from the fixed-point form of
    /// [-0.9, 1.1].
    pub fn create(topology: &Vec<usize>, rng: &mut RandomSource) -> (r: Result<Network, Error>)
        ensures
            match r {
                Ok(net) => {
                    &&& valid_topology(topology@)
                    &&& net.wf()
                    &&& net.sizes@ == topology@
                    &&& forall|l: int, k: int|
                        1 <= l < net.mats@.len() && 0 <= k < (#[trigger] net.mats@[l]).data@.len()
                            ==> WEIGHT_MIN <= #[trigger] net.mats@[l].data@[k] <= WEIGHT_MAX
                },
                Err(e) => e == Error::InvalidTopology && !valid_topology(topology@),
            },
    {
        if !validate_topology(topology) {
            return Err(Error::InvalidTopology);
        }
        let mut sizes: Vec<usize> = Vec::new();
        let mut s: usize = 0;
        while s < topology.len()
            invariant
                s <= topology.len(),
                sizes@ =~= topology@.subrange(0, s as int),
            decreases topology.len() - s,
        {
            sizes.push(topology[s]);
            s += 1;
        }
        proof {
            assert(sizes@ =~= topology@);
        }
        let mut mats: Vec<Matrix> = Vec::new();
        mats.push(Matrix::empty());
        let mut l: usize = 1;
        while l < topology.len()
            invariant
                valid_topology(topology@),
                1 <= l <= topology.len(),
                mats@.len() == l,
                mats@[0].wf(),
                mats@[0].rows == 0,
                mats@[0].cols == 0,
                forall|q: int|
                    1 <= q < l ==> (#[trigger] mats@[q]).wf()
                        && mats@[q].rows == topology@[q - 1] + 1
                        && mats@[q].cols == topology@[q] + 1,
                forall|q: int, k: int|
                    1 <= q < l && 0 <= k < (#[trigger] mats@[q]).data@.len()
                        ==> WEIGHT_MIN <= #[trigger] mats@[q].data@[k] <= WEIGHT_MAX,
            decreases topology.len() - l,
        {
            let rows: usize = topology[l - 1] + 1;
            let cols: usize = topology[l] + 1;
            proof {
                assert(rows * cols <= 0x1001_0000) by (nonlinear_arith)
                    requires
                        rows <= 4097,
                        cols <= 4097,
                ;
            }
            let n: usize = rows * cols;
            let mut data: Vec<i64> = Vec::new();
            let mut k: usize = 0;
            while k < n
                invariant
                    k <= n,
                    data@.len() == k,
                    forall|q: int|
                        0 <= q < k ==> WEIGHT_MIN <= #[trigger] data@[q] <= WEIGHT_MAX,
                decreases n - k,
            {
                data.push(rng.draw(WEIGHT_MIN, WEIGHT_MAX));
                k += 1;
            }
            let m = Matrix { rows, cols, data };
            proof {
                assert(m.wf());
            }
            mats.push(m);
            l += 1;
        }
        Ok(Network { sizes, mats })
    }

    /// Bounds-checked read of one weight; `IndexOutOfBounds` exactly when
    /// the layer or the position misses the allocated store.
    pub fn get(&self, layer: usize, i: usize, j: usize) -> (r: Result<i64, Error>)
        requires
            self.wf(),
        ensures
            match r {
                Ok(v) => {
                    &&& layer < self.mats@.len()
                    &&& i < self.mats@[layer as int].rows
                    &&& j < self.mats@[layer as int].cols
                    &&& v == self.mats@[layer as int].at(i as int, j as int)
                },
                Err(e) => e == Error::IndexOutOfBounds && (layer >= self.mats@.len() || i
                    >= self.mats@[layer as int].rows || j >= self.mats@[layer as int].cols),
            },
    {
        if layer >= self.mats.len() {
            return Err(Error::IndexOutOfBounds);
        }
        self.mats[layer].get(i, j)
    }

    /// Bounds-checked write of one weight; the rest of the store is kept
    /// as it was.
    pub fn set(&mut self, layer: usize, i: usize, j: usize, value: i64) -> (r: Result<(), Error>)
        requires
            old(self).wf(),
            in_cap(value as int),
        ensures
            final(self).wf(),
            final(self).sizes@ == old(self).sizes@,
            final(self).mats@.len() == old(self).mats@.len(),
            forall|l: int|
                0 <= l < old(self).mats@.len() ==> (#[trigger] final(self).mats@[l]).rows
                    == old(self).mats@[l].rows && final(self).mats@[l].cols
                    == old(self).mats@[l].cols,
            match r {
                Ok(()) => {
                    &&& layer < old(self).mats@.len()
                    &&& i < old(self).mats@[layer as int].rows
                    &&& j < old(self).mats@[layer as int].cols
                    &&& final(self).weights_view() == old(self).weights_view().update(
                        layer as int,
                        old(self).mats@[layer as int].data@.update(
                            i * old(self).mats@[layer as int].cols + j,
                            value,
                        ),
                    )
                },
                Err(e) => {
                    &&& e == Error::IndexOutOfBounds
                    &&& (layer >= old(self).mats@.len() || i >= old(self).mats@[layer as int].rows
                        || j >= old(self).mats@[layer as int].cols)
                    &&& final(self).weights_view() == old(self).weights_view()
                },
            },
    {
        if layer >= self.mats.len() {
            return Err(Error::IndexOutOfBounds);
        }
        let r = self.mats[layer].put(i, j, value);
        match r {
            Ok(()) => {
                proof {
                    assert(self.weights_view() =~= old(self).weights_view().update(
                        layer as int,
                        old(self).mats@[layer as int].data@.update(
                            i * old(self).mats@[layer as int].cols + j,
                            value,
                        ),
                    ));
                }
                Ok(())
            },
            Err(e) => {
                proof {
                    assert(self.weights_view() =~= old(self).weights_view());
                }
                Err(e)
            },
        }
    }
}

/// Whether a requested topology can be built.
pub fn validate_topology(topology: &Vec<usize>) -> (ok: bool)
    ensures
        ok == valid_topology(topology@),
{
    if topology.len() < 2 {
        return false;
    }
    let mut l: usize = 0;
    while l < topology.len()
        invariant
            l <= topology.len(),
            topology.len() >= 2,
            forall|q: int| 0 <= q < l ==> 1 <= #[trigger] topology@[q] <= MAX_LAYER_SIZE,
        decreases topology.len() - l,
    {
        if topology[l] < 1 || topology[l] > MAX_LAYER_SIZE {
            return false;
        }
        l += 1;
    }
    true
}

/// Prefixes a raw vector with the constant bias activation 1.0.
pub fn prefix_array(values: &Vec<i64>) -> (r: Vec<i64>)
    ensures
        r@ == prefixed(values@),
{
    let mut r: Vec<i64> = Vec::new();
    r.push(SCALE);
    let mut k: usize = 0;
    while k < values.len()
        invariant
            k <= values.len(),
            r@.len() == k + 1,
            r@[0] == SCALE,
            forall|q: int| 0 <= q < k ==> r@[q + 1] == #[trigger] values@[q],
        decreases values.len() - k,
    {
        r.push(values[k]);
        k += 1;
    }
    proof {
        assert forall|q: int| 0 <= q < r@.len() implies r@[q] == prefixed(values@)[q] by {
            if q >= 1 {
                assert(r@[(q - 1) + 1] == values@[q - 1]);
            }
        }
        assert(r@ =~= prefixed(values@));
    }
    r
}

} // verus!
