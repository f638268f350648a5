//! Explicit model lifetime: a pool of handles, each owning one network.
//! A handle is created once, used while live, and destroyed explicitly;
//! any use of a destroyed or never-created handle is the defined error
//! `UseAfterDestroy`, never undefined behaviour.

use vstd::prelude::*;
use crate::errors::Error;
use crate::network::{all_in_cap, valid_topology, Mode, Network};
use crate::orchestrator::{train_spec, LEARNING_RATE};
use crate::forward::compute_spec;
use crate::random::RandomSource;

verus! {

/// Whether a slot's network, if any, is well formed.
pub open spec fn slot_wf(s: Option<Network>) -> bool {
    match s {
        Some(net) => net.wf(),
        None => true,
    }
}

/// A pool of model handles. A handle is an index into the slot vector;
/// a destroyed handle keeps its slot, emptied, so handles are never
/// reused.
pub struct ModelPool {
    pub slots: Vec<Option<Network>>,
}

impl ModelPool {
    /// Every live slot holds a well-formed network.
    pub open spec fn wf(self) -> bool {
        forall|h: int| 0 <= h < self.slots@.len() ==> slot_wf(#[trigger] self.slots@[h])
    }

    /// The slot behind a handle.
    pub open spec fn slot(self, h: int) -> Option<Network> {
        self.slots@[h]
    }

    /// Whether a handle is live: created, and not yet destroyed.
    pub open spec fn live(self, h: int) -> bool {
        0 <= h < self.slots@.len() && self.slots@[h] is Some
    }

    /// An empty pool.
    pub fn new() -> (p: ModelPool)
        ensures
            p.wf(),
            p.slots@.len() == 0,
    {
        ModelPool { slots: Vec::new() }
    }

    /// How many handles were ever created.
    pub fn handle_count(&self) -> (n: usize)
        ensures
            n == self.slots@.len(),
    {
        self.slots.len()
    }

    /// Allocates a new model for `topology`, its weights drawn from the
    /// stream seeded with `seed`, and hands back its handle.
    pub fn create(&mut self, topology: &Vec<usize>, seed: u64) -> (r: Result<usize, Error>)
        requires
            old(self).wf(),
        ensures
            final(self).wf(),
            match r {
                Ok(h) => {
                    &&& valid_topology(topology@)
                    &&& h == old(self).slots@.len()
                    &&& final(self).slots@.len() == old(self).slots@.len() + 1
                    &&& forall|q: int|
                        0 <= q < old(self).slots@.len() ==> #[trigger] final(self).slots@[q] == old(
                            self,
                        ).slots@[q]
                    &&& final(self).live(h as int)
                    &&& (final(self).slot(h as int) matches Some(net) && net.sizes@ == topology@)
                },
                Err(e) => {
                    &&& e == Error::InvalidTopology
                    &&& !valid_topology(topology@)
                    &&& final(self).slots@ == old(self).slots@
                },
            },
    {
        let mut rng = RandomSource::from_seed(seed);
        match Network::create(topology, &mut rng) {
            Ok(net) => {
                let h = self.slots.len();
                self.slots.push(Some(net));
                Ok(h)
            },
            Err(e) => Err(e),
        }
    }

    /// Destroys a handle, releasing its network; destroying a dead
    /// handle reports `UseAfterDestroy`.
    pub fn destroy(&mut self, handle: usize) -> (r: Result<(), Error>)
        requires
            old(self).wf(),
        ensures
            final(self).wf(),
            final(self).slots@.len() == old(self).slots@.len(),
            match r {
                Ok(()) => old(self).live(handle as int) && final(self).slots@ == old(
                    self,
                ).slots@.update(handle as int, None::<Network>),
                Err(e) => {
                    &&& e == Error::UseAfterDestroy
                    &&& !old(self).live(handle as int)
                    &&& final(self).slots@ == old(self).slots@
                },
            },
    {
        if handle >= self.slots.len() {
            return Err(Error::UseAfterDestroy);
        }
        if self.slots[handle].is_some() {
            self.slots[handle] = None;
            Ok(())
        } else {
            proof {
                assert(self.slots@ =~= old(self).slots@);
            }
            Err(Error::UseAfterDestroy)
        }
    }

    /// One training step on the model behind a live handle.
    pub fn train(&mut self, handle: usize, input: &Vec<i64>, target: &Vec<i64>, mode: Mode) -> (r:
        Result<(), Error>)
        requires
            old(self).wf(),
            all_in_cap(input@),
            all_in_cap(target@),
        ensures
            final(self).wf(),
            final(self).slots@.len() == old(self).slots@.len(),
            forall|q: int|
                0 <= q < old(self).slots@.len() && q != handle ==> #[trigger] final(self).slots@[q]
                    == old(self).slots@[q],
            match r {
                Ok(()) => {
                    &&& old(self).live(handle as int)
                    &&& old(self).slot(handle as int) matches Some(net0)
                        && (final(self).slot(handle as int) matches Some(net1)
                        && input@.len() == net0.sizes@[0]
                        && target@.len() == net0.sizes@[net0.last_layer()]
                        && net1.sizes@ == net0.sizes@
                        && net1.weights_view() == train_spec(
                        net0,
                        input@,
                        target@,
                        mode,
                        LEARNING_RATE as int,
                    ))
                },
                Err(Error::UseAfterDestroy) => !old(self).live(handle as int) && final(self).slots@
                    == old(self).slots@,
                Err(e) => {
                    &&& e == Error::DimensionMismatch
                    &&& old(self).live(handle as int)
                    &&& (old(self).slot(handle as int) matches Some(net0)
                        && (final(self).slot(handle as int) matches Some(net1)
                        && (input@.len() != net0.sizes@[0] || target@.len() != net0.sizes@[
                        net0.last_layer()
                    ])
                        && net1.sizes@ == net0.sizes@
                        && net1.weights_view() == net0.weights_view()))
                },
            },
    {
        if handle >= self.slots.len() {
            return Err(Error::UseAfterDestroy);
        }
        let mut slot: Option<Network> = None;
        core::mem::swap(&mut slot, &mut self.slots[handle]);
        match slot {
            Some(mut net) => {
                let out = net.train(input, target, mode);
                self.slots[handle] = Some(net);
                proof {
                    assert(self.slots@ =~= old(self).slots@.update(
                        handle as int,
                        self.slots@[handle as int],
                    ));
                }
                out
            },
            None => {
                proof {
                    assert(self.slots@ =~= old(self).slots@);
                }
                Err(Error::UseAfterDestroy)
            },
        }
    }

    /// The prediction of the model behind a live handle.
    pub fn compute(&self, handle: usize, input: &Vec<i64>, mode: Mode) -> (r: Result<
        Vec<i64>,
        Error,
    >)
        requires
            self.wf(),
            all_in_cap(input@),
        ensures
            match r {
                Ok(out) => {
                    &&& self.live(handle as int)
                    &&& (self.slot(handle as int) matches Some(net) && input@.len()
                        == net.sizes@[0] && out@ == compute_spec(net, input@, mode))
                },
                Err(Error::UseAfterDestroy) => !self.live(handle as int),
                Err(e) => {
                    &&& e == Error::DimensionMismatch
                    &&& self.live(handle as int)
                    &&& (self.slot(handle as int) matches Some(net) && input@.len()
                        != net.sizes@[0])
                },
            },
    {
        if handle >= self.slots.len() {
            return Err(Error::UseAfterDestroy);
        }
        match &self.slots[handle] {
            Some(net) => net.compute(input, mode),
            None => Err(Error::UseAfterDestroy),
        }
    }
}

} // verus!
