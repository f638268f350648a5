//! The generic surface of a trainable model, and a minimal stand-in
//! implementation used to exercise that surface.

use vstd::prelude::*;

verus! {

/// A trainable model: one training step on one sample, and inference.
pub trait Model<Input, Output> {
    /// One training step on one (input, output) sample.
    fn train(&self, input: Input, output: Output);

    /// The model's prediction for `input`.
    fn compute(&self, input: Input) -> Output;
}

/// A stateless stand-in model whose prediction is its input plus a
/// constant offset.
pub struct TestModel {}

impl TestModel {
    /// A fresh stand-in model.
    pub fn new() -> (m: TestModel)
        ensures
            m == (TestModel {  }),
    {
        TestModel {  }
    }
}

impl Model<i32, i64> for TestModel {
    fn train(&self, _input: i32, _output: i64) {
    }

    fn compute(&self, input: i32) -> (r: i64)
        ensures
            r == input + 42,
    {
        input as i64 + 42
    }
}

} // verus!
