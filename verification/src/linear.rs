//! Fully connected layer `y = x W^T + b`: configuration and parameter shapes.
use vstd::prelude::*;
use crate::layer::Layer;
use crate::shape::{ParamShape, lemma_numel_small, lemma_total_numel_two, shapes_of, total_numel};

verus! {

/// Linear layer mapping `in_features` inputs to `out_features` outputs, with a weight of
/// shape `[out_features, in_features]` and a bias of shape `[out_features]`.
pub struct Linear {
    in_features: usize,
    out_features: usize,
}

impl Linear {
    pub closed spec fn spec_in_features(self) -> nat {
        self.in_features as nat
    }

    pub closed spec fn spec_out_features(self) -> nat {
        self.out_features as nat
    }

    pub fn new(in_features: usize, out_features: usize) -> (layer: Linear)
        ensures
            layer.spec_in_features() == in_features,
            layer.spec_out_features() == out_features,
    {
        Linear { in_features, out_features }
    }

    pub fn in_features(&self) -> (n: usize)
        ensures
            n == self.spec_in_features(),
    {
        self.in_features
    }

    pub fn out_features(&self) -> (n: usize)
        ensures
            n == self.spec_out_features(),
    {
        self.out_features
    }

    /// The weight maps `in_features` inputs to `out_features` outputs: it has
    /// `out_features` rows of `in_features` entries, and the bias has one entry per output.
    pub proof fn lemma_parameter_shapes(self)
        ensures
            self.param_shapes().len() == 2,
            self.param_shapes()[0].len() == 2,
            self.param_shapes()[0][0] == self.spec_out_features(),
            self.param_shapes()[0][1] == self.spec_in_features(),
            self.param_shapes()[1] == seq![self.spec_out_features() as usize],
    {
    }

    /// A linear layer has `in_features * out_features + out_features` learnable scalars:
    /// the weight and the bias.
    pub proof fn lemma_parameter_total(self)
        ensures
            total_numel(self.param_shapes()) == self.spec_out_features() * self.spec_in_features()
                + self.spec_out_features(),
    {
        let o = self.out_features;
        let i = self.in_features;
        lemma_numel_small(o, i, 0);
        lemma_total_numel_two(seq![o, i], seq![o]);
    }
}

impl Layer for Linear {
    /// The weight `[out_features, in_features]`, then the bias `[out_features]`.
    open spec fn param_shapes(&self) -> Seq<Seq<usize>> {
        seq![
            seq![self.spec_out_features() as usize, self.spec_in_features() as usize],
            seq![self.spec_out_features() as usize],
        ]
    }

    fn parameters(&self) -> (params: Vec<ParamShape>)
        ensures
            params@.len() == 2,
            params@[0]@ == seq![self.spec_out_features() as usize, self.spec_in_features() as usize],
            params@[1]@ == seq![self.spec_out_features() as usize],
    {
        let mut params: Vec<ParamShape> = Vec::new();
        let mut w: Vec<usize> = Vec::new();
        w.push(self.out_features);
        w.push(self.in_features);
        params.push(ParamShape::new(w));
        let mut bias: Vec<usize> = Vec::new();
        bias.push(self.out_features);
        params.push(ParamShape::new(bias));
        proof {
            assert(params@[0]@ =~= self.param_shapes()[0]);
            assert(params@[1]@ =~= self.param_shapes()[1]);
            assert(shapes_of(params@) =~= self.param_shapes());
        }
        params
    }
}

} // verus!
