//! Low-rank adaptation of a frozen linear layer: configuration, learnable parameters and
//! the training/evaluation mode it shares with its optional dropout.
use vstd::prelude::*;
use crate::dropout::DropoutMode;
use crate::layer::Layer;
use crate::shape::{ParamShape, lemma_numel_small, lemma_total_numel_two, shapes_of, total_numel};

verus! {

/// Linear layer `x W^T + b` with frozen `W`, `b`, plus a trainable low-rank update
/// `scale * (dropout(x) A) B` with `A: [in_features, r]` and `B: [r, out_features]`.
pub struct LoraLinear {
    in_features: usize,
    out_features: usize,
    r: usize,
    training: bool,
    dropout: Option<DropoutMode>,
}

impl LoraLinear {
    /// The rank is positive, and the dropout, if any, is in the layer's own mode.
    #[verifier::type_invariant]
    closed spec fn wf(self) -> bool {
        &&& self.r > 0
        &&& (self.dropout matches Some(d) ==> d.spec_training() == self.training)
    }

    pub closed spec fn spec_in_features(self) -> nat {
        self.in_features as nat
    }

    pub closed spec fn spec_out_features(self) -> nat {
        self.out_features as nat
    }

    pub closed spec fn spec_r(self) -> nat {
        self.r as nat
    }

    pub closed spec fn spec_training(self) -> bool {
        self.training
    }

    pub closed spec fn spec_has_dropout(self) -> bool {
        self.dropout is Some
    }

    /// Whether the low-rank path sees a dropped-out input: only in training mode, and only
    /// when the layer has a dropout.
    pub open spec fn spec_dropout_active(self) -> bool {
        self.spec_training() && self.spec_has_dropout()
    }

    /// A layer with fresh base weights for `in_features -> out_features`, rank `r`, and a
    /// dropout on the low-rank path when `with_dropout`; it starts in training mode.
    pub fn new(in_features: usize, out_features: usize, r: usize, with_dropout: bool) -> (layer:
        LoraLinear)
        requires
            r > 0,
        ensures
            layer.spec_in_features() == in_features,
            layer.spec_out_features() == out_features,
            layer.spec_r() == r,
            layer.spec_training(),
            layer.spec_has_dropout() == with_dropout,
    {
        let dropout = if with_dropout {
            Some(DropoutMode::new())
        } else {
            None
        };
        LoraLinear { in_features, out_features, r, training: true, dropout }
    }

    /// A layer around existing base weights of shape `base_shape`
    /// (`[out_features, in_features, ..]`), rank `r`, and a dropout on the low-rank path when
    /// `with_dropout`; it starts in training mode.
    pub fn from_pretrained(base_shape: &[usize], r: usize, with_dropout: bool) -> (layer:
        LoraLinear)
        requires
            r > 0,
            base_shape@.len() >= 2,
        ensures
            layer.spec_out_features() == base_shape@[0],
            layer.spec_in_features() == base_shape@[1],
            layer.spec_r() == r,
            layer.spec_training(),
            layer.spec_has_dropout() == with_dropout,
    {
        let out_features = base_shape[0];
        let in_features = base_shape[1];
        LoraLinear::new(in_features, out_features, r, with_dropout)
    }

    /// Switches the layer and its dropout to training mode.
    pub fn train(&mut self)
        ensures
            final(self).spec_training(),
            final(self).spec_has_dropout() == old(self).spec_has_dropout(),
            final(self).spec_dropout_active() == old(self).spec_has_dropout(),
            final(self).spec_in_features() == old(self).spec_in_features(),
            final(self).spec_out_features() == old(self).spec_out_features(),
            final(self).spec_r() == old(self).spec_r(),
    {
        proof {
            use_type_invariant(&*self);
        }
        let dropout = match &self.dropout {
            Some(_) => {
                let mut d2 = DropoutMode::new();
                d2.train();
                Some(d2)
            },
            None => None,
        };
        *self = LoraLinear {
            in_features: self.in_features,
            out_features: self.out_features,
            r: self.r,
            training: true,
            dropout,
        };
    }

    /// Switches the layer and its dropout to evaluation mode; from then on the low-rank
    /// path sees the input unchanged, so the output depends on the input and weights alone.
    pub fn eval(&mut self)
        ensures
            !final(self).spec_training(),
            !final(self).spec_dropout_active(),
            final(self).spec_has_dropout() == old(self).spec_has_dropout(),
            final(self).spec_in_features() == old(self).spec_in_features(),
            final(self).spec_out_features() == old(self).spec_out_features(),
            final(self).spec_r() == old(self).spec_r(),
    {
        proof {
            use_type_invariant(&*self);
        }
        let dropout = match &self.dropout {
            Some(_) => {
                let mut d2 = DropoutMode::new();
                d2.eval();
                Some(d2)
            },
            None => None,
        };
        *self = LoraLinear {
            in_features: self.in_features,
            out_features: self.out_features,
            r: self.r,
            training: false,
            dropout,
        };
    }

    /// Whether the low-rank path applies the dropout in the next forward pass.
    pub fn dropout_active(&self) -> (b: bool)
        ensures
            b == self.spec_dropout_active(),
    {
        match &self.dropout {
            Some(_) => self.training,
            None => false,
        }
    }

    pub fn is_training(&self) -> (b: bool)
        ensures
            b == self.spec_training(),
    {
        self.training
    }

    pub fn r(&self) -> (n: usize)
        ensures
            n == self.spec_r(),
            n > 0,
    {
        proof {
            use_type_invariant(self);
        }
        self.r
    }

    pub fn in_features(&self) -> (n: usize)
        ensures
            n == self.spec_in_features(),
    {
        self.in_features
    }

    pub fn out_features(&self) -> (n: usize)
        ensures
            n == self.spec_out_features(),
    {
        self.out_features
    }

    /// Only the low-rank factors are learnable: `in_features * r + r * out_features`
    /// scalars, whatever the size of the frozen base weights.
    pub proof fn lemma_parameter_total(self)
        ensures
            total_numel(self.param_shapes()) == self.spec_in_features() * self.spec_r()
                + self.spec_r() * self.spec_out_features(),
    {
        lemma_numel_small(self.in_features, self.r, 0);
        lemma_numel_small(self.r, self.out_features, 0);
        lemma_total_numel_two(seq![self.in_features, self.r], seq![self.r, self.out_features]);
    }
}

impl Layer for LoraLinear {
    /// The factor `A: [in_features, r]`, then `B: [r, out_features]`.
    open spec fn param_shapes(&self) -> Seq<Seq<usize>> {
        seq![
            seq![self.spec_in_features() as usize, self.spec_r() as usize],
            seq![self.spec_r() as usize, self.spec_out_features() as usize],
        ]
    }

    fn parameters(&self) -> (params: Vec<ParamShape>)
        ensures
            params@.len() == 2,
            params@[0]@ == seq![self.spec_in_features() as usize, self.spec_r() as usize],
            params@[1]@ == seq![self.spec_r() as usize, self.spec_out_features() as usize],
    {
        let mut params: Vec<ParamShape> = Vec::new();
        let mut a: Vec<usize> = Vec::new();
        a.push(self.in_features);
        a.push(self.r);
        params.push(ParamShape::new(a));
        let mut b: Vec<usize> = Vec::new();
        b.push(self.r);
        b.push(self.out_features);
        params.push(ParamShape::new(b));
        proof {
            assert(params@[0]@ =~= self.param_shapes()[0]);
            assert(params@[1]@ =~= self.param_shapes()[1]);
            assert(shapes_of(params@) =~= self.param_shapes());
        }
        params
    }
}

} // verus!
