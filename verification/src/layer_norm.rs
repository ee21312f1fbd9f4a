//! Layer normalization over the last axis: configuration, input checks and row layout.
use vstd::prelude::*;
use crate::layer::Layer;
use crate::shape::{ParamShape, checked_numel, lemma_numel_small, lemma_total_numel_two, numel_of, shapes_of, shape_numel, total_numel};

verus! {

/// Layer normalization over a trailing block of shape `normalized_shape`, flattened to the
/// last axis of the input; its learnable parameters are an elementwise scale and shift over
/// that block.
pub struct LayerNorm {
    normalized_shape: Vec<usize>,
    total: usize,
}

impl View for LayerNorm {
    type V = Seq<usize>;

    /// The normalized shape.
    closed spec fn view(&self) -> Seq<usize> {
        self.normalized_shape@
    }
}

impl LayerNorm {
    /// Number of elements normalized together: the product of the normalized shape.
    pub open spec fn norm_size(self) -> nat {
        shape_numel(self@)
    }

    #[verifier::type_invariant]
    closed spec fn wf(self) -> bool {
        self.total as nat == shape_numel(self.normalized_shape@)
    }

    /// An input of this shape is accepted: at least one axis, the last of which has the
    /// size of the normalized block, with an element count that fits a `usize`.
    pub open spec fn accepts(self, shape: Seq<usize>) -> bool {
        &&& shape.len() >= 1
        &&& shape.last() == self.norm_size()
        &&& shape_numel(shape) <= usize::MAX
    }

    /// A layer normalizing over `normalized_shape`.
    pub fn new(normalized_shape: Vec<usize>) -> (ln: LayerNorm)
        requires
            shape_numel(normalized_shape@) <= usize::MAX,
        ensures
            ln@ == normalized_shape@,
    {
        let total = numel_of(normalized_shape.as_slice());
        LayerNorm { normalized_shape, total }
    }

    /// The normalized shape.
    pub fn normalized_shape(&self) -> (s: &[usize])
        ensures
            s@ == self@,
    {
        self.normalized_shape.as_slice()
    }

    /// Number of elements normalized together.
    pub fn normalized_size(&self) -> (n: usize)
        requires
        ensures
            n == self.norm_size(),
    {
        proof {
            use_type_invariant(self);
        }
        self.total
    }

    /// Whether an input of this shape is accepted (see [`LayerNorm::accepts`]).
    pub fn accepts_shape(&self, input_shape: &[usize]) -> (r: bool)
        ensures
            r == self.accepts(input_shape@),
    {
        if input_shape.len() == 0 {
            return false;
        }
        if input_shape[input_shape.len() - 1] != self.normalized_size() {
            return false;
        }
        checked_numel(input_shape).is_some()
    }

    /// Length of the rows that are normalized, for an accepted input: its last axis.
    pub fn row_length(&self, input_shape: &[usize]) -> (d: usize)
        requires
            self.accepts(input_shape@),
        ensures
            d == input_shape@.last(),
            d == self.norm_size(),
    {
        let d = input_shape[input_shape.len() - 1];
        d
    }

    /// Number of rows of an accepted input, each normalized on its own: the element count
    /// divided by the row length; the rows cover the input exactly.
    pub fn row_count(&self, input_shape: &[usize]) -> (n: usize)
        requires
            self.accepts(input_shape@),
            self.norm_size() > 0,
        ensures
            n == shape_numel(input_shape@.drop_last()),
            n * self.norm_size() == shape_numel(input_shape@),
    {
        let d = self.row_length(input_shape);
        let total = numel_of(input_shape);
        proof {
            let lead = shape_numel(input_shape@.drop_last());
            vstd::arithmetic::div_mod::lemma_fundamental_div_mod_converse(
                total as int,
                d as int,
                lead as int,
                0,
            );
        }
        total / d
    }
}

impl LayerNorm {
    /// Layer normalization has twice as many learnable scalars as it normalizes together.
    pub proof fn lemma_parameter_total(self)
        requires
            self.norm_size() <= usize::MAX,
        ensures
            total_numel(self.param_shapes()) == 2 * self.norm_size(),
    {
        let n = self.norm_size() as usize;
        lemma_numel_small(n, 0, 0);
        lemma_total_numel_two(seq![n], seq![n]);
    }
}

impl Layer for LayerNorm {
    /// The scale `[norm_size]`, then the shift `[norm_size]`.
    open spec fn param_shapes(&self) -> Seq<Seq<usize>> {
        seq![seq![self.norm_size() as usize], seq![self.norm_size() as usize]]
    }

    fn parameters(&self) -> (params: Vec<ParamShape>)
        ensures
            params@.len() == 2,
            params@[0]@ == seq![self.norm_size() as usize],
            params@[1]@ == seq![self.norm_size() as usize],
    {
        proof {
            use_type_invariant(self);
        }
        let mut params: Vec<ParamShape> = Vec::new();
        let mut gamma: Vec<usize> = Vec::new();
        gamma.push(self.total);
        params.push(ParamShape::new(gamma));
        let mut beta: Vec<usize> = Vec::new();
        beta.push(self.total);
        params.push(ParamShape::new(beta));
        proof {
            assert(params@[0]@ =~= self.param_shapes()[0]);
            assert(params@[1]@ =~= self.param_shapes()[1]);
            assert(shapes_of(params@) =~= self.param_shapes());
        }
        params
    }
}

} // verus!
