//! The structure every layer exposes: its learnable parameters and their element count.
use vstd::prelude::*;
use crate::shape::{ParamShape, checked_numel, shapes_of, shape_numel, total_numel};

verus! {

/// Core trait of a neural-network layer, as far as its learnable parameters go.
pub trait Layer {
    /// The shapes of the layer's learnable parameters, in order.
    spec fn param_shapes(&self) -> Seq<Seq<usize>>;

    /// The layer's learnable parameters, in order, each given by its shape.
    fn parameters(&self) -> (params: Vec<ParamShape>)
        ensures
            shapes_of(params@) == self.param_shapes(),
    ;

    /// Total number of learnable scalars: the sum of the element counts of all parameters.
    fn parameter_count(&self) -> (n: usize)
        requires
            total_numel(self.param_shapes()) <= usize::MAX,
        ensures
            n == total_numel(self.param_shapes()),
    {
        let params = self.parameters();
        sum_numel(&params)
    }
}

/// Sum of the element counts of a list of parameters.
pub fn sum_numel(params: &Vec<ParamShape>) -> (n: usize)
    requires
        total_numel(shapes_of(params@)) <= usize::MAX,
    ensures
        n == total_numel(shapes_of(params@)),
{
    let ghost shapes = shapes_of(params@);
    let mut acc: usize = 0;
    let mut i: usize = 0;
    while i < params.len()
        invariant
            i <= params@.len(),
            shapes == shapes_of(params@),
            shapes.len() == params@.len(),
            acc as nat == total_numel(shapes.take(i as int)),
            total_numel(shapes) <= usize::MAX,
        decreases params@.len() - i,
    {
        proof {
            assert(shapes.take(i + 1).drop_last() =~= shapes.take(i as int));
            assert(shapes[i as int] == params@[i as int]@);
            lemma_total_numel_prefix_le(shapes, (i + 1) as nat);
        }
        let k = params[i].numel();
        acc = acc + k;
        i = i + 1;
    }
    proof {
        assert(shapes.take(i as int) =~= shapes);
    }
    acc
}

/// Sum of the element counts of a list of parameters, or `None` when it exceeds
/// `usize::MAX`.
pub fn checked_sum_numel(params: &Vec<ParamShape>) -> (r: Option<usize>)
    ensures
        r matches Some(n) ==> n == total_numel(shapes_of(params@)),
        r is None <==> total_numel(shapes_of(params@)) > usize::MAX,
{
    let ghost shapes = shapes_of(params@);
    let mut acc: usize = 0;
    let mut i: usize = 0;
    while i < params.len()
        invariant
            i <= params@.len(),
            shapes == shapes_of(params@),
            shapes.len() == params@.len(),
            acc as nat == total_numel(shapes.take(i as int)),
        decreases params@.len() - i,
    {
        proof {
            assert(shapes.take(i + 1).drop_last() =~= shapes.take(i as int));
            assert(shapes[i as int] == params@[i as int]@);
            lemma_total_numel_prefix_le(shapes, (i + 1) as nat);
        }
        let k = match checked_numel(params[i].shape()) {
            Some(k) => k,
            None => {
                return None;
            },
        };
        acc = match acc.checked_add(k) {
            Some(next) => next,
            None => {
                return None;
            },
        };
        i = i + 1;
    }
    proof {
        assert(shapes.take(i as int) =~= shapes);
    }
    Some(acc)
}

/// A prefix of a list of shapes has no more elements than the whole list; in particular
/// each single shape of a list whose total fits a bound fits that bound too.
pub proof fn lemma_total_numel_prefix_le(shapes: Seq<Seq<usize>>, n: nat)
    requires
        n <= shapes.len(),
    ensures
        total_numel(shapes.take(n as int)) <= total_numel(shapes),
        n > 0 ==> shape_numel(shapes[n - 1]) <= total_numel(shapes),
    decreases shapes.len() - n,
{
    if n < shapes.len() {
        lemma_total_numel_prefix_le(shapes, n + 1);
        assert(shapes.take(n as int + 1).drop_last() =~= shapes.take(n as int));
    } else {
        assert(shapes.take(n as int) =~= shapes);
    }
    if n > 0 {
        assert(shapes.take(n as int).drop_last() =~= shapes.take(n - 1));
        assert(shapes.take(n as int).last() == shapes[n - 1]);
        assert(total_numel(shapes.take(n as int)) == total_numel(shapes.take(n - 1)) + shape_numel(
            shapes[n - 1],
        ));
    }
}

} // verus!
