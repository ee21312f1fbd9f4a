//! A container that chains layers in order; its parameters are those of its children,
//! in order.
use vstd::prelude::*;
use crate::layer::Layer;
use crate::shape::{ParamShape, shapes_of, total_numel};

verus! {

/// Sequential container of layers, applied first to last.
pub struct Sequential {
    layers: Vec<Box<dyn Layer>>,
}

/// The parameter shapes of each of a list of layers.
pub open spec fn shapes_of_layers(layers: Seq<Box<dyn Layer>>) -> Seq<Seq<Seq<usize>>> {
    layers.map_values(|l: Box<dyn Layer>| l.param_shapes())
}

/// Sum of the parameter totals of a list of layers, given by their parameter shapes.
pub open spec fn sum_totals(children: Seq<Seq<Seq<usize>>>) -> nat
    decreases children.len(),
{
    if children.len() == 0 {
        0
    } else {
        sum_totals(children.drop_last()) + total_numel(children.last())
    }
}

/// Element count of two concatenated lists of shapes.
proof fn lemma_total_numel_concat(x: Seq<Seq<usize>>, y: Seq<Seq<usize>>)
    ensures
        total_numel(x + y) == total_numel(x) + total_numel(y),
    decreases y.len(),
{
    if y.len() == 0 {
        assert(x + y =~= x);
    } else {
        assert((x + y).drop_last() =~= x + y.drop_last());
        lemma_total_numel_concat(x, y.drop_last());
    }
}

/// The element count of the concatenated parameters is the sum of the children's counts.
proof fn lemma_total_numel_flatten(children: Seq<Seq<Seq<usize>>>)
    ensures
        total_numel(children.flatten()) == sum_totals(children),
    decreases children.len(),
{
    if children.len() > 0 {
        let init = children.drop_last();
        lemma_total_numel_flatten(init);
        assert(children =~= init.push(children.last()));
        init.lemma_flatten_push(children.last());
        lemma_total_numel_concat(init.flatten(), children.last());
    }
}

impl Sequential {
    /// The parameter shapes of each child layer, in order.
    pub closed spec fn children(self) -> Seq<Seq<Seq<usize>>> {
        shapes_of_layers(self.layers@)
    }

    /// A container of the given layers, in order.
    pub fn new(layers: Vec<Box<dyn Layer>>) -> (s: Sequential)
        ensures
            s.children() == shapes_of_layers(layers@),
    {
        Sequential { layers }
    }

    /// Number of child layers.
    pub fn len(&self) -> (n: usize)
        ensures
            n == self.children().len(),
    {
        self.layers.len()
    }

    /// Whether the container has no layers.
    pub fn is_empty(&self) -> (b: bool)
        ensures
            b == (self.children().len() == 0),
    {
        self.layers.len() == 0
    }

    /// The container has as many learnable scalars as its children together.
    pub proof fn lemma_parameter_total(self)
        ensures
            total_numel(self.param_shapes()) == sum_totals(self.children()),
    {
        lemma_total_numel_flatten(self.children());
    }
}

impl Layer for Sequential {
    /// The parameters of the first layer, then those of the second, and so on.
    open spec fn param_shapes(&self) -> Seq<Seq<usize>> {
        self.children().flatten()
    }

    fn parameters(&self) -> (params: Vec<ParamShape>) {
        let ghost children = self.children();
        let mut params: Vec<ParamShape> = Vec::new();
        let mut i: usize = 0;
        while i < self.layers.len()
            invariant
                i <= self.layers@.len(),
                children == self.children(),
                children.len() == self.layers@.len(),
                shapes_of(params@) == children.take(i as int).flatten(),
            decreases self.layers@.len() - i,
        {
            let mut part = self.layers[i].parameters();
            let ghost before = params@;
            let ghost added = part@;
            params.append(&mut part);
            proof {
                assert(children[i as int] == self.layers@[i as int].param_shapes());
                assert(params@ =~= before + added);
                assert(shapes_of(before + added) =~= shapes_of(before) + shapes_of(added));
                assert(children.take(i + 1) =~= children.take(i as int).push(children[i as int]));
                children.take(i as int).lemma_flatten_push(children[i as int]);
            }
            i = i + 1;
        }
        proof {
            assert(children.take(i as int) =~= children);
        }
        params
    }
}

} // verus!
