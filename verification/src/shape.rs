//! Shapes of parameter tensors and the element counts derived from them.
use vstd::prelude::*;

verus! {

/// Number of elements of a tensor of the given shape: the product of its dimensions
/// (1 for a scalar of shape `[]`).
pub open spec fn shape_numel(shape: Seq<usize>) -> nat
    decreases shape.len(),
{
    if shape.len() == 0 {
        1
    } else {
        shape_numel(shape.drop_last()) * (shape.last() as nat)
    }
}

/// Total number of elements over a list of shapes.
pub open spec fn total_numel(shapes: Seq<Seq<usize>>) -> nat
    decreases shapes.len(),
{
    if shapes.len() == 0 {
        0
    } else {
        total_numel(shapes.drop_last()) + shape_numel(shapes.last())
    }
}

/// Element counts of shapes with one, two and three dimensions.
pub proof fn lemma_numel_small(a: usize, b: usize, c: usize)
    ensures
        shape_numel(seq![a]) == a,
        shape_numel(seq![a, b]) == a * b,
        shape_numel(seq![a, b, c]) == a * b * c,
{
    let e = Seq::<usize>::empty();
    assert(seq![a].drop_last() =~= e);
    assert(seq![a, b].drop_last() =~= seq![a]);
    assert(seq![a, b, c].drop_last() =~= seq![a, b]);
    assert(shape_numel(e) == 1);
    assert(shape_numel(seq![a]) == shape_numel(e) * (a as nat));
    assert(shape_numel(seq![a, b]) == shape_numel(seq![a]) * (b as nat));
    assert(shape_numel(seq![a, b, c]) == shape_numel(seq![a, b]) * (c as nat));
}

/// Total element count of a list of two shapes.
pub proof fn lemma_total_numel_two(x: Seq<usize>, y: Seq<usize>)
    ensures
        total_numel(seq![x, y]) == shape_numel(x) + shape_numel(y),
{
    let e = Seq::<Seq<usize>>::empty();
    assert(seq![x, y].drop_last() =~= seq![x]);
    assert(seq![x].drop_last() =~= e);
    assert(total_numel(e) == 0);
    assert(total_numel(seq![x]) == total_numel(e) + shape_numel(x));
    assert(total_numel(seq![x, y]) == total_numel(seq![x]) + shape_numel(y));
}

/// The shape of one learnable parameter tensor of a layer.
pub struct ParamShape {
    dims: Vec<usize>,
}

/// The shapes of a list of parameters.
pub open spec fn shapes_of(params: Seq<ParamShape>) -> Seq<Seq<usize>> {
    params.map_values(|p: ParamShape| p@)
}

impl View for ParamShape {
    type V = Seq<usize>;

    closed spec fn view(&self) -> Seq<usize> {
        self.dims@
    }
}

impl ParamShape {
    /// A parameter of the given shape.
    pub fn new(dims: Vec<usize>) -> (p: ParamShape)
        ensures
            p@ == dims@,
    {
        ParamShape { dims }
    }

    /// The dimensions of the parameter.
    pub fn shape(&self) -> (s: &[usize])
        ensures
            s@ == self@,
    {
        self.dims.as_slice()
    }

    /// Number of elements of the parameter.
    pub fn numel(&self) -> (n: usize)
        requires
            shape_numel(self@) <= usize::MAX,
        ensures
            n == shape_numel(self@),
    {
        numel_of(self.dims.as_slice())
    }
}

/// Product of the dimensions of `dims`, computed without overflow whenever the
/// product itself fits in a `usize` (a zero dimension anywhere gives 0).
pub fn numel_of(dims: &[usize]) -> (n: usize)
    requires
        shape_numel(dims@) <= usize::MAX,
    ensures
        n == shape_numel(dims@),
{
    let mut j: usize = 0;
    while j < dims.len()
        invariant
            j <= dims@.len(),
            forall|t: int| 0 <= t < j ==> dims@[t] >= 1,
        decreases dims@.len() - j,
    {
        if dims[j] == 0 {
            proof {
                lemma_numel_zero_dim(dims@, j as int);
            }
            return 0;
        }
        j = j + 1;
    }
    let mut acc: usize = 1;
    let mut i: usize = 0;
    while i < dims.len()
        invariant
            i <= dims@.len(),
            acc as nat == shape_numel(dims@.take(i as int)),
            shape_numel(dims@) <= usize::MAX,
            forall|t: int| 0 <= t < dims@.len() ==> dims@[t] >= 1,
        decreases dims@.len() - i,
    {
        proof {
            assert(dims@.take(i + 1).drop_last() =~= dims@.take(i as int));
            lemma_numel_prefix_le(dims@, (i + 1) as nat);
        }
        acc = acc * dims[i];
        i = i + 1;
    }
    proof {
        assert(dims@.take(i as int) =~= dims@);
    }
    acc
}

/// Product of the dimensions of `dims`, or `None` when it exceeds `usize::MAX`.
pub fn checked_numel(dims: &[usize]) -> (r: Option<usize>)
    ensures
        r matches Some(n) ==> n == shape_numel(dims@),
        r is None <==> shape_numel(dims@) > usize::MAX,
{
    let mut j: usize = 0;
    while j < dims.len()
        invariant
            j <= dims@.len(),
            forall|t: int| 0 <= t < j ==> dims@[t] >= 1,
        decreases dims@.len() - j,
    {
        if dims[j] == 0 {
            proof {
                lemma_numel_zero_dim(dims@, j as int);
            }
            return Some(0);
        }
        j = j + 1;
    }
    let mut acc: usize = 1;
    let mut i: usize = 0;
    while i < dims.len()
        invariant
            i <= dims@.len(),
            acc as nat == shape_numel(dims@.take(i as int)),
            forall|t: int| 0 <= t < dims@.len() ==> dims@[t] >= 1,
        decreases dims@.len() - i,
    {
        proof {
            assert(dims@.take(i + 1).drop_last() =~= dims@.take(i as int));
            lemma_numel_prefix_le(dims@, (i + 1) as nat);
        }
        match acc.checked_mul(dims[i]) {
            Some(next) => {
                acc = next;
            },
            None => {
                return None;
            },
        }
        i = i + 1;
    }
    proof {
        assert(dims@.take(i as int) =~= dims@);
    }
    Some(acc)
}

/// A shape with a zero dimension has no elements.
proof fn lemma_numel_zero_dim(shape: Seq<usize>, j: int)
    requires
        0 <= j < shape.len(),
        shape[j] == 0,
    ensures
        shape_numel(shape) == 0,
    decreases shape.len(),
{
    if j < shape.len() - 1 {
        lemma_numel_zero_dim(shape.drop_last(), j);
    }
    let a = shape_numel(shape.drop_last());
    let d = shape.last() as nat;
    assert(a == 0 || d == 0);
    assert(a * d == 0) by (nonlinear_arith)
        requires
            a == 0 || d == 0,
    ;
}

/// When every dimension is at least 1, each prefix product is bounded by the full product.
proof fn lemma_numel_prefix_le(shape: Seq<usize>, n: nat)
    requires
        n <= shape.len(),
        forall|t: int| 0 <= t < shape.len() ==> shape[t] >= 1,
    ensures
        shape_numel(shape.take(n as int)) <= shape_numel(shape),
    decreases shape.len() - n,
{
    if n < shape.len() {
        lemma_numel_prefix_le(shape, n + 1);
        let next = shape.take(n as int + 1);
        assert(next.drop_last() =~= shape.take(n as int));
        let a = shape_numel(shape.take(n as int));
        let d = shape[n as int] as nat;
        assert(a <= a * d) by (nonlinear_arith)
            requires
                d >= 1,
        ;
    } else {
        assert(shape.take(n as int) =~= shape);
    }
}

} // verus!
