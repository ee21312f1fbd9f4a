//! Parameter-free activation layers.
use vstd::prelude::*;
use crate::layer::Layer;
use crate::shape::{ParamShape, shapes_of};

verus! {

/// GELU activation function (tanh approximation).
pub struct Gelu;

impl Gelu {
    /// A new GELU activation; it has no learnable parameters.
    pub fn new() -> (layer: Gelu)
        ensures
            layer.param_shapes() == Seq::<Seq<usize>>::empty(),
    {
        Gelu
    }
}

impl Default for Gelu {
    fn default() -> (layer: Gelu)
        ensures
            layer.param_shapes() == Seq::<Seq<usize>>::empty(),
    {
        Gelu::new()
    }
}

impl Layer for Gelu {
    open spec fn param_shapes(&self) -> Seq<Seq<usize>> {
        Seq::empty()
    }

    fn parameters(&self) -> (params: Vec<ParamShape>) {
        let params: Vec<ParamShape> = Vec::new();
        proof {
            assert(shapes_of(params@) =~= Seq::<Seq<usize>>::empty());
        }
        params
    }
}

/// GELU activation function (tanh approximation), `x * Phi(x)` as used in GPT-2.
pub struct GELU;

impl GELU {
    /// A new GELU activation; it has no learnable parameters.
    pub fn new() -> (layer: GELU)
        ensures
            layer.param_shapes() == Seq::<Seq<usize>>::empty(),
    {
        GELU
    }
}

impl Default for GELU {
    fn default() -> (layer: GELU)
        ensures
            layer.param_shapes() == Seq::<Seq<usize>>::empty(),
    {
        GELU::new()
    }
}

impl Layer for GELU {
    open spec fn param_shapes(&self) -> Seq<Seq<usize>> {
        Seq::empty()
    }

    fn parameters(&self) -> (params: Vec<ParamShape>) {
        let params: Vec<ParamShape> = Vec::new();
        proof {
            assert(shapes_of(params@) =~= Seq::<Seq<usize>>::empty());
        }
        params
    }
}

/// ReLU activation function: `max(x, 0)`.
pub struct Relu;

impl Relu {
    /// A new ReLU activation; it has no learnable parameters.
    pub fn new() -> (layer: Relu)
        ensures
            layer.param_shapes() == Seq::<Seq<usize>>::empty(),
    {
        Relu
    }
}

impl Default for Relu {
    fn default() -> (layer: Relu)
        ensures
            layer.param_shapes() == Seq::<Seq<usize>>::empty(),
    {
        Relu::new()
    }
}

impl Layer for Relu {
    open spec fn param_shapes(&self) -> Seq<Seq<usize>> {
        Seq::empty()
    }

    fn parameters(&self) -> (params: Vec<ParamShape>) {
        let params: Vec<ParamShape> = Vec::new();
        proof {
            assert(shapes_of(params@) =~= Seq::<Seq<usize>>::empty());
        }
        params
    }
}

/// ReLU activation function: `max(x, 0)`.
pub struct ReLU;

impl ReLU {
    /// A new ReLU activation; it has no learnable parameters.
    pub fn new() -> (layer: ReLU)
        ensures
            layer.param_shapes() == Seq::<Seq<usize>>::empty(),
    {
        ReLU
    }
}

impl Default for ReLU {
    fn default() -> (layer: ReLU)
        ensures
            layer.param_shapes() == Seq::<Seq<usize>>::empty(),
    {
        ReLU::new()
    }
}

impl Layer for ReLU {
    open spec fn param_shapes(&self) -> Seq<Seq<usize>> {
        Seq::empty()
    }

    fn parameters(&self) -> (params: Vec<ParamShape>) {
        let params: Vec<ParamShape> = Vec::new();
        proof {
            assert(shapes_of(params@) =~= Seq::<Seq<usize>>::empty());
        }
        params
    }
}

/// SiLU (Swish) activation function: `x * sigmoid(x)`.
pub struct Silu;

impl Silu {
    /// A new SiLU activation; it has no learnable parameters.
    pub fn new() -> (layer: Silu)
        ensures
            layer.param_shapes() == Seq::<Seq<usize>>::empty(),
    {
        Silu
    }
}

impl Default for Silu {
    fn default() -> (layer: Silu)
        ensures
            layer.param_shapes() == Seq::<Seq<usize>>::empty(),
    {
        Silu::new()
    }
}

impl Layer for Silu {
    open spec fn param_shapes(&self) -> Seq<Seq<usize>> {
        Seq::empty()
    }

    fn parameters(&self) -> (params: Vec<ParamShape>) {
        let params: Vec<ParamShape> = Vec::new();
        proof {
            assert(shapes_of(params@) =~= Seq::<Seq<usize>>::empty());
        }
        params
    }
}

/// Hyperbolic tangent activation function.
pub struct Tanh;

impl Tanh {
    /// A new tanh activation; it has no learnable parameters.
    pub fn new() -> (layer: Tanh)
        ensures
            layer.param_shapes() == Seq::<Seq<usize>>::empty(),
    {
        Tanh
    }
}

impl Default for Tanh {
    fn default() -> (layer: Tanh)
        ensures
            layer.param_shapes() == Seq::<Seq<usize>>::empty(),
    {
        Tanh::new()
    }
}

impl Layer for Tanh {
    open spec fn param_shapes(&self) -> Seq<Seq<usize>> {
        Seq::empty()
    }

    fn parameters(&self) -> (params: Vec<ParamShape>) {
        let params: Vec<ParamShape> = Vec::new();
        proof {
            assert(shapes_of(params@) =~= Seq::<Seq<usize>>::empty());
        }
        params
    }
}

/// Backward operation of the SiLU activation; the gradient it applies is
/// `sigmoid(x) * (1 + x * (1 - sigmoid(x)))` times the incoming gradient.
pub struct SiLUBackward;

impl SiLUBackward {
    /// The name under which the operation is recorded.
    pub fn name(&self) -> (s: &'static str)
        ensures
            s@ == "SiLUBackward"@,
    {
        "SiLUBackward"
    }
}

} // verus!
