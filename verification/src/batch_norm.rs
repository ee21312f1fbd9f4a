//! Batch normalization over the channel axis of `[batch, channels]` or
//! `[batch, channels, length]` inputs: input checks, layout, and which elements each
//! channel's statistics range over.
use vstd::prelude::*;
use vstd::arithmetic::div_mod::{lemma_fundamental_div_mod, lemma_mod_pos_bound};
use crate::index::{fits_product3, flat3, flat_index3, lemma_flat3_bound, lemma_flat3_cover, lemma_flat3_injective, lemma_flat3_unflatten};
use crate::layer::Layer;
use crate::shape::{ParamShape, lemma_numel_small, lemma_total_numel_two, shapes_of, total_numel};

verus! {

/// Batch normalization for 1-D inputs with `num_features` channels; its learnable
/// parameters are a per-channel scale and shift.
pub struct BatchNorm1d {
    num_features: usize,
    training: bool,
}

/// Number of positions per channel and batch entry: the length of a 3-D input, 1 for a
/// 2-D input.
pub open spec fn spatial_of(shape: Seq<usize>) -> int {
    if shape.len() == 3 {
        shape[2] as int
    } else {
        1
    }
}

impl BatchNorm1d {
    pub closed spec fn spec_num_features(self) -> nat {
        self.num_features as nat
    }

    pub closed spec fn spec_training(self) -> bool {
        self.training
    }

    /// An input of this shape is accepted: 2-D or 3-D, with `num_features` channels on
    /// axis 1.
    pub open spec fn accepts(self, shape: Seq<usize>) -> bool {
        &&& (shape.len() == 2 || shape.len() == 3)
        &&& shape[1] == self.spec_num_features()
        &&& shape[0] * shape[1] * spatial_of(shape) <= usize::MAX
        &&& shape[0] * spatial_of(shape) <= usize::MAX
    }

    /// A `[batch, channels]` or `[batch, channels, length]` shape with `num_features`
    /// channels whose element count, and count per channel, fit a `usize`.
    pub open spec fn accepted_2d_or_3d(num_features: nat, shape: Seq<usize>) -> bool {
        ||| shape.len() == 2 && shape[1] == num_features && shape[0] * shape[1] <= usize::MAX
        ||| shape.len() == 3 && shape[1] == num_features && shape[0] * shape[1] * shape[2]
            <= usize::MAX && shape[0] * shape[2] <= usize::MAX
    }

    /// Exactly the 2-D and 3-D inputs with `num_features` channels (whose element counts fit
    /// a `usize`) are accepted; inputs of any other rank or channel count are rejected.
    pub proof fn lemma_accepts_exactly(self, shape: Seq<usize>)
        ensures
            self.accepts(shape) <==> Self::accepted_2d_or_3d(self.spec_num_features(), shape),
    {
        if shape.len() == 2 {
            let a = shape[0] as int;
            let c = shape[1] as int;
            assert(a * c * 1 == a * c && a * 1 == a) by (nonlinear_arith);
        }
    }

    /// Flat positions of the elements of channel `c` for `batch` entries of `spatial`
    /// positions each, batch entry major, position minor.
    pub open spec fn channel_positions(self, batch: int, spatial: int, c: int) -> Seq<int> {
        Seq::new(
            (batch * spatial) as nat,
            |t: int| flat3(t / spatial, c, t % spatial, self.spec_num_features() as int, spatial),
        )
    }

    /// A batch normalization layer in training mode.
    pub fn new(num_features: usize) -> (bn: BatchNorm1d)
        ensures
            bn.spec_num_features() == num_features,
            bn.spec_training(),
    {
        BatchNorm1d { num_features, training: true }
    }

    pub fn num_features(&self) -> (n: usize)
        ensures
            n == self.spec_num_features(),
    {
        self.num_features
    }

    /// Whether the layer normalizes with batch statistics (training) or running ones.
    pub fn is_training(&self) -> (b: bool)
        ensures
            b == self.spec_training(),
    {
        self.training
    }

    /// Whether an input of this shape is accepted (see [`BatchNorm1d::accepts`]).
    pub fn accepts_shape(&self, input_shape: &[usize]) -> (r: bool)
        ensures
            r == self.accepts(input_shape@),
            r <==> Self::accepted_2d_or_3d(self.spec_num_features(), input_shape@),
    {
        proof {
            self.lemma_accepts_exactly(input_shape@);
        }
        if input_shape.len() != 2 && input_shape.len() != 3 {
            return false;
        }
        if input_shape[1] != self.num_features {
            return false;
        }
        let (batch, spatial) = self.layout_unchecked(input_shape);
        if !fits_product3(batch, self.num_features, spatial) {
            return false;
        }
        batch.checked_mul(spatial).is_some()
    }

    fn layout_unchecked(&self, input_shape: &[usize]) -> (r: (usize, usize))
        requires
            input_shape@.len() == 2 || input_shape@.len() == 3,
        ensures
            r.0 == input_shape@[0],
            r.1 == spatial_of(input_shape@),
    {
        let spatial = if input_shape.len() == 3 {
            input_shape[2]
        } else {
            1
        };
        (input_shape[0], spatial)
    }

    /// Batch size and positions per channel of an accepted input.
    pub fn layout(&self, input_shape: &[usize]) -> (r: (usize, usize))
        requires
            self.accepts(input_shape@),
        ensures
            r.0 == input_shape@[0],
            r.1 == spatial_of(input_shape@),
    {
        self.layout_unchecked(input_shape)
    }

    /// Number of elements each channel's statistics are taken over: `batch * spatial`.
    pub fn count(&self, input_shape: &[usize]) -> (n: usize)
        requires
            self.accepts(input_shape@),
        ensures
            n == input_shape@[0] * spatial_of(input_shape@),
    {
        let (batch, spatial) = self.layout(input_shape);
        batch * spatial
    }

    /// The flat positions of the elements of channel `c` of an accepted input, batch entry
    /// major, position minor.
    pub fn channel_indices(&self, input_shape: &[usize], c: usize) -> (idx: Vec<usize>)
        requires
            self.accepts(input_shape@),
            c < self.spec_num_features(),
        ensures
            idx@.map_values(|x: usize| x as int) == self.channel_positions(
                input_shape@[0] as int,
                spatial_of(input_shape@),
                c as int,
            ),
            forall|j: int|
                0 <= j < idx@.len() ==> #[trigger] idx@[j] < input_shape@[0]
                    * self.spec_num_features() * spatial_of(input_shape@),
    {
        let (batch, spatial) = self.layout(input_shape);
        let nf = self.num_features;
        let n = batch * spatial;
        let ghost target = self.channel_positions(batch as int, spatial as int, c as int);
        let mut idx: Vec<usize> = Vec::new();
        let mut t: usize = 0;
        while t < n
            invariant
                t <= n,
                n == batch * spatial,
                nf == self.num_features,
                c < nf,
                batch * nf * spatial <= usize::MAX,
                target == self.channel_positions(batch as int, spatial as int, c as int),
                idx@.len() == t,
                forall|j: int| 0 <= j < t ==> idx@[j] as int == target[j],
                forall|j: int| 0 <= j < t ==> #[trigger] idx@[j] < batch * nf * spatial,
            decreases n - t,
        {
            let b = t / spatial;
            let s = t % spatial;
            proof {
                assert(spatial > 0) by (nonlinear_arith)
                    requires
                        t < batch * spatial,
                ;
                assert(b < batch) by (nonlinear_arith)
                    requires
                        t < batch * spatial,
                        b == t / spatial,
                        spatial > 0,
                ;
            }
            let x = flat_index3(b, c, s, batch, nf, spatial);
            idx.push(x);
            t = t + 1;
        }
        proof {
            assert(idx@.map_values(|x: usize| x as int) =~= target);
        }
        idx
    }
}

impl BatchNorm1d {
    /// Entry `t` of channel `c`'s positions is element `(t / spatial, c, t % spatial)`.
    proof fn lemma_channel_position_entry(self, batch: int, spatial: int, c: int, t: int)
        requires
            batch >= 0,
            spatial > 0,
            0 <= c < self.spec_num_features(),
            0 <= t < batch * spatial,
        ensures
            0 <= t / spatial < batch,
            0 <= t % spatial < spatial,
            0 <= self.channel_positions(batch, spatial, c)[t] < batch * self.spec_num_features()
                * spatial,
            (self.channel_positions(batch, spatial, c)[t] / spatial) % (
            self.spec_num_features() as int) == c,
    {
        let nf = self.spec_num_features() as int;
        lemma_fundamental_div_mod(t, spatial);
        lemma_mod_pos_bound(t, spatial);
        assert(0 <= t / spatial < batch) by (nonlinear_arith)
            requires
                t == spatial * (t / spatial) + t % spatial,
                0 <= t % spatial < spatial,
                0 <= t < batch * spatial,
        ;
        lemma_flat3_bound(t / spatial, c, t % spatial, batch, nf, spatial);
        lemma_flat3_unflatten(t / spatial, c, t % spatial, nf, spatial);
    }

    /// The channels partition the input: every element of a `[batch, num_features, spatial]`
    /// input belongs to the positions of exactly the channel `(x / spatial) % num_features`,
    /// each channel's positions are distinct and in range, and there are `batch * spatial` of
    /// them; so every element is normalized exactly once, with the statistics of its own
    /// channel.
    pub proof fn lemma_channels_partition(self, batch: int, spatial: int, c: int, x: int)
        requires
            batch >= 0,
            spatial > 0,
            0 <= c < self.spec_num_features(),
            0 <= x < batch * self.spec_num_features() * spatial,
        ensures
            self.channel_positions(batch, spatial, c).len() == batch * spatial,
            self.channel_positions(batch, spatial, c).contains(x) <==> (x / spatial) % (
            self.spec_num_features() as int) == c,
            forall|t: int|
                0 <= t < batch * spatial ==> 0 <= #[trigger] self.channel_positions(
                    batch,
                    spatial,
                    c,
                )[t] < batch * self.spec_num_features() * spatial,
            forall|t1: int, t2: int|
                0 <= t1 < batch * spatial && 0 <= t2 < batch * spatial && t1 != t2
                    ==> #[trigger] self.channel_positions(batch, spatial, c)[t1]
                    != #[trigger] self.channel_positions(batch, spatial, c)[t2],
    {
        let nf = self.spec_num_features() as int;
        let pos = self.channel_positions(batch, spatial, c);
        assert(batch * spatial >= 0) by (nonlinear_arith)
            requires
                batch >= 0,
                spatial > 0,
        ;
        assert forall|t: int| 0 <= t < batch * spatial implies 0 <= #[trigger] pos[t] < batch * nf
            * spatial by {
            self.lemma_channel_position_entry(batch, spatial, c, t);
        }
        assert forall|t1: int, t2: int|
            0 <= t1 < batch * spatial && 0 <= t2 < batch * spatial && t1 != t2 implies #[trigger] pos[t1]
            != #[trigger] pos[t2] by {
            self.lemma_channel_position_entry(batch, spatial, c, t1);
            self.lemma_channel_position_entry(batch, spatial, c, t2);
            if pos[t1] == pos[t2] {
                lemma_flat3_injective(
                    t1 / spatial,
                    c,
                    t1 % spatial,
                    t2 / spatial,
                    c,
                    t2 % spatial,
                    nf,
                    spatial,
                );
                lemma_fundamental_div_mod(t1, spatial);
                lemma_fundamental_div_mod(t2, spatial);
            }
        }
        if pos.contains(x) {
            let t = choose|t: int| 0 <= t < pos.len() && pos[t] == x;
            self.lemma_channel_position_entry(batch, spatial, c, t);
        }
        if (x / spatial) % nf == c {
            lemma_flat3_cover(x, batch, nf, spatial);
            let i = (x / spatial) / nf;
            let k = x % spatial;
            let t = i * spatial + k;
            assert(0 <= t < batch * spatial) by (nonlinear_arith)
                requires
                    0 <= i < batch,
                    0 <= k < spatial,
                    t == i * spatial + k,
            ;
            vstd::arithmetic::div_mod::lemma_fundamental_div_mod_converse(t, spatial, i, k);
            assert(pos[t] == x);
        }
    }
}

impl BatchNorm1d {
    /// Batch normalization has `2 * num_features` learnable scalars: scale and shift.
    pub proof fn lemma_parameter_total(self)
        ensures
            total_numel(self.param_shapes()) == 2 * self.spec_num_features(),
    {
        lemma_numel_small(self.num_features, 0, 0);
        lemma_total_numel_two(seq![self.num_features], seq![self.num_features]);
    }
}

impl Layer for BatchNorm1d {
    /// The per-channel scale `[num_features]`, then the per-channel shift `[num_features]`.
    open spec fn param_shapes(&self) -> Seq<Seq<usize>> {
        seq![seq![self.spec_num_features() as usize], seq![self.spec_num_features() as usize]]
    }

    fn parameters(&self) -> (params: Vec<ParamShape>)
        ensures
            params@.len() == 2,
            params@[0]@ == seq![self.spec_num_features() as usize],
            params@[1]@ == seq![self.spec_num_features() as usize],
    {
        let mut params: Vec<ParamShape> = Vec::new();
        let mut gamma: Vec<usize> = Vec::new();
        gamma.push(self.num_features);
        params.push(ParamShape::new(gamma));
        let mut beta: Vec<usize> = Vec::new();
        beta.push(self.num_features);
        params.push(ParamShape::new(beta));
        proof {
            assert(params@[0]@ =~= self.param_shapes()[0]);
            assert(params@[1]@ =~= self.param_shapes()[1]);
            assert(shapes_of(params@) =~= self.param_shapes());
        }
        params
    }
}

} // verus!
