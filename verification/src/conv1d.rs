//! One-dimensional convolution: configuration, output geometry, and the index maps that
//! route every input element and weight to the outputs it contributes to.
use vstd::prelude::*;
use vstd::arithmetic::div_mod::{
    lemma_fundamental_div_mod,
    lemma_fundamental_div_mod_converse,
    lemma_mod_pos_bound,
};
use crate::index::{fits_product3, flat3, flat_index3, lemma_flat3_injective};
use crate::layer::Layer;
use crate::shape::{ParamShape, lemma_numel_small, lemma_total_numel_two, shapes_of, total_numel};

verus! {

/// 1-D convolutional layer over inputs of shape `[batch, in_channels, length]`, with a
/// weight of shape `[out_channels, in_channels, kernel_size]` and a bias of shape
/// `[out_channels]`.
#[derive(Clone, Copy)]
pub struct Conv1d {
    in_channels: usize,
    out_channels: usize,
    kernel_size: usize,
    stride: usize,
    padding: usize,
    dilation: usize,
}

impl Conv1d {
    pub closed spec fn spec_in_channels(self) -> nat {
        self.in_channels as nat
    }

    pub closed spec fn spec_out_channels(self) -> nat {
        self.out_channels as nat
    }

    pub closed spec fn spec_kernel_size(self) -> nat {
        self.kernel_size as nat
    }

    pub closed spec fn spec_stride(self) -> nat {
        self.stride as nat
    }

    pub closed spec fn spec_padding(self) -> nat {
        self.padding as nat
    }

    pub closed spec fn spec_dilation(self) -> nat {
        self.dilation as nat
    }

    /// Span of the dilated kernel minus one: `dilation * (kernel_size - 1)`.
    pub open spec fn reach(self) -> int {
        self.spec_dilation() * (self.spec_kernel_size() - 1)
    }

    /// Length of the output along the last axis for an input of the given length:
    /// `(length + 2 * padding - dilation * (kernel_size - 1) - 1) / stride + 1`.
    pub open spec fn out_len(self, length: int) -> int {
        (length + 2 * self.spec_padding() - self.reach() - 1) / (self.spec_stride() as int) + 1
    }

    /// The geometry is computable for this input length: nonzero kernel and stride, and the
    /// padded input is at least as long as the dilated kernel.
    pub open spec fn geometry_ok(self, length: int) -> bool {
        &&& self.spec_kernel_size() >= 1
        &&& self.spec_stride() >= 1
        &&& self.reach() + 1 <= length + 2 * self.spec_padding() <= usize::MAX
    }

    /// An input of shape `[batch, in_channels, length]` is accepted, and the input, weight
    /// and output arrays have element counts that fit a `usize`.
    pub open spec fn accepts(self, batch: int, length: int) -> bool {
        &&& 0 <= batch
        &&& 0 <= length
        &&& self.geometry_ok(length)
        &&& batch * self.spec_in_channels() * length <= usize::MAX
        &&& self.spec_out_channels() * self.spec_in_channels() * self.spec_kernel_size()
            <= usize::MAX
        &&& batch * self.spec_out_channels() * self.out_len(length) <= usize::MAX
    }

    /// Position in the input read by output position `o` through kernel tap `k`:
    /// `o * stride + k * dilation - padding`, when that lies inside `0 .. length`.
    pub open spec fn input_pos(self, o: int, k: int, length: int) -> Option<int> {
        let q = o * self.spec_stride() + k * self.spec_dilation() - self.spec_padding();
        if 0 <= q < length {
            Some(q)
        } else {
            None
        }
    }

    /// Output position that reads input position `p` through kernel tap `k`, if any:
    /// `(p + padding - k * dilation) / stride` when that numerator is a nonnegative multiple
    /// of the stride and the quotient is a valid output position.
    pub open spec fn output_pos(self, p: int, k: int, length: int) -> Option<int> {
        let num = p + self.spec_padding() - k * self.spec_dilation();
        let s = self.spec_stride() as int;
        if num >= 0 && num % s == 0 && num / s < self.out_len(length) {
            Some(num / s)
        } else {
            None
        }
    }

    /// Flat index of input element `(b, ic, p)`.
    pub open spec fn input_index(self, b: int, ic: int, p: int, length: int) -> int {
        flat3(b, ic, p, self.spec_in_channels() as int, length)
    }

    /// Flat index of weight element `(oc, ic, k)`.
    pub open spec fn weight_index(self, oc: int, ic: int, k: int) -> int {
        flat3(oc, ic, k, self.spec_in_channels() as int, self.spec_kernel_size() as int)
    }

    /// Flat index of output element `(b, oc, o)`.
    pub open spec fn output_index(self, b: int, oc: int, o: int, length: int) -> int {
        flat3(b, oc, o, self.spec_out_channels() as int, self.out_len(length))
    }

    /// The products summed into output `(b, oc, o)`, as (input index, weight index) pairs,
    /// for the first `t` (input channel, kernel tap) combinations in the order input channel
    /// major, kernel tap minor; taps that fall into the padding contribute nothing.
    pub open spec fn forward_taps_upto(self, length: int, b: int, oc: int, o: int, t: int) -> Seq<
        (int, int),
    >
        decreases t,
    {
        if t <= 0 {
            Seq::empty()
        } else {
            let prev = self.forward_taps_upto(length, b, oc, o, t - 1);
            let kk = self.spec_kernel_size() as int;
            let ic = (t - 1) / kk;
            let k = (t - 1) % kk;
            match self.input_pos(o, k, length) {
                Some(p) => prev.push(
                    (self.input_index(b, ic, p, length), self.weight_index(oc, ic, k)),
                ),
                None => prev,
            }
        }
    }

    /// All products summed into output `(b, oc, o)`.
    pub open spec fn spec_forward_taps(self, length: int, b: int, oc: int, o: int) -> Seq<(int, int)> {
        self.forward_taps_upto(
            length,
            b,
            oc,
            o,
            (self.spec_in_channels() * self.spec_kernel_size()) as int,
        )
    }

    /// The products summed into the gradient of input `(b, ic, p)`, as (output index,
    /// weight index) pairs, for the first `t` (output channel, kernel tap) combinations in
    /// the order output channel major, kernel tap minor.
    pub open spec fn backward_taps_upto(self, length: int, b: int, ic: int, p: int, t: int) -> Seq<
        (int, int),
    >
        decreases t,
    {
        if t <= 0 {
            Seq::empty()
        } else {
            let prev = self.backward_taps_upto(length, b, ic, p, t - 1);
            let kk = self.spec_kernel_size() as int;
            let oc = (t - 1) / kk;
            let k = (t - 1) % kk;
            match self.output_pos(p, k, length) {
                Some(o) => prev.push(
                    (self.output_index(b, oc, o, length), self.weight_index(oc, ic, k)),
                ),
                None => prev,
            }
        }
    }

    /// All products summed into the gradient of input `(b, ic, p)`.
    pub open spec fn spec_backward_taps(self, length: int, b: int, ic: int, p: int) -> Seq<(int, int)> {
        self.backward_taps_upto(
            length,
            b,
            ic,
            p,
            (self.spec_out_channels() * self.spec_kernel_size()) as int,
        )
    }
}

/// An optional position, as an integer.
pub open spec fn opt_int(x: Option<usize>) -> Option<int> {
    match x {
        Some(v) => Some(v as int),
        None => None,
    }
}

impl Conv1d {
    /// A convolution with stride 1, no padding and dilation 1.
    pub fn new(in_channels: usize, out_channels: usize, kernel_size: usize) -> (c: Conv1d)
        ensures
            c.spec_in_channels() == in_channels,
            c.spec_out_channels() == out_channels,
            c.spec_kernel_size() == kernel_size,
            c.spec_stride() == 1,
            c.spec_padding() == 0,
            c.spec_dilation() == 1,
    {
        Conv1d { in_channels, out_channels, kernel_size, stride: 1, padding: 0, dilation: 1 }
    }

    /// The same convolution with the given stride.
    pub fn with_stride(self, stride: usize) -> (c: Conv1d)
        ensures
            c.spec_in_channels() == self.spec_in_channels(),
            c.spec_out_channels() == self.spec_out_channels(),
            c.spec_kernel_size() == self.spec_kernel_size(),
            c.spec_stride() == stride,
            c.spec_padding() == self.spec_padding(),
            c.spec_dilation() == self.spec_dilation(),
    {
        Conv1d { stride, ..self }
    }

    /// The same convolution with the given zero padding on both ends.
    pub fn with_padding(self, padding: usize) -> (c: Conv1d)
        ensures
            c.spec_in_channels() == self.spec_in_channels(),
            c.spec_out_channels() == self.spec_out_channels(),
            c.spec_kernel_size() == self.spec_kernel_size(),
            c.spec_stride() == self.spec_stride(),
            c.spec_padding() == padding,
            c.spec_dilation() == self.spec_dilation(),
    {
        Conv1d { padding, ..self }
    }

    /// The same convolution with the given dilation.
    pub fn with_dilation(self, dilation: usize) -> (c: Conv1d)
        ensures
            c.spec_in_channels() == self.spec_in_channels(),
            c.spec_out_channels() == self.spec_out_channels(),
            c.spec_kernel_size() == self.spec_kernel_size(),
            c.spec_stride() == self.spec_stride(),
            c.spec_padding() == self.spec_padding(),
            c.spec_dilation() == dilation,
    {
        Conv1d { dilation, ..self }
    }

    pub fn in_channels(&self) -> (n: usize)
        ensures
            n == self.spec_in_channels(),
    {
        self.in_channels
    }

    pub fn out_channels(&self) -> (n: usize)
        ensures
            n == self.spec_out_channels(),
    {
        self.out_channels
    }

    pub fn kernel_size(&self) -> (n: usize)
        ensures
            n == self.spec_kernel_size(),
    {
        self.kernel_size
    }

    pub fn stride(&self) -> (n: usize)
        ensures
            n == self.spec_stride(),
    {
        self.stride
    }

    pub fn padding(&self) -> (n: usize)
        ensures
            n == self.spec_padding(),
    {
        self.padding
    }

    pub fn dilation(&self) -> (n: usize)
        ensures
            n == self.spec_dilation(),
    {
        self.dilation
    }

    /// Length of the output along the last axis for an input of length `length`.
    pub fn output_length(&self, length: usize) -> (n: usize)
        requires
            self.geometry_ok(length as int),
        ensures
            n == self.out_len(length as int),
            1 <= n <= length + 2 * self.spec_padding() - self.reach(),
    {
        let reach = self.dilation * (self.kernel_size - 1);
        let span = length + 2 * self.padding - reach - 1;
        let q = span / self.stride;
        proof {
            assert(q <= span) by (nonlinear_arith)
                requires
                    q == span / self.stride,
                    self.stride >= 1,
            ;
        }
        q + 1
    }

    /// Whether an input of shape `[batch, in_channels, length]` is accepted (see
    /// [`Conv1d::accepts`]).
    pub fn accepts_input(&self, batch: usize, length: usize) -> (r: bool)
        ensures
            r == self.accepts(batch as int, length as int),
    {
        if self.kernel_size == 0 || self.stride == 0 {
            return false;
        }
        let reach = match self.dilation.checked_mul(self.kernel_size - 1) {
            Some(x) => x,
            None => {
                return false;
            },
        };
        let two_p = match self.padding.checked_mul(2) {
            Some(x) => x,
            None => {
                return false;
            },
        };
        let padded = match length.checked_add(two_p) {
            Some(x) => x,
            None => {
                return false;
            },
        };
        if reach >= padded {
            return false;
        }
        if !fits_product3(batch, self.in_channels, length) {
            return false;
        }
        if !fits_product3(self.out_channels, self.in_channels, self.kernel_size) {
            return false;
        }
        let ol = self.output_length(length);
        fits_product3(batch, self.out_channels, ol)
    }

    /// Shape of the output for an input of shape `[batch, in_channels, length]`:
    /// `[batch, out_channels, output_length(length)]`.
    pub fn output_shape(&self, input_shape: &[usize]) -> (out: Vec<usize>)
        requires
            input_shape@.len() == 3,
            input_shape@[1] == self.spec_in_channels(),
            self.geometry_ok(input_shape@[2] as int),
        ensures
            out@ == seq![
                input_shape@[0],
                self.spec_out_channels() as usize,
                self.out_len(input_shape@[2] as int) as usize,
            ],
    {
        let mut out: Vec<usize> = Vec::new();
        out.push(input_shape[0]);
        out.push(self.out_channels);
        out.push(self.output_length(input_shape[2]));
        out
    }

    /// The input position read by output position `o` through kernel tap `k`, or `None`
    /// where the tap falls into the zero padding.
    pub fn input_position(&self, o: usize, k: usize, length: usize) -> (r: Option<usize>)
        requires
            self.geometry_ok(length as int),
            o < self.out_len(length as int),
            k < self.spec_kernel_size(),
        ensures
            opt_int(r) == self.input_pos(o as int, k as int, length as int),
    {
        proof {
            self.lemma_tap_in_padded_range(o as int, k as int, length as int);
        }
        let a = o * self.stride + k * self.dilation;
        if a >= self.padding && a - self.padding < length {
            Some(a - self.padding)
        } else {
            None
        }
    }

    /// The output position that reads input position `p` through kernel tap `k`, or `None`
    /// when no output does.
    pub fn output_position(&self, p: usize, k: usize, length: usize) -> (r: Option<usize>)
        requires
            self.geometry_ok(length as int),
            p < length,
            k < self.spec_kernel_size(),
        ensures
            opt_int(r) == self.output_pos(p as int, k as int, length as int),
    {
        proof {
            assert(k * self.dilation <= self.reach()) by (nonlinear_arith)
                requires
                    k < self.kernel_size,
            ;
        }
        let kd = k * self.dilation;
        let shifted = p + self.padding;
        if shifted < kd {
            return None;
        }
        let num = shifted - kd;
        if num % self.stride != 0 {
            return None;
        }
        let o = num / self.stride;
        if o < self.output_length(length) {
            Some(o)
        } else {
            None
        }
    }

    /// The (input index, weight index) pairs whose products, added to the bias, give output
    /// element `(b, oc, o)`, in the order input channel major, kernel tap minor.
    pub fn forward_taps(&self, batch: usize, length: usize, b: usize, oc: usize, o: usize) -> (taps:
        Vec<(usize, usize)>)
        requires
            self.accepts(batch as int, length as int),
            b < batch,
            oc < self.spec_out_channels(),
            o < self.out_len(length as int),
        ensures
            pairs_view(taps@) == self.spec_forward_taps(length as int, b as int, oc as int, o as int),
            pairs_view(taps@).no_duplicates(),
            taps@.len() == self.in_range_tap_count(
                length as int,
                o as int,
                (self.spec_in_channels() * self.spec_kernel_size()) as int,
            ),
            forall|j: int|
                0 <= j < taps@.len() ==> (#[trigger] taps@[j]).0 < batch * self.spec_in_channels()
                    * length && taps@[j].1 < self.spec_out_channels() * self.spec_in_channels()
                    * self.spec_kernel_size(),
    {
        let kk = self.kernel_size;
        proof {
            assert(self.in_channels * kk <= self.out_channels * self.in_channels * kk)
                by (nonlinear_arith)
                requires
                    oc < self.out_channels,
            ;
        }
        let n = self.in_channels * kk;
        let mut taps: Vec<(usize, usize)> = Vec::new();
        let mut t: usize = 0;
        while t < n
            invariant
                t <= n,
                n == self.in_channels * kk,
                kk == self.kernel_size,
                kk >= 1,
                self.accepts(batch as int, length as int),
                b < batch,
                oc < self.out_channels,
                o < self.out_len(length as int),
                pairs_view(taps@) == self.forward_taps_upto(
                    length as int,
                    b as int,
                    oc as int,
                    o as int,
                    t as int,
                ),
                forall|j: int|
                    0 <= j < taps@.len() ==> (#[trigger] taps@[j]).0 < batch * self.in_channels
                        * length && taps@[j].1 < self.out_channels * self.in_channels * kk,
            decreases n - t,
        {
            let ic = t / kk;
            let k = t % kk;
            proof {
                assert(ic < self.in_channels) by (nonlinear_arith)
                    requires
                        t < self.in_channels * kk,
                        ic == t / kk,
                        kk >= 1,
                ;
            }
            match self.input_position(o, k, length) {
                Some(p) => {
                    let i = flat_index3(b, ic, p, batch, self.in_channels, length);
                    let w = flat_index3(oc, ic, k, self.out_channels, self.in_channels, kk);
                    taps.push((i, w));
                },
                None => {},
            }
            proof {
                assert(pairs_view(taps@) =~= self.forward_taps_upto(
                    length as int,
                    b as int,
                    oc as int,
                    o as int,
                    t + 1,
                ));
            }
            t = t + 1;
        }
        proof {
            self.lemma_forward_taps_exact(batch as int, length as int, b as int, oc as int, o as int);
        }
        taps
    }

    /// The (output index, weight index) pairs whose products sum to the gradient of input
    /// element `(b, ic, p)`, in the order output channel major, kernel tap minor.
    pub fn backward_taps(&self, batch: usize, length: usize, b: usize, ic: usize, p: usize) -> (taps:
        Vec<(usize, usize)>)
        requires
            self.accepts(batch as int, length as int),
            b < batch,
            ic < self.spec_in_channels(),
            p < length,
        ensures
            pairs_view(taps@) == self.spec_backward_taps(length as int, b as int, ic as int, p as int),
            pairs_view(taps@).no_duplicates(),
            taps@.len() == self.defined_output_count(
                length as int,
                p as int,
                (self.spec_out_channels() * self.spec_kernel_size()) as int,
            ),
            forall|j: int|
                0 <= j < taps@.len() ==> (#[trigger] taps@[j]).0 < batch * self.spec_out_channels()
                    * self.out_len(length as int) && taps@[j].1 < self.spec_out_channels()
                    * self.spec_in_channels() * self.spec_kernel_size(),
    {
        let kk = self.kernel_size;
        let ol = self.output_length(length);
        proof {
            assert(self.out_channels * kk <= self.out_channels * self.in_channels * kk)
                by (nonlinear_arith)
                requires
                    ic < self.in_channels,
            ;
        }
        let n = self.out_channels * kk;
        let mut taps: Vec<(usize, usize)> = Vec::new();
        let mut t: usize = 0;
        while t < n
            invariant
                t <= n,
                n == self.out_channels * kk,
                kk == self.kernel_size,
                kk >= 1,
                ol == self.out_len(length as int),
                self.accepts(batch as int, length as int),
                b < batch,
                ic < self.in_channels,
                p < length,
                pairs_view(taps@) == self.backward_taps_upto(
                    length as int,
                    b as int,
                    ic as int,
                    p as int,
                    t as int,
                ),
                forall|j: int|
                    0 <= j < taps@.len() ==> (#[trigger] taps@[j]).0 < batch * self.out_channels
                        * ol && taps@[j].1 < self.out_channels * self.in_channels * kk,
            decreases n - t,
        {
            let oc = t / kk;
            let k = t % kk;
            proof {
                assert(oc < self.out_channels) by (nonlinear_arith)
                    requires
                        t < self.out_channels * kk,
                        oc == t / kk,
                        kk >= 1,
                ;
            }
            match self.output_position(p, k, length) {
                Some(o) => {
                    let g = flat_index3(b, oc, o, batch, self.out_channels, ol);
                    let w = flat_index3(oc, ic, k, self.out_channels, self.in_channels, kk);
                    taps.push((g, w));
                },
                None => {},
            }
            proof {
                assert(pairs_view(taps@) =~= self.backward_taps_upto(
                    length as int,
                    b as int,
                    ic as int,
                    p as int,
                    t + 1,
                ));
            }
            t = t + 1;
        }
        proof {
            self.lemma_backward_taps_exact(batch as int, length as int, b as int, ic as int, p as int);
        }
        taps
    }

    /// Flat index of input element `(b, ic, p)` of an input of shape
    /// `[batch, in_channels, length]`.
    pub fn input_flat_index(&self, batch: usize, length: usize, b: usize, ic: usize, p: usize) -> (x:
        usize)
        requires
            self.accepts(batch as int, length as int),
            b < batch,
            ic < self.spec_in_channels(),
            p < length,
        ensures
            x == self.input_index(b as int, ic as int, p as int, length as int),
            x < batch * self.spec_in_channels() * length,
    {
        flat_index3(b, ic, p, batch, self.in_channels, length)
    }

    /// Flat index of output element `(b, oc, o)` for an input of shape
    /// `[batch, in_channels, length]`.
    pub fn output_flat_index(&self, batch: usize, length: usize, b: usize, oc: usize, o: usize) -> (x:
        usize)
        requires
            self.accepts(batch as int, length as int),
            b < batch,
            oc < self.spec_out_channels(),
            o < self.out_len(length as int),
        ensures
            x == self.output_index(b as int, oc as int, o as int, length as int),
            x < batch * self.spec_out_channels() * self.out_len(length as int),
    {
        let ol = self.output_length(length);
        flat_index3(b, oc, o, batch, self.out_channels, ol)
    }

    /// Every tap of a valid output position lands inside the padded input
    /// `0 .. length + 2 * padding`, so its unshifted position fits a `usize`.
    proof fn lemma_tap_in_padded_range(self, o: int, k: int, length: int)
        requires
            self.geometry_ok(length),
            0 <= o < self.out_len(length),
            0 <= k < self.spec_kernel_size(),
        ensures
            0 <= o * self.spec_stride() + k * self.spec_dilation() < length + 2
                * self.spec_padding(),
    {
        let s = self.spec_stride() as int;
        let d = self.spec_dilation() as int;
        let kk = self.spec_kernel_size() as int;
        let span = length + 2 * self.spec_padding() - self.reach() - 1;
        lemma_fundamental_div_mod(span, s);
        lemma_mod_pos_bound(span, s);
        assert(o * s <= span) by (nonlinear_arith)
            requires
                0 <= o <= span / s,
                span == s * (span / s) + span % s,
                0 <= span % s,
                s >= 1,
        ;
        assert(0 <= k * d <= d * (kk - 1)) by (nonlinear_arith)
            requires
                0 <= k < kk,
                d >= 0,
        ;
        assert(0 <= o * s) by (nonlinear_arith)
            requires
                0 <= o,
                s >= 1,
        ;
    }
}

impl Conv1d {
    /// Forward and backward index maps are inverse to each other: output position `o` reads
    /// input position `p` through kernel tap `k` exactly when the backward map sends `p`
    /// through tap `k` back to `o`.
    pub proof fn lemma_positions_adjoint(self, o: int, k: int, p: int, length: int)
        requires
            self.geometry_ok(length),
            0 <= o < self.out_len(length),
            0 <= k < self.spec_kernel_size(),
            0 <= p < length,
        ensures
            self.input_pos(o, k, length) == Some(p) <==> self.output_pos(p, k, length) == Some(o),
    {
        let s = self.spec_stride() as int;
        let d = self.spec_dilation() as int;
        let pad = self.spec_padding() as int;
        let num = p + pad - k * d;
        if self.input_pos(o, k, length) == Some(p) {
            assert(num == o * s);
            assert(o * s >= 0) by (nonlinear_arith)
                requires
                    o >= 0,
                    s >= 1,
            ;
            lemma_fundamental_div_mod_converse(num, s, o, 0);
        }
        if self.output_pos(p, k, length) == Some(o) {
            lemma_fundamental_div_mod(num, s);
            assert(num == o * s) by (nonlinear_arith)
                requires
                    num == s * (num / s) + num % s,
                    num % s == 0,
                    num / s == o,
            ;
        }
    }

    /// Membership in the forward taps of output `(b, oc, o)`: the pair for input channel
    /// `ic`, tap `k` and input position `p` is present among the first `t` combinations
    /// exactly when that combination is among them and the tap reads position `p`.
    proof fn lemma_forward_taps_member(
        self,
        length: int,
        b: int,
        oc: int,
        o: int,
        ic: int,
        k: int,
        p: int,
        t: int,
    )
        requires
            self.geometry_ok(length),
            0 <= b,
            0 <= oc,
            0 <= o < self.out_len(length),
            0 <= ic < self.spec_in_channels(),
            0 <= k < self.spec_kernel_size(),
            0 <= p < length,
            0 <= t <= self.spec_in_channels() * self.spec_kernel_size(),
        ensures
            self.forward_taps_upto(length, b, oc, o, t).contains(
                (self.input_index(b, ic, p, length), self.weight_index(oc, ic, k)),
            ) <==> (ic * self.spec_kernel_size() + k < t && self.input_pos(o, k, length) == Some(
                p,
            )),
        decreases t,
    {
        let kk = self.spec_kernel_size() as int;
        let nic = self.spec_in_channels() as int;
        let x = (self.input_index(b, ic, p, length), self.weight_index(oc, ic, k));
        if t > 0 {
            self.lemma_forward_taps_member(length, b, oc, o, ic, k, p, t - 1);
            let prev = self.forward_taps_upto(length, b, oc, o, t - 1);
            let ic2 = (t - 1) / kk;
            let k2 = (t - 1) % kk;
            lemma_fundamental_div_mod(t - 1, kk);
            lemma_mod_pos_bound(t - 1, kk);
            assert(0 <= ic2 < nic) by (nonlinear_arith)
                requires
                    t - 1 == kk * ic2 + k2,
                    0 <= k2 < kk,
                    0 <= t - 1 < nic * kk,
            ;
            if ic * kk + k == t - 1 {
                lemma_fundamental_div_mod_converse(t - 1, kk, ic, k);
            }
            match self.input_pos(o, k2, length) {
                Some(p2) => {
                    let y = (self.input_index(b, ic2, p2, length), self.weight_index(oc, ic2, k2));
                    vstd::seq_lib::lemma_seq_contains_after_push(prev, y, x);
                    if x == y {
                        lemma_flat3_injective(oc, ic, k, oc, ic2, k2, nic, kk);
                        lemma_flat3_injective(b, ic, p, b, ic2, p2, nic, length);
                        assert(ic * kk + k == t - 1);
                    }
                },
                None => {
                    if ic * kk + k == t - 1 {
                        assert(ic2 == ic && k2 == k);
                    }
                },
            }
        }
    }

    /// Membership in the backward taps of input `(b, ic, p)`: the pair for output channel
    /// `oc`, tap `k` and output position `o` is present among the first `t` combinations
    /// exactly when that combination is among them and the backward map sends `p` to `o`.
    proof fn lemma_backward_taps_member(
        self,
        length: int,
        b: int,
        ic: int,
        p: int,
        oc: int,
        k: int,
        o: int,
        t: int,
    )
        requires
            self.geometry_ok(length),
            0 <= b,
            0 <= ic < self.spec_in_channels(),
            0 <= p < length,
            0 <= oc < self.spec_out_channels(),
            0 <= k < self.spec_kernel_size(),
            0 <= o < self.out_len(length),
            0 <= t <= self.spec_out_channels() * self.spec_kernel_size(),
        ensures
            self.backward_taps_upto(length, b, ic, p, t).contains(
                (self.output_index(b, oc, o, length), self.weight_index(oc, ic, k)),
            ) <==> (oc * self.spec_kernel_size() + k < t && self.output_pos(p, k, length) == Some(
                o,
            )),
        decreases t,
    {
        let kk = self.spec_kernel_size() as int;
        let noc = self.spec_out_channels() as int;
        let nic = self.spec_in_channels() as int;
        let ol = self.out_len(length);
        let x = (self.output_index(b, oc, o, length), self.weight_index(oc, ic, k));
        if t > 0 {
            self.lemma_backward_taps_member(length, b, ic, p, oc, k, o, t - 1);
            let prev = self.backward_taps_upto(length, b, ic, p, t - 1);
            let oc2 = (t - 1) / kk;
            let k2 = (t - 1) % kk;
            lemma_fundamental_div_mod(t - 1, kk);
            lemma_mod_pos_bound(t - 1, kk);
            assert(0 <= oc2 < noc) by (nonlinear_arith)
                requires
                    t - 1 == kk * oc2 + k2,
                    0 <= k2 < kk,
                    0 <= t - 1 < noc * kk,
            ;
            if oc * kk + k == t - 1 {
                lemma_fundamental_div_mod_converse(t - 1, kk, oc, k);
            }
            match self.output_pos(p, k2, length) {
                Some(o2) => {
                    let num = p + self.spec_padding() - k2 * self.spec_dilation();
                    let s = self.spec_stride() as int;
                    assert(o2 >= 0) by (nonlinear_arith)
                        requires
                            num >= 0,
                            s >= 1,
                            o2 == num / s,
                    ;
                    let y = (self.output_index(b, oc2, o2, length), self.weight_index(oc2, ic, k2));
                    vstd::seq_lib::lemma_seq_contains_after_push(prev, y, x);
                    if x == y {
                        lemma_flat3_injective(b, oc, o, b, oc2, o2, noc, ol);
                        lemma_flat3_injective(oc, ic, k, oc2, ic, k2, nic, kk);
                        assert(oc * kk + k == t - 1) by (nonlinear_arith)
                            requires
                                oc == oc2,
                                k == k2,
                                t - 1 == kk * oc2 + k2,
                        ;
                    }
                },
                None => {
                    if oc * kk + k == t - 1 {
                        assert(oc2 == oc && k2 == k);
                    }
                },
            }
        }
    }

    /// Gradient routing is the adjoint of the forward routing: the product of input element
    /// `(b, ic, p)` and weight `(oc, ic, k)` is summed into output `(b, oc, o)` exactly when
    /// the product of the gradient at output `(b, oc, o)` and that same weight is summed into
    /// the gradient at input `(b, ic, p)`, and both happen exactly when tap `k` of output
    /// position `o` reads input position `p`.
    pub proof fn lemma_taps_adjoint(
        self,
        batch: int,
        length: int,
        b: int,
        oc: int,
        o: int,
        ic: int,
        k: int,
        p: int,
    )
        requires
            self.accepts(batch, length),
            0 <= b < batch,
            0 <= oc < self.spec_out_channels(),
            0 <= o < self.out_len(length),
            0 <= ic < self.spec_in_channels(),
            0 <= k < self.spec_kernel_size(),
            0 <= p < length,
        ensures
            self.spec_forward_taps(length, b, oc, o).contains(
                (self.input_index(b, ic, p, length), self.weight_index(oc, ic, k)),
            ) <==> self.input_pos(o, k, length) == Some(p),
            self.spec_backward_taps(length, b, ic, p).contains(
                (self.output_index(b, oc, o, length), self.weight_index(oc, ic, k)),
            ) <==> self.input_pos(o, k, length) == Some(p),
    {
        let kk = self.spec_kernel_size() as int;
        let nic = self.spec_in_channels() as int;
        let noc = self.spec_out_channels() as int;
        assert(ic * kk + k < nic * kk) by (nonlinear_arith)
            requires
                0 <= ic < nic,
                0 <= k < kk,
        ;
        assert(oc * kk + k < noc * kk) by (nonlinear_arith)
            requires
                0 <= oc < noc,
                0 <= k < kk,
        ;
        self.lemma_forward_taps_member(length, b, oc, o, ic, k, p, nic * kk);
        self.lemma_backward_taps_member(length, b, ic, p, oc, k, o, noc * kk);
        self.lemma_positions_adjoint(o, k, p, length);
    }
}

impl Conv1d {
    /// A convolution has `out_channels * in_channels * kernel_size + out_channels` learnable
    /// scalars: the weight and the bias.
    pub proof fn lemma_parameter_total(self)
        ensures
            total_numel(self.param_shapes()) == self.spec_out_channels() * self.spec_in_channels()
                * self.spec_kernel_size() + self.spec_out_channels(),
    {
        lemma_numel_small(self.out_channels, self.in_channels, self.kernel_size);
        lemma_total_numel_two(
            seq![self.out_channels, self.in_channels, self.kernel_size],
            seq![self.out_channels],
        );
    }
}

impl Layer for Conv1d {
    /// The weight `[out_channels, in_channels, kernel_size]`, then the bias `[out_channels]`.
    open spec fn param_shapes(&self) -> Seq<Seq<usize>> {
        seq![
            seq![
                self.spec_out_channels() as usize,
                self.spec_in_channels() as usize,
                self.spec_kernel_size() as usize,
            ],
            seq![self.spec_out_channels() as usize],
        ]
    }

    fn parameters(&self) -> (params: Vec<ParamShape>)
        ensures
            params@.len() == 2,
            params@[0]@ == seq![
                self.spec_out_channels() as usize,
                self.spec_in_channels() as usize,
                self.spec_kernel_size() as usize,
            ],
            params@[1]@ == seq![self.spec_out_channels() as usize],
    {
        let mut params: Vec<ParamShape> = Vec::new();
        let mut w: Vec<usize> = Vec::new();
        w.push(self.out_channels);
        w.push(self.in_channels);
        w.push(self.kernel_size);
        params.push(ParamShape::new(w));
        let mut bias: Vec<usize> = Vec::new();
        bias.push(self.out_channels);
        params.push(ParamShape::new(bias));
        proof {
            assert(params@[0]@ =~= self.param_shapes()[0]);
            assert(params@[1]@ =~= self.param_shapes()[1]);
            assert(shapes_of(params@) =~= self.param_shapes());
        }
        params
    }
}

/// Builder for [`Conv1d`] layers; stride, padding and dilation default to 1, 0 and 1.
pub struct Conv1dBuilder {
    in_channels: usize,
    out_channels: usize,
    kernel_size: usize,
    stride: usize,
    padding: usize,
    dilation: usize,
}

impl Conv1dBuilder {
    pub closed spec fn spec_settings(self) -> (usize, usize, usize, usize, usize, usize) {
        (
            self.in_channels,
            self.out_channels,
            self.kernel_size,
            self.stride,
            self.padding,
            self.dilation,
        )
    }

    /// A builder with stride 1, no padding and dilation 1.
    pub fn new(in_channels: usize, out_channels: usize, kernel_size: usize) -> (builder:
        Conv1dBuilder)
        ensures
            builder.spec_settings() == (in_channels, out_channels, kernel_size, 1usize, 0usize, 1usize),
    {
        Conv1dBuilder { in_channels, out_channels, kernel_size, stride: 1, padding: 0, dilation: 1 }
    }

    /// Sets the stride.
    pub fn stride(self, stride: usize) -> (builder: Conv1dBuilder)
        ensures
            builder.spec_settings() == (
                self.spec_settings().0,
                self.spec_settings().1,
                self.spec_settings().2,
                stride,
                self.spec_settings().4,
                self.spec_settings().5,
            ),
    {
        Conv1dBuilder { stride, ..self }
    }

    /// Sets the zero padding on both ends.
    pub fn padding(self, padding: usize) -> (builder: Conv1dBuilder)
        ensures
            builder.spec_settings() == (
                self.spec_settings().0,
                self.spec_settings().1,
                self.spec_settings().2,
                self.spec_settings().3,
                padding,
                self.spec_settings().5,
            ),
    {
        Conv1dBuilder { padding, ..self }
    }

    /// Sets the dilation.
    pub fn dilation(self, dilation: usize) -> (builder: Conv1dBuilder)
        ensures
            builder.spec_settings() == (
                self.spec_settings().0,
                self.spec_settings().1,
                self.spec_settings().2,
                self.spec_settings().3,
                self.spec_settings().4,
                dilation,
            ),
    {
        Conv1dBuilder { dilation, ..self }
    }

    /// The convolution with the configured settings.
    pub fn build(self) -> (layer: Conv1d)
        ensures
            layer.spec_in_channels() == self.spec_settings().0,
            layer.spec_out_channels() == self.spec_settings().1,
            layer.spec_kernel_size() == self.spec_settings().2,
            layer.spec_stride() == self.spec_settings().3,
            layer.spec_padding() == self.spec_settings().4,
            layer.spec_dilation() == self.spec_settings().5,
    {
        Conv1d::new(self.in_channels, self.out_channels, self.kernel_size).with_stride(
            self.stride,
        ).with_padding(self.padding).with_dilation(self.dilation)
    }
}

impl Conv1d {
    /// Number of (input channel, kernel tap) combinations among the first `t` (input channel
    /// major) whose tap, for output position `o`, reads a position inside the input.
    pub open spec fn in_range_tap_count(self, length: int, o: int, t: int) -> nat
        decreases t,
    {
        if t <= 0 {
            0
        } else {
            self.in_range_tap_count(length, o, t - 1) + if self.input_pos(
                o,
                (t - 1) % (self.spec_kernel_size() as int),
                length,
            ) is Some {
                1nat
            } else {
                0nat
            }
        }
    }

    /// Number of (output channel, kernel tap) combinations among the first `t` (output
    /// channel major) through whose tap input position `p` is read by some output position.
    pub open spec fn defined_output_count(self, length: int, p: int, t: int) -> nat
        decreases t,
    {
        if t <= 0 {
            0
        } else {
            self.defined_output_count(length, p, t - 1) + if self.output_pos(
                p,
                (t - 1) % (self.spec_kernel_size() as int),
                length,
            ) is Some {
                1nat
            } else {
                0nat
            }
        }
    }

    /// `x` is the product of input element `(b, ic, p)` and weight `(oc, ic, k)` for some
    /// input channel `ic` and tap `k` whose tap reads position `p` for output position `o`.
    pub open spec fn is_forward_product(self, length: int, b: int, oc: int, o: int, x: (int, int)) -> bool {
        exists|ic: int, k: int, p: int|
            0 <= ic < self.spec_in_channels() && 0 <= k < self.spec_kernel_size()
                && self.input_pos(o, k, length) == Some(p) && x == (
                self.input_index(b, ic, p, length),
                self.weight_index(oc, ic, k),
            )
    }

    /// `x` is the product of the gradient at output `(b, oc, o)` and weight `(oc, ic, k)` for
    /// some output channel `oc` and tap `k` through which output position `o` reads input
    /// position `p`.
    pub open spec fn is_backward_product(self, length: int, b: int, ic: int, p: int, x: (int, int)) -> bool {
        exists|oc: int, k: int, o: int|
            0 <= oc < self.spec_out_channels() && 0 <= k < self.spec_kernel_size() && 0 <= o
                && self.output_pos(p, k, length) == Some(o) && x == (
                self.output_index(b, oc, o, length),
                self.weight_index(oc, ic, k),
            )
    }

    proof fn lemma_forward_taps_upto_exact(self, length: int, b: int, oc: int, o: int, t: int)
        requires
            self.geometry_ok(length),
            0 <= b,
            0 <= oc,
            0 <= o < self.out_len(length),
            0 <= t <= self.spec_in_channels() * self.spec_kernel_size(),
        ensures
            self.forward_taps_upto(length, b, oc, o, t).no_duplicates(),
            self.forward_taps_upto(length, b, oc, o, t).len() == self.in_range_tap_count(length, o, t),
            forall|j: int|
                0 <= j < self.forward_taps_upto(length, b, oc, o, t).len()
                    ==> self.is_forward_product(
                    length,
                    b,
                    oc,
                    o,
                    #[trigger] self.forward_taps_upto(length, b, oc, o, t)[j],
                ),
        decreases t,
    {
        if t > 0 {
            let kk = self.spec_kernel_size() as int;
            let nic = self.spec_in_channels() as int;
            self.lemma_forward_taps_upto_exact(length, b, oc, o, t - 1);
            let prev = self.forward_taps_upto(length, b, oc, o, t - 1);
            let cur = self.forward_taps_upto(length, b, oc, o, t);
            let ic2 = (t - 1) / kk;
            let k2 = (t - 1) % kk;
            lemma_fundamental_div_mod(t - 1, kk);
            lemma_mod_pos_bound(t - 1, kk);
            assert(0 <= ic2 < nic) by (nonlinear_arith)
                requires
                    t - 1 == kk * ic2 + k2,
                    0 <= k2 < kk,
                    0 <= t - 1 < nic * kk,
            ;
            assert(ic2 * kk + k2 == t - 1) by (nonlinear_arith)
                requires
                    t - 1 == kk * ic2 + k2,
            ;
            match self.input_pos(o, k2, length) {
                Some(p2) => {
                    let y = (self.input_index(b, ic2, p2, length), self.weight_index(oc, ic2, k2));
                    self.lemma_forward_taps_member(length, b, oc, o, ic2, k2, p2, t - 1);
                    assert(cur == prev.push(y));
                    assert(!prev.contains(y));
                    assert forall|i: int, j: int|
                        0 <= i < cur.len() && 0 <= j < cur.len() && i != j implies cur[i]
                        != cur[j] by {
                        if i < prev.len() && j < prev.len() {
                            assert(cur[i] == prev[i] && cur[j] == prev[j]);
                        } else if i < prev.len() {
                            assert(cur[i] == prev[i]);
                            assert(cur[j] == y);
                        } else {
                            assert(cur[j] == prev[j]);
                            assert(cur[i] == y);
                        }
                    }
                    assert forall|j: int| 0 <= j < cur.len() implies self.is_forward_product(
                        length,
                        b,
                        oc,
                        o,
                        #[trigger] cur[j],
                    ) by {
                        if j < prev.len() {
                            assert(cur[j] == prev[j]);
                        } else {
                            assert(cur[j] == y);
                        }
                    }
                },
                None => {},
            }
        }
    }

    /// Each input/weight product is summed into output `(b, oc, o)` exactly once: the
    /// forward taps hold no pair twice, every pair is the product of an input element and a
    /// weight along an in-range tap, every such product is present, and there are exactly as
    /// many as there are (input channel, tap) combinations whose tap reads inside the input.
    pub proof fn lemma_forward_taps_exact(self, batch: int, length: int, b: int, oc: int, o: int)
        requires
            self.accepts(batch, length),
            0 <= b < batch,
            0 <= oc < self.spec_out_channels(),
            0 <= o < self.out_len(length),
        ensures
            self.spec_forward_taps(length, b, oc, o).no_duplicates(),
            self.spec_forward_taps(length, b, oc, o).len() == self.in_range_tap_count(
                length,
                o,
                (self.spec_in_channels() * self.spec_kernel_size()) as int,
            ),
            forall|j: int|
                0 <= j < self.spec_forward_taps(length, b, oc, o).len()
                    ==> self.is_forward_product(
                    length,
                    b,
                    oc,
                    o,
                    #[trigger] self.spec_forward_taps(length, b, oc, o)[j],
                ),
            forall|ic: int, k: int, p: int|
                #![trigger self.input_index(b, ic, p, length), self.weight_index(oc, ic, k)]
                0 <= ic < self.spec_in_channels() && 0 <= k < self.spec_kernel_size() && 0 <= p
                    < length && self.input_pos(o, k, length) == Some(p)
                    ==> self.spec_forward_taps(length, b, oc, o).contains(
                    (self.input_index(b, ic, p, length), self.weight_index(oc, ic, k)),
                ),
    {
        let n = (self.spec_in_channels() * self.spec_kernel_size()) as int;
        self.lemma_forward_taps_upto_exact(length, b, oc, o, n);
        assert forall|ic: int, k: int, p: int|
            #![trigger self.input_index(b, ic, p, length), self.weight_index(oc, ic, k)]
            0 <= ic < self.spec_in_channels() && 0 <= k < self.spec_kernel_size() && 0 <= p < length
                && self.input_pos(o, k, length) == Some(p) implies self.spec_forward_taps(
            length,
            b,
            oc,
            o,
        ).contains((self.input_index(b, ic, p, length), self.weight_index(oc, ic, k))) by {
            self.lemma_taps_adjoint(batch, length, b, oc, o, ic, k, p);
        }
    }

    proof fn lemma_backward_taps_upto_exact(self, length: int, b: int, ic: int, p: int, t: int)
        requires
            self.geometry_ok(length),
            0 <= b,
            0 <= ic < self.spec_in_channels(),
            0 <= p < length,
            0 <= t <= self.spec_out_channels() * self.spec_kernel_size(),
        ensures
            self.backward_taps_upto(length, b, ic, p, t).no_duplicates(),
            self.backward_taps_upto(length, b, ic, p, t).len() == self.defined_output_count(
                length,
                p,
                t,
            ),
            forall|j: int|
                0 <= j < self.backward_taps_upto(length, b, ic, p, t).len()
                    ==> self.is_backward_product(
                    length,
                    b,
                    ic,
                    p,
                    #[trigger] self.backward_taps_upto(length, b, ic, p, t)[j],
                ),
        decreases t,
    {
        if t > 0 {
            let kk = self.spec_kernel_size() as int;
            let noc = self.spec_out_channels() as int;
            self.lemma_backward_taps_upto_exact(length, b, ic, p, t - 1);
            let prev = self.backward_taps_upto(length, b, ic, p, t - 1);
            let cur = self.backward_taps_upto(length, b, ic, p, t);
            let oc2 = (t - 1) / kk;
            let k2 = (t - 1) % kk;
            lemma_fundamental_div_mod(t - 1, kk);
            lemma_mod_pos_bound(t - 1, kk);
            assert(0 <= oc2 < noc) by (nonlinear_arith)
                requires
                    t - 1 == kk * oc2 + k2,
                    0 <= k2 < kk,
                    0 <= t - 1 < noc * kk,
            ;
            assert(oc2 * kk + k2 == t - 1) by (nonlinear_arith)
                requires
                    t - 1 == kk * oc2 + k2,
            ;
            match self.output_pos(p, k2, length) {
                Some(o2) => {
                    let num = p + self.spec_padding() - k2 * self.spec_dilation();
                    let s = self.spec_stride() as int;
                    assert(o2 >= 0) by (nonlinear_arith)
                        requires
                            num >= 0,
                            s >= 1,
                            o2 == num / s,
                    ;
                    let y = (self.output_index(b, oc2, o2, length), self.weight_index(oc2, ic, k2));
                    self.lemma_backward_taps_member(length, b, ic, p, oc2, k2, o2, t - 1);
                    assert(cur == prev.push(y));
                    assert(!prev.contains(y));
                    assert forall|i: int, j: int|
                        0 <= i < cur.len() && 0 <= j < cur.len() && i != j implies cur[i]
                        != cur[j] by {
                        if i < prev.len() && j < prev.len() {
                            assert(cur[i] == prev[i] && cur[j] == prev[j]);
                        } else if i < prev.len() {
                            assert(cur[i] == prev[i]);
                            assert(cur[j] == y);
                        } else {
                            assert(cur[j] == prev[j]);
                            assert(cur[i] == y);
                        }
                    }
                    assert forall|j: int| 0 <= j < cur.len() implies self.is_backward_product(
                        length,
                        b,
                        ic,
                        p,
                        #[trigger] cur[j],
                    ) by {
                        if j < prev.len() {
                            assert(cur[j] == prev[j]);
                        } else {
                            assert(cur[j] == y);
                        }
                    }
                },
                None => {},
            }
        }
    }

    /// Each gradient/weight product is summed into the gradient of input `(b, ic, p)` exactly
    /// once: the backward taps hold no pair twice, every pair is the product of an output
    /// gradient and a weight along a tap through which that output reads `p`, every such
    /// product is present, and there are exactly as many as there are (output channel, tap)
    /// combinations through which some output reads `p`.
    pub proof fn lemma_backward_taps_exact(self, batch: int, length: int, b: int, ic: int, p: int)
        requires
            self.accepts(batch, length),
            0 <= b < batch,
            0 <= ic < self.spec_in_channels(),
            0 <= p < length,
        ensures
            self.spec_backward_taps(length, b, ic, p).no_duplicates(),
            self.spec_backward_taps(length, b, ic, p).len() == self.defined_output_count(
                length,
                p,
                (self.spec_out_channels() * self.spec_kernel_size()) as int,
            ),
            forall|j: int|
                0 <= j < self.spec_backward_taps(length, b, ic, p).len()
                    ==> self.is_backward_product(
                    length,
                    b,
                    ic,
                    p,
                    #[trigger] self.spec_backward_taps(length, b, ic, p)[j],
                ),
            forall|oc: int, k: int, o: int|
                #![trigger self.output_index(b, oc, o, length), self.weight_index(oc, ic, k)]
                0 <= oc < self.spec_out_channels() && 0 <= k < self.spec_kernel_size() && 0 <= o
                    < self.out_len(length) && self.output_pos(p, k, length) == Some(o)
                    ==> self.spec_backward_taps(length, b, ic, p).contains(
                    (self.output_index(b, oc, o, length), self.weight_index(oc, ic, k)),
                ),
    {
        let n = (self.spec_out_channels() * self.spec_kernel_size()) as int;
        self.lemma_backward_taps_upto_exact(length, b, ic, p, n);
        assert forall|oc: int, k: int, o: int|
            #![trigger self.output_index(b, oc, o, length), self.weight_index(oc, ic, k)]
            0 <= oc < self.spec_out_channels() && 0 <= k < self.spec_kernel_size() && 0 <= o
                < self.out_len(length) && self.output_pos(p, k, length) == Some(o) implies self.spec_backward_taps(
            length,
            b,
            ic,
            p,
        ).contains((self.output_index(b, oc, o, length), self.weight_index(oc, ic, k))) by {
            self.lemma_positions_adjoint(o, k, p, length);
            self.lemma_taps_adjoint(batch, length, b, oc, o, ic, k, p);
        }
    }
}

/// The pairs of a vector of index pairs, as integers.
pub open spec fn pairs_view(v: Seq<(usize, usize)>) -> Seq<(int, int)> {
    v.map_values(|x: (usize, usize)| (x.0 as int, x.1 as int))
}

} // verus!
