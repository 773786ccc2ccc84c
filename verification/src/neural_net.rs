pub mod layer;

use vstd::prelude::*;
use vstd::slice::slice_to_vec;

use crate::error::Error;
use crate::scalar::Activation;
use crate::scalar::Scalar;
use layer::Layer;

verus! {

broadcast use vstd::std_specs::vec::group_vec_axioms;

/// The index of the first maximum of `s` under the scalar order: a
/// left-to-right scan in which a later entry replaces the running best only
/// when the best is strictly less than it, so ties keep the earlier index.
pub open spec fn spec_argmax<T: Scalar>(s: Seq<T>) -> int
    decreases s.len(),
{
    if s.len() <= 1 {
        0
    } else {
        let b = spec_argmax(s.drop_last());
        if s[b].spec_less_than(s.last()) {
            s.len() - 1
        } else {
            b
        }
    }
}

/// The first-maximum index of a non-empty vector is always in range.
pub proof fn lemma_argmax_in_range<T: Scalar>(s: Seq<T>)
    requires
        s.len() > 0,
    ensures
        0 <= spec_argmax(s) < s.len(),
    decreases s.len(),
{
    if s.len() > 1 {
        lemma_argmax_in_range(s.drop_last());
    }
}

/// When the scalar order is strict and total — nothing is less than
/// itself, the order is transitive, and whatever exceeds `a` also exceeds
/// anything `a` is not less than — the scanned index is a true first
/// maximum: no entry anywhere is greater, and every entry before it is
/// strictly smaller.
pub proof fn lemma_argmax_is_first_maximum<T: Scalar>(s: Seq<T>)
    requires
        s.len() > 0,
        forall|a: T| !(#[trigger] a.spec_less_than(a)),
        forall|a: T, b: T, c: T|
            #[trigger] a.spec_less_than(b) && #[trigger] b.spec_less_than(c)
                ==> a.spec_less_than(c),
        forall|a: T, b: T, c: T|
            #[trigger] a.spec_less_than(c) && !#[trigger] a.spec_less_than(b)
                ==> b.spec_less_than(c),
    ensures
        forall|j: int|
            0 <= j < s.len() ==> !s[spec_argmax(s)].spec_less_than(#[trigger] s[j]),
        forall|j: int|
            0 <= j < spec_argmax(s) ==> (#[trigger] s[j]).spec_less_than(s[spec_argmax(s)]),
    decreases s.len(),
{
    lemma_argmax_in_range(s);
    let m = spec_argmax(s);
    if s.len() > 1 {
        let s2 = s.drop_last();
        lemma_argmax_is_first_maximum(s2);
        lemma_argmax_in_range(s2);
        let b = spec_argmax(s2);
        let n = s.len() - 1;
        assert(forall|j: int| 0 <= j < n ==> #[trigger] s2[j] == s[j]);
        if s2[b].spec_less_than(s.last()) {
            assert(m == n);
            assert(s[b].spec_less_than(s[n]));
            assert forall|j: int| 0 <= j < s.len() implies !s[m].spec_less_than(
                #[trigger] s[j],
            ) by {
                if j < n {
                    assert(!s2[b].spec_less_than(s2[j]));
                    if s[m].spec_less_than(s[j]) {
                        assert(s[b].spec_less_than(s[j]));
                    }
                }
            }
            assert forall|j: int| 0 <= j < m implies (#[trigger] s[j]).spec_less_than(
                s[m],
            ) by {
                assert(!s2[b].spec_less_than(s2[j]));
            }
        } else {
            assert(m == b);
            assert forall|j: int| 0 <= j < s.len() implies !s[m].spec_less_than(
                #[trigger] s[j],
            ) by {
                if j < n {
                    assert(!s2[b].spec_less_than(s2[j]));
                } else {
                    assert(!s2[b].spec_less_than(s.last()));
                }
            }
            assert forall|j: int| 0 <= j < m implies (#[trigger] s[j]).spec_less_than(
                s[m],
            ) by {
                assert(s2[j].spec_less_than(s2[b]));
            }
        }
    }
}

/// The whole-number order is strict and total, so for vectors over it the
/// scanned index is unconditionally a true first maximum.
pub proof fn lemma_argmax_is_first_maximum_i64(s: Seq<i64>)
    requires
        s.len() > 0,
    ensures
        forall|j: int|
            0 <= j < s.len() ==> !s[spec_argmax(s)].spec_less_than(#[trigger] s[j]),
        forall|j: int|
            0 <= j < spec_argmax(s) ==> (#[trigger] s[j]).spec_less_than(s[spec_argmax(s)]),
{
    lemma_argmax_is_first_maximum(s);
}

/// An ordered sequence of fully-connected layers chained so each layer's
/// output feeds the next layer's input, together with the one activation
/// applied elementwise by every layer. Constructed once from a topology (a
/// list of node counts, at least two long); shapes never change afterwards,
/// while weights and biases may be overwritten cell by cell or wholesale.
#[derive(Clone)]
pub struct Net<T> {
    /// The layers in evaluation order. Exposed for specification purposes;
    /// replacing them wholesale voids [`Self::wf`] and with it every
    /// contract of this type.
    pub layers: Vec<Layer<T>>,
    /// The activation shared, read-only, by all layers of this network.
    pub f_activation: Activation,
}

impl<T: Scalar> Net<T> {
    /// The topology invariant: at least one layer, each layer well-formed,
    /// and each layer's output count equal to the next layer's input count.
    pub open spec fn wf(&self) -> bool {
        &&& self.layers@.len() >= 1
        &&& forall|k: int|
            0 <= k < self.layers@.len() ==> (#[trigger] self.layers@[k]).wf()
        &&& forall|k: int|
            0 <= k && k + 1 < self.layers@.len() ==> (#[trigger] self.layers@[k]).nodes_out
                == self.layers@[k + 1].nodes_in
    }

    /// The input length the network expects: the first layer's input count.
    pub open spec fn spec_input_size(&self) -> usize {
        self.layers@[0].nodes_in
    }

    /// The length of every result: the last layer's output count.
    pub open spec fn spec_output_size(&self) -> usize {
        self.layers@[self.layers@.len() - 1].nodes_out
    }

    /// The vector produced by feeding `input` through the layers from index
    /// `k` on, each layer's output becoming the next one's input.
    pub open spec fn spec_eval_from(&self, input: Seq<T>, k: int) -> Seq<T>
        decreases self.layers@.len() - k,
    {
        if k < 0 || k >= self.layers@.len() {
            input
        } else {
            self.spec_eval_from(
                self.layers@[k].spec_calculate(input, self.f_activation),
                k + 1,
            )
        }
    }

    /// The full forward pass: `input` fed through every layer in order.
    pub open spec fn spec_calculate(&self, input: Seq<T>) -> Seq<T> {
        self.spec_eval_from(input, 0)
    }

    /// A network for the topology `layer_sizes` — layer `k` maps
    /// `layer_sizes[k]` inputs to `layer_sizes[k + 1]` outputs — with every
    /// weight and bias set to `zero` and the given activation installed. A
    /// list shorter than two or holding a zero is rejected with
    /// [`Error::InvalidTopology`]. Weights are meant to be filled in
    /// afterwards, cell by cell or through [`Self::randomize_weights`].
    pub fn new(layer_sizes: &Vec<usize>, f_activation: Activation, zero: T) -> (r: Result<
        Net<T>,
        Error,
    >)
        requires
            forall|k: int|
                0 <= k && k + 1 < layer_sizes@.len() ==> (#[trigger] layer_sizes@[k])
                    * layer_sizes@[k + 1] <= usize::MAX,
        ensures
            match r {
                Ok(n) => {
                    &&& layer_sizes@.len() >= 2
                    &&& forall|k: int|
                        0 <= k < layer_sizes@.len() ==> (#[trigger] layer_sizes@[k]) > 0
                    &&& n.wf()
                    &&& n.f_activation == f_activation
                    &&& n.layers@.len() == layer_sizes@.len() - 1
                    &&& forall|k: int|
                        0 <= k < n.layers@.len() ==> {
                            &&& (#[trigger] n.layers@[k]).nodes_in == layer_sizes@[k]
                            &&& n.layers@[k].nodes_out == layer_sizes@[k + 1]
                            &&& n.layers@[k].zeroed(zero)
                        }
                },
                Err(e) => {
                    &&& e == Error::InvalidTopology
                    &&& (layer_sizes@.len() < 2 || exists|k: int|
                        0 <= k < layer_sizes@.len() && (#[trigger] layer_sizes@[k]) == 0)
                },
            },
    {
        if layer_sizes.len() < 2 {
            return Err(Error::InvalidTopology);
        }
        for k in 0..layer_sizes.len()
            invariant
                forall|j: int| 0 <= j < k ==> (#[trigger] layer_sizes@[j]) > 0,
        {
            if layer_sizes[k] == 0 {
                return Err(Error::InvalidTopology);
            }
        }
        let num = layer_sizes.len() - 1;
        let mut layers: Vec<Layer<T>> = Vec::new();
        for k in 0..num
            invariant
                num == layer_sizes@.len() - 1,
                layers@.len() == k,
                forall|j: int| 0 <= j < layer_sizes@.len() ==> (#[trigger] layer_sizes@[j]) > 0,
                forall|j: int|
                    0 <= j && j + 1 < layer_sizes@.len() ==> (#[trigger] layer_sizes@[j])
                        * layer_sizes@[j + 1] <= usize::MAX,
                forall|j: int|
                    0 <= j < k ==> {
                        &&& (#[trigger] layers@[j]).wf()
                        &&& layers@[j].nodes_in == layer_sizes@[j]
                        &&& layers@[j].nodes_out == layer_sizes@[j + 1]
                        &&& layers@[j].zeroed(zero)
                    },
        {
            let l = Layer::zeroed_layer(layer_sizes[k], layer_sizes[k + 1], zero);
            layers.push(l);
        }
        Ok(Net { layers, f_activation })
    }

    /// Feeds `inputs` through the layers in order and returns the final
    /// layer's output, whose length is the last layer's output count. An
    /// input vector whose length is not the first layer's input count is
    /// rejected with [`Error::DimensionMismatch`], and that is the only
    /// failure. Pure: the network itself never changes.
    pub fn calculate(&self, inputs: &Vec<T>) -> (r: Result<Vec<T>, Error>)
        requires
            self.wf(),
        ensures
            match r {
                Ok(out) => {
                    &&& inputs@.len() == self.spec_input_size()
                    &&& out@ == self.spec_calculate(inputs@)
                    &&& out@.len() == self.spec_output_size()
                },
                Err(e) => {
                    &&& e == Error::DimensionMismatch
                    &&& inputs@.len() != self.spec_input_size()
                },
            },
    {
        let expected = self.layers[0].nodes_in;
        if inputs.len() != expected {
            return Err(Error::DimensionMismatch);
        }
        let mut result: Vec<T> = slice_to_vec(inputs.as_slice());
        let num = self.layers.len();
        for k in 0..num
            invariant
                self.wf(),
                num == self.layers@.len(),
                inputs@.len() == self.spec_input_size(),
                self.spec_eval_from(result@, k as int) == self.spec_calculate(inputs@),
                result@.len() == if k < num {
                    self.layers@[k as int].nodes_in
                } else {
                    self.spec_output_size()
                },
        {
            result = self.layers[k].calculate_unchecked(&result, self.f_activation);
        }
        Ok(result)
    }

    /// Computes the forward pass and returns the index of its first maximum
    /// — ties go to the lowest index. Fails like [`Self::calculate`] on a
    /// wrong input length, and with [`Error::InvalidInput`] when the result
    /// vector holds a non-comparable value, which would make the scan
    /// order-dependent. Pure: the network itself never changes.
    pub fn classify(&self, inputs: &Vec<T>) -> (r: Result<usize, Error>)
        requires
            self.wf(),
        ensures
            match r {
                Ok(idx) => {
                    &&& inputs@.len() == self.spec_input_size()
                    &&& forall|j: int|
                        0 <= j < self.spec_calculate(inputs@).len() ==> (#[trigger] self
                            .spec_calculate(inputs@)[j]).spec_comparable()
                    &&& idx == spec_argmax(self.spec_calculate(inputs@))
                    &&& idx < self.spec_output_size()
                },
                Err(e) => {
                    ||| {
                        &&& e == Error::DimensionMismatch
                        &&& inputs@.len() != self.spec_input_size()
                    }
                    ||| {
                        &&& e == Error::InvalidInput
                        &&& inputs@.len() == self.spec_input_size()
                        &&& exists|j: int|
                            0 <= j < self.spec_calculate(inputs@).len() && !(
                            #[trigger] self.spec_calculate(inputs@)[j]).spec_comparable()
                    }
                },
            },
    {
        let out = match self.calculate(inputs) {
            Ok(v) => v,
            Err(e) => {
                return Err(e);
            },
        };
        let n = out.len();
        for j in 0..n
            invariant
                n == out@.len(),
                out@ == self.spec_calculate(inputs@),
                inputs@.len() == self.spec_input_size(),
                self.wf(),
                forall|i: int| 0 <= i < j ==> (#[trigger] out@[i]).spec_comparable(),
        {
            if !out[j].is_comparable() {
                return Err(Error::InvalidInput);
            }
        }
        let mut best: usize = 0;
        proof {
            assert(spec_argmax(out@.subrange(0, 1)) == 0);
        }
        for j in 1..n
            invariant
                n == out@.len(),
                n >= 1,
                out@ == self.spec_calculate(inputs@),
                inputs@.len() == self.spec_input_size(),
                self.wf(),
                forall|i: int| 0 <= i < n ==> (#[trigger] out@[i]).spec_comparable(),
                best < j,
                best as int == spec_argmax(out@.subrange(0, j as int)),
        {
            proof {
                lemma_argmax_in_range(out@.subrange(0, j as int));
                assert(out@.subrange(0, j as int + 1).drop_last() =~= out@.subrange(
                    0,
                    j as int,
                ));
            }
            if out[best].less_than(&out[j]) {
                best = j;
            }
        }
        proof {
            assert(out@.subrange(0, n as int) =~= out@);
            lemma_argmax_in_range(out@);
        }
        Ok(best)
    }

    /// Overwrites one weight cell of one layer: connection strength from
    /// input node `input` to output node `output` of layer `layer`. A layer
    /// index out of range, or a node index out of range for that layer's
    /// shape, is rejected with [`Error::IndexOutOfBounds`], and then nothing
    /// changes. No other cell, bias or layer changes either way.
    pub fn set_weight(&mut self, layer: usize, input: usize, output: usize, weight: T) -> (r:
        Result<(), Error>)
        requires
            old(self).wf(),
        ensures
            final(self).wf(),
            final(self).f_activation == old(self).f_activation,
            final(self).layers@.len() == old(self).layers@.len(),
            match r {
                Ok(()) => {
                    &&& layer < old(self).layers@.len()
                    &&& input < old(self).layers@[layer as int].nodes_in
                    &&& output < old(self).layers@[layer as int].nodes_out
                    &&& old(self).layers@[layer as int].weight_updated(
                        final(self).layers@[layer as int],
                        input as int,
                        output as int,
                        weight,
                    )
                    &&& forall|k: int|
                        0 <= k < old(self).layers@.len() && k != layer ==> (#[trigger] old(
                            self,
                        ).layers@[k]).unchanged(final(self).layers@[k])
                },
                Err(e) => {
                    &&& e == Error::IndexOutOfBounds
                    &&& (layer >= old(self).layers@.len() || input >= old(self).layers@[
                        layer as int
                    ].nodes_in || output >= old(self).layers@[layer as int].nodes_out)
                    &&& forall|k: int|
                        0 <= k < old(self).layers@.len() ==> (#[trigger] old(
                            self,
                        ).layers@[k]).unchanged(final(self).layers@[k])
                },
            },
    {
        if layer < self.layers.len() {
            let l = &mut self.layers[layer];
            l.set_weight(input, output, weight)
        } else {
            Err(Error::IndexOutOfBounds)
        }
    }

    /// Overwrites one bias of one layer: the bias for output node `output`
    /// of layer `layer`. A layer or node index out of range is rejected with
    /// [`Error::IndexOutOfBounds`], and then nothing changes. No other bias,
    /// weight or layer changes either way.
    pub fn set_bias(&mut self, layer: usize, output: usize, bias: T) -> (r: Result<(), Error>)
        requires
            old(self).wf(),
        ensures
            final(self).wf(),
            final(self).f_activation == old(self).f_activation,
            final(self).layers@.len() == old(self).layers@.len(),
            match r {
                Ok(()) => {
                    &&& layer < old(self).layers@.len()
                    &&& output < old(self).layers@[layer as int].nodes_out
                    &&& old(self).layers@[layer as int].bias_updated(
                        final(self).layers@[layer as int],
                        output as int,
                        bias,
                    )
                    &&& forall|k: int|
                        0 <= k < old(self).layers@.len() && k != layer ==> (#[trigger] old(
                            self,
                        ).layers@[k]).unchanged(final(self).layers@[k])
                },
                Err(e) => {
                    &&& e == Error::IndexOutOfBounds
                    &&& (layer >= old(self).layers@.len() || output >= old(self).layers@[
                        layer as int
                    ].nodes_out)
                    &&& forall|k: int|
                        0 <= k < old(self).layers@.len() ==> (#[trigger] old(
                            self,
                        ).layers@[k]).unchanged(final(self).layers@[k])
                },
            },
    {
        if layer < self.layers.len() {
            let l = &mut self.layers[layer];
            l.set_bias(output, bias)
        } else {
            Err(Error::IndexOutOfBounds)
        }
    }

    /// The number of drawn values layer `k` consumes when refilled: all its
    /// weights, then all its biases.
    pub open spec fn spec_fill_count(&self, k: int) -> int {
        self.layers@[k].nodes_in * self.layers@[k].nodes_out + self.layers@[k].nodes_out
    }

    /// Overwrites every weight and bias of every layer, in order, from
    /// `values`: layer `k` takes `values[k]`, weights in row-major order
    /// first, then biases. The outer vector must hold exactly one inner
    /// vector per layer and each inner vector exactly the values its layer
    /// consumes; anything else is rejected with
    /// [`Error::DimensionMismatch`] before any layer changes. The caller
    /// draws the values; handing in fresh uniform draws over `[-1, 1)`
    /// randomizes the network.
    pub fn randomize_weights(&mut self, values: &Vec<Vec<T>>) -> (r: Result<(), Error>)
        requires
            old(self).wf(),
        ensures
            final(self).wf(),
            final(self).f_activation == old(self).f_activation,
            final(self).layers@.len() == old(self).layers@.len(),
            match r {
                Ok(()) => {
                    &&& values@.len() == old(self).layers@.len()
                    &&& forall|k: int|
                        0 <= k < old(self).layers@.len() ==> (#[trigger] old(
                            self,
                        ).layers@[k]).refilled_from(final(self).layers@[k], values@[k]@)
                },
                Err(e) => {
                    &&& e == Error::DimensionMismatch
                    &&& (values@.len() != old(self).layers@.len() || exists|k: int|
                        0 <= k < old(self).layers@.len() && (#[trigger] values@[k]@.len())
                            != old(self).spec_fill_count(k))
                    &&& forall|k: int|
                        0 <= k < old(self).layers@.len() ==> (#[trigger] old(
                            self,
                        ).layers@[k]).unchanged(final(self).layers@[k])
                },
            },
    {
        let num = self.layers.len();
        if values.len() != num {
            return Err(Error::DimensionMismatch);
        }
        for k in 0..num
            invariant
                self.wf(),
                num == self.layers@.len(),
                values@.len() == num,
                forall|j: int|
                    0 <= j < k ==> (#[trigger] values@[j]@.len()) == self.spec_fill_count(j),
        {
            let l = &self.layers[k];
            let w = l.weights.len();
            let vklen = values[k].len();
            match w.checked_add(l.nodes_out) {
                Some(total) => {
                    if vklen != total {
                        proof {
                            assert(values@[k as int]@.len() != old(self).spec_fill_count(
                                k as int,
                            ));
                        }
                        return Err(Error::DimensionMismatch);
                    }
                },
                None => {
                    proof {
                        assert(values@[k as int]@.len() != old(self).spec_fill_count(
                            k as int,
                        ));
                    }
                    return Err(Error::DimensionMismatch);
                },
            }
        }
        let ghost orig = *self;
        for k in 0..num
            invariant
                num == self.layers@.len(),
                values@.len() == num,
                orig.layers@.len() == num,
                orig.f_activation == self.f_activation,
                forall|j: int|
                    0 <= j < num ==> (#[trigger] values@[j]@.len()) == orig.spec_fill_count(j),
                forall|j: int| k <= j < num ==> (#[trigger] self.layers@[j]) == orig.layers@[j],
                forall|j: int| 0 <= j < num ==> (#[trigger] self.layers@[j]).wf(),
                forall|j: int|
                    0 <= j < k ==> (#[trigger] orig.layers@[j]).refilled_from(
                        self.layers@[j],
                        values@[j]@,
                    ),
                forall|j: int|
                    0 <= j < num ==> (#[trigger] self.layers@[j]).nodes_in
                        == orig.layers@[j].nodes_in && self.layers@[j].nodes_out
                        == orig.layers@[j].nodes_out,
        {
            let l = &mut self.layers[k];
            match l.randomize_weights(&values[k]) {
                Ok(()) => (),
                Err(_) => vstd::pervasive::unreached(),
            }
        }
        proof {
            assert(forall|j: int|
                0 <= j && j + 1 < num ==> (#[trigger] self.layers@[j]).nodes_out
                    == self.layers@[j + 1].nodes_in);
        }
        Ok(())
    }

    /// Every layer from index `k` on being zeroed, the tail of the forward
    /// pass is the constant vector of the activation's value at `zero`.
    proof fn lemma_zeroed_eval_from(&self, input: Seq<T>, zero: T, k: int)
        requires
            self.wf(),
            forall|j: int| 0 <= j < self.layers@.len() ==> (#[trigger] self.layers@[j]).zeroed(zero),
            0 <= k < self.layers@.len(),
            input.len() == self.layers@[k].nodes_in,
            forall|x: T| #[trigger] x.spec_times(zero) == zero,
            zero.spec_plus(zero) == zero,
        ensures
            self.spec_eval_from(input, k) == Seq::new(
                self.spec_output_size() as nat,
                |o: int| zero.spec_activate(self.f_activation),
            ),
        decreases self.layers@.len() - k,
    {
        let mid = self.layers@[k].spec_calculate(input, self.f_activation);
        self.layers@[k].lemma_zeroed_constant(input, zero, self.f_activation);
        if k + 1 < self.layers@.len() {
            self.lemma_zeroed_eval_from(mid, zero, k + 1);
        } else {
            assert(self.spec_eval_from(mid, k + 1) == mid);
            assert(mid =~= Seq::new(
                self.spec_output_size() as nat,
                |o: int| zero.spec_activate(self.f_activation),
            ));
        }
    }

    /// A network whose weights and biases all hold `zero` is constant:
    /// whatever input of the expected length it is given, the forward pass
    /// returns the activation's value at `zero` in every output position —
    /// composing zeroed layers erases the input entirely. The hypotheses
    /// say what "zero" means arithmetically: it absorbs multiplication and
    /// adding it to itself leaves it.
    pub proof fn lemma_zeroed_constant(&self, input: Seq<T>, zero: T)
        requires
            self.wf(),
            forall|j: int| 0 <= j < self.layers@.len() ==> (#[trigger] self.layers@[j]).zeroed(zero),
            input.len() == self.spec_input_size(),
            forall|x: T| #[trigger] x.spec_times(zero) == zero,
            zero.spec_plus(zero) == zero,
        ensures
            self.spec_calculate(input) == Seq::new(
                self.spec_output_size() as nat,
                |o: int| zero.spec_activate(self.f_activation),
            ),
    {
        self.lemma_zeroed_eval_from(input, zero, 0);
    }
}

} // verus!
