use vstd::prelude::*;
use vstd::slice::{slice_subrange, slice_to_vec};

use crate::error::Error;
use crate::scalar::Activation;
use crate::scalar::Scalar;
use crate::vec2d::Vec2d;

verus! {

broadcast use vstd::std_specs::vec::group_vec_axioms;

/// Builds a vector of `len` copies of `value`.
fn filled<T: Copy>(len: usize, value: T) -> (v: Vec<T>)
    ensures
        v@.len() == len,
        forall|i: int| 0 <= i < len ==> v@[i] == value,
{
    let mut v: Vec<T> = Vec::new();
    for j in 0..len
        invariant
            v@.len() == j,
            forall|i: int| 0 <= i < j ==> v@[i] == value,
    {
        v.push(value);
    }
    v
}

/// One fully-connected transformation: a weight matrix of shape
/// `(nodes_in, nodes_out)` plus one bias per output node. Weight cell
/// `(i, o)` is the connection strength from input node `i` to output node
/// `o`. The layer owns its weights and biases exclusively and its shape
/// never changes after construction.
#[derive(Clone)]
pub struct Layer<T> {
    /// The number of input nodes; positive and fixed at construction.
    pub nodes_in: usize,
    /// The number of output nodes; positive and fixed at construction.
    pub nodes_out: usize,
    /// The weight matrix, one row per input node, one column per output
    /// node. Exposed for specification purposes; replacing it wholesale
    /// voids [`Self::wf`] and with it every contract of this type.
    pub weights: Vec2d<T>,
    /// The bias vector, one entry per output node. Exposed for
    /// specification purposes, like [`Self::weights`].
    pub biases: Vec<T>,
}

impl<T: Scalar> Layer<T> {
    /// The weight buffer in row-major order, one row per input node.
    pub open spec fn spec_weights(&self) -> Seq<T> {
        self.weights@
    }

    /// The bias vector, one entry per output node.
    pub open spec fn spec_biases(&self) -> Seq<T> {
        self.biases@
    }

    /// The connection strength from input node `i` to output node `o`.
    pub open spec fn spec_weight(&self, i: int, o: int) -> T {
        self.spec_weights()[i * self.nodes_out + o]
    }

    /// The shape invariant: both node counts are positive, the weight matrix
    /// has one row per input node and one column per output node, and there
    /// is exactly one bias per output node.
    pub open spec fn wf(&self) -> bool {
        &&& self.nodes_in > 0
        &&& self.nodes_out > 0
        &&& self.weights.wf()
        &&& self.weights.rows() == self.nodes_in
        &&& self.weights.cols() == self.nodes_out
        &&& self.spec_biases().len() == self.nodes_out
    }

    /// Both layers hold the same shape, weights and biases.
    pub open spec fn unchanged(&self, other: Layer<T>) -> bool {
        &&& other.nodes_in == self.nodes_in
        &&& other.nodes_out == self.nodes_out
        &&& other.spec_weights() == self.spec_weights()
        &&& other.spec_biases() == self.spec_biases()
    }

    /// Every weight and every bias holds `zero`.
    pub open spec fn zeroed(&self, zero: T) -> bool {
        &&& forall|i: int| 0 <= i < self.spec_weights().len() ==> self.spec_weights()[i] == zero
        &&& forall|i: int| 0 <= i < self.spec_biases().len() ==> self.spec_biases()[i] == zero
    }

    /// `other` differs from `self` in exactly one weight cell, `(i, o)`,
    /// which now holds `w`.
    pub open spec fn weight_updated(&self, other: Layer<T>, i: int, o: int, w: T) -> bool {
        &&& other.nodes_in == self.nodes_in
        &&& other.nodes_out == self.nodes_out
        &&& other.spec_weights() == self.spec_weights().update(i * self.nodes_out + o, w)
        &&& other.spec_biases() == self.spec_biases()
    }

    /// `other` differs from `self` in exactly one bias entry, `o`, which now
    /// holds `b`.
    pub open spec fn bias_updated(&self, other: Layer<T>, o: int, b: T) -> bool {
        &&& other.nodes_in == self.nodes_in
        &&& other.nodes_out == self.nodes_out
        &&& other.spec_weights() == self.spec_weights()
        &&& other.spec_biases() == self.spec_biases().update(o, b)
    }

    /// `other` is `self` with every weight and bias overwritten from `vals`:
    /// first the `nodes_in * nodes_out` weights in row-major order, then the
    /// `nodes_out` biases.
    pub open spec fn refilled_from(&self, other: Layer<T>, vals: Seq<T>) -> bool {
        let w = self.nodes_in * self.nodes_out;
        &&& vals.len() == w + self.nodes_out
        &&& other.nodes_in == self.nodes_in
        &&& other.nodes_out == self.nodes_out
        &&& other.spec_weights() == vals.subrange(0, w)
        &&& other.spec_biases() == vals.subrange(w, w + self.nodes_out)
    }

    /// The accumulated sum for output node `o` after folding the first `i`
    /// input nodes, in ascending input order, over the bias for `o`.
    pub open spec fn spec_weighted_sum(&self, input: Seq<T>, o: int, i: int) -> T
        decreases i,
    {
        if i <= 0 {
            self.spec_biases()[o]
        } else {
            self.spec_weighted_sum(input, o, i - 1).spec_plus(
                input[i - 1].spec_times(self.spec_weight(i - 1, o)),
            )
        }
    }

    /// The value of output node `o`: the full weighted sum passed through
    /// the activation.
    pub open spec fn spec_node_output(&self, input: Seq<T>, o: int, f: Activation) -> T {
        self.spec_weighted_sum(input, o, self.nodes_in as int).spec_activate(f)
    }

    /// The whole activation vector this layer produces from `input`.
    pub open spec fn spec_calculate(&self, input: Seq<T>, f: Activation) -> Seq<T> {
        Seq::new(self.nodes_out as nat, |o: int| self.spec_node_output(input, o, f))
    }

    /// The weighted sum of a zeroed layer collapses to `zero` after any
    /// number of folding steps, provided `zero` absorbs multiplication and
    /// is a fixed point of adding it to itself.
    proof fn lemma_zeroed_sum(&self, input: Seq<T>, zero: T, o: int, i: int)
        requires
            self.wf(),
            self.zeroed(zero),
            input.len() == self.nodes_in,
            0 <= o < self.nodes_out,
            0 <= i <= self.nodes_in,
            forall|x: T| #[trigger] x.spec_times(zero) == zero,
            zero.spec_plus(zero) == zero,
        ensures
            self.spec_weighted_sum(input, o, i) == zero,
        decreases i,
    {
        if i > 0 {
            self.lemma_zeroed_sum(input, zero, o, i - 1);
            crate::vec2d::lemma_cell_offset(
                self.nodes_in as int,
                self.nodes_out as int,
                i - 1,
                o,
            );
        }
    }

    /// A zeroed layer is constant: whatever input of the right length it is
    /// given, every output node carries the activation's value at `zero`.
    /// The hypotheses say what "zero" means arithmetically: it absorbs
    /// multiplication from either side and adding it to itself leaves it.
    pub proof fn lemma_zeroed_constant(&self, input: Seq<T>, zero: T, f: Activation)
        requires
            self.wf(),
            self.zeroed(zero),
            input.len() == self.nodes_in,
            forall|x: T| #[trigger] x.spec_times(zero) == zero,
            zero.spec_plus(zero) == zero,
        ensures
            self.spec_calculate(input, f) == Seq::new(
                self.nodes_out as nat,
                |o: int| zero.spec_activate(f),
            ),
    {
        assert forall|o: int| 0 <= o < self.nodes_out implies self.spec_node_output(
            input,
            o,
            f,
        ) == zero.spec_activate(f) by {
            self.lemma_zeroed_sum(input, zero, o, self.nodes_in as int);
        }
        assert(self.spec_calculate(input, f) =~= Seq::new(
            self.nodes_out as nat,
            |o: int| zero.spec_activate(f),
        ));
    }

    /// A refill is faithful to its draws: two refills of equal-shaped
    /// layers land in the same state only when the drawn value vectors were
    /// the same. With an entropy source that never repeats a draw vector,
    /// two successive refills therefore never produce the same layer.
    pub proof fn lemma_refill_faithful(
        &self,
        refilled: Layer<T>,
        other: Layer<T>,
        other_refilled: Layer<T>,
        vals: Seq<T>,
        other_vals: Seq<T>,
    )
        requires
            other.nodes_in == self.nodes_in,
            other.nodes_out == self.nodes_out,
            self.refilled_from(refilled, vals),
            other.refilled_from(other_refilled, other_vals),
            refilled.spec_weights() == other_refilled.spec_weights(),
            refilled.spec_biases() == other_refilled.spec_biases(),
        ensures
            vals == other_vals,
    {
        let w = self.nodes_in * self.nodes_out;
        assert forall|i: int| 0 <= i < vals.len() implies vals[i] == other_vals[i] by {
            if i < w {
                assert(vals[i] == refilled.spec_weights()[i]);
                assert(other_vals[i] == other_refilled.spec_weights()[i]);
            } else {
                assert(vals[i] == refilled.spec_biases()[i - w]);
                assert(other_vals[i] == other_refilled.spec_biases()[i - w]);
            }
        }
        assert(vals =~= other_vals);
    }

    /// A layer of the given shape with every weight and bias set to `zero`.
    pub(crate) fn zeroed_layer(inputs: usize, outputs: usize, zero: T) -> (l: Layer<T>)
        requires
            inputs > 0,
            outputs > 0,
            inputs * outputs <= usize::MAX,
        ensures
            l.wf(),
            l.nodes_in == inputs,
            l.nodes_out == outputs,
            l.zeroed(zero),
    {
        let count = inputs * outputs;
        let weights = Vec2d::from_parts(filled(count, zero), inputs, outputs);
        let biases = filled(outputs, zero);
        Layer { nodes_in: inputs, nodes_out: outputs, weights, biases }
    }

    /// A layer of the given shape with every weight and bias set to `zero`;
    /// a zero node count on either side is rejected with
    /// [`Error::InvalidTopology`]. Weights are meant to be filled in
    /// afterwards, one cell at a time or wholesale through
    /// [`Self::randomize_weights`].
    pub fn new(inputs: usize, outputs: usize, zero: T) -> (r: Result<Layer<T>, Error>)
        requires
            inputs * outputs <= usize::MAX,
        ensures
            match r {
                Ok(l) => {
                    &&& inputs > 0
                    &&& outputs > 0
                    &&& l.wf()
                    &&& l.nodes_in == inputs
                    &&& l.nodes_out == outputs
                    &&& l.zeroed(zero)
                },
                Err(e) => {
                    &&& e == Error::InvalidTopology
                    &&& (inputs == 0 || outputs == 0)
                },
            },
    {
        if inputs == 0 || outputs == 0 {
            Err(Error::InvalidTopology)
        } else {
            Ok(Layer::zeroed_layer(inputs, outputs, zero))
        }
    }

    /// Overwrites the single weight cell `(input, output)`; either index out
    /// of range for the layer's shape is rejected with
    /// [`Error::IndexOutOfBounds`], and then nothing changes.
    pub fn set_weight(&mut self, input: usize, output: usize, weight: T) -> (r: Result<
        (),
        Error,
    >)
        requires
            old(self).wf(),
        ensures
            final(self).wf(),
            match r {
                Ok(()) => {
                    &&& input < old(self).nodes_in
                    &&& output < old(self).nodes_out
                    &&& old(self).weight_updated(
                        *final(self),
                        input as int,
                        output as int,
                        weight,
                    )
                },
                Err(e) => {
                    &&& e == Error::IndexOutOfBounds
                    &&& (input >= old(self).nodes_in || output >= old(self).nodes_out)
                    &&& old(self).unchanged(*final(self))
                },
            },
    {
        self.weights.set(input, output, weight)
    }

    /// Overwrites the bias for output node `output`; an index at or beyond
    /// the output node count is rejected with [`Error::IndexOutOfBounds`],
    /// and then nothing changes.
    pub fn set_bias(&mut self, output: usize, bias: T) -> (r: Result<(), Error>)
        requires
            old(self).wf(),
        ensures
            final(self).wf(),
            match r {
                Ok(()) => {
                    &&& output < old(self).nodes_out
                    &&& old(self).bias_updated(*final(self), output as int, bias)
                },
                Err(e) => {
                    &&& e == Error::IndexOutOfBounds
                    &&& output >= old(self).nodes_out
                    &&& old(self).unchanged(*final(self))
                },
            },
    {
        if output < self.nodes_out {
            self.biases[output] = bias;
            Ok(())
        } else {
            Err(Error::IndexOutOfBounds)
        }
    }

    /// Overwrites every weight and every bias from `values`: the
    /// `nodes_in * nodes_out` weights in row-major order first, then the
    /// `nodes_out` biases. A `values` vector of any other length is rejected
    /// with [`Error::DimensionMismatch`], and then nothing changes. The
    /// caller draws the values; handing in fresh uniform draws over
    /// `[-1, 1)` randomizes the layer.
    pub fn randomize_weights(&mut self, values: &Vec<T>) -> (r: Result<(), Error>)
        requires
            old(self).wf(),
        ensures
            final(self).wf(),
            match r {
                Ok(()) => old(self).refilled_from(*final(self), values@),
                Err(e) => {
                    &&& e == Error::DimensionMismatch
                    &&& values@.len() != old(self).nodes_in * old(self).nodes_out + old(
                        self,
                    ).nodes_out
                    &&& old(self).unchanged(*final(self))
                },
            },
    {
        let w = self.weights.len();
        let vlen = values.len();
        proof {
            crate::vec2d::lemma_row_end(
                self.nodes_in as int,
                self.nodes_out as int,
                self.nodes_in - 1,
            );
        }
        match w.checked_add(self.nodes_out) {
            Some(total) => {
                if vlen == total {
                    let wvec = slice_to_vec(slice_subrange(values.as_slice(), 0, w));
                    let bvec = slice_to_vec(slice_subrange(values.as_slice(), w, total));
                    self.weights = Vec2d::from_parts(wvec, self.nodes_in, self.nodes_out);
                    self.biases = bvec;
                    Ok(())
                } else {
                    Err(Error::DimensionMismatch)
                }
            },
            None => Err(Error::DimensionMismatch),
        }
    }

    /// The forward pass with the dimension check already discharged.
    pub(crate) fn calculate_unchecked(&self, inputs: &Vec<T>, f: Activation) -> (out: Vec<
        T,
    >)
        requires
            self.wf(),
            inputs@.len() == self.nodes_in,
        ensures
            out@ == self.spec_calculate(inputs@, f),
            out@.len() == self.nodes_out,
    {
        let mut out: Vec<T> = Vec::new();
        for o in 0..self.nodes_out
            invariant
                self.wf(),
                inputs@.len() == self.nodes_in,
                out@.len() == o,
                forall|j: int| 0 <= j < o ==> out@[j] == self.spec_node_output(inputs@, j, f),
        {
            let mut acc: T = self.biases[o];
            for i in 0..self.nodes_in
                invariant
                    self.wf(),
                    inputs@.len() == self.nodes_in,
                    o < self.nodes_out,
                    acc == self.spec_weighted_sum(inputs@, o as int, i as int),
            {
                let w = *self.weights.at(i, o);
                acc = acc.plus(inputs[i].times(w));
            }
            out.push(acc.activate(f));
        }
        proof {
            assert(out@ =~= self.spec_calculate(inputs@, f));
        }
        out
    }

    /// One activation vector from one input vector: for each output node
    /// `o`, the bias for `o` plus the weighted contributions of every input
    /// node, folded in ascending input order, then passed through `f`. An
    /// input vector whose length is not exactly `nodes_in` is rejected with
    /// [`Error::DimensionMismatch`]. Pure: the layer itself never changes.
    pub fn calculate(&self, inputs: &Vec<T>, f: Activation) -> (r: Result<Vec<T>, Error>)
        requires
            self.wf(),
        ensures
            match r {
                Ok(out) => {
                    &&& inputs@.len() == self.nodes_in
                    &&& out@ == self.spec_calculate(inputs@, f)
                    &&& out@.len() == self.nodes_out
                },
                Err(e) => {
                    &&& e == Error::DimensionMismatch
                    &&& inputs@.len() != self.nodes_in
                },
            },
    {
        if inputs.len() == self.nodes_in {
            Ok(self.calculate_unchecked(inputs, f))
        } else {
            Err(Error::DimensionMismatch)
        }
    }
}

} // verus!
