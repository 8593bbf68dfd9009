//! The speaker-segmentation network: the hyperparameters of its layers, and the
//! shape logic of its forward pass, from `[batch, channels, samples]` audio to
//! `[batch, frames, classes]` scores.
use vstd::prelude::*;

use crate::layers::{BiLstmSpec, Conv1dSpec, InstanceNormSpec, LinearSpec, MaxPool1dSpec, Padding1d};
use crate::laws::{lemma_forward_needs, lemma_forward_shape};
use crate::shape::{
    checked_permute, checked_reshape, checked_swap, opt_view, permute_spec, reshape_spec, swap_spec,
};

verus! {

/// Mono audio, `[batch, 1, samples]`, of at least one item of at least 991 samples.
pub open spec fn mono_input(d: Seq<usize>) -> bool {
    &&& d.len() == 3
    &&& d[0] >= 1
    &&& d[1] == 1
    &&& d[2] >= 991
}

/// Mono audio of at least one item of at least 991 samples whose `f32` tensor
/// can be allocated: `4 * batch * samples <= isize::MAX` bytes.
pub open spec fn mono_input_fits(d: Seq<usize>) -> bool {
    &&& mono_input(d)
    &&& 4 * d[0] * d[2] <= isize::MAX
}

/// Rows of the initial LSTM state: two directions for each of the four LSTM layers.
pub const LSTM_STATE_ROWS: i64 = 8;

/// Width of the hidden state of each LSTM direction.
pub const LSTM_HIDDEN: i64 = 128;

/// The layers of the segmentation network, in the order of the forward pass.
#[derive(Clone, Copy, Debug, PartialEq, Eq, Structural)]
pub struct SegmentationSpec {
    pub instancenormalization1: InstanceNormSpec,
    pub conv1d7: Conv1dSpec,
    pub conv1d8: Conv1dSpec,
    pub maxpool1d1: MaxPool1dSpec,
    pub instancenormalization2: InstanceNormSpec,
    pub conv1d1: Conv1dSpec,
    pub maxpool1d2: MaxPool1dSpec,
    pub instancenormalization3: InstanceNormSpec,
    pub conv1d2: Conv1dSpec,
    pub maxpool1d3: MaxPool1dSpec,
    pub instancenormalization4: InstanceNormSpec,
    pub lstm1: BiLstmSpec,
    pub lstm2: BiLstmSpec,
    pub lstm3: BiLstmSpec,
    pub lstm4: BiLstmSpec,
    pub linear1: LinearSpec,
    pub linear2: LinearSpec,
    pub linear3: LinearSpec,
}

/// A convolution with unit dilation, one group and no padding.
pub open spec fn plain_conv(channels_in: usize, channels_out: usize, kernel_size: usize, stride: usize, bias: bool) -> Conv1dSpec {
    Conv1dSpec { channels_in, channels_out, kernel_size, stride, padding: Padding1d::Valid, dilation: 1, groups: 1, bias }
}

/// Max pooling over three positions with stride three, no padding, rounding down.
pub open spec fn pool_by_three() -> MaxPool1dSpec {
    MaxPool1dSpec { kernel_size: 3, stride: 3, padding: Padding1d::Valid, dilation: 1, ceil_mode: false }
}

/// Instance normalization with a learned scale and shift.
pub open spec fn affine_norm(num_channels: usize) -> InstanceNormSpec {
    InstanceNormSpec { num_channels, affine: true }
}

/// A sequence-first bidirectional LSTM with bias and uncoupled gates.
pub open spec fn seq_first_lstm(d_input: usize, d_hidden: usize) -> BiLstmSpec {
    BiLstmSpec { d_input, d_hidden, bias: true, batch_first: false, input_forget: false }
}

impl SegmentationSpec {
    /// The network's layers: a sinc-style front end of one wide strided
    /// convolution (80 filters of 251 samples, stride 10), two narrow
    /// convolutions, each followed by pooling by three and normalization, then
    /// four bidirectional LSTMs of 128 units per direction, and three fully
    /// connected layers ending in 7 classes.
    pub open spec fn spec_new() -> Self {
        SegmentationSpec {
            instancenormalization1: affine_norm(1),
            conv1d7: plain_conv(1, 80, 251, 10, false),
            conv1d8: plain_conv(1, 80, 251, 10, false),
            maxpool1d1: pool_by_three(),
            instancenormalization2: affine_norm(80),
            conv1d1: plain_conv(80, 60, 5, 1, true),
            maxpool1d2: pool_by_three(),
            instancenormalization3: affine_norm(60),
            conv1d2: plain_conv(60, 60, 5, 1, true),
            maxpool1d3: pool_by_three(),
            instancenormalization4: affine_norm(60),
            lstm1: seq_first_lstm(60, 128),
            lstm2: seq_first_lstm(256, 128),
            lstm3: seq_first_lstm(256, 128),
            lstm4: seq_first_lstm(256, 128),
            linear1: LinearSpec { d_input: 256, d_output: 128, bias: true },
            linear2: LinearSpec { d_input: 128, d_output: 128, bias: true },
            linear3: LinearSpec { d_input: 128, d_output: 7, bias: true },
        }
    }

    /// The hyperparameters of the network's layers.
    pub fn new() -> (s: Self)
        ensures
            s == Self::spec_new(),
    {
        let pool = MaxPool1dSpec { kernel_size: 3, stride: 3, padding: Padding1d::Valid, dilation: 1, ceil_mode: false };
        SegmentationSpec {
            instancenormalization1: InstanceNormSpec { num_channels: 1, affine: true },
            conv1d7: Conv1dSpec {
                channels_in: 1,
                channels_out: 80,
                kernel_size: 251,
                stride: 10,
                padding: Padding1d::Valid,
                dilation: 1,
                groups: 1,
                bias: false,
            },
            conv1d8: Conv1dSpec {
                channels_in: 1,
                channels_out: 80,
                kernel_size: 251,
                stride: 10,
                padding: Padding1d::Valid,
                dilation: 1,
                groups: 1,
                bias: false,
            },
            maxpool1d1: pool,
            instancenormalization2: InstanceNormSpec { num_channels: 80, affine: true },
            conv1d1: Conv1dSpec {
                channels_in: 80,
                channels_out: 60,
                kernel_size: 5,
                stride: 1,
                padding: Padding1d::Valid,
                dilation: 1,
                groups: 1,
                bias: true,
            },
            maxpool1d2: pool,
            instancenormalization3: InstanceNormSpec { num_channels: 60, affine: true },
            conv1d2: Conv1dSpec {
                channels_in: 60,
                channels_out: 60,
                kernel_size: 5,
                stride: 1,
                padding: Padding1d::Valid,
                dilation: 1,
                groups: 1,
                bias: true,
            },
            maxpool1d3: pool,
            instancenormalization4: InstanceNormSpec { num_channels: 60, affine: true },
            lstm1: BiLstmSpec { d_input: 60, d_hidden: 128, bias: true, batch_first: false, input_forget: false },
            lstm2: BiLstmSpec { d_input: 256, d_hidden: 128, bias: true, batch_first: false, input_forget: false },
            lstm3: BiLstmSpec { d_input: 256, d_hidden: 128, bias: true, batch_first: false, input_forget: false },
            lstm4: BiLstmSpec { d_input: 256, d_hidden: 128, bias: true, batch_first: false, input_forget: false },
            linear1: LinearSpec { d_input: 256, d_output: 128, bias: true },
            linear2: LinearSpec { d_input: 128, d_output: 128, bias: true },
            linear3: LinearSpec { d_input: 128, d_output: 7, bias: true },
        }
    }

    /// The widths agree from layer to layer: each layer takes the channels or
    /// features that the one before it gives, both front-end convolutions read
    /// the normalized mono signal, and every LSTM direction is as wide as the
    /// initial state the forward pass gives it.
    pub open spec fn chains(self) -> bool {
        &&& self.instancenormalization1.num_channels == self.conv1d7.channels_in
        &&& self.conv1d7.channels_in == 1
        &&& self.conv1d8.channels_in == 1
        &&& self.conv1d7.channels_out == self.conv1d8.channels_out
        &&& self.conv1d7.channels_out == self.instancenormalization2.num_channels
        &&& self.instancenormalization2.num_channels == self.conv1d1.channels_in
        &&& self.conv1d1.channels_out == self.instancenormalization3.num_channels
        &&& self.instancenormalization3.num_channels == self.conv1d2.channels_in
        &&& self.conv1d2.channels_out == self.instancenormalization4.num_channels
        &&& self.instancenormalization4.num_channels == self.lstm1.d_input
        &&& self.lstm2.d_input == 2 * self.lstm1.d_hidden
        &&& self.lstm3.d_input == 2 * self.lstm2.d_hidden
        &&& self.lstm4.d_input == 2 * self.lstm3.d_hidden
        &&& self.linear1.d_input == 2 * self.lstm4.d_hidden
        &&& self.linear2.d_input == self.linear1.d_output
        &&& self.linear3.d_input == self.linear2.d_output
        &&& self.lstm1.d_hidden == LSTM_HIDDEN
        &&& self.lstm2.d_hidden == LSTM_HIDDEN
        &&& self.lstm3.d_hidden == LSTM_HIDDEN
        &&& self.lstm4.d_hidden == LSTM_HIDDEN
    }
}

/// The widths of the network's layers agree from layer to layer.
pub proof fn lemma_spec_new_chains()
    ensures
        SegmentationSpec::spec_new().chains(),
{
}

/// Index `idx` into `len` items, counted from the end when negative.
pub open spec fn resolved_index(idx: i64, len: nat) -> int {
    if idx < 0 {
        len + idx
    } else {
        idx as int
    }
}

/// Resolves a gather index that may count from the end.
pub fn resolve_index(idx: i64, len: usize) -> (r: usize)
    requires
        len <= i64::MAX,
        -(len as int) <= idx < len,
    ensures
        r == resolved_index(idx, len as nat),
{
    if idx < 0 {
        (len as i64 + idx) as usize
    } else {
        idx as usize
    }
}

/// Every dimension fits in an `i64`.
pub open spec fn fits_i64(d: Seq<usize>) -> bool {
    forall|i: int| 0 <= i < d.len() ==> #[trigger] d[i] <= i64::MAX
}

/// The dimensions as `i64` values.
pub open spec fn as_i64s(d: Seq<usize>) -> Seq<i64> {
    d.map_values(|x: usize| x as i64)
}

/// The dimensions of a shape as `i64` values, or `None` where one does not fit.
pub fn dims_to_i64(d: &Vec<usize>) -> (r: Option<Vec<i64>>)
    ensures
        r is Some <==> fits_i64(d@),
        r matches Some(v) ==> v@ == as_i64s(d@),
{
    let mut v: Vec<i64> = Vec::new();
    let mut i: usize = 0;
    while i < d.len()
        invariant
            i <= d.len(),
            forall|k: int| 0 <= k < i ==> #[trigger] d@[k] <= i64::MAX,
            v@ =~= as_i64s(d@).take(i as int),
        decreases d.len() - i,
    {
        if d[i] as u64 > i64::MAX as u64 {
            return None;
        }
        v.push(d[i] as i64);
        i = i + 1;
    }
    assert(as_i64s(d@).take(d.len() as int) =~= as_i64s(d@));
    Some(v)
}

/// The values at the given indices, each of which may count from the end.
pub open spec fn gathered(values: Seq<i64>, indices: Seq<i64>) -> Seq<i64> {
    Seq::new(indices.len(), |k: int| values[resolved_index(indices[k], values.len())])
}

/// Gathers the values at the given indices, each of which may count from the end.
pub fn gather(values: &Vec<i64>, indices: &Vec<i64>) -> (r: Vec<i64>)
    requires
        values.len() <= i64::MAX,
        forall|k: int| 0 <= k < indices.len() ==> -(values.len() as int) <= #[trigger] indices[k] < values.len(),
    ensures
        r@ == gathered(values@, indices@),
{
    let mut r: Vec<i64> = Vec::new();
    let mut k: usize = 0;
    while k < indices.len()
        invariant
            k <= indices.len(),
            values.len() <= i64::MAX,
            forall|j: int| 0 <= j < indices.len() ==> -(values.len() as int) <= #[trigger] indices[j] < values.len(),
            r@ =~= gathered(values@, indices@).take(k as int),
        decreases indices.len() - k,
    {
        let idx = resolve_index(indices[k], values.len());
        r.push(values[idx]);
        k = k + 1;
    }
    assert(gathered(values@, indices@).take(indices.len() as int) =~= gathered(values@, indices@));
    r
}

/// The values of `a` followed by those of `b`.
pub fn concat_dims(a: &Vec<i64>, b: &Vec<i64>) -> (r: Vec<i64>)
    ensures
        r@ == a@ + b@,
{
    let mut r = a.clone();
    let mut i: usize = 0;
    while i < b.len()
        invariant
            i <= b.len(),
            r@ =~= a@ + b@.take(i as int),
        decreases b.len() - i,
    {
        r.push(b[i]);
        i = i + 1;
    }
    assert(b@.take(b.len() as int) =~= b@);
    r
}

/// The dimensions a convolution gives, if it runs.
pub open spec fn after_conv(c: Conv1dSpec, d: Option<Seq<usize>>) -> Option<Seq<usize>> {
    match d {
        Some(x) => if c.accepts(x) { Some(c.out(x)) } else { None },
        None => None,
    }
}

/// The dimensions a pooling gives, if it runs.
pub open spec fn after_pool(p: MaxPool1dSpec, d: Option<Seq<usize>>) -> Option<Seq<usize>> {
    match d {
        Some(x) => if p.accepts(x) { Some(p.out(x)) } else { None },
        None => None,
    }
}

/// The dimensions a normalization gives, if it runs.
pub open spec fn after_norm(n: InstanceNormSpec, d: Option<Seq<usize>>) -> Option<Seq<usize>> {
    match d {
        Some(x) => if n.accepts(x) { Some(n.out(x)) } else { None },
        None => None,
    }
}

/// The dimensions a fully connected layer gives, if it runs.
pub open spec fn after_linear(l: LinearSpec, d: Option<Seq<usize>>) -> Option<Seq<usize>> {
    match d {
        Some(x) => if l.accepts(x) { Some(l.out(x)) } else { None },
        None => None,
    }
}

/// Reshape arguments that fold the channels of `[batch, channels, samples]`
/// into the batch: `[-1, 1, samples]`.
pub open spec fn fold_channels_args(shape: Seq<i64>) -> Seq<i64> {
    seq![-1i64, 1i64, shape[2]]
}

/// Reshape arguments that give the folded batch its `batch * channels` rows
/// back: `[shape[0] * shape[1], conv[1], conv[2]]`.
pub open spec fn unfold_args(shape: Seq<i64>, conv: Seq<i64>) -> Seq<i64> {
    seq![(shape[0] * shape[1]) as i64, conv[1], conv[2]]
}

impl SegmentationSpec {
    /// The front end on audio of several channels: each channel is convolved as
    /// a batch item of its own.
    pub open spec fn multichannel_spec(self, d: Seq<usize>) -> Option<Seq<usize>> {
        let shape1 = as_i64s(d);
        match reshape_spec(d, fold_channels_args(shape1)) {
            None => None,
            Some(r7) => {
                if !self.conv1d8.accepts(r7) || !fits_i64(self.conv1d8.out(r7)) || shape1[0] * shape1[1] > i64::MAX {
                    None
                } else {
                    reshape_spec(self.conv1d8.out(r7), unfold_args(shape1, as_i64s(self.conv1d8.out(r7))))
                }
            },
        }
    }

    /// The normalized input and the front-end convolution.
    pub open spec fn front_spec(self, d: Seq<usize>) -> Option<Seq<usize>> {
        if !self.instancenormalization1.accepts(d) || !fits_i64(d) {
            None
        } else if d[1] == 1 {
            after_conv(self.conv1d7, Some(d))
        } else {
            self.multichannel_spec(d)
        }
    }

    /// Everything before the LSTMs: front end, then three rounds of pooling and
    /// normalization with a convolution between them.
    pub open spec fn encoder_spec(self, d: Seq<usize>) -> Option<Seq<usize>> {
        after_norm(
            self.instancenormalization4,
            after_pool(
                self.maxpool1d3,
                after_conv(
                    self.conv1d2,
                    after_norm(
                        self.instancenormalization3,
                        after_pool(
                            self.maxpool1d2,
                            after_conv(
                                self.conv1d1,
                                after_norm(self.instancenormalization2, after_pool(self.maxpool1d1, self.front_spec(d))),
                            ),
                        ),
                    ),
                ),
            ),
        )
    }
}

/// Dimensions of the zero initial LSTM state for the encoder output `e`:
/// `[8, batch, 128]`, the batch read through a gather of `e`'s dimensions.
pub open spec fn state_spec(e: Seq<usize>) -> Option<Seq<usize>> {
    if e.len() != 3 || !fits_i64(e) {
        None
    } else {
        let batch = gathered(as_i64s(e), seq![0i64, 2i64, 1i64])[resolved_index(0, 3)];
        if batch <= 0 {
            None
        } else {
            Some(seq![LSTM_STATE_ROWS as usize, batch as usize, LSTM_HIDDEN as usize])
        }
    }
}

/// Dimensions of the rows `start..end` of a state of dimensions `state`.
pub open spec fn state_rows(state: Seq<usize>, start: usize, end: usize) -> Seq<usize> {
    seq![(end - start) as usize, state[1], state[2]]
}

/// One LSTM layer and the regrouping after it: the output
/// `[seq, batch, 2 * 128]` is split into its two directions, the direction
/// axis moved before the batch and back, and the directions joined again.
pub open spec fn lstm_block_spec(l: BiLstmSpec, x: Seq<usize>, state: Seq<usize>) -> Option<Seq<usize>> {
    if !l.accepts(x, state) || !fits_i64(l.out(x)) {
        None
    } else {
        let o = l.out(x);
        match reshape_spec(o, seq![o[0] as i64, o[1] as i64, 2i64, LSTM_HIDDEN]) {
            None => None,
            Some(r) => match swap_spec(r, 1, 2) {
                None => None,
                Some(sw) => match permute_spec(sw, seq![0usize, 2usize, 1usize, 3usize]) {
                    None => None,
                    Some(p) => reshape_spec(p, seq![0i64, 0i64, -1i64]),
                },
            },
        }
    }
}

impl SegmentationSpec {
    /// The four LSTM layers, from the encoder output in sequence-first order.
    pub open spec fn recurrent_spec(self, t1: Seq<usize>, state: Seq<usize>) -> Option<Seq<usize>> {
        match lstm_block_spec(self.lstm1, t1, state_rows(state, 0, 2)) {
            None => None,
            Some(q1) => match lstm_block_spec(self.lstm2, q1, state_rows(state, 2, 4)) {
                None => None,
                Some(q2) => match lstm_block_spec(self.lstm3, q2, state_rows(state, 4, 6)) {
                    None => None,
                    Some(q3) => lstm_block_spec(self.lstm4, q3, state_rows(state, 6, 8)),
                },
            },
        }
    }

    /// Dimensions of the forward pass's output for an input of dimensions `d`,
    /// or `None` where the forward pass panics on such an input.
    pub open spec fn forward_spec(self, d: Seq<usize>) -> Option<Seq<usize>> {
        match self.encoder_spec(d) {
            None => None,
            Some(e) => match state_spec(e) {
                None => None,
                Some(state) => match permute_spec(e, seq![2usize, 0usize, 1usize]) {
                    None => None,
                    Some(t1) => match self.recurrent_spec(t1, state) {
                        None => None,
                        Some(q4) => match permute_spec(q4, seq![1usize, 0usize, 2usize]) {
                            None => None,
                            Some(t6) => after_linear(
                                self.linear3,
                                after_linear(self.linear2, after_linear(self.linear1, Some(t6))),
                            ),
                        },
                    },
                },
            },
        }
    }
}

impl SegmentationSpec {
    /// Front end on audio of several channels: folds the channels into the batch
    /// (`[-1, 1, samples]`), convolves, and unfolds to `batch * channels` rows.
    fn multichannel_dims(&self, d: &Vec<usize>, shape1: &Vec<i64>) -> (r: Option<Vec<usize>>)
        requires
            d.len() == 3,
            fits_i64(d@),
            shape1@ == as_i64s(d@),
        ensures
            opt_view(r) == self.multichannel_spec(d@),
    {
        let concat7 = concat_dims(&concat_dims(&vec![-1i64], &vec![1i64]), &vec![shape1[2]]);
        assert(concat7@ =~= fold_channels_args(shape1@));
        let reshape7 = match checked_reshape(d, &concat7) {
            Some(v) => v,
            None => return None,
        };
        let conv1d8_out = match self.conv1d8.output_dims(&reshape7) {
            Some(v) => v,
            None => return None,
        };
        assert(reshape_spec(d@, fold_channels_args(shape1@)) == Some(reshape7@));
        assert(conv1d8_out@ == self.conv1d8.out(reshape7@));
        let shape6 = match dims_to_i64(&conv1d8_out) {
            Some(v) => v,
            None => {
                assert(!fits_i64(self.conv1d8.out(reshape7@)));
                assert(self.multichannel_spec(d@) is None);
                return None;
            },
        };
        let concat8 = concat_dims(&vec![shape1[0], shape1[1]], &vec![shape6[1], shape6[2]]);
        assert(concat8[0] == shape1[0] && concat8[1] == shape1[1]);
        assert(concat8[2] == shape6[1] && concat8[3] == shape6[2]);
        assert(shape1[0] >= 0 && shape1[1] >= 0) by {
            assert(d[0] <= i64::MAX && d[1] <= i64::MAX);
        }
        let rows = match concat8[0].checked_mul(concat8[1]) {
            Some(v) => v,
            None => return None,
        };
        let args = vec![rows, concat8[2], concat8[3]];
        assert(args@ =~= unfold_args(shape1@, shape6@));
        checked_reshape(&conv1d8_out, &args)
    }

    /// Normalizes the input and runs the front-end convolution: directly on mono
    /// audio, else through `multichannel_dims`.
    fn front_dims(&self, input: &Vec<usize>) -> (r: Option<Vec<usize>>)
        ensures
            opt_view(r) == self.front_spec(input@),
    {
        let in1 = match self.instancenormalization1.output_dims(input) {
            Some(v) => v,
            None => return None,
        };
        let shape1 = match dims_to_i64(&in1) {
            Some(v) => v,
            None => return None,
        };
        let actual_idx = resolve_index(1, shape1.len());
        let gather1 = shape1[actual_idx];
        if gather1 == 1 {
            self.conv1d7.output_dims(&in1)
        } else {
            self.multichannel_dims(&in1, &shape1)
        }
    }

    /// Dimensions after everything before the LSTMs.
    fn encoder_dims(&self, input: &Vec<usize>) -> (r: Option<Vec<usize>>)
        ensures
            opt_view(r) == self.encoder_spec(input@),
    {
        let x = match self.front_dims(input) {
            Some(v) => v,
            None => return None,
        };
        let x = match self.maxpool1d1.output_dims(&x) {
            Some(v) => v,
            None => return None,
        };
        let x = match self.instancenormalization2.output_dims(&x) {
            Some(v) => v,
            None => return None,
        };
        let x = match self.conv1d1.output_dims(&x) {
            Some(v) => v,
            None => return None,
        };
        let x = match self.maxpool1d2.output_dims(&x) {
            Some(v) => v,
            None => return None,
        };
        let x = match self.instancenormalization3.output_dims(&x) {
            Some(v) => v,
            None => return None,
        };
        let x = match self.conv1d2.output_dims(&x) {
            Some(v) => v,
            None => return None,
        };
        let x = match self.maxpool1d3.output_dims(&x) {
            Some(v) => v,
            None => return None,
        };
        self.instancenormalization4.output_dims(&x)
    }
}

/// Dimensions `[8, batch, 128]` of the zero initial LSTM state for the encoder
/// output `e`, or `None` where the state cannot be built.
pub fn lstm_state_dims(e: &Vec<usize>) -> (r: Option<Vec<usize>>)
    ensures
        opt_view(r) == state_spec(e@),
{
    if e.len() != 3 {
        return None;
    }
    let shape2 = match dims_to_i64(e) {
        Some(v) => v,
        None => return None,
    };
    let gather2 = gather(&shape2, &vec![0i64, 2i64, 1i64]);
    let actual_idx = resolve_index(0, gather2.len());
    let gather3 = gather2[actual_idx];
    let concat1 = concat_dims(&concat_dims(&vec![LSTM_STATE_ROWS], &vec![gather3]), &vec![LSTM_HIDDEN]);
    if concat1[1] <= 0 {
        return None;
    }
    Some(vec![concat1[0] as usize, concat1[1] as usize, concat1[2] as usize])
}

/// The rows of the initial state that the LSTM layer `layer` (counted from
/// zero) starts from: two, one per direction.
pub open spec fn state_row_span(layer: nat) -> (nat, nat) {
    (2 * layer, 2 * layer + 2)
}

/// The rows of the initial state that the LSTM layer `layer` (counted from
/// zero) starts from.
pub fn state_row_range(layer: usize) -> (r: (usize, usize))
    requires
        layer < 4,
    ensures
        r.0 == state_row_span(layer as nat).0,
        r.1 == state_row_span(layer as nat).1,
        r.1 <= LSTM_STATE_ROWS,
{
    (2 * layer, 2 * layer + 2)
}

/// Dimensions after one LSTM layer and the regrouping of its directions.
pub fn lstm_block_dims(l: &BiLstmSpec, x: &Vec<usize>, state: &Vec<usize>) -> (r: Option<Vec<usize>>)
    ensures
        opt_view(r) == lstm_block_spec(*l, x@, state@),
{
    let o = match l.output_dims(x, state) {
        Some(v) => v,
        None => return None,
    };
    let oi = match dims_to_i64(&o) {
        Some(v) => v,
        None => return None,
    };
    let split = vec![oi[0], oi[1], 2i64, LSTM_HIDDEN];
    let r = match checked_reshape(&o, &split) {
        Some(v) => v,
        None => return None,
    };
    let sw = match checked_swap(&r, 1, 2) {
        Some(v) => v,
        None => return None,
    };
    let p = match checked_permute(&sw, &vec![0usize, 2usize, 1usize, 3usize]) {
        Some(v) => v,
        None => return None,
    };
    checked_reshape(&p, &vec![0i64, 0i64, -1i64])
}

impl SegmentationSpec {
    /// Dimensions after the four LSTM layers, each starting from its two rows of
    /// the initial state.
    fn recurrent_dims(&self, t1: &Vec<usize>, state: &Vec<usize>) -> (r: Option<Vec<usize>>)
        requires
            state.len() == 3,
        ensures
            opt_view(r) == self.recurrent_spec(t1@, state@),
    {
        let rows = vec![2usize, state[1], state[2]];
        assert(rows@ =~= state_rows(state@, 0, 2));
        assert(rows@ =~= state_rows(state@, 2, 4));
        assert(rows@ =~= state_rows(state@, 4, 6));
        assert(rows@ =~= state_rows(state@, 6, 8));
        let q1 = match lstm_block_dims(&self.lstm1, t1, &rows) {
            Some(v) => v,
            None => return None,
        };
        let q2 = match lstm_block_dims(&self.lstm2, &q1, &rows) {
            Some(v) => v,
            None => return None,
        };
        let q3 = match lstm_block_dims(&self.lstm3, &q2, &rows) {
            Some(v) => v,
            None => return None,
        };
        lstm_block_dims(&self.lstm4, &q3, &rows)
    }

    /// Dimensions of the output of the forward pass for an input of dimensions
    /// `input` (`[batch, channels, samples]`), or `None` exactly where the forward
    /// pass would panic on such an input. For the network of `new`, that is
    /// `[batch, (samples - 721) / 270, 7]` on mono audio of at least one item of
    /// at least 991 samples (whose `f32` tensor can be allocated), and `None` on
    /// any other input.
    pub fn output_dims(&self, input: &Vec<usize>) -> (r: Option<Vec<usize>>)
        ensures
            opt_view(r) == self.forward_spec(input@),
            *self == Self::spec_new() && mono_input_fits(input@) ==> opt_view(r) == Some(
                seq![input[0], ((input[2] - 721) / 270) as usize, 7usize],
            ),
            *self == Self::spec_new() && r is Some ==> mono_input(input@),
    {
        let r = self.trace_output_dims(input);
        proof {
            if *self == Self::spec_new() {
                if mono_input_fits(input@) {
                    assert(input@ =~= seq![input[0], 1usize, input[2]]);
                    lemma_forward_shape(input[0], input[2]);
                }
                if r is Some {
                    lemma_forward_needs(input@);
                }
            }
        }
        r
    }

    /// Dimensions of the output of the forward pass, following its shape logic
    /// step by step.
    fn trace_output_dims(&self, input: &Vec<usize>) -> (r: Option<Vec<usize>>)
        ensures
            opt_view(r) == self.forward_spec(input@),
    {
        let e = match self.encoder_dims(input) {
            Some(v) => v,
            None => return None,
        };
        let state = match lstm_state_dims(&e) {
            Some(v) => v,
            None => return None,
        };
        let t1 = match checked_permute(&e, &vec![2usize, 0usize, 1usize]) {
            Some(v) => v,
            None => return None,
        };
        let q4 = match self.recurrent_dims(&t1, &state) {
            Some(v) => v,
            None => return None,
        };
        let t6 = match checked_permute(&q4, &vec![1usize, 0usize, 2usize]) {
            Some(v) => v,
            None => return None,
        };
        let x = match self.linear1.output_dims(&t6) {
            Some(v) => v,
            None => return None,
        };
        let x = match self.linear2.output_dims(&x) {
            Some(v) => v,
            None => return None,
        };
        self.linear3.output_dims(&x)
    }
}

} // verus!
