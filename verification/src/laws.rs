//! What holds of the segmentation network's forward pass on every input.
use vstd::prelude::*;

use crate::layers::{BiLstmSpec, Conv1dSpec, InstanceNormSpec, LinearSpec, MaxPool1dSpec, Padding1d};
use crate::segmentation::{
    state_row_span, LSTM_STATE_ROWS, after_conv, after_norm, after_pool, LSTM_HIDDEN, SegmentationSpec, as_i64s, fits_i64, gathered, lstm_block_spec, state_rows, state_spec,
};
use crate::shape::{
    dims_product, fixed_sizes, infer_count, lemma_prefix_products_fit, lemma_product_of_four,
    lemma_product_of_three, permute_spec, reshape_spec, swap_spec,
};

verus! {

/// Number of output frames for `samples` input samples, through the front-end
/// convolution and the three rounds of convolution and pooling.
pub open spec fn frames(samples: nat) -> nat {
    let s = SegmentationSpec::spec_new();
    s.maxpool1d3.out_len(
        s.conv1d2.out_len(s.maxpool1d2.out_len(s.conv1d1.out_len(s.maxpool1d1.out_len(s.conv1d7.out_len(samples))))),
    )
}

/// From 991 samples on, the network gives one frame per 270 samples:
/// `frames(samples) == (samples - 721) / 270`.
pub proof fn lemma_frames_closed_form(samples: nat)
    requires
        samples >= 991,
    ensures
        frames(samples) == (samples - 721) / 270,
{
    let l1 = (samples - 251) / 10 + 1;
    assert(l1 == (samples - 241) / 10);
    let p1 = (l1 - 3) / 3 + 1;
    assert(p1 == (samples - 241) / 30);
    let c2 = p1 - 4;
    let p2 = (c2 - 3) / 3 + 1;
    assert(p2 == (samples - 361) / 90);
    let c3 = p2 - 4;
    let p3 = (c3 - 3) / 3 + 1;
    assert(p3 == (samples - 721) / 270);
}

/// An affine normalization of `c` channels runs on `[b, c, len]` when there are
/// more than two and at most `usize::MAX` elements.
pub proof fn lemma_norm_runs(n: InstanceNormSpec, b: nat, c: usize, len: nat)
    requires
        n.affine,
        n.num_channels == c,
        c > 0,
        b <= usize::MAX,
        len <= usize::MAX,
        2 < b * c * len <= usize::MAX,
    ensures
        n.accepts(seq![b as usize, c, len as usize]),
{
    lemma_product_of_three(seq![b as usize, c, len as usize]);
}

/// Bounds that follow from an allocatable input of `b >= 1` items of
/// `samples >= 991` samples.
proof fn lemma_input_bounds(b: usize, samples: usize)
    requires
        b >= 1,
        samples >= 991,
        4 * b * samples <= isize::MAX,
    ensures
        isize::MAX < usize::MAX,
        isize::MAX <= i64::MAX,
        samples <= b * samples,
        b <= b * samples,
        b * samples <= isize::MAX,
        (b as nat) * 1 * (samples as nat) <= usize::MAX,
        (b as nat) * 1 * (samples as nat) > 2,
{
    assert(samples <= b * samples) by (nonlinear_arith)
        requires
            b >= 1,
    ;
    assert(b <= b * samples) by (nonlinear_arith)
        requires
            samples >= 1,
    ;
    assert(b * samples <= 4 * b * samples) by (nonlinear_arith)
        requires
            b >= 1,
    ;
}

/// The normalized mono input and the front-end convolution give
/// `[b, 80, (samples - 251) / 10 + 1]`.
proof fn lemma_front(b: usize, samples: usize)
    requires
        b >= 1,
        samples >= 991,
        4 * b * samples <= isize::MAX,
    ensures
        SegmentationSpec::spec_new().front_spec(seq![b, 1usize, samples])
            == Some(seq![b, 80usize, ((samples - 251) / 10 + 1) as usize]),
{
    let s = SegmentationSpec::spec_new();
    let d = seq![b, 1usize, samples];
    lemma_input_bounds(b, samples);
    lemma_norm_runs(s.instancenormalization1, b as nat, 1, samples as nat);
    assert(fits_i64(d));
    assert(s.conv1d7.accepts(d));
}

/// On mono audio of `b >= 1` items of `samples >= 991` samples whose `f32` input
/// tensor can be allocated (`4 * b * samples <= isize::MAX`), everything before
/// the LSTMs gives `[b, 60, (samples - 721) / 270]`.
#[verifier::spinoff_prover]
#[verifier::rlimit(40)]
pub proof fn lemma_encoder(b: usize, samples: usize)
    requires
        b >= 1,
        samples >= 991,
        4 * b * samples <= isize::MAX,
    ensures
        SegmentationSpec::spec_new().encoder_spec(seq![b, 1usize, samples])
            == Some(seq![b, 60usize, ((samples - 721) / 270) as usize]),
{
    let s = SegmentationSpec::spec_new();
    let d = seq![b, 1usize, samples];
    lemma_input_bounds(b, samples);
    lemma_front(b, samples);
    lemma_frames_closed_form(samples as nat);
    let l1 = ((samples - 251) / 10 + 1) as nat;
    let p1 = ((samples - 241) / 30) as nat;
    let p2 = ((samples - 361) / 90) as nat;
    let p3 = ((samples - 721) / 270) as nat;
    assert((l1 - 3) / 3 + 1 == p1);
    assert(80 * p1 <= 4 * samples);
    assert(b * 80 * p1 <= 4 * b * samples && b * 80 * p1 > 2) by (nonlinear_arith)
        requires
            80 * p1 <= 4 * samples,
            b >= 1,
            p1 >= 25,
    ;
    let x1 = seq![b, 80usize, l1 as usize];
    let y1 = seq![b, 80usize, p1 as usize];
    assert(s.maxpool1d1.accepts(x1));
    assert(s.maxpool1d1.out(x1) == y1);
    lemma_norm_runs(s.instancenormalization2, b as nat, 80, p1);
    let c1 = seq![b, 60usize, (p1 - 4) as usize];
    assert(s.conv1d1.accepts(y1));
    assert(s.conv1d1.out(y1) == c1);
    let y2 = seq![b, 60usize, p2 as usize];
    assert(p2 == ((p1 - 4) - 3) / 3 + 1);
    assert(s.maxpool1d2.accepts(c1));
    assert(s.maxpool1d2.out(c1) == y2);
    assert(b * 60 * p2 <= b * 80 * p1 && b * 60 * p2 > 2) by (nonlinear_arith)
        requires
            p2 <= p1,
            b >= 1,
            p2 >= 7,
    ;
    lemma_norm_runs(s.instancenormalization3, b as nat, 60, p2);
    let c2 = seq![b, 60usize, (p2 - 4) as usize];
    assert(s.conv1d2.accepts(y2));
    assert(s.conv1d2.out(y2) == c2);
    let y3 = seq![b, 60usize, p3 as usize];
    assert(p3 == ((p2 - 4) - 3) / 3 + 1);
    assert(s.maxpool1d3.accepts(c2));
    assert(s.maxpool1d3.out(c2) == y3);
    assert(b * 60 * p3 <= b * 60 * p2 && b * 60 * p3 > 2) by (nonlinear_arith)
        requires
            p3 <= p2,
            b >= 1,
            p3 >= 1,
    ;
    lemma_norm_runs(s.instancenormalization4, b as nat, 60, p3);
}

/// An LSTM of 128 units per direction that runs on `[t, b, d_input]` (with
/// `t, b >= 1`) from a `[2, sb, 128]` state, together with the regrouping of
/// its directions, gives `[t, b, 256]`.
#[verifier::spinoff_prover]
#[verifier::rlimit(40)]
proof fn lemma_lstm_regroup(l: BiLstmSpec, t: usize, b: usize, sb: usize)
    requires
        l.d_hidden == LSTM_HIDDEN,
        l.accepts(seq![t, b, l.d_input], seq![2usize, sb, 128usize]),
        t >= 1,
        b >= 1,
        (t as nat) * (b as nat) * 256 <= isize::MAX,
    ensures
        lstm_block_spec(l, seq![t, b, l.d_input], seq![2usize, sb, 128usize]) == Some(seq![t, b, 256usize]),
{
    let x = seq![t, b, l.d_input];
    let state = seq![2usize, sb, 128usize];
    assert(isize::MAX < usize::MAX);
    assert(isize::MAX <= i64::MAX);
    assert(t <= (t as nat) * (b as nat) * 256 && b <= (t as nat) * (b as nat) * 256) by (nonlinear_arith)
        requires
            t >= 1,
            b >= 1,
    ;
    let o = seq![t, b, 256usize];
    assert(l.out(x) == o);
    assert(fits_i64(o));
    // Split the joined directions: [t, b, 256] into [t, b, 2, 128].
    let split_args = seq![t as i64, b as i64, 2i64, LSTM_HIDDEN];
    let split = seq![t, b, 2usize, 128usize];
    assert(fixed_sizes(o, split_args) =~= split);
    lemma_product_of_three(o);
    lemma_product_of_four(split);
    assert((t as nat) * (b as nat) * 256 == (t as nat) * (b as nat) * 2 * 128) by (nonlinear_arith);
    lemma_prefix_products_fit(o);
    lemma_prefix_products_fit(split);
    reveal_with_fuel(infer_count, 5);
    assert(infer_count(split_args) == 0);
    assert(reshape_spec(o, split_args) == Some(split));
    // Move the direction axis in front of the batch, then back.
    let swapped = seq![t, 2usize, b, 128usize];
    assert(swap_spec(split, 1, 2) == Some(swapped));
    assert(permute_spec(swapped, seq![0usize, 2usize, 1usize, 3usize]) == Some(split));
    // Join the directions again: [t, b, 2, 128] into [t, b, 256].
    let join_args = seq![0i64, 0i64, -1i64];
    let kept = seq![t, b, 1usize];
    assert(fixed_sizes(split, join_args) =~= kept);
    lemma_product_of_three(kept);
    assert((t as nat) * (b as nat) * 1 == (t as nat) * (b as nat)) by (nonlinear_arith);
    assert((t as nat) * (b as nat) >= 1) by (nonlinear_arith)
        requires
            t >= 1,
            b >= 1,
    ;
    lemma_prefix_products_fit(kept);
    assert(infer_count(join_args) == 1);
    let tb = (t as nat) * (b as nat);
    assert(tb * 2 * 128 == tb * 256) by (nonlinear_arith);
    assert((tb * 256) % tb == 0 && (tb * 256) / tb == 256) by (nonlinear_arith)
        requires
            tb >= 1,
    ;
    assert(reshape_spec(split, join_args) == Some(o));
}

/// The initial LSTM state for the encoder output `[b, c, t]` is `[8, b, 128]`.
pub proof fn lemma_state(b: usize, c: usize, t: usize)
    requires
        b >= 1,
        b <= i64::MAX,
        c <= i64::MAX,
        t <= i64::MAX,
    ensures
        state_spec(seq![b, c, t]) == Some(seq![8usize, b, 128usize]),
{
    let e = seq![b, c, t];
    assert(fits_i64(e));
    let g = gathered(as_i64s(e), seq![0i64, 2i64, 1i64]);
    assert(g[0] == b as i64);
}

/// The forward pass of the network on mono audio of `b >= 1` items of
/// `samples >= 991` samples, whose `f32` input tensor can be allocated
/// (`4 * b * samples <= isize::MAX`), gives scores of shape
/// `[b, (samples - 721) / 270, 7]`: one row of 7 class scores per frame.
#[verifier::spinoff_prover]
#[verifier::rlimit(40)]
pub proof fn lemma_forward_shape(b: usize, samples: usize)
    requires
        b >= 1,
        samples >= 991,
        4 * b * samples <= isize::MAX,
    ensures
        SegmentationSpec::spec_new().forward_spec(seq![b, 1usize, samples])
            == Some(seq![b, ((samples - 721) / 270) as usize, 7usize]),
{
    let s = SegmentationSpec::spec_new();
    let t = ((samples - 721) / 270) as usize;
    lemma_input_bounds(b, samples);
    lemma_encoder(b, samples);
    let e = seq![b, 60usize, t];
    lemma_state(b, 60, t);
    let state = seq![8usize, b, 128usize];
    let t1 = seq![t, b, 60usize];
    assert(permute_spec(e, seq![2usize, 0usize, 1usize]) == Some(t1));
    let rows = seq![2usize, b, 128usize];
    assert(state_rows(state, 0, 2) == rows);
    assert(state_rows(state, 2, 4) == rows);
    assert(state_rows(state, 4, 6) == rows);
    assert(state_rows(state, 6, 8) == rows);
    assert(270 * (t as nat) <= samples);
    assert((t as nat) * (b as nat) * 256 <= (b as nat) * (samples as nat)) by (nonlinear_arith)
        requires
            270 * (t as nat) <= samples,
    ;
    assert(t >= 1);
    lemma_lstm_block(s.lstm1, t, b);
    lemma_lstm_block(s.lstm2, t, b);
    lemma_lstm_block(s.lstm3, t, b);
    lemma_lstm_block(s.lstm4, t, b);
    let q = seq![t, b, 256usize];
    assert(s.recurrent_spec(t1, state) == Some(q));
    let t6 = seq![b, t, 256usize];
    assert(permute_spec(q, seq![1usize, 0usize, 2usize]) == Some(t6));
    assert(s.linear1.out(t6) =~= seq![b, t, 128usize]);
    assert(s.linear2.out(seq![b, t, 128usize]) =~= seq![b, t, 128usize]);
    assert(s.linear3.out(seq![b, t, 128usize]) =~= seq![b, t, 7usize]);
}

/// The forward pass runs only on mono audio (`[b, 1, samples]`) with at least one
/// item and at least 991 samples: on any other input it panics.
#[verifier::spinoff_prover]
#[verifier::rlimit(40)]
pub proof fn lemma_forward_needs(d: Seq<usize>)
    requires
        SegmentationSpec::spec_new().forward_spec(d) is Some,
    ensures
        d.len() == 3,
        d[0] >= 1,
        d[1] == 1,
        d[2] >= 991,
{
    let s = SegmentationSpec::spec_new();
    assert(s.encoder_spec(d) is Some);
    let f = s.front_spec(d);
    assert(f is Some);
    assert(s.instancenormalization1.accepts(d));
    assert(d.len() == 3 && d[1] == 1);
    if d[0] == 0 {
        lemma_product_of_three(d);
        assert(dims_product(d) == 0) by (nonlinear_arith)
            requires
                dims_product(d) == (d[0] as nat) * (d[1] as nat) * (d[2] as nat),
                d[0] == 0,
        ;
    }
    let x1 = f.unwrap();
    assert(s.conv1d7.accepts(d));
    assert(x1[2] == (d[2] - 251) / 10 + 1);
    let y1 = after_pool(s.maxpool1d1, f);
    assert(y1 is Some);
    assert(x1[2] >= 3);
    let z1 = after_norm(s.instancenormalization2, y1);
    assert(z1 is Some);
    let c1 = after_conv(s.conv1d1, z1);
    assert(c1 is Some);
    assert(z1.unwrap()[2] >= 5);
    let y2 = after_pool(s.maxpool1d2, c1);
    assert(y2 is Some);
    assert(c1.unwrap()[2] >= 3);
    let z2 = after_norm(s.instancenormalization3, y2);
    assert(z2 is Some);
    let c2 = after_conv(s.conv1d2, z2);
    assert(c2 is Some);
    let y3 = after_pool(s.maxpool1d3, c2);
    assert(y3 is Some);
    assert(c2.unwrap()[2] >= 3);
}

/// Every 270 more samples give exactly one more frame of scores, and more samples
/// never give fewer frames.
#[verifier::spinoff_prover]
#[verifier::rlimit(40)]
pub proof fn lemma_frame_hop(b: usize, samples: usize, more: usize)
    requires
        b >= 1,
        samples >= 991,
        samples <= more,
        4 * b * more <= isize::MAX,
    ensures
        SegmentationSpec::spec_new().forward_spec(seq![b, 1usize, samples])
            == Some(seq![b, ((samples - 721) / 270) as usize, 7usize]),
        SegmentationSpec::spec_new().forward_spec(seq![b, 1usize, more])
            == Some(seq![b, ((more - 721) / 270) as usize, 7usize]),
        (samples - 721) / 270 <= (more - 721) / 270,
        more == samples + 270 ==> (more - 721) / 270 == (samples - 721) / 270 + 1,
{
    assert(4 * b * samples <= 4 * b * more) by (nonlinear_arith)
        requires
            samples <= more,
    ;
    lemma_forward_shape(b, samples);
    lemma_forward_shape(b, more);
}

/// The four LSTM layers start from disjoint pairs of rows of the initial state,
/// which together are all of its rows.
pub proof fn lemma_state_rows_partition(i: nat, j: nat, row: nat)
    requires
        i < 4,
        j < 4,
        row < LSTM_STATE_ROWS,
    ensures
        state_row_span(i).1 <= LSTM_STATE_ROWS,
        state_row_span(i).1 == state_row_span(i).0 + 2,
        i != j ==> state_row_span(i).1 <= state_row_span(j).0 || state_row_span(j).1 <= state_row_span(i).0,
        exists|k: nat| k < 4 && state_row_span(k).0 <= row < #[trigger] state_row_span(k).1,
{
    let k = row / 2;
    assert(state_row_span(k).0 <= row < state_row_span(k).1);
}

/// A sequence-first LSTM of 128 units per direction, on `[t, b, d_input]`
/// with `t, b >= 1`, starting from its `[2, b, 128]` rows of the initial state,
/// together with the regrouping of its directions, gives `[t, b, 256]`.
pub proof fn lemma_lstm_block(l: BiLstmSpec, t: usize, b: usize)
    requires
        l.d_hidden == LSTM_HIDDEN,
        !l.batch_first,
        t >= 1,
        b >= 1,
        (t as nat) * (b as nat) * 256 <= isize::MAX,
    ensures
        lstm_block_spec(l, seq![t, b, l.d_input], seq![2usize, b, 128usize]) == Some(seq![t, b, 256usize]),
{
    lemma_bilstm_shapes(l, t, b);
    lemma_lstm_regroup(l, t, b, b);
}

/// A batch-first LSTM of 128 units per direction, on `[b, t, d_input]` with
/// `b, t >= 1`, starting from a `[2, b, 128]` state (two directions of the `b`
/// items), together with the regrouping of its directions, gives `[b, t, 256]`.
pub proof fn lemma_lstm_block_batch_first(l: BiLstmSpec, b: usize, t: usize)
    requires
        l.d_hidden == LSTM_HIDDEN,
        l.batch_first,
        t >= 1,
        b >= 1,
        (t as nat) * (b as nat) * 256 <= isize::MAX,
    ensures
        lstm_block_spec(l, seq![b, t, l.d_input], seq![2usize, b, 128usize]) == Some(seq![b, t, 256usize]),
{
    lemma_bilstm_shapes(l, b, t);
    assert((b as nat) * (t as nat) == (t as nat) * (b as nat)) by (nonlinear_arith);
    lemma_lstm_regroup(l, b, t, b);
}

/// A bidirectional LSTM reads its batch from the first dimension when
/// `batch_first` and from the second otherwise: on `[p, q, d_input]` it runs from
/// a `[2, batch, d_hidden]` state holding that batch, never from one with fewer
/// items, and gives `[p, q, 2 * d_hidden]`.
pub proof fn lemma_bilstm_shapes(l: BiLstmSpec, p: usize, q: usize)
    requires
        2 * l.d_hidden <= usize::MAX,
    ensures
        l.batch_first ==> l.accepts(seq![p, q, l.d_input], seq![2usize, p, l.d_hidden]),
        !l.batch_first ==> l.accepts(seq![p, q, l.d_input], seq![2usize, q, l.d_hidden]),
        forall|s: usize| l.batch_first && s < p ==> !l.accepts(seq![p, q, l.d_input], seq![2usize, s, l.d_hidden]),
        forall|s: usize| !l.batch_first && s < q ==> !l.accepts(seq![p, q, l.d_input], seq![2usize, s, l.d_hidden]),
        l.out(seq![p, q, l.d_input]) == seq![p, q, (2 * l.d_hidden) as usize],
{
}

/// A max pooling runs on every `[b, c, len]` whose padded length holds one
/// window (padded or not), and gives `[b, c, n]` with
/// `n = (len + 2 * padding - dilation * (kernel_size - 1) - 1) / stride + 1`,
/// rounded up instead of down in `ceil_mode`.
pub proof fn lemma_pool_runs(p: MaxPool1dSpec, b: usize, c: usize, len: usize)
    requires
        p.stride > 0,
        p.kernel_size > 0,
        len + 2 * p.padding.amount() <= usize::MAX,
        p.dilation * (p.kernel_size - 1) + 1 <= len + 2 * p.padding.amount(),
    ensures
        p.accepts(seq![b, c, len]),
        !p.ceil_mode ==> p.out(seq![b, c, len]) == seq![
            b,
            c,
            ((len + 2 * p.padding.amount() - p.dilation * (p.kernel_size - 1) - 1) / (p.stride as int) + 1) as usize,
        ],
        p.ceil_mode ==> p.out(seq![b, c, len]) == seq![
            b,
            c,
            ((len + 2 * p.padding.amount() - p.dilation * (p.kernel_size - 1) - 1 + p.stride - 1) / (p.stride as int) + 1) as usize,
        ],
{
}

/// A convolution with groups dividing both channel counts runs on every
/// `[b, channels_in, len]` whose padded length holds one window, and gives
/// `[b, channels_out, (len + 2 * padding - dilation * (kernel_size - 1) - 1) / stride + 1]`.
pub proof fn lemma_conv_runs(k: Conv1dSpec, b: usize, len: usize)
    requires
        k.groups > 0,
        k.channels_in % k.groups == 0,
        k.channels_out % k.groups == 0,
        k.stride > 0,
        k.kernel_size > 0,
        len + 2 * k.padding.amount() <= usize::MAX,
        k.dilation * (k.kernel_size - 1) + 1 <= len + 2 * k.padding.amount(),
    ensures
        k.accepts(seq![b, k.channels_in, len]),
        k.out(seq![b, k.channels_in, len]) == seq![
            b,
            k.channels_out,
            ((len + 2 * k.padding.amount() - k.dilation * (k.kernel_size - 1) - 1) / (k.stride as int) + 1) as usize,
        ],
{
}

/// A fully connected layer runs on every non-empty shape of any rank whose last
/// dimension is `d_input`, and replaces only that last dimension by `d_output`.
pub proof fn lemma_linear_runs(l: LinearSpec, d: Seq<usize>)
    requires
        d.len() > 0,
        d[d.len() - 1] == l.d_input,
    ensures
        l.accepts(d),
        l.out(d).len() == d.len(),
        l.out(d)[d.len() - 1] == l.d_output,
        forall|i: int| 0 <= i < d.len() - 1 ==> #[trigger] l.out(d)[i] == d[i],
{
}

/// The hyperparameters of the network, value by value: every convolution is a
/// full (one group), unpadded, undilated one; the front-end convolutions have
/// no bias and the others do; every pooling takes three positions with stride
/// three, rounding down; every normalization is affine; every LSTM is
/// sequence-first, with bias and uncoupled gates; every linear layer has bias.
pub proof fn lemma_network_hyperparameters()
    ensures
        ({
            let s = SegmentationSpec::spec_new();
            &&& s.instancenormalization1.num_channels == 1 && s.instancenormalization1.affine
            &&& s.conv1d7.channels_in == 1 && s.conv1d7.channels_out == 80 && s.conv1d7.kernel_size == 251
            &&& s.conv1d7.stride == 10 && s.conv1d7.padding == Padding1d::Valid && s.conv1d7.dilation == 1
            &&& s.conv1d7.groups == 1 && !s.conv1d7.bias
            &&& s.conv1d8.channels_in == 1 && s.conv1d8.channels_out == 80 && s.conv1d8.kernel_size == 251
            &&& s.conv1d8.stride == 10 && s.conv1d8.padding == Padding1d::Valid && s.conv1d8.dilation == 1
            &&& s.conv1d8.groups == 1 && !s.conv1d8.bias
            &&& s.maxpool1d1.kernel_size == 3 && s.maxpool1d1.stride == 3 && s.maxpool1d1.padding == Padding1d::Valid
            &&& s.maxpool1d1.dilation == 1 && !s.maxpool1d1.ceil_mode
            &&& s.instancenormalization2.num_channels == 80 && s.instancenormalization2.affine
            &&& s.conv1d1.channels_in == 80 && s.conv1d1.channels_out == 60 && s.conv1d1.kernel_size == 5
            &&& s.conv1d1.stride == 1 && s.conv1d1.padding == Padding1d::Valid && s.conv1d1.dilation == 1
            &&& s.conv1d1.groups == 1 && s.conv1d1.bias
            &&& s.maxpool1d2.kernel_size == 3 && s.maxpool1d2.stride == 3 && s.maxpool1d2.padding == Padding1d::Valid
            &&& s.maxpool1d2.dilation == 1 && !s.maxpool1d2.ceil_mode
            &&& s.instancenormalization3.num_channels == 60 && s.instancenormalization3.affine
            &&& s.conv1d2.channels_in == 60 && s.conv1d2.channels_out == 60 && s.conv1d2.kernel_size == 5
            &&& s.conv1d2.stride == 1 && s.conv1d2.padding == Padding1d::Valid && s.conv1d2.dilation == 1
            &&& s.conv1d2.groups == 1 && s.conv1d2.bias
            &&& s.maxpool1d3.kernel_size == 3 && s.maxpool1d3.stride == 3 && s.maxpool1d3.padding == Padding1d::Valid
            &&& s.maxpool1d3.dilation == 1 && !s.maxpool1d3.ceil_mode
            &&& s.instancenormalization4.num_channels == 60 && s.instancenormalization4.affine
            &&& s.lstm1.d_input == 60 && s.lstm1.d_hidden == 128 && s.lstm1.bias && !s.lstm1.batch_first && !s.lstm1.input_forget
            &&& s.lstm2.d_input == 256 && s.lstm2.d_hidden == 128 && s.lstm2.bias && !s.lstm2.batch_first && !s.lstm2.input_forget
            &&& s.lstm3.d_input == 256 && s.lstm3.d_hidden == 128 && s.lstm3.bias && !s.lstm3.batch_first && !s.lstm3.input_forget
            &&& s.lstm4.d_input == 256 && s.lstm4.d_hidden == 128 && s.lstm4.bias && !s.lstm4.batch_first && !s.lstm4.input_forget
            &&& s.linear1.d_input == 256 && s.linear1.d_output == 128 && s.linear1.bias
            &&& s.linear2.d_input == 128 && s.linear2.d_output == 128 && s.linear2.bias
            &&& s.linear3.d_input == 128 && s.linear3.d_output == 7 && s.linear3.bias
        }),
{
}

/// Normalization keeps the dimensions; it runs on `[b, c, len]` with more than
/// two elements that fit in a `usize` when it is affine over exactly `c`
/// channels, or not affine with `num_channels` dividing `c * len`, and never on
/// two elements or fewer, nor, when affine, on another channel count.
pub proof fn lemma_norm_laws(n: InstanceNormSpec, b: usize, c: usize, len: usize)
    requires
        n.num_channels > 0,
    ensures
        n.out(seq![b, c, len]) == seq![b, c, len],
        2 < (b as nat) * (c as nat) * (len as nat) <= usize::MAX && (n.affine ==> c == n.num_channels)
            && (!n.affine ==> ((c as nat) * (len as nat)) % (n.num_channels as nat) == 0)
            ==> n.accepts(seq![b, c, len]),
        (b as nat) * (c as nat) * (len as nat) <= 2 ==> !n.accepts(seq![b, c, len]),
        n.affine && c != n.num_channels ==> !n.accepts(seq![b, c, len]),
{
    lemma_product_of_three(seq![b, c, len]);
}

} // verus!
