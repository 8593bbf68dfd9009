use pyannote_rs::layers::{BiLstmSpec, Padding1d};
use pyannote_rs::segmentation::{
    concat_dims, dims_to_i64, gather, lstm_block_dims, lstm_state_dims, resolve_index, state_row_range,
    SegmentationSpec, LSTM_HIDDEN, LSTM_STATE_ROWS,
};

#[test]
fn ten_seconds_of_mono_audio_give_589_frames() {
    let spec = SegmentationSpec::new();
    assert_eq!(spec.output_dims(&vec![1, 1, 160000]), Some(vec![1, 589, 7]));
}

#[test]
fn batch_is_kept_and_one_second_gives_56_frames() {
    let spec = SegmentationSpec::new();
    assert_eq!(spec.output_dims(&vec![3, 1, 16000]), Some(vec![3, 56, 7]));
}

#[test]
fn shortest_input_gives_one_frame() {
    let spec = SegmentationSpec::new();
    assert_eq!(spec.output_dims(&vec![2, 1, 991]), Some(vec![2, 1, 7]));
    assert_eq!(spec.output_dims(&vec![2, 1, 990]), None);
    assert_eq!(spec.output_dims(&vec![1, 1, 250]), None);
}

#[test]
fn each_270_samples_add_a_frame() {
    let spec = SegmentationSpec::new();
    let a = spec.output_dims(&vec![1, 1, 5000]).unwrap();
    let b = spec.output_dims(&vec![1, 1, 5270]).unwrap();
    assert_eq!(a[1] + 1, b[1]);
    assert_eq!(a[1], (5000 - 721) / 270);
}

#[test]
fn stereo_empty_or_flat_inputs_are_refused() {
    let spec = SegmentationSpec::new();
    assert_eq!(spec.output_dims(&vec![1, 2, 16000]), None);
    assert_eq!(spec.output_dims(&vec![0, 1, 16000]), None);
    assert_eq!(spec.output_dims(&vec![1, 16000]), None);
}

#[test]
fn hyperparameters_of_the_network() {
    let spec = SegmentationSpec::new();
    assert_eq!(spec.conv1d7.channels_out, 80);
    assert_eq!(spec.conv1d7.kernel_size, 251);
    assert_eq!(spec.conv1d7.stride, 10);
    assert_eq!(spec.conv1d7.padding, Padding1d::Valid);
    assert!(!spec.conv1d7.bias);
    assert_eq!(spec.conv1d1.channels_in, 80);
    assert_eq!(spec.conv1d2.channels_out, 60);
    assert_eq!(spec.maxpool1d2.kernel_size, 3);
    assert_eq!(spec.lstm1.d_input, 60);
    assert_eq!(spec.lstm4.d_input, 256);
    assert!(!spec.lstm2.batch_first);
    assert_eq!(spec.linear3.d_output, 7);
    assert_eq!(spec.instancenormalization2.num_channels, 80);
}

#[test]
fn negative_indices_count_from_the_end() {
    assert_eq!(resolve_index(1, 3), 1);
    assert_eq!(resolve_index(-1, 3), 2);
    assert_eq!(resolve_index(-3, 3), 0);
}

#[test]
fn gather_picks_the_indexed_values() {
    assert_eq!(gather(&vec![10, 20, 30], &vec![0, 2, 1]), vec![10, 30, 20]);
    assert_eq!(gather(&vec![10, 20, 30], &vec![-1]), vec![30]);
}

#[test]
fn concat_appends() {
    assert_eq!(concat_dims(&vec![8], &vec![4]), vec![8, 4]);
    assert_eq!(concat_dims(&vec![], &vec![1, 2]), vec![1, 2]);
}

#[test]
fn dims_that_fit_i64_convert() {
    assert_eq!(dims_to_i64(&vec![1, 2, 3]), Some(vec![1, 2, 3]));
    assert_eq!(dims_to_i64(&vec![usize::MAX]), None);
}

#[test]
fn initial_state_is_eight_rows_by_batch_by_hidden() {
    assert_eq!(lstm_state_dims(&vec![4, 60, 9]), Some(vec![8, 4, 128]));
    assert_eq!(lstm_state_dims(&vec![0, 60, 9]), None);
    assert_eq!(lstm_state_dims(&vec![4, 60]), None);
    assert_eq!(LSTM_STATE_ROWS, 8);
    assert_eq!(LSTM_HIDDEN, 128);
}

#[test]
fn each_lstm_layer_takes_two_rows() {
    assert_eq!(state_row_range(0), (0, 2));
    assert_eq!(state_row_range(3), (6, 8));
}

#[test]
fn lstm_block_joins_both_directions() {
    let spec = SegmentationSpec::new();
    assert_eq!(lstm_block_dims(&spec.lstm1, &vec![5, 2, 60], &vec![2, 2, 128]), Some(vec![5, 2, 256]));
    assert_eq!(lstm_block_dims(&spec.lstm1, &vec![5, 2, 61], &vec![2, 2, 128]), None);
    assert_eq!(lstm_block_dims(&spec.lstm1, &vec![5, 3, 60], &vec![2, 2, 128]), None);
    let narrow = BiLstmSpec { d_input: 4, d_hidden: 16, bias: true, batch_first: false, input_forget: false };
    assert_eq!(lstm_block_dims(&narrow, &vec![5, 2, 4], &vec![2, 2, 128]), None);
}

#[test]
fn widths_chain_from_layer_to_layer() {
    let s = SegmentationSpec::new();
    assert_eq!(s.conv1d7.channels_out, s.instancenormalization2.num_channels);
    assert_eq!(s.instancenormalization2.num_channels, s.conv1d1.channels_in);
    assert_eq!(s.conv1d1.channels_out, s.conv1d2.channels_in);
    assert_eq!(s.conv1d2.channels_out, s.lstm1.d_input);
    assert_eq!(2 * s.lstm1.d_hidden, s.lstm2.d_input);
    assert_eq!(2 * s.lstm4.d_hidden, s.linear1.d_input);
    assert_eq!(s.linear1.d_output, s.linear2.d_input);
    assert_eq!(s.linear2.d_output, s.linear3.d_input);
}
