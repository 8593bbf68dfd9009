use pyannote_rs::layers::{Conv1dSpec, InstanceNormSpec, LinearSpec, MaxPool1dSpec, Padding1d};
use pyannote_rs::segmentation::SegmentationSpec;

#[test]
fn front_end_convolution_length() {
    let spec = SegmentationSpec::new();
    assert_eq!(spec.conv1d7.output_dims(&vec![1, 1, 16000]), Some(vec![1, 80, 1575]));
    assert_eq!(spec.conv1d7.output_dims(&vec![1, 1, 251]), Some(vec![1, 80, 1]));
    assert_eq!(spec.conv1d7.output_dims(&vec![1, 1, 250]), None);
    assert_eq!(spec.conv1d7.output_dims(&vec![1, 2, 16000]), None);
}

#[test]
fn padded_dilated_strided_convolution() {
    let c = Conv1dSpec {
        channels_in: 2,
        channels_out: 4,
        kernel_size: 5,
        stride: 2,
        padding: Padding1d::Explicit(2),
        dilation: 2,
        groups: 2,
        bias: true,
    };
    assert_eq!(c.output_dims(&vec![3, 2, 10]), Some(vec![3, 4, 3]));
    let bad_groups = Conv1dSpec { groups: 3, ..c };
    assert_eq!(bad_groups.output_dims(&vec![3, 2, 10]), None);
    let no_stride = Conv1dSpec { stride: 0, ..c };
    assert_eq!(no_stride.output_dims(&vec![3, 2, 10]), None);
}

#[test]
fn pooling_by_three() {
    let spec = SegmentationSpec::new();
    assert_eq!(spec.maxpool1d1.output_dims(&vec![1, 80, 1575]), Some(vec![1, 80, 525]));
    assert_eq!(spec.maxpool1d1.output_dims(&vec![1, 80, 2]), None);
}

#[test]
fn ceil_mode_rounds_up() {
    let floor = MaxPool1dSpec { kernel_size: 3, stride: 2, padding: Padding1d::Valid, dilation: 1, ceil_mode: false };
    let ceil = MaxPool1dSpec { ceil_mode: true, ..floor };
    assert_eq!(floor.output_dims(&vec![1, 1, 10]), Some(vec![1, 1, 4]));
    assert_eq!(ceil.output_dims(&vec![1, 1, 10]), Some(vec![1, 1, 5]));
}

#[test]
fn normalization_keeps_dimensions() {
    let affine = InstanceNormSpec { num_channels: 3, affine: true };
    assert_eq!(affine.output_dims(&vec![2, 3, 4]), Some(vec![2, 3, 4]));
    assert_eq!(affine.output_dims(&vec![2, 2, 4]), None);
    assert_eq!(affine.output_dims(&vec![1, 3, 0]), None);
    let plain = InstanceNormSpec { num_channels: 2, affine: false };
    assert_eq!(plain.output_dims(&vec![1, 3, 4]), Some(vec![1, 3, 4]));
    assert_eq!(plain.output_dims(&vec![1, 3, 3]), None);
}

#[test]
fn linear_replaces_last_dimension() {
    let l = LinearSpec { d_input: 256, d_output: 128, bias: true };
    assert_eq!(l.output_dims(&vec![2, 9, 256]), Some(vec![2, 9, 128]));
    assert_eq!(l.output_dims(&vec![2, 9, 255]), None);
    assert_eq!(l.output_dims(&vec![]), None);
}
