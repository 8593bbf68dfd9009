# pyannote_rs

Verified shape logic of the pyannote speaker-segmentation network, built on
the `burn` tensor library.

- `src/` is the Verus library:
  - `shape.rs`: burn's output-length formulas for one-dimensional convolution
    and pooling, and its `reshape`, `permute` and `swap` of a tensor shape,
    each called through a trusted wrapper, with checked entry points.
  - `layers.rs`: each kind of layer as plain hyperparameters with the map from
    input dimensions to output dimensions.
  - `segmentation.rs`: the network's hyperparameters and the integer logic of
    its forward pass, traced from `[batch, channels, samples]` to
    `[batch, frames, 7]`.
  - `laws.rs`: what holds on every input: one frame per 270 samples from 991
    samples on, only mono audio runs, the widths chain.
  - `speaker_ids.rs`: numbering of clustered segments by earliest member.
- `app/` holds the burn modules themselves and the floating-point forward pass,
  which take their hyperparameters and shape decisions from the library.
