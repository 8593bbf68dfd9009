//! Verified architecture and shape logic of the pyannote speaker-segmentation
//! network, built on the shape arithmetic of the `burn` tensor library.
pub mod laws;
pub mod layers;
pub mod segmentation;
pub mod shape;
pub mod speaker_ids;
