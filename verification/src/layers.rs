//! The layers of the network as plain hyperparameters, each with the map that
//! takes the dimensions of its input tensor to those of its output.
use vstd::prelude::*;

use crate::shape::{lemma_product_of_three, conv_len, conv_output_size, dims_product, pool_len, pool_output_size, window_fits};

verus! {

/// Padding of a one-dimensional convolution or pooling.
#[derive(Clone, Copy, Debug, PartialEq, Eq, Structural)]
pub enum Padding1d {
    /// No padding.
    Valid,
    /// The given number of positions on each side.
    Explicit(usize),
}

impl Padding1d {
    /// Positions added on each side.
    pub open spec fn amount(self) -> nat {
        match self {
            Padding1d::Valid => 0,
            Padding1d::Explicit(n) => n as nat,
        }
    }

    /// Positions added on each side.
    pub fn size(&self) -> (r: usize)
        ensures
            r == self.amount(),
    {
        match self {
            Padding1d::Valid => 0,
            Padding1d::Explicit(n) => *n,
        }
    }
}

/// A one-dimensional convolution over `[batch, channels, length]`.
#[derive(Clone, Copy, Debug, PartialEq, Eq, Structural)]
pub struct Conv1dSpec {
    pub channels_in: usize,
    pub channels_out: usize,
    pub kernel_size: usize,
    pub stride: usize,
    pub padding: Padding1d,
    pub dilation: usize,
    pub groups: usize,
    pub bias: bool,
}

impl Conv1dSpec {
    /// The hyperparameters can build a layer: the groups divide both channel counts.
    pub open spec fn valid(self) -> bool {
        &&& self.groups > 0
        &&& self.channels_in % self.groups == 0
        &&& self.channels_out % self.groups == 0
    }

    /// The layer runs on an input of dimensions `d`.
    pub open spec fn accepts(self, d: Seq<usize>) -> bool {
        &&& self.valid()
        &&& d.len() == 3
        &&& d[1] == self.channels_in
        &&& window_fits(self.kernel_size as nat, self.stride as nat, self.padding.amount(), self.dilation as nat, d[2] as nat)
    }

    /// Length of the output for an input of length `len`.
    pub open spec fn out_len(self, len: nat) -> nat {
        conv_len(self.kernel_size as nat, self.stride as nat, self.padding.amount(), self.dilation as nat, len)
    }

    /// Dimensions of the output for an input of dimensions `d`.
    pub open spec fn out(self, d: Seq<usize>) -> Seq<usize> {
        seq![d[0], self.channels_out, self.out_len(d[2] as nat) as usize]
    }

    /// Dimensions of the output, or `None` where the layer does not run.
    pub fn output_dims(&self, d: &Vec<usize>) -> (r: Option<Vec<usize>>)
        ensures
            r is Some <==> self.accepts(d@),
            r matches Some(o) ==> o@ == self.out(d@),
    {
        if self.groups == 0 || self.channels_in % self.groups != 0 || self.channels_out % self.groups != 0 {
            return None;
        }
        if d.len() != 3 || d[1] != self.channels_in {
            return None;
        }
        if fitted_window(self.kernel_size, self.stride, self.padding.size(), self.dilation, d[2]).is_none() {
            return None;
        }
        let out = conv_output_size(self.kernel_size, self.stride, self.padding.size(), self.dilation, d[2]);
        Some(vec![d[0], self.channels_out, out])
    }
}

/// Whether `window_fits`, computed without overflow.
fn fitted_window(kernel_size: usize, stride: usize, padding: usize, dilation: usize, size_in: usize) -> (r: Option<usize>)
    ensures
        r is Some <==> window_fits(kernel_size as nat, stride as nat, padding as nat, dilation as nat, size_in as nat),
        r matches Some(t) ==> t == size_in + 2 * padding,
{
    if stride == 0 || kernel_size == 0 {
        return None;
    }
    let total = match padding.checked_mul(2) {
        Some(p) => match size_in.checked_add(p) {
            Some(t) => t,
            None => return None,
        },
        None => return None,
    };
    let span = match dilation.checked_mul(kernel_size - 1) {
        Some(s) => s,
        None => {
            proof {
                assert(dilation * (kernel_size - 1) > usize::MAX);
            }
            return None;
        },
    };
    if span >= total {
        None
    } else {
        Some(total)
    }
}

/// A one-dimensional max pooling over `[batch, channels, length]`.
#[derive(Clone, Copy, Debug, PartialEq, Eq, Structural)]
pub struct MaxPool1dSpec {
    pub kernel_size: usize,
    pub stride: usize,
    pub padding: Padding1d,
    pub dilation: usize,
    pub ceil_mode: bool,
}

impl MaxPool1dSpec {
    /// The layer runs on an input of dimensions `d`.
    pub open spec fn accepts(self, d: Seq<usize>) -> bool {
        &&& d.len() == 3
        &&& window_fits(self.kernel_size as nat, self.stride as nat, self.padding.amount(), self.dilation as nat, d[2] as nat)
    }

    /// Length of the output for an input of length `len`.
    pub open spec fn out_len(self, len: nat) -> nat {
        pool_len(self.kernel_size as nat, self.stride as nat, self.padding.amount(), self.dilation as nat, len, self.ceil_mode)
    }

    /// Dimensions of the output for an input of dimensions `d`.
    pub open spec fn out(self, d: Seq<usize>) -> Seq<usize> {
        seq![d[0], d[1], self.out_len(d[2] as nat) as usize]
    }

    /// Dimensions of the output, or `None` where the layer does not run.
    pub fn output_dims(&self, d: &Vec<usize>) -> (r: Option<Vec<usize>>)
        ensures
            r is Some <==> self.accepts(d@),
            r matches Some(o) ==> o@ == self.out(d@),
    {
        if d.len() != 3 {
            return None;
        }
        if fitted_window(self.kernel_size, self.stride, self.padding.size(), self.dilation, d[2]).is_none() {
            return None;
        }
        let out = pool_output_size(self.kernel_size, self.stride, self.padding.size(), self.dilation, d[2], self.ceil_mode);
        Some(vec![d[0], d[1], out])
    }
}

/// Instance normalization over `[batch, channels, length]`; the epsilon, a
/// floating-point number, is not part of the shape logic and stays with the tensors.
#[derive(Clone, Copy, Debug, PartialEq, Eq, Structural)]
pub struct InstanceNormSpec {
    pub num_channels: usize,
    pub affine: bool,
}

impl InstanceNormSpec {
    /// The layer runs on an input of dimensions `d`: more than two elements, and
    /// the channels are those of the learned scale when it is `affine`, else the
    /// channel-length product splits evenly into `num_channels` groups.
    pub open spec fn accepts(self, d: Seq<usize>) -> bool {
        &&& d.len() == 3
        &&& self.num_channels > 0
        &&& dims_product(d) > 2
        &&& dims_product(d) <= usize::MAX
        &&& self.affine ==> d[1] == self.num_channels
        &&& !self.affine ==> (d[1] * d[2]) % (self.num_channels as int) == 0
    }

    /// Normalization keeps the dimensions.
    pub open spec fn out(self, d: Seq<usize>) -> Seq<usize> {
        d
    }

    /// Dimensions of the output, or `None` where the layer does not run.
    pub fn output_dims(&self, d: &Vec<usize>) -> (r: Option<Vec<usize>>)
        ensures
            r is Some <==> self.accepts(d@),
            r matches Some(o) ==> o@ == self.out(d@),
    {
        if d.len() != 3 || self.num_channels == 0 {
            return None;
        }
        proof {
            lemma_product_of_three(d@);
        }
        if d[0] == 0 {
            proof {
                let (a, b, c) = (d[0] as nat, d[1] as nat, d[2] as nat);
                assert(a * b * c == 0) by (nonlinear_arith)
                    requires
                        a == 0,
                ;
            }
            return None;
        }
        let cl = match d[1].checked_mul(d[2]) {
            Some(v) => v,
            None => {
                proof {
                    lemma_product_bounds(d[0] as nat, d[1] as nat * d[2] as nat);
                    vstd::arithmetic::mul::lemma_mul_is_associative(d[0] as int, d[1] as int, d[2] as int);
                }
                return None;
            },
        };
        let total = match d[0].checked_mul(cl) {
            Some(v) => v,
            None => {
                proof {
                    vstd::arithmetic::mul::lemma_mul_is_associative(d[0] as int, d[1] as int, d[2] as int);
                }
                return None;
            },
        };
        proof {
            vstd::arithmetic::mul::lemma_mul_is_associative(d[0] as int, d[1] as int, d[2] as int);
        }
        if total <= 2 {
            return None;
        }
        if self.affine {
            if d[1] != self.num_channels {
                return None;
            }
        } else if cl % self.num_channels != 0 {
            return None;
        }
        Some(d.clone())
    }
}

/// A product with a positive factor is at least the other factor.
proof fn lemma_product_bounds(a: nat, b: nat)
    requires
        a > 0,
    ensures
        a * b >= b,
{
    vstd::arithmetic::mul::lemma_mul_inequality(1, a as int, b as int);
}

/// A bidirectional LSTM over `[sequence, batch, features]` (or
/// `[batch, sequence, features]` when `batch_first`).
#[derive(Clone, Copy, Debug, PartialEq, Eq, Structural)]
pub struct BiLstmSpec {
    pub d_input: usize,
    pub d_hidden: usize,
    pub bias: bool,
    pub batch_first: bool,
    pub input_forget: bool,
}

impl BiLstmSpec {
    /// Size of the batch in an input of dimensions `d`.
    pub open spec fn batch(self, d: Seq<usize>) -> usize {
        if self.batch_first { d[0] } else { d[1] }
    }

    /// The layer runs on an input of dimensions `d` with an initial state of
    /// dimensions `state`: the features are `d_input`, and the state holds the
    /// two directions' `[batch, d_hidden]` blocks.
    pub open spec fn accepts(self, d: Seq<usize>, state: Seq<usize>) -> bool {
        &&& d.len() == 3
        &&& d[2] == self.d_input
        &&& 2 * self.d_hidden <= usize::MAX
        &&& state.len() == 3
        &&& state[0] >= 2
        &&& state[1] >= self.batch(d)
        &&& state[2] >= self.d_hidden
    }

    /// Both directions' hidden states, side by side, for every step.
    pub open spec fn out(self, d: Seq<usize>) -> Seq<usize> {
        seq![d[0], d[1], (2 * self.d_hidden) as usize]
    }

    /// Dimensions of the output sequence, or `None` where the layer does not run.
    pub fn output_dims(&self, d: &Vec<usize>, state: &Vec<usize>) -> (r: Option<Vec<usize>>)
        ensures
            r is Some <==> self.accepts(d@, state@),
            r matches Some(o) ==> o@ == self.out(d@),
    {
        if d.len() != 3 || d[2] != self.d_input || state.len() != 3 {
            return None;
        }
        let width = match self.d_hidden.checked_mul(2) {
            Some(w) => w,
            None => return None,
        };
        let batch = if self.batch_first { d[0] } else { d[1] };
        if state[0] < 2 || state[1] < batch || state[2] < self.d_hidden {
            return None;
        }
        Some(vec![d[0], d[1], width])
    }
}

/// A fully connected layer on the last dimension.
#[derive(Clone, Copy, Debug, PartialEq, Eq, Structural)]
pub struct LinearSpec {
    pub d_input: usize,
    pub d_output: usize,
    pub bias: bool,
}

impl LinearSpec {
    /// The layer runs on an input whose last dimension is `d_input`.
    pub open spec fn accepts(self, d: Seq<usize>) -> bool {
        d.len() > 0 && d.last() == self.d_input
    }

    /// The last dimension becomes `d_output`.
    pub open spec fn out(self, d: Seq<usize>) -> Seq<usize> {
        d.update(d.len() - 1, self.d_output)
    }

    /// Dimensions of the output, or `None` where the layer does not run.
    pub fn output_dims(&self, d: &Vec<usize>) -> (r: Option<Vec<usize>>)
        ensures
            r is Some <==> self.accepts(d@),
            r matches Some(o) ==> o@ == self.out(d@),
    {
        if d.len() == 0 || d[d.len() - 1] != self.d_input {
            return None;
        }
        let mut o = d.clone();
        let last = o.len() - 1;
        o.set(last, self.d_output);
        Some(o)
    }
}

} // verus!
