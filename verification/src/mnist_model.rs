//! The two models that the MNIST runner trains, and 32-bit floating-point
//! numbers by their bits.
use crate::session::{default_limits, SessionLimits};
use vstd::prelude::*;

verus! {

/// Pixels of one digit.
pub const INPUTS: usize = 784;

pub const CLASSES: usize = 10;

/// A weight for every pixel and class, and a bias for every class.
pub const SOFTMAX_PARAMS: usize = 784 * 10 + 10;

/// conv 5x5 x8 (200 + 8) and fc 1152->10 (11,520 + 10).
pub const CNN_PARAMS: usize = 10 * 1152 + 10 + 8 * 25 + 8;

#[derive(Clone, Copy, Debug, PartialEq, Eq, Structural)]
pub enum ModelKind {
    Cnn,
    Softmax,
}

impl ModelKind {
    pub open spec fn spec_name(self) -> Seq<char> {
        match self {
            ModelKind::Cnn =>
                "small CNN: conv 5x5 x8 + ReLU -> max-pool 2x2 -> fc 1152->10 softmax (11,738 parameters), minibatch SGD"@,
            ModelKind::Softmax =>
                "softmax regression 784->10 (multinomial logistic regression), minibatch SGD"@,
        }
    }

    pub fn name(self) -> (name: &'static str)
        ensures
            name@ == self.spec_name(),
    {
        match self {
            ModelKind::Cnn =>
                "small CNN: conv 5x5 x8 + ReLU -> max-pool 2x2 -> fc 1152->10 softmax (11,738 parameters), minibatch SGD",
            ModelKind::Softmax =>
                "softmax regression 784->10 (multinomial logistic regression), minibatch SGD",
        }
    }

    /// The word for the model on the command line and in events.
    pub open spec fn spec_label(self) -> Seq<char> {
        match self {
            ModelKind::Cnn => "cnn"@,
            ModelKind::Softmax => "softmax"@,
        }
    }

    /// The word for the model on the command line and in events.
    pub fn label(self) -> (label: &'static str)
        ensures
            label@ == self.spec_label(),
    {
        match self {
            ModelKind::Cnn => "cnn",
            ModelKind::Softmax => "softmax",
        }
    }

    pub open spec fn spec_params(self) -> usize {
        match self {
            ModelKind::Cnn => CNN_PARAMS,
            ModelKind::Softmax => SOFTMAX_PARAMS,
        }
    }

    pub fn params(self) -> (params: usize)
        ensures
            params == self.spec_params(),
    {
        match self {
            ModelKind::Cnn => CNN_PARAMS,
            ModelKind::Softmax => SOFTMAX_PARAMS,
        }
    }

    pub open spec fn spec_guest(self) -> Seq<char> {
        match self {
            ModelKind::Cnn => "guest/mnist-cnn/mnist_cnn_guest.wasm"@,
            ModelKind::Softmax => "guest/mnist/mnist_guest.wasm"@,
        }
    }

    /// The guest module's path below the project.
    pub fn guest(self) -> (path: &'static str)
        ensures
            path@ == self.spec_guest(),
    {
        match self {
            ModelKind::Cnn => "guest/mnist-cnn/mnist_cnn_guest.wasm",
            ModelKind::Softmax => "guest/mnist/mnist_guest.wasm",
        }
    }

    pub open spec fn spec_default_learning_rate(self) -> u32 {
        match self {
            ModelKind::Cnn => 0x3dcc_cccd,
            ModelKind::Softmax => 0x3f00_0000,
        }
    }

    /// A tenth for the CNN and a half for softmax, by their bits.
    pub fn default_learning_rate(self) -> (bits: u32)
        ensures
            bits == self.spec_default_learning_rate(),
    {
        match self {
            ModelKind::Cnn => 0x3dcc_cccd,
            ModelKind::Softmax => 0x3f00_0000,
        }
    }

    pub open spec fn spec_weights_layout(self) -> Seq<char> {
        match self {
            ModelKind::Cnn => "cnn: W2 10x1152 row-major, b2 10, W1 8x5x5, b1 8, f32"@,
            ModelKind::Softmax => "softmax: 10x784 weights row-major then 10 biases, f32"@,
        }
    }

    pub fn weights_layout(self) -> (layout: &'static str)
        ensures
            layout@ == self.spec_weights_layout(),
    {
        match self {
            ModelKind::Cnn => "cnn: W2 10x1152 row-major, b2 10, W1 8x5x5, b1 8, f32",
            ModelKind::Softmax => "softmax: 10x784 weights row-major then 10 biases, f32",
        }
    }

    pub open spec fn spec_session_limits(self) -> SessionLimits {
        match self {
            ModelKind::Cnn => SessionLimits {
                max_bytes: 8_388_608,
                max_pipelines: 8,
                ..default_limits()
            },
            ModelKind::Softmax => default_limits(),
        }
    }

    /// Documented per-run session budget: the CNN state buffer is about
    /// 3.5 MB (activations and gradients for a batch of 64) and its step takes
    /// six kernels, so its session gets an 8 MiB byte budget and eight
    /// pipelines; everything else keeps the bridge defaults.
    pub fn session_limits(self) -> (limits: SessionLimits)
        ensures
            limits == self.spec_session_limits(),
    {
        match self {
            ModelKind::Cnn => {
                let base = SessionLimits::default();
                SessionLimits {
                    max_buffers: base.max_buffers,
                    max_bytes: 8_388_608,
                    max_pipelines: 8,
                }
            },
            ModelKind::Softmax => SessionLimits::default(),
        }
    }
}

/// What is left of a 32-bit float's bits without the sign.
pub open spec fn magnitude(bits: u32) -> int {
    bits as int % 0x8000_0000
}

/// The float is not a number.
pub open spec fn is_nan(bits: u32) -> bool {
    magnitude(bits) > 0x7f80_0000
}

/// The float is neither infinite nor not a number.
pub open spec fn is_finite(bits: u32) -> bool {
    magnitude(bits) < 0x7f80_0000
}

/// The float is less than zero.
pub open spec fn is_negative(bits: u32) -> bool {
    bits > 0x8000_0000 && !is_nan(bits)
}

/// The float is zero, of either sign.
pub open spec fn is_zero(bits: u32) -> bool {
    magnitude(bits) == 0
}

pub fn float_is_nan(bits: u32) -> (nan: bool)
    ensures
        nan == is_nan(bits),
{
    bits % 0x8000_0000 > 0x7f80_0000
}

pub fn float_is_finite(bits: u32) -> (finite: bool)
    ensures
        finite == is_finite(bits),
{
    bits % 0x8000_0000 < 0x7f80_0000
}

pub fn float_is_negative(bits: u32) -> (negative: bool)
    ensures
        negative == is_negative(bits),
{
    bits > 0x8000_0000 && !float_is_nan(bits)
}

pub fn float_is_zero(bits: u32) -> (zero: bool)
    ensures
        zero == is_zero(bits),
{
    bits % 0x8000_0000 == 0
}

/// Where a float stands in the total order: negative ones below positive ones,
/// each by magnitude, with negative zero below positive zero.
pub open spec fn total_order(bits: u32) -> int {
    if bits < 0x8000_0000 {
        bits as int
    } else {
        -1 - magnitude(bits)
    }
}

/// Where a float stands in the total order.
pub fn order_key(bits: u32) -> (key: i64)
    ensures
        key == total_order(bits),
{
    if bits < 0x8000_0000 {
        bits as i64
    } else {
        -1 - (bits % 0x8000_0000) as i64
    }
}

/// Different floats stand at different places of the total order.
pub proof fn law_total_order_is_strict(a: u32, b: u32)
    ensures
        total_order(a) == total_order(b) <==> a == b,
{
}

} // verus!
