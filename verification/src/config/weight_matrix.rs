//! How the weights of a layer are stored.
use vstd::prelude::*;

verus! {

/// The order of the axes of a stored matrix.
#[derive(Clone, Copy, Debug, PartialEq, Eq, Structural)]
pub enum Layout {
    OutputInput,
    InputOutput,
}

/// Full-precision weights.
#[derive(Clone, Copy, Debug, PartialEq, Eq)]
pub struct FullPrecisionSpec {
    pub layout: Layout,
}

impl FullPrecisionSpec {
    /// Full-precision weights with a row for each output.
    pub fn output_input() -> (spec: FullPrecisionSpec)
        ensures
            spec.layout is OutputInput,
    {
        FullPrecisionSpec { layout: Layout::OutputInput }
    }
}

/// Integer weights with a scale and a bias for each group.
#[derive(Clone, Copy, Debug, PartialEq, Eq)]
pub struct MlxSpec {
    pub bits: u32,
    pub group_size: u32,
    pub layout: Layout,
}

/// Integer weights with a scale for each group, and a zero point unless they are symmetric.
#[derive(Clone, Copy, Debug, PartialEq, Eq)]
pub struct IntSpec {
    pub bits: u32,
    pub group_size: u32,
    pub is_symmetric: bool,
    pub layout: Layout,
}

/// How the scales of microfloat weights are stored.
#[derive(Clone, Copy, Debug, PartialEq, Eq, Structural)]
pub enum MicrofloatScaleMode {
    Mxfp4,
}

/// Microfloat weights.
#[derive(Clone, Copy, Debug, PartialEq, Eq)]
pub struct MicrofloatSpec {
    pub bits: u32,
    pub group_size: usize,
    pub scale_mode: MicrofloatScaleMode,
    pub layout: Layout,
}

/// The storage of a layer's weights.
#[derive(Debug, PartialEq, Eq)]
pub enum AnyWeightMatrixSpec {
    FullPrecisionSpec(FullPrecisionSpec),
    MLXSpec(MlxSpec),
    IntSpec(IntSpec),
    MicrofloatSpec(MicrofloatSpec),
    /// A storage that no kernel reads, as its configuration describes it.
    Unsupported { description: String },
}

} // verus!
