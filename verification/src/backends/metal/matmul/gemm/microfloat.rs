//! Encoding a GEMM with microfloat weights.
use vstd::prelude::*;

use crate::backends::common::gpu_types::gemm::{GemmDTransform, GemmDTransformBit};
use crate::backends::common::matmul::arguments::{MatmulA, MatmulArguments, MatmulB};
use crate::backends::common::matmul::error::{IncompatibleReason, MatmulError, MatmulPath};
use crate::data_type::DataType;

verus! {

/// What a kernel is compiled for.
#[derive(Clone, Copy, Debug, PartialEq, Eq, Hash, Structural)]
pub struct MicrofloatGemmSpecialization {
    pub group_size: u32,
    pub output_transform: GemmDTransform,
}

/// The arguments of a kernel, and what it is compiled for. Operands are known by their sizes.
#[derive(Clone, Copy, Debug, PartialEq, Eq)]
pub struct MicrofloatGemmCall {
    pub specialization: MicrofloatGemmSpecialization,
    pub codes: usize,
    pub scales: usize,
    pub outer_scales: usize,
    pub input: usize,
    /// The byte offset of the left operand.
    pub input_offset: usize,
    pub d: usize,
    /// The bias that is added to every row.
    pub output_bias: Option<usize>,
    pub m: u32,
    pub n: u32,
    pub k: u32,
}

/// The kernel that encodes a multiplication with microfloat weights, or why none can.
pub open spec fn call_of(arguments: MatmulArguments) -> Result<MicrofloatGemmCall, MatmulError> {
    if arguments.d_transform.transform.rht {
        Err(
            MatmulError::UnsupportedDOp {
                bit: GemmDTransformBit::Rht,
                path: MatmulPath::MicrofloatGemm,
            },
        )
    } else {
        match (arguments.a, arguments.b) {
            (
                MatmulA::FullPrecision { values, offset },
                MatmulB::Microfloat { codes, scales, outer_scales, metadata },
            ) => Ok(
                MicrofloatGemmCall {
                    specialization: MicrofloatGemmSpecialization {
                        group_size: metadata.group_size(),
                        output_transform: arguments.d_transform.transform,
                    },
                    codes,
                    scales,
                    outer_scales,
                    input: values,
                    input_offset: offset,
                    d: arguments.d,
                    output_bias: arguments.d_transform.output_bias,
                    m: arguments.m,
                    n: arguments.n,
                    k: arguments.k,
                },
            ),
            _ => Err(
                MatmulError::IncompatibleA {
                    path: MatmulPath::MicrofloatGemm,
                    reason: IncompatibleReason::PreparedActivationsRequireIntegerWeights,
                },
            ),
        }
    }
}

/// The pipelines that were compiled, each for another specialization.
#[derive(Debug)]
pub struct MicrofloatGemmDispatch {
    pipelines: Vec<MicrofloatGemmSpecialization>,
    weights_data_type: DataType,
    input_data_type: DataType,
    output_data_type: DataType,
}

impl MicrofloatGemmDispatch {
    /// The specializations of the compiled pipelines, in the order in which they were compiled.
    pub closed spec fn pipelines(self) -> Seq<MicrofloatGemmSpecialization> {
        self.pipelines@
    }

    /// The element types of the weights, the input and the output.
    pub closed spec fn data_types(self) -> (DataType, DataType, DataType) {
        (self.weights_data_type, self.input_data_type, self.output_data_type)
    }

    /// No specialization was compiled twice.
    pub open spec fn wf(self) -> bool {
        self.pipelines().no_duplicates()
    }

    /// Kernels of which none is compiled yet.
    pub fn new(
        weights_data_type: DataType,
        input_data_type: DataType,
        output_data_type: DataType,
    ) -> (dispatch: MicrofloatGemmDispatch)
        ensures
            dispatch.wf(),
            dispatch.pipelines() == Seq::<MicrofloatGemmSpecialization>::empty(),
            dispatch.data_types() == (weights_data_type, input_data_type, output_data_type),
    {
        MicrofloatGemmDispatch {
            pipelines: Vec::new(),
            weights_data_type,
            input_data_type,
            output_data_type,
        }
    }

    /// The index of the pipeline that was compiled for a specialization, where one was.
    pub fn find(&self, specialization: &MicrofloatGemmSpecialization) -> (index: Option<usize>)
        ensures
            match index {
                Some(index) => index < self.pipelines().len() && self.pipelines()[index as int]
                    == *specialization,
                None => !self.pipelines().contains(*specialization),
            },
    {
        let mut index: usize = 0;
        while index < self.pipelines.len()
            invariant
                index <= self.pipelines@.len(),
                forall|i: int| 0 <= i < index ==> self.pipelines@[i] != *specialization,
            decreases self.pipelines@.len() - index,
        {
            if self.pipelines[index] == *specialization {
                return Some(index);
            }
            index += 1;
        }
        None
    }

    /// Records that a pipeline was compiled, and gives its index.
    pub fn insert(&mut self, specialization: MicrofloatGemmSpecialization) -> (index: usize)
        requires
            old(self).wf(),
            !old(self).pipelines().contains(specialization),
        ensures
            final(self).wf(),
            final(self).pipelines() == old(self).pipelines().push(specialization),
            final(self).data_types() == old(self).data_types(),
            index == old(self).pipelines().len(),
    {
        let index: usize = self.pipelines.len();
        self.pipelines.push(specialization);
        index
    }

    /// The arguments of the kernel that encodes a multiplication with microfloat weights, or why none
    /// can.
    pub fn encode(arguments: &MatmulArguments) -> (result: Result<MicrofloatGemmCall, MatmulError>)
        requires
            arguments.b is Microfloat,
        ensures
            result == call_of(*arguments),
    {
        let output_transform: GemmDTransform = arguments.d_transform.transform;
        if output_transform.rht {
            return Err(
                MatmulError::UnsupportedDOp {
                    bit: GemmDTransformBit::Rht,
                    path: MatmulPath::MicrofloatGemm,
                },
            );
        }
        match (arguments.a, arguments.b) {
            (
                MatmulA::FullPrecision { values, offset },
                MatmulB::Microfloat { codes, scales, outer_scales, metadata },
            ) => Ok(
                MicrofloatGemmCall {
                    specialization: MicrofloatGemmSpecialization {
                        group_size: metadata.group_size(),
                        output_transform,
                    },
                    codes,
                    scales,
                    outer_scales,
                    input: values,
                    input_offset: offset,
                    d: arguments.d,
                    output_bias: arguments.d_transform.output_bias,
                    m: arguments.m,
                    n: arguments.n,
                    k: arguments.k,
                },
            ),
            _ => Err(
                MatmulError::IncompatibleA {
                    path: MatmulPath::MicrofloatGemm,
                    reason: IncompatibleReason::PreparedActivationsRequireIntegerWeights,
                },
            ),
        }
    }
}

/// A pipeline is found at the index at which it was recorded, and what was recorded before keeps its own.
pub proof fn law_recorded_pipelines_are_found(
    dispatch: &mut MicrofloatGemmDispatch,
    specialization: MicrofloatGemmSpecialization,
    index: usize,
    asked: MicrofloatGemmSpecialization,
    before: Option<usize>,
    after: Option<usize>,
)
    requires
        old(dispatch).wf(),
        call_ensures(MicrofloatGemmDispatch::insert, (dispatch, specialization), index),
        call_ensures(MicrofloatGemmDispatch::find, (&*old(dispatch), &asked), before),
        call_ensures(MicrofloatGemmDispatch::find, (&*final(dispatch), &asked), after),
    ensures
        asked == specialization ==> after == Some(index),
        asked != specialization ==> after == before,
{
    let recorded = old(dispatch).pipelines();
    assert(final(dispatch).pipelines()[recorded.len() as int] == specialization);
    if let Some(place) = before {
        assert(final(dispatch).pipelines()[place as int] == recorded[place as int]);
    }
    if let Some(place) = after {
        if asked != specialization {
            assert(recorded[place as int] == asked);
        }
    }
}

/// Nothing is found where nothing was recorded.
pub proof fn law_new_dispatch_finds_nothing(
    weights: DataType,
    input: DataType,
    output: DataType,
    dispatch: MicrofloatGemmDispatch,
    asked: MicrofloatGemmSpecialization,
    found: Option<usize>,
)
    requires
        call_ensures(MicrofloatGemmDispatch::new, (weights, input, output), dispatch),
        call_ensures(MicrofloatGemmDispatch::find, (&dispatch, &asked), found),
    ensures
        found is None,
        dispatch.data_types() == (weights, input, output),
{
}

} // verus!
