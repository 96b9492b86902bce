//! Encoding a GEMV: the pipelines that were compiled and the arguments that a kernel gets.
use vstd::prelude::*;

use crate::arithmetic::div_ceil_u32;
use crate::backends::common::gpu_types::gemm::GemmDTransformBit;
use crate::backends::common::matmul::arguments::{MatmulA, MatmulArguments, MatmulB};
use crate::backends::common::matmul::error::{IncompatibleReason, MatmulError, MatmulPath};
use crate::backends::common::matmul::routing::{ExpertInput, MatmulRouting};
use crate::backends::metal::matmul::gemv::specialization::GemvSpecialization;
use crate::data_type::DataType;

verus! {

/// The buffers that hold the weights, by their sizes.
#[derive(Clone, Copy, Debug, PartialEq, Eq)]
pub struct GemvWeights {
    pub weights: usize,
    pub scales: Option<usize>,
    pub zero_points: Option<usize>,
    pub biases: Option<usize>,
    pub outer_scales: Option<usize>,
}

/// The arguments of a kernel.
#[derive(Clone, Copy, Debug, PartialEq, Eq)]
pub struct GemvCall {
    pub weights: GemvWeights,
    /// The size of the left operand.
    pub a: usize,
    /// The byte offset of the left operand.
    pub a_offset: usize,
    /// The size of the output.
    pub d: usize,
    /// The size of the bias that is added to every row.
    pub output_bias: Option<usize>,
    /// The size of the factors of a Hadamard transform of the output.
    pub rht_factors: Option<usize>,
    /// The size of the indices of chosen rows.
    pub gather_indices: Option<usize>,
    /// The size of the expert ids.
    pub expert_ids: Option<usize>,
    /// The size of a bank of biases, one row for each matrix.
    pub per_matrix_bias: Option<usize>,
    pub routes_per_token: u32,
    pub expert_count: u32,
    pub input_is_route_major: bool,
    pub output_group_count: u32,
    pub k: u32,
    pub n: u32,
    pub m: u32,
}

/// The buffers of the right operand.
pub open spec fn weights_of(b: MatmulB) -> GemvWeights {
    let none = GemvWeights {
        weights: 0,
        scales: None,
        zero_points: None,
        biases: None,
        outer_scales: None,
    };
    match b {
        MatmulB::FullPrecision { b } => GemvWeights { weights: b, ..none },
        MatmulB::Microfloat { codes, scales, outer_scales, .. } => GemvWeights {
            weights: codes,
            scales: Some(scales),
            outer_scales: Some(outer_scales),
            ..none
        },
        MatmulB::ScaleBiasDequant { b, scales, biases, .. } => GemvWeights {
            weights: b,
            scales: Some(scales),
            biases: Some(biases),
            ..none
        },
        MatmulB::ScaleZeroPointDequant { b, scales, zero_points, .. } => GemvWeights {
            weights: b,
            scales: Some(scales),
            zero_points: Some(zero_points),
            ..none
        },
        MatmulB::ScaleSymmetricDequant { b, scales, .. } => GemvWeights {
            weights: b,
            scales: Some(scales),
            ..none
        },
    }
}

/// The arguments that a kernel gets.
pub open spec fn call_of(
    arguments: MatmulArguments,
    a: usize,
    a_offset: usize,
    specialization: GemvSpecialization,
) -> GemvCall {
    let routes = arguments.routing.expert_routes();
    GemvCall {
        weights: weights_of(arguments.b),
        a,
        a_offset,
        d: arguments.d,
        output_bias: arguments.d_transform.output_bias,
        rht_factors: arguments.d_transform.rht_factors,
        gather_indices: arguments.routing.sparse_readout_rows(),
        expert_ids: match routes {
            Some(routes) => Some(routes.expert_ids),
            None => None,
        },
        per_matrix_bias: arguments.d_transform.per_matrix_bias,
        routes_per_token: match routes {
            Some(routes) => routes.routes_per_token,
            None => 1,
        },
        expert_count: match routes {
            Some(routes) => routes.expert_count,
            None => 1,
        },
        input_is_route_major: routes matches Some(routes) && routes.input is Routes,
        output_group_count: ((arguments.n + specialization.output_row_tile - 1)
            / specialization.output_row_tile as int) as u32,
        k: arguments.k,
        n: arguments.n,
        m: arguments.m,
    }
}

/// The pipelines that were compiled, each for another specialization.
#[derive(Debug)]
pub struct GemvKernel {
    weights_data_type: DataType,
    input_data_type: DataType,
    output_data_type: DataType,
    pipelines: Vec<GemvSpecialization>,
}

impl GemvKernel {
    /// The specializations of the compiled pipelines, in the order in which they were compiled.
    pub closed spec fn pipelines(self) -> Seq<GemvSpecialization> {
        self.pipelines@
    }

    /// The element types of the weights, the input and the output.
    pub closed spec fn data_types(self) -> (DataType, DataType, DataType) {
        (self.weights_data_type, self.input_data_type, self.output_data_type)
    }

    /// No specialization was compiled twice.
    pub open spec fn wf(self) -> bool {
        self.pipelines().no_duplicates()
    }

    /// Kernels of which none is compiled yet.
    pub fn new(
        weights_data_type: DataType,
        input_data_type: DataType,
        output_data_type: DataType,
    ) -> (kernel: GemvKernel)
        ensures
            kernel.wf(),
            kernel.pipelines() == Seq::<GemvSpecialization>::empty(),
            kernel.data_types() == (weights_data_type, input_data_type, output_data_type),
    {
        GemvKernel { weights_data_type, input_data_type, output_data_type, pipelines: Vec::new() }
    }

    /// The index of the pipeline that was compiled for a specialization, where one was.
    pub fn find(&self, specialization: &GemvSpecialization) -> (index: Option<usize>)
        ensures
            match index {
                Some(index) => index < self.pipelines().len() && self.pipelines()[index as int]
                    == *specialization,
                None => !self.pipelines().contains(*specialization),
            },
    {
        let mut index: usize = 0;
        while index < self.pipelines.len()
            invariant
                index <= self.pipelines@.len(),
                forall|i: int| 0 <= i < index ==> self.pipelines@[i] != *specialization,
            decreases self.pipelines@.len() - index,
        {
            if self.pipelines[index] == *specialization {
                return Some(index);
            }
            index += 1;
        }
        None
    }

    /// Records that a pipeline was compiled, and gives its index.
    pub fn insert(&mut self, specialization: GemvSpecialization) -> (index: usize)
        requires
            old(self).wf(),
            !old(self).pipelines().contains(specialization),
        ensures
            final(self).wf(),
            final(self).pipelines() == old(self).pipelines().push(specialization),
            final(self).data_types() == old(self).data_types(),
            index == old(self).pipelines().len(),
    {
        let index: usize = self.pipelines.len();
        self.pipelines.push(specialization);
        index
    }

    /// The arguments of the kernel that encodes a multiplication, or why none can.
    pub fn encode(arguments: &MatmulArguments, specialization: &GemvSpecialization) -> (result: Result<
        GemvCall,
        MatmulError,
    >)
        requires
            !arguments.d_transform.gate_act && arguments.a is FullPrecision
                ==> specialization.output_row_tile > 0,
        ensures
            result == if arguments.d_transform.gate_act {
                Err::<GemvCall, MatmulError>(
                    MatmulError::UnsupportedDOp {
                        bit: GemmDTransformBit::GateActMul,
                        path: MatmulPath::Gemv,
                    },
                )
            } else {
                match arguments.a {
                    MatmulA::FullPrecision { values, offset } => Ok(
                        call_of(*arguments, values, offset, *specialization),
                    ),
                    MatmulA::Int8Symmetric { .. } => Err(
                        MatmulError::IncompatibleA {
                            path: MatmulPath::Gemv,
                            reason: IncompatibleReason::PreparedActivationsRequireGemm,
                        },
                    ),
                }
            },
    {
        if arguments.d_transform.gate_act {
            return Err(
                MatmulError::UnsupportedDOp {
                    bit: GemmDTransformBit::GateActMul,
                    path: MatmulPath::Gemv,
                },
            );
        }
        let (a, a_offset): (usize, usize) = match arguments.a {
            MatmulA::FullPrecision { values, offset } => (values, offset),
            MatmulA::Int8Symmetric { .. } => {
                return Err(
                    MatmulError::IncompatibleA {
                        path: MatmulPath::Gemv,
                        reason: IncompatibleReason::PreparedActivationsRequireGemm,
                    },
                );
            },
        };
        let routes = arguments.routing.expert_routes();
        let (expert_ids, routes_per_token, expert_count, input_is_route_major) = match routes {
            Some(routes) => (
                Some(routes.expert_ids),
                routes.routes_per_token,
                routes.expert_count,
                routes.input == ExpertInput::Routes,
            ),
            None => (None, 1, 1, false),
        };
        let (weights, scales, zero_points, biases, outer_scales) = match arguments.b {
            MatmulB::FullPrecision { b } => (b, None, None, None, None),
            MatmulB::Microfloat { codes, scales, outer_scales, .. } => (
                codes,
                Some(scales),
                None,
                None,
                Some(outer_scales),
            ),
            MatmulB::ScaleBiasDequant { b, scales, biases, .. } => (
                b,
                Some(scales),
                None,
                Some(biases),
                None,
            ),
            MatmulB::ScaleZeroPointDequant { b, scales, zero_points, .. } => (
                b,
                Some(scales),
                Some(zero_points),
                None,
                None,
            ),
            MatmulB::ScaleSymmetricDequant { b, scales, .. } => (b, Some(scales), None, None, None),
        };
        Ok(
            GemvCall {
                weights: GemvWeights { weights, scales, zero_points, biases, outer_scales },
                a,
                a_offset,
                d: arguments.d,
                output_bias: arguments.d_transform.output_bias,
                rht_factors: arguments.d_transform.rht_factors,
                gather_indices: arguments.routing.sparse_readout_rows(),
                expert_ids,
                per_matrix_bias: arguments.d_transform.per_matrix_bias,
                routes_per_token,
                expert_count,
                input_is_route_major,
                output_group_count: div_ceil_u32(arguments.n, specialization.output_row_tile()),
                k: arguments.k,
                n: arguments.n,
                m: arguments.m,
            },
        )
    }
}

/// The buffers that hold the right operand: its codes or values, and each of the tables that its
/// format has.
pub open spec fn holds_right_operand(weights: GemvWeights, b: MatmulB) -> bool {
    &&& weights.weights == match b {
        MatmulB::Microfloat { codes, .. } => codes,
        MatmulB::FullPrecision { b } => b,
        MatmulB::ScaleBiasDequant { b, .. } => b,
        MatmulB::ScaleZeroPointDequant { b, .. } => b,
        MatmulB::ScaleSymmetricDequant { b, .. } => b,
    }
    &&& weights.scales is None <==> b is FullPrecision
    &&& weights.biases is Some <==> b is ScaleBiasDequant
    &&& weights.zero_points is Some <==> b is ScaleZeroPointDequant
    &&& weights.outer_scales is Some <==> b is Microfloat
    &&& weights.scales matches Some(size) ==> match b {
        MatmulB::FullPrecision { .. } => false,
        MatmulB::Microfloat { scales, .. } => size == scales,
        MatmulB::ScaleBiasDequant { scales, .. } => size == scales,
        MatmulB::ScaleZeroPointDequant { scales, .. } => size == scales,
        MatmulB::ScaleSymmetricDequant { scales, .. } => size == scales,
    }
    &&& weights.biases matches Some(size) ==> b->ScaleBiasDequant_biases == size
    &&& weights.zero_points matches Some(size) ==> b->ScaleZeroPointDequant_zero_points == size
    &&& weights.outer_scales matches Some(size) ==> b->outer_scales == size
}

/// A call hands over every buffer of the right operand and no other one.
pub proof fn law_call_holds_the_right_operand(
    arguments: MatmulArguments,
    specialization: GemvSpecialization,
    call: GemvCall,
)
    requires
        call_ensures(
            GemvKernel::encode,
            (&arguments, &specialization),
            Ok::<GemvCall, MatmulError>(call),
        ),
    ensures
        holds_right_operand(call.weights, arguments.b),
{
}

/// A call hands over the left operand from its offset on, the output, and every operand of what is done
/// to the product; its extents are those of the multiplication.
pub proof fn law_call_holds_the_operands(
    arguments: MatmulArguments,
    specialization: GemvSpecialization,
    call: GemvCall,
)
    requires
        call_ensures(
            GemvKernel::encode,
            (&arguments, &specialization),
            Ok::<GemvCall, MatmulError>(call),
        ),
    ensures
        arguments.a == (MatmulA::FullPrecision { values: call.a, offset: call.a_offset }),
        call.d == arguments.d,
        call.output_bias == arguments.d_transform.output_bias,
        call.per_matrix_bias == arguments.d_transform.per_matrix_bias,
        call.rht_factors == arguments.d_transform.rht_factors,
        (call.m, call.n, call.k) == (arguments.m, arguments.n, arguments.k),
        !arguments.d_transform.gate_act,
{
}

/// A call names the rows that are chosen, or the experts that rows go through, where there are any;
/// without experts there is one matrix and one route for each row.
pub proof fn law_call_follows_the_routing(
    arguments: MatmulArguments,
    specialization: GemvSpecialization,
    call: GemvCall,
)
    requires
        call_ensures(
            GemvKernel::encode,
            (&arguments, &specialization),
            Ok::<GemvCall, MatmulError>(call),
        ),
    ensures
        match arguments.routing {
            MatmulRouting::Dense => call.gather_indices is None && call.expert_ids is None,
            MatmulRouting::SparseReadout { b_rows } => call.gather_indices == Some(b_rows)
                && call.expert_ids is None,
            MatmulRouting::Experts(routes) => call.gather_indices is None && call.expert_ids == Some(
                routes.expert_ids,
            ) && call.routes_per_token == routes.routes_per_token && call.expert_count
                == routes.expert_count && call.input_is_route_major == (routes.input
                == ExpertInput::Routes),
        },
        arguments.routing !is Experts ==> call.routes_per_token == 1 && call.expert_count == 1
            && !call.input_is_route_major,
{
}

/// The groups of columns cover all columns, and none of them is empty.
pub proof fn law_call_covers_the_columns(
    arguments: MatmulArguments,
    specialization: GemvSpecialization,
    call: GemvCall,
)
    requires
        specialization.output_row_tile > 0,
        call_ensures(
            GemvKernel::encode,
            (&arguments, &specialization),
            Ok::<GemvCall, MatmulError>(call),
        ),
    ensures
        call.output_group_count * specialization.output_row_tile >= arguments.n,
        call.output_group_count > 0 ==> (call.output_group_count - 1)
            * specialization.output_row_tile < arguments.n,
{
    let n = arguments.n as int;
    let tile = specialization.output_row_tile as int;
    let count = (n + tile - 1) / tile;
    crate::arithmetic::lemma_div_ceil_is_at_most(n, tile);
    assert(count * tile >= n && (count > 0 ==> (count - 1) * tile < n)) by (nonlinear_arith)
        requires
            tile > 0,
            n >= 0,
            count == (n + tile - 1) / tile,
    ;
}

/// Only two things make a call impossible: one half of the columns that gates the other, and a left
/// operand that was quantized.
pub proof fn law_calls_are_refused_for_a_reason(
    arguments: MatmulArguments,
    specialization: GemvSpecialization,
    result: Result<GemvCall, MatmulError>,
)
    requires
        call_ensures(GemvKernel::encode, (&arguments, &specialization), result),
    ensures
        result is Ok <==> !arguments.d_transform.gate_act && arguments.a is FullPrecision,
        result matches Err(error) ==> match error {
            MatmulError::UnsupportedDOp { bit, path } => arguments.d_transform.gate_act && bit
                == GemmDTransformBit::GateActMul && path == MatmulPath::Gemv,
            MatmulError::IncompatibleA { path, reason } => !arguments.d_transform.gate_act
                && arguments.a is Int8Symmetric && path == MatmulPath::Gemv && reason
                == IncompatibleReason::PreparedActivationsRequireGemm,
            _ => false,
        },
{
}

} // verus!
