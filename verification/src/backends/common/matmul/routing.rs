//! Which rows of the weights a multiplication reads, and its shape.
use vstd::prelude::*;

use crate::backends::common::gpu_types::gemm::{GemmBPrologueKind, GemmDTransform};
use crate::backends::common::matmul::arguments::{MatmulA, MatmulArguments, MatmulBKind};

verus! {

/// The format of the activations that a multiplication reads.
#[derive(Clone, Copy, Debug, PartialEq, Eq, Structural)]
pub enum ActivationFormat {
    Bf16,
    Int8,
}

/// How activations are quantized to eight bits.
#[derive(Clone, Copy, Debug, PartialEq, Eq)]
pub struct A8ActivationPlan {
    pub activation_group_size: u32,
    pub sum_group_size: Option<u32>,
}

/// What a row of the input of routed experts stands for.
#[derive(Clone, Copy, Debug, PartialEq, Eq, Structural)]
pub enum ExpertInput {
    Tokens,
    Routes,
}

/// The experts that the rows of a product go through.
#[derive(Clone, Copy, Debug, PartialEq, Eq)]
pub struct ExpertRoutes {
    /// The size in bytes of the expert ids.
    pub expert_ids: usize,
    pub routes_per_token: u32,
    pub expert_count: u32,
    pub input: ExpertInput,
}

impl ExpertRoutes {
    /// A token has a route, and there is an expert.
    pub open spec fn wf(self) -> bool {
        self.routes_per_token > 0 && self.expert_count > 0
    }
}

/// Which weights each row of a product is multiplied with.
#[derive(Clone, Copy, Debug, PartialEq, Eq)]
pub enum MatmulRouting {
    Dense,
    /// Only chosen rows of the weights, whose indices take `b_rows` bytes.
    SparseReadout { b_rows: usize },
    Experts(ExpertRoutes),
}

impl MatmulRouting {
    pub open spec fn wf(self) -> bool {
        self matches MatmulRouting::Experts(routes) ==> routes.wf()
    }

    pub open spec fn spec_sparse_readout_rows(self) -> Option<usize> {
        match self {
            MatmulRouting::SparseReadout { b_rows } => Some(b_rows),
            _ => None,
        }
    }

    /// The size of the indices of the chosen rows, where rows are chosen.
    #[verifier::when_used_as_spec(spec_sparse_readout_rows)]
    pub fn sparse_readout_rows(self) -> (rows: Option<usize>)
        ensures
            rows == self.sparse_readout_rows(),
    {
        match self {
            MatmulRouting::SparseReadout { b_rows } => Some(b_rows),
            MatmulRouting::Dense | MatmulRouting::Experts(_) => None,
        }
    }

    pub open spec fn spec_expert_routes(self) -> Option<ExpertRoutes> {
        match self {
            MatmulRouting::Experts(routes) => Some(routes),
            _ => None,
        }
    }

    /// The routes to experts, where there are any.
    #[verifier::when_used_as_spec(spec_expert_routes)]
    pub fn expert_routes(self) -> (routes: Option<ExpertRoutes>)
        ensures
            routes == self.expert_routes(),
    {
        match self {
            MatmulRouting::Experts(routes) => Some(routes),
            MatmulRouting::Dense | MatmulRouting::SparseReadout { .. } => None,
        }
    }
}

/// What decides which kernel runs a multiplication.
#[derive(Clone, Copy, Debug, PartialEq, Eq)]
pub struct MatmulShape {
    pub m: u32,
    pub n: u32,
    pub k: u32,
    pub b_transpose: bool,
    pub b_leading_dimension: Option<u32>,
    pub b_kind: MatmulBKind,
    pub b_prologue: GemmBPrologueKind,
    pub b_bits: Option<u32>,
    pub b_group_size: Option<u32>,
    pub signed_codes: bool,
    pub a_full_precision: bool,
    pub sparse_readout: bool,
    pub expert_routed: bool,
    pub expert_bias: bool,
    pub d_transform: GemmDTransform,
}

impl MatmulShape {
    /// The shape of a multiplication.
    pub open spec fn of(arguments: MatmulArguments) -> MatmulShape {
        MatmulShape {
            m: arguments.m,
            n: arguments.n,
            k: arguments.k,
            b_transpose: arguments.b_transpose,
            b_leading_dimension: arguments.b_leading_dimension,
            b_kind: arguments.b.kind(),
            b_prologue: arguments.b.b_prologue(),
            b_bits: arguments.b.bits_per_b(),
            b_group_size: arguments.b.group_size(),
            signed_codes: arguments.b.signed_codes(),
            a_full_precision: arguments.a is FullPrecision,
            sparse_readout: arguments.routing is SparseReadout,
            expert_routed: arguments.routing is Experts,
            expert_bias: arguments.d_transform.per_matrix_bias is Some,
            d_transform: arguments.d_transform.transform,
        }
    }

    /// The shape of a multiplication.
    pub fn from_arguments(arguments: &MatmulArguments) -> (shape: MatmulShape)
        ensures
            shape == MatmulShape::of(*arguments),
    {
        let a_full_precision: bool = match arguments.a {
            MatmulA::FullPrecision { .. } => true,
            MatmulA::Int8Symmetric { .. } => false,
        };
        MatmulShape {
            m: arguments.m,
            n: arguments.n,
            k: arguments.k,
            b_transpose: arguments.b_transpose,
            b_leading_dimension: arguments.b_leading_dimension,
            b_kind: arguments.b.kind(),
            b_prologue: arguments.b.b_prologue(),
            b_bits: arguments.b.bits_per_b(),
            b_group_size: arguments.b.group_size(),
            signed_codes: arguments.b.signed_codes(),
            a_full_precision,
            sparse_readout: arguments.routing.sparse_readout_rows().is_some(),
            expert_routed: arguments.routing.expert_routes().is_some(),
            expert_bias: arguments.d_transform.per_matrix_bias.is_some(),
            d_transform: arguments.d_transform.transform,
        }
    }

    pub open spec fn spec_is_integer_quantized(self) -> bool {
        self.b_kind is Integer
    }

    /// Whether the weights are integer codes.
    #[verifier::when_used_as_spec(spec_is_integer_quantized)]
    pub fn is_integer_quantized(self) -> (quantized: bool)
        ensures
            quantized == self.is_integer_quantized(),
    {
        self.b_kind == MatmulBKind::Integer
    }
}

} // verus!
