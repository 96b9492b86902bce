//! Errors of matrix multiplication.
use vstd::prelude::*;

use crate::backends::common::gpu_types::gemm::GemmDTransformBit;
use crate::data_type::DataType;
use crate::text;

verus! {

/// Why the storage of an operand is refused.
#[derive(Clone, Copy, Debug, PartialEq, Eq, Structural)]
pub enum StorageFault {
    /// The byte offset of the left operand is no multiple of its element size.
    MisalignedInput,
    /// The left operand does not cover every row that is read.
    ShortInput,
    /// The output does not cover the product.
    ShortOutput,
}

/// Why routed operands are refused.
#[derive(Clone, Copy, Debug, PartialEq, Eq, Structural)]
pub enum RoutingFault {
    /// A bias per matrix is given without routes to experts.
    BiasWithoutRoutes,
    /// Routes to experts are combined with a transform of the output.
    OutputRht,
    /// There are fewer expert ids than rows.
    ShortExpertIds,
    /// The rows are no multiple of the routes of a token.
    UnevenRoutes,
    /// The biases do not cover every expert.
    ShortBiasBank,
    /// The full-precision weights do not cover every expert.
    ShortFullPrecisionBank,
    /// Integer weights have no group size or a depth that cannot be packed.
    InvalidIntegerGroups,
    /// The integer weights do not cover every expert.
    ShortIntegerBank,
    /// The microfloat weights are not the matrix that is asked for.
    MicrofloatMismatch,
}

impl StorageFault {
    pub open spec fn spec_operand(self) -> Seq<char> {
        if self is ShortOutput {
            "D"@
        } else {
            "A"@
        }
    }

    /// The operand that is at fault.
    pub fn operand(self) -> (operand: &'static str)
        ensures
            operand@ == self.spec_operand(),
    {
        match self {
            StorageFault::MisalignedInput | StorageFault::ShortInput => "A",
            StorageFault::ShortOutput => "D",
        }
    }

    pub open spec fn spec_reason(self) -> Seq<char> {
        match self {
            StorageFault::MisalignedInput => {
                "full-precision byte offset is not aligned to the input data type"@
            },
            StorageFault::ShortInput => {
                "full-precision input allocation does not cover every referenced row"@
            },
            StorageFault::ShortOutput => "output allocation does not cover M * N elements"@,
        }
    }

    /// The reason in words.
    pub fn reason(self) -> (reason: &'static str)
        ensures
            reason@ == self.spec_reason(),
    {
        match self {
            StorageFault::MisalignedInput => {
                "full-precision byte offset is not aligned to the input data type"
            },
            StorageFault::ShortInput => {
                "full-precision input allocation does not cover every referenced row"
            },
            StorageFault::ShortOutput => "output allocation does not cover M * N elements",
        }
    }
}

impl RoutingFault {
    pub open spec fn spec_reason(self) -> Seq<char> {
        match self {
            RoutingFault::BiasWithoutRoutes => "per-matrix bias requires direct expert routes"@,
            RoutingFault::OutputRht => "direct expert routes do not support output RHT"@,
            RoutingFault::ShortExpertIds => "expert_ids must contain at least M entries"@,
            RoutingFault::UnevenRoutes => {
                "M must be divisible by routes_per_token for token inputs"@
            },
            RoutingFault::ShortBiasBank => {
                "expert bias bank must contain expert_count * N values"@
            },
            RoutingFault::ShortFullPrecisionBank => {
                "full-precision weight storage does not cover every expert matrix"@
            },
            RoutingFault::InvalidIntegerGroups => {
                "integer expert storage has an invalid group size or packed K dimension"@
            },
            RoutingFault::ShortIntegerBank => {
                "integer weight storage does not cover every expert matrix"@
            },
            RoutingFault::MicrofloatMismatch => {
                "microfloat storage does not match the requested matrix operand"@
            },
        }
    }

    /// The reason in words.
    pub fn reason(self) -> (reason: &'static str)
        ensures
            reason@ == self.spec_reason(),
    {
        match self {
            RoutingFault::BiasWithoutRoutes => "per-matrix bias requires direct expert routes",
            RoutingFault::OutputRht => "direct expert routes do not support output RHT",
            RoutingFault::ShortExpertIds => "expert_ids must contain at least M entries",
            RoutingFault::UnevenRoutes => {
                "M must be divisible by routes_per_token for token inputs"
            },
            RoutingFault::ShortBiasBank => "expert bias bank must contain expert_count * N values",
            RoutingFault::ShortFullPrecisionBank => {
                "full-precision weight storage does not cover every expert matrix"
            },
            RoutingFault::InvalidIntegerGroups => {
                "integer expert storage has an invalid group size or packed K dimension"
            },
            RoutingFault::ShortIntegerBank => {
                "integer weight storage does not cover every expert matrix"
            },
            RoutingFault::MicrofloatMismatch => {
                "microfloat storage does not match the requested matrix operand"
            },
        }
    }
}

/// The kernel that refuses an operand.
#[derive(Clone, Copy, Debug, PartialEq, Eq, Structural)]
pub enum MatmulPath {
    Gemv,
    Gemm,
    MicrofloatGemm,
}

impl MatmulPath {
    pub open spec fn spec_name(self) -> Seq<char> {
        match self {
            MatmulPath::Gemv => "Gemv"@,
            MatmulPath::Gemm => "Gemm"@,
            MatmulPath::MicrofloatGemm => "MicrofloatGemm"@,
        }
    }

    /// The name of the kernel.
    pub fn name(self) -> (name: &'static str)
        ensures
            name@ == self.spec_name(),
    {
        match self {
            MatmulPath::Gemv => "Gemv",
            MatmulPath::Gemm => "Gemm",
            MatmulPath::MicrofloatGemm => "MicrofloatGemm",
        }
    }
}

/// Why a kernel cannot read the left operand.
#[derive(Clone, Copy, Debug, PartialEq, Eq, Structural)]
pub enum IncompatibleReason {
    /// Activations that were quantized for a GEMM.
    PreparedActivationsRequireGemm,
    /// Activations that were quantized for integer weights.
    PreparedActivationsRequireIntegerWeights,
}

impl IncompatibleReason {
    pub open spec fn spec_reason(self) -> Seq<char> {
        match self {
            IncompatibleReason::PreparedActivationsRequireGemm => {
                "prepared int8 activations require GEMM"@
            },
            IncompatibleReason::PreparedActivationsRequireIntegerWeights => {
                "prepared int8 activations require integer weights"@
            },
        }
    }

    /// The reason in words.
    pub fn reason(self) -> (reason: &'static str)
        ensures
            reason@ == self.spec_reason(),
    {
        match self {
            IncompatibleReason::PreparedActivationsRequireGemm => {
                "prepared int8 activations require GEMM"
            },
            IncompatibleReason::PreparedActivationsRequireIntegerWeights => {
                "prepared int8 activations require integer weights"
            },
        }
    }
}

/// Why a multiplication is refused.
#[derive(Clone, Copy, Debug, PartialEq, Eq)]
pub enum MatmulError {
    UnsupportedDataType(DataType),
    UnsupportedGroupSize(u32),
    UnsupportedDOp { bit: GemmDTransformBit, path: MatmulPath },
    UnsupportedLayout { path: MatmulPath },
    InvalidMicrofloatStorage,
    IncompatibleA { path: MatmulPath, reason: IncompatibleReason },
    UnsupportedRouting { path: MatmulPath, routing: RoutingFault },
    InvalidStorage { path: MatmulPath, storage: StorageFault },
    /// A readout of chosen rows that only a GEMV can do was given to a GEMM.
    GatheredGemm { m: u32, n: u32 },
}

impl MatmulError {
    pub open spec fn spec_message(self) -> Seq<char> {
        match self {
            MatmulError::UnsupportedDataType(data_type) => "Unsupported data type: "@ + data_type.spec_name(),
            MatmulError::UnsupportedGroupSize(size) => "Unsupported group size: "@ + text::decimal(size as nat),
            MatmulError::UnsupportedDOp { bit, path } => "Unsupported D-transform op GemmDTransform("@ + bit.spec_name() + ") on path "@ + path.spec_name(),
            MatmulError::UnsupportedLayout { path } => "Unsupported B layout on path "@ + path.spec_name(),
            MatmulError::InvalidMicrofloatStorage => "Microfloat storage does not match the requested matrix"@,
            MatmulError::IncompatibleA { path, reason } => "Incompatible A operand for "@ + path.spec_name() + ": "@ + reason.spec_reason(),
            MatmulError::UnsupportedRouting { path, routing } => "Unsupported routing on path "@ + path.spec_name() + ": "@ + routing.spec_reason(),
            MatmulError::InvalidStorage { path, storage } => "Invalid "@ + storage.spec_operand() + " storage on path "@ + path.spec_name() + ": "@ + storage.spec_reason(),
            MatmulError::GatheredGemm { m, n } => "gathered readout requires the GEMV path, but shape (m="@ + text::decimal(m as nat) + ", n="@ + text::decimal(n as nat) + ") routes to GEMM"@,
        }
    }

    /// The reason in words.
    pub fn message(self) -> (message: String)
        ensures
            message@ == self.spec_message(),
    {
        match self {
            MatmulError::UnsupportedDataType(data_type) => {
                let mut message: String = text::copy_str("Unsupported data type: ");
                text::push_str(&mut message, data_type.name());
                message
            },
            MatmulError::UnsupportedGroupSize(size) => {
                let mut message: String = text::copy_str("Unsupported group size: ");
                text::push_decimal(&mut message, size as u64);
                message
            },
            MatmulError::UnsupportedDOp { bit, path } => {
                let mut message: String = text::copy_str("Unsupported D-transform op GemmDTransform(");
                text::push_str(&mut message, bit.name());
                text::push_str(&mut message, ") on path ");
                text::push_str(&mut message, path.name());
                message
            },
            MatmulError::UnsupportedLayout { path } => {
                let mut message: String = text::copy_str("Unsupported B layout on path ");
                text::push_str(&mut message, path.name());
                message
            },
            MatmulError::InvalidMicrofloatStorage => {
                let message: String = text::copy_str("Microfloat storage does not match the requested matrix");
                message
            },
            MatmulError::IncompatibleA { path, reason } => {
                let mut message: String = text::copy_str("Incompatible A operand for ");
                text::push_str(&mut message, path.name());
                text::push_str(&mut message, ": ");
                text::push_str(&mut message, reason.reason());
                message
            },
            MatmulError::UnsupportedRouting { path, routing } => {
                let mut message: String = text::copy_str("Unsupported routing on path ");
                text::push_str(&mut message, path.name());
                text::push_str(&mut message, ": ");
                text::push_str(&mut message, routing.reason());
                message
            },
            MatmulError::InvalidStorage { path, storage } => {
                let mut message: String = text::copy_str("Invalid ");
                text::push_str(&mut message, storage.operand());
                text::push_str(&mut message, " storage on path ");
                text::push_str(&mut message, path.name());
                text::push_str(&mut message, ": ");
                text::push_str(&mut message, storage.reason());
                message
            },
            MatmulError::GatheredGemm { m, n } => {
                let mut message: String = text::copy_str("gathered readout requires the GEMV path, but shape (m=");
                text::push_decimal(&mut message, m as u64);
                text::push_str(&mut message, ", n=");
                text::push_decimal(&mut message, n as u64);
                text::push_str(&mut message, ") routes to GEMM");
                message
            },
        }
    }
}

} // verus!
