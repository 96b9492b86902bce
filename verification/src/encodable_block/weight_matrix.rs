//! Loading and reading the weights of a layer.
use vstd::prelude::*;

use crate::arithmetic::div_ceil_u32;
use crate::backends::common::gpu_types::quantization::{QuantizationMethod, QuantizationMode};
use crate::backends::common::matmul::arguments::MatmulB;
use crate::backends::common::microfloat;
use crate::backends::common::microfloat::{
    MicrofloatEncoding, MicrofloatError, MicrofloatFormat, MicrofloatMetadata,
};
use crate::config::weight_matrix::{
    AnyWeightMatrixSpec, Layout, MicrofloatScaleMode, MicrofloatSpec,
};
use crate::data_type::DataType;
use crate::text;
use crate::text::{push_decimal, push_str};

verus! {

/// Why weights cannot be read.
#[derive(Debug, PartialEq, Eq)]
pub enum WeightMatrixError {
    /// No kernel reads the storage.
    UnsupportedStorage { description: String },
    /// The group size of microfloat weights is too large.
    OversizedMicrofloatGroup { size: usize },
    Microfloat(MicrofloatError),
    UnsupportedBits { method: QuantizationMethod, bits: u32, group_size: u32 },
    EmptyGroups,
    LayoutMismatch { expected: Layout, actual: Layout },
    UnpackedColumns { columns: u32, packing_divisor: u32 },
}

/// How integer weights are quantized.
#[derive(Clone, Copy, Debug, PartialEq, Eq)]
pub struct QuantizationInfo {
    pub mode: QuantizationMode,
    pub method: QuantizationMethod,
    pub group_size: u32,
}

/// What a storage configuration means.
#[derive(Clone, Copy, Debug, PartialEq, Eq)]
pub struct ParsedWeightSpec {
    pub layout: Layout,
    pub quantization: Option<QuantizationInfo>,
    pub microfloat: Option<MicrofloatEncoding>,
}

pub open spec fn method_name(method: QuantizationMethod) -> Seq<char> {
    match method {
        QuantizationMethod::ScaleBias => "ScaleBias"@,
        QuantizationMethod::ScaleZeroPoint => "ScaleZeroPoint"@,
        QuantizationMethod::ScaleSymmetric => "ScaleSymmetric"@,
    }
}

pub open spec fn layout_name(layout: Layout) -> Seq<char> {
    match layout {
        Layout::OutputInput => "OutputInput"@,
        Layout::InputOutput => "InputOutput"@,
    }
}

/// What is wrong with microfloat storage, in words.
pub open spec fn microfloat_message(error: MicrofloatError) -> Seq<char> {
    match error {
        MicrofloatError::UnsupportedBits { format, bits } => "unsupported "@ + "Mxfp4"@
            + " bit width: "@ + text::decimal(bits as nat),
        MicrofloatError::UnsupportedGroupSize { format, group_size } => "unsupported "@ + "Mxfp4"@
            + " group size: "@ + text::decimal(group_size as nat),
        MicrofloatError::EmptyShape => "microfloat rows and columns must be nonzero"@,
        MicrofloatError::MisalignedColumns { columns, group_size } => "microfloat columns "@
            + text::decimal(columns as nat) + " are not divisible by group size "@ + text::decimal(
            group_size as nat,
        ),
        MicrofloatError::SizeOverflow => "microfloat storage size overflows usize"@,
    }
}

impl MicrofloatError {
    /// The error in words.
    pub fn message(&self) -> (message: String)
        ensures
            message@ == microfloat_message(*self),
    {
        let mut message = String::new();
        match *self {
            MicrofloatError::UnsupportedBits { bits, .. } => {
                push_str(&mut message, "unsupported ");
                push_str(&mut message, "Mxfp4");
                push_str(&mut message, " bit width: ");
                push_decimal(&mut message, bits as u64);
            },
            MicrofloatError::UnsupportedGroupSize { group_size, .. } => {
                push_str(&mut message, "unsupported ");
                push_str(&mut message, "Mxfp4");
                push_str(&mut message, " group size: ");
                push_decimal(&mut message, group_size as u64);
            },
            MicrofloatError::EmptyShape => {
                push_str(&mut message, "microfloat rows and columns must be nonzero");
            },
            MicrofloatError::MisalignedColumns { columns, group_size } => {
                push_str(&mut message, "microfloat columns ");
                push_decimal(&mut message, columns as u64);
                push_str(&mut message, " are not divisible by group size ");
                push_decimal(&mut message, group_size as u64);
            },
            MicrofloatError::SizeOverflow => {
                push_str(&mut message, "microfloat storage size overflows usize");
            },
        }
        assert(message@ =~= microfloat_message(*self));
        message
    }
}

/// What is wrong with the weights, in words.
pub open spec fn error_message(error: WeightMatrixError) -> Seq<char> {
    "Unsupported weight matrix configuration: "@ + match error {
        WeightMatrixError::UnsupportedStorage { description } => description@,
        WeightMatrixError::OversizedMicrofloatGroup { size } => "microfloat group size "@
            + text::decimal(size as nat) + " exceeds u32"@,
        WeightMatrixError::Microfloat(error) => microfloat_message(error),
        WeightMatrixError::UnsupportedBits { method, bits, group_size } => method_name(method)
            + " bits="@ + text::decimal(bits as nat) + ", group_size="@ + text::decimal(
            group_size as nat,
        ),
        WeightMatrixError::EmptyGroups => "group size must be non-zero"@,
        WeightMatrixError::LayoutMismatch { expected, actual } => "expected "@ + layout_name(
            expected,
        ) + " layout, got "@ + layout_name(actual),
        WeightMatrixError::UnpackedColumns { columns, packing_divisor } => "stored columns "@
            + text::decimal(columns as nat) + " are not divisible by packing divisor "@
            + text::decimal(packing_divisor as nat),
    }
}

fn method_text(method: QuantizationMethod) -> (name: &'static str)
    ensures
        name@ == method_name(method),
{
    match method {
        QuantizationMethod::ScaleBias => "ScaleBias",
        QuantizationMethod::ScaleZeroPoint => "ScaleZeroPoint",
        QuantizationMethod::ScaleSymmetric => "ScaleSymmetric",
    }
}

fn layout_text(layout: Layout) -> (name: &'static str)
    ensures
        name@ == layout_name(layout),
{
    match layout {
        Layout::OutputInput => "OutputInput",
        Layout::InputOutput => "InputOutput",
    }
}

impl WeightMatrixError {
    /// The error in words.
    pub fn message(&self) -> (message: String)
        ensures
            message@ == error_message(*self),
    {
        let mut message = String::new();
        push_str(&mut message, "Unsupported weight matrix configuration: ");
        match self {
            WeightMatrixError::UnsupportedStorage { description } => {
                push_str(&mut message, description.as_str());
            },
            WeightMatrixError::OversizedMicrofloatGroup { size } => {
                push_str(&mut message, "microfloat group size ");
                push_decimal(&mut message, *size as u64);
                push_str(&mut message, " exceeds u32");
            },
            WeightMatrixError::Microfloat(error) => {
                push_str(&mut message, error.message().as_str());
            },
            WeightMatrixError::UnsupportedBits { method, bits, group_size } => {
                push_str(&mut message, method_text(*method));
                push_str(&mut message, " bits=");
                push_decimal(&mut message, *bits as u64);
                push_str(&mut message, ", group_size=");
                push_decimal(&mut message, *group_size as u64);
            },
            WeightMatrixError::EmptyGroups => {
                push_str(&mut message, "group size must be non-zero");
            },
            WeightMatrixError::LayoutMismatch { expected, actual } => {
                push_str(&mut message, "expected ");
                push_str(&mut message, layout_text(*expected));
                push_str(&mut message, " layout, got ");
                push_str(&mut message, layout_text(*actual));
            },
            WeightMatrixError::UnpackedColumns { columns, packing_divisor } => {
                push_str(&mut message, "stored columns ");
                push_decimal(&mut message, *columns as u64);
                push_str(&mut message, " are not divisible by packing divisor ");
                push_decimal(&mut message, *packing_divisor as u64);
            },
        }
        assert(message@ =~= error_message(*self));
        message
    }
}

/// The layout that a configuration names.
pub open spec fn layout_of(spec: AnyWeightMatrixSpec) -> Layout {
    match spec {
        AnyWeightMatrixSpec::FullPrecisionSpec(spec) => spec.layout,
        AnyWeightMatrixSpec::MLXSpec(spec) => spec.layout,
        AnyWeightMatrixSpec::IntSpec(spec) => spec.layout,
        AnyWeightMatrixSpec::MicrofloatSpec(spec) => spec.layout,
        AnyWeightMatrixSpec::Unsupported { .. } => Layout::OutputInput,
    }
}

/// The bits, the group size and the method of integer weights.
pub open spec fn integer_format(spec: AnyWeightMatrixSpec) -> Option<(u32, u32, QuantizationMethod)> {
    match spec {
        AnyWeightMatrixSpec::MLXSpec(spec) => Some(
            (spec.bits, spec.group_size, QuantizationMethod::ScaleBias),
        ),
        AnyWeightMatrixSpec::IntSpec(spec) => Some(
            (
                spec.bits,
                spec.group_size,
                if spec.is_symmetric {
                    QuantizationMethod::ScaleSymmetric
                } else {
                    QuantizationMethod::ScaleZeroPoint
                },
            ),
        ),
        _ => None,
    }
}

/// What is wrong with a configuration.
pub open spec fn spec_fault(spec: AnyWeightMatrixSpec) -> Option<WeightMatrixError> {
    match spec {
        AnyWeightMatrixSpec::Unsupported { description } => Some(
            WeightMatrixError::UnsupportedStorage { description },
        ),
        AnyWeightMatrixSpec::MicrofloatSpec(spec) => if spec.group_size > u32::MAX {
            Some(WeightMatrixError::OversizedMicrofloatGroup { size: spec.group_size })
        } else if spec.bits != 4 {
            Some(
                WeightMatrixError::Microfloat(
                    MicrofloatError::UnsupportedBits {
                        format: MicrofloatFormat::Mxfp4,
                        bits: spec.bits,
                    },
                ),
            )
        } else if spec.group_size != 16 && spec.group_size != 32 {
            Some(
                WeightMatrixError::Microfloat(
                    MicrofloatError::UnsupportedGroupSize {
                        format: MicrofloatFormat::Mxfp4,
                        group_size: spec.group_size as u32,
                    },
                ),
            )
        } else {
            None
        },
        _ => match integer_format(spec) {
            Some((bits, group_size, method)) => if bits != 4 && bits != 8 {
                Some(WeightMatrixError::UnsupportedBits { method, bits, group_size })
            } else if group_size == 0 {
                Some(WeightMatrixError::EmptyGroups)
            } else {
                None
            },
            None => None,
        },
    }
}

/// `parsed` is what a valid configuration means.
pub open spec fn is_meaning(spec: AnyWeightMatrixSpec, parsed: ParsedWeightSpec) -> bool {
    &&& parsed.layout == layout_of(spec)
    &&& parsed.quantization == match integer_format(spec) {
        Some((bits, group_size, method)) => Some(
            QuantizationInfo {
                mode: if bits == 4 {
                    QuantizationMode::U4
                } else {
                    QuantizationMode::U8
                },
                method,
                group_size,
            },
        ),
        None => None,
    }
    &&& match spec {
        AnyWeightMatrixSpec::MicrofloatSpec(spec) => parsed.microfloat matches Some(encoding)
            && encoding.wf() && encoding.format() is Mxfp4 && encoding.group_size()
            == spec.group_size,
        _ => parsed.microfloat is None,
    }
}

/// Whether two errors say the same.
pub open spec fn same_error(left: WeightMatrixError, right: WeightMatrixError) -> bool {
    match (left, right) {
        (
            WeightMatrixError::UnsupportedStorage { description: left },
            WeightMatrixError::UnsupportedStorage { description: right },
        ) => left@ == right@,
        _ => left == right,
    }
}

/// Reads what a storage configuration means.
pub fn parse_spec(spec: &AnyWeightMatrixSpec) -> (result: Result<ParsedWeightSpec, WeightMatrixError>)
    ensures
        match result {
            Ok(parsed) => spec_fault(*spec) is None && is_meaning(*spec, parsed),
            Err(error) => spec_fault(*spec) matches Some(fault) && same_error(error, fault),
        },
{
    let (layout, quantized, microfloat) = match spec {
        AnyWeightMatrixSpec::FullPrecisionSpec(spec) => (spec.layout, None, None),
        AnyWeightMatrixSpec::MLXSpec(spec) => (
            spec.layout,
            Some((spec.bits, spec.group_size, QuantizationMethod::ScaleBias)),
            None,
        ),
        AnyWeightMatrixSpec::IntSpec(spec) => (
            spec.layout,
            Some(
                (
                    spec.bits,
                    spec.group_size,
                    if spec.is_symmetric {
                        QuantizationMethod::ScaleSymmetric
                    } else {
                        QuantizationMethod::ScaleZeroPoint
                    },
                ),
            ),
            None,
        ),
        AnyWeightMatrixSpec::MicrofloatSpec(spec) => {
            let format: MicrofloatFormat = match spec.scale_mode {
                MicrofloatScaleMode::Mxfp4 => MicrofloatFormat::Mxfp4,
            };
            if spec.group_size > u32::MAX as usize {
                return Err(
                    WeightMatrixError::OversizedMicrofloatGroup { size: spec.group_size },
                );
            }
            match MicrofloatEncoding::new(format, spec.bits, spec.group_size as u32) {
                Ok(encoding) => (spec.layout, None, Some(encoding)),
                Err(error) => {
                    return Err(WeightMatrixError::Microfloat(error));
                },
            }
        },
        AnyWeightMatrixSpec::Unsupported { description } => {
            return Err(
                WeightMatrixError::UnsupportedStorage { description: description.clone() },
            );
        },
    };
    let quantization: Option<QuantizationInfo> = match quantized {
        None => None,
        Some((bits, group_size, method)) => {
            let mode: QuantizationMode = match bits {
                4 => QuantizationMode::U4,
                8 => QuantizationMode::U8,
                _ => {
                    return Err(WeightMatrixError::UnsupportedBits { method, bits, group_size });
                },
            };
            if group_size == 0 {
                return Err(WeightMatrixError::EmptyGroups);
            }
            Some(QuantizationInfo { mode, method, group_size })
        },
    };
    Ok(ParsedWeightSpec { layout, quantization, microfloat })
}

pub open spec fn spec_physical_shape(layout: Layout, output_dim: u32, input_dim: u32) -> (u32, u32) {
    match layout {
        Layout::OutputInput => (output_dim, input_dim),
        Layout::InputOutput => (input_dim, output_dim),
    }
}

/// The rows and columns of a stored matrix.
pub fn physical_shape(layout: Layout, output_dim: u32, input_dim: u32) -> (shape: (u32, u32))
    ensures
        shape == spec_physical_shape(layout, output_dim, input_dim),
{
    match layout {
        Layout::OutputInput => (output_dim, input_dim),
        Layout::InputOutput => (input_dim, output_dim),
    }
}

/// The name of a stored tensor.
#[derive(Clone, Copy, Debug, PartialEq, Eq, Structural)]
pub enum TensorName {
    Weights,
    Scales,
    /// The one outer scale that is applied after block-scale decoding.
    GlobalScale,
    Biases,
    ZeroPoints,
}

impl TensorName {
    pub open spec fn spec_text(self) -> Seq<char> {
        match self {
            TensorName::Weights => "weights"@,
            TensorName::Scales => "scales"@,
            TensorName::GlobalScale => "global_scale"@,
            TensorName::Biases => "biases"@,
            TensorName::ZeroPoints => "zero_points"@,
        }
    }

    /// The name in the parameter file.
    pub fn text(self) -> (name: &'static str)
        ensures
            name@ == self.spec_text(),
    {
        match self {
            TensorName::Weights => "weights",
            TensorName::Scales => "scales",
            TensorName::GlobalScale => "global_scale",
            TensorName::Biases => "biases",
            TensorName::ZeroPoints => "zero_points",
        }
    }
}

/// The extents of a tensor.
#[derive(Clone, Copy, Debug, PartialEq, Eq, Structural)]
pub enum TensorShape {
    Scalar,
    Matrix { rows: u32, columns: u32 },
}

/// A tensor that must be there.
#[derive(Clone, Copy, Debug, PartialEq, Eq, Structural)]
pub struct TensorRequirement {
    pub name: TensorName,
    pub shape: TensorShape,
    pub data_type: DataType,
}

/// What is read for a layer's weights.
#[derive(Clone, Copy, Debug, PartialEq, Eq)]
pub enum WeightPlan {
    FullPrecision { values: TensorRequirement },
    Integer {
        values: TensorRequirement,
        scales: TensorRequirement,
        /// The correction term, unless the weights are symmetric.
        correction: Option<TensorRequirement>,
        info: QuantizationInfo,
    },
    Microfloat {
        values: TensorRequirement,
        scales: TensorRequirement,
        outer_scales: TensorRequirement,
        metadata: MicrofloatMetadata,
    },
}

pub open spec fn matrix(name: TensorName, rows: u32, columns: int, data_type: DataType) -> TensorRequirement {
    TensorRequirement {
        name,
        shape: TensorShape::Matrix { rows, columns: columns as u32 },
        data_type,
    }
}

/// The number of quantization groups of a row.
pub open spec fn groups_of(columns: u32, group_size: u32) -> int {
    (columns + group_size - 1) / group_size as int
}

/// The tensors of integer weights.
pub open spec fn integer_plan(
    info: QuantizationInfo,
    rows: u32,
    columns: u32,
    data_type: DataType,
) -> WeightPlan {
    let divisor = info.mode.packing_divisor();
    let groups = groups_of(columns, info.group_size);
    WeightPlan::Integer {
        values: matrix(
            TensorName::Weights,
            rows,
            columns as int / divisor as int,
            info.mode.storage_type(),
        ),
        scales: matrix(TensorName::Scales, rows, groups, data_type),
        correction: match info.method {
            QuantizationMethod::ScaleBias => Some(
                matrix(TensorName::Biases, rows, groups, data_type),
            ),
            QuantizationMethod::ScaleZeroPoint => Some(
                matrix(
                    TensorName::ZeroPoints,
                    rows,
                    (groups + divisor - 1) / divisor as int,
                    info.mode.storage_type(),
                ),
            ),
            QuantizationMethod::ScaleSymmetric => None,
        },
        info,
    }
}

/// `plan` reads the weights that a valid configuration describes.
pub open spec fn is_plan(
    parsed: ParsedWeightSpec,
    output_dim: u32,
    input_dim: u32,
    data_type: DataType,
    plan: WeightPlan,
) -> bool {
    let (rows, columns) = spec_physical_shape(parsed.layout, output_dim, input_dim);
    match (parsed.microfloat, parsed.quantization) {
        (Some(encoding), _) => {
            &&& plan is Microfloat
            &&& plan->Microfloat_values == matrix(
                TensorName::Weights,
                rows,
                columns as int / 2,
                DataType::U8,
            )
            &&& plan->Microfloat_scales == matrix(
                TensorName::Scales,
                rows,
                columns as int / encoding.group_size() as int,
                DataType::U8,
            )
            &&& plan->Microfloat_outer_scales == (TensorRequirement {
                name: TensorName::GlobalScale,
                shape: TensorShape::Scalar,
                data_type,
            })
            &&& microfloat::is_bank(Ok(plan->Microfloat_metadata), encoding, 1, rows, columns)
        },
        (None, None) => plan == (WeightPlan::FullPrecision {
            values: matrix(TensorName::Weights, rows, columns as int, data_type),
        }),
        (None, Some(info)) => {
            &&& columns % info.mode.packing_divisor() == 0
            &&& plan == integer_plan(info, rows, columns, data_type)
        },
    }
}

/// What is wrong with reading the weights that a valid configuration describes.
pub open spec fn is_plan_fault(
    parsed: ParsedWeightSpec,
    required_layout: Layout,
    output_dim: u32,
    input_dim: u32,
    error: WeightMatrixError,
) -> bool {
    let (rows, columns) = spec_physical_shape(parsed.layout, output_dim, input_dim);
    if parsed.layout != required_layout {
        error == (WeightMatrixError::LayoutMismatch {
            expected: required_layout,
            actual: parsed.layout,
        })
    } else {
        match (parsed.microfloat, parsed.quantization) {
            (Some(encoding), _) => error matches WeightMatrixError::Microfloat(inner)
                && microfloat::is_bank(Err(inner), encoding, 1, rows, columns),
            (None, None) => false,
            (None, Some(info)) => {
                &&& columns % info.mode.packing_divisor() != 0
                &&& error == (WeightMatrixError::UnpackedColumns {
                    columns,
                    packing_divisor: info.mode.packing_divisor(),
                })
            },
        }
    }
}

/// Plans which tensors are read for a layer's weights.
pub fn plan_load(
    spec: &AnyWeightMatrixSpec,
    required_layout: Layout,
    output_dim: u32,
    input_dim: u32,
    data_type: DataType,
) -> (result: Result<WeightPlan, WeightMatrixError>)
    ensures
        match result {
            Ok(plan) => {
                &&& spec_fault(*spec) is None
                &&& exists|parsed: ParsedWeightSpec| #[trigger]
                    is_meaning(*spec, parsed) && parsed.layout == required_layout && is_plan(
                        parsed,
                        output_dim,
                        input_dim,
                        data_type,
                        plan,
                    )
            },
            Err(error) => match spec_fault(*spec) {
                Some(fault) => same_error(error, fault),
                None => exists|parsed: ParsedWeightSpec| #[trigger]
                    is_meaning(*spec, parsed) && is_plan_fault(
                        parsed,
                        required_layout,
                        output_dim,
                        input_dim,
                        error,
                    ),
            },
        },
{
    let parsed: ParsedWeightSpec = match parse_spec(spec) {
        Ok(parsed) => parsed,
        Err(error) => {
            return Err(error);
        },
    };
    assert(is_meaning(*spec, parsed));
    if parsed.layout != required_layout {
        return Err(
            WeightMatrixError::LayoutMismatch { expected: required_layout, actual: parsed.layout },
        );
    }
    let (rows, columns) = physical_shape(parsed.layout, output_dim, input_dim);
    if let Some(encoding) = parsed.microfloat {
        let group_size: u32 = encoding.group_size();
        return match MicrofloatMetadata::new(encoding, rows, columns) {
            Ok(metadata) => Ok(
                WeightPlan::Microfloat {
                    values: TensorRequirement {
                        name: TensorName::Weights,
                        shape: TensorShape::Matrix { rows, columns: columns / 2 },
                        data_type: DataType::U8,
                    },
                    scales: TensorRequirement {
                        name: TensorName::Scales,
                        shape: TensorShape::Matrix { rows, columns: columns / group_size },
                        data_type: DataType::U8,
                    },
                    outer_scales: TensorRequirement {
                        name: TensorName::GlobalScale,
                        shape: TensorShape::Scalar,
                        data_type,
                    },
                    metadata,
                },
            ),
            Err(error) => Err(WeightMatrixError::Microfloat(error)),
        };
    }
    let info: QuantizationInfo = match parsed.quantization {
        Some(info) => info,
        None => {
            return Ok(
                WeightPlan::FullPrecision {
                    values: TensorRequirement {
                        name: TensorName::Weights,
                        shape: TensorShape::Matrix { rows, columns },
                        data_type,
                    },
                },
            );
        },
    };
    let packing_divisor: u32 = info.mode.packing_divisor();
    let storage_type: DataType = info.mode.storage_type();
    if columns % packing_divisor != 0 {
        return Err(WeightMatrixError::UnpackedColumns { columns, packing_divisor });
    }
    let groups: u32 = div_ceil_u32(columns, info.group_size);
    let correction: Option<TensorRequirement> = match info.method {
        QuantizationMethod::ScaleBias => Some(
            TensorRequirement {
                name: TensorName::Biases,
                shape: TensorShape::Matrix { rows, columns: groups },
                data_type,
            },
        ),
        QuantizationMethod::ScaleZeroPoint => Some(
            TensorRequirement {
                name: TensorName::ZeroPoints,
                shape: TensorShape::Matrix { rows, columns: div_ceil_u32(groups, packing_divisor) },
                data_type: storage_type,
            },
        ),
        QuantizationMethod::ScaleSymmetric => None,
    };
    Ok(
        WeightPlan::Integer {
            values: TensorRequirement {
                name: TensorName::Weights,
                shape: TensorShape::Matrix { rows, columns: columns / packing_divisor },
                data_type: storage_type,
            },
            scales: TensorRequirement {
                name: TensorName::Scales,
                shape: TensorShape::Matrix { rows, columns: groups },
                data_type,
            },
            correction,
            info,
        },
    )
}

/// The term that is added to a scaled integer code.
#[derive(Debug, PartialEq, Eq)]
pub enum QuantizedCorrection {
    Symmetric,
    Biases(Vec<u8>),
    ZeroPoints(Vec<u8>),
}

/// The tensors of a layer's weights.
#[derive(Debug, PartialEq, Eq)]
pub enum WeightMatrix {
    FullPrecision { values: Vec<u8> },
    Integer {
        values: Vec<u8>,
        scales: Vec<u8>,
        correction: QuantizedCorrection,
        info: QuantizationInfo,
        signed_codes: bool,
    },
    Microfloat {
        values: Vec<u8>,
        scales: Vec<u8>,
        outer_scales: Vec<u8>,
        metadata: MicrofloatMetadata,
    },
}

/// The tensors that a plan asks for, as they were read.
#[derive(Debug, PartialEq, Eq)]
pub struct WeightTensors {
    pub values: Vec<u8>,
    pub scales: Vec<u8>,
    pub correction: Vec<u8>,
    pub outer_scales: Vec<u8>,
}

impl WeightMatrix {
    pub open spec fn spec_values(&self) -> Seq<u8> {
        match self {
            WeightMatrix::FullPrecision { values } => values@,
            WeightMatrix::Integer { values, .. } => values@,
            WeightMatrix::Microfloat { values, .. } => values@,
        }
    }

    pub open spec fn spec_scales(&self) -> Option<Seq<u8>> {
        match self {
            WeightMatrix::FullPrecision { .. } => None,
            WeightMatrix::Integer { scales, .. } => Some(scales@),
            WeightMatrix::Microfloat { scales, .. } => Some(scales@),
        }
    }

    pub open spec fn spec_biases(&self) -> Option<Seq<u8>> {
        match self {
            WeightMatrix::Integer { correction: QuantizedCorrection::Biases(biases), .. } => Some(
                biases@,
            ),
            _ => None,
        }
    }

    pub open spec fn spec_zero_points(&self) -> Option<Seq<u8>> {
        match self {
            WeightMatrix::Integer { correction: QuantizedCorrection::ZeroPoints(points), .. } => Some(
                points@,
            ),
            _ => None,
        }
    }

    pub open spec fn spec_quantization(&self) -> Option<QuantizationInfo> {
        match self {
            WeightMatrix::Integer { info, .. } => Some(*info),
            _ => None,
        }
    }

    pub open spec fn spec_signed_codes(&self) -> bool {
        match self {
            WeightMatrix::Integer { signed_codes, .. } => *signed_codes,
            _ => false,
        }
    }

    /// The weights of a plan whose tensors were read.
    pub fn load(plan: &WeightPlan, tensors: WeightTensors) -> (matrix: WeightMatrix)
        ensures
            matrix.spec_values() == tensors.values@,
            match *plan {
                WeightPlan::FullPrecision { .. } => matrix is FullPrecision,
                WeightPlan::Integer { correction, info, .. } => {
                    &&& matrix.spec_quantization() == Some(info)
                    &&& matrix.spec_scales() == Some(tensors.scales@)
                    &&& !matrix.spec_signed_codes()
                    &&& matrix.spec_biases() == if info.method is ScaleBias {
                        Some(tensors.correction@)
                    } else {
                        None
                    }
                    &&& matrix.spec_zero_points() == if info.method is ScaleZeroPoint {
                        Some(tensors.correction@)
                    } else {
                        None
                    }
                },
                WeightPlan::Microfloat { metadata, .. } => {
                    &&& matrix is Microfloat
                    &&& matrix->Microfloat_metadata == metadata
                    &&& matrix.spec_scales() == Some(tensors.scales@)
                    &&& matrix->Microfloat_outer_scales@ == tensors.outer_scales@
                },
            },
    {
        match *plan {
            WeightPlan::FullPrecision { .. } => WeightMatrix::FullPrecision {
                values: tensors.values,
            },
            WeightPlan::Integer { info, .. } => WeightMatrix::Integer {
                values: tensors.values,
                scales: tensors.scales,
                correction: match info.method {
                    QuantizationMethod::ScaleBias => {
                        QuantizedCorrection::Biases(tensors.correction)
                    },
                    QuantizationMethod::ScaleZeroPoint => {
                        QuantizedCorrection::ZeroPoints(tensors.correction)
                    },
                    QuantizationMethod::ScaleSymmetric => QuantizedCorrection::Symmetric,
                },
                info,
                signed_codes: false,
            },
            WeightPlan::Microfloat { metadata, .. } => WeightMatrix::Microfloat {
                values: tensors.values,
                scales: tensors.scales,
                outer_scales: tensors.outer_scales,
                metadata,
            },
        }
    }

    /// The stored weights.
    pub fn values(&self) -> (values: &[u8])
        ensures
            values@ == self.spec_values(),
    {
        match self {
            WeightMatrix::FullPrecision { values } => values.as_slice(),
            WeightMatrix::Integer { values, .. } => values.as_slice(),
            WeightMatrix::Microfloat { values, .. } => values.as_slice(),
        }
    }

    /// How the weights are quantized, where they are integers.
    pub fn quantization(&self) -> (info: Option<QuantizationInfo>)
        ensures
            info == self.spec_quantization(),
    {
        match self {
            WeightMatrix::Integer { info, .. } => Some(*info),
            WeightMatrix::FullPrecision { .. } | WeightMatrix::Microfloat { .. } => None,
        }
    }

    /// The scales of packed weights.
    pub fn scales(&self) -> (scales: Option<&[u8]>)
        ensures
            scales is Some <==> self.spec_scales() is Some,
            scales matches Some(scales) ==> self.spec_scales() == Some(scales@),
    {
        match self {
            WeightMatrix::Integer { scales, .. } => Some(scales.as_slice()),
            WeightMatrix::Microfloat { scales, .. } => Some(scales.as_slice()),
            WeightMatrix::FullPrecision { .. } => None,
        }
    }

    /// The zero points of integer weights that have them.
    pub fn zero_points(&self) -> (points: Option<&[u8]>)
        ensures
            points is Some <==> self.spec_zero_points() is Some,
            points matches Some(points) ==> self.spec_zero_points() == Some(points@),
    {
        match self {
            WeightMatrix::Integer { correction: QuantizedCorrection::ZeroPoints(points), .. } => {
                Some(points.as_slice())
            },
            _ => None,
        }
    }

    /// The biases of integer weights that have them.
    pub fn biases(&self) -> (biases: Option<&[u8]>)
        ensures
            biases is Some <==> self.spec_biases() is Some,
            biases matches Some(biases) ==> self.spec_biases() == Some(biases@),
    {
        match self {
            WeightMatrix::Integer { correction: QuantizedCorrection::Biases(biases), .. } => {
                Some(biases.as_slice())
            },
            _ => None,
        }
    }

    /// The weights as the right operand of a multiplication.
    pub fn matmul_b(&self) -> (b: MatmulB)
        ensures
            match *self {
                WeightMatrix::FullPrecision { values } => b == (MatmulB::FullPrecision {
                    b: values@.len() as usize,
                }),
                WeightMatrix::Microfloat { values, scales, outer_scales, metadata } => b == (
                MatmulB::Microfloat {
                    codes: values@.len() as usize,
                    scales: scales@.len() as usize,
                    outer_scales: outer_scales@.len() as usize,
                    metadata,
                }),
                WeightMatrix::Integer { values, scales, correction, info, signed_codes } => b
                    == match correction {
                    QuantizedCorrection::Biases(biases) => MatmulB::ScaleBiasDequant {
                        b: values@.len() as usize,
                        scales: scales@.len() as usize,
                        biases: biases@.len() as usize,
                        mode: info.mode,
                        group_size: info.group_size,
                        signed_codes,
                    },
                    QuantizedCorrection::ZeroPoints(points) => MatmulB::ScaleZeroPointDequant {
                        b: values@.len() as usize,
                        scales: scales@.len() as usize,
                        zero_points: points@.len() as usize,
                        mode: info.mode,
                        group_size: info.group_size,
                        signed_codes,
                    },
                    QuantizedCorrection::Symmetric => MatmulB::ScaleSymmetricDequant {
                        b: values@.len() as usize,
                        scales: scales@.len() as usize,
                        mode: info.mode,
                        group_size: info.group_size,
                        signed_codes,
                    },
                },
            },
    {
        match self {
            WeightMatrix::FullPrecision { values } => MatmulB::FullPrecision { b: values.len() },
            WeightMatrix::Microfloat { values, scales, outer_scales, metadata } => {
                MatmulB::Microfloat {
                    codes: values.len(),
                    scales: scales.len(),
                    outer_scales: outer_scales.len(),
                    metadata: *metadata,
                }
            },
            WeightMatrix::Integer { values, scales, correction, info, signed_codes } => match correction {
                QuantizedCorrection::Biases(biases) => MatmulB::ScaleBiasDequant {
                    b: values.len(),
                    scales: scales.len(),
                    biases: biases.len(),
                    mode: info.mode,
                    group_size: info.group_size,
                    signed_codes: *signed_codes,
                },
                QuantizedCorrection::ZeroPoints(points) => MatmulB::ScaleZeroPointDequant {
                    b: values.len(),
                    scales: scales.len(),
                    zero_points: points.len(),
                    mode: info.mode,
                    group_size: info.group_size,
                    signed_codes: *signed_codes,
                },
                QuantizedCorrection::Symmetric => MatmulB::ScaleSymmetricDequant {
                    b: values.len(),
                    scales: scales.len(),
                    mode: info.mode,
                    group_size: info.group_size,
                    signed_codes: *signed_codes,
                },
            },
        }
    }

    /// The stored bytes with every code made signed.
    pub open spec fn signed_values(&self) -> Seq<u8> {
        match self {
            WeightMatrix::Integer { values, info, signed_codes, .. } => if *signed_codes {
                values@
            } else {
                flipped(values@, info.mode.weight_codes_sign_flip_mask()->Some_0)
            },
            _ => self.spec_values(),
        }
    }

    /// Makes the codes of integer weights signed, once; other weights are left as they are.
    pub fn make_codes_signed(&mut self)
        ensures
            final(self).spec_values() == old(self).signed_values(),
            final(self).spec_signed_codes() == (*old(self) is Integer),
            final(self).spec_scales() == old(self).spec_scales(),
            final(self).spec_biases() == old(self).spec_biases(),
            final(self).spec_zero_points() == old(self).spec_zero_points(),
            final(self).spec_quantization() == old(self).spec_quantization(),
            *old(self) !is Integer ==> *final(self) == *old(self),
    {
        if let WeightMatrix::Integer { values, info, signed_codes, .. } = self {
            if *signed_codes {
                return;
            }
            if let Some(sign_flip_mask) = info.mode.weight_codes_sign_flip_mask() {
                flip_bits(values, sign_flip_mask);
                *signed_codes = true;
            }
        }
    }
}

/// Every byte with the bits of the mask flipped.
pub open spec fn flipped(values: Seq<u8>, mask: u8) -> Seq<u8> {
    Seq::new(values.len(), |i: int| values[i] ^ mask)
}

fn flip_bits(values: &mut Vec<u8>, mask: u8)
    ensures
        final(values)@ == flipped(old(values)@, mask),
{
    let ghost before = values@;
    let count: usize = values.len();
    let mut i: usize = 0;
    while i < count
        invariant
            i <= count,
            count == values@.len() == before.len(),
            forall|j: int| 0 <= j < i ==> values@[j] == before[j] ^ mask,
            forall|j: int| i <= j < count ==> values@[j] == before[j],
        decreases count - i,
    {
        let value: u8 = values[i];
        values.set(i, value ^ mask);
        i += 1;
    }
    assert(values@ =~= flipped(before, mask));
}

/// Flipping twice gives the codes back.
pub proof fn law_sign_flip_is_an_involution(values: Seq<u8>, mask: u8)
    ensures
        flipped(flipped(values, mask), mask) == values,
{
    assert forall|i: int| 0 <= i < values.len() implies (values[i] ^ mask) ^ mask == values[i] by {
        let value = values[i];
        assert((value ^ mask) ^ mask == value) by (bit_vector);
    }
    assert(flipped(flipped(values, mask), mask) =~= values);
}

/// An eight-bit code that was made signed is the unsigned code less 128, in two's complement.
pub proof fn law_signed_byte_is_recentred(code: u8)
    ensures
        (code ^ 0x80) as i8 == code - 128,
{
    assert((code ^ 0x80) as i8 == code - 128) by (bit_vector);
}

/// Each four-bit code of a byte that was made signed is the unsigned code less 8, in two's
/// complement: a code of eight or more loses eight, a lower one gains eight.
pub proof fn law_signed_nibbles_are_recentred(byte: u8)
    ensures
        (byte ^ 0x88) % 16 == if byte % 16 >= 8 {
            byte % 16 - 8
        } else {
            byte % 16 + 8
        },
        (byte ^ 0x88) / 16 == if byte / 16 >= 8 {
            byte / 16 - 8
        } else {
            byte / 16 + 8
        },
{
    assert((byte ^ 0x88) % 16 == if byte % 16 >= 8 {
        byte % 16 - 8
    } else {
        byte % 16 + 8
    }) by (bit_vector);
    assert((byte ^ 0x88) / 16 == if byte / 16 >= 8 {
        byte / 16 - 8
    } else {
        byte / 16 + 8
    }) by (bit_vector);
}

/// A storage that is understood means what its configuration says: integer codes of four or eight bits in
/// groups, with biases, with zero points or with neither, or microfloats of four bits in groups of 16
/// or 32.
pub proof fn law_storage_means_what_it_says(spec: AnyWeightMatrixSpec, parsed: ParsedWeightSpec)
    requires
        call_ensures(parse_spec, (&spec,), Ok::<ParsedWeightSpec, WeightMatrixError>(parsed)),
    ensures
        match spec {
            AnyWeightMatrixSpec::FullPrecisionSpec(spec) => parsed.layout == spec.layout
                && parsed.quantization is None && parsed.microfloat is None,
            AnyWeightMatrixSpec::MLXSpec(spec) => parsed.layout == spec.layout
                && parsed.microfloat is None && (parsed.quantization matches Some(info)
                && info.mode.bits() == spec.bits && info.group_size == spec.group_size
                && info.group_size > 0 && info.method is ScaleBias),
            AnyWeightMatrixSpec::IntSpec(spec) => parsed.layout == spec.layout
                && parsed.microfloat is None && (parsed.quantization matches Some(info)
                && info.mode.bits() == spec.bits && info.group_size == spec.group_size
                && info.group_size > 0 && info.method !is ScaleBias && (info.method is ScaleSymmetric
                <==> spec.is_symmetric)),
            AnyWeightMatrixSpec::MicrofloatSpec(spec) => parsed.layout == spec.layout
                && parsed.quantization is None && spec.bits == 4 && (parsed.microfloat matches Some(
                encoding,
            ) && encoding.group_size() == spec.group_size && (spec.group_size == 16
                || spec.group_size == 32)),
            AnyWeightMatrixSpec::Unsupported { .. } => false,
        },
{
}

/// A storage is refused for its number of bits, for groups without codes, for a group size that no
/// microfloats have, or as a whole.
pub proof fn law_storage_is_refused_for_a_reason(spec: AnyWeightMatrixSpec, error: WeightMatrixError)
    requires
        call_ensures(parse_spec, (&spec,), Err::<ParsedWeightSpec, WeightMatrixError>(error)),
    ensures
        match spec {
            AnyWeightMatrixSpec::FullPrecisionSpec(_) => false,
            AnyWeightMatrixSpec::MLXSpec(spec) => {
                ||| spec.bits != 4 && spec.bits != 8 && error == (WeightMatrixError::UnsupportedBits {
                    method: QuantizationMethod::ScaleBias,
                    bits: spec.bits,
                    group_size: spec.group_size,
                })
                ||| spec.group_size == 0 && error is EmptyGroups
            },
            AnyWeightMatrixSpec::IntSpec(spec) => {
                ||| spec.bits != 4 && spec.bits != 8 && (error
                    matches WeightMatrixError::UnsupportedBits { method, bits, group_size } && bits
                    == spec.bits && group_size == spec.group_size && method !is ScaleBias && (
                method is ScaleSymmetric <==> spec.is_symmetric))
                ||| spec.group_size == 0 && error is EmptyGroups
            },
            AnyWeightMatrixSpec::MicrofloatSpec(spec) => {
                ||| spec.bits != 4 && error == WeightMatrixError::Microfloat(
                    MicrofloatError::UnsupportedBits {
                        format: MicrofloatFormat::Mxfp4,
                        bits: spec.bits,
                    },
                )
                ||| spec.group_size > 32 && error is OversizedMicrofloatGroup
                ||| spec.group_size != 16 && spec.group_size != 32 && (error
                    matches WeightMatrixError::Microfloat(
                    MicrofloatError::UnsupportedGroupSize { group_size, .. },
                ) && group_size == spec.group_size)
            },
            AnyWeightMatrixSpec::Unsupported { description: given } => error
                matches WeightMatrixError::UnsupportedStorage { description } && description@ == given@,
        },
{
}

/// The extents of a tensor that is a matrix.
pub open spec fn has_extents(tensor: TensorRequirement, rows: int, columns: int) -> bool {
    tensor.shape matches TensorShape::Matrix { rows: stored_rows, columns: stored_columns }
        && stored_rows == rows && stored_columns == columns
}

/// The columns of a tensor that is a matrix.
pub open spec fn columns_of(tensor: TensorRequirement) -> int {
    match tensor.shape {
        TensorShape::Matrix { columns, .. } => columns as int,
        TensorShape::Scalar => 0,
    }
}

/// `count` parts of `size` hold `whole`, and one part less does not.
pub open spec fn holds_in_parts(count: int, size: int, whole: int) -> bool {
    count * size >= whole && (count > 0 ==> (count - 1) * size < whole)
}

/// The rows and columns of a matrix that is stored in a layout.
pub open spec fn stored_extents(layout: Layout, output_dim: u32, input_dim: u32) -> (int, int) {
    if layout is OutputInput {
        (output_dim as int, input_dim as int)
    } else {
        (input_dim as int, output_dim as int)
    }
}

/// Full-precision weights are read as one value for each weight, in rows as the layout says.
pub proof fn law_values_hold_the_weights(
    spec: AnyWeightMatrixSpec,
    layout: Layout,
    output_dim: u32,
    input_dim: u32,
    data_type: DataType,
    values: TensorRequirement,
)
    requires
        call_ensures(
            plan_load,
            (&spec, layout, output_dim, input_dim, data_type),
            Ok::<WeightPlan, WeightMatrixError>(WeightPlan::FullPrecision { values }),
        ),
    ensures
        ({
            let (rows, columns) = stored_extents(layout, output_dim, input_dim);
            &&& spec matches AnyWeightMatrixSpec::FullPrecisionSpec(spec) && spec.layout == layout
            &&& values.name is Weights
            &&& has_extents(values, rows, columns)
            &&& values.data_type == data_type
        }),
{
}

/// Integer weights are read as packed codes that fill their bytes, with a scale for each group of a row and,
/// unless they are symmetric, a bias or a packed zero point for each group.
#[verifier::rlimit(50)]
#[verifier::spinoff_prover]
pub proof fn law_codes_hold_the_weights(
    spec: AnyWeightMatrixSpec,
    layout: Layout,
    output_dim: u32,
    input_dim: u32,
    data_type: DataType,
    values: TensorRequirement,
    scales: TensorRequirement,
    correction: Option<TensorRequirement>,
    info: QuantizationInfo,
)
    requires
        call_ensures(
            plan_load,
            (&spec, layout, output_dim, input_dim, data_type),
            Ok::<WeightPlan, WeightMatrixError>(
                WeightPlan::Integer { values, scales, correction, info },
            ),
        ),
    ensures
        ({
            let (rows, columns) = stored_extents(layout, output_dim, input_dim);
            let groups = columns_of(scales);
            &&& match spec {
                AnyWeightMatrixSpec::MLXSpec(spec) => spec.layout == layout && info.method is ScaleBias
                    && info.mode.bits() == spec.bits && info.group_size == spec.group_size,
                AnyWeightMatrixSpec::IntSpec(spec) => spec.layout == layout
                    && info.method !is ScaleBias && (info.method is ScaleSymmetric
                    <==> spec.is_symmetric) && info.mode.bits() == spec.bits && info.group_size
                    == spec.group_size,
                _ => false,
            }
            &&& values.name is Weights
            &&& has_extents(values, rows, columns_of(values))
            &&& columns == if info.mode is U4 {
                2 * columns_of(values)
            } else {
                columns_of(values)
            }
            &&& values.data_type == DataType::U8
            &&& scales.name is Scales
            &&& has_extents(scales, rows, groups)
            &&& holds_in_parts(groups, info.group_size as int, columns)
            &&& scales.data_type == data_type
            &&& match info.method {
                QuantizationMethod::ScaleBias => correction matches Some(biases)
                    && biases.name is Biases && biases.shape == scales.shape && biases.data_type
                    == data_type,
                QuantizationMethod::ScaleZeroPoint => correction matches Some(points)
                    && points.name is ZeroPoints && has_extents(points, rows, columns_of(points))
                    && holds_in_parts(
                    columns_of(points),
                    if info.mode is U4 {
                        2
                    } else {
                        1
                    },
                    groups,
                ) && points.data_type == DataType::U8,
                QuantizationMethod::ScaleSymmetric => correction is None,
            }
        }),
{
    let plan = WeightPlan::Integer { values, scales, correction, info };
    let parsed = choose|parsed: ParsedWeightSpec| #[trigger]
        is_meaning(spec, parsed) && parsed.layout == layout && is_plan(
            parsed,
            output_dim,
            input_dim,
            data_type,
            plan,
        );
    let (rows, columns) = spec_physical_shape(layout, output_dim, input_dim);
    assert(parsed.quantization == Some(info));
    lemma_integer_plan(info, rows, columns, data_type);
}

proof fn lemma_integer_plan(info: QuantizationInfo, rows: u32, columns: u32, data_type: DataType)
    requires
        info.group_size > 0,
        columns % info.mode.packing_divisor() == 0,
    ensures
        ({
            let groups = groups_of(columns, info.group_size);
            let divisor = info.mode.packing_divisor() as int;
            let packed = (groups + divisor - 1) / divisor;
            &&& divisor == if info.mode is U4 {
                2int
            } else {
                1
            }
            &&& divisor * (columns as int / divisor) == columns
            &&& 0 <= groups <= u32::MAX
            &&& holds_in_parts(groups, info.group_size as int, columns as int)
            &&& 0 <= packed <= u32::MAX
            &&& holds_in_parts(packed, divisor, groups)
        }),
{
    assert(8u32 / 4u32 == 2 && 8u32 / 8u32 == 1);
    let divisor = info.mode.packing_divisor() as int;
    let groups = groups_of(columns, info.group_size);
    crate::arithmetic::lemma_div_ceil_is_at_most(columns as int, info.group_size as int);
    lemma_parts(columns as int, info.group_size as int);
    crate::arithmetic::lemma_div_ceil_is_at_most(groups, divisor);
    lemma_parts(groups, divisor);
    if info.mode is U4 {
        assert(columns as int % 2 == 0);
    }
}

/// Microfloats are read two to a byte, with a scale for each group of a row and one for all of them.
#[verifier::rlimit(30)]
#[verifier::spinoff_prover]
pub proof fn law_microfloats_hold_the_weights(
    spec: AnyWeightMatrixSpec,
    layout: Layout,
    output_dim: u32,
    input_dim: u32,
    data_type: DataType,
    values: TensorRequirement,
    scales: TensorRequirement,
    outer_scales: TensorRequirement,
    metadata: MicrofloatMetadata,
)
    requires
        call_ensures(
            plan_load,
            (&spec, layout, output_dim, input_dim, data_type),
            Ok::<WeightPlan, WeightMatrixError>(
                WeightPlan::Microfloat { values, scales, outer_scales, metadata },
            ),
        ),
    ensures
        ({
            let (rows, columns) = stored_extents(layout, output_dim, input_dim);
            &&& spec matches AnyWeightMatrixSpec::MicrofloatSpec(spec) && spec.layout == layout
                && metadata.group_size() == spec.group_size
            &&& values.name is Weights
            &&& has_extents(values, rows, columns_of(values))
            &&& 2 * columns_of(values) == columns
            &&& values.data_type == DataType::U8
            &&& scales.name is Scales
            &&& has_extents(scales, rows, columns_of(scales))
            &&& metadata.group_size() * columns_of(scales) == columns
            &&& scales.data_type == DataType::U8
            &&& outer_scales.name is GlobalScale
            &&& outer_scales.shape is Scalar
            &&& outer_scales.data_type == data_type
            &&& metadata.rows() == rows
            &&& metadata.columns() == columns
            &&& metadata.matrix_count() == 1
        }),
{
    let plan = WeightPlan::Microfloat { values, scales, outer_scales, metadata };
    let parsed = choose|parsed: ParsedWeightSpec| #[trigger]
        is_meaning(spec, parsed) && parsed.layout == layout && is_plan(
            parsed,
            output_dim,
            input_dim,
            data_type,
            plan,
        );
    assert(parsed.microfloat is Some);
    lemma_microfloat_plan(parsed, output_dim, input_dim, data_type, plan);
}

proof fn lemma_whole_groups(columns: u32, size: u32)
    requires
        size == 16 || size == 32,
        columns % size == 0,
    ensures
        2 * (columns as int / 2) == columns,
        size * (columns as int / size as int) == columns,
        0 <= columns as int / size as int <= u32::MAX,
        0 <= columns as int / 2 <= u32::MAX,
{
    if size == 16 {
        assert(columns as int % 16 == 0);
        assert(columns as int / size as int == columns as int / 16);
    } else {
        assert(columns as int % 32 == 0);
        assert(columns as int / size as int == columns as int / 32);
    }
}

#[verifier::spinoff_prover]
#[verifier::rlimit(50)]
proof fn lemma_microfloat_plan(
    parsed: ParsedWeightSpec,
    output_dim: u32,
    input_dim: u32,
    data_type: DataType,
    plan: WeightPlan,
)
    requires
        parsed.microfloat is Some,
        is_plan(parsed, output_dim, input_dim, data_type, plan),
    ensures
        plan matches WeightPlan::Microfloat { values, scales, outer_scales, metadata } && {
            let (rows, columns) = spec_physical_shape(parsed.layout, output_dim, input_dim);
            &&& has_extents(values, rows as int, columns_of(values))
            &&& 2 * columns_of(values) == columns
            &&& has_extents(scales, rows as int, columns_of(scales))
            &&& metadata.group_size() * columns_of(scales) == columns
        },
{
    let metadata = plan->Microfloat_metadata;
    let (rows, columns) = spec_physical_shape(parsed.layout, output_dim, input_dim);
    assert(metadata.wf());
    assert(metadata.columns() == columns);
    lemma_whole_groups(columns, metadata.group_size());
}

proof fn lemma_parts(whole: int, size: int)
    requires
        whole >= 0,
        size > 0,
    ensures
        holds_in_parts((whole + size - 1) / size, size, whole),
{
    let count = (whole + size - 1) / size;
    assert(count * size >= whole && (count - 1) * size < whole) by (nonlinear_arith)
        requires
            size > 0,
            count == (whole + size - 1) / size,
    ;
}

/// Weights that are stored in another layout than the one that is needed are not read, and integer codes
/// whose rows do not fill their bytes are not either.
pub proof fn law_weights_are_refused_for_a_reason(
    spec: AnyWeightMatrixSpec,
    layout: Layout,
    output_dim: u32,
    input_dim: u32,
    data_type: DataType,
    parsed: ParsedWeightSpec,
    result: Result<WeightPlan, WeightMatrixError>,
)
    requires
        call_ensures(parse_spec, (&spec,), Ok::<ParsedWeightSpec, WeightMatrixError>(parsed)),
        call_ensures(plan_load, (&spec, layout, output_dim, input_dim, data_type), result),
    ensures
        parsed.layout != layout ==> result == Err::<WeightPlan, WeightMatrixError>(
            WeightMatrixError::LayoutMismatch { expected: layout, actual: parsed.layout },
        ),
        ({
            let columns = if layout is OutputInput {
                input_dim
            } else {
                output_dim
            };
            parsed.layout == layout ==> match result {
                Ok(_) => parsed.quantization matches Some(info) ==> info.mode is U8 || columns % 2
                    == 0,
                Err(WeightMatrixError::UnpackedColumns { columns: stored, packing_divisor }) => {
                    &&& parsed.quantization matches Some(info) && info.mode is U4
                    &&& stored == columns
                    &&& packing_divisor == 2
                    &&& columns % 2 == 1
                },
                Err(WeightMatrixError::Microfloat(_)) => parsed.microfloat is Some,
                Err(_) => false,
            }
        }),
{
    assert(8u32 / 4u32 == 2 && 8u32 / 8u32 == 1);
}

/// The tensors that were read become the right operand: the values and scales as they are, the correction as
/// biases or zero points as the weights were quantized, and codes that are not signed yet.
pub proof fn law_tensors_become_the_operand(
    plan: WeightPlan,
    tensors: WeightTensors,
    matrix: WeightMatrix,
    operand: MatmulB,
)
    requires
        call_ensures(WeightMatrix::load, (&plan, tensors), matrix),
        call_ensures(WeightMatrix::matmul_b, (&matrix,), operand),
        tensors.values@.len() <= usize::MAX,
        tensors.scales@.len() <= usize::MAX,
        tensors.correction@.len() <= usize::MAX,
        tensors.outer_scales@.len() <= usize::MAX,
    ensures
        match plan {
            WeightPlan::FullPrecision { .. } => operand matches MatmulB::FullPrecision { b } && b
                == tensors.values@.len(),
            WeightPlan::Integer { info, .. } => match info.method {
                QuantizationMethod::ScaleBias => operand matches MatmulB::ScaleBiasDequant {
                    b,
                    scales,
                    biases,
                    mode,
                    group_size,
                    signed_codes,
                } && b == tensors.values@.len() && scales == tensors.scales@.len() && biases
                    == tensors.correction@.len() && mode == info.mode && group_size == info.group_size
                    && !signed_codes,
                QuantizationMethod::ScaleZeroPoint => operand matches MatmulB::ScaleZeroPointDequant {
                    b,
                    scales,
                    zero_points,
                    mode,
                    group_size,
                    signed_codes,
                } && b == tensors.values@.len() && scales == tensors.scales@.len() && zero_points
                    == tensors.correction@.len() && mode == info.mode && group_size == info.group_size
                    && !signed_codes,
                QuantizationMethod::ScaleSymmetric => operand matches MatmulB::ScaleSymmetricDequant {
                    b,
                    scales,
                    mode,
                    group_size,
                    signed_codes,
                } && b == tensors.values@.len() && scales == tensors.scales@.len() && mode == info.mode
                    && group_size == info.group_size && !signed_codes,
            },
            WeightPlan::Microfloat { metadata: planned, .. } => operand matches MatmulB::Microfloat {
                codes,
                scales,
                outer_scales,
                metadata,
            } && codes == tensors.values@.len() && scales == tensors.scales@.len() && outer_scales
                == tensors.outer_scales@.len() && metadata == planned,
        },
{
}

/// The tensors can be read back.
pub proof fn law_tensors_are_read_back(
    plan: WeightPlan,
    tensors: WeightTensors,
    matrix: WeightMatrix,
    values: &[u8],
    scales: Option<&[u8]>,
    points: Option<&[u8]>,
    biases: Option<&[u8]>,
    quantization: Option<QuantizationInfo>,
)
    requires
        call_ensures(WeightMatrix::load, (&plan, tensors), matrix),
        call_ensures(WeightMatrix::values, (&matrix,), values),
        call_ensures(WeightMatrix::scales, (&matrix,), scales),
        call_ensures(WeightMatrix::zero_points, (&matrix,), points),
        call_ensures(WeightMatrix::biases, (&matrix,), biases),
        call_ensures(WeightMatrix::quantization, (&matrix,), quantization),
    ensures
        values@ == tensors.values@,
        scales is Some <==> plan !is FullPrecision,
        scales matches Some(scales) ==> scales@ == tensors.scales@,
        points is Some <==> (plan matches WeightPlan::Integer { info, .. }
            && info.method is ScaleZeroPoint),
        points matches Some(points) ==> points@ == tensors.correction@,
        biases is Some <==> (plan matches WeightPlan::Integer { info, .. } && info.method is ScaleBias),
        biases matches Some(biases) ==> biases@ == tensors.correction@,
        quantization is Some <==> plan is Integer,
        plan matches WeightPlan::Integer { info, .. } ==> quantization == Some(info),
{
}

/// Codes are made signed once: an eight-bit code loses 128, each four-bit code of a byte changes by eight;
/// what is signed already, and everything but the codes, stays.
pub proof fn law_codes_are_made_signed_once(matrix: &mut WeightMatrix, at: int)
    requires
        call_ensures(WeightMatrix::make_codes_signed, (matrix,), ()),
        0 <= at < old(matrix).spec_values().len(),
    ensures
        final(matrix).spec_values().len() == old(matrix).spec_values().len(),
        ({
            let before = old(matrix).spec_values()[at];
            let after = final(matrix).spec_values()[at];
            match *old(matrix) {
                WeightMatrix::Integer { info, signed_codes: false, .. } => match info.mode {
                    QuantizationMode::U8 => after as i8 == before - 128,
                    QuantizationMode::U4 => {
                        &&& after % 16 == (before % 16 + 8) % 16
                        &&& after / 16 == (before / 16 + 8) % 16
                    },
                },
                _ => after == before,
            }
        }),
        *old(matrix) is Integer ==> *final(matrix) is Integer && final(matrix).spec_signed_codes(),
        *old(matrix) !is Integer ==> *final(matrix) == *old(matrix),
        final(matrix).spec_scales() == old(matrix).spec_scales(),
        final(matrix).spec_biases() == old(matrix).spec_biases(),
        final(matrix).spec_zero_points() == old(matrix).spec_zero_points(),
        final(matrix).spec_quantization() == old(matrix).spec_quantization(),
{
    let before = old(matrix).spec_values()[at];
    law_signed_byte_is_recentred(before);
    law_signed_nibbles_are_recentred(before);
}

/// A matrix is stored with a row for each output or for each input; tensors have names of their own.
pub proof fn law_matrices_are_stored_by_their_layout(
    layout: Layout,
    output_dim: u32,
    input_dim: u32,
    shape: (u32, u32),
    left: TensorName,
    right: TensorName,
    left_name: &'static str,
    right_name: &'static str,
)
    requires
        call_ensures(physical_shape, (layout, output_dim, input_dim), shape),
        call_ensures(TensorName::text, (left,), left_name),
        call_ensures(TensorName::text, (right,), right_name),
    ensures
        layout is OutputInput ==> shape.0 == output_dim && shape.1 == input_dim,
        layout is InputOutput ==> shape.0 == input_dim && shape.1 == output_dim,
        left_name@ == right_name@ ==> left == right,
        left is Weights ==> left_name@ == "weights"@,
        left is ZeroPoints ==> left_name@ == "zero_points"@,
{
    reveal_strlit("weights");
    reveal_strlit("scales");
    reveal_strlit("global_scale");
    reveal_strlit("biases");
    reveal_strlit("zero_points");
    assert("weights"@.len() == 7 && "scales"@.len() == 6 && "global_scale"@.len() == 12);
    assert("biases"@.len() == 6 && "zero_points"@.len() == 11);
    assert("scales"@[0] == 's' && "biases"@[0] == 'b');
}

} // verus!
