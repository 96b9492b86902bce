//! Checks that the storage of the operands covers a multiplication.
use vstd::prelude::*;

use crate::arithmetic::div_ceil_u32;
use crate::backends::common::gpu_types::quantization::QuantizationMode;
use crate::backends::common::matmul::arguments::{MatmulA, MatmulArguments, MatmulB};
use crate::backends::common::matmul::error::{
    MatmulError, MatmulPath, RoutingFault, StorageFault,
};
use crate::backends::common::matmul::routing::{ExpertInput, MatmulRouting};
use crate::backends::common::microfloat;
use crate::data_type::DataType;

verus! {

/// The bytes of an expert id.
pub const EXPERT_ID_BYTES: usize = 4;

/// The rows of the left operand that are read.
pub open spec fn input_rows(arguments: MatmulArguments) -> u32 {
    match arguments.routing {
        MatmulRouting::Experts(routes) => if routes.input is Tokens {
            arguments.m / routes.routes_per_token
        } else {
            arguments.m
        },
        _ => arguments.m,
    }
}

/// The columns of the output.
pub open spec fn output_width(arguments: MatmulArguments) -> u32 {
    if arguments.d_transform.gate_act {
        arguments.n / 2
    } else {
        arguments.n
    }
}

/// The end of the rows that are read, in bytes.
pub open spec fn input_end(arguments: MatmulArguments, offset: usize, data_type: DataType) -> int {
    input_rows(arguments) * arguments.k * data_type.size_in_bytes() + offset
}

/// The size of the product, in bytes.
pub open spec fn output_bytes(arguments: MatmulArguments, data_type: DataType) -> int {
    arguments.m * output_width(arguments) * data_type.size_in_bytes()
}

/// What is wrong with the storage of the left operand or the output.
pub open spec fn storage_fault(
    arguments: MatmulArguments,
    input_data_type: DataType,
    output_data_type: DataType,
) -> Option<StorageFault> {
    let input_fault = match arguments.a {
        MatmulA::FullPrecision { values, offset } => if offset % input_data_type.size_in_bytes()
            != 0 {
            Some(StorageFault::MisalignedInput)
        } else if values < input_end(arguments, offset, input_data_type) {
            Some(StorageFault::ShortInput)
        } else {
            None
        },
        MatmulA::Int8Symmetric { .. } => None,
    };
    if input_fault is Some {
        input_fault
    } else if arguments.d < output_bytes(arguments, output_data_type) {
        Some(StorageFault::ShortOutput)
    } else {
        None
    }
}

/// The distance between two rows of full-precision weights, in elements.
pub open spec fn leading_dimension(arguments: MatmulArguments) -> u32 {
    match arguments.b_leading_dimension {
        Some(dimension) => dimension,
        None => minor_dimension(arguments),
    }
}

/// The elements of a row of the stored weights.
pub open spec fn minor_dimension(arguments: MatmulArguments) -> u32 {
    if arguments.b_transpose {
        arguments.k
    } else {
        arguments.n
    }
}

/// The rows of the stored weights.
pub open spec fn major_dimension(arguments: MatmulArguments) -> u32 {
    if arguments.b_transpose {
        arguments.n
    } else {
        arguments.k
    }
}

/// `size` bytes hold `count` matrices of `rows` rows of `stride` elements of `element` bytes, and
/// the rows can be counted.
pub open spec fn is_covered(size: usize, count: u32, rows: u32, stride: int, element: usize) -> bool {
    &&& count * rows <= usize::MAX
    &&& count * rows * stride * element <= size
}

/// The number of groups that share a scale in a row.
pub open spec fn group_count(k: u32, group_size: u32) -> int {
    (k + group_size - 1) / group_size as int
}

/// The stored elements that hold the packed zero points of a row.
pub open spec fn zero_point_count(k: u32, group_size: u32, mode: QuantizationMode) -> int {
    (group_count(k, group_size) + mode.packing_divisor() - 1) / mode.packing_divisor() as int
}

/// The term that is added to a scaled integer code, with the size of its storage.
#[derive(Clone, Copy, Debug, PartialEq, Eq)]
pub enum IntegerCorrection {
    Symmetric,
    Bias(usize),
    ZeroPoint(usize),
}

/// The correction terms of a bank of integer matrices are there.
pub open spec fn correction_is_covered(
    arguments: MatmulArguments,
    matrix_count: u32,
    correction: IntegerCorrection,
    mode: QuantizationMode,
    group_size: u32,
    data_type: DataType,
) -> bool {
    match correction {
        IntegerCorrection::Symmetric => true,
        IntegerCorrection::Bias(biases) => is_covered(
            biases,
            matrix_count,
            arguments.n,
            group_count(arguments.k, group_size),
            data_type.size_in_bytes(),
        ),
        IntegerCorrection::ZeroPoint(zero_points) => is_covered(
            zero_points,
            matrix_count,
            arguments.n,
            zero_point_count(arguments.k, group_size, mode),
            mode.storage_type().size_in_bytes(),
        ),
    }
}

/// What is wrong with a bank of integer matrices.
pub open spec fn integer_bank_fault(
    arguments: MatmulArguments,
    matrix_count: u32,
    weights: usize,
    scales: usize,
    correction: IntegerCorrection,
    mode: QuantizationMode,
    group_size: u32,
    data_type: DataType,
) -> Option<RoutingFault> {
    if group_size == 0 || arguments.k % mode.packing_divisor() != 0 {
        Some(RoutingFault::InvalidIntegerGroups)
    } else if !is_covered(
        weights,
        matrix_count,
        arguments.n,
        (arguments.k / mode.packing_divisor()) as int,
        mode.storage_type().size_in_bytes(),
    ) || !is_covered(
        scales,
        matrix_count,
        arguments.n,
        group_count(arguments.k, group_size),
        data_type.size_in_bytes(),
    ) || !correction_is_covered(
        arguments,
        matrix_count,
        correction,
        mode,
        group_size,
        data_type,
    ) {
        Some(RoutingFault::ShortIntegerBank)
    } else {
        None
    }
}

/// What is wrong with the weights of the experts.
pub open spec fn bank_fault(
    arguments: MatmulArguments,
    expert_count: u32,
    data_type: DataType,
) -> Option<RoutingFault> {
    match arguments.b {
        MatmulB::FullPrecision { b } => if leading_dimension(arguments) < minor_dimension(arguments)
            || !is_covered(
            b,
            expert_count,
            major_dimension(arguments),
            leading_dimension(arguments) as int,
            data_type.size_in_bytes(),
        ) {
            Some(RoutingFault::ShortFullPrecisionBank)
        } else {
            None
        },
        MatmulB::Microfloat { .. } => None,
        MatmulB::ScaleBiasDequant { b, scales, biases, mode, group_size, .. } => {
            integer_bank_fault(
                arguments,
                expert_count,
                b,
                scales,
                IntegerCorrection::Bias(biases),
                mode,
                group_size,
                data_type,
            )
        },
        MatmulB::ScaleZeroPointDequant { b, scales, zero_points, mode, group_size, .. } => {
            integer_bank_fault(
                arguments,
                expert_count,
                b,
                scales,
                IntegerCorrection::ZeroPoint(zero_points),
                mode,
                group_size,
                data_type,
            )
        },
        MatmulB::ScaleSymmetricDequant { b, scales, mode, group_size, .. } => {
            integer_bank_fault(
                arguments,
                expert_count,
                b,
                scales,
                IntegerCorrection::Symmetric,
                mode,
                group_size,
                data_type,
            )
        },
    }
}

/// What is wrong with routes to experts.
pub open spec fn expert_fault(arguments: MatmulArguments, data_type: DataType) -> Option<
    RoutingFault,
> {
    match arguments.routing.expert_routes() {
        None => if arguments.d_transform.per_matrix_bias is Some {
            Some(RoutingFault::BiasWithoutRoutes)
        } else {
            None
        },
        Some(routes) => if arguments.d_transform.rht_factors is Some {
            Some(RoutingFault::OutputRht)
        } else if routes.expert_ids < arguments.m * EXPERT_ID_BYTES {
            Some(RoutingFault::ShortExpertIds)
        } else if routes.input is Tokens && arguments.m % routes.routes_per_token != 0 {
            Some(RoutingFault::UnevenRoutes)
        } else if arguments.d_transform.per_matrix_bias matches Some(biases) && biases
            < routes.expert_count * arguments.n * data_type.size_in_bytes() {
            Some(RoutingFault::ShortBiasBank)
        } else {
            bank_fault(arguments, routes.expert_count, data_type)
        },
    }
}

/// What is wrong with microfloat weights.
pub open spec fn microfloat_fault(arguments: MatmulArguments, data_type: DataType) -> Option<
    RoutingFault,
> {
    match arguments.b {
        MatmulB::Microfloat { codes, scales, outer_scales, metadata } => {
            let matrix_count = match arguments.routing.expert_routes() {
                Some(routes) => routes.expert_count,
                None => 1u32,
            };
            if !arguments.b_transpose || arguments.b_leading_dimension is Some
                || metadata.matrix_count() < matrix_count || !(arguments.routing is SparseReadout
                || metadata.rows() == arguments.n) || metadata.columns() != arguments.k || codes
                < microfloat::code_bytes(
                metadata.matrix_count(),
                metadata.rows(),
                metadata.columns(),
            ) || scales < microfloat::scale_bytes(
                metadata.matrix_count(),
                metadata.rows(),
                metadata.columns(),
                metadata.group_size(),
            ) || outer_scales < metadata.matrix_count() * data_type.size_in_bytes() {
                Some(RoutingFault::MicrofloatMismatch)
            } else {
                None
            }
        },
        _ => None,
    }
}

/// Whether `size` bytes hold `count` times `rows` times `stride` elements of `element` bytes.
fn covers(size: usize, count: u32, rows: u32, stride: usize, element: usize) -> (covered: bool)
    requires
        element > 0,
    ensures
        covered == is_covered(size, count, rows, stride as int, element),
{
    proof {
        lemma_products(count as int, rows as int, stride as int, element as int);
    }
    match (count as usize).checked_mul(rows as usize) {
        None => false,
        Some(matrix) => match matrix.checked_mul(stride) {
            None => false,
            Some(bank) => match bank.checked_mul(element) {
                None => false,
                Some(bytes) => size >= bytes,
            },
        },
    }
}

proof fn lemma_products(count: int, rows: int, stride: int, element: int)
    requires
        count >= 0,
        rows >= 0,
        stride >= 0,
        element > 0,
    ensures
        count * rows >= 0,
        count * rows * stride >= 0,
        count * rows * stride * element >= count * rows * stride,
        count * rows * element >= count * rows,
{
    assert(count * rows >= 0) by (nonlinear_arith)
        requires
            count >= 0,
            rows >= 0,
    ;
    assert(count * rows * stride >= 0) by (nonlinear_arith)
        requires
            count * rows >= 0,
            stride >= 0,
    ;
    assert(count * rows * stride * element >= count * rows * stride) by (nonlinear_arith)
        requires
            count * rows * stride >= 0,
            element > 0,
    ;
    assert(count * rows * element >= count * rows) by (nonlinear_arith)
        requires
            count * rows >= 0,
            element > 0,
    ;
}

/// Whether `size` bytes hold `rows` times `columns` elements of `element` bytes behind `offset`.
fn covers_matrix(size: usize, rows: u32, columns: u32, element: usize, offset: usize) -> (covered:
    bool)
    requires
        element > 0,
    ensures
        covered == (rows * columns * element + offset <= size),
{
    proof {
        lemma_products(rows as int, columns as int, 0, element as int);
    }
    match (rows as usize).checked_mul(columns as usize) {
        None => false,
        Some(elements) => match elements.checked_mul(element) {
            None => false,
            Some(bytes) => match bytes.checked_add(offset) {
                None => false,
                Some(end) => size >= end,
            },
        },
    }
}

/// Checks that the left operand and the output cover the multiplication.
fn validate_storage(
    arguments: &MatmulArguments,
    input_data_type: DataType,
    output_data_type: DataType,
    path: MatmulPath,
) -> (result: Result<(), MatmulError>)
    requires
        arguments.routing.wf(),
    ensures
        result == match storage_fault(*arguments, input_data_type, output_data_type) {
            Some(fault) => Err::<(), MatmulError>(MatmulError::InvalidStorage { path, storage: fault }),
            None => Ok(()),
        },
{
    if let MatmulA::FullPrecision { values, offset } = arguments.a {
        let element_size: usize = input_data_type.size_in_bytes();
        if offset % element_size != 0 {
            return Err(
                MatmulError::InvalidStorage { path, storage: StorageFault::MisalignedInput },
            );
        }
        let rows: u32 = match arguments.routing.expert_routes() {
            Some(routes) => if routes.input == ExpertInput::Tokens {
                arguments.m / routes.routes_per_token
            } else {
                arguments.m
            },
            None => arguments.m,
        };
        if !covers_matrix(values, rows, arguments.k, element_size, offset) {
            return Err(MatmulError::InvalidStorage { path, storage: StorageFault::ShortInput });
        }
    }
    let width: u32 = if arguments.d_transform.gate_act {
        arguments.n / 2
    } else {
        arguments.n
    };
    if !covers_matrix(arguments.d, arguments.m, width, output_data_type.size_in_bytes(), 0) {
        return Err(MatmulError::InvalidStorage { path, storage: StorageFault::ShortOutput });
    }
    Ok(())
}

/// The error that a fault of routed operands gives.
pub open spec fn routing_result(fault: Option<RoutingFault>, path: MatmulPath) -> Result<
    (),
    MatmulError,
> {
    match fault {
        Some(fault) => Err(MatmulError::UnsupportedRouting { path, routing: fault }),
        None => Ok(()),
    }
}

/// Checks that full-precision weights cover every expert.
fn validate_full_precision_bank(
    arguments: &MatmulArguments,
    matrix_count: u32,
    b: usize,
    weights_data_type: DataType,
    path: MatmulPath,
) -> (result: Result<(), MatmulError>)
    requires
        arguments.b == (MatmulB::FullPrecision { b }),
    ensures
        result == routing_result(bank_fault(*arguments, matrix_count, weights_data_type), path),
{
    let minimum: u32 = if arguments.b_transpose {
        arguments.k
    } else {
        arguments.n
    };
    let leading: u32 = match arguments.b_leading_dimension {
        Some(dimension) => dimension,
        None => minimum,
    };
    let major: u32 = if arguments.b_transpose {
        arguments.n
    } else {
        arguments.k
    };
    if leading < minimum || !covers(
        b,
        matrix_count,
        major,
        leading as usize,
        weights_data_type.size_in_bytes(),
    ) {
        return Err(
            MatmulError::UnsupportedRouting { path, routing: RoutingFault::ShortFullPrecisionBank },
        );
    }
    Ok(())
}

/// Checks that integer weights cover every expert.
fn validate_integer_bank(
    arguments: &MatmulArguments,
    matrix_count: u32,
    weights: usize,
    scales: usize,
    correction: IntegerCorrection,
    mode: QuantizationMode,
    group_size: u32,
    weights_data_type: DataType,
    path: MatmulPath,
) -> (result: Result<(), MatmulError>)
    ensures
        result == routing_result(
            integer_bank_fault(
                *arguments,
                matrix_count,
                weights,
                scales,
                correction,
                mode,
                group_size,
                weights_data_type,
            ),
            path,
        ),
{
    let divisor: u32 = mode.packing_divisor();
    if group_size == 0 || arguments.k % divisor != 0 {
        return Err(
            MatmulError::UnsupportedRouting { path, routing: RoutingFault::InvalidIntegerGroups },
        );
    }
    let groups: u32 = div_ceil_u32(arguments.k, group_size);
    let storage: usize = mode.storage_type().size_in_bytes();
    let element: usize = weights_data_type.size_in_bytes();
    let correction_valid: bool = match correction {
        IntegerCorrection::Symmetric => true,
        IntegerCorrection::Bias(biases) => covers(
            biases,
            matrix_count,
            arguments.n,
            groups as usize,
            element,
        ),
        IntegerCorrection::ZeroPoint(zero_points) => covers(
            zero_points,
            matrix_count,
            arguments.n,
            div_ceil_u32(groups, divisor) as usize,
            storage,
        ),
    };
    if !covers(weights, matrix_count, arguments.n, (arguments.k / divisor) as usize, storage)
        || !covers(scales, matrix_count, arguments.n, groups as usize, element)
        || !correction_valid {
        return Err(
            MatmulError::UnsupportedRouting { path, routing: RoutingFault::ShortIntegerBank },
        );
    }
    Ok(())
}

/// Checks routes to experts and the banks that they read.
fn validate_expert_routes(
    arguments: &MatmulArguments,
    weights_data_type: DataType,
    path: MatmulPath,
) -> (result: Result<(), MatmulError>)
    requires
        arguments.routing.wf(),
    ensures
        result == routing_result(expert_fault(*arguments, weights_data_type), path),
{
    let routes = match arguments.routing.expert_routes() {
        Some(routes) => routes,
        None => {
            if arguments.d_transform.per_matrix_bias.is_some() {
                return Err(
                    MatmulError::UnsupportedRouting {
                        path,
                        routing: RoutingFault::BiasWithoutRoutes,
                    },
                );
            }
            return Ok(());
        },
    };
    if arguments.d_transform.rht_factors.is_some() {
        return Err(MatmulError::UnsupportedRouting { path, routing: RoutingFault::OutputRht });
    }
    if !covers_matrix(routes.expert_ids, arguments.m, 1, EXPERT_ID_BYTES, 0) {
        return Err(MatmulError::UnsupportedRouting { path, routing: RoutingFault::ShortExpertIds });
    }
    if routes.input == ExpertInput::Tokens && arguments.m % routes.routes_per_token != 0 {
        return Err(MatmulError::UnsupportedRouting { path, routing: RoutingFault::UnevenRoutes });
    }
    if let Some(biases) = arguments.d_transform.per_matrix_bias {
        if !covers_matrix(
            biases,
            routes.expert_count,
            arguments.n,
            weights_data_type.size_in_bytes(),
            0,
        ) {
            return Err(
                MatmulError::UnsupportedRouting { path, routing: RoutingFault::ShortBiasBank },
            );
        }
    }
    match arguments.b {
        MatmulB::FullPrecision { b } => validate_full_precision_bank(
            arguments,
            routes.expert_count,
            b,
            weights_data_type,
            path,
        ),
        MatmulB::Microfloat { .. } => Ok(()),
        MatmulB::ScaleBiasDequant { b, scales, biases, mode, group_size, .. } => {
            validate_integer_bank(
                arguments,
                routes.expert_count,
                b,
                scales,
                IntegerCorrection::Bias(biases),
                mode,
                group_size,
                weights_data_type,
                path,
            )
        },
        MatmulB::ScaleZeroPointDequant { b, scales, zero_points, mode, group_size, .. } => {
            validate_integer_bank(
                arguments,
                routes.expert_count,
                b,
                scales,
                IntegerCorrection::ZeroPoint(zero_points),
                mode,
                group_size,
                weights_data_type,
                path,
            )
        },
        MatmulB::ScaleSymmetricDequant { b, scales, mode, group_size, .. } => {
            validate_integer_bank(
                arguments,
                routes.expert_count,
                b,
                scales,
                IntegerCorrection::Symmetric,
                mode,
                group_size,
                weights_data_type,
                path,
            )
        },
    }
}

/// Checks that microfloat weights are the matrix that is asked for.
fn validate_microfloat(
    arguments: &MatmulArguments,
    weights_data_type: DataType,
    path: MatmulPath,
) -> (result: Result<(), MatmulError>)
    ensures
        result == routing_result(microfloat_fault(*arguments, weights_data_type), path),
{
    let (codes, scales, outer_scales, metadata) = match arguments.b {
        MatmulB::Microfloat { codes, scales, outer_scales, metadata } => (
            codes,
            scales,
            outer_scales,
            metadata,
        ),
        _ => {
            return Ok(());
        },
    };
    let matrix_count: u32 = match arguments.routing.expert_routes() {
        Some(routes) => routes.expert_count,
        None => 1,
    };
    let rows_match: bool = arguments.routing.sparse_readout_rows().is_some() || metadata.rows()
        == arguments.n;
    if !arguments.b_transpose || arguments.b_leading_dimension.is_some()
        || metadata.matrix_count() < matrix_count || !rows_match || metadata.columns()
        != arguments.k || codes < metadata.required_code_bytes() || scales
        < metadata.required_scale_bytes() || !covers_matrix(
        outer_scales,
        metadata.matrix_count(),
        1,
        weights_data_type.size_in_bytes(),
        0,
    ) {
        return Err(
            MatmulError::UnsupportedRouting { path, routing: RoutingFault::MicrofloatMismatch },
        );
    }
    Ok(())
}

/// The first thing that is wrong with a multiplication.
pub open spec fn validation_result(
    arguments: MatmulArguments,
    weights_data_type: DataType,
    input_data_type: DataType,
    output_data_type: DataType,
    path: MatmulPath,
) -> Result<(), MatmulError> {
    if let Some(fault) = expert_fault(arguments, weights_data_type) {
        Err(MatmulError::UnsupportedRouting { path, routing: fault })
    } else if let Some(fault) = microfloat_fault(arguments, weights_data_type) {
        Err(MatmulError::UnsupportedRouting { path, routing: fault })
    } else if let Some(fault) = storage_fault(arguments, input_data_type, output_data_type) {
        Err(MatmulError::InvalidStorage { path, storage: fault })
    } else {
        Ok(())
    }
}

/// Checks that the storage of all operands covers a multiplication.
pub fn validate_matmul_arguments(
    arguments: &MatmulArguments,
    weights_data_type: DataType,
    input_data_type: DataType,
    output_data_type: DataType,
    path: MatmulPath,
) -> (result: Result<(), MatmulError>)
    requires
        arguments.routing.wf(),
    ensures
        result == validation_result(
            *arguments,
            weights_data_type,
            input_data_type,
            output_data_type,
            path,
        ),
{
    if let Err(error) = validate_expert_routes(arguments, weights_data_type, path) {
        return Err(error);
    }
    if let Err(error) = validate_microfloat(arguments, weights_data_type, path) {
        return Err(error);
    }
    validate_storage(arguments, input_data_type, output_data_type, path)
}

/// The element at `index` of `count` elements ends inside their storage.
proof fn lemma_element_fits(index: int, count: int, element: int, offset: int, size: int)
    requires
        0 <= index < count,
        element > 0,
        count * element + offset <= size,
    ensures
        (index + 1) * element + offset <= size,
{
    assert((index + 1) * element <= count * element) by (nonlinear_arith)
        requires
            index + 1 <= count,
            element > 0,
    ;
}

proof fn lemma_row_major_index(row: int, rows: int, column: int, columns: int)
    requires
        0 <= row < rows,
        0 <= column < columns,
    ensures
        0 <= row * columns + column < rows * columns,
{
    assert(row * columns + column < rows * columns && row * columns >= 0) by (nonlinear_arith)
        requires
            0 <= row < rows,
            0 <= column < columns,
    ;
}

/// Arguments that pass the checks are read and written inside their storage: every element of the
/// rows of the left operand, and every element of the output.
pub proof fn law_validated_elements_are_stored(
    arguments: MatmulArguments,
    weights_data_type: DataType,
    input_data_type: DataType,
    output_data_type: DataType,
    path: MatmulPath,
    row: int,
    column: int,
)
    requires
        validation_result(
            arguments,
            weights_data_type,
            input_data_type,
            output_data_type,
            path,
        ) is Ok,
    ensures
        arguments.a matches MatmulA::FullPrecision { values, offset } ==> (0 <= row < input_rows(
            arguments,
        ) && 0 <= column < arguments.k ==> (row * arguments.k + column + 1)
            * input_data_type.size_in_bytes() + offset <= values),
        0 <= row < arguments.m && 0 <= column < output_width(arguments) ==> (row * output_width(
            arguments,
        ) + column + 1) * output_data_type.size_in_bytes() <= arguments.d,
{
    if let MatmulA::FullPrecision { values, offset } = arguments.a {
        if 0 <= row < input_rows(arguments) && 0 <= column < arguments.k {
            lemma_row_major_index(row, input_rows(arguments) as int, column, arguments.k as int);
            lemma_element_fits(
                row * arguments.k + column,
                input_rows(arguments) * arguments.k,
                input_data_type.size_in_bytes() as int,
                offset as int,
                values as int,
            );
        }
    }
    if 0 <= row < arguments.m && 0 <= column < output_width(arguments) {
        lemma_row_major_index(row, arguments.m as int, column, output_width(arguments) as int);
        lemma_element_fits(
            row * output_width(arguments) + column,
            arguments.m * output_width(arguments),
            output_data_type.size_in_bytes() as int,
            0,
            arguments.d as int,
        );
    }
}

/// The element at `column` of a row of a matrix of a bank ends inside the bank.
pub open spec fn is_stored(
    size: usize,
    matrix: int,
    rows: u32,
    row: int,
    stride: int,
    column: int,
    element: usize,
) -> bool {
    ((matrix * rows + row) * stride + column + 1) * element <= size
}

proof fn lemma_covered_is_stored(
    size: usize,
    count: u32,
    rows: u32,
    stride: int,
    element: usize,
    matrix: int,
    row: int,
    column: int,
)
    requires
        is_covered(size, count, rows, stride, element),
        element > 0,
        0 <= matrix < count,
        0 <= row < rows,
        0 <= column < stride,
    ensures
        is_stored(size, matrix, rows, row, stride, column, element),
{
    lemma_row_major_index(matrix, count as int, row, rows as int);
    lemma_row_major_index(matrix * rows + row, count * rows, column, stride);
    lemma_element_fits(
        (matrix * rows + row) * stride + column,
        count * rows * stride,
        element as int,
        0,
        size as int,
    );
}

/// Full-precision weights that pass the checks cover every element of every expert's matrix.
pub proof fn law_validated_expert_weights_are_stored(
    arguments: MatmulArguments,
    weights_data_type: DataType,
    expert: int,
    row: int,
    column: int,
)
    requires
        expert_fault(arguments, weights_data_type) is None,
        arguments.routing matches MatmulRouting::Experts(routes) && 0 <= expert
            < routes.expert_count,
        0 <= row < major_dimension(arguments),
        0 <= column < minor_dimension(arguments),
        arguments.b is FullPrecision,
    ensures
        is_stored(
            arguments.b->FullPrecision_b,
            expert,
            major_dimension(arguments),
            row,
            leading_dimension(arguments) as int,
            column,
            weights_data_type.size_in_bytes(),
        ),
{
    lemma_covered_is_stored(
        arguments.b->FullPrecision_b,
        arguments.routing.expert_routes()->Some_0.expert_count,
        major_dimension(arguments),
        leading_dimension(arguments) as int,
        weights_data_type.size_in_bytes(),
        expert,
        row,
        column,
    );
}

/// The group of a column is one of the groups of its row.
proof fn lemma_group_is_counted(column: int, columns: int, group_size: int)
    requires
        0 <= column < columns,
        group_size > 0,
    ensures
        0 <= column / group_size < (columns + group_size - 1) / group_size,
{
    assert(0 <= column / group_size < (columns + group_size - 1) / group_size) by (nonlinear_arith)
        requires
            0 <= column < columns,
            group_size > 0,
    ;
}

/// The code, the scale and the correction of an integer weight are stored.
pub open spec fn is_integer_stored(
    arguments: MatmulArguments,
    weights: usize,
    scales: usize,
    correction: IntegerCorrection,
    mode: QuantizationMode,
    group_size: u32,
    data_type: DataType,
    expert: int,
    row: int,
    column: int,
) -> bool {
    let divisor = mode.packing_divisor() as int;
    let group = column / group_size as int;
    let groups = group_count(arguments.k, group_size);
    let storage = mode.storage_type().size_in_bytes();
    let element = data_type.size_in_bytes();
    &&& is_stored(
        weights,
        expert,
        arguments.n,
        row,
        arguments.k as int / divisor,
        column / divisor,
        storage,
    )
    &&& is_stored(scales, expert, arguments.n, row, groups, group, element)
    &&& match correction {
        IntegerCorrection::Symmetric => true,
        IntegerCorrection::Bias(biases) => is_stored(
            biases,
            expert,
            arguments.n,
            row,
            groups,
            group,
            element,
        ),
        IntegerCorrection::ZeroPoint(zero_points) => is_stored(
            zero_points,
            expert,
            arguments.n,
            row,
            zero_point_count(arguments.k, group_size, mode),
            group / divisor,
            storage,
        ),
    }
}

proof fn lemma_integer_is_stored(
    arguments: MatmulArguments,
    matrix_count: u32,
    weights: usize,
    scales: usize,
    correction: IntegerCorrection,
    mode: QuantizationMode,
    group_size: u32,
    data_type: DataType,
    expert: int,
    row: int,
    column: int,
)
    requires
        integer_bank_fault(
            arguments,
            matrix_count,
            weights,
            scales,
            correction,
            mode,
            group_size,
            data_type,
        ) is None,
        0 <= expert < matrix_count,
        0 <= row < arguments.n,
        0 <= column < arguments.k,
    ensures
        is_integer_stored(
            arguments,
            weights,
            scales,
            correction,
            mode,
            group_size,
            data_type,
            expert,
            row,
            column,
        ),
{
    let divisor = mode.packing_divisor() as int;
    let group = column / group_size as int;
    let groups = group_count(arguments.k, group_size);
    let storage = mode.storage_type().size_in_bytes();
    let element = data_type.size_in_bytes();
    let n = arguments.n;
    assert(divisor == 1 || divisor == 2) by {
        assert(8u32 / 4u32 == 2 && 8u32 / 8u32 == 1) by (nonlinear_arith);
        assert(mode.bits() == 4 || mode.bits() == 8);
    }
    lemma_group_is_counted(column, arguments.k as int, group_size as int);
    lemma_group_is_counted(group, groups, divisor);
    assert(0 <= column / divisor < arguments.k as int / divisor) by (nonlinear_arith)
        requires
            0 <= column < arguments.k,
            divisor == 1 || divisor == 2,
            arguments.k as int % divisor == 0,
    ;
    lemma_covered_is_stored(
        weights,
        matrix_count,
        n,
        arguments.k as int / divisor,
        storage,
        expert,
        row,
        column / divisor,
    );
    lemma_covered_is_stored(scales, matrix_count, n, groups, element, expert, row, group);
    match correction {
        IntegerCorrection::Symmetric => {},
        IntegerCorrection::Bias(biases) => {
            lemma_covered_is_stored(biases, matrix_count, n, groups, element, expert, row, group);
        },
        IntegerCorrection::ZeroPoint(zero_points) => {
            lemma_covered_is_stored(
                zero_points,
                matrix_count,
                n,
                zero_point_count(arguments.k, group_size, mode),
                storage,
                expert,
                row,
                group / divisor,
            );
        },
    }
}

/// Integer weights that pass the checks hold, for every element of every expert's matrix, its code,
/// its scale and what corrects it.
pub proof fn law_validated_integer_weights_are_stored(
    arguments: MatmulArguments,
    weights_data_type: DataType,
    expert: int,
    row: int,
    column: int,
)
    requires
        expert_fault(arguments, weights_data_type) is None,
        arguments.routing matches MatmulRouting::Experts(routes) && 0 <= expert
            < routes.expert_count,
        0 <= row < arguments.n,
        0 <= column < arguments.k,
    ensures
        match arguments.b {
            MatmulB::ScaleBiasDequant { b, scales, biases, mode, group_size, .. } => {
                is_integer_stored(
                    arguments,
                    b,
                    scales,
                    IntegerCorrection::Bias(biases),
                    mode,
                    group_size,
                    weights_data_type,
                    expert,
                    row,
                    column,
                )
            },
            MatmulB::ScaleZeroPointDequant { b, scales, zero_points, mode, group_size, .. } => {
                is_integer_stored(
                    arguments,
                    b,
                    scales,
                    IntegerCorrection::ZeroPoint(zero_points),
                    mode,
                    group_size,
                    weights_data_type,
                    expert,
                    row,
                    column,
                )
            },
            MatmulB::ScaleSymmetricDequant { b, scales, mode, group_size, .. } => {
                is_integer_stored(
                    arguments,
                    b,
                    scales,
                    IntegerCorrection::Symmetric,
                    mode,
                    group_size,
                    weights_data_type,
                    expert,
                    row,
                    column,
                )
            },
            _ => true,
        },
{
    let count = arguments.routing.expert_routes()->Some_0.expert_count;
    match arguments.b {
        MatmulB::ScaleBiasDequant { b, scales, biases, mode, group_size, .. } => {
            lemma_integer_is_stored(
                arguments,
                count,
                b,
                scales,
                IntegerCorrection::Bias(biases),
                mode,
                group_size,
                weights_data_type,
                expert,
                row,
                column,
            );
        },
        MatmulB::ScaleZeroPointDequant { b, scales, zero_points, mode, group_size, .. } => {
            lemma_integer_is_stored(
                arguments,
                count,
                b,
                scales,
                IntegerCorrection::ZeroPoint(zero_points),
                mode,
                group_size,
                weights_data_type,
                expert,
                row,
                column,
            );
        },
        MatmulB::ScaleSymmetricDequant { b, scales, mode, group_size, .. } => {
            lemma_integer_is_stored(
                arguments,
                count,
                b,
                scales,
                IntegerCorrection::Symmetric,
                mode,
                group_size,
                weights_data_type,
                expert,
                row,
                column,
            );
        },
        _ => {},
    }
}

/// Microfloat weights that pass the checks hold, for every element of every matrix that is asked for,
/// its code, the scale of its group and the scale of its matrix.
pub proof fn law_validated_microfloat_weights_are_stored(
    arguments: MatmulArguments,
    weights_data_type: DataType,
    matrix: int,
    row: int,
    column: int,
)
    requires
        microfloat_fault(arguments, weights_data_type) is None,
        arguments.b matches MatmulB::Microfloat { metadata, .. } && metadata.wf() && 0 <= row
            < metadata.rows(),
        0 <= matrix < match arguments.routing.expert_routes() {
            Some(routes) => routes.expert_count as int,
            None => 1int,
        },
        0 <= column < arguments.k,
    ensures
        match arguments.b {
            MatmulB::Microfloat { codes, scales, outer_scales, metadata } => {
                &&& is_stored(
                    codes,
                    matrix,
                    metadata.rows(),
                    row,
                    arguments.k as int / 2,
                    column / 2,
                    1,
                )
                &&& is_stored(
                    scales,
                    matrix,
                    metadata.rows(),
                    row,
                    arguments.k as int / metadata.group_size() as int,
                    column / metadata.group_size() as int,
                    1,
                )
                &&& (matrix + 1) * weights_data_type.size_in_bytes() <= outer_scales
            },
            _ => true,
        },
{
    if let MatmulB::Microfloat { codes, scales, outer_scales, metadata } = arguments.b {
        let count = metadata.matrix_count() as int;
        let rows = metadata.rows() as int;
        let group_size = metadata.group_size() as int;
        let pairs = arguments.k as int / 2;
        let groups = arguments.k as int / group_size;
        assert(group_size == 16 || group_size == 32);
        lemma_whole_group(column, arguments.k as int, group_size);
        lemma_even(arguments.k as int, group_size);
        lemma_whole_group(column, arguments.k as int, 2);
        lemma_byte_is_stored(codes, matrix, count, row, rows, column / 2, pairs);
        lemma_byte_is_stored(scales, matrix, count, row, rows, column / group_size, groups);
        lemma_element_fits(
            matrix,
            count,
            weights_data_type.size_in_bytes() as int,
            0,
            outer_scales as int,
        );
    }
}

proof fn lemma_whole_group(column: int, columns: int, size: int)
    requires
        0 <= column < columns,
        size > 0,
        columns % size == 0,
    ensures
        0 <= column / size < columns / size,
{
    assert(0 <= column / size < columns / size) by (nonlinear_arith)
        requires
            0 <= column < columns,
            size > 0,
            columns % size == 0,
    ;
}

proof fn lemma_even(columns: int, size: int)
    requires
        size == 16 || size == 32,
        columns % size == 0,
    ensures
        columns % 2 == 0,
{
}

proof fn lemma_byte_is_stored(
    size: usize,
    matrix: int,
    count: int,
    row: int,
    rows: int,
    column: int,
    stride: int,
)
    requires
        0 <= matrix < count,
        0 <= row < rows,
        0 <= column < stride,
        count * (rows * stride) <= size,
    ensures
        ((matrix * rows + row) * stride + column + 1) * 1 <= size,
{
    lemma_row_major_index(matrix, count, row, rows);
    lemma_row_major_index(matrix * rows + row, count * rows, column, stride);
    assert(count * rows * stride == count * (rows * stride)) by (nonlinear_arith);
}

/// The rows of the left operand: one for each route where the rows stand by route, and else one for each
/// token.
pub open spec fn rows_that_are_read(arguments: MatmulArguments) -> int {
    match arguments.routing {
        MatmulRouting::Experts(routes) => match routes.input {
            ExpertInput::Tokens => (arguments.m / routes.routes_per_token) as int,
            ExpertInput::Routes => arguments.m as int,
        },
        _ => arguments.m as int,
    }
}

/// Storage is refused where the left operand does not begin at an element, where its rows end behind it, or
/// where the product, half as wide if it is gated, ends behind the output. The kernel that refuses it
/// is named.
pub proof fn law_storage_is_refused_for_a_reason(
    arguments: MatmulArguments,
    weights: DataType,
    input: DataType,
    output: DataType,
    path: MatmulPath,
    refusing: MatmulPath,
    storage: StorageFault,
)
    requires
        call_ensures(
            validate_matmul_arguments,
            (&arguments, weights, input, output, path),
            Err::<(), MatmulError>(MatmulError::InvalidStorage { path: refusing, storage }),
        ),
    ensures
        refusing == path,
        match storage {
            StorageFault::MisalignedInput => arguments.a matches MatmulA::FullPrecision { offset, .. }
                && offset % input.size_in_bytes() != 0,
            StorageFault::ShortInput => arguments.a matches MatmulA::FullPrecision { values, offset }
                && offset + rows_that_are_read(arguments) * arguments.k * input.size_in_bytes() > values,
            StorageFault::ShortOutput => arguments.m * (if arguments.d_transform.gate_act {
                arguments.n / 2
            } else {
                arguments.n
            }) * output.size_in_bytes() > arguments.d,
        },
{
}

/// Routes are refused where what they need is missing.
pub proof fn law_routes_are_refused_for_a_reason(
    arguments: MatmulArguments,
    weights: DataType,
    input: DataType,
    output: DataType,
    path: MatmulPath,
    refusing: MatmulPath,
    routing: RoutingFault,
)
    requires
        call_ensures(
            validate_matmul_arguments,
            (&arguments, weights, input, output, path),
            Err::<(), MatmulError>(MatmulError::UnsupportedRouting { path: refusing, routing }),
        ),
    ensures
        refusing == path,
        routing is BiasWithoutRoutes <==> arguments.routing !is Experts
            && arguments.d_transform.per_matrix_bias is Some,
        routing is OutputRht <==> arguments.routing is Experts && arguments.d_transform.rht_factors is Some,
        arguments.routing matches MatmulRouting::Experts(routes) ==> match routing {
            RoutingFault::ShortExpertIds => routes.expert_ids < 4 * arguments.m,
            RoutingFault::UnevenRoutes => routes.input is Tokens && arguments.m % routes.routes_per_token
                != 0,
            RoutingFault::ShortBiasBank => arguments.d_transform.per_matrix_bias matches Some(biases)
                && biases < routes.expert_count * arguments.n * weights.size_in_bytes(),
            RoutingFault::ShortFullPrecisionBank => arguments.b matches MatmulB::FullPrecision { b } && {
                let rows = if arguments.b_transpose {
                    arguments.n
                } else {
                    arguments.k
                };
                let columns = if arguments.b_transpose {
                    arguments.k
                } else {
                    arguments.n
                };
                let stride = match arguments.b_leading_dimension {
                    Some(dimension) => dimension,
                    None => columns,
                };
                ||| stride < columns
                ||| routes.expert_count * rows > usize::MAX
                ||| b < routes.expert_count * rows * stride * weights.size_in_bytes()
            },
            RoutingFault::InvalidIntegerGroups => match arguments.b {
                MatmulB::ScaleBiasDequant { mode, group_size, .. } => group_size == 0 || (mode is U4
                    && arguments.k % 2 == 1),
                MatmulB::ScaleZeroPointDequant { mode, group_size, .. } => group_size == 0 || (
                mode is U4 && arguments.k % 2 == 1),
                MatmulB::ScaleSymmetricDequant { mode, group_size, .. } => group_size == 0 || (
                mode is U4 && arguments.k % 2 == 1),
                _ => false,
            },
            RoutingFault::ShortIntegerBank => arguments.b is ScaleBiasDequant
                || arguments.b is ScaleZeroPointDequant || arguments.b is ScaleSymmetricDequant,
            _ => true,
        },
        routing is MicrofloatMismatch ==> (arguments.b matches MatmulB::Microfloat {
            codes,
            scales,
            outer_scales,
            metadata,
        } && {
            let count = match arguments.routing {
                MatmulRouting::Experts(routes) => routes.expert_count,
                _ => 1,
            };
            ||| !arguments.b_transpose
            ||| arguments.b_leading_dimension is Some
            ||| metadata.matrix_count() < count
            ||| metadata.rows() != arguments.n && arguments.routing !is SparseReadout
            ||| metadata.columns() != arguments.k
            ||| codes < metadata.matrix_count() * (metadata.rows() * (metadata.columns() as int / 2))
            ||| scales < metadata.matrix_count() * (metadata.rows() * (metadata.columns() as int
                / metadata.group_size() as int))
            ||| outer_scales < metadata.matrix_count() * weights.size_in_bytes()
        }),
{
    assert(8u32 / 4u32 == 2 && 8u32 / 8u32 == 1);
}

/// What is accepted has everything: rows that are read whole and shared out evenly, an id for each row that is
/// routed, a bias for each expert's columns where there are such biases, and no transform of routed
/// outputs.
pub proof fn law_accepted_operands_are_complete(
    arguments: MatmulArguments,
    weights: DataType,
    input: DataType,
    output: DataType,
    path: MatmulPath,
)
    requires
        call_ensures(
            validate_matmul_arguments,
            (&arguments, weights, input, output, path),
            Ok::<(), MatmulError>(()),
        ),
    ensures
        arguments.a matches MatmulA::FullPrecision { values, offset } ==> offset % input.size_in_bytes()
            == 0 && offset + rows_that_are_read(arguments) * arguments.k * input.size_in_bytes() <= values,
        arguments.m * (if arguments.d_transform.gate_act {
            arguments.n / 2
        } else {
            arguments.n
        }) * output.size_in_bytes() <= arguments.d,
        arguments.d_transform.per_matrix_bias is Some ==> arguments.routing is Experts,
        arguments.routing matches MatmulRouting::Experts(routes) ==> {
            &&& arguments.d_transform.rht_factors is None
            &&& routes.expert_ids >= 4 * arguments.m
            &&& routes.input is Tokens ==> arguments.m % routes.routes_per_token == 0
            &&& arguments.d_transform.per_matrix_bias matches Some(biases) ==> biases
                >= routes.expert_count * arguments.n * weights.size_in_bytes()
        },
        arguments.b matches MatmulB::Microfloat { metadata, .. } ==> arguments.b_transpose
            && arguments.b_leading_dimension is None && metadata.columns() == arguments.k && (
        metadata.rows() == arguments.n || arguments.routing is SparseReadout),
{
}

} // verus!
