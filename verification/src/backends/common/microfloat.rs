//! Block-scaled four-bit floating point weights.
use vstd::prelude::*;

verus! {

/// A microfloat format.
#[derive(Clone, Copy, Debug, PartialEq, Eq, Structural)]
pub enum MicrofloatFormat {
    Mxfp4,
}

/// Why packed microfloat storage is refused.
#[derive(Clone, Copy, Debug, PartialEq, Eq)]
pub enum MicrofloatError {
    UnsupportedBits { format: MicrofloatFormat, bits: u32 },
    UnsupportedGroupSize { format: MicrofloatFormat, group_size: u32 },
    EmptyShape,
    MisalignedColumns { columns: u32, group_size: u32 },
    SizeOverflow,
}

/// How packed microfloat bytes are interpreted, separate from matrix dimensions.
///
/// With MXFP4 group size 16, every 16 values along the input axis occupy eight
/// packed code bytes and share one E8M0 scale.
#[derive(Clone, Copy, Debug, PartialEq, Eq)]
pub struct MicrofloatEncoding {
    format: MicrofloatFormat,
    group_size: u32,
}

impl MicrofloatEncoding {
    pub closed spec fn spec_format(self) -> MicrofloatFormat {
        self.format
    }

    pub closed spec fn spec_group_size(self) -> u32 {
        self.group_size
    }

    pub open spec fn spec_bits(self) -> u32 {
        4
    }

    /// A group is 16 or 32 values long.
    pub open spec fn wf(self) -> bool {
        self.spec_group_size() == 16 || self.spec_group_size() == 32
    }

    #[verifier::type_invariant]
    spec fn has_supported_group(self) -> bool {
        self.group_size == 16 || self.group_size == 32
    }

    /// The encoding of codes of `bits` bits of which `group_size` share a scale.
    pub fn new(format: MicrofloatFormat, bits: u32, group_size: u32) -> (result: Result<
        MicrofloatEncoding,
        MicrofloatError,
    >)
        ensures
            match result {
                Ok(encoding) => {
                    &&& bits == 4
                    &&& group_size == 16 || group_size == 32
                    &&& encoding.format() == format
                    &&& encoding.group_size() == group_size
                    &&& encoding.wf()
                },
                Err(error) => if bits != 4 {
                    error == (MicrofloatError::UnsupportedBits { format, bits })
                } else {
                    &&& group_size != 16 && group_size != 32
                    &&& error == (MicrofloatError::UnsupportedGroupSize { format, group_size })
                },
            },
    {
        if bits != 4 {
            return Err(MicrofloatError::UnsupportedBits { format, bits });
        }
        if group_size != 16 && group_size != 32 {
            return Err(MicrofloatError::UnsupportedGroupSize { format, group_size });
        }
        Ok(MicrofloatEncoding { format, group_size })
    }

    /// The format of the codes.
    #[verifier::when_used_as_spec(spec_format)]
    pub fn format(self) -> (format: MicrofloatFormat)
        ensures
            format == self.format(),
    {
        self.format
    }

    /// The number of bits of a code.
    #[verifier::when_used_as_spec(spec_bits)]
    pub fn bits(self) -> (bits: u32)
        ensures
            bits == self.bits(),
    {
        4
    }

    /// The number of values that share a scale.
    #[verifier::when_used_as_spec(spec_group_size)]
    pub fn group_size(self) -> (group_size: u32)
        ensures
            group_size == self.group_size(),
            self.wf(),
    {
        proof {
            use_type_invariant(&self);
        }
        self.group_size
    }
}

/// Physical shape and derived strides for a bank of microfloat matrices.
#[derive(Clone, Copy, Debug, PartialEq, Eq)]
pub struct MicrofloatMetadata {
    encoding: MicrofloatEncoding,
    matrix_count: u32,
    rows: u32,
    columns: u32,
}

/// The bytes of packed codes of a bank of matrices: two codes share a byte.
pub open spec fn code_bytes(matrix_count: u32, rows: u32, columns: u32) -> int {
    matrix_count * (rows * (columns as int / 2))
}

/// The bytes of scales of a bank of matrices: each group of a row has one.
pub open spec fn scale_bytes(matrix_count: u32, rows: u32, columns: u32, group_size: u32) -> int {
    matrix_count * (rows * (columns as int / group_size as int))
}

impl MicrofloatMetadata {
    pub closed spec fn spec_encoding(self) -> MicrofloatEncoding {
        self.encoding
    }

    pub closed spec fn spec_matrix_count(self) -> u32 {
        self.matrix_count
    }

    pub closed spec fn spec_rows(self) -> u32 {
        self.rows
    }

    pub closed spec fn spec_columns(self) -> u32 {
        self.columns
    }

    pub open spec fn spec_group_size(self) -> u32 {
        self.spec_encoding().group_size()
    }

    /// The shape is not empty, each row is a whole number of groups, and the storage of the bank
    /// has a size.
    pub open spec fn wf(self) -> bool {
        &&& self.spec_encoding().wf()
        &&& self.spec_matrix_count() > 0
        &&& self.spec_rows() > 0
        &&& self.spec_columns() > 0
        &&& self.spec_columns() % self.spec_group_size() == 0
        &&& code_bytes(self.spec_matrix_count(), self.spec_rows(), self.spec_columns())
            <= usize::MAX
        &&& scale_bytes(
            self.spec_matrix_count(),
            self.spec_rows(),
            self.spec_columns(),
            self.spec_group_size(),
        ) <= usize::MAX
    }

    #[verifier::type_invariant]
    spec fn is_valid(self) -> bool {
        self.wf()
    }

    /// The metadata of one matrix.
    pub fn new(encoding: MicrofloatEncoding, rows: u32, columns: u32) -> (result: Result<
        MicrofloatMetadata,
        MicrofloatError,
    >)
        ensures
            is_bank(result, encoding, 1, rows, columns),
    {
        MicrofloatMetadata::bank(encoding, 1, rows, columns)
    }

    /// The metadata of `matrix_count` matrices that are stored one behind another.
    pub fn bank(
        encoding: MicrofloatEncoding,
        matrix_count: u32,
        rows: u32,
        columns: u32,
    ) -> (result: Result<MicrofloatMetadata, MicrofloatError>)
        ensures
            is_bank(result, encoding, matrix_count, rows, columns),
    {
        if matrix_count == 0 || rows == 0 || columns == 0 {
            return Err(MicrofloatError::EmptyShape);
        }
        let group_size: u32 = encoding.group_size();
        if columns % group_size != 0 {
            return Err(MicrofloatError::MisalignedColumns { columns, group_size });
        }
        let codes: Option<usize> = checked_product(
            matrix_count as usize,
            rows as usize,
            (columns / 2) as usize,
        );
        let scales: Option<usize> = checked_product(
            matrix_count as usize,
            rows as usize,
            (columns / group_size) as usize,
        );
        if codes.is_none() || scales.is_none() {
            return Err(MicrofloatError::SizeOverflow);
        }
        Ok(MicrofloatMetadata { encoding, matrix_count, rows, columns })
    }

    pub open spec fn spec_format(self) -> MicrofloatFormat {
        self.spec_encoding().format()
    }

    /// The format of the codes.
    #[verifier::when_used_as_spec(spec_format)]
    pub fn format(self) -> (format: MicrofloatFormat)
        ensures
            format == self.format(),
    {
        self.encoding.format()
    }

    pub open spec fn spec_bits(self) -> u32 {
        self.spec_encoding().bits()
    }

    /// The number of bits of a code.
    #[verifier::when_used_as_spec(spec_bits)]
    pub fn bits(self) -> (bits: u32)
        ensures
            bits == self.bits(),
    {
        self.encoding.bits()
    }

    /// The number of values that share a scale.
    #[verifier::when_used_as_spec(spec_group_size)]
    pub fn group_size(self) -> (group_size: u32)
        ensures
            group_size == self.group_size(),
            self.wf(),
    {
        proof {
            use_type_invariant(&self);
        }
        self.encoding.group_size()
    }

    /// The number of matrices.
    #[verifier::when_used_as_spec(spec_matrix_count)]
    pub fn matrix_count(self) -> (count: u32)
        ensures
            count == self.matrix_count(),
            self.wf(),
    {
        proof {
            use_type_invariant(&self);
        }
        self.matrix_count
    }

    /// The rows of a matrix.
    #[verifier::when_used_as_spec(spec_rows)]
    pub fn rows(self) -> (rows: u32)
        ensures
            rows == self.rows(),
    {
        self.rows
    }

    /// The columns of a matrix.
    #[verifier::when_used_as_spec(spec_columns)]
    pub fn columns(self) -> (columns: u32)
        ensures
            columns == self.columns(),
    {
        self.columns
    }

    /// The bytes of the codes of a row.
    pub fn code_row_stride(self) -> (stride: usize)
        ensures
            stride == self.columns() as int / 2,
    {
        self.columns as usize / 2
    }

    /// The bytes of the scales of a row.
    pub fn scale_row_stride(self) -> (stride: usize)
        ensures
            stride == self.columns() as int / self.group_size() as int,
    {
        self.columns as usize / self.group_size() as usize
    }

    /// The bytes of the codes of a matrix.
    pub fn code_matrix_stride(self) -> (stride: usize)
        ensures
            stride == code_bytes(1, self.rows(), self.columns()),
    {
        proof {
            use_type_invariant(&self);
            lemma_stride(self.matrix_count as int, self.rows * (self.columns as int / 2));
        }
        self.rows as usize * self.code_row_stride()
    }

    /// The bytes of the scales of a matrix.
    pub fn scale_matrix_stride(self) -> (stride: usize)
        ensures
            stride == scale_bytes(1, self.rows(), self.columns(), self.group_size()),
    {
        proof {
            use_type_invariant(&self);
            assert(0 <= self.rows * (self.columns as int / self.group_size() as int))
                by (nonlinear_arith)
                requires
                    self.rows >= 0,
                    self.columns as int / self.group_size() as int >= 0,
            ;
            lemma_stride(
                self.matrix_count as int,
                self.rows * (self.columns as int / self.group_size() as int),
            );
        }
        self.rows as usize * self.scale_row_stride()
    }

    /// The bytes that the codes of all matrices take.
    pub fn required_code_bytes(self) -> (bytes: usize)
        ensures
            bytes == code_bytes(self.matrix_count(), self.rows(), self.columns()),
    {
        proof {
            use_type_invariant(&self);
        }
        self.matrix_count as usize * self.code_matrix_stride()
    }

    /// The bytes that the scales of all matrices take.
    pub fn required_scale_bytes(self) -> (bytes: usize)
        ensures
            bytes == scale_bytes(
                self.matrix_count(),
                self.rows(),
                self.columns(),
                self.group_size(),
            ),
    {
        proof {
            use_type_invariant(&self);
        }
        self.matrix_count as usize * self.scale_matrix_stride()
    }
}

/// The outcome of describing a bank: its metadata, or the first reason against it.
pub open spec fn is_bank(
    result: Result<MicrofloatMetadata, MicrofloatError>,
    encoding: MicrofloatEncoding,
    matrix_count: u32,
    rows: u32,
    columns: u32,
) -> bool {
    let group_size = encoding.group_size();
    match result {
        Ok(metadata) => {
            &&& metadata.wf()
            &&& metadata.spec_encoding() == encoding
            &&& metadata.matrix_count() == matrix_count
            &&& metadata.rows() == rows
            &&& metadata.columns() == columns
        },
        Err(error) => if matrix_count == 0 || rows == 0 || columns == 0 {
            error == MicrofloatError::EmptyShape
        } else if columns % group_size != 0 {
            error == (MicrofloatError::MisalignedColumns { columns, group_size })
        } else {
            &&& error == MicrofloatError::SizeOverflow
            &&& code_bytes(matrix_count, rows, columns) > usize::MAX || scale_bytes(
                matrix_count,
                rows,
                columns,
                group_size,
            ) > usize::MAX
        },
    }
}

proof fn lemma_stride(count: int, stride: int)
    requires
        count > 0,
        stride >= 0,
    ensures
        stride <= count * stride,
        1 * stride == stride,
{
    assert(stride <= count * stride) by (nonlinear_arith)
        requires
            count > 0,
            stride >= 0,
    ;
}

/// The product of three sizes, where it has one.
fn checked_product(count: usize, rows: usize, stride: usize) -> (product: Option<usize>)
    requires
        count > 0,
    ensures
        product is Some <==> count * (rows * stride) <= usize::MAX,
        product matches Some(size) ==> size == count * (rows * stride),
{
    proof {
        assert(rows * stride >= 0) by (nonlinear_arith)
            requires
                rows >= 0,
                stride >= 0,
        ;
        lemma_stride(count as int, rows * stride);
    }
    match rows.checked_mul(stride) {
        Some(matrix) => count.checked_mul(matrix),
        None => None,
    }
}

/// The value of a four-bit E2M1 code in halves: its sign bit, two exponent bits and one mantissa
/// bit.
pub open spec fn e2m1_halves(code: u8) -> int {
    let magnitude = code % 8;
    let exponent = magnitude / 2;
    let mantissa = magnitude % 2;
    let halves: int = if exponent == 0 {
        mantissa as int
    } else if exponent == 1 {
        2 + mantissa
    } else if exponent == 2 {
        2 * (2 + mantissa)
    } else {
        4 * (2 + mantissa)
    };
    if code % 16 >= 8 {
        -halves
    } else {
        halves
    }
}

/// Decodes the low four bits of a byte as an E2M1 value, in halves.
pub fn decode_e2m1_halves(code: u8) -> (halves: i8)
    ensures
        halves == e2m1_halves(code),
{
    let magnitude: i8 = match code % 8 {
        0 => 0,
        1 => 1,
        2 => 2,
        3 => 3,
        4 => 4,
        5 => 6,
        6 => 8,
        _ => 12,
    };
    if code % 16 >= 8 {
        -magnitude
    } else {
        magnitude
    }
}

/// The single precision bit pattern of the scale that an E8M0 byte stands for: two to the power of
/// the byte less 127, which is subnormal for the byte zero and not a number for the byte 255.
pub open spec fn e8m0_bits(exponent: u8) -> int {
    if exponent == 0 {
        0x0040_0000
    } else if exponent == 255 {
        0x7fc0_0000
    } else {
        exponent * 0x0080_0000
    }
}

/// Decodes an E8M0 scale to the bit pattern of a single precision number.
pub fn decode_e8m0_bits(exponent: u8) -> (bits: u32)
    ensures
        bits == e8m0_bits(exponent),
{
    match exponent {
        0 => 0x0040_0000,
        255 => 0x7fc0_0000,
        _ => exponent as u32 * 0x0080_0000,
    }
}

/// Flipping the sign bit of a code negates its value.
pub proof fn law_sign_bit_negates(code: u8)
    requires
        code < 8,
    ensures
        e2m1_halves((code + 8) as u8) == -e2m1_halves(code),
{
}

/// Codes have four bits, and 16 or 32 of them share a scale.
pub proof fn law_encodings_have_whole_groups(
    format: MicrofloatFormat,
    bits: u32,
    group_size: u32,
    result: Result<MicrofloatEncoding, MicrofloatError>,
)
    requires
        call_ensures(MicrofloatEncoding::new, (format, bits, group_size), result),
    ensures
        result is Ok <==> bits == 4 && (group_size == 16 || group_size == 32),
        result matches Ok(encoding) ==> encoding.bits() == bits && encoding.group_size() == group_size
            && encoding.format() == format,
        result matches Err(MicrofloatError::UnsupportedBits { bits: refused, .. }) ==> refused == bits
            && bits != 4,
        result matches Err(MicrofloatError::UnsupportedGroupSize { group_size: refused, .. }) ==> refused
            == group_size && bits == 4,
{
}

/// The codes of a row take half a byte each and its groups one scale each; rows lie behind each other in a
/// matrix, and matrices in a bank.
pub proof fn law_strides_build_on_each_other(
    metadata: MicrofloatMetadata,
    code_row: usize,
    scale_row: usize,
    code_matrix: usize,
    scale_matrix: usize,
    codes: usize,
    scales: usize,
)
    requires
        metadata.wf(),
        call_ensures(MicrofloatMetadata::code_row_stride, (metadata,), code_row),
        call_ensures(MicrofloatMetadata::scale_row_stride, (metadata,), scale_row),
        call_ensures(MicrofloatMetadata::code_matrix_stride, (metadata,), code_matrix),
        call_ensures(MicrofloatMetadata::scale_matrix_stride, (metadata,), scale_matrix),
        call_ensures(MicrofloatMetadata::required_code_bytes, (metadata,), codes),
        call_ensures(MicrofloatMetadata::required_scale_bytes, (metadata,), scales),
    ensures
        8 * code_row == metadata.columns() * metadata.bits(),
        scale_row * metadata.group_size() == metadata.columns(),
        code_matrix == metadata.rows() * code_row,
        scale_matrix == metadata.rows() * scale_row,
        codes == metadata.matrix_count() * code_matrix,
        scales == metadata.matrix_count() * scale_matrix,
{
    let columns = metadata.columns() as int;
    assert(metadata.bits() == 4);
    if metadata.group_size() == 16 {
        assert(columns % 16 == 0 && scale_row == columns / 16);
    } else {
        assert(columns % 32 == 0 && scale_row == columns / 32);
    }
}

/// A bank is described exactly where it has matrices with rows and columns, its rows are whole groups, and
/// its codes and scales have a size.
pub proof fn law_banks_hold_whole_groups(
    encoding: MicrofloatEncoding,
    matrix_count: u32,
    rows: u32,
    columns: u32,
    result: Result<MicrofloatMetadata, MicrofloatError>,
)
    requires
        encoding.wf(),
        call_ensures(MicrofloatMetadata::bank, (encoding, matrix_count, rows, columns), result),
    ensures
        ({
            let size = encoding.group_size() as int;
            result is Ok <==> {
                &&& matrix_count > 0 && rows > 0 && columns > 0
                &&& columns as int % size == 0
                &&& matrix_count * (rows * (columns as int / 2)) <= usize::MAX
                &&& matrix_count * (rows * (columns as int / size)) <= usize::MAX
            }
        }),
        result matches Ok(metadata) ==> metadata.rows() == rows && metadata.columns() == columns
            && metadata.matrix_count() == matrix_count && metadata.group_size() == encoding.group_size()
            && metadata.bits() == 4,
        result matches Err(MicrofloatError::MisalignedColumns { columns: refused, group_size })
            ==> refused == columns && group_size == encoding.group_size() && columns % group_size != 0,
        result == Err::<MicrofloatMetadata, MicrofloatError>(MicrofloatError::EmptyShape)
            <==> matrix_count == 0 || rows == 0 || columns == 0,
{
}

/// One matrix is a bank of one.
pub proof fn law_matrix_is_a_bank_of_one(
    encoding: MicrofloatEncoding,
    rows: u32,
    columns: u32,
    matrix: Result<MicrofloatMetadata, MicrofloatError>,
)
    requires
        encoding.wf(),
        call_ensures(MicrofloatMetadata::new, (encoding, rows, columns), matrix),
    ensures
        matrix matches Ok(metadata) ==> metadata.matrix_count() == 1 && metadata.rows() == rows
            && metadata.columns() == columns && metadata.group_size() == encoding.group_size(),
        matrix is Ok ==> rows > 0 && columns as int % encoding.group_size() as int == 0,
{
}

proof fn lemma_magnitudes(code: u8)
    ensures
        ({
            let low = code as int % 16;
            let halves = if low % 8 < 4 {
                low % 8
            } else if low % 8 < 6 {
                2 * (low % 8 - 2)
            } else {
                4 * (low % 8 - 4)
            };
            e2m1_halves(code) == if low >= 8 {
                -halves
            } else {
                halves
            }
        }),
{
    let magnitude = code % 8;
    assert(magnitude == 0 || magnitude == 1 || magnitude == 2 || magnitude == 3 || magnitude == 4
        || magnitude == 5 || magnitude == 6 || magnitude == 7);
}

/// Of the eight magnitudes the first four are counted in halves, and every other one doubles the one two
/// before it; the fourth bit is the sign, and higher bits are not read.
pub proof fn law_codes_are_small_floats(code: u8, halves: i8, other: u8, other_halves: i8)
    requires
        call_ensures(decode_e2m1_halves, (code,), halves),
        call_ensures(decode_e2m1_halves, (other,), other_halves),
    ensures
        code < 4 ==> halves == code,
        2 <= code < 6 && other == code + 2 ==> other_halves == 2 * halves,
        code < 8 && other == code + 8 ==> other_halves == -halves,
        other as int % 16 == code as int % 16 ==> other_halves == halves,
        code < other < 8 ==> halves < other_halves,
{
    lemma_magnitudes(code);
    lemma_magnitudes(other);
}

/// The byte is the exponent of a power of two: one more doubles the scale. The lowest is half of the one
/// above it, below the normal numbers, and the highest is no number.
pub proof fn law_scales_are_powers_of_two(exponent: u8, bits: u32)
    requires
        call_ensures(decode_e8m0_bits, (exponent,), bits),
    ensures
        exponent > 0 ==> bits as int / 0x0080_0000 == exponent,
        0 < exponent < 255 ==> bits as int % 0x0080_0000 == 0,
        exponent == 0 ==> bits as int / 0x0080_0000 == 0 && 2 * (bits as int % 0x0080_0000) == 0x0080_0000,
        exponent == 255 ==> bits as int % 0x0080_0000 == 0x0040_0000,
{
}

/// A bank tells what it was described by.
pub proof fn law_banks_tell_their_extents(
    format: MicrofloatFormat,
    group_size: u32,
    encoding: MicrofloatEncoding,
    matrix_count: u32,
    rows: u32,
    columns: u32,
    bank: MicrofloatMetadata,
    told_format: MicrofloatFormat,
    told_size: u32,
    told_count: u32,
    told_rows: u32,
    told_columns: u32,
)
    requires
        call_ensures(
            MicrofloatEncoding::new,
            (format, 4, group_size),
            Ok::<MicrofloatEncoding, MicrofloatError>(encoding),
        ),
        call_ensures(
            MicrofloatMetadata::bank,
            (encoding, matrix_count, rows, columns),
            Ok::<MicrofloatMetadata, MicrofloatError>(bank),
        ),
        call_ensures(MicrofloatMetadata::format, (bank,), told_format),
        call_ensures(MicrofloatMetadata::group_size, (bank,), told_size),
        call_ensures(MicrofloatMetadata::matrix_count, (bank,), told_count),
        call_ensures(MicrofloatMetadata::rows, (bank,), told_rows),
        call_ensures(MicrofloatMetadata::columns, (bank,), told_columns),
    ensures
        told_format == format,
        told_size == group_size,
        told_count == matrix_count,
        told_rows == rows,
        told_columns == columns,
{
}

} // verus!
