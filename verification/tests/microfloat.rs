//! Four-bit floats and the matrices that hold them.
use uzu_engine::backends::common::matmul::arguments::MatmulB;
use uzu_engine::backends::common::microfloat::{
    MicrofloatEncoding, MicrofloatError, MicrofloatFormat, MicrofloatMetadata, decode_e2m1_halves,
    decode_e8m0_bits,
};
use uzu_engine::config::weight_matrix::{
    AnyWeightMatrixSpec, FullPrecisionSpec, IntSpec, Layout, MicrofloatScaleMode, MicrofloatSpec,
    MlxSpec,
};
use uzu_engine::backends::common::gpu_types::quantization::{QuantizationMethod, QuantizationMode};
use uzu_engine::data_type::DataType;
use uzu_engine::encodable_block::weight_matrix::{
    TensorName, TensorShape, WeightMatrix, WeightMatrixError, WeightPlan, WeightTensors, parse_spec,
    physical_shape, plan_load,
};

fn decode_e2m1(code: u8) -> f32 {
    decode_e2m1_halves(code) as f32 / 2.0
}

fn decode_e8m0(exponent: u8) -> f32 {
    f32::from_bits(decode_e8m0_bits(exponent))
}

#[test]
fn decodes_e2m1_and_e8m0_edges() {
    let expected = [0.0f32, 0.5, 1.0, 1.5, 2.0, 3.0, 4.0, 6.0];
    for (code, value) in expected.into_iter().enumerate() {
        assert_eq!(decode_e2m1(code as u8), value);
        assert_eq!(decode_e2m1(code as u8 | 0b1000), -value);
    }
    assert_eq!(decode_e8m0(0).to_bits(), 0x0040_0000);
    assert_eq!(decode_e8m0(127), 1.0);
    assert!(decode_e8m0(255).is_nan());
}

#[test]
fn validates_supported_mxfp4_encodings() {
    for group_size in [16, 32] {
        let encoding = MicrofloatEncoding::new(MicrofloatFormat::Mxfp4, 4, group_size)
            .expect("supported MXFP4 encoding");
        let metadata =
            MicrofloatMetadata::new(encoding, 3, 32).expect("supported MXFP4 metadata");
        assert_eq!(metadata.required_code_bytes(), 48);
        assert_eq!(metadata.required_scale_bytes(), 3 * 32 / group_size as usize);
    }
    assert!(matches!(
        MicrofloatEncoding::new(MicrofloatFormat::Mxfp4, 8, 16),
        Err(MicrofloatError::UnsupportedBits { bits: 8, .. })
    ));
}

#[test]
fn refuses_matrices_that_do_not_split_into_groups() {
    assert!(matches!(
        MicrofloatEncoding::new(MicrofloatFormat::Mxfp4, 4, 8),
        Err(MicrofloatError::UnsupportedGroupSize { group_size: 8, .. })
    ));
    let encoding = MicrofloatEncoding::new(MicrofloatFormat::Mxfp4, 4, 16).unwrap();
    assert!(matches!(MicrofloatMetadata::new(encoding, 0, 32), Err(MicrofloatError::EmptyShape)));
    assert!(matches!(
        MicrofloatMetadata::new(encoding, 2, 24),
        Err(MicrofloatError::MisalignedColumns { columns: 24, group_size: 16 })
    ));
    let bank = MicrofloatMetadata::bank(encoding, 3, 2, 32).unwrap();
    assert_eq!(bank.code_row_stride(), 16);
    assert_eq!(bank.code_matrix_stride(), 32);
    assert_eq!(bank.required_code_bytes(), 96);
    assert_eq!(bank.scale_row_stride(), 2);
    assert_eq!(bank.required_scale_bytes(), 12);
}

fn dense_mxfp4() -> AnyWeightMatrixSpec {
    AnyWeightMatrixSpec::MicrofloatSpec(MicrofloatSpec {
        bits: 4,
        group_size: 16,
        scale_mode: MicrofloatScaleMode::Mxfp4,
        layout: Layout::OutputInput,
    })
}

#[test]
fn loads_dense_mxfp4_storage() {
    let plan = plan_load(&dense_mxfp4(), Layout::OutputInput, 2, 32, DataType::BF16)
        .expect("load dense MXFP4 matrix");
    let WeightPlan::Microfloat { values, scales, outer_scales, .. } = &plan else {
        panic!("dense MXFP4 plan did not preserve its format");
    };
    assert_eq!(values.shape, TensorShape::Matrix { rows: 2, columns: 16 });
    assert_eq!(values.data_type, DataType::U8);
    assert_eq!(scales.shape, TensorShape::Matrix { rows: 2, columns: 2 });
    assert_eq!(outer_scales.name.text(), "global_scale");
    assert_eq!(outer_scales.data_type, DataType::BF16);

    let codes: Vec<u8> = (0..32).map(|index| 0x10 | (index % 8) as u8).collect();
    let matrix = WeightMatrix::load(
        &plan,
        WeightTensors {
            values: codes.clone(),
            scales: vec![126, 127, 128, 126],
            correction: Vec::new(),
            outer_scales: vec![0x40, 0x3f],
        },
    );
    assert_eq!(matrix.values(), &codes[..]);
    let MatmulB::Microfloat { metadata, .. } = matrix.matmul_b() else {
        panic!("dense MXFP4 matrix did not preserve its operand format");
    };
    assert_eq!(metadata.rows(), 2);
    assert_eq!(metadata.columns(), 32);
}

#[test]
fn specs_name_the_format_of_weights() {
    let int = |bits: u32, is_symmetric: bool| {
        AnyWeightMatrixSpec::IntSpec(IntSpec {
            bits,
            group_size: 32,
            is_symmetric,
            layout: Layout::OutputInput,
        })
    };
    let parsed = parse_spec(&int(4, false)).unwrap().quantization.unwrap();
    assert_eq!(parsed.mode, QuantizationMode::U4);
    assert_eq!(parsed.method, QuantizationMethod::ScaleZeroPoint);
    let parsed = parse_spec(&int(8, true)).unwrap().quantization.unwrap();
    assert_eq!(parsed.mode, QuantizationMode::U8);
    assert_eq!(parsed.method, QuantizationMethod::ScaleSymmetric);
    let mlx = AnyWeightMatrixSpec::MLXSpec(MlxSpec {
        bits: 4,
        group_size: 64,
        layout: Layout::OutputInput,
    });
    assert_eq!(
        parse_spec(&mlx).unwrap().quantization.unwrap().method,
        QuantizationMethod::ScaleBias
    );
    let full = AnyWeightMatrixSpec::FullPrecisionSpec(FullPrecisionSpec::output_input());
    assert!(parse_spec(&full).unwrap().quantization.is_none());
    assert!(matches!(
        parse_spec(&int(3, false)),
        Err(WeightMatrixError::UnsupportedBits { bits: 3, group_size: 32, .. })
    ));
    assert!(matches!(
        parse_spec(&AnyWeightMatrixSpec::Unsupported { description: "GGUF".to_string() }),
        Err(WeightMatrixError::UnsupportedStorage { .. })
    ));
}

#[test]
fn layouts_and_packing_are_checked_before_loading() {
    assert_eq!(physical_shape(Layout::OutputInput, 3, 5), (3, 5));
    assert_eq!(physical_shape(Layout::InputOutput, 3, 5), (5, 3));
    assert!(matches!(
        plan_load(&dense_mxfp4(), Layout::InputOutput, 2, 32, DataType::BF16),
        Err(WeightMatrixError::LayoutMismatch {
            expected: Layout::InputOutput,
            actual: Layout::OutputInput
        })
    ));
    let odd = AnyWeightMatrixSpec::IntSpec(IntSpec {
        bits: 4,
        group_size: 3,
        is_symmetric: true,
        layout: Layout::OutputInput,
    });
    assert!(matches!(
        plan_load(&odd, Layout::OutputInput, 2, 3, DataType::BF16),
        Err(WeightMatrixError::UnpackedColumns { columns: 3, packing_divisor: 2 })
    ));
}

#[test]
fn codes_become_signed_and_change_no_other_bit() {
    let spec = AnyWeightMatrixSpec::IntSpec(IntSpec {
        bits: 4,
        group_size: 2,
        is_symmetric: true,
        layout: Layout::OutputInput,
    });
    let plan = plan_load(&spec, Layout::OutputInput, 1, 4, DataType::BF16).unwrap();
    let mut matrix = WeightMatrix::load(
        &plan,
        WeightTensors {
            values: vec![0x80, 0x1f],
            scales: vec![0; 4],
            correction: Vec::new(),
            outer_scales: Vec::new(),
        },
    );
    assert!(matches!(
        matrix.matmul_b(),
        MatmulB::ScaleSymmetricDequant { signed_codes: false, .. }
    ));
    matrix.make_codes_signed();
    assert_eq!(matrix.values(), &[0x08, 0x97]);
    assert!(matches!(
        matrix.matmul_b(),
        MatmulB::ScaleSymmetricDequant { signed_codes: true, .. }
    ));
}

#[test]
fn messages_say_what_is_wrong() {
    let error = WeightMatrixError::LayoutMismatch {
        expected: Layout::OutputInput,
        actual: Layout::InputOutput,
    };
    assert!(!error.message().is_empty());
    assert_ne!(error.message(), WeightMatrixError::EmptyGroups.message());
    assert_eq!(TensorName::Weights.text(), "weights");
}
