//! DXIL: value numbering, signed VBR constants, the thread-group size from
//! metadata, the vector-add instruction shape and garbage input.

use directx_shader_translate::dxil::{
    decode_signed_vbr, decode_vector_add_dxil_shape, find_numthreads_in_shader_properties, resolve_relative,
    resolve_dxil_calls_and_binop, resolve_vector_add_dxil_calls, extract_numthreads_from_metadata, DxilCallResolutionError,
    DxilInstruction, DxilNumThreadsError, DxilShapeError, DxilType, DxilValue, MetadataEntry, MissingPart,
};
use directx_shader_translate::dxil_module::{decode_vector_add_dxil, parse_dxil_container, DxilDecodeError, DxilParseError};
use directx_shader_translate::dxil_spirv::{
    translate_dxil_binary_op_to_spirv, translate_dxil_chain_to_spirv, translate_dxil_vector_add_to_spirv,
    DxilChainSpirvError, DxilSpirvError,
};

#[test]
fn resolve_relative_computes_absolute_index_from_current_value_count() {
    let values = vec![DxilValue::ConstantZero, DxilValue::ConstantInt { value: 42 }, DxilValue::ConstantUndef];
    assert_eq!(resolve_relative(&values, 3, 1), Some(&DxilValue::ConstantUndef));
    assert_eq!(resolve_relative(&values, 3, 3), Some(&DxilValue::ConstantZero));
    assert_eq!(resolve_relative(&values, 3, 0), None);
    assert_eq!(resolve_relative(&values, 3, 4), None);
}

#[test]
fn decode_signed_vbr_matches_llvm_sign_bit_convention() {
    assert_eq!(decode_signed_vbr(114), 57);
    assert_eq!(decode_signed_vbr(136), 68);
    assert_eq!(decode_signed_vbr(186), 93);
    assert_eq!(decode_signed_vbr(138), 69);
    assert_eq!(decode_signed_vbr(3), -1);
}

#[test]
fn finds_numthreads_pair_even_when_a_different_value_precedes_it() {
    let values = vec![
        DxilValue::Function { name: Some(b"main".to_vec()) },
        DxilValue::ConstantInt { value: 0 },
        DxilValue::ConstantInt { value: 4 },
        DxilValue::ConstantInt { value: 32 },
        DxilValue::ConstantInt { value: 8 },
        DxilValue::ConstantInt { value: 2 },
    ];
    let entries = vec![
        MetadataEntry::Value { value_ref: 1 },
        MetadataEntry::Value { value_ref: 1 },
        MetadataEntry::Value { value_ref: 2 },
        MetadataEntry::Value { value_ref: 3 },
        MetadataEntry::Value { value_ref: 4 },
        MetadataEntry::Value { value_ref: 5 },
        MetadataEntry::Node(vec![4, 5, 6]),
    ];
    let props_fields = vec![1, 2, 3, 7];
    let result = find_numthreads_in_shader_properties(&entries, &props_fields, &values)
        .expect("synthetic shader-properties pair scan must find the NumThreads tag");
    assert_eq!(result, (32, 8, 2));
}

#[test]
fn shape_matcher_honestly_rejects_unexpected_instruction_orderings() {
    let types = vec![DxilType::Float, DxilType::StructNamed { name: b"class.RWStructuredBuffer<float>".to_vec() }];
    let bad_instructions = vec![
        DxilInstruction::DeclareBlocks { basic_block_count: 1 },
        DxilInstruction::Call { fields: vec![] },
        DxilInstruction::BinOp { fields: vec![] },
        DxilInstruction::BinOp { fields: vec![] },
        DxilInstruction::Call { fields: vec![] },
        DxilInstruction::Ret,
    ];
    assert_eq!(decode_vector_add_dxil_shape(&types, &bad_instructions), Err(DxilShapeError::UnexpectedInstructionShape));

    let multi_block_instructions = vec![DxilInstruction::DeclareBlocks { basic_block_count: 2 }];
    assert_eq!(
        decode_vector_add_dxil_shape(&types, &multi_block_instructions),
        Err(DxilShapeError::UnsupportedBasicBlockCount(2))
    );

    let no_float_types = vec![DxilType::StructNamed { name: b"x".to_vec() }];
    let ok_instructions = vec![
        DxilInstruction::DeclareBlocks { basic_block_count: 1 },
        DxilInstruction::Call { fields: vec![] },
        DxilInstruction::BinOp { fields: vec![] },
        DxilInstruction::Call { fields: vec![] },
        DxilInstruction::Ret,
    ];
    assert_eq!(decode_vector_add_dxil_shape(&no_float_types, &ok_instructions), Err(DxilShapeError::NoFloatType));

    assert!(decode_vector_add_dxil_shape(&types, &ok_instructions).is_ok());
}

#[test]
fn rejects_non_dxbc_bytes() {
    let garbage = [0u8; 16];
    assert!(matches!(parse_dxil_container(&garbage), Err(DxilParseError::NotADxbcContainer)));
}

#[test]
fn the_vector_add_shape_counts_what_it_saw() {
    let types = vec![
        DxilType::Void,
        DxilType::Float,
        DxilType::StructNamed { name: b"class.RWStructuredBuffer<float>".to_vec() },
    ];
    let instructions = vec![
        DxilInstruction::DeclareBlocks { basic_block_count: 1 },
        DxilInstruction::Call { fields: vec![] },
        DxilInstruction::ExtractValue { fields: vec![] },
        DxilInstruction::BinOp { fields: vec![] },
        DxilInstruction::Call { fields: vec![] },
        DxilInstruction::Ret,
    ];
    let shape = decode_vector_add_dxil_shape(&types, &instructions).expect("the shape is there");
    assert_eq!(shape.float_type_index, 1);
    assert_eq!(shape.resource_struct_type_index, 2);
    assert_eq!(shape.call_count, 2);
    assert_eq!(shape.extract_value_count, 1);
    assert_eq!(shape.binop_count, 1);
}

#[test]
fn no_named_struct_is_refused() {
    let types = vec![DxilType::Float];
    let instructions = vec![DxilInstruction::DeclareBlocks { basic_block_count: 1 }, DxilInstruction::Ret];
    assert_eq!(decode_vector_add_dxil_shape(&types, &instructions), Err(DxilShapeError::NoNamedStructType));
}

#[test]
fn negative_signed_vbr_values() {
    assert_eq!(decode_signed_vbr(0), 0);
    assert_eq!(decode_signed_vbr(1), i64::MIN);
    assert_eq!(decode_signed_vbr(2), 1);
    assert_eq!(decode_signed_vbr(5), -2);
}

#[test]
fn numthreads_without_the_tag_is_refused() {
    let values = vec![DxilValue::ConstantInt { value: 0 }];
    let entries = vec![MetadataEntry::Value { value_ref: 0 }];
    assert_eq!(find_numthreads_in_shader_properties(&entries, &[1, 1], &values), Err(DxilNumThreadsError::NoNumThreadsTag));
}

#[test]
fn short_garbage_is_no_container_everywhere() {
    let garbage = [0u8; 16];
    assert!(matches!(
        resolve_dxil_calls_and_binop(&garbage),
        Err(DxilCallResolutionError::MissingBlock(MissingPart::Container))
    ));
    assert!(matches!(
        resolve_vector_add_dxil_calls(&garbage),
        Err(DxilCallResolutionError::MissingBlock(MissingPart::Container))
    ));
    assert_eq!(
        extract_numthreads_from_metadata(&garbage),
        Err(DxilNumThreadsError::MissingBlock(MissingPart::Container))
    );
    assert_eq!(decode_vector_add_dxil(&garbage), Err(DxilDecodeError::Missing(MissingPart::Container)));
    assert!(matches!(
        translate_dxil_binary_op_to_spirv(&garbage),
        Err(DxilSpirvError::CallResolution(DxilCallResolutionError::MissingBlock(MissingPart::Container)))
    ));
    assert!(matches!(
        translate_dxil_vector_add_to_spirv(&garbage),
        Err(DxilSpirvError::CallResolution(DxilCallResolutionError::MissingBlock(MissingPart::Container)))
    ));
    assert!(matches!(
        translate_dxil_chain_to_spirv(&garbage),
        Err(DxilChainSpirvError::CallResolution(DxilCallResolutionError::MissingBlock(MissingPart::Container)))
    ));
}

#[test]
fn a_ret_before_the_last_instruction_is_refused() {
    let types = vec![DxilType::Float, DxilType::StructNamed { name: b"class.RWStructuredBuffer<float>".to_vec() }];
    let early_ret = vec![
        DxilInstruction::DeclareBlocks { basic_block_count: 1 },
        DxilInstruction::Call { fields: vec![] },
        DxilInstruction::Ret,
        DxilInstruction::BinOp { fields: vec![] },
        DxilInstruction::Call { fields: vec![] },
        DxilInstruction::Ret,
    ];
    assert_eq!(decode_vector_add_dxil_shape(&types, &early_ret), Err(DxilShapeError::UnexpectedInstructionShape));
    let two_rets = vec![
        DxilInstruction::DeclareBlocks { basic_block_count: 1 },
        DxilInstruction::Call { fields: vec![] },
        DxilInstruction::BinOp { fields: vec![] },
        DxilInstruction::Call { fields: vec![] },
        DxilInstruction::Ret,
        DxilInstruction::Ret,
    ];
    assert_eq!(decode_vector_add_dxil_shape(&types, &two_rets), Err(DxilShapeError::UnexpectedInstructionShape));
}
