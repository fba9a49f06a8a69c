//! The DXBC translators on instruction streams built by hand in the shapes
//! `fxc` emits, and on bytes that are no container.

use directx_shader_translate::chain::{chain_ids_fit, decode_chain_shape};
use directx_shader_translate::container::{ComponentSel, ShexInstruction, ShexKind, ShexOperand};
use directx_shader_translate::gemm::{translate_gemm2x2_instructions, translate_gemm2x2_shader, GEMM2X2_OPCODES};
use directx_shader_translate::graphics_shaders::{
    fixed_module, translate_fixed_instructions, translate_pixel_shader, translate_sprite_pixel_shader,
    translate_sprite_vertex_shader, translate_vertex_shader, FixedShape, ShaderStage,
};
use directx_shader_translate::med2d::{translate_med_predictor_2d_instructions, translate_med_predictor_2d_shader, MED2D_OPCODES};
use directx_shader_translate::spirv_gen::{
    decode_shader_shape, emit_spirv_for_kernel, translate_chain_instructions, translate_chain_shader, translate_shader,
    translate_shader_instructions, translate_vector_add_shader, last_shader_instructions, shex_instructions, BinaryOp, RegExpr,
    SpirvGenError, Unsupported,
};
use directx_shader_translate::container::{dxbc_scan_terminates, ChunkModel, ChunkTag};
use directx_shader_translate::{parse_dxbc, summarize_chunks, ParseProblem, TranslateError};

const TEMP: u32 = 0;
const INPUT: u32 = 1;
const OUTPUT: u32 = 2;
const IMMEDIATE32: u32 = 4;
const SAMPLER: u32 = 6;
const RESOURCE: u32 = 7;
const CBUFFER: u32 = 8;
const UAV: u32 = 30;
const THREAD_ID: u32 = 32;

fn opnd(reg_type: u32, components: ComponentSel, index: Option<u32>) -> ShexOperand {
    ShexOperand { reg_type, components, negate: false, indices: index.map(|i| vec![Some(i)]).unwrap_or_default(), immediates: vec![] }
}

fn neg(mut o: ShexOperand) -> ShexOperand {
    o.negate = true;
    o
}

fn ins(opcode: u32, kind: ShexKind, operands: Vec<ShexOperand>) -> ShexInstruction {
    ShexInstruction { opcode, kind, operands }
}

fn generic(opcode: u32, operands: Vec<ShexOperand>) -> ShexInstruction {
    ins(opcode, ShexKind::Generic, operands)
}

fn temp_w(r: u32, mask: u8) -> ShexOperand {
    opnd(TEMP, ComponentSel::Mask(mask), Some(r))
}

fn temp_r(r: u32, c: u8) -> ShexOperand {
    opnd(TEMP, ComponentSel::Scalar(c), Some(r))
}

fn uav(u: u32) -> ShexOperand {
    opnd(UAV, ComponentSel::Mask(15), Some(u))
}

fn tid() -> ShexOperand {
    opnd(THREAD_ID, ComponentSel::Scalar(0), None)
}

fn imm0() -> ShexOperand {
    ShexOperand { reg_type: IMMEDIATE32, components: ComponentSel::One, negate: false, indices: vec![], immediates: vec![0] }
}

fn declarations(uavs: &[u32], cbuffer: bool) -> Vec<ShexInstruction> {
    let mut v = vec![ins(106, ShexKind::GlobalFlags, vec![])];
    if cbuffer {
        v.push(ins(89, ShexKind::ConstantBuffer, vec![opnd(CBUFFER, ComponentSel::Swizzle([0, 1, 2, 3]), Some(0))]));
    }
    for &u in uavs {
        v.push(ins(158, ShexKind::UavStructured { stride: 4 }, vec![uav(u)]));
    }
    v.push(ins(95, ShexKind::Input { interpolation: None, system_value: None }, vec![opnd(THREAD_ID, ComponentSel::Mask(1), None)]));
    v.push(ins(104, ShexKind::Temps, vec![]));
    v.push(ins(155, ShexKind::ThreadGroup { x: 64, y: 1, z: 1 }, vec![]));
    v
}

fn load_into(r: u32, mask: u8, u: u32) -> ShexInstruction {
    generic(167, vec![temp_w(r, mask), tid(), imm0(), uav(u)])
}

fn store_from(u: u32, r: u32, c: u8) -> ShexInstruction {
    generic(168, vec![uav(u), tid(), imm0(), temp_r(r, c)])
}

/// `c[i] = a[i] op b[i]` as `fxc` writes it: the loads into `r0.x`, `r0.y`,
/// the operation into `r0.x` with the second loaded value first.
fn element_wise(opcode: u32, negate_first: bool, bounded: bool) -> Vec<ShexInstruction> {
    let mut v = declarations(&[0, 1, 2], bounded);
    if bounded {
        v.push(generic(79, vec![temp_w(0, 1), tid(), opnd(CBUFFER, ComponentSel::Scalar(0), Some(0))]));
        v.push(generic(31, vec![temp_r(0, 0)]));
    }
    v.push(load_into(0, 1, 0));
    v.push(load_into(0, 2, 1));
    let first = if negate_first { neg(temp_r(0, 1)) } else { temp_r(0, 1) };
    v.push(generic(opcode, vec![temp_w(0, 1), first, temp_r(0, 0)]));
    v.push(store_from(2, 0, 0));
    if bounded {
        v.push(generic(21, vec![]));
    }
    v.push(generic(62, vec![]));
    v
}

#[test]
fn rejects_garbage_bytes_honestly_instead_of_pretending_to_translate() {
    let garbage = [0u8; 16];
    assert!(translate_vector_add_shader(&garbage).is_err());
}

#[test]
fn graphics_translators_honestly_reject_garbage_bytes() {
    let garbage = [0u8; 16];
    assert!(translate_vertex_shader(&garbage).is_err());
    assert!(translate_pixel_shader(&garbage).is_err());
}

#[test]
fn gemm2x2_translator_honestly_rejects_garbage_bytes() {
    let garbage = [0u8; 16];
    assert!(translate_gemm2x2_shader(&garbage).is_err());
}

#[test]
fn chain_translator_honestly_rejects_garbage_bytes() {
    let garbage = [0u8; 16];
    assert!(translate_chain_shader(&garbage).is_err());
}

#[test]
fn rejects_garbage_bytes_that_are_not_a_dxbc_container() {
    let garbage = [0u8; 16];
    assert!(parse_dxbc(&garbage).is_err());
}

#[test]
fn garbage_is_no_container_for_every_translator() {
    let garbage = [0u8; 16];
    let no_container = SpirvGenError::Translate(TranslateError::Parse(ParseProblem::NoContainer));
    assert_eq!(translate_shader(&garbage).unwrap_err(), no_container);
    assert_eq!(translate_chain_shader(&garbage).unwrap_err(), no_container);
    assert_eq!(translate_sprite_vertex_shader(&garbage).unwrap_err(), no_container);
    assert_eq!(translate_sprite_pixel_shader(&garbage).unwrap_err(), no_container);
    assert_eq!(translate_gemm2x2_shader(&garbage).unwrap_err(), no_container);
    assert_eq!(translate_med_predictor_2d_shader(&garbage, 4, 4).unwrap_err(), no_container);
    assert_eq!(parse_dxbc(&garbage).unwrap_err(), TranslateError::Parse(ParseProblem::NoContainer));
}

#[test]
fn the_four_element_wise_shapes_translate() {
    for (opcode, negate, bounded, op) in [
        (0, false, false, BinaryOp::Add),
        (56, false, false, BinaryOp::Mul),
        (0, true, true, BinaryOp::Sub),
        (14, false, false, BinaryOp::Div),
        (56, true, false, BinaryOp::MulNeg),
    ] {
        let stream = element_wise(opcode, negate, bounded);
        let shape = decode_shader_shape(&stream).expect("the shape is there");
        assert_eq!(shape.op, op);
        assert_eq!(shape.bounds_check, bounded);
        assert_eq!((shape.uav_a, shape.uav_b, shape.uav_c), (0, 1, 2));
        let k = translate_shader_instructions(&stream).expect("it translates");
        assert_eq!(k.local_size, (64, 1, 1));
        assert_eq!(k.uav_bind_points, (0, 1, 2));
        assert_eq!(k.entry_point, "main");
        assert_eq!(k.spirv_words, emit_spirv_for_kernel((64, 1, 1), 0, 1, 2, op, bounded));
    }
}

#[test]
fn element_wise_shapes_refuse_what_they_do_not_have() {
    let mut stream = element_wise(0, false, false);
    stream.remove(stream.len() - 1);
    assert_eq!(decode_shader_shape(&stream), Err(Unsupported::NoReturn));

    let mut stream = element_wise(0, false, false);
    stream.insert(3, ins(158, ShexKind::UavStructured { stride: 8 }, vec![uav(3)]));
    assert_eq!(decode_shader_shape(&stream), Err(Unsupported::Stride(8)));

    let mut stream = element_wise(56, false, false);
    let n = stream.len();
    stream[n - 3].operands[1].negate = true;
    stream[n - 3].operands[2].negate = true;
    assert_eq!(decode_shader_shape(&stream), Err(Unsupported::BothSourcesNegated));

    let mut stream = element_wise(0, false, true);
    stream.retain(|i| i.opcode != 21);
    assert_eq!(decode_shader_shape(&stream), Err(Unsupported::PartialBoundsCheck));

    let stream = vec![generic(31, vec![])];
    assert_eq!(decode_shader_shape(&stream), Err(Unsupported::IfWithoutCompare));

    let stream = vec![generic(54, vec![])];
    assert_eq!(decode_shader_shape(&stream), Err(Unsupported::UnexpectedOpcode(54)));

    let stream = declarations(&[0, 1], false);
    assert_eq!(decode_shader_shape(&stream), Err(Unsupported::UavCount(2)));
    assert_eq!(
        translate_shader_instructions(&stream).unwrap_err(),
        SpirvGenError::UnsupportedShader(Unsupported::UavCount(2))
    );
}

fn chain_add_mul(bounded: bool) -> Vec<ShexInstruction> {
    // t = A + B; out = t * A, with the reload of A shared (as fxc does).
    let mut v = declarations(&[0, 1, 2], bounded);
    if bounded {
        v.push(generic(79, vec![temp_w(0, 8), tid(), opnd(CBUFFER, ComponentSel::Scalar(0), Some(0))]));
    }
    v.push(load_into(0, 1, 0));
    v.push(load_into(0, 2, 1));
    v.push(generic(0, vec![temp_w(0, 4), temp_r(0, 1), temp_r(0, 0)]));
    if bounded {
        v.push(generic(31, vec![temp_r(0, 3)]));
    }
    v.push(generic(56, vec![temp_w(0, 1), temp_r(0, 0), temp_r(0, 2)]));
    v.push(store_from(2, 0, 0));
    if bounded {
        v.push(generic(21, vec![]));
    }
    v.push(generic(62, vec![]));
    v
}

fn load(u: u32) -> RegExpr {
    RegExpr::Load(u)
}

fn bin(op: BinaryOp, l: RegExpr, r: RegExpr) -> RegExpr {
    RegExpr::BinOp(op, Box::new(l), Box::new(r))
}

#[test]
fn a_chain_of_two_operations_builds_its_tree() {
    for bounded in [false, true] {
        let stream = chain_add_mul(bounded);
        let shape = decode_chain_shape(&stream).expect("the chain is there");
        // (A + B) * A, with the operands of add and mul in source order.
        assert_eq!(shape.root, bin(BinaryOp::Mul, bin(BinaryOp::Add, load(0), load(1)), load(0)));
        assert_eq!(shape.write_uav, 2);
        assert_eq!(shape.bounds_check, bounded);
        let k = translate_chain_instructions(&stream).expect("it translates");
        assert_eq!(k.read_uav_bind_points, vec![0, 1, 0]);
        assert_eq!(k.write_uav_bind_point, 2);
        assert_eq!(k.bounds_check, bounded);
        assert_eq!(k.local_size, (64, 1, 1));
    }
}

#[test]
fn a_subtraction_then_division_chain_keeps_the_operand_order() {
    // t = A - B (add -B, A); out = t / A.
    let mut v = declarations(&[0, 1, 2], false);
    v.push(load_into(0, 1, 0));
    v.push(load_into(0, 2, 1));
    v.push(generic(0, vec![temp_w(0, 2), neg(temp_r(0, 1)), temp_r(0, 0)]));
    v.push(generic(14, vec![temp_w(0, 1), temp_r(0, 1), temp_r(0, 0)]));
    v.push(store_from(2, 0, 0));
    v.push(generic(62, vec![]));
    let shape = decode_chain_shape(&v).expect("the chain is there");
    assert_eq!(shape.root, bin(BinaryOp::Div, bin(BinaryOp::Sub, load(0), load(1)), load(0)));
}

#[test]
fn the_single_operation_shader_is_a_chain_too() {
    let stream = element_wise(0, false, false);
    let k = translate_chain_instructions(&stream).expect("one add is a chain of one");
    assert_eq!(k.read_uav_bind_points, vec![0, 1]);
    assert_eq!(k.write_uav_bind_point, 2);
    assert!(!k.bounds_check);
}

#[test]
fn chains_refuse_copies_undefined_temps_and_negated_mul() {
    let mut v = declarations(&[0, 1], false);
    v.push(load_into(0, 1, 0));
    v.push(store_from(1, 0, 0));
    v.push(generic(62, vec![]));
    assert!(matches!(decode_chain_shape(&v), Err(Unsupported::PlainCopy)));

    let mut v = declarations(&[0, 1], false);
    v.push(generic(0, vec![temp_w(0, 1), temp_r(0, 1), temp_r(0, 0)]));
    assert!(matches!(decode_chain_shape(&v), Err(Unsupported::UndefinedTemp(0, 1))));

    let mut v = declarations(&[0, 1], false);
    v.push(load_into(0, 1, 0));
    v.push(generic(56, vec![temp_w(0, 1), neg(temp_r(0, 0)), temp_r(0, 0)]));
    assert!(matches!(decode_chain_shape(&v), Err(Unsupported::NegatedOperand(56))));

    let mut v = declarations(&[0, 1], false);
    v.push(generic(167, vec![temp_w(0, 3), tid(), imm0(), uav(0)]));
    assert!(matches!(decode_chain_shape(&v), Err(Unsupported::NotTempComponent(167, 0))));

    let v = declarations(&[0], false);
    assert!(matches!(decode_chain_shape(&v), Err(Unsupported::TooFewUavs(1))));
}

fn input_decl(reg: u32, mask: u8, linear: bool) -> ShexInstruction {
    let interpolation = if linear { Some(b"linear".to_vec()) } else { None };
    ins(95, ShexKind::Input { interpolation, system_value: None }, vec![opnd(INPUT, ComponentSel::Mask(mask), Some(reg))])
}

fn output_decl(opcode: u32, reg: u32, mask: u8, position: bool) -> ShexInstruction {
    let system_value = if position { Some(b"position".to_vec()) } else { None };
    ins(opcode, ShexKind::Output { system_value }, vec![opnd(OUTPUT, ComponentSel::Mask(mask), Some(reg))])
}

fn mov(dst: u32, mask: u8, src: ShexOperand) -> ShexInstruction {
    generic(54, vec![opnd(OUTPUT, ComponentSel::Mask(mask), Some(dst)), src])
}

fn vertex_stream(uv: bool) -> Vec<ShexInstruction> {
    let m = if uv { 3 } else { 15 };
    vec![
        ins(106, ShexKind::GlobalFlags, vec![]),
        input_decl(0, 7, false),
        input_decl(1, m, false),
        output_decl(103, 0, 15, true),
        output_decl(101, 1, m, false),
        mov(0, 7, opnd(INPUT, ComponentSel::Swizzle([0, 1, 2, 0]), Some(0))),
        mov(
            0,
            8,
            ShexOperand { reg_type: IMMEDIATE32, components: ComponentSel::One, negate: false, indices: vec![], immediates: vec![0x3f80_0000] },
        ),
        mov(1, m, opnd(INPUT, ComponentSel::Swizzle([0, 1, 2, 3]), Some(1))),
        generic(62, vec![]),
    ]
}

fn pixel_stream() -> Vec<ShexInstruction> {
    vec![
        ins(106, ShexKind::GlobalFlags, vec![]),
        input_decl(1, 15, true),
        output_decl(101, 0, 15, false),
        mov(0, 15, opnd(INPUT, ComponentSel::Swizzle([0, 1, 2, 3]), Some(1))),
        generic(62, vec![]),
    ]
}

fn sprite_pixel_stream() -> Vec<ShexInstruction> {
    vec![
        ins(106, ShexKind::GlobalFlags, vec![]),
        ins(90, ShexKind::Sampler { mode: b"default".to_vec() }, vec![opnd(SAMPLER, ComponentSel::Zero, Some(0))]),
        ins(
            88,
            ShexKind::Resource { dimension: b"texture2d".to_vec(), return_type: [5, 5, 5, 5] },
            vec![opnd(RESOURCE, ComponentSel::Zero, Some(0))],
        ),
        input_decl(1, 3, true),
        output_decl(101, 0, 15, false),
        generic(
            69,
            vec![
                opnd(OUTPUT, ComponentSel::Mask(15), Some(0)),
                opnd(INPUT, ComponentSel::Swizzle([0, 1, 0, 0]), Some(1)),
                opnd(RESOURCE, ComponentSel::Swizzle([0, 1, 2, 3]), Some(0)),
                opnd(SAMPLER, ComponentSel::Zero, Some(0)),
            ],
        ),
        generic(62, vec![]),
    ]
}

#[test]
fn the_graphics_shapes_translate_to_their_modules() {
    let cases = [
        (FixedShape::TriangleVertex, vertex_stream(false), ShaderStage::Vertex),
        (FixedShape::TrianglePixel, pixel_stream(), ShaderStage::Fragment),
        (FixedShape::SpriteVertex, vertex_stream(true), ShaderStage::Vertex),
        (FixedShape::SpritePixel, sprite_pixel_stream(), ShaderStage::Fragment),
    ];
    for (shape, stream, stage) in cases {
        let k = translate_fixed_instructions(shape, &stream).expect("the stream is the shape");
        assert_eq!(k.stage, stage);
        assert_eq!(k.entry_point, "main");
        assert_eq!(k.spirv_words, fixed_module(shape));
    }
}

#[test]
fn vertex_and_pixel_shapes_refuse_each_other() {
    assert_eq!(
        translate_fixed_instructions(FixedShape::TriangleVertex, &pixel_stream()).unwrap_err(),
        SpirvGenError::UnsupportedShader(Unsupported::Mismatch(1))
    );
    assert_eq!(
        translate_fixed_instructions(FixedShape::TrianglePixel, &vertex_stream(false)).unwrap_err(),
        SpirvGenError::UnsupportedShader(Unsupported::Mismatch(1))
    );
    assert!(translate_fixed_instructions(FixedShape::SpriteVertex, &vertex_stream(false)).is_err());
    assert!(translate_fixed_instructions(FixedShape::TriangleVertex, &vertex_stream(true)).is_err());
    assert!(translate_fixed_instructions(FixedShape::SpritePixel, &pixel_stream()).is_err());
}

#[test]
fn compute_translators_refuse_every_graphics_stream() {
    for stream in [vertex_stream(false), vertex_stream(true), pixel_stream(), sprite_pixel_stream()] {
        assert!(translate_shader_instructions(&stream).is_err());
        assert!(translate_chain_instructions(&stream).is_err());
    }
    assert!(translate_fixed_instructions(FixedShape::SpriteVertex, &vertex_stream(true)).is_ok());
    assert!(translate_fixed_instructions(FixedShape::TrianglePixel, &sprite_pixel_stream()).is_err());
    assert!(translate_fixed_instructions(FixedShape::SpritePixel, &sprite_pixel_stream()).is_ok());
}

#[test]
fn fixed_shapes_report_short_and_long_streams() {
    let mut short = pixel_stream();
    short.truncate(3);
    assert_eq!(
        translate_fixed_instructions(FixedShape::TrianglePixel, &short).unwrap_err(),
        SpirvGenError::UnsupportedShader(Unsupported::TooShort(3))
    );
    let mut long = pixel_stream();
    long.push(generic(62, vec![]));
    assert_eq!(
        translate_fixed_instructions(FixedShape::TrianglePixel, &long).unwrap_err(),
        SpirvGenError::UnsupportedShader(Unsupported::TooLong)
    );
}

fn opcode_stream(uavs: &[u32], cbuffer: bool, tg: (u32, u32, u32), opcodes: &[u32]) -> Vec<ShexInstruction> {
    let mut v = vec![ins(106, ShexKind::GlobalFlags, vec![])];
    if cbuffer {
        v.push(ins(89, ShexKind::ConstantBuffer, vec![opnd(CBUFFER, ComponentSel::Swizzle([0, 1, 2, 3]), Some(0))]));
    }
    for &u in uavs {
        v.push(ins(158, ShexKind::UavStructured { stride: 4 }, vec![uav(u)]));
    }
    v.push(ins(95, ShexKind::Input { interpolation: None, system_value: None }, vec![opnd(THREAD_ID, ComponentSel::Mask(3), None)]));
    v.push(ins(104, ShexKind::Temps, vec![]));
    v.push(ins(155, ShexKind::ThreadGroup { x: tg.0, y: tg.1, z: tg.2 }, vec![]));
    for &o in opcodes {
        v.push(generic(o, vec![]));
    }
    v
}

#[test]
fn the_gemm2x2_shape_translates_and_refuses_other_sizes() {
    let stream = opcode_stream(&[0, 1, 2], false, (2, 2, 1), &GEMM2X2_OPCODES);
    let k = translate_gemm2x2_instructions(&stream).expect("the sequence is the product's");
    assert_eq!(k.uav_bind_points, (0, 1, 2));
    assert_eq!(k.local_size, (2, 2, 1));
    assert_eq!(k.spirv_words[0], 0x0723_0203);

    let stream = opcode_stream(&[0, 1, 2], false, (4, 4, 1), &GEMM2X2_OPCODES);
    assert_eq!(
        translate_gemm2x2_instructions(&stream).unwrap_err(),
        SpirvGenError::UnsupportedShader(Unsupported::ThreadGroup(4, 4, 1))
    );
    let element_wise_stream = element_wise(0, false, false);
    assert!(translate_gemm2x2_instructions(&element_wise_stream).is_err());
}

#[test]
fn the_med2d_shape_translates_with_the_image_size() {
    let stream = opcode_stream(&[0, 1], true, (64, 1, 1), &MED2D_OPCODES);
    let k = translate_med_predictor_2d_instructions(&stream, 20, 15).expect("the sequence is the predictor's");
    assert_eq!((k.image_uav, k.output_uav), (0, 1));
    assert_eq!(k.local_size, (64, 1, 1));
    let other = translate_med_predictor_2d_instructions(&stream, 21, 15).expect("the same shader");
    assert_ne!(k.spirv_words, other.spirv_words);

    let no_cbuffer = opcode_stream(&[0, 1], false, (64, 1, 1), &MED2D_OPCODES);
    assert_eq!(
        translate_med_predictor_2d_instructions(&no_cbuffer, 4, 4).unwrap_err(),
        SpirvGenError::UnsupportedShader(Unsupported::NoConstantBuffer)
    );
    let swapped = opcode_stream(&[1, 0], true, (64, 1, 1), &MED2D_OPCODES);
    assert_eq!(
        translate_med_predictor_2d_instructions(&swapped, 4, 4).unwrap_err(),
        SpirvGenError::UnsupportedShader(Unsupported::UavBindPoints)
    );
}

#[test]
fn a_container_summary_counts_chunks_and_the_last_program() {
    let chunks = vec![
        ChunkModel::Rdef,
        ChunkModel::InputSignature,
        ChunkModel::Shader(vec![generic(62, vec![])]),
        ChunkModel::Other,
        ChunkModel::Shader(element_wise(0, false, false)),
    ];
    let m = summarize_chunks(&chunks);
    assert_eq!(m.chunk_count, 5);
    assert!(m.has_resource_definitions);
    assert!(m.has_input_signature);
    assert!(!m.has_output_signature);
    assert_eq!(m.instruction_count, Some(12));
    let m = summarize_chunks(&[ChunkModel::OutputSignature]);
    assert_eq!(m.instruction_count, None);
    assert!(m.has_output_signature);
}

#[test]
fn the_last_shader_chunk_gives_the_instructions() {
    let chunks = vec![
        ChunkModel::Rdef,
        ChunkModel::Shader(vec![generic(62, vec![])]),
        ChunkModel::Other,
        ChunkModel::Shader(element_wise(0, false, false)),
        ChunkModel::OutputSignature,
    ];
    let ins = last_shader_instructions(chunks).unwrap();
    assert_eq!(ins.len(), 12);
    assert_eq!(ins[0].opcode, element_wise(0, false, false)[0].opcode);
    let none = last_shader_instructions(vec![ChunkModel::Rdef, ChunkModel::Other]).unwrap_err();
    assert_eq!(none, SpirvGenError::Translate(TranslateError::MissingChunk(ChunkTag::Shader)));
}

fn dxbc_header(total_size: u32, chunk_count: u32, len: usize) -> Vec<u8> {
    let mut b = b"DXBC".to_vec();
    b.extend_from_slice(&[0u8; 16]);
    b.extend_from_slice(&1u32.to_le_bytes());
    b.extend_from_slice(&total_size.to_le_bytes());
    b.extend_from_slice(&chunk_count.to_le_bytes());
    b.resize(len, 0);
    b
}

#[test]
fn the_dxbc_scan_check_refuses_headers_it_cannot_move_past() {
    assert!(dxbc_scan_terminates(&[0u8; 16]));
    assert!(dxbc_scan_terminates(&[0u8; 64]));
    assert!(!dxbc_scan_terminates(&dxbc_header(0, 0, 32)));
    // A zero size whose chunk table runs past the input: the header is refused and the scan stops.
    assert!(dxbc_scan_terminates(&dxbc_header(0, 1, 32)));
    assert!(!dxbc_scan_terminates(&dxbc_header(0, 1, 40)));
    assert!(!dxbc_scan_terminates(&dxbc_header(32, 1000, 64)));
    assert!(dxbc_scan_terminates(&dxbc_header(32, 0, 64)));
    assert!(dxbc_scan_terminates(&dxbc_header(100, 0, 64)));
    let mut two = dxbc_header(32, 0, 32);
    two.extend_from_slice(&dxbc_header(0, 0, 32));
    assert!(!dxbc_scan_terminates(&two));
    let empty = dxbc_header(32, 0, 32);
    assert_eq!(parse_dxbc(&empty).unwrap().chunk_count, 0);
    assert_eq!(
        shex_instructions(&empty).unwrap_err(),
        SpirvGenError::Translate(TranslateError::MissingChunk(ChunkTag::Shader))
    );
}

#[test]
fn a_missing_container_is_described() {
    assert_eq!(ParseProblem::NoContainer.message(), "no DXBC container found (magic mismatch or damaged data)");
}

#[test]
fn small_chain_expressions_fit_the_id_bound() {
    let e = RegExpr::BinOp(BinaryOp::Add, Box::new(RegExpr::Load(0)), Box::new(RegExpr::Load(1)));
    assert!(chain_ids_fit(&e, 2, false));
    assert!(chain_ids_fit(&e, 2, true));
}
