//! Vertex and pixel shaders whose instruction streams are fixed: the
//! pass-through triangle shaders and the textured sprite shaders. Each
//! instruction is checked in turn; a match yields the fixed SPIR-V module.

use vstd::prelude::*;
use crate::container::{
    ComponentSel, ShexInstruction, ShexKind, ShexOperand, OP_DCL_OUTPUT_SIV, REG_IMMEDIATE32, REG_INPUT, REG_OUTPUT,
    REG_RESOURCE, REG_SAMPLER, RETURN_FLOAT,
};
use crate::spirv_gen::{
    compute_scan, compute_shape, first_index, first_index_exec, shex_instructions, SpirvGenError, Unsupported,
};
use crate::chain::{chain_scan, chain_shape};
use crate::spirv_module::{template_module, template_module_words};
use crate::spirv_templates::{
    PIXEL_TEMPLATE, PIXEL_TEMPLATE_BOUND, SPRITE_PIXEL_TEMPLATE, SPRITE_PIXEL_TEMPLATE_BOUND, SPRITE_VERTEX_TEMPLATE,
    SPRITE_VERTEX_TEMPLATE_BOUND, VERTEX_TEMPLATE, VERTEX_TEMPLATE_BOUND,
};
use crate::{ParseProblem, TranslateError};

verus! {

/// The pipeline stage of a graphics shader.
#[derive(Debug, Clone, Copy, PartialEq, Eq)]
pub enum ShaderStage {
    Vertex,
    Fragment,
}

/// A translated graphics shader.
#[derive(Debug)]
pub struct GraphicsTranslatedKernel {
    pub spirv_words: Vec<u32>,
    /// The entry point's name (always `"main"`).
    pub entry_point: &'static str,
    pub stage: ShaderStage,
}

/// The four fixed instruction streams.
#[derive(Debug, Clone, Copy, PartialEq, Eq)]
pub enum FixedShape {
    /// Position (`v0.xyz`) and colour (`v1`) passed through, `w = 1`.
    TriangleVertex,
    /// Colour (`v1`, linear) passed through.
    TrianglePixel,
    /// Position (`v0.xyz`) and texture coordinate (`v1.xy`) passed
    /// through, `w = 1`.
    SpriteVertex,
    /// `t0` sampled with `s0` at the texture coordinate (`v1.xy`).
    SpritePixel,
}

/// The bytes of `"position"`.
pub open spec fn position_text() -> Seq<u8> {
    seq![112u8, 111u8, 115u8, 105u8, 116u8, 105u8, 111u8, 110u8]
}

/// The bytes of `"linear"`.
pub open spec fn linear_text() -> Seq<u8> {
    seq![108u8, 105u8, 110u8, 101u8, 97u8, 114u8]
}

/// The bytes of `"default"`.
pub open spec fn default_text() -> Seq<u8> {
    seq![100u8, 101u8, 102u8, 97u8, 117u8, 108u8, 116u8]
}

/// The bytes of `"texture2d"`.
pub open spec fn texture2d_text() -> Seq<u8> {
    seq![116u8, 101u8, 120u8, 116u8, 117u8, 114u8, 101u8, 50u8, 100u8]
}

/// Whether an operand is register `index` of register file `reg`.
pub open spec fn is_reg(op: ShexOperand, reg: u32, index: u32) -> bool {
    op.reg_type == reg && first_index(op) == Some(index)
}

/// Whether an operand is register `index` of `reg` with write mask `mask`.
pub open spec fn is_masked(op: ShexOperand, reg: u32, index: u32, mask: u8) -> bool {
    is_reg(op, reg, index) && op.components == ComponentSel::Mask(mask)
}

/// The first operand of a declaration, where there is one.
pub open spec fn decl_operand(ins: ShexInstruction) -> Option<ShexOperand> {
    if ins.operands@.len() > 0 {
        Some(ins.operands@[0])
    } else {
        None
    }
}

/// Whether the instruction is a `dcl_globalFlags`.
pub open spec fn is_global_flags(ins: ShexInstruction) -> bool {
    ins.kind is GlobalFlags
}

/// Whether the instruction is a `dcl_input` of `v{index}` with `mask`
/// (and, where `linear`, linear interpolation).
pub open spec fn is_input_decl(ins: ShexInstruction, index: u32, mask: u8, linear: bool) -> bool {
    match ins.kind {
        ShexKind::Input { interpolation, .. } => {
            &&& (linear ==> (interpolation matches Some(t) && t@ == linear_text()))
            &&& (decl_operand(ins) matches Some(o) && is_masked(o, REG_INPUT, index, mask))
        },
        _ => false,
    }
}

/// Whether the instruction is the `dcl_output_siv o0, position` (where
/// `siv_opcode`, also by its opcode).
pub open spec fn is_position_output(ins: ShexInstruction, siv_opcode: bool) -> bool {
    match ins.kind {
        ShexKind::Output { system_value } => {
            &&& (siv_opcode ==> ins.opcode == OP_DCL_OUTPUT_SIV)
            &&& (system_value matches Some(t) && t@ == position_text())
            &&& (decl_operand(ins) matches Some(o) && is_reg(o, REG_OUTPUT, 0))
        },
        _ => false,
    }
}

/// Whether the instruction is a `dcl_output o{index}` with no system value
/// (and, where `mask` is given, that write mask).
pub open spec fn is_plain_output(ins: ShexInstruction, index: u32, mask: Option<u8>, no_system_value: bool) -> bool {
    match ins.kind {
        ShexKind::Output { system_value } => {
            &&& (no_system_value ==> system_value is None)
            &&& (decl_operand(ins) matches Some(o) && is_reg(o, REG_OUTPUT, index) && (mask matches Some(m) ==> o.components
                == ComponentSel::Mask(m)))
        },
        _ => false,
    }
}

/// Whether the instruction is an instruction (not a declaration) with this
/// many operands.
pub open spec fn is_generic(ins: ShexInstruction, n: int) -> bool {
    ins.kind is Generic && ins.operands@.len() == n
}

/// Whether the instruction moves `v{src}` into `o{dst}` with `mask`.
pub open spec fn is_move(ins: ShexInstruction, dst: u32, mask: u8, src: u32) -> bool {
    is_generic(ins, 2) && is_masked(ins.operands@[0], REG_OUTPUT, dst, mask) && is_reg(ins.operands@[1], REG_INPUT, src)
}

/// Whether the instruction moves `l(1.0)` into `o0.w`.
pub open spec fn is_move_one_to_w(ins: ShexInstruction) -> bool {
    &&& is_generic(ins, 2)
    &&& is_masked(ins.operands@[0], REG_OUTPUT, 0, 8)
    &&& ins.operands@[1].reg_type == REG_IMMEDIATE32
    &&& ins.operands@[1].immediates@.len() > 0
    &&& ins.operands@[1].immediates@[0] == 0x3f80_0000u32
}

/// Whether the instruction is the `dcl_sampler s0, mode_default`.
pub open spec fn is_sampler_decl(ins: ShexInstruction) -> bool {
    match ins.kind {
        ShexKind::Sampler { mode } => mode@ == default_text() && (decl_operand(ins) matches Some(o) && is_reg(
            o,
            REG_SAMPLER,
            0,
        )),
        _ => false,
    }
}

/// Whether the instruction is the `dcl_resource_texture2d (float, float,
/// float, float) t0`.
pub open spec fn is_texture_decl(ins: ShexInstruction) -> bool {
    match ins.kind {
        ShexKind::Resource { dimension, return_type } => {
            &&& dimension@ == texture2d_text()
            &&& return_type[0] == RETURN_FLOAT && return_type[1] == RETURN_FLOAT
            &&& return_type[2] == RETURN_FLOAT && return_type[3] == RETURN_FLOAT
            &&& (decl_operand(ins) matches Some(o) && is_reg(o, REG_RESOURCE, 0))
        },
        _ => false,
    }
}

/// Whether the instruction is `sample o0, v1, t0, s0`.
pub open spec fn is_sample(ins: ShexInstruction) -> bool {
    &&& is_generic(ins, 4)
    &&& is_reg(ins.operands@[0], REG_OUTPUT, 0)
    &&& is_reg(ins.operands@[1], REG_INPUT, 1)
    &&& is_reg(ins.operands@[2], REG_RESOURCE, 0)
    &&& is_reg(ins.operands@[3], REG_SAMPLER, 0)
}

/// The number of instructions of a fixed shape.
pub open spec fn fixed_len(f: FixedShape) -> int {
    match f {
        FixedShape::TriangleVertex => 9,
        FixedShape::TrianglePixel => 5,
        FixedShape::SpriteVertex => 9,
        FixedShape::SpritePixel => 7,
    }
}

/// Whether instruction `k` of a stream is the one the fixed shape has
/// there.
pub open spec fn fixed_step(f: FixedShape, k: int, ins: ShexInstruction) -> bool {
    match f {
        FixedShape::TriangleVertex => if k == 0 {
            is_global_flags(ins)
        } else if k == 1 {
            is_input_decl(ins, 0, 7, false)
        } else if k == 2 {
            is_input_decl(ins, 1, 15, false)
        } else if k == 3 {
            is_position_output(ins, true)
        } else if k == 4 {
            is_plain_output(ins, 1, None, true)
        } else if k == 5 {
            is_move(ins, 0, 7, 0)
        } else if k == 6 {
            is_move_one_to_w(ins)
        } else if k == 7 {
            is_move(ins, 1, 15, 1)
        } else {
            is_generic(ins, 0)
        },
        FixedShape::TrianglePixel => if k == 0 {
            is_global_flags(ins)
        } else if k == 1 {
            is_input_decl(ins, 1, 15, true)
        } else if k == 2 {
            is_plain_output(ins, 0, Some(15u8), false)
        } else if k == 3 {
            is_move(ins, 0, 15, 1)
        } else {
            is_generic(ins, 0)
        },
        FixedShape::SpriteVertex => if k == 0 {
            is_global_flags(ins)
        } else if k == 1 {
            is_input_decl(ins, 0, 7, false)
        } else if k == 2 {
            is_input_decl(ins, 1, 3, false)
        } else if k == 3 {
            is_position_output(ins, false)
        } else if k == 4 {
            is_plain_output(ins, 1, Some(3u8), true)
        } else if k == 5 {
            is_move(ins, 0, 7, 0)
        } else if k == 6 {
            is_move_one_to_w(ins)
        } else if k == 7 {
            is_move(ins, 1, 3, 1)
        } else {
            is_generic(ins, 0)
        },
        FixedShape::SpritePixel => if k == 0 {
            is_global_flags(ins)
        } else if k == 1 {
            is_sampler_decl(ins)
        } else if k == 2 {
            is_texture_decl(ins)
        } else if k == 3 {
            is_input_decl(ins, 1, 3, true)
        } else if k == 4 {
            is_plain_output(ins, 0, Some(15u8), false)
        } else if k == 5 {
            is_sample(ins)
        } else {
            is_generic(ins, 0)
        },
    }
}

/// The check of a fixed shape from instruction `k` on: the first position
/// where the stream ends early or differs, or a stream longer than the
/// shape.
pub open spec fn fixed_check_from(f: FixedShape, ins: Seq<ShexInstruction>, k: int) -> Result<(), Unsupported>
    decreases fixed_len(f) - k,
{
    if k < 0 || k >= fixed_len(f) {
        if ins.len() > fixed_len(f) {
            Err(Unsupported::TooLong)
        } else {
            Ok(())
        }
    } else if k >= ins.len() {
        Err(Unsupported::TooShort(k as usize))
    } else if !fixed_step(f, k, ins[k]) {
        Err(Unsupported::Mismatch(k as usize))
    } else {
        fixed_check_from(f, ins, k + 1)
    }
}

/// The check of a fixed shape.
pub open spec fn fixed_check(f: FixedShape, ins: Seq<ShexInstruction>) -> Result<(), Unsupported> {
    fixed_check_from(f, ins, 0)
}

fn text_is(t: &Vec<u8>, lit: Vec<u8>) -> (b: bool)
    ensures
        b == (t@ == lit@),
{
    crate::dxil::bytes_eq(t.as_slice(), lit.as_slice())
}

fn position_bytes() -> (r: Vec<u8>)
    ensures
        r@ == position_text(),
{
    let r: Vec<u8> = vec![112u8, 111u8, 115u8, 105u8, 116u8, 105u8, 111u8, 110u8];
    assert(r@ =~= position_text());
    r
}

fn linear_bytes() -> (r: Vec<u8>)
    ensures
        r@ == linear_text(),
{
    let r: Vec<u8> = vec![108u8, 105u8, 110u8, 101u8, 97u8, 114u8];
    assert(r@ =~= linear_text());
    r
}

fn default_bytes() -> (r: Vec<u8>)
    ensures
        r@ == default_text(),
{
    let r: Vec<u8> = vec![100u8, 101u8, 102u8, 97u8, 117u8, 108u8, 116u8];
    assert(r@ =~= default_text());
    r
}

fn texture2d_bytes() -> (r: Vec<u8>)
    ensures
        r@ == texture2d_text(),
{
    let r: Vec<u8> = vec![116u8, 101u8, 120u8, 116u8, 117u8, 114u8, 101u8, 50u8, 100u8];
    assert(r@ =~= texture2d_text());
    r
}

fn is_reg_exec(op: &ShexOperand, reg: u32, index: u32) -> (b: bool)
    ensures
        b == is_reg(*op, reg, index),
{
    op.reg_type == reg && match first_index_exec(op) {
        Some(i) => i == index,
        None => false,
    }
}

fn is_masked_exec(op: &ShexOperand, reg: u32, index: u32, mask: u8) -> (b: bool)
    ensures
        b == is_masked(*op, reg, index, mask),
{
    is_reg_exec(op, reg, index) && match op.components {
        ComponentSel::Mask(m) => m == mask,
        _ => false,
    }
}

fn is_input_decl_exec(ins: &ShexInstruction, index: u32, mask: u8, linear: bool) -> (b: bool)
    ensures
        b == is_input_decl(*ins, index, mask, linear),
{
    match &ins.kind {
        ShexKind::Input { interpolation, .. } => {
            let interp_ok = if linear {
                match interpolation {
                    Some(t) => text_is(t, linear_bytes()),
                    None => false,
                }
            } else {
                true
            };
            interp_ok && ins.operands.len() > 0 && is_masked_exec(&ins.operands[0], REG_INPUT, index, mask)
        },
        _ => false,
    }
}

fn is_position_output_exec(ins: &ShexInstruction, siv_opcode: bool) -> (b: bool)
    ensures
        b == is_position_output(*ins, siv_opcode),
{
    match &ins.kind {
        ShexKind::Output { system_value } => {
            let sv_ok = match system_value {
                Some(t) => text_is(t, position_bytes()),
                None => false,
            };
            (!siv_opcode || ins.opcode == OP_DCL_OUTPUT_SIV) && sv_ok && ins.operands.len() > 0 && is_reg_exec(
                &ins.operands[0],
                REG_OUTPUT,
                0,
            )
        },
        _ => false,
    }
}

fn is_plain_output_exec(ins: &ShexInstruction, index: u32, mask: Option<u8>, no_system_value: bool) -> (b: bool)
    ensures
        b == is_plain_output(*ins, index, mask, no_system_value),
{
    match &ins.kind {
        ShexKind::Output { system_value } => {
            if no_system_value && system_value.is_some() {
                return false;
            }
            if ins.operands.len() == 0 {
                return false;
            }
            let o = &ins.operands[0];
            is_reg_exec(o, REG_OUTPUT, index) && match mask {
                Some(m) => match o.components {
                    ComponentSel::Mask(c) => c == m,
                    _ => false,
                },
                None => true,
            }
        },
        _ => false,
    }
}

fn is_generic_exec(ins: &ShexInstruction, n: usize) -> (b: bool)
    ensures
        b == is_generic(*ins, n as int),
{
    match ins.kind {
        ShexKind::Generic => ins.operands.len() == n,
        _ => false,
    }
}

fn is_move_exec(ins: &ShexInstruction, dst: u32, mask: u8, src: u32) -> (b: bool)
    ensures
        b == is_move(*ins, dst, mask, src),
{
    is_generic_exec(ins, 2) && is_masked_exec(&ins.operands[0], REG_OUTPUT, dst, mask) && is_reg_exec(
        &ins.operands[1],
        REG_INPUT,
        src,
    )
}

fn is_move_one_to_w_exec(ins: &ShexInstruction) -> (b: bool)
    ensures
        b == is_move_one_to_w(*ins),
{
    is_generic_exec(ins, 2) && is_masked_exec(&ins.operands[0], REG_OUTPUT, 0, 8) && ins.operands[1].reg_type
        == REG_IMMEDIATE32 && ins.operands[1].immediates.len() > 0 && ins.operands[1].immediates[0] == 0x3f80_0000u32
}

fn is_sampler_decl_exec(ins: &ShexInstruction) -> (b: bool)
    ensures
        b == is_sampler_decl(*ins),
{
    match &ins.kind {
        ShexKind::Sampler { mode } => text_is(mode, default_bytes()) && ins.operands.len() > 0 && is_reg_exec(
            &ins.operands[0],
            REG_SAMPLER,
            0,
        ),
        _ => false,
    }
}

fn is_texture_decl_exec(ins: &ShexInstruction) -> (b: bool)
    ensures
        b == is_texture_decl(*ins),
{
    match &ins.kind {
        ShexKind::Resource { dimension, return_type } => {
            text_is(dimension, texture2d_bytes()) && return_type[0] == RETURN_FLOAT && return_type[1] == RETURN_FLOAT
                && return_type[2] == RETURN_FLOAT && return_type[3] == RETURN_FLOAT && ins.operands.len() > 0
                && is_reg_exec(&ins.operands[0], REG_RESOURCE, 0)
        },
        _ => false,
    }
}

fn is_sample_exec(ins: &ShexInstruction) -> (b: bool)
    ensures
        b == is_sample(*ins),
{
    is_generic_exec(ins, 4) && is_reg_exec(&ins.operands[0], REG_OUTPUT, 0) && is_reg_exec(&ins.operands[1], REG_INPUT, 1)
        && is_reg_exec(&ins.operands[2], REG_RESOURCE, 0) && is_reg_exec(&ins.operands[3], REG_SAMPLER, 0)
}

fn fixed_len_exec(f: FixedShape) -> (n: usize)
    ensures
        n == fixed_len(f),
{
    match f {
        FixedShape::TriangleVertex => 9,
        FixedShape::TrianglePixel => 5,
        FixedShape::SpriteVertex => 9,
        FixedShape::SpritePixel => 7,
    }
}

fn fixed_step_exec(f: FixedShape, k: usize, ins: &ShexInstruction) -> (b: bool)
    ensures
        b == fixed_step(f, k as int, *ins),
{
    let global_flags = match ins.kind {
        ShexKind::GlobalFlags => true,
        _ => false,
    };
    match f {
        FixedShape::TriangleVertex => if k == 0 {
            global_flags
        } else if k == 1 {
            is_input_decl_exec(ins, 0, 7, false)
        } else if k == 2 {
            is_input_decl_exec(ins, 1, 15, false)
        } else if k == 3 {
            is_position_output_exec(ins, true)
        } else if k == 4 {
            is_plain_output_exec(ins, 1, None, true)
        } else if k == 5 {
            is_move_exec(ins, 0, 7, 0)
        } else if k == 6 {
            is_move_one_to_w_exec(ins)
        } else if k == 7 {
            is_move_exec(ins, 1, 15, 1)
        } else {
            is_generic_exec(ins, 0)
        },
        FixedShape::TrianglePixel => if k == 0 {
            global_flags
        } else if k == 1 {
            is_input_decl_exec(ins, 1, 15, true)
        } else if k == 2 {
            is_plain_output_exec(ins, 0, Some(15u8), false)
        } else if k == 3 {
            is_move_exec(ins, 0, 15, 1)
        } else {
            is_generic_exec(ins, 0)
        },
        FixedShape::SpriteVertex => if k == 0 {
            global_flags
        } else if k == 1 {
            is_input_decl_exec(ins, 0, 7, false)
        } else if k == 2 {
            is_input_decl_exec(ins, 1, 3, false)
        } else if k == 3 {
            is_position_output_exec(ins, false)
        } else if k == 4 {
            is_plain_output_exec(ins, 1, Some(3u8), true)
        } else if k == 5 {
            is_move_exec(ins, 0, 7, 0)
        } else if k == 6 {
            is_move_one_to_w_exec(ins)
        } else if k == 7 {
            is_move_exec(ins, 1, 3, 1)
        } else {
            is_generic_exec(ins, 0)
        },
        FixedShape::SpritePixel => if k == 0 {
            global_flags
        } else if k == 1 {
            is_sampler_decl_exec(ins)
        } else if k == 2 {
            is_texture_decl_exec(ins)
        } else if k == 3 {
            is_input_decl_exec(ins, 1, 3, true)
        } else if k == 4 {
            is_plain_output_exec(ins, 0, Some(15u8), false)
        } else if k == 5 {
            is_sample_exec(ins)
        } else {
            is_generic_exec(ins, 0)
        },
    }
}

/// Checks an instruction stream against a fixed shape (see
/// [`fixed_check`]).
pub fn check_fixed_shape(f: FixedShape, instructions: &[ShexInstruction]) -> (r: Result<(), Unsupported>)
    ensures
        r == fixed_check(f, instructions@),
{
    let n = fixed_len_exec(f);
    let mut k: usize = 0;
    while k < n
        invariant
            k <= n,
            n == fixed_len(f),
            fixed_check(f, instructions@) == fixed_check_from(f, instructions@, k as int),
        decreases n - k,
    {
        if k >= instructions.len() {
            return Err(Unsupported::TooShort(k));
        }
        if !fixed_step_exec(f, k, &instructions[k]) {
            return Err(Unsupported::Mismatch(k));
        }
        k = k + 1;
    }
    if instructions.len() > n {
        Err(Unsupported::TooLong)
    } else {
        Ok(())
    }
}

/// The fixed module of a shape.
pub open spec fn fixed_module_words(f: FixedShape) -> Seq<u32> {
    match f {
        FixedShape::TriangleVertex => template_module_words(VERTEX_TEMPLATE@, Seq::empty(), VERTEX_TEMPLATE_BOUND),
        FixedShape::TrianglePixel => template_module_words(PIXEL_TEMPLATE@, Seq::empty(), PIXEL_TEMPLATE_BOUND),
        FixedShape::SpriteVertex => template_module_words(
            SPRITE_VERTEX_TEMPLATE@,
            Seq::empty(),
            SPRITE_VERTEX_TEMPLATE_BOUND,
        ),
        FixedShape::SpritePixel => template_module_words(
            SPRITE_PIXEL_TEMPLATE@,
            Seq::empty(),
            SPRITE_PIXEL_TEMPLATE_BOUND,
        ),
    }
}

/// The stage of a shape.
pub open spec fn fixed_stage(f: FixedShape) -> ShaderStage {
    match f {
        FixedShape::TriangleVertex | FixedShape::SpriteVertex => ShaderStage::Vertex,
        FixedShape::TrianglePixel | FixedShape::SpritePixel => ShaderStage::Fragment,
    }
}

/// Builds the fixed module of a shape.
pub fn fixed_module(f: FixedShape) -> (words: Vec<u32>)
    ensures
        words@ == fixed_module_words(f),
{
    let none: Vec<u32> = Vec::new();
    assert(none@ =~= Seq::<u32>::empty());
    match f {
        FixedShape::TriangleVertex => template_module(&VERTEX_TEMPLATE, none.as_slice(), VERTEX_TEMPLATE_BOUND),
        FixedShape::TrianglePixel => template_module(&PIXEL_TEMPLATE, none.as_slice(), PIXEL_TEMPLATE_BOUND),
        FixedShape::SpriteVertex => template_module(&SPRITE_VERTEX_TEMPLATE, none.as_slice(), SPRITE_VERTEX_TEMPLATE_BOUND),
        FixedShape::SpritePixel => template_module(&SPRITE_PIXEL_TEMPLATE, none.as_slice(), SPRITE_PIXEL_TEMPLATE_BOUND),
    }
}

/// The outcome of translating a graphics shader's instructions against a
/// fixed shape.
pub open spec fn graphics_translation_ok(f: FixedShape, ins: Seq<ShexInstruction>, r: Result<GraphicsTranslatedKernel, SpirvGenError>) -> bool {
    match fixed_check(f, ins) {
        Ok(_) => r matches Ok(k) && k.spirv_words@ == fixed_module_words(f) && k.entry_point@ == "main"@ && k.stage
            == fixed_stage(f),
        Err(e) => r == Err::<GraphicsTranslatedKernel, SpirvGenError>(SpirvGenError::UnsupportedShader(e)),
    }
}

/// Translates a graphics shader's instructions against a fixed shape.
pub fn translate_fixed_instructions(f: FixedShape, instructions: &[ShexInstruction]) -> (r: Result<
    GraphicsTranslatedKernel,
    SpirvGenError,
>)
    ensures
        graphics_translation_ok(f, instructions@, r),
{
    match check_fixed_shape(f, instructions) {
        Err(e) => Err(SpirvGenError::UnsupportedShader(e)),
        Ok(_) => {
            let stage = match f {
                FixedShape::TriangleVertex | FixedShape::SpriteVertex => ShaderStage::Vertex,
                FixedShape::TrianglePixel | FixedShape::SpritePixel => ShaderStage::Fragment,
            };
            Ok(GraphicsTranslatedKernel { spirv_words: fixed_module(f), entry_point: "main", stage })
        },
    }
}

/// Translates a DXBC graphics shader against a fixed shape: the
/// instructions of [`shex_instructions`] go through
/// [`translate_fixed_instructions`].
pub fn translate_fixed_shader(f: FixedShape, bytes: &[u8]) -> (r: Result<GraphicsTranslatedKernel, SpirvGenError>)
    requires
        crate::container::dxbc_scan_safe(bytes@),
    ensures
        bytes@.len() < 32 ==> r == Err::<GraphicsTranslatedKernel, SpirvGenError>(
            SpirvGenError::Translate(TranslateError::Parse(ParseProblem::NoContainer)),
        ),
        match crate::spirv_gen::shex_of(bytes@) {
            Err(e) => r matches Err(e2) && e2 == e,
            Ok(ins) => graphics_translation_ok(f, ins, r),
        },
{
    let instructions = match shex_instructions(bytes) {
        Ok(v) => v,
        Err(e) => {
            return Err(e);
        },
    };
    let r = translate_fixed_instructions(f, instructions.as_slice());
    assert(graphics_translation_ok(f, instructions@, r));
    r
}

/// Translates the pass-through triangle vertex shader.
pub fn translate_vertex_shader(bytes: &[u8]) -> (r: Result<GraphicsTranslatedKernel, SpirvGenError>)
    requires
        crate::container::dxbc_scan_safe(bytes@),
    ensures
        bytes@.len() < 32 ==> r == Err::<GraphicsTranslatedKernel, SpirvGenError>(
            SpirvGenError::Translate(TranslateError::Parse(ParseProblem::NoContainer)),
        ),
        match crate::spirv_gen::shex_of(bytes@) {
            Err(e) => r matches Err(e2) && e2 == e,
            Ok(ins) => graphics_translation_ok(FixedShape::TriangleVertex, ins, r),
        },
{
    translate_fixed_shader(FixedShape::TriangleVertex, bytes)
}

/// Translates the pass-through triangle pixel shader.
pub fn translate_pixel_shader(bytes: &[u8]) -> (r: Result<GraphicsTranslatedKernel, SpirvGenError>)
    requires
        crate::container::dxbc_scan_safe(bytes@),
    ensures
        bytes@.len() < 32 ==> r == Err::<GraphicsTranslatedKernel, SpirvGenError>(
            SpirvGenError::Translate(TranslateError::Parse(ParseProblem::NoContainer)),
        ),
        match crate::spirv_gen::shex_of(bytes@) {
            Err(e) => r matches Err(e2) && e2 == e,
            Ok(ins) => graphics_translation_ok(FixedShape::TrianglePixel, ins, r),
        },
{
    translate_fixed_shader(FixedShape::TrianglePixel, bytes)
}

/// Translates the sprite vertex shader.
pub fn translate_sprite_vertex_shader(bytes: &[u8]) -> (r: Result<GraphicsTranslatedKernel, SpirvGenError>)
    requires
        crate::container::dxbc_scan_safe(bytes@),
    ensures
        bytes@.len() < 32 ==> r == Err::<GraphicsTranslatedKernel, SpirvGenError>(
            SpirvGenError::Translate(TranslateError::Parse(ParseProblem::NoContainer)),
        ),
        match crate::spirv_gen::shex_of(bytes@) {
            Err(e) => r matches Err(e2) && e2 == e,
            Ok(ins) => graphics_translation_ok(FixedShape::SpriteVertex, ins, r),
        },
{
    translate_fixed_shader(FixedShape::SpriteVertex, bytes)
}

/// Translates the sprite pixel shader (texture sampling).
pub fn translate_sprite_pixel_shader(bytes: &[u8]) -> (r: Result<GraphicsTranslatedKernel, SpirvGenError>)
    requires
        crate::container::dxbc_scan_safe(bytes@),
    ensures
        bytes@.len() < 32 ==> r == Err::<GraphicsTranslatedKernel, SpirvGenError>(
            SpirvGenError::Translate(TranslateError::Parse(ParseProblem::NoContainer)),
        ),
        match crate::spirv_gen::shex_of(bytes@) {
            Err(e) => r matches Err(e2) && e2 == e,
            Ok(ins) => graphics_translation_ok(FixedShape::SpritePixel, ins, r),
        },
{
    translate_fixed_shader(FixedShape::SpritePixel, bytes)
}


proof fn lemma_fixed_check_from_ok(f: FixedShape, ins: Seq<ShexInstruction>, k: int)
    requires
        0 <= k <= fixed_len(f),
        fixed_check_from(f, ins, k) is Ok,
    ensures
        ins.len() <= fixed_len(f),
        k < fixed_len(f) ==> ins.len() == fixed_len(f),
        forall|j: int| k <= j < fixed_len(f) ==> #[trigger] fixed_step(f, j, ins[j]),
    decreases fixed_len(f) - k,
{
    if k < fixed_len(f) {
        lemma_fixed_check_from_ok(f, ins, k + 1);
    }
}

/// A stream that a fixed shape accepts has exactly that shape's length and
/// that shape's instruction at every position.
pub proof fn lemma_fixed_check_ok(f: FixedShape, ins: Seq<ShexInstruction>)
    requires
        fixed_check(f, ins) is Ok,
    ensures
        ins.len() == fixed_len(f),
        forall|j: int| 0 <= j < fixed_len(f) ==> #[trigger] fixed_step(f, j, ins[j]),
{
    lemma_fixed_check_from_ok(f, ins, 0);
}

/// No instruction stream has two of the fixed shapes: the vertex
/// translators reject the pixel shaders and the other way round, and the
/// sprite translators reject the triangle shaders and the other way round.
pub proof fn lemma_fixed_shapes_exclusive(f: FixedShape, g: FixedShape, ins: Seq<ShexInstruction>)
    requires
        f != g,
        fixed_check(f, ins) is Ok,
    ensures
        fixed_check(g, ins) is Err,
{
    lemma_fixed_check_ok(f, ins);
    if fixed_check(g, ins) is Ok {
        lemma_fixed_check_ok(g, ins);
        assert(fixed_step(f, 2, ins[2]) && fixed_step(g, 2, ins[2]));
    }
}

/// The position of the output declaration in each fixed shape.
pub open spec fn output_position(f: FixedShape) -> int {
    match f {
        FixedShape::TriangleVertex => 3,
        FixedShape::TrianglePixel => 2,
        FixedShape::SpriteVertex => 3,
        FixedShape::SpritePixel => 4,
    }
}

proof fn lemma_scans_reject_output(ins: Seq<ShexInstruction>, k: int)
    requires
        0 <= k < ins.len(),
        ins[k].kind is Output,
    ensures
        compute_scan(ins) is Err,
        chain_scan(ins) is Err,
    decreases ins.len(),
{
    if k < ins.len() - 1 {
        lemma_scans_reject_output(ins.drop_last(), k);
    }
}

/// The compute translators reject every graphics shader: each fixed shape
/// declares an output, and neither the element-wise nor the chain scan of a
/// compute shader accepts an output declaration.
pub proof fn lemma_compute_shapes_reject_graphics(f: FixedShape, ins: Seq<ShexInstruction>)
    requires
        fixed_check(f, ins) is Ok,
    ensures
        compute_shape(ins) is Err,
        chain_shape(ins) is Err,
{
    lemma_fixed_check_ok(f, ins);
    let k = output_position(f);
    assert(fixed_step(f, k, ins[k]));
    lemma_scans_reject_output(ins, k);
}

} // verus!
