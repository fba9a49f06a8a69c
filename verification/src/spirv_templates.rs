//! The instruction templates of the kernels whose module has a fixed shape.
//!
//! Each instruction is written as its opcode, a flags word (bit 0: a result
//! type follows, bit 1: a result id follows), its operand count, the ids the
//! flags announce and the operands. A word at or above `PARAM_BASE` is a
//! parameter, `STR_MAIN` and `STR_GLSL` stand for string operands (see
//! `crate::spirv_module`). Instructions stand in module order: capability,
//! extended instruction imports, memory model, entry point, execution mode,
//! annotations, types, constants and global variables, then the function.

use vstd::prelude::*;
use crate::spirv_module::{PARAM_BASE, STR_GLSL, STR_MAIN};

verus! {

/// The module of an element-wise compute kernel `c[i] = a[i] op b[i]`: UAV
/// bind points (params 0-2), thread-group size (params 3-5), the SPIR-V
/// opcode of `op` (param 6).
pub const COMPUTE_BINOP_TEMPLATE: [u32; 285] = [
    17, 0, 1, 1,  // OpCapability
    14, 0, 2, 0, 1,  // OpMemoryModel
    15, 0, 4, 5, 20, STR_MAIN, 17,  // OpEntryPoint
    16, 0, 5, 20, 17, PARAM_BASE + 3, PARAM_BASE + 4, PARAM_BASE + 5,  // OpExecutionMode
    71, 0, 3, 6, 6, 4,  // OpDecorate
    71, 0, 2, 7, 3,  // OpDecorate
    72, 0, 4, 7, 0, 35, 0,  // OpMemberDecorate
    71, 0, 3, 9, 34, 0,  // OpDecorate
    71, 0, 3, 9, 33, PARAM_BASE + 0,  // OpDecorate
    71, 0, 3, 10, 34, 0,  // OpDecorate
    71, 0, 3, 10, 33, PARAM_BASE + 1,  // OpDecorate
    71, 0, 3, 11, 34, 0,  // OpDecorate
    71, 0, 3, 11, 33, PARAM_BASE + 2,  // OpDecorate
    71, 0, 2, 12, 2,  // OpDecorate
    72, 0, 4, 12, 0, 35, 0,  // OpMemberDecorate
    71, 0, 3, 17, 11, 28,  // OpDecorate
    19, 2, 0, 1,  // OpTypeVoid
    33, 2, 1, 2, 1,  // OpTypeFunction
    22, 2, 1, 3, 32,  // OpTypeFloat
    21, 2, 2, 4, 32, 0,  // OpTypeInt
    23, 2, 2, 5, 4, 3,  // OpTypeVector
    29, 2, 1, 6, 3,  // OpTypeRuntimeArray
    30, 2, 1, 7, 6,  // OpTypeStruct
    32, 2, 2, 8, 2, 7,  // OpTypePointer
    59, 3, 1, 8, 9, 2,  // OpVariable
    59, 3, 1, 8, 10, 2,  // OpVariable
    59, 3, 1, 8, 11, 2,  // OpVariable
    30, 2, 1, 12, 4,  // OpTypeStruct
    32, 2, 2, 13, 9, 12,  // OpTypePointer
    59, 3, 1, 13, 14, 9,  // OpVariable
    32, 2, 2, 15, 9, 4,  // OpTypePointer
    32, 2, 2, 16, 1, 5,  // OpTypePointer
    59, 3, 1, 16, 17, 1,  // OpVariable
    32, 2, 2, 18, 2, 3,  // OpTypePointer
    20, 2, 0, 19,  // OpTypeBool
    43, 3, 1, 4, 22, 0,  // OpConstant
    54, 3, 2, 1, 20, 0, 2,  // OpFunction
    248, 2, 0, 21,  // OpLabel
    61, 3, 1, 5, 23, 17,  // OpLoad
    81, 3, 2, 4, 24, 23, 0,  // OpCompositeExtract
    65, 3, 3, 18, 25, 9, 22, 24,  // OpAccessChain
    61, 3, 1, 3, 26, 25,  // OpLoad
    65, 3, 3, 18, 27, 10, 22, 24,  // OpAccessChain
    61, 3, 1, 3, 28, 27,  // OpLoad
    PARAM_BASE + 6, 3, 2, 3, 29, 26, 28,  // (binary operation P6)
    65, 3, 3, 18, 30, 11, 22, 24,  // OpAccessChain
    62, 0, 2, 30, 29,  // OpStore
    253, 0, 0,  // OpReturn
    56, 0, 0,  // OpFunctionEnd
];
/// The id bound of [`COMPUTE_BINOP_TEMPLATE`].
pub const COMPUTE_BINOP_TEMPLATE_BOUND: u32 = 31;

/// As [`COMPUTE_BINOP_TEMPLATE`], the body under `if (i < n)` with `n` the
/// push constant.
pub const COMPUTE_BINOP_BOUNDED_TEMPLATE: [u32; 328] = [
    17, 0, 1, 1,  // OpCapability
    14, 0, 2, 0, 1,  // OpMemoryModel
    15, 0, 4, 5, 20, STR_MAIN, 17,  // OpEntryPoint
    16, 0, 5, 20, 17, PARAM_BASE + 3, PARAM_BASE + 4, PARAM_BASE + 5,  // OpExecutionMode
    71, 0, 3, 6, 6, 4,  // OpDecorate
    71, 0, 2, 7, 3,  // OpDecorate
    72, 0, 4, 7, 0, 35, 0,  // OpMemberDecorate
    71, 0, 3, 9, 34, 0,  // OpDecorate
    71, 0, 3, 9, 33, PARAM_BASE + 0,  // OpDecorate
    71, 0, 3, 10, 34, 0,  // OpDecorate
    71, 0, 3, 10, 33, PARAM_BASE + 1,  // OpDecorate
    71, 0, 3, 11, 34, 0,  // OpDecorate
    71, 0, 3, 11, 33, PARAM_BASE + 2,  // OpDecorate
    71, 0, 2, 12, 2,  // OpDecorate
    72, 0, 4, 12, 0, 35, 0,  // OpMemberDecorate
    71, 0, 3, 17, 11, 28,  // OpDecorate
    19, 2, 0, 1,  // OpTypeVoid
    33, 2, 1, 2, 1,  // OpTypeFunction
    22, 2, 1, 3, 32,  // OpTypeFloat
    21, 2, 2, 4, 32, 0,  // OpTypeInt
    23, 2, 2, 5, 4, 3,  // OpTypeVector
    29, 2, 1, 6, 3,  // OpTypeRuntimeArray
    30, 2, 1, 7, 6,  // OpTypeStruct
    32, 2, 2, 8, 2, 7,  // OpTypePointer
    59, 3, 1, 8, 9, 2,  // OpVariable
    59, 3, 1, 8, 10, 2,  // OpVariable
    59, 3, 1, 8, 11, 2,  // OpVariable
    30, 2, 1, 12, 4,  // OpTypeStruct
    32, 2, 2, 13, 9, 12,  // OpTypePointer
    59, 3, 1, 13, 14, 9,  // OpVariable
    32, 2, 2, 15, 9, 4,  // OpTypePointer
    32, 2, 2, 16, 1, 5,  // OpTypePointer
    59, 3, 1, 16, 17, 1,  // OpVariable
    32, 2, 2, 18, 2, 3,  // OpTypePointer
    20, 2, 0, 19,  // OpTypeBool
    43, 3, 1, 4, 22, 0,  // OpConstant
    54, 3, 2, 1, 20, 0, 2,  // OpFunction
    248, 2, 0, 21,  // OpLabel
    61, 3, 1, 5, 23, 17,  // OpLoad
    81, 3, 2, 4, 24, 23, 0,  // OpCompositeExtract
    65, 3, 2, 15, 25, 14, 22,  // OpAccessChain
    61, 3, 1, 4, 26, 25,  // OpLoad
    176, 3, 2, 19, 27, 24, 26,  // OpULessThan
    247, 0, 2, 29, 0,  // OpSelectionMerge
    250, 0, 3, 27, 28, 29,  // OpBranchConditional
    248, 2, 0, 28,  // OpLabel
    65, 3, 3, 18, 30, 9, 22, 24,  // OpAccessChain
    61, 3, 1, 3, 31, 30,  // OpLoad
    65, 3, 3, 18, 32, 10, 22, 24,  // OpAccessChain
    61, 3, 1, 3, 33, 32,  // OpLoad
    PARAM_BASE + 6, 3, 2, 3, 34, 31, 33,  // (binary operation P6)
    65, 3, 3, 18, 35, 11, 22, 24,  // OpAccessChain
    62, 0, 2, 35, 34,  // OpStore
    249, 0, 1, 29,  // OpBranch
    248, 2, 0, 29,  // OpLabel
    253, 0, 0,  // OpReturn
    56, 0, 0,  // OpFunctionEnd
];
/// The id bound of [`COMPUTE_BINOP_BOUNDED_TEMPLATE`].
pub const COMPUTE_BINOP_BOUNDED_TEMPLATE_BOUND: u32 = 36;

/// As [`COMPUTE_BINOP_TEMPLATE`] for `c[i] = -(a[i] * b[i])` (param 6 unused).
pub const COMPUTE_MULNEG_TEMPLATE: [u32; 291] = [
    17, 0, 1, 1,  // OpCapability
    14, 0, 2, 0, 1,  // OpMemoryModel
    15, 0, 4, 5, 20, STR_MAIN, 17,  // OpEntryPoint
    16, 0, 5, 20, 17, PARAM_BASE + 3, PARAM_BASE + 4, PARAM_BASE + 5,  // OpExecutionMode
    71, 0, 3, 6, 6, 4,  // OpDecorate
    71, 0, 2, 7, 3,  // OpDecorate
    72, 0, 4, 7, 0, 35, 0,  // OpMemberDecorate
    71, 0, 3, 9, 34, 0,  // OpDecorate
    71, 0, 3, 9, 33, PARAM_BASE + 0,  // OpDecorate
    71, 0, 3, 10, 34, 0,  // OpDecorate
    71, 0, 3, 10, 33, PARAM_BASE + 1,  // OpDecorate
    71, 0, 3, 11, 34, 0,  // OpDecorate
    71, 0, 3, 11, 33, PARAM_BASE + 2,  // OpDecorate
    71, 0, 2, 12, 2,  // OpDecorate
    72, 0, 4, 12, 0, 35, 0,  // OpMemberDecorate
    71, 0, 3, 17, 11, 28,  // OpDecorate
    19, 2, 0, 1,  // OpTypeVoid
    33, 2, 1, 2, 1,  // OpTypeFunction
    22, 2, 1, 3, 32,  // OpTypeFloat
    21, 2, 2, 4, 32, 0,  // OpTypeInt
    23, 2, 2, 5, 4, 3,  // OpTypeVector
    29, 2, 1, 6, 3,  // OpTypeRuntimeArray
    30, 2, 1, 7, 6,  // OpTypeStruct
    32, 2, 2, 8, 2, 7,  // OpTypePointer
    59, 3, 1, 8, 9, 2,  // OpVariable
    59, 3, 1, 8, 10, 2,  // OpVariable
    59, 3, 1, 8, 11, 2,  // OpVariable
    30, 2, 1, 12, 4,  // OpTypeStruct
    32, 2, 2, 13, 9, 12,  // OpTypePointer
    59, 3, 1, 13, 14, 9,  // OpVariable
    32, 2, 2, 15, 9, 4,  // OpTypePointer
    32, 2, 2, 16, 1, 5,  // OpTypePointer
    59, 3, 1, 16, 17, 1,  // OpVariable
    32, 2, 2, 18, 2, 3,  // OpTypePointer
    20, 2, 0, 19,  // OpTypeBool
    43, 3, 1, 4, 22, 0,  // OpConstant
    54, 3, 2, 1, 20, 0, 2,  // OpFunction
    248, 2, 0, 21,  // OpLabel
    61, 3, 1, 5, 23, 17,  // OpLoad
    81, 3, 2, 4, 24, 23, 0,  // OpCompositeExtract
    65, 3, 3, 18, 25, 9, 22, 24,  // OpAccessChain
    61, 3, 1, 3, 26, 25,  // OpLoad
    65, 3, 3, 18, 27, 10, 22, 24,  // OpAccessChain
    61, 3, 1, 3, 28, 27,  // OpLoad
    133, 3, 2, 3, 29, 26, 28,  // OpFMul
    127, 3, 1, 3, 30, 29,  // OpFNegate
    65, 3, 3, 18, 31, 11, 22, 24,  // OpAccessChain
    62, 0, 2, 31, 30,  // OpStore
    253, 0, 0,  // OpReturn
    56, 0, 0,  // OpFunctionEnd
];
/// The id bound of [`COMPUTE_MULNEG_TEMPLATE`].
pub const COMPUTE_MULNEG_TEMPLATE_BOUND: u32 = 32;

/// As [`COMPUTE_MULNEG_TEMPLATE`], the body under `if (i < n)`.
pub const COMPUTE_MULNEG_BOUNDED_TEMPLATE: [u32; 334] = [
    17, 0, 1, 1,  // OpCapability
    14, 0, 2, 0, 1,  // OpMemoryModel
    15, 0, 4, 5, 20, STR_MAIN, 17,  // OpEntryPoint
    16, 0, 5, 20, 17, PARAM_BASE + 3, PARAM_BASE + 4, PARAM_BASE + 5,  // OpExecutionMode
    71, 0, 3, 6, 6, 4,  // OpDecorate
    71, 0, 2, 7, 3,  // OpDecorate
    72, 0, 4, 7, 0, 35, 0,  // OpMemberDecorate
    71, 0, 3, 9, 34, 0,  // OpDecorate
    71, 0, 3, 9, 33, PARAM_BASE + 0,  // OpDecorate
    71, 0, 3, 10, 34, 0,  // OpDecorate
    71, 0, 3, 10, 33, PARAM_BASE + 1,  // OpDecorate
    71, 0, 3, 11, 34, 0,  // OpDecorate
    71, 0, 3, 11, 33, PARAM_BASE + 2,  // OpDecorate
    71, 0, 2, 12, 2,  // OpDecorate
    72, 0, 4, 12, 0, 35, 0,  // OpMemberDecorate
    71, 0, 3, 17, 11, 28,  // OpDecorate
    19, 2, 0, 1,  // OpTypeVoid
    33, 2, 1, 2, 1,  // OpTypeFunction
    22, 2, 1, 3, 32,  // OpTypeFloat
    21, 2, 2, 4, 32, 0,  // OpTypeInt
    23, 2, 2, 5, 4, 3,  // OpTypeVector
    29, 2, 1, 6, 3,  // OpTypeRuntimeArray
    30, 2, 1, 7, 6,  // OpTypeStruct
    32, 2, 2, 8, 2, 7,  // OpTypePointer
    59, 3, 1, 8, 9, 2,  // OpVariable
    59, 3, 1, 8, 10, 2,  // OpVariable
    59, 3, 1, 8, 11, 2,  // OpVariable
    30, 2, 1, 12, 4,  // OpTypeStruct
    32, 2, 2, 13, 9, 12,  // OpTypePointer
    59, 3, 1, 13, 14, 9,  // OpVariable
    32, 2, 2, 15, 9, 4,  // OpTypePointer
    32, 2, 2, 16, 1, 5,  // OpTypePointer
    59, 3, 1, 16, 17, 1,  // OpVariable
    32, 2, 2, 18, 2, 3,  // OpTypePointer
    20, 2, 0, 19,  // OpTypeBool
    43, 3, 1, 4, 22, 0,  // OpConstant
    54, 3, 2, 1, 20, 0, 2,  // OpFunction
    248, 2, 0, 21,  // OpLabel
    61, 3, 1, 5, 23, 17,  // OpLoad
    81, 3, 2, 4, 24, 23, 0,  // OpCompositeExtract
    65, 3, 2, 15, 25, 14, 22,  // OpAccessChain
    61, 3, 1, 4, 26, 25,  // OpLoad
    176, 3, 2, 19, 27, 24, 26,  // OpULessThan
    247, 0, 2, 29, 0,  // OpSelectionMerge
    250, 0, 3, 27, 28, 29,  // OpBranchConditional
    248, 2, 0, 28,  // OpLabel
    65, 3, 3, 18, 30, 9, 22, 24,  // OpAccessChain
    61, 3, 1, 3, 31, 30,  // OpLoad
    65, 3, 3, 18, 32, 10, 22, 24,  // OpAccessChain
    61, 3, 1, 3, 33, 32,  // OpLoad
    133, 3, 2, 3, 34, 31, 33,  // OpFMul
    127, 3, 1, 3, 35, 34,  // OpFNegate
    65, 3, 3, 18, 36, 11, 22, 24,  // OpAccessChain
    62, 0, 2, 36, 35,  // OpStore
    249, 0, 1, 29,  // OpBranch
    248, 2, 0, 29,  // OpLabel
    253, 0, 0,  // OpReturn
    56, 0, 0,  // OpFunctionEnd
];
/// The id bound of [`COMPUTE_MULNEG_BOUNDED_TEMPLATE`].
pub const COMPUTE_MULNEG_BOUNDED_TEMPLATE_BOUND: u32 = 37;

/// The pass-through vertex shader: position (location 0, vec3) to
/// `Position` with `w = 1`, colour (location 1, vec4) to location 0.
pub const VERTEX_TEMPLATE: [u32; 186] = [
    17, 0, 1, 1,  // OpCapability
    14, 0, 2, 0, 1,  // OpMemoryModel
    15, 0, 7, 0, 13, STR_MAIN, 7, 9, 11, 12,  // OpEntryPoint
    71, 0, 3, 7, 30, 0,  // OpDecorate
    71, 0, 3, 9, 30, 1,  // OpDecorate
    71, 0, 3, 11, 11, 0,  // OpDecorate
    71, 0, 3, 12, 30, 0,  // OpDecorate
    19, 2, 0, 1,  // OpTypeVoid
    33, 2, 1, 2, 1,  // OpTypeFunction
    22, 2, 1, 3, 32,  // OpTypeFloat
    23, 2, 2, 4, 3, 3,  // OpTypeVector
    23, 2, 2, 5, 3, 4,  // OpTypeVector
    32, 2, 2, 6, 1, 4,  // OpTypePointer
    59, 3, 1, 6, 7, 1,  // OpVariable
    32, 2, 2, 8, 1, 5,  // OpTypePointer
    59, 3, 1, 8, 9, 1,  // OpVariable
    32, 2, 2, 10, 3, 5,  // OpTypePointer
    59, 3, 1, 10, 11, 3,  // OpVariable
    59, 3, 1, 10, 12, 3,  // OpVariable
    43, 3, 1, 3, 19, 1065353216,  // OpConstant
    54, 3, 2, 1, 13, 0, 2,  // OpFunction
    248, 2, 0, 14,  // OpLabel
    61, 3, 1, 4, 15, 7,  // OpLoad
    81, 3, 2, 3, 16, 15, 0,  // OpCompositeExtract
    81, 3, 2, 3, 17, 15, 1,  // OpCompositeExtract
    81, 3, 2, 3, 18, 15, 2,  // OpCompositeExtract
    80, 3, 4, 5, 20, 16, 17, 18, 19,  // OpCompositeConstruct
    62, 0, 2, 11, 20,  // OpStore
    61, 3, 1, 5, 21, 9,  // OpLoad
    62, 0, 2, 12, 21,  // OpStore
    253, 0, 0,  // OpReturn
    56, 0, 0,  // OpFunctionEnd
];
/// The id bound of [`VERTEX_TEMPLATE`].
pub const VERTEX_TEMPLATE_BOUND: u32 = 22;

/// The pass-through fragment shader: colour (location 0) to location 0.
pub const PIXEL_TEMPLATE: [u32; 106] = [
    17, 0, 1, 1,  // OpCapability
    14, 0, 2, 0, 1,  // OpMemoryModel
    15, 0, 5, 4, 9, STR_MAIN, 6, 8,  // OpEntryPoint
    16, 0, 2, 9, 7,  // OpExecutionMode
    71, 0, 3, 6, 30, 0,  // OpDecorate
    71, 0, 3, 8, 30, 0,  // OpDecorate
    19, 2, 0, 1,  // OpTypeVoid
    33, 2, 1, 2, 1,  // OpTypeFunction
    22, 2, 1, 3, 32,  // OpTypeFloat
    23, 2, 2, 4, 3, 4,  // OpTypeVector
    32, 2, 2, 5, 1, 4,  // OpTypePointer
    59, 3, 1, 5, 6, 1,  // OpVariable
    32, 2, 2, 7, 3, 4,  // OpTypePointer
    59, 3, 1, 7, 8, 3,  // OpVariable
    54, 3, 2, 1, 9, 0, 2,  // OpFunction
    248, 2, 0, 10,  // OpLabel
    61, 3, 1, 4, 11, 6,  // OpLoad
    62, 0, 2, 8, 11,  // OpStore
    253, 0, 0,  // OpReturn
    56, 0, 0,  // OpFunctionEnd
];
/// The id bound of [`PIXEL_TEMPLATE`].
pub const PIXEL_TEMPLATE_BOUND: u32 = 12;

/// The sprite vertex shader: position (location 0, vec3) to `Position`
/// with `w = 1`, texture coordinate (location 1, vec2) to location 0.
pub const SPRITE_VERTEX_TEMPLATE: [u32; 198] = [
    17, 0, 1, 1,  // OpCapability
    14, 0, 2, 0, 1,  // OpMemoryModel
    15, 0, 7, 0, 15, STR_MAIN, 8, 10, 12, 14,  // OpEntryPoint
    71, 0, 3, 8, 30, 0,  // OpDecorate
    71, 0, 3, 10, 30, 1,  // OpDecorate
    71, 0, 3, 12, 11, 0,  // OpDecorate
    71, 0, 3, 14, 30, 0,  // OpDecorate
    19, 2, 0, 1,  // OpTypeVoid
    33, 2, 1, 2, 1,  // OpTypeFunction
    22, 2, 1, 3, 32,  // OpTypeFloat
    23, 2, 2, 4, 3, 2,  // OpTypeVector
    23, 2, 2, 5, 3, 3,  // OpTypeVector
    23, 2, 2, 6, 3, 4,  // OpTypeVector
    32, 2, 2, 7, 1, 5,  // OpTypePointer
    59, 3, 1, 7, 8, 1,  // OpVariable
    32, 2, 2, 9, 1, 4,  // OpTypePointer
    59, 3, 1, 9, 10, 1,  // OpVariable
    32, 2, 2, 11, 3, 6,  // OpTypePointer
    59, 3, 1, 11, 12, 3,  // OpVariable
    32, 2, 2, 13, 3, 4,  // OpTypePointer
    59, 3, 1, 13, 14, 3,  // OpVariable
    43, 3, 1, 3, 21, 1065353216,  // OpConstant
    54, 3, 2, 1, 15, 0, 2,  // OpFunction
    248, 2, 0, 16,  // OpLabel
    61, 3, 1, 5, 17, 8,  // OpLoad
    81, 3, 2, 3, 18, 17, 0,  // OpCompositeExtract
    81, 3, 2, 3, 19, 17, 1,  // OpCompositeExtract
    81, 3, 2, 3, 20, 17, 2,  // OpCompositeExtract
    80, 3, 4, 6, 22, 18, 19, 20, 21,  // OpCompositeConstruct
    62, 0, 2, 12, 22,  // OpStore
    61, 3, 1, 4, 23, 10,  // OpLoad
    62, 0, 2, 14, 23,  // OpStore
    253, 0, 0,  // OpReturn
    56, 0, 0,  // OpFunctionEnd
];
/// The id bound of [`SPRITE_VERTEX_TEMPLATE`].
pub const SPRITE_VERTEX_TEMPLATE_BOUND: u32 = 24;

/// The sprite fragment shader: samples the combined image sampler at set 0,
/// binding 0 with the coordinate of location 0.
pub const SPRITE_PIXEL_TEMPLATE: [u32; 165] = [
    17, 0, 1, 1,  // OpCapability
    14, 0, 2, 0, 1,  // OpMemoryModel
    15, 0, 5, 4, 14, STR_MAIN, 7, 9,  // OpEntryPoint
    16, 0, 2, 14, 7,  // OpExecutionMode
    71, 0, 3, 7, 30, 0,  // OpDecorate
    71, 0, 3, 9, 30, 0,  // OpDecorate
    71, 0, 3, 13, 34, 0,  // OpDecorate
    71, 0, 3, 13, 33, 0,  // OpDecorate
    19, 2, 0, 1,  // OpTypeVoid
    33, 2, 1, 2, 1,  // OpTypeFunction
    22, 2, 1, 3, 32,  // OpTypeFloat
    23, 2, 2, 4, 3, 2,  // OpTypeVector
    23, 2, 2, 5, 3, 4,  // OpTypeVector
    32, 2, 2, 6, 1, 4,  // OpTypePointer
    59, 3, 1, 6, 7, 1,  // OpVariable
    32, 2, 2, 8, 3, 5,  // OpTypePointer
    59, 3, 1, 8, 9, 3,  // OpVariable
    25, 2, 7, 10, 3, 1, 0, 0, 0, 1, 0,  // OpTypeImage
    27, 2, 1, 11, 10,  // OpTypeSampledImage
    32, 2, 2, 12, 0, 11,  // OpTypePointer
    59, 3, 1, 12, 13, 0,  // OpVariable
    54, 3, 2, 1, 14, 0, 2,  // OpFunction
    248, 2, 0, 15,  // OpLabel
    61, 3, 1, 4, 16, 7,  // OpLoad
    61, 3, 1, 11, 17, 13,  // OpLoad
    87, 3, 2, 5, 18, 17, 16,  // OpImageSampleImplicitLod
    62, 0, 2, 9, 18,  // OpStore
    253, 0, 0,  // OpReturn
    56, 0, 0,  // OpFunctionEnd
];
/// The id bound of [`SPRITE_PIXEL_TEMPLATE`].
pub const SPRITE_PIXEL_TEMPLATE_BOUND: u32 = 19;

/// The 2x2 matrix product `C[i][j] = A[i][0] B[0][j] + A[i][1] B[1][j]`
/// (`i`, `j` the invocation's y, x); UAV bind points are params 0-2.
pub const GEMM2X2_TEMPLATE: [u32; 364] = [
    17, 0, 1, 1,  // OpCapability
    14, 0, 2, 0, 1,  // OpMemoryModel
    15, 0, 4, 5, 18, STR_MAIN, 16,  // OpEntryPoint
    16, 0, 5, 18, 17, 2, 2, 1,  // OpExecutionMode
    71, 0, 3, 6, 6, 4,  // OpDecorate
    71, 0, 2, 7, 3,  // OpDecorate
    72, 0, 4, 7, 0, 35, 0,  // OpMemberDecorate
    71, 0, 3, 9, 34, 0,  // OpDecorate
    71, 0, 3, 9, 33, PARAM_BASE + 0,  // OpDecorate
    71, 0, 3, 10, 34, 0,  // OpDecorate
    71, 0, 3, 10, 33, PARAM_BASE + 1,  // OpDecorate
    71, 0, 3, 11, 34, 0,  // OpDecorate
    71, 0, 3, 11, 33, PARAM_BASE + 2,  // OpDecorate
    71, 0, 2, 12, 2,  // OpDecorate
    72, 0, 4, 12, 0, 35, 0,  // OpMemberDecorate
    71, 0, 3, 16, 11, 28,  // OpDecorate
    19, 2, 0, 1,  // OpTypeVoid
    33, 2, 1, 2, 1,  // OpTypeFunction
    22, 2, 1, 3, 32,  // OpTypeFloat
    21, 2, 2, 4, 32, 0,  // OpTypeInt
    23, 2, 2, 5, 4, 3,  // OpTypeVector
    29, 2, 1, 6, 3,  // OpTypeRuntimeArray
    30, 2, 1, 7, 6,  // OpTypeStruct
    32, 2, 2, 8, 2, 7,  // OpTypePointer
    59, 3, 1, 8, 9, 2,  // OpVariable
    59, 3, 1, 8, 10, 2,  // OpVariable
    59, 3, 1, 8, 11, 2,  // OpVariable
    30, 2, 1, 12, 4,  // OpTypeStruct
    32, 2, 2, 13, 9, 12,  // OpTypePointer
    59, 3, 1, 13, 14, 9,  // OpVariable
    32, 2, 2, 15, 1, 5,  // OpTypePointer
    59, 3, 1, 15, 16, 1,  // OpVariable
    32, 2, 2, 17, 2, 3,  // OpTypePointer
    43, 3, 1, 4, 20, 0,  // OpConstant
    43, 3, 1, 4, 21, 1,  // OpConstant
    43, 3, 1, 4, 22, 2,  // OpConstant
    54, 3, 2, 1, 18, 0, 2,  // OpFunction
    248, 2, 0, 19,  // OpLabel
    61, 3, 1, 5, 23, 16,  // OpLoad
    81, 3, 2, 4, 24, 23, 0,  // OpCompositeExtract
    81, 3, 2, 4, 25, 23, 1,  // OpCompositeExtract
    132, 3, 2, 4, 26, 25, 22,  // OpIMul
    128, 3, 2, 4, 27, 26, 21,  // OpIAdd
    65, 3, 3, 17, 28, 9, 20, 26,  // OpAccessChain
    61, 3, 1, 3, 29, 28,  // OpLoad
    65, 3, 3, 17, 30, 9, 20, 27,  // OpAccessChain
    61, 3, 1, 3, 31, 30,  // OpLoad
    128, 3, 2, 4, 32, 22, 24,  // OpIAdd
    65, 3, 3, 17, 33, 10, 20, 24,  // OpAccessChain
    61, 3, 1, 3, 34, 33,  // OpLoad
    65, 3, 3, 17, 35, 10, 20, 32,  // OpAccessChain
    61, 3, 1, 3, 36, 35,  // OpLoad
    133, 3, 2, 3, 37, 29, 34,  // OpFMul
    133, 3, 2, 3, 38, 31, 36,  // OpFMul
    129, 3, 2, 3, 39, 37, 38,  // OpFAdd
    128, 3, 2, 4, 40, 26, 24,  // OpIAdd
    65, 3, 3, 17, 41, 11, 20, 40,  // OpAccessChain
    62, 0, 2, 41, 39,  // OpStore
    253, 0, 0,  // OpReturn
    56, 0, 0,  // OpFunctionEnd
];
/// The id bound of [`GEMM2X2_TEMPLATE`].
pub const GEMM2X2_TEMPLATE_BOUND: u32 = 42;

/// The two-dimensional MED predictor over an image of `width` x `height`
/// floats: thread-group size (params 0-2), UAV bind points (3, 4), width
/// and height (5, 6).
pub const MED2D_TEMPLATE: [u32; 495] = [
    17, 0, 1, 1,  // OpCapability
    11, 2, 1, 52, STR_GLSL,  // OpExtInstImport
    14, 0, 2, 0, 1,  // OpMemoryModel
    15, 0, 4, 5, 15, STR_MAIN, 14,  // OpEntryPoint
    16, 0, 5, 15, 17, PARAM_BASE + 0, PARAM_BASE + 1, PARAM_BASE + 2,  // OpExecutionMode
    71, 0, 3, 7, 6, 4,  // OpDecorate
    71, 0, 2, 8, 3,  // OpDecorate
    72, 0, 4, 8, 0, 35, 0,  // OpMemberDecorate
    71, 0, 3, 11, 34, 0,  // OpDecorate
    71, 0, 3, 11, 33, PARAM_BASE + 3,  // OpDecorate
    71, 0, 3, 12, 34, 0,  // OpDecorate
    71, 0, 3, 12, 33, PARAM_BASE + 4,  // OpDecorate
    71, 0, 3, 14, 11, 28,  // OpDecorate
    19, 2, 0, 1,  // OpTypeVoid
    33, 2, 1, 2, 1,  // OpTypeFunction
    22, 2, 1, 3, 32,  // OpTypeFloat
    21, 2, 2, 4, 32, 0,  // OpTypeInt
    20, 2, 0, 5,  // OpTypeBool
    23, 2, 2, 6, 4, 3,  // OpTypeVector
    29, 2, 1, 7, 3,  // OpTypeRuntimeArray
    30, 2, 1, 8, 7,  // OpTypeStruct
    32, 2, 2, 9, 2, 8,  // OpTypePointer
    32, 2, 2, 10, 2, 3,  // OpTypePointer
    59, 3, 1, 9, 11, 2,  // OpVariable
    59, 3, 1, 9, 12, 2,  // OpVariable
    32, 2, 2, 13, 1, 6,  // OpTypePointer
    59, 3, 1, 13, 14, 1,  // OpVariable
    43, 3, 1, 4, 17, 0,  // OpConstant
    43, 3, 1, 4, 18, 1,  // OpConstant
    43, 3, 1, 4, 19, PARAM_BASE + 5,  // OpConstant
    43, 3, 1, 4, 20, PARAM_BASE + 6,  // OpConstant
    43, 3, 1, 4, 31, 0,  // OpConstant
    43, 3, 1, 4, 39, 0,  // OpConstant
    54, 3, 2, 1, 15, 0, 2,  // OpFunction
    248, 2, 0, 16,  // OpLabel
    61, 3, 1, 6, 21, 14,  // OpLoad
    81, 3, 2, 4, 22, 21, 0,  // OpCompositeExtract
    132, 3, 2, 4, 23, 19, 20,  // OpIMul
    176, 3, 2, 5, 24, 22, 23,  // OpULessThan
    247, 0, 2, 26, 0,  // OpSelectionMerge
    250, 0, 3, 24, 25, 26,  // OpBranchConditional
    248, 2, 0, 25,  // OpLabel
    137, 3, 2, 4, 27, 22, 19,  // OpUMod
    134, 3, 2, 4, 28, 22, 19,  // OpUDiv
    65, 3, 3, 10, 29, 11, 17, 22,  // OpAccessChain
    61, 3, 1, 3, 30, 29,  // OpLoad
    172, 3, 2, 5, 32, 27, 31,  // OpUGreaterThan
    130, 3, 2, 4, 33, 27, 18,  // OpISub
    132, 3, 2, 4, 34, 28, 19,  // OpIMul
    128, 3, 2, 4, 35, 34, 33,  // OpIAdd
    65, 3, 3, 10, 36, 11, 17, 35,  // OpAccessChain
    61, 3, 1, 3, 37, 36,  // OpLoad
    169, 3, 3, 3, 38, 32, 37, 30,  // OpSelect
    172, 3, 2, 5, 40, 28, 39,  // OpUGreaterThan
    130, 3, 2, 4, 41, 28, 18,  // OpISub
    132, 3, 2, 4, 42, 41, 19,  // OpIMul
    128, 3, 2, 4, 43, 42, 27,  // OpIAdd
    65, 3, 3, 10, 44, 11, 17, 43,  // OpAccessChain
    61, 3, 1, 3, 45, 44,  // OpLoad
    169, 3, 3, 3, 46, 40, 45, 30,  // OpSelect
    167, 3, 2, 5, 47, 32, 40,  // OpLogicalAnd
    128, 3, 2, 4, 48, 42, 33,  // OpIAdd
    65, 3, 3, 10, 49, 11, 17, 48,  // OpAccessChain
    61, 3, 1, 3, 50, 49,  // OpLoad
    169, 3, 3, 3, 51, 47, 50, 30,  // OpSelect
    12, 3, 4, 3, 53, 52, 40, 38, 46,  // OpExtInst
    12, 3, 4, 3, 54, 52, 37, 38, 46,  // OpExtInst
    190, 3, 2, 5, 55, 51, 53,  // OpFOrdGreaterThanEqual
    188, 3, 2, 5, 56, 51, 54,  // OpFOrdLessThanEqual
    129, 3, 2, 3, 57, 38, 46,  // OpFAdd
    131, 3, 2, 3, 58, 57, 51,  // OpFSub
    169, 3, 3, 3, 59, 56, 53, 58,  // OpSelect
    169, 3, 3, 3, 60, 55, 54, 59,  // OpSelect
    65, 3, 3, 10, 61, 12, 17, 22,  // OpAccessChain
    62, 0, 2, 61, 60,  // OpStore
    249, 0, 1, 26,  // OpBranch
    248, 2, 0, 26,  // OpLabel
    253, 0, 0,  // OpReturn
    56, 0, 0,  // OpFunctionEnd
];
/// The id bound of [`MED2D_TEMPLATE`].
pub const MED2D_TEMPLATE_BOUND: u32 = 62;

/// One invocation decoding `num_symbols` bits with one adaptive state:
/// initial state (param 0), number of symbols (param 1).
pub const RANGE_DECODER_TEMPLATE: [u32; 669] = [
    17, 0, 1, 1,  // OpCapability
    14, 0, 2, 0, 1,  // OpMemoryModel
    15, 0, 3, 5, 14, STR_MAIN,  // OpEntryPoint
    16, 0, 5, 14, 17, 1, 1, 1,  // OpExecutionMode
    71, 0, 3, 5, 6, 4,  // OpDecorate
    71, 0, 2, 6, 3,  // OpDecorate
    72, 0, 4, 6, 0, 35, 0,  // OpMemberDecorate
    71, 0, 3, 9, 34, 0,  // OpDecorate
    71, 0, 3, 9, 33, 0,  // OpDecorate
    71, 0, 3, 10, 34, 0,  // OpDecorate
    71, 0, 3, 10, 33, 1,  // OpDecorate
    71, 0, 3, 11, 34, 0,  // OpDecorate
    71, 0, 3, 11, 33, 2,  // OpDecorate
    71, 0, 3, 12, 34, 0,  // OpDecorate
    71, 0, 3, 12, 33, 3,  // OpDecorate
    19, 2, 0, 1,  // OpTypeVoid
    33, 2, 1, 2, 1,  // OpTypeFunction
    21, 2, 2, 3, 32, 0,  // OpTypeInt
    20, 2, 0, 4,  // OpTypeBool
    29, 2, 1, 5, 3,  // OpTypeRuntimeArray
    30, 2, 1, 6, 5,  // OpTypeStruct
    32, 2, 2, 7, 2, 6,  // OpTypePointer
    32, 2, 2, 8, 2, 3,  // OpTypePointer
    59, 3, 1, 7, 9, 2,  // OpVariable
    59, 3, 1, 7, 10, 2,  // OpVariable
    59, 3, 1, 7, 11, 2,  // OpVariable
    59, 3, 1, 7, 12, 2,  // OpVariable
    32, 2, 2, 13, 7, 3,  // OpTypePointer
    43, 3, 1, 3, 16, 0,  // OpConstant
    43, 3, 1, 3, 17, 1,  // OpConstant
    43, 3, 1, 3, 18, 2,  // OpConstant
    43, 3, 1, 3, 19, 256,  // OpConstant
    43, 3, 1, 3, 20, 65280,  // OpConstant
    43, 3, 1, 3, 30, 8,  // OpConstant
    43, 3, 1, 3, 33, PARAM_BASE + 0,  // OpConstant
    43, 3, 1, 3, 40, PARAM_BASE + 1,  // OpConstant
    54, 3, 2, 1, 14, 0, 2,  // OpFunction
    248, 2, 0, 15,  // OpLabel
    59, 3, 1, 13, 21, 7,  // OpVariable
    59, 3, 1, 13, 22, 7,  // OpVariable
    59, 3, 1, 13, 23, 7,  // OpVariable
    59, 3, 1, 13, 24, 7,  // OpVariable
    59, 3, 1, 13, 25, 7,  // OpVariable
    65, 3, 3, 8, 26, 9, 16, 16,  // OpAccessChain
    61, 3, 1, 3, 27, 26,  // OpLoad
    65, 3, 3, 8, 28, 9, 16, 17,  // OpAccessChain
    61, 3, 1, 3, 29, 28,  // OpLoad
    196, 3, 2, 3, 31, 27, 30,  // OpShiftLeftLogical
    197, 3, 2, 3, 32, 31, 29,  // OpBitwiseOr
    62, 0, 2, 23, 32,  // OpStore
    62, 0, 2, 24, 20,  // OpStore
    62, 0, 2, 25, 18,  // OpStore
    62, 0, 2, 21, 16,  // OpStore
    62, 0, 2, 22, 33,  // OpStore
    249, 0, 1, 34,  // OpBranch
    248, 2, 0, 34,  // OpLabel
    246, 0, 3, 38, 37, 0,  // OpLoopMerge
    249, 0, 1, 35,  // OpBranch
    248, 2, 0, 35,  // OpLabel
    61, 3, 1, 3, 39, 21,  // OpLoad
    176, 3, 2, 4, 41, 39, 40,  // OpULessThan
    250, 0, 3, 41, 36, 38,  // OpBranchConditional
    248, 2, 0, 36,  // OpLabel
    61, 3, 1, 3, 42, 22,  // OpLoad
    61, 3, 1, 3, 43, 24,  // OpLoad
    61, 3, 1, 3, 44, 23,  // OpLoad
    132, 3, 2, 3, 45, 43, 42,  // OpIMul
    134, 3, 2, 3, 46, 45, 19,  // OpUDiv
    130, 3, 2, 3, 47, 43, 46,  // OpISub
    176, 3, 2, 4, 48, 44, 47,  // OpULessThan
    247, 0, 2, 51, 0,  // OpSelectionMerge
    250, 0, 3, 48, 49, 50,  // OpBranchConditional
    248, 2, 0, 49,  // OpLabel
    62, 0, 2, 24, 47,  // OpStore
    65, 3, 3, 8, 52, 11, 16, 42,  // OpAccessChain
    61, 3, 1, 3, 53, 52,  // OpLoad
    62, 0, 2, 22, 53,  // OpStore
    65, 3, 3, 8, 54, 12, 16, 39,  // OpAccessChain
    62, 0, 2, 54, 16,  // OpStore
    249, 0, 1, 51,  // OpBranch
    248, 2, 0, 50,  // OpLabel
    130, 3, 2, 3, 55, 44, 47,  // OpISub
    62, 0, 2, 23, 55,  // OpStore
    62, 0, 2, 24, 46,  // OpStore
    65, 3, 3, 8, 56, 10, 16, 42,  // OpAccessChain
    61, 3, 1, 3, 57, 56,  // OpLoad
    62, 0, 2, 22, 57,  // OpStore
    65, 3, 3, 8, 58, 12, 16, 39,  // OpAccessChain
    62, 0, 2, 58, 17,  // OpStore
    249, 0, 1, 51,  // OpBranch
    248, 2, 0, 51,  // OpLabel
    61, 3, 1, 3, 59, 24,  // OpLoad
    176, 3, 2, 4, 60, 59, 19,  // OpULessThan
    247, 0, 2, 62, 0,  // OpSelectionMerge
    250, 0, 3, 60, 61, 62,  // OpBranchConditional
    248, 2, 0, 61,  // OpLabel
    132, 3, 2, 3, 63, 59, 19,  // OpIMul
    62, 0, 2, 24, 63,  // OpStore
    61, 3, 1, 3, 64, 23,  // OpLoad
    132, 3, 2, 3, 65, 64, 19,  // OpIMul
    61, 3, 1, 3, 66, 25,  // OpLoad
    65, 3, 3, 8, 67, 9, 16, 66,  // OpAccessChain
    61, 3, 1, 3, 68, 67,  // OpLoad
    128, 3, 2, 3, 69, 65, 68,  // OpIAdd
    62, 0, 2, 23, 69,  // OpStore
    128, 3, 2, 3, 70, 66, 17,  // OpIAdd
    62, 0, 2, 25, 70,  // OpStore
    249, 0, 1, 62,  // OpBranch
    248, 2, 0, 62,  // OpLabel
    249, 0, 1, 37,  // OpBranch
    248, 2, 0, 37,  // OpLabel
    61, 3, 1, 3, 71, 21,  // OpLoad
    128, 3, 2, 3, 72, 71, 17,  // OpIAdd
    62, 0, 2, 21, 72,  // OpStore
    249, 0, 1, 34,  // OpBranch
    248, 2, 0, 38,  // OpLabel
    253, 0, 0,  // OpReturn
    56, 0, 0,  // OpFunctionEnd
];
/// The id bound of [`RANGE_DECODER_TEMPLATE`].
pub const RANGE_DECODER_TEMPLATE_BOUND: u32 = 73;

/// `context_size` invocations (param 0) sharing their contexts through
/// workgroup memory; invocation 0 decodes one bit per context.
pub const RANGE_DECODER_PARALLEL_TEMPLATE: [u32; 841] = [
    17, 0, 1, 1,  // OpCapability
    14, 0, 2, 0, 1,  // OpMemoryModel
    15, 0, 4, 5, 21, STR_MAIN, 19,  // OpEntryPoint
    16, 0, 5, 21, 17, PARAM_BASE + 0, 1, 1,  // OpExecutionMode
    71, 0, 3, 5, 6, 4,  // OpDecorate
    71, 0, 2, 6, 3,  // OpDecorate
    72, 0, 4, 6, 0, 35, 0,  // OpMemberDecorate
    71, 0, 3, 9, 34, 0,  // OpDecorate
    71, 0, 3, 9, 33, 0,  // OpDecorate
    71, 0, 3, 10, 34, 0,  // OpDecorate
    71, 0, 3, 10, 33, 1,  // OpDecorate
    71, 0, 3, 11, 34, 0,  // OpDecorate
    71, 0, 3, 11, 33, 2,  // OpDecorate
    71, 0, 3, 12, 34, 0,  // OpDecorate
    71, 0, 3, 12, 33, 3,  // OpDecorate
    71, 0, 3, 19, 11, 29,  // OpDecorate
    19, 2, 0, 1,  // OpTypeVoid
    33, 2, 1, 2, 1,  // OpTypeFunction
    21, 2, 2, 3, 32, 0,  // OpTypeInt
    20, 2, 0, 4,  // OpTypeBool
    29, 2, 1, 5, 3,  // OpTypeRuntimeArray
    30, 2, 1, 6, 5,  // OpTypeStruct
    32, 2, 2, 7, 2, 6,  // OpTypePointer
    32, 2, 2, 8, 2, 3,  // OpTypePointer
    59, 3, 1, 7, 9, 2,  // OpVariable
    59, 3, 1, 7, 10, 2,  // OpVariable
    59, 3, 1, 7, 11, 2,  // OpVariable
    59, 3, 1, 7, 12, 2,  // OpVariable
    43, 3, 1, 3, 13, PARAM_BASE + 0,  // OpConstant
    28, 2, 2, 14, 3, 13,  // OpTypeArray
    32, 2, 2, 15, 4, 14,  // OpTypePointer
    59, 3, 1, 15, 16, 4,  // OpVariable
    32, 2, 2, 17, 4, 3,  // OpTypePointer
    32, 2, 2, 18, 1, 3,  // OpTypePointer
    59, 3, 1, 18, 19, 1,  // OpVariable
    32, 2, 2, 20, 7, 3,  // OpTypePointer
    43, 3, 1, 3, 23, 0,  // OpConstant
    43, 3, 1, 3, 24, 1,  // OpConstant
    43, 3, 1, 3, 25, 2,  // OpConstant
    43, 3, 1, 3, 26, 8,  // OpConstant
    43, 3, 1, 3, 27, 256,  // OpConstant
    43, 3, 1, 3, 28, 65280,  // OpConstant
    43, 3, 1, 3, 29, PARAM_BASE + 0,  // OpConstant
    43, 3, 1, 3, 30, 2,  // OpConstant
    43, 3, 1, 3, 31, 264,  // OpConstant
    54, 3, 2, 1, 21, 0, 2,  // OpFunction
    248, 2, 0, 22,  // OpLabel
    59, 3, 1, 20, 32, 7,  // OpVariable
    59, 3, 1, 20, 33, 7,  // OpVariable
    59, 3, 1, 20, 34, 7,  // OpVariable
    59, 3, 1, 20, 35, 7,  // OpVariable
    61, 3, 1, 3, 36, 19,  // OpLoad
    65, 3, 3, 8, 37, 11, 23, 36,  // OpAccessChain
    61, 3, 1, 3, 38, 37,  // OpLoad
    65, 3, 2, 17, 39, 16, 36,  // OpAccessChain
    62, 0, 2, 39, 38,  // OpStore
    224, 0, 3, 30, 30, 31,  // OpControlBarrier
    170, 3, 2, 4, 40, 36, 23,  // OpIEqual
    247, 0, 2, 42, 0,  // OpSelectionMerge
    250, 0, 3, 40, 41, 42,  // OpBranchConditional
    248, 2, 0, 41,  // OpLabel
    65, 3, 3, 8, 43, 9, 23, 23,  // OpAccessChain
    61, 3, 1, 3, 44, 43,  // OpLoad
    65, 3, 3, 8, 45, 9, 23, 24,  // OpAccessChain
    61, 3, 1, 3, 46, 45,  // OpLoad
    196, 3, 2, 3, 47, 44, 26,  // OpShiftLeftLogical
    197, 3, 2, 3, 48, 47, 46,  // OpBitwiseOr
    62, 0, 2, 33, 48,  // OpStore
    62, 0, 2, 34, 28,  // OpStore
    62, 0, 2, 35, 25,  // OpStore
    62, 0, 2, 32, 23,  // OpStore
    249, 0, 1, 49,  // OpBranch
    248, 2, 0, 49,  // OpLabel
    246, 0, 3, 53, 52, 0,  // OpLoopMerge
    249, 0, 1, 50,  // OpBranch
    248, 2, 0, 50,  // OpLabel
    61, 3, 1, 3, 54, 32,  // OpLoad
    176, 3, 2, 4, 55, 54, 29,  // OpULessThan
    250, 0, 3, 55, 51, 53,  // OpBranchConditional
    248, 2, 0, 51,  // OpLabel
    65, 3, 2, 17, 56, 16, 54,  // OpAccessChain
    61, 3, 1, 3, 57, 56,  // OpLoad
    61, 3, 1, 3, 58, 34,  // OpLoad
    61, 3, 1, 3, 59, 33,  // OpLoad
    132, 3, 2, 3, 60, 58, 57,  // OpIMul
    134, 3, 2, 3, 61, 60, 27,  // OpUDiv
    130, 3, 2, 3, 62, 58, 61,  // OpISub
    176, 3, 2, 4, 63, 59, 62,  // OpULessThan
    247, 0, 2, 66, 0,  // OpSelectionMerge
    250, 0, 3, 63, 64, 65,  // OpBranchConditional
    248, 2, 0, 64,  // OpLabel
    62, 0, 2, 34, 62,  // OpStore
    65, 3, 3, 8, 67, 10, 23, 57,  // OpAccessChain
    61, 3, 1, 3, 68, 67,  // OpLoad
    65, 3, 2, 17, 69, 16, 54,  // OpAccessChain
    62, 0, 2, 69, 68,  // OpStore
    65, 3, 3, 8, 70, 12, 23, 54,  // OpAccessChain
    62, 0, 2, 70, 23,  // OpStore
    249, 0, 1, 66,  // OpBranch
    248, 2, 0, 65,  // OpLabel
    130, 3, 2, 3, 71, 59, 62,  // OpISub
    62, 0, 2, 33, 71,  // OpStore
    62, 0, 2, 34, 61,  // OpStore
    128, 3, 2, 3, 72, 57, 27,  // OpIAdd
    65, 3, 3, 8, 73, 10, 23, 72,  // OpAccessChain
    61, 3, 1, 3, 74, 73,  // OpLoad
    65, 3, 2, 17, 75, 16, 54,  // OpAccessChain
    62, 0, 2, 75, 74,  // OpStore
    65, 3, 3, 8, 76, 12, 23, 54,  // OpAccessChain
    62, 0, 2, 76, 24,  // OpStore
    249, 0, 1, 66,  // OpBranch
    248, 2, 0, 66,  // OpLabel
    61, 3, 1, 3, 77, 34,  // OpLoad
    176, 3, 2, 4, 78, 77, 27,  // OpULessThan
    247, 0, 2, 80, 0,  // OpSelectionMerge
    250, 0, 3, 78, 79, 80,  // OpBranchConditional
    248, 2, 0, 79,  // OpLabel
    132, 3, 2, 3, 81, 77, 27,  // OpIMul
    62, 0, 2, 34, 81,  // OpStore
    61, 3, 1, 3, 82, 33,  // OpLoad
    132, 3, 2, 3, 83, 82, 27,  // OpIMul
    61, 3, 1, 3, 84, 35,  // OpLoad
    65, 3, 3, 8, 85, 9, 23, 84,  // OpAccessChain
    61, 3, 1, 3, 86, 85,  // OpLoad
    128, 3, 2, 3, 87, 83, 86,  // OpIAdd
    62, 0, 2, 33, 87,  // OpStore
    128, 3, 2, 3, 88, 84, 24,  // OpIAdd
    62, 0, 2, 35, 88,  // OpStore
    249, 0, 1, 80,  // OpBranch
    248, 2, 0, 80,  // OpLabel
    249, 0, 1, 52,  // OpBranch
    248, 2, 0, 52,  // OpLabel
    61, 3, 1, 3, 89, 32,  // OpLoad
    128, 3, 2, 3, 90, 89, 24,  // OpIAdd
    62, 0, 2, 32, 90,  // OpStore
    249, 0, 1, 49,  // OpBranch
    248, 2, 0, 53,  // OpLabel
    249, 0, 1, 42,  // OpBranch
    248, 2, 0, 42,  // OpLabel
    224, 0, 3, 30, 30, 31,  // OpControlBarrier
    65, 3, 2, 17, 91, 16, 36,  // OpAccessChain
    61, 3, 1, 3, 92, 91,  // OpLoad
    65, 3, 3, 8, 93, 11, 23, 36,  // OpAccessChain
    62, 0, 2, 93, 92,  // OpStore
    253, 0, 0,  // OpReturn
    56, 0, 0,  // OpFunctionEnd
];
/// The id bound of [`RANGE_DECODER_PARALLEL_TEMPLATE`].
pub const RANGE_DECODER_PARALLEL_TEMPLATE_BOUND: u32 = 94;

} // verus!
