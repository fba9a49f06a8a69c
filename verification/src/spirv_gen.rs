//! DXBC (Shader Model 5) shaders: the decoded instruction stream of a `SHEX`
//! chunk matched against the shapes this crate translates, and the SPIR-V
//! modules built for them.
//!
//! Each translator checks the instruction stream against one family of
//! shapes and rejects anything else with the reason ([`Unsupported`]); the
//! module it emits is described word for word by a specification over the
//! shape found.

use vstd::prelude::*;
use crate::container::{
    ChunkModel, ComponentSel, ShexInstruction, ShexKind, ShexOperand, OP_ADD, OP_DIV, OP_ENDIF, OP_IF,
    OP_LD_STRUCTURED, OP_MUL, OP_RET, OP_STORE_STRUCTURED, OP_ULT, REG_CONSTANT_BUFFER, REG_THREAD_ID, REG_UAV,
};
use crate::spirv_module::{module_words, template_module, template_module_words};
use crate::spirv_templates::{
    COMPUTE_BINOP_BOUNDED_TEMPLATE, COMPUTE_BINOP_BOUNDED_TEMPLATE_BOUND, COMPUTE_BINOP_TEMPLATE,
    COMPUTE_BINOP_TEMPLATE_BOUND, COMPUTE_MULNEG_BOUNDED_TEMPLATE, COMPUTE_MULNEG_BOUNDED_TEMPLATE_BOUND,
    COMPUTE_MULNEG_TEMPLATE, COMPUTE_MULNEG_TEMPLATE_BOUND,
};
use crate::{ParseProblem, TranslateError};

verus! {

/// The binary operation of an element-wise compute shader.
#[derive(Debug, Clone, Copy, PartialEq, Eq)]
pub enum BinaryOp {
    /// `A + B`.
    Add,
    /// `A * B`.
    Mul,
    /// `A - B` (`fxc` writes it as an `add` with the second source negated).
    Sub,
    /// `A / B`.
    Div,
    /// `A * (-B)` (a `mul` with one source negated).
    MulNeg,
}

/// The expression a temporary register holds: a value loaded from a UAV,
/// or a binary operation on two such expressions.
#[derive(Debug, PartialEq)]
pub enum RegExpr {
    /// The value read from this UAV bind point.
    Load(u32),
    /// A binary operation on two sub-expressions.
    BinOp(BinaryOp, Box<RegExpr>, Box<RegExpr>),
}

/// A copy of `e`.
pub fn copy_expr(e: &RegExpr) -> (r: RegExpr)
    ensures
        r == *e,
    decreases e,
{
    match e {
        RegExpr::Load(u) => RegExpr::Load(*u),
        RegExpr::BinOp(op, l, r) => RegExpr::BinOp(*op, Box::new(copy_expr(l)), Box::new(copy_expr(r))),
    }
}

/// The UAVs an expression loads from, left to right, with repeats.
pub open spec fn loads_of(e: RegExpr) -> Seq<u32>
    decreases e,
{
    match e {
        RegExpr::Load(u) => seq![u],
        RegExpr::BinOp(_, l, r) => loads_of(*l) + loads_of(*r),
    }
}

/// Appends the UAVs that `expr` loads from, left to right, to `out`.
pub fn collect_loads(expr: &RegExpr, out: &mut Vec<u32>)
    ensures
        final(out)@ == old(out)@ + loads_of(*expr),
    decreases expr,
{
    match expr {
        RegExpr::Load(uav) => {
            out.push(*uav);
        },
        RegExpr::BinOp(_, lhs, rhs) => {
            collect_loads(lhs, out);
            collect_loads(rhs, out);
        },
    }
    assert(final(out)@ =~= old(out)@ + loads_of(*expr));
}

} // verus!

verus! {

/// The SPIR-V opcode of a binary operation on floats (`MulNeg` multiplies,
/// then negates).
pub open spec fn float_opcode(op: BinaryOp) -> u32 {
    match op {
        BinaryOp::Add => 129,
        BinaryOp::Sub => 131,
        BinaryOp::Mul => 133,
        BinaryOp::Div => 136,
        BinaryOp::MulNeg => 133,
    }
}

pub(crate) fn float_opcode_exec(op: BinaryOp) -> (r: u32)
    ensures
        r == float_opcode(op),
{
    match op {
        BinaryOp::Add => 129,
        BinaryOp::Sub => 131,
        BinaryOp::Mul => 133,
        BinaryOp::Div => 136,
        BinaryOp::MulNeg => 133,
    }
}

/// The module of the element-wise kernel `c[i] = a[i] op b[i]`: three
/// storage buffers at set 0 with the given bindings, the push constant
/// `uint n` (compared with the invocation index where `bounds_check`), the
/// thread-group size as `LocalSize`, entry point `"main"`.
pub open spec fn compute_kernel_words(
    thread_group: (u32, u32, u32),
    uav_a: u32,
    uav_b: u32,
    uav_c: u32,
    op: BinaryOp,
    bounds_check: bool,
) -> Seq<u32> {
    let params = seq![uav_a, uav_b, uav_c, thread_group.0, thread_group.1, thread_group.2, float_opcode(op)];
    if op is MulNeg {
        if bounds_check {
            template_module_words(COMPUTE_MULNEG_BOUNDED_TEMPLATE@, params, COMPUTE_MULNEG_BOUNDED_TEMPLATE_BOUND)
        } else {
            template_module_words(COMPUTE_MULNEG_TEMPLATE@, params, COMPUTE_MULNEG_TEMPLATE_BOUND)
        }
    } else {
        if bounds_check {
            template_module_words(COMPUTE_BINOP_BOUNDED_TEMPLATE@, params, COMPUTE_BINOP_BOUNDED_TEMPLATE_BOUND)
        } else {
            template_module_words(COMPUTE_BINOP_TEMPLATE@, params, COMPUTE_BINOP_TEMPLATE_BOUND)
        }
    }
}

/// The first 24 words of the element-wise templates: capability, memory
/// model, entry point, and `OpExecutionMode %main LocalSize` with the
/// thread-group size taken from parameters 3, 4 and 5.
pub open spec fn compute_template_prefix() -> Seq<u32> {
    seq![
        17u32, 0, 1, 1, 14, 0, 2, 0, 1, 15, 0, 4, 5, 20, crate::spirv_module::STR_MAIN, 17, 16, 0, 5, 20, 17,
        0xF000_0003u32, 0xF000_0004u32, 0xF000_0005u32,
    ]
}

/// `OpExecutionMode %main LocalSize x y z` (the entry point's id is 20).
pub open spec fn local_size_mode(x: u32, y: u32, z: u32) -> crate::spirv_module::InstructionView {
    crate::spirv_module::InstructionView {
        opcode: 16,
        result_type: None,
        result_id: None,
        operands: seq![
            crate::spirv_module::OperandView::Word(20),
            crate::spirv_module::OperandView::Word(17),
            crate::spirv_module::OperandView::Word(x),
            crate::spirv_module::OperandView::Word(y),
            crate::spirv_module::OperandView::Word(z),
        ],
    }
}

proof fn lemma_compute_template_local_size(t: Seq<u32>, params: Seq<u32>)
    requires
        t.len() >= 24,
        t.subrange(0, 24) == compute_template_prefix(),
        params.len() == 7,
    ensures
        crate::spirv_module::template_insts_from(t, params, 0).len() > 3,
        crate::spirv_module::template_insts_from(t, params, 0)[3] == local_size_mode(params[3], params[4], params[5]),
{
    let pre = compute_template_prefix();
    assert forall|i: int| 0 <= i < 24 implies t[i] == #[trigger] pre[i] by {
        assert(t.subrange(0, 24)[i] == t[i]);
    }
    assert(t[0] == 17 && t[1] == 0 && t[2] == 1);
    assert(t[4] == 14 && t[5] == 0 && t[6] == 2);
    assert(t[9] == 15 && t[10] == 0 && t[11] == 4);
    assert(t[16] == 16 && t[17] == 0 && t[18] == 5);
    assert(t[19] == 20 && t[20] == 17);
    assert(t[21] == crate::spirv_module::PARAM_BASE + 3 && t[22] == crate::spirv_module::PARAM_BASE + 4
        && t[23] == crate::spirv_module::PARAM_BASE + 5);
    let i3 = crate::spirv_module::template_inst_at(t, params, 16).unwrap();
    assert(crate::spirv_module::template_inst_at(t, params, 0) matches Some((_, n)) && n == 4);
    assert(crate::spirv_module::template_inst_at(t, params, 4) matches Some((_, n)) && n == 9);
    assert(crate::spirv_module::template_inst_at(t, params, 9) matches Some((_, n)) && n == 16);
    assert(crate::spirv_module::template_inst_at(t, params, 16) matches Some((_, n)) && n == 24);
    assert(i3.0.operands =~= local_size_mode(params[3], params[4], params[5]).operands);
    assert(crate::spirv_module::template_insts_from(t, params, 16)[0] == i3.0);
    assert(crate::spirv_module::template_insts_from(t, params, 9)[1] == i3.0);
    assert(crate::spirv_module::template_insts_from(t, params, 4)[2] == i3.0);
}

/// Every element-wise kernel declares the shader's thread-group size: in
/// each of the four element-wise templates, the fourth instruction is
/// `OpExecutionMode %main LocalSize` with `thread_group`.
pub proof fn lemma_compute_kernel_local_size(thread_group: (u32, u32, u32), params: Seq<u32>)
    requires
        params.len() == 7,
        params[3] == thread_group.0,
        params[4] == thread_group.1,
        params[5] == thread_group.2,
    ensures
        crate::spirv_module::template_insts_from(COMPUTE_BINOP_TEMPLATE@, params, 0)[3]
            == local_size_mode(thread_group.0, thread_group.1, thread_group.2),
        crate::spirv_module::template_insts_from(COMPUTE_BINOP_BOUNDED_TEMPLATE@, params, 0)[3]
            == local_size_mode(thread_group.0, thread_group.1, thread_group.2),
        crate::spirv_module::template_insts_from(COMPUTE_MULNEG_TEMPLATE@, params, 0)[3]
            == local_size_mode(thread_group.0, thread_group.1, thread_group.2),
        crate::spirv_module::template_insts_from(COMPUTE_MULNEG_BOUNDED_TEMPLATE@, params, 0)[3]
            == local_size_mode(thread_group.0, thread_group.1, thread_group.2),
{
    assert(COMPUTE_BINOP_TEMPLATE@.subrange(0, 24) =~= compute_template_prefix());
    lemma_compute_template_local_size(COMPUTE_BINOP_TEMPLATE@, params);
    assert(COMPUTE_BINOP_BOUNDED_TEMPLATE@.subrange(0, 24) =~= compute_template_prefix());
    lemma_compute_template_local_size(COMPUTE_BINOP_BOUNDED_TEMPLATE@, params);
    assert(COMPUTE_MULNEG_TEMPLATE@.subrange(0, 24) =~= compute_template_prefix());
    lemma_compute_template_local_size(COMPUTE_MULNEG_TEMPLATE@, params);
    assert(COMPUTE_MULNEG_BOUNDED_TEMPLATE@.subrange(0, 24) =~= compute_template_prefix());
    lemma_compute_template_local_size(COMPUTE_MULNEG_BOUNDED_TEMPLATE@, params);
}

/// Builds the SPIR-V module of the element-wise kernel `c[i] = a[i] op b[i]`
/// (see [`compute_kernel_words`]); shared by the DXBC and DXIL translators.
pub fn emit_spirv_for_kernel(
    thread_group: (u32, u32, u32),
    uav_a: u32,
    uav_b: u32,
    uav_c: u32,
    op: BinaryOp,
    bounds_check: bool,
) -> (words: Vec<u32>)
    ensures
        words@ == compute_kernel_words(thread_group, uav_a, uav_b, uav_c, op, bounds_check),
{
    let params: Vec<u32> = vec![uav_a, uav_b, uav_c, thread_group.0, thread_group.1, thread_group.2, float_opcode_exec(op)];
    let ghost p = seq![uav_a, uav_b, uav_c, thread_group.0, thread_group.1, thread_group.2, float_opcode(op)];
    assert(params@ =~= p);
    match op {
        BinaryOp::MulNeg => {
            if bounds_check {
                template_module(&COMPUTE_MULNEG_BOUNDED_TEMPLATE, params.as_slice(), COMPUTE_MULNEG_BOUNDED_TEMPLATE_BOUND)
            } else {
                template_module(&COMPUTE_MULNEG_TEMPLATE, params.as_slice(), COMPUTE_MULNEG_TEMPLATE_BOUND)
            }
        },
        _ => {
            if bounds_check {
                template_module(&COMPUTE_BINOP_BOUNDED_TEMPLATE, params.as_slice(), COMPUTE_BINOP_BOUNDED_TEMPLATE_BOUND)
            } else {
                template_module(&COMPUTE_BINOP_TEMPLATE, params.as_slice(), COMPUTE_BINOP_TEMPLATE_BOUND)
            }
        },
    }
}

} // verus!

verus! {

/// Why a shader is outside the shapes a translator accepts.
#[derive(Debug, Clone, Copy, PartialEq, Eq)]
pub enum Unsupported {
    /// The instruction with this opcode has no operand at this position.
    MissingOperand(u32, usize),
    /// The operand at this position of the instruction with this opcode is
    /// in another register file than the shape needs.
    WrongRegister(u32, usize),
    /// The operand at this position of the instruction with this opcode has
    /// no immediate first index.
    UnresolvedIndex(u32, usize),
    /// A constant buffer other than `cb0`.
    ConstantBufferNotB0,
    /// A structured UAV whose stride is not 4 (one float).
    Stride(u32),
    /// An `if` that no `ult` comes before.
    IfWithoutCompare,
    /// An instruction with this opcode, which the shape does not contain.
    UnexpectedOpcode(u32),
    /// A declaration with this opcode, which the shape does not contain.
    UnexpectedDeclaration(u32),
    /// A `mul` with both sources negated.
    BothSourcesNegated,
    /// This many structured UAVs, another number than the shape has.
    UavCount(usize),
    /// No `dcl_thread_group`.
    NoThreadGroup,
    /// This many `ld_structured`, where the shape has two.
    LoadCount(usize),
    /// No arithmetic instruction.
    NoArithmetic,
    /// No `store_structured`.
    NoStore,
    /// No `ret`.
    NoReturn,
    /// Only part of the bounds check (`cb0`, `ult`, `if`, `endif`).
    PartialBoundsCheck,
    /// The operand at this position of the instruction with this opcode is
    /// not one component of a temporary register (a one-bit write mask, or a
    /// scalar read).
    NotTempComponent(u32, usize),
    /// A negated operand on the instruction with this opcode (only `add`
    /// may negate, as a subtraction).
    NegatedOperand(u32),
    /// The operand at this position of the instruction with this opcode
    /// reads a temporary component that nothing wrote before.
    UndefinedTemp(u32, usize),
    /// This many structured UAVs, where the shape needs at least two.
    TooFewUavs(usize),
    /// The stored value is a loaded value, with no operation on it.
    PlainCopy,
    /// The instruction at this position is not the one the shape has there.
    Mismatch(usize),
    /// The stream ends before the instruction at this position.
    TooShort(usize),
    /// The stream goes on after the shape's last instruction.
    TooLong,
    /// A thread-group size other than the shape's.
    ThreadGroup(u32, u32, u32),
    /// The opcodes are not the shape's sequence.
    OpcodeSequence,
    /// No constant buffer.
    NoConstantBuffer,
    /// UAVs other than `u0` then `u1`.
    UavBindPoints,
    /// An expression whose module would need an id bound beyond 32 bits
    /// (see `chain::chain_id_bound`).
    ExpressionTooLarge,
}

/// Why a translation failed.
#[derive(Debug, Clone, Copy, PartialEq, Eq)]
pub enum SpirvGenError {
    /// The container could not be read or lacks a chunk.
    Translate(TranslateError),
    /// The shader is outside the translator's shapes.
    UnsupportedShader(Unsupported),
}

/// The operand at position `k`, where there is one.
pub open spec fn operand_at(ins: ShexInstruction, k: int) -> Option<ShexOperand> {
    if 0 <= k < ins.operands@.len() {
        Some(ins.operands@[k])
    } else {
        None
    }
}

/// The first index of an operand, where it is an immediate.
pub open spec fn first_index(op: ShexOperand) -> Option<u32> {
    if op.indices@.len() > 0 {
        op.indices@[0]
    } else {
        None
    }
}

pub fn first_index_exec(op: &ShexOperand) -> (r: Option<u32>)
    ensures
        r == first_index(*op),
{
    if op.indices.len() > 0 {
        op.indices[0]
    } else {
        None
    }
}

/// The element-wise shape found in a compute shader.
#[derive(Debug, Clone, Copy, PartialEq, Eq)]
pub struct ShaderShape {
    pub thread_group: (u32, u32, u32),
    /// The UAV of the first and of the second `ld_structured`, and of the
    /// `store_structured`.
    pub uav_a: u32,
    pub uav_b: u32,
    pub uav_c: u32,
    pub op: BinaryOp,
    /// Whether the body is guarded by `if (i < n)` (`cb0`, `ult`, `if`,
    /// `endif`).
    pub bounds_check: bool,
}

/// What the scan of an element-wise compute shader has seen so far.
pub struct ComputeScan {
    pub has_cbuffer: bool,
    pub uavs: nat,
    pub thread_group: Option<(u32, u32, u32)>,
    pub loads: Seq<u32>,
    pub store: Option<u32>,
    pub op: Option<BinaryOp>,
    pub saw_ult: bool,
    pub saw_if: bool,
    pub saw_endif: bool,
    pub saw_ret: bool,
}

pub open spec fn compute_scan_start() -> ComputeScan {
    ComputeScan {
        has_cbuffer: false,
        uavs: 0,
        thread_group: None,
        loads: Seq::empty(),
        store: None,
        op: None,
        saw_ult: false,
        saw_if: false,
        saw_endif: false,
        saw_ret: false,
    }
}

/// The check of a `dcl_constantbuffer`: `cb0`.
pub open spec fn cbuffer_check(ins: ShexInstruction) -> Result<(), Unsupported> {
    match operand_at(ins, 0) {
        None => Err(Unsupported::MissingOperand(ins.opcode, 0)),
        Some(o) => if o.reg_type != REG_CONSTANT_BUFFER {
            Err(Unsupported::WrongRegister(ins.opcode, 0))
        } else if first_index(o) != Some(0u32) {
            Err(Unsupported::ConstantBufferNotB0)
        } else {
            Ok(())
        },
    }
}

/// The check of a `dcl_uav_structured`: stride 4, a UAV with an immediate
/// index, which is returned.
pub open spec fn uav_decl_check(ins: ShexInstruction, stride: u32) -> Result<u32, Unsupported> {
    if stride != 4 {
        Err(Unsupported::Stride(stride))
    } else {
        match operand_at(ins, 0) {
            None => Err(Unsupported::MissingOperand(ins.opcode, 0)),
            Some(o) => if o.reg_type != REG_UAV {
                Err(Unsupported::WrongRegister(ins.opcode, 0))
            } else {
                match first_index(o) {
                    None => Err(Unsupported::UnresolvedIndex(ins.opcode, 0)),
                    Some(i) => Ok(i),
                }
            },
        }
    }
}

/// The check of a `dcl_input`: the thread id.
pub open spec fn thread_input_check(ins: ShexInstruction) -> Result<(), Unsupported> {
    match operand_at(ins, 0) {
        None => Err(Unsupported::MissingOperand(ins.opcode, 0)),
        Some(o) => if o.reg_type != REG_THREAD_ID {
            Err(Unsupported::WrongRegister(ins.opcode, 0))
        } else {
            Ok(())
        },
    }
}

/// The check of a `ult`: its second source is in a constant buffer.
pub open spec fn ult_check(ins: ShexInstruction) -> Result<(), Unsupported> {
    match operand_at(ins, 2) {
        None => Err(Unsupported::MissingOperand(ins.opcode, 2)),
        Some(o) => if o.reg_type != REG_CONSTANT_BUFFER {
            Err(Unsupported::WrongRegister(ins.opcode, 2))
        } else {
            Ok(())
        },
    }
}

/// The UAV an operand at position `k` names, where it is one with an
/// immediate index.
pub open spec fn uav_operand(ins: ShexInstruction, k: int) -> Result<u32, Unsupported> {
    match operand_at(ins, k) {
        None => Err(Unsupported::MissingOperand(ins.opcode, k as usize)),
        Some(o) => if o.reg_type != REG_UAV {
            Err(Unsupported::WrongRegister(ins.opcode, k as usize))
        } else {
            match first_index(o) {
                None => Err(Unsupported::UnresolvedIndex(ins.opcode, k as usize)),
                Some(i) => Ok(i),
            }
        },
    }
}

/// The check that the operand at position `k` is the thread id.
pub open spec fn thread_operand(ins: ShexInstruction, k: int) -> Result<(), Unsupported> {
    match operand_at(ins, k) {
        None => Err(Unsupported::MissingOperand(ins.opcode, k as usize)),
        Some(o) => if o.reg_type != REG_THREAD_ID {
            Err(Unsupported::WrongRegister(ins.opcode, k as usize))
        } else {
            Ok(())
        },
    }
}

/// The check of an `ld_structured` of the element-wise shape: the UAV
/// (operand 3), then the thread-id address (operand 1); returns the UAV.
pub open spec fn load_check(ins: ShexInstruction) -> Result<u32, Unsupported> {
    match uav_operand(ins, 3) {
        Err(e) => Err(e),
        Ok(u) => match thread_operand(ins, 1) {
            Err(e) => Err(e),
            Ok(_) => Ok(u),
        },
    }
}

/// The operation of a `mul`: `Mul`, or `MulNeg` with one source negated.
pub open spec fn mul_op(ins: ShexInstruction) -> Result<BinaryOp, Unsupported> {
    match operand_at(ins, 1) {
        None => Err(Unsupported::MissingOperand(ins.opcode, 1)),
        Some(a) => match operand_at(ins, 2) {
            None => Err(Unsupported::MissingOperand(ins.opcode, 2)),
            Some(b) => if a.negate && b.negate {
                Err(Unsupported::BothSourcesNegated)
            } else if a.negate || b.negate {
                Ok(BinaryOp::MulNeg)
            } else {
                Ok(BinaryOp::Mul)
            },
        },
    }
}

/// One instruction of the element-wise shape.
pub open spec fn compute_step(st: ComputeScan, ins: ShexInstruction) -> Result<ComputeScan, Unsupported> {
    let opc = ins.opcode;
    match ins.kind {
        ShexKind::GlobalFlags => Ok(st),
        ShexKind::ConstantBuffer => match cbuffer_check(ins) {
            Err(e) => Err(e),
            Ok(_) => Ok(ComputeScan { has_cbuffer: true, ..st }),
        },
        ShexKind::UavStructured { stride } => match uav_decl_check(ins, stride) {
            Err(e) => Err(e),
            Ok(_) => Ok(ComputeScan { uavs: st.uavs + 1, ..st }),
        },
        ShexKind::Input { .. } => match thread_input_check(ins) {
            Err(e) => Err(e),
            Ok(_) => Ok(st),
        },
        ShexKind::Temps => Ok(st),
        ShexKind::ThreadGroup { x, y, z } => Ok(ComputeScan { thread_group: Some((x, y, z)), ..st }),
        ShexKind::Generic => if opc == OP_ULT {
            match ult_check(ins) {
                Err(e) => Err(e),
                Ok(_) => Ok(ComputeScan { saw_ult: true, ..st }),
            }
        } else if opc == OP_IF {
            if !st.saw_ult {
                Err(Unsupported::IfWithoutCompare)
            } else {
                Ok(ComputeScan { saw_if: true, ..st })
            }
        } else if opc == OP_ENDIF {
            Ok(ComputeScan { saw_endif: true, ..st })
        } else if opc == OP_LD_STRUCTURED {
            match load_check(ins) {
                Err(e) => Err(e),
                Ok(u) => Ok(ComputeScan { loads: st.loads.push(u), ..st }),
            }
        } else if opc == OP_ADD {
            match operand_at(ins, 1) {
                None => Err(Unsupported::MissingOperand(opc, 1)),
                Some(s1) => Ok(
                    ComputeScan {
                        op: Some(
                            if s1.negate {
                                BinaryOp::Sub
                            } else {
                                BinaryOp::Add
                            },
                        ),
                        ..st
                    },
                ),
            }
        } else if opc == OP_MUL {
            match mul_op(ins) {
                Err(e) => Err(e),
                Ok(o) => Ok(ComputeScan { op: Some(o), ..st }),
            }
        } else if opc == OP_DIV {
            Ok(ComputeScan { op: Some(BinaryOp::Div), ..st })
        } else if opc == OP_STORE_STRUCTURED {
            match uav_operand(ins, 0) {
                Err(e) => Err(e),
                Ok(u) => Ok(ComputeScan { store: Some(u), ..st }),
            }
        } else if opc == OP_RET {
            Ok(ComputeScan { saw_ret: true, ..st })
        } else {
            Err(Unsupported::UnexpectedOpcode(opc))
        },
        _ => Err(Unsupported::UnexpectedDeclaration(opc)),
    }
}

/// How the element-wise shape reads a `mul`: a negation on exactly one of
/// its two sources, whichever it is, makes it `MulNeg` (multiply, then
/// negate); no negation makes it `Mul`; negations on both are refused. So
/// moving the negation from one source to the other does not change the
/// operation.
pub proof fn lemma_mul_negation(st: ComputeScan, ins: ShexInstruction)
    requires
        ins.kind is Generic,
        ins.opcode == OP_MUL,
        ins.operands@.len() >= 3,
    ensures
        ({
            let a = ins.operands@[1].negate;
            let b = ins.operands@[2].negate;
            &&& a != b ==> (compute_step(st, ins) matches Ok(s2) && s2.op == Some(BinaryOp::MulNeg))
            &&& (!a && !b) ==> (compute_step(st, ins) matches Ok(s2) && s2.op == Some(BinaryOp::Mul))
            &&& (a && b) ==> compute_step(st, ins) is Err
        }),
{
}

/// The scan of an element-wise compute shader over `ins`, stopped at the
/// first instruction it rejects.
pub open spec fn compute_scan(ins: Seq<ShexInstruction>) -> Result<ComputeScan, Unsupported>
    decreases ins.len(),
{
    if ins.len() == 0 {
        Ok(compute_scan_start())
    } else {
        match compute_scan(ins.drop_last()) {
            Err(e) => Err(e),
            Ok(st) => compute_step(st, ins.last()),
        }
    }
}

/// Whether the bounds check is all there (`Some(true)`), all missing
/// (`Some(false)`), or there in part (`None`).
pub open spec fn bounds_check_of(has_cbuffer: bool, saw_ult: bool, saw_if: bool, saw_endif: bool) -> Option<bool> {
    let all = has_cbuffer && saw_ult && saw_if && saw_endif;
    if has_cbuffer != all || saw_ult != all || saw_if != all || saw_endif != all {
        None
    } else {
        Some(all)
    }
}

/// The element-wise shape of a compute shader's instructions: three UAVs,
/// a thread-group size, two loads, one operation, a store and a `ret`, with
/// the bounds check all there or all missing.
pub open spec fn compute_shape(ins: Seq<ShexInstruction>) -> Result<ShaderShape, Unsupported> {
    match compute_scan(ins) {
        Err(e) => Err(e),
        Ok(st) => if st.uavs != 3 {
            Err(Unsupported::UavCount(st.uavs as usize))
        } else if st.thread_group is None {
            Err(Unsupported::NoThreadGroup)
        } else if st.loads.len() != 2 {
            Err(Unsupported::LoadCount(st.loads.len() as usize))
        } else if st.op is None {
            Err(Unsupported::NoArithmetic)
        } else if st.store is None {
            Err(Unsupported::NoStore)
        } else if !st.saw_ret {
            Err(Unsupported::NoReturn)
        } else {
            match bounds_check_of(st.has_cbuffer, st.saw_ult, st.saw_if, st.saw_endif) {
                None => Err(Unsupported::PartialBoundsCheck),
                Some(bc) => Ok(
                    ShaderShape {
                        thread_group: st.thread_group.unwrap(),
                        uav_a: st.loads[0],
                        uav_b: st.loads[1],
                        uav_c: st.store.unwrap(),
                        op: st.op.unwrap(),
                        bounds_check: bc,
                    },
                ),
            }
        },
    }
}

pub(crate) fn operand_ref(ins: &ShexInstruction, k: usize) -> (r: Option<&ShexOperand>)
    ensures
        match r {
            Some(o) => operand_at(*ins, k as int) == Some(*o),
            None => operand_at(*ins, k as int) is None,
        },
{
    if k < ins.operands.len() {
        Some(&ins.operands[k])
    } else {
        None
    }
}

pub(crate) fn cbuffer_check_exec(ins: &ShexInstruction) -> (r: Result<(), Unsupported>)
    ensures
        r == cbuffer_check(*ins),
{
    match operand_ref(ins, 0) {
        None => Err(Unsupported::MissingOperand(ins.opcode, 0)),
        Some(o) => if o.reg_type != REG_CONSTANT_BUFFER {
            Err(Unsupported::WrongRegister(ins.opcode, 0))
        } else {
            match first_index_exec(o) {
                Some(0u32) => Ok(()),
                _ => Err(Unsupported::ConstantBufferNotB0),
            }
        },
    }
}

pub(crate) fn uav_decl_check_exec(ins: &ShexInstruction, stride: u32) -> (r: Result<u32, Unsupported>)
    ensures
        r == uav_decl_check(*ins, stride),
{
    if stride != 4 {
        return Err(Unsupported::Stride(stride));
    }
    match operand_ref(ins, 0) {
        None => Err(Unsupported::MissingOperand(ins.opcode, 0)),
        Some(o) => if o.reg_type != REG_UAV {
            Err(Unsupported::WrongRegister(ins.opcode, 0))
        } else {
            match first_index_exec(o) {
                None => Err(Unsupported::UnresolvedIndex(ins.opcode, 0)),
                Some(i) => Ok(i),
            }
        },
    }
}

pub(crate) fn thread_input_check_exec(ins: &ShexInstruction) -> (r: Result<(), Unsupported>)
    ensures
        r == thread_input_check(*ins),
{
    match operand_ref(ins, 0) {
        None => Err(Unsupported::MissingOperand(ins.opcode, 0)),
        Some(o) => if o.reg_type != REG_THREAD_ID {
            Err(Unsupported::WrongRegister(ins.opcode, 0))
        } else {
            Ok(())
        },
    }
}

pub(crate) fn ult_check_exec(ins: &ShexInstruction) -> (r: Result<(), Unsupported>)
    ensures
        r == ult_check(*ins),
{
    match operand_ref(ins, 2) {
        None => Err(Unsupported::MissingOperand(ins.opcode, 2)),
        Some(o) => if o.reg_type != REG_CONSTANT_BUFFER {
            Err(Unsupported::WrongRegister(ins.opcode, 2))
        } else {
            Ok(())
        },
    }
}

pub(crate) fn uav_operand_exec(ins: &ShexInstruction, k: usize) -> (r: Result<u32, Unsupported>)
    ensures
        r == uav_operand(*ins, k as int),
{
    match operand_ref(ins, k) {
        None => Err(Unsupported::MissingOperand(ins.opcode, k)),
        Some(o) => if o.reg_type != REG_UAV {
            Err(Unsupported::WrongRegister(ins.opcode, k))
        } else {
            match first_index_exec(o) {
                None => Err(Unsupported::UnresolvedIndex(ins.opcode, k)),
                Some(i) => Ok(i),
            }
        },
    }
}

pub(crate) fn thread_operand_exec(ins: &ShexInstruction, k: usize) -> (r: Result<(), Unsupported>)
    ensures
        r == thread_operand(*ins, k as int),
{
    match operand_ref(ins, k) {
        None => Err(Unsupported::MissingOperand(ins.opcode, k)),
        Some(o) => if o.reg_type != REG_THREAD_ID {
            Err(Unsupported::WrongRegister(ins.opcode, k))
        } else {
            Ok(())
        },
    }
}

fn load_check_exec(ins: &ShexInstruction) -> (r: Result<u32, Unsupported>)
    ensures
        r == load_check(*ins),
{
    let u = match uav_operand_exec(ins, 3) {
        Err(e) => {
            return Err(e);
        },
        Ok(u) => u,
    };
    match thread_operand_exec(ins, 1) {
        Err(e) => Err(e),
        Ok(_) => Ok(u),
    }
}

fn mul_op_exec(ins: &ShexInstruction) -> (r: Result<BinaryOp, Unsupported>)
    ensures
        r == mul_op(*ins),
{
    match operand_ref(ins, 1) {
        None => Err(Unsupported::MissingOperand(ins.opcode, 1)),
        Some(a) => match operand_ref(ins, 2) {
            None => Err(Unsupported::MissingOperand(ins.opcode, 2)),
            Some(b) => if a.negate && b.negate {
                Err(Unsupported::BothSourcesNegated)
            } else if a.negate || b.negate {
                Ok(BinaryOp::MulNeg)
            } else {
                Ok(BinaryOp::Mul)
            },
        },
    }
}

/// The scan state of [`decode_shader_shape`], as executed.
struct ComputeScanState {
    has_cbuffer: bool,
    uavs: usize,
    thread_group: Option<(u32, u32, u32)>,
    loads: Vec<u32>,
    store: Option<u32>,
    op: Option<BinaryOp>,
    saw_ult: bool,
    saw_if: bool,
    saw_endif: bool,
    saw_ret: bool,
}

impl ComputeScanState {
    spec fn model(&self) -> ComputeScan {
        ComputeScan {
            has_cbuffer: self.has_cbuffer,
            uavs: self.uavs as nat,
            thread_group: self.thread_group,
            loads: self.loads@,
            store: self.store,
            op: self.op,
            saw_ult: self.saw_ult,
            saw_if: self.saw_if,
            saw_endif: self.saw_endif,
            saw_ret: self.saw_ret,
        }
    }

    fn step(&mut self, ins: &ShexInstruction) -> (r: Result<(), Unsupported>)
        requires
            old(self).uavs < usize::MAX,
        ensures
            match compute_step(old(self).model(), *ins) {
                Ok(st) => r is Ok && final(self).model() == st,
                Err(e) => r == Err::<(), Unsupported>(e),
            },
            final(self).uavs <= old(self).uavs + 1,
    {
        let opc = ins.opcode;
        match &ins.kind {
            ShexKind::GlobalFlags => Ok(()),
            ShexKind::ConstantBuffer => {
                cbuffer_check_exec(ins)?;
                self.has_cbuffer = true;
                Ok(())
            },
            ShexKind::UavStructured { stride } => {
                match uav_decl_check_exec(ins, *stride) {
                    Err(e) => {
                        return Err(e);
                    },
                    Ok(_) => {},
                }
                self.uavs = self.uavs + 1;
                Ok(())
            },
            ShexKind::Input { .. } => thread_input_check_exec(ins),
            ShexKind::Temps => Ok(()),
            ShexKind::ThreadGroup { x, y, z } => {
                self.thread_group = Some((*x, *y, *z));
                Ok(())
            },
            ShexKind::Generic => {
                if opc == OP_ULT {
                    ult_check_exec(ins)?;
                    self.saw_ult = true;
                } else if opc == OP_IF {
                    if !self.saw_ult {
                        return Err(Unsupported::IfWithoutCompare);
                    }
                    self.saw_if = true;
                } else if opc == OP_ENDIF {
                    self.saw_endif = true;
                } else if opc == OP_LD_STRUCTURED {
                    let u = match load_check_exec(ins) {
                        Err(e) => {
                            return Err(e);
                        },
                        Ok(u) => u,
                    };
                    self.loads.push(u);
                } else if opc == OP_ADD {
                    match operand_ref(ins, 1) {
                        None => {
                            return Err(Unsupported::MissingOperand(opc, 1));
                        },
                        Some(s1) => {
                            self.op = Some(
                                if s1.negate {
                                    BinaryOp::Sub
                                } else {
                                    BinaryOp::Add
                                },
                            );
                        },
                    }
                } else if opc == OP_MUL {
                    let o = match mul_op_exec(ins) {
                        Err(e) => {
                            return Err(e);
                        },
                        Ok(o) => o,
                    };
                    self.op = Some(o);
                } else if opc == OP_DIV {
                    self.op = Some(BinaryOp::Div);
                } else if opc == OP_STORE_STRUCTURED {
                    let u = match uav_operand_exec(ins, 0) {
                        Err(e) => {
                            return Err(e);
                        },
                        Ok(u) => u,
                    };
                    self.store = Some(u);
                } else if opc == OP_RET {
                    self.saw_ret = true;
                } else {
                    return Err(Unsupported::UnexpectedOpcode(opc));
                }
                Ok(())
            },
            _ => Err(Unsupported::UnexpectedDeclaration(opc)),
        }
    }
}

/// Matches a compute shader's instructions against the element-wise shape
/// (see [`compute_shape`]).
pub fn decode_shader_shape(instructions: &[ShexInstruction]) -> (r: Result<ShaderShape, Unsupported>)
    ensures
        r == compute_shape(instructions@),
{
    let mut st = ComputeScanState {
        has_cbuffer: false,
        uavs: 0,
        thread_group: None,
        loads: Vec::new(),
        store: None,
        op: None,
        saw_ult: false,
        saw_if: false,
        saw_endif: false,
        saw_ret: false,
    };
    assert(st.model() == compute_scan_start()) by {
        assert(st.loads@ =~= Seq::<u32>::empty());
    }
    let mut i: usize = 0;
    while i < instructions.len()
        invariant
            i <= instructions@.len(),
            st.uavs <= i,
            compute_scan(instructions@.take(i as int)) == Ok::<ComputeScan, Unsupported>(st.model()),
        decreases instructions@.len() - i,
    {
        let r = st.step(&instructions[i]);
        assert(instructions@.take(i as int + 1).drop_last() =~= instructions@.take(i as int));
        match r {
            Err(e) => {
                proof {
                    lemma_compute_scan_stays_err(instructions@, i as int + 1, e);
                }
                assert(instructions@.take(instructions@.len() as int) =~= instructions@);
                return Err(e);
            },
            Ok(_) => {},
        }
        i = i + 1;
    }
    assert(instructions@.take(instructions@.len() as int) =~= instructions@);
    if st.uavs != 3 {
        return Err(Unsupported::UavCount(st.uavs));
    }
    let thread_group = match st.thread_group {
        None => {
            return Err(Unsupported::NoThreadGroup);
        },
        Some(t) => t,
    };
    if st.loads.len() != 2 {
        return Err(Unsupported::LoadCount(st.loads.len()));
    }
    let op = match st.op {
        None => {
            return Err(Unsupported::NoArithmetic);
        },
        Some(o) => o,
    };
    let store = match st.store {
        None => {
            return Err(Unsupported::NoStore);
        },
        Some(s) => s,
    };
    if !st.saw_ret {
        return Err(Unsupported::NoReturn);
    }
    let all = st.has_cbuffer && st.saw_ult && st.saw_if && st.saw_endif;
    if st.has_cbuffer != all || st.saw_ult != all || st.saw_if != all || st.saw_endif != all {
        return Err(Unsupported::PartialBoundsCheck);
    }
    Ok(ShaderShape { thread_group, uav_a: st.loads[0], uav_b: st.loads[1], uav_c: store, op, bounds_check: all })
}

/// Once the scan rejects a prefix, it rejects every longer one the same way.
proof fn lemma_compute_scan_stays_err(ins: Seq<ShexInstruction>, n: int, e: Unsupported)
    requires
        0 <= n <= ins.len(),
        compute_scan(ins.take(n)) == Err::<ComputeScan, Unsupported>(e),
    ensures
        compute_scan(ins) == Err::<ComputeScan, Unsupported>(e),
    decreases ins.len() - n,
{
    if n < ins.len() {
        assert(ins.take(n + 1).drop_last() =~= ins.take(n));
        lemma_compute_scan_stays_err(ins, n + 1, e);
    } else {
        assert(ins.take(n) =~= ins);
    }
}

} // verus!

verus! {

/// A translated element-wise compute kernel and what a Vulkan dispatch
/// needs of it.
#[derive(Debug)]
pub struct TranslatedKernel {
    /// The SPIR-V module.
    pub spirv_words: Vec<u32>,
    /// The entry point's name (always `"main"`).
    pub entry_point: &'static str,
    /// The thread-group size of `dcl_thread_group`.
    pub local_size: (u32, u32, u32),
    /// The UAV bind points `(a, b, c)`: the two read and the written one.
    pub uav_bind_points: (u32, u32, u32),
}

/// Whether `k` is the kernel of shape `s`.
pub open spec fn is_kernel_of(k: TranslatedKernel, s: ShaderShape) -> bool {
    &&& k.spirv_words@ == compute_kernel_words(s.thread_group, s.uav_a, s.uav_b, s.uav_c, s.op, s.bounds_check)
    &&& k.entry_point@ == "main"@
    &&& k.local_size == s.thread_group
    &&& k.uav_bind_points == (s.uav_a, s.uav_b, s.uav_c)
}

/// The outcome of translating an element-wise compute shader's
/// instructions: the kernel of its shape, or why it has none.
pub open spec fn compute_translation_ok(ins: Seq<ShexInstruction>, r: Result<TranslatedKernel, SpirvGenError>) -> bool {
    match compute_shape(ins) {
        Ok(s) => r matches Ok(k) && is_kernel_of(k, s),
        Err(e) => r == Err::<TranslatedKernel, SpirvGenError>(SpirvGenError::UnsupportedShader(e)),
    }
}

/// Translates the instructions of an element-wise compute shader: the
/// kernel of its shape (see [`compute_shape`]), or why it has none.
pub fn translate_shader_instructions(instructions: &[ShexInstruction]) -> (r: Result<TranslatedKernel, SpirvGenError>)
    ensures
        compute_translation_ok(instructions@, r),
{
    let shape = match decode_shader_shape(instructions) {
        Ok(s) => s,
        Err(e) => {
            return Err(SpirvGenError::UnsupportedShader(e));
        },
    };
    let spirv_words = emit_spirv_for_kernel(
        shape.thread_group,
        shape.uav_a,
        shape.uav_b,
        shape.uav_c,
        shape.op,
        shape.bounds_check,
    );
    Ok(TranslatedKernel {
        spirv_words,
        entry_point: "main",
        local_size: shape.thread_group,
        uav_bind_points: (shape.uav_a, shape.uav_b, shape.uav_c),
    })
}

/// The index of the last shader chunk.
pub fn last_shader_chunk(chunks: &[ChunkModel]) -> (r: Option<usize>)
    ensures
        match r {
            Some(k) => crate::last_shader_before(chunks@, chunks@.len() as int) == Some(k as int),
            None => crate::last_shader_before(chunks@, chunks@.len() as int) is None,
        },
{
    let mut found: Option<usize> = None;
    let mut i: usize = 0;
    while i < chunks.len()
        invariant
            i <= chunks@.len(),
            match found {
                Some(k) => crate::last_shader_before(chunks@, i as int) == Some(k as int),
                None => crate::last_shader_before(chunks@, i as int) is None,
            },
        decreases chunks@.len() - i,
    {
        match &chunks[i] {
            ChunkModel::Shader(_) => {
                found = Some(i);
            },
            _ => {},
        }
        i = i + 1;
    }
    found
}

/// The instructions of the last shader chunk among `chunks`.
pub open spec fn shader_instructions_of(chunks: Seq<ChunkModel>) -> Option<Seq<ShexInstruction>> {
    match crate::last_shader_before(chunks, chunks.len() as int) {
        Some(k) => match chunks[k] {
            ChunkModel::Shader(v) => Some(v@),
            _ => None,
        },
        None => None,
    }
}

/// The instructions of the last shader chunk among `chunks`; where there
/// is none, `Translate(MissingChunk(Shader))`.
pub fn last_shader_instructions(chunks: Vec<ChunkModel>) -> (r: Result<Vec<ShexInstruction>, SpirvGenError>)
    ensures
        match shader_instructions_of(chunks@) {
            Some(v) => r matches Ok(w) && w@ == v,
            None => r == Err::<Vec<ShexInstruction>, SpirvGenError>(
                SpirvGenError::Translate(TranslateError::MissingChunk(crate::container::ChunkTag::Shader)),
            ),
        },
{
    let mut chunks = chunks;
    let k = match last_shader_chunk(chunks.as_slice()) {
        Some(k) => k,
        None => {
            return Err(SpirvGenError::Translate(TranslateError::MissingChunk(crate::container::ChunkTag::Shader)));
        },
    };
    proof {
        crate::lemma_last_shader_before(chunks@, chunks@.len() as int);
    }
    match chunks.remove(k) {
        ChunkModel::Shader(instructions) => Ok(instructions),
        _ => Err(SpirvGenError::Translate(TranslateError::MissingChunk(crate::container::ChunkTag::Shader))),
    }
}

/// The instructions of the last shader chunk of the first DXBC container in
/// `bytes` (see [`crate::container::dxbc_first_container`]), or why there
/// are none.
pub open spec fn shex_of(bytes: Seq<u8>) -> Result<Seq<ShexInstruction>, SpirvGenError> {
    match crate::container::dxbc_first_container(bytes) {
        None => Err(SpirvGenError::Translate(TranslateError::Parse(ParseProblem::NoContainer))),
        Some(cs) => match shader_instructions_of(cs) {
            Some(v) => Ok(v),
            None => Err(SpirvGenError::Translate(TranslateError::MissingChunk(crate::container::ChunkTag::Shader))),
        },
    }
}

/// The instructions of the last shader chunk of the first DXBC container in
/// `bytes` (see [`shex_of`]). No container gives
/// `Translate(Parse(NoContainer))` (always so for fewer than 32 bytes).
pub fn shex_instructions(bytes: &[u8]) -> (r: Result<Vec<ShexInstruction>, SpirvGenError>)
    requires
        crate::container::dxbc_scan_safe(bytes@),
    ensures
        bytes@.len() < 32 ==> r == Err::<Vec<ShexInstruction>, SpirvGenError>(
            SpirvGenError::Translate(TranslateError::Parse(ParseProblem::NoContainer)),
        ),
        match shex_of(bytes@) {
            Ok(v) => r matches Ok(w) && w@ == v,
            Err(e) => r == Err::<Vec<ShexInstruction>, SpirvGenError>(e),
        },
{
    match crate::container::first_container_chunks(bytes) {
        Some(chunks) => last_shader_instructions(chunks),
        None => Err(SpirvGenError::Translate(TranslateError::Parse(ParseProblem::NoContainer))),
    }
}

/// Translates a DXBC element-wise compute shader (`c[i] = a[i] op b[i]`,
/// optionally under `if (i < n)`): the instructions of [`shex_instructions`]
/// go through [`translate_shader_instructions`].
pub fn translate_shader(bytes: &[u8]) -> (r: Result<TranslatedKernel, SpirvGenError>)
    requires
        crate::container::dxbc_scan_safe(bytes@),
    ensures
        bytes@.len() < 32 ==> r == Err::<TranslatedKernel, SpirvGenError>(
            SpirvGenError::Translate(TranslateError::Parse(ParseProblem::NoContainer)),
        ),
        match crate::spirv_gen::shex_of(bytes@) {
            Err(e) => r matches Err(e2) && e2 == e,
            Ok(ins) => compute_translation_ok(ins, r),
        },
{
    let instructions = match shex_instructions(bytes) {
        Ok(v) => v,
        Err(e) => {
            return Err(e);
        },
    };
    let r = translate_shader_instructions(instructions.as_slice());
    assert(compute_translation_ok(instructions@, r));
    r
}

/// The translator of the first element-wise shader (vector addition),
/// which [`translate_shader`] has grown out of; the same translation.
pub fn translate_vector_add_shader(bytes: &[u8]) -> (r: Result<TranslatedKernel, SpirvGenError>)
    requires
        crate::container::dxbc_scan_safe(bytes@),
    ensures
        bytes@.len() < 32 ==> r == Err::<TranslatedKernel, SpirvGenError>(
            SpirvGenError::Translate(TranslateError::Parse(ParseProblem::NoContainer)),
        ),
        match crate::spirv_gen::shex_of(bytes@) {
            Err(e) => r matches Err(e2) && e2 == e,
            Ok(ins) => compute_translation_ok(ins, r),
        },
{
    translate_shader(bytes)
}

} // verus!

verus! {

/// A translated chain kernel: one or more binary operations on values
/// loaded from one or more UAVs.
#[derive(Debug)]
pub struct ChainTranslatedKernel {
    pub spirv_words: Vec<u32>,
    /// The entry point's name (always `"main"`).
    pub entry_point: &'static str,
    pub local_size: (u32, u32, u32),
    /// The UAVs the expression loads from, left to right, with repeats.
    pub read_uav_bind_points: Vec<u32>,
    pub write_uav_bind_point: u32,
    /// Whether the store is guarded by `if (i < n)`.
    pub bounds_check: bool,
}

/// Whether `k` is the chain kernel storing `root` into `write_uav`.
pub open spec fn is_chain_kernel(
    k: ChainTranslatedKernel,
    thread_group: (u32, u32, u32),
    root: RegExpr,
    write_uav: u32,
    bounds_check: bool,
) -> bool {
    &&& k.spirv_words@ == crate::chain::chain_kernel_words(thread_group, root, write_uav, bounds_check)
    &&& k.entry_point@ == "main"@
    &&& k.local_size == thread_group
    &&& k.read_uav_bind_points@ == loads_of(root)
    &&& k.write_uav_bind_point == write_uav
    &&& k.bounds_check == bounds_check
}

/// Builds the chain kernel of `root`, or refuses an expression too large
/// for its ids.
pub fn chain_kernel(thread_group: (u32, u32, u32), root: RegExpr, write_uav: u32, bounds_check: bool) -> (r: Result<
    ChainTranslatedKernel,
    Unsupported,
>)
    ensures
        crate::chain::chain_id_bound(root, write_uav, bounds_check) <= u32::MAX ==> (r matches Ok(k) && is_chain_kernel(
            k,
            thread_group,
            root,
            write_uav,
            bounds_check,
        )),
        crate::chain::chain_id_bound(root, write_uav, bounds_check) > u32::MAX ==> r == Err::<ChainTranslatedKernel, Unsupported>(
            Unsupported::ExpressionTooLarge,
        ),
{
    if !crate::chain::chain_ids_fit(&root, write_uav, bounds_check) {
        return Err(Unsupported::ExpressionTooLarge);
    }
    let mut read_uav_bind_points: Vec<u32> = Vec::new();
    collect_loads(&root, &mut read_uav_bind_points);
    assert(read_uav_bind_points@ =~= loads_of(root));
    let spirv_words = crate::chain::emit_chain_spirv_for_kernel(thread_group, &root, write_uav, bounds_check);
    Ok(ChainTranslatedKernel {
        spirv_words,
        entry_point: "main",
        local_size: thread_group,
        read_uav_bind_points,
        write_uav_bind_point: write_uav,
        bounds_check,
    })
}

/// The outcome of translating a chain shader's instructions.
pub open spec fn chain_translation_ok(ins: Seq<ShexInstruction>, r: Result<ChainTranslatedKernel, SpirvGenError>) -> bool {
    match crate::chain::chain_shape(ins) {
        Ok(s) => if crate::chain::chain_id_bound(s.root, s.write_uav, s.bounds_check) <= u32::MAX {
            r matches Ok(k) && is_chain_kernel(k, s.thread_group, s.root, s.write_uav, s.bounds_check)
        } else {
            r == Err::<ChainTranslatedKernel, SpirvGenError>(SpirvGenError::UnsupportedShader(Unsupported::ExpressionTooLarge))
        },
        Err(e) => r == Err::<ChainTranslatedKernel, SpirvGenError>(SpirvGenError::UnsupportedShader(e)),
    }
}

/// Translates the instructions of a chain compute shader: the kernel of
/// its chain shape (see `chain::chain_shape`), or why it has none.
pub fn translate_chain_instructions(instructions: &[ShexInstruction]) -> (r: Result<ChainTranslatedKernel, SpirvGenError>)
    ensures
        chain_translation_ok(instructions@, r),
{
    let shape = match crate::chain::decode_chain_shape(instructions) {
        Ok(s) => s,
        Err(e) => {
            return Err(SpirvGenError::UnsupportedShader(e));
        },
    };
    match chain_kernel(shape.thread_group, shape.root, shape.write_uav, shape.bounds_check) {
        Ok(k) => Ok(k),
        Err(e) => Err(SpirvGenError::UnsupportedShader(e)),
    }
}

/// Translates a DXBC chain compute shader: the instructions of
/// [`shex_instructions`] go through [`translate_chain_instructions`].
pub fn translate_chain_shader(bytes: &[u8]) -> (r: Result<ChainTranslatedKernel, SpirvGenError>)
    requires
        crate::container::dxbc_scan_safe(bytes@),
    ensures
        bytes@.len() < 32 ==> r == Err::<ChainTranslatedKernel, SpirvGenError>(
            SpirvGenError::Translate(TranslateError::Parse(ParseProblem::NoContainer)),
        ),
        match crate::spirv_gen::shex_of(bytes@) {
            Err(e) => r matches Err(e2) && e2 == e,
            Ok(ins) => chain_translation_ok(ins, r),
        },
{
    let instructions = match shex_instructions(bytes) {
        Ok(v) => v,
        Err(e) => {
            return Err(e);
        },
    };
    let r = translate_chain_instructions(instructions.as_slice());
    assert(chain_translation_ok(instructions@, r));
    r
}

} // verus!
