//! Compute shaders recognised by their exact opcode sequence: the scan that
//! collects declarations and opcodes, and the unrolled 2x2 matrix product.

use vstd::prelude::*;
use crate::container::{ShexInstruction, ShexKind, REG_CONSTANT_BUFFER};
use crate::spirv_gen::{first_index, first_index_exec, shex_instructions, SpirvGenError, Unsupported};
use crate::spirv_module::{template_module, template_module_words};
use crate::spirv_templates::{GEMM2X2_TEMPLATE, GEMM2X2_TEMPLATE_BOUND};
use crate::{ParseProblem, TranslateError};

verus! {

/// What the scan of a fixed-sequence compute shader collects.
pub struct OpcodeScan {
    pub has_cbuffer: bool,
    /// The bind points of the structured UAVs, in order.
    pub uavs: Seq<u32>,
    pub thread_group: Option<(u32, u32, u32)>,
    /// The opcodes of the instructions (declarations left out), in order.
    pub opcodes: Seq<u32>,
}

pub open spec fn opcode_scan_start() -> OpcodeScan {
    OpcodeScan { has_cbuffer: false, uavs: Seq::empty(), thread_group: None, opcodes: Seq::empty() }
}

/// One instruction of the scan; a constant buffer (`cb0`) is accepted only
/// `with_cbuffer`.
pub open spec fn opcode_step(st: OpcodeScan, ins: ShexInstruction, with_cbuffer: bool) -> Result<OpcodeScan, Unsupported> {
    let opc = ins.opcode;
    match ins.kind {
        ShexKind::GlobalFlags => Ok(st),
        ShexKind::ConstantBuffer => if !with_cbuffer {
            Err(Unsupported::UnexpectedDeclaration(opc))
        } else if ins.operands@.len() == 0 {
            Err(Unsupported::MissingOperand(opc, 0))
        } else if ins.operands@[0].reg_type != REG_CONSTANT_BUFFER || first_index(ins.operands@[0]) != Some(0u32) {
            Err(Unsupported::ConstantBufferNotB0)
        } else {
            Ok(OpcodeScan { has_cbuffer: true, ..st })
        },
        ShexKind::UavStructured { stride } => if stride != 4 {
            Err(Unsupported::Stride(stride))
        } else if ins.operands@.len() == 0 {
            Err(Unsupported::MissingOperand(opc, 0))
        } else {
            match first_index(ins.operands@[0]) {
                None => Err(Unsupported::UnresolvedIndex(opc, 0)),
                Some(u) => Ok(OpcodeScan { uavs: st.uavs.push(u), ..st }),
            }
        },
        ShexKind::Input { .. } => Ok(st),
        ShexKind::Temps => Ok(st),
        ShexKind::ThreadGroup { x, y, z } => Ok(OpcodeScan { thread_group: Some((x, y, z)), ..st }),
        ShexKind::Generic => Ok(OpcodeScan { opcodes: st.opcodes.push(opc), ..st }),
        _ => Err(Unsupported::UnexpectedDeclaration(opc)),
    }
}

/// The scan over `ins`, stopped at the first instruction it rejects.
pub open spec fn opcode_scan(ins: Seq<ShexInstruction>, with_cbuffer: bool) -> Result<OpcodeScan, Unsupported>
    decreases ins.len(),
{
    if ins.len() == 0 {
        Ok(opcode_scan_start())
    } else {
        match opcode_scan(ins.drop_last(), with_cbuffer) {
            Err(e) => Err(e),
            Ok(st) => opcode_step(st, ins.last(), with_cbuffer),
        }
    }
}

/// The scan as executed.
pub struct OpcodeScanResult {
    pub has_cbuffer: bool,
    pub uavs: Vec<u32>,
    pub thread_group: Option<(u32, u32, u32)>,
    pub opcodes: Vec<u32>,
}

impl OpcodeScanResult {
    pub open spec fn model(&self) -> OpcodeScan {
        OpcodeScan { has_cbuffer: self.has_cbuffer, uavs: self.uavs@, thread_group: self.thread_group, opcodes: self.opcodes@ }
    }
}

proof fn lemma_opcode_scan_stays_err(ins: Seq<ShexInstruction>, with_cbuffer: bool, n: int, e: Unsupported)
    requires
        0 <= n <= ins.len(),
        opcode_scan(ins.take(n), with_cbuffer) == Err::<OpcodeScan, Unsupported>(e),
    ensures
        opcode_scan(ins, with_cbuffer) == Err::<OpcodeScan, Unsupported>(e),
    decreases ins.len() - n,
{
    if n < ins.len() {
        assert(ins.take(n + 1).drop_last() =~= ins.take(n));
        lemma_opcode_scan_stays_err(ins, with_cbuffer, n + 1, e);
    } else {
        assert(ins.take(n) =~= ins);
    }
}

/// Scans a compute shader's instructions (see [`opcode_scan`]).
pub fn scan_opcodes(instructions: &[ShexInstruction], with_cbuffer: bool) -> (r: Result<OpcodeScanResult, Unsupported>)
    ensures
        match opcode_scan(instructions@, with_cbuffer) {
            Ok(st) => r matches Ok(res) && res.model() == st,
            Err(e) => r matches Err(e2) && e2 == e,
        },
{
    let mut st = OpcodeScanResult { has_cbuffer: false, uavs: Vec::new(), thread_group: None, opcodes: Vec::new() };
    assert(st.model() == opcode_scan_start()) by {
        assert(st.uavs@ =~= Seq::<u32>::empty());
        assert(st.opcodes@ =~= Seq::<u32>::empty());
    }
    let mut i: usize = 0;
    while i < instructions.len()
        invariant
            i <= instructions@.len(),
            opcode_scan(instructions@.take(i as int), with_cbuffer) == Ok::<OpcodeScan, Unsupported>(st.model()),
        decreases instructions@.len() - i,
    {
        let ins = &instructions[i];
        let opc = ins.opcode;
        assert(instructions@.take(i as int + 1).drop_last() =~= instructions@.take(i as int));
        let step: Result<(), Unsupported> = match &ins.kind {
            ShexKind::GlobalFlags => Ok(()),
            ShexKind::ConstantBuffer => if !with_cbuffer {
                Err(Unsupported::UnexpectedDeclaration(opc))
            } else if ins.operands.len() == 0 {
                Err(Unsupported::MissingOperand(opc, 0))
            } else if ins.operands[0].reg_type != REG_CONSTANT_BUFFER || first_index_exec(&ins.operands[0]) != Some(
                0u32,
            ) {
                Err(Unsupported::ConstantBufferNotB0)
            } else {
                st.has_cbuffer = true;
                Ok(())
            },
            ShexKind::UavStructured { stride } => if *stride != 4 {
                Err(Unsupported::Stride(*stride))
            } else if ins.operands.len() == 0 {
                Err(Unsupported::MissingOperand(opc, 0))
            } else {
                match first_index_exec(&ins.operands[0]) {
                    None => Err(Unsupported::UnresolvedIndex(opc, 0)),
                    Some(u) => {
                        st.uavs.push(u);
                        Ok(())
                    },
                }
            },
            ShexKind::Input { .. } => Ok(()),
            ShexKind::Temps => Ok(()),
            ShexKind::ThreadGroup { x, y, z } => {
                st.thread_group = Some((*x, *y, *z));
                Ok(())
            },
            ShexKind::Generic => {
                st.opcodes.push(opc);
                Ok(())
            },
            _ => Err(Unsupported::UnexpectedDeclaration(opc)),
        };
        match step {
            Err(e) => {
                proof {
                    lemma_opcode_scan_stays_err(instructions@, with_cbuffer, i as int + 1, e);
                }
                return Err(e);
            },
            Ok(_) => {},
        }
        i = i + 1;
    }
    assert(instructions@.take(instructions@.len() as int) =~= instructions@);
    Ok(st)
}

/// Whether two opcode lists are equal.
pub fn same_opcodes(a: &[u32], b: &[u32]) -> (r: bool)
    ensures
        r == (a@ == b@),
{
    if a.len() != b.len() {
        return false;
    }
    let mut i: usize = 0;
    while i < a.len()
        invariant
            i <= a@.len(),
            a@.len() == b@.len(),
            forall|j: int| 0 <= j < i ==> a@[j] == b@[j],
        decreases a@.len() - i,
    {
        if a[i] != b[i] {
            return false;
        }
        i = i + 1;
    }
    assert(a@ =~= b@);
    true
}

/// The opcodes of the unrolled 2x2 matrix product as `fxc` compiles it:
/// `imad`, `ld_structured`, `iadd`, `ld_structured`, `mul`,
/// `ld_structured`, `ishl`, `ld_structured`, `iadd`, `mad`,
/// `store_structured`, `ret`.
pub const GEMM2X2_OPCODES: [u32; 12] = [35, 167, 30, 167, 56, 167, 41, 167, 30, 50, 168, 62];

/// The 2x2 matrix-product shape: three UAVs (A, B, C), thread groups of
/// 2 x 2 x 1 and the opcode sequence [`GEMM2X2_OPCODES`].
pub open spec fn gemm2x2_shape(ins: Seq<ShexInstruction>) -> Result<(u32, u32, u32, (u32, u32, u32)), Unsupported> {
    match opcode_scan(ins, false) {
        Err(e) => Err(e),
        Ok(st) => if st.uavs.len() != 3 {
            Err(Unsupported::UavCount(st.uavs.len() as usize))
        } else {
            match st.thread_group {
                None => Err(Unsupported::NoThreadGroup),
                Some(tg) => if tg != (2u32, 2u32, 1u32) {
                    Err(Unsupported::ThreadGroup(tg.0, tg.1, tg.2))
                } else if st.opcodes != GEMM2X2_OPCODES@ {
                    Err(Unsupported::OpcodeSequence)
                } else {
                    Ok((st.uavs[0], st.uavs[1], st.uavs[2], tg))
                },
            }
        },
    }
}

/// Matches a compute shader's instructions against the 2x2 matrix-product
/// shape (see [`gemm2x2_shape`]); returns the UAVs of A, B, C and the
/// thread-group size.
pub fn decode_gemm2x2_shape(instructions: &[ShexInstruction]) -> (r: Result<(u32, u32, u32, (u32, u32, u32)), Unsupported>)
    ensures
        r == gemm2x2_shape(instructions@),
{
    let st = scan_opcodes(instructions, false)?;
    if st.uavs.len() != 3 {
        return Err(Unsupported::UavCount(st.uavs.len()));
    }
    let tg = match st.thread_group {
        None => {
            return Err(Unsupported::NoThreadGroup);
        },
        Some(tg) => tg,
    };
    if tg.0 != 2 || tg.1 != 2 || tg.2 != 1 {
        return Err(Unsupported::ThreadGroup(tg.0, tg.1, tg.2));
    }
    if !same_opcodes(st.opcodes.as_slice(), &GEMM2X2_OPCODES) {
        return Err(Unsupported::OpcodeSequence);
    }
    Ok((st.uavs[0], st.uavs[1], st.uavs[2], tg))
}

/// A translated 2x2 matrix product.
#[derive(Debug)]
pub struct Gemm2x2TranslatedKernel {
    pub spirv_words: Vec<u32>,
    /// The entry point's name (always `"main"`).
    pub entry_point: &'static str,
    pub local_size: (u32, u32, u32),
    /// The UAV bind points of A, B and C.
    pub uav_bind_points: (u32, u32, u32),
}

/// The module of the 2x2 matrix product `C[i][j] = A[i][0] B[0][j] +
/// A[i][1] B[1][j]` (`i`, `j` the invocation's y and x).
pub open spec fn gemm2x2_words(uav_a: u32, uav_b: u32, uav_c: u32) -> Seq<u32> {
    template_module_words(GEMM2X2_TEMPLATE@, seq![uav_a, uav_b, uav_c], GEMM2X2_TEMPLATE_BOUND)
}

/// The outcome of translating a 2x2 matrix product's instructions.
pub open spec fn gemm2x2_translation_ok(ins: Seq<ShexInstruction>, r: Result<Gemm2x2TranslatedKernel, SpirvGenError>) -> bool {
    match gemm2x2_shape(ins) {
        Ok((a, b, c, tg)) => r matches Ok(k) && k.spirv_words@ == gemm2x2_words(a, b, c) && k.entry_point@ == "main"@
            && k.local_size == tg && k.uav_bind_points == (a, b, c),
        Err(e) => r == Err::<Gemm2x2TranslatedKernel, SpirvGenError>(SpirvGenError::UnsupportedShader(e)),
    }
}

/// Translates the instructions of the 2x2 matrix product.
pub fn translate_gemm2x2_instructions(instructions: &[ShexInstruction]) -> (r: Result<Gemm2x2TranslatedKernel, SpirvGenError>)
    ensures
        gemm2x2_translation_ok(instructions@, r),
{
    let (a, b, c, tg) = match decode_gemm2x2_shape(instructions) {
        Ok(s) => s,
        Err(e) => {
            return Err(SpirvGenError::UnsupportedShader(e));
        },
    };
    let params: Vec<u32> = vec![a, b, c];
    assert(params@ =~= seq![a, b, c]);
    let spirv_words = template_module(&GEMM2X2_TEMPLATE, params.as_slice(), GEMM2X2_TEMPLATE_BOUND);
    Ok(Gemm2x2TranslatedKernel { spirv_words, entry_point: "main", local_size: tg, uav_bind_points: (a, b, c) })
}

/// Translates the DXBC 2x2 matrix product: the instructions of
/// [`shex_instructions`] go through [`translate_gemm2x2_instructions`].
pub fn translate_gemm2x2_shader(bytes: &[u8]) -> (r: Result<Gemm2x2TranslatedKernel, SpirvGenError>)
    requires
        crate::container::dxbc_scan_safe(bytes@),
    ensures
        bytes@.len() < 32 ==> r == Err::<Gemm2x2TranslatedKernel, SpirvGenError>(
            SpirvGenError::Translate(TranslateError::Parse(ParseProblem::NoContainer)),
        ),
        match crate::spirv_gen::shex_of(bytes@) {
            Err(e) => r matches Err(e2) && e2 == e,
            Ok(ins) => gemm2x2_translation_ok(ins, r),
        },
{
    let instructions = match shex_instructions(bytes) {
        Ok(v) => v,
        Err(e) => {
            return Err(e);
        },
    };
    let r = translate_gemm2x2_instructions(instructions.as_slice());
    assert(gemm2x2_translation_ok(instructions@, r));
    r
}

} // verus!
