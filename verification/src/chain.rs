//! The chain shape of compute shaders: a tree of binary operations on
//! values loaded from UAVs at the thread id, built through the components
//! of temporary registers, and stored at the thread id; and the SPIR-V
//! module that evaluates such a tree.

use vstd::prelude::*;
use crate::container::{
    ComponentSel, ShexInstruction, ShexKind, ShexOperand, OP_ADD, OP_DIV, OP_ENDIF, OP_IF, OP_LD_STRUCTURED, OP_MUL,
    OP_RET, OP_STORE_STRUCTURED, OP_ULT, REG_TEMP, REG_THREAD_ID, REG_UAV,
};
use crate::spirv_module::{
    encodable, insts_view, known_opcode, main_text, module_words, operands_words, InstructionView, OperandView,
    SpvInstruction, SpvOperand,
};
use crate::spirv_gen::{
    bounds_check_of, loads_of, float_opcode, cbuffer_check, first_index, first_index_exec, operand_at, thread_input_check, thread_operand,
    uav_decl_check, uav_operand, ult_check, BinaryOp, RegExpr, Unsupported,
};

verus! {

/// The component a one-bit write mask selects.
pub open spec fn single_bit(m: u8) -> Option<u32> {
    if m == 1 {
        Some(0u32)
    } else if m == 2 {
        Some(1u32)
    } else if m == 4 {
        Some(2u32)
    } else if m == 8 {
        Some(3u32)
    } else if m == 16 {
        Some(4u32)
    } else if m == 32 {
        Some(5u32)
    } else if m == 64 {
        Some(6u32)
    } else if m == 128 {
        Some(7u32)
    } else {
        None
    }
}

fn single_bit_exec(m: u8) -> (r: Option<u32>)
    ensures
        r == single_bit(m),
{
    match m {
        1 => Some(0),
        2 => Some(1),
        4 => Some(2),
        8 => Some(3),
        16 => Some(4),
        32 => Some(5),
        64 => Some(6),
        128 => Some(7),
        _ => None,
    }
}

/// The temporary register component `(register, component)` an operand
/// writes (`write`: a one-bit mask) or reads (a scalar selection).
pub open spec fn temp_key(op: ShexOperand, write: bool) -> Option<(u32, u32)> {
    if op.reg_type != REG_TEMP {
        None
    } else {
        match first_index(op) {
            None => None,
            Some(t) => if write {
                match op.components {
                    ComponentSel::Mask(m) => match single_bit(m) {
                        Some(c) => Some((t, c)),
                        None => None,
                    },
                    _ => None,
                }
            } else {
                match op.components {
                    ComponentSel::Scalar(c) => Some((t, c as u32)),
                    _ => None,
                }
            },
        }
    }
}

pub fn temp_key_exec(op: &ShexOperand, write: bool) -> (r: Option<(u32, u32)>)
    ensures
        r == temp_key(*op, write),
{
    if op.reg_type != REG_TEMP {
        return None;
    }
    let t = match first_index_exec(op) {
        None => {
            return None;
        },
        Some(t) => t,
    };
    if write {
        match op.components {
            ComponentSel::Mask(m) => match single_bit_exec(m) {
                Some(c) => Some((t, c)),
                None => None,
            },
            _ => None,
        }
    } else {
        match op.components {
            ComponentSel::Scalar(c) => Some((t, c as u32)),
            _ => None,
        }
    }
}

/// The expression last written to a temporary component.
pub open spec fn reg_lookup(regs: Seq<((u32, u32), RegExpr)>, key: (u32, u32)) -> Option<RegExpr>
    decreases regs.len(),
{
    if regs.len() == 0 {
        None
    } else if regs.last().0 == key {
        Some(regs.last().1)
    } else {
        reg_lookup(regs.drop_last(), key)
    }
}

/// What the scan of a chain shader has seen so far.
pub struct ChainScan {
    pub has_cbuffer: bool,
    pub uavs: nat,
    pub thread_group: Option<(u32, u32, u32)>,
    /// The writes to temporary components, in order.
    pub regs: Seq<((u32, u32), RegExpr)>,
    pub store: Option<u32>,
    pub root: Option<RegExpr>,
    pub saw_ult: bool,
    pub saw_if: bool,
    pub saw_endif: bool,
    pub saw_ret: bool,
}

pub open spec fn chain_scan_start() -> ChainScan {
    ChainScan {
        has_cbuffer: false,
        uavs: 0,
        thread_group: None,
        regs: Seq::empty(),
        store: None,
        root: None,
        saw_ult: false,
        saw_if: false,
        saw_endif: false,
        saw_ret: false,
    }
}

/// The temporary component an operand at position `k` writes (`write`) or
/// reads.
pub open spec fn temp_operand(ins: ShexInstruction, k: int, write: bool) -> Result<(u32, u32), Unsupported> {
    match operand_at(ins, k) {
        None => Err(Unsupported::MissingOperand(ins.opcode, k as usize)),
        Some(o) => match temp_key(o, write) {
            None => Err(Unsupported::NotTempComponent(ins.opcode, k as usize)),
            Some(key) => Ok(key),
        },
    }
}

/// An `ld_structured` of the chain shape: the written component, the
/// thread-id address, the UAV.
pub open spec fn chain_load(regs: Seq<((u32, u32), RegExpr)>, ins: ShexInstruction) -> Result<Seq<((u32, u32), RegExpr)>, Unsupported> {
    match temp_operand(ins, 0, true) {
        Err(e) => Err(e),
        Ok(key) => match thread_operand(ins, 1) {
            Err(e) => Err(e),
            Ok(_) => match uav_operand(ins, 3) {
                Err(e) => Err(e),
                Ok(u) => Ok(regs.push((key, RegExpr::Load(u)))),
            },
        },
    }
}

/// The expression of an `add` (a subtraction where its first source is
/// negated), `mul` or `div` of the chain shape. `fxc` writes `a + b` and
/// `a * b` with the sources swapped and `a - b` as `add -b, a`; `div` keeps
/// the order.
pub open spec fn chain_expr(opc: u32, negated: bool, src1: RegExpr, src2: RegExpr) -> RegExpr {
    if opc == OP_ADD && negated {
        RegExpr::BinOp(BinaryOp::Sub, Box::new(src2), Box::new(src1))
    } else if opc == OP_ADD {
        RegExpr::BinOp(BinaryOp::Add, Box::new(src2), Box::new(src1))
    } else if opc == OP_MUL {
        RegExpr::BinOp(BinaryOp::Mul, Box::new(src2), Box::new(src1))
    } else {
        RegExpr::BinOp(BinaryOp::Div, Box::new(src1), Box::new(src2))
    }
}

/// An `add`, `mul` or `div` of the chain shape: the written component, the
/// two sources (only `add` may negate, its first source), each read from a
/// component written before.
pub open spec fn chain_arith(regs: Seq<((u32, u32), RegExpr)>, ins: ShexInstruction) -> Result<Seq<((u32, u32), RegExpr)>, Unsupported> {
    let opc = ins.opcode;
    match temp_operand(ins, 0, true) {
        Err(e) => Err(e),
        Ok(dest) => match operand_at(ins, 1) {
            None => Err(Unsupported::MissingOperand(opc, 1)),
            Some(s1) => match operand_at(ins, 2) {
                None => Err(Unsupported::MissingOperand(opc, 2)),
                Some(s2) => if opc != OP_ADD && (s1.negate || s2.negate) {
                    Err(Unsupported::NegatedOperand(opc))
                } else {
                    match temp_key(s1, false) {
                        None => Err(Unsupported::NotTempComponent(opc, 1)),
                        Some(k1) => match temp_key(s2, false) {
                            None => Err(Unsupported::NotTempComponent(opc, 2)),
                            Some(k2) => match reg_lookup(regs, k1) {
                                None => Err(Unsupported::UndefinedTemp(opc, 1)),
                                Some(v1) => match reg_lookup(regs, k2) {
                                    None => Err(Unsupported::UndefinedTemp(opc, 2)),
                                    Some(v2) => Ok(regs.push((dest, chain_expr(opc, s1.negate, v1, v2)))),
                                },
                            },
                        },
                    }
                },
            },
        },
    }
}

/// A `store_structured` of the chain shape: the UAV, the thread-id address
/// and the stored component; returns the UAV and the stored expression.
pub open spec fn chain_store(regs: Seq<((u32, u32), RegExpr)>, ins: ShexInstruction) -> Result<(u32, RegExpr), Unsupported> {
    match uav_operand(ins, 0) {
        Err(e) => Err(e),
        Ok(u) => match thread_operand(ins, 1) {
            Err(e) => Err(e),
            Ok(_) => match temp_operand(ins, 3, false) {
                Err(e) => Err(e),
                Ok(key) => match reg_lookup(regs, key) {
                    None => Err(Unsupported::UndefinedTemp(ins.opcode, 3)),
                    Some(v) => Ok((u, v)),
                },
            },
        },
    }
}

/// One instruction of the chain shape.
pub open spec fn chain_step(st: ChainScan, ins: ShexInstruction) -> Result<ChainScan, Unsupported> {
    let opc = ins.opcode;
    match ins.kind {
        ShexKind::GlobalFlags => Ok(st),
        ShexKind::ConstantBuffer => match cbuffer_check(ins) {
            Err(e) => Err(e),
            Ok(_) => Ok(ChainScan { has_cbuffer: true, ..st }),
        },
        ShexKind::UavStructured { stride } => match uav_decl_check(ins, stride) {
            Err(e) => Err(e),
            Ok(_) => Ok(ChainScan { uavs: st.uavs + 1, ..st }),
        },
        ShexKind::Input { .. } => match thread_input_check(ins) {
            Err(e) => Err(e),
            Ok(_) => Ok(st),
        },
        ShexKind::Temps => Ok(st),
        ShexKind::ThreadGroup { x, y, z } => Ok(ChainScan { thread_group: Some((x, y, z)), ..st }),
        ShexKind::Generic => if opc == OP_ULT {
            match ult_check(ins) {
                Err(e) => Err(e),
                Ok(_) => Ok(ChainScan { saw_ult: true, ..st }),
            }
        } else if opc == OP_IF {
            if !st.saw_ult {
                Err(Unsupported::IfWithoutCompare)
            } else {
                Ok(ChainScan { saw_if: true, ..st })
            }
        } else if opc == OP_ENDIF {
            Ok(ChainScan { saw_endif: true, ..st })
        } else if opc == OP_LD_STRUCTURED {
            match chain_load(st.regs, ins) {
                Err(e) => Err(e),
                Ok(regs) => Ok(ChainScan { regs, ..st }),
            }
        } else if opc == OP_ADD || opc == OP_MUL || opc == OP_DIV {
            match chain_arith(st.regs, ins) {
                Err(e) => Err(e),
                Ok(regs) => Ok(ChainScan { regs, ..st }),
            }
        } else if opc == OP_STORE_STRUCTURED {
            match chain_store(st.regs, ins) {
                Err(e) => Err(e),
                Ok((u, v)) => Ok(ChainScan { store: Some(u), root: Some(v), ..st }),
            }
        } else if opc == OP_RET {
            Ok(ChainScan { saw_ret: true, ..st })
        } else {
            Err(Unsupported::UnexpectedOpcode(opc))
        },
        _ => Err(Unsupported::UnexpectedDeclaration(opc)),
    }
}

/// The scan of a chain shader over `ins`, stopped at the first instruction
/// it rejects.
pub open spec fn chain_scan(ins: Seq<ShexInstruction>) -> Result<ChainScan, Unsupported>
    decreases ins.len(),
{
    if ins.len() == 0 {
        Ok(chain_scan_start())
    } else {
        match chain_scan(ins.drop_last()) {
            Err(e) => Err(e),
            Ok(st) => chain_step(st, ins.last()),
        }
    }
}

/// The chain shape found in a compute shader.
#[derive(Debug)]
pub struct ChainShape {
    pub thread_group: (u32, u32, u32),
    pub write_uav: u32,
    /// The expression stored.
    pub root: RegExpr,
    pub bounds_check: bool,
}

/// The chain shape of a compute shader's instructions: at least two UAVs,
/// a thread-group size, a store of an expression with at least one
/// operation, a `ret`, and the bounds check all there or all missing.
pub open spec fn chain_shape(ins: Seq<ShexInstruction>) -> Result<ChainShape, Unsupported> {
    match chain_scan(ins) {
        Err(e) => Err(e),
        Ok(st) => if st.uavs < 2 {
            Err(Unsupported::TooFewUavs(st.uavs as usize))
        } else if st.thread_group is None {
            Err(Unsupported::NoThreadGroup)
        } else if st.store is None || st.root is None {
            Err(Unsupported::NoStore)
        } else if !st.saw_ret {
            Err(Unsupported::NoReturn)
        } else if st.root.unwrap() is Load {
            Err(Unsupported::PlainCopy)
        } else {
            match bounds_check_of(st.has_cbuffer, st.saw_ult, st.saw_if, st.saw_endif) {
                None => Err(Unsupported::PartialBoundsCheck),
                Some(bc) => Ok(
                    ChainShape {
                        thread_group: st.thread_group.unwrap(),
                        write_uav: st.store.unwrap(),
                        root: st.root.unwrap(),
                        bounds_check: bc,
                    },
                ),
            }
        },
    }
}

fn reg_lookup_exec(regs: &Vec<((u32, u32), RegExpr)>, key: (u32, u32)) -> (r: Option<RegExpr>)
    ensures
        r == reg_lookup(regs@, key),
{
    let mut i: usize = regs.len();
    assert(regs@.take(i as int) =~= regs@);
    while i > 0
        invariant
            i <= regs@.len(),
            reg_lookup(regs@, key) == reg_lookup(regs@.take(i as int), key),
        decreases i,
    {
        assert(regs@.take(i as int).drop_last() =~= regs@.take(i as int - 1));
        let entry = &regs[i - 1];
        if entry.0.0 == key.0 && entry.0.1 == key.1 {
            return Some(crate::spirv_gen::copy_expr(&entry.1));
        }
        i = i - 1;
    }
    None
}

fn temp_operand_exec(ins: &ShexInstruction, k: usize, write: bool) -> (r: Result<(u32, u32), Unsupported>)
    ensures
        r == temp_operand(*ins, k as int, write),
{
    if k >= ins.operands.len() {
        return Err(Unsupported::MissingOperand(ins.opcode, k));
    }
    match temp_key_exec(&ins.operands[k], write) {
        None => Err(Unsupported::NotTempComponent(ins.opcode, k)),
        Some(key) => Ok(key),
    }
}

fn chain_load_exec(regs: &Vec<((u32, u32), RegExpr)>, ins: &ShexInstruction) -> (r: Result<((u32, u32), RegExpr), Unsupported>)
    ensures
        match chain_load(regs@, *ins) {
            Ok(nr) => r matches Ok(entry) && nr == regs@.push(entry),
            Err(e) => r == Err::<((u32, u32), RegExpr), Unsupported>(e),
        },
{
    let key = temp_operand_exec(ins, 0, true)?;
    crate::spirv_gen::thread_operand_exec(ins, 1)?;
    let u = crate::spirv_gen::uav_operand_exec(ins, 3)?;
    Ok((key, RegExpr::Load(u)))
}

fn chain_expr_exec(opc: u32, negated: bool, src1: RegExpr, src2: RegExpr) -> (r: RegExpr)
    ensures
        r == chain_expr(opc, negated, src1, src2),
{
    if opc == OP_ADD && negated {
        RegExpr::BinOp(BinaryOp::Sub, Box::new(src2), Box::new(src1))
    } else if opc == OP_ADD {
        RegExpr::BinOp(BinaryOp::Add, Box::new(src2), Box::new(src1))
    } else if opc == OP_MUL {
        RegExpr::BinOp(BinaryOp::Mul, Box::new(src2), Box::new(src1))
    } else {
        RegExpr::BinOp(BinaryOp::Div, Box::new(src1), Box::new(src2))
    }
}

fn chain_arith_exec(regs: &Vec<((u32, u32), RegExpr)>, ins: &ShexInstruction) -> (r: Result<((u32, u32), RegExpr), Unsupported>)
    ensures
        match chain_arith(regs@, *ins) {
            Ok(nr) => r matches Ok(entry) && nr == regs@.push(entry),
            Err(e) => r == Err::<((u32, u32), RegExpr), Unsupported>(e),
        },
{
    let opc = ins.opcode;
    let dest = temp_operand_exec(ins, 0, true)?;
    if ins.operands.len() < 2 {
        return Err(Unsupported::MissingOperand(opc, 1));
    }
    if ins.operands.len() < 3 {
        return Err(Unsupported::MissingOperand(opc, 2));
    }
    let s1 = &ins.operands[1];
    let s2 = &ins.operands[2];
    if opc != OP_ADD && (s1.negate || s2.negate) {
        return Err(Unsupported::NegatedOperand(opc));
    }
    let k1 = match temp_key_exec(s1, false) {
        None => {
            return Err(Unsupported::NotTempComponent(opc, 1));
        },
        Some(k) => k,
    };
    let k2 = match temp_key_exec(s2, false) {
        None => {
            return Err(Unsupported::NotTempComponent(opc, 2));
        },
        Some(k) => k,
    };
    let v1 = match reg_lookup_exec(regs, k1) {
        None => {
            return Err(Unsupported::UndefinedTemp(opc, 1));
        },
        Some(v) => v,
    };
    let v2 = match reg_lookup_exec(regs, k2) {
        None => {
            return Err(Unsupported::UndefinedTemp(opc, 2));
        },
        Some(v) => v,
    };
    Ok((dest, chain_expr_exec(opc, s1.negate, v1, v2)))
}

fn chain_store_exec(regs: &Vec<((u32, u32), RegExpr)>, ins: &ShexInstruction) -> (r: Result<(u32, RegExpr), Unsupported>)
    ensures
        r == chain_store(regs@, *ins),
{
    let u = crate::spirv_gen::uav_operand_exec(ins, 0)?;
    crate::spirv_gen::thread_operand_exec(ins, 1)?;
    let key = temp_operand_exec(ins, 3, false)?;
    match reg_lookup_exec(regs, key) {
        None => Err(Unsupported::UndefinedTemp(ins.opcode, 3)),
        Some(v) => Ok((u, v)),
    }
}

/// The scan state of [`decode_chain_shape`], as executed.
struct ChainScanState {
    has_cbuffer: bool,
    uavs: usize,
    thread_group: Option<(u32, u32, u32)>,
    regs: Vec<((u32, u32), RegExpr)>,
    store: Option<u32>,
    root: Option<RegExpr>,
    saw_ult: bool,
    saw_if: bool,
    saw_endif: bool,
    saw_ret: bool,
}

impl ChainScanState {
    spec fn model(&self) -> ChainScan {
        ChainScan {
            has_cbuffer: self.has_cbuffer,
            uavs: self.uavs as nat,
            thread_group: self.thread_group,
            regs: self.regs@,
            store: self.store,
            root: self.root,
            saw_ult: self.saw_ult,
            saw_if: self.saw_if,
            saw_endif: self.saw_endif,
            saw_ret: self.saw_ret,
        }
    }

    fn step(&mut self, ins: &ShexInstruction) -> (r: Result<(), Unsupported>)
        requires
            old(self).uavs < usize::MAX,
        ensures
            match chain_step(old(self).model(), *ins) {
                Ok(st) => r is Ok && final(self).model() == st,
                Err(e) => r == Err::<(), Unsupported>(e),
            },
            final(self).uavs <= old(self).uavs + 1,
    {
        let opc = ins.opcode;
        match &ins.kind {
            ShexKind::GlobalFlags => Ok(()),
            ShexKind::ConstantBuffer => {
                crate::spirv_gen::cbuffer_check_exec(ins)?;
                self.has_cbuffer = true;
                Ok(())
            },
            ShexKind::UavStructured { stride } => {
                match crate::spirv_gen::uav_decl_check_exec(ins, *stride) {
                    Err(e) => {
                        return Err(e);
                    },
                    Ok(_) => {},
                }
                self.uavs = self.uavs + 1;
                Ok(())
            },
            ShexKind::Input { .. } => crate::spirv_gen::thread_input_check_exec(ins),
            ShexKind::Temps => Ok(()),
            ShexKind::ThreadGroup { x, y, z } => {
                self.thread_group = Some((*x, *y, *z));
                Ok(())
            },
            ShexKind::Generic => {
                if opc == OP_ULT {
                    crate::spirv_gen::ult_check_exec(ins)?;
                    self.saw_ult = true;
                } else if opc == OP_IF {
                    if !self.saw_ult {
                        return Err(Unsupported::IfWithoutCompare);
                    }
                    self.saw_if = true;
                } else if opc == OP_ENDIF {
                    self.saw_endif = true;
                } else if opc == OP_LD_STRUCTURED {
                    let entry = match chain_load_exec(&self.regs, ins) {
                        Err(e) => {
                            return Err(e);
                        },
                        Ok(entry) => entry,
                    };
                    self.regs.push(entry);
                } else if opc == OP_ADD || opc == OP_MUL || opc == OP_DIV {
                    let entry = match chain_arith_exec(&self.regs, ins) {
                        Err(e) => {
                            return Err(e);
                        },
                        Ok(entry) => entry,
                    };
                    self.regs.push(entry);
                } else if opc == OP_STORE_STRUCTURED {
                    let (u, v) = match chain_store_exec(&self.regs, ins) {
                        Err(e) => {
                            return Err(e);
                        },
                        Ok(p) => p,
                    };
                    self.store = Some(u);
                    self.root = Some(v);
                } else if opc == OP_RET {
                    self.saw_ret = true;
                } else {
                    return Err(Unsupported::UnexpectedOpcode(opc));
                }
                Ok(())
            },
            _ => Err(Unsupported::UnexpectedDeclaration(opc)),
        }
    }
}

/// Once the chain scan rejects a prefix, it rejects every longer one the
/// same way.
proof fn lemma_chain_scan_stays_err(ins: Seq<ShexInstruction>, n: int, e: Unsupported)
    requires
        0 <= n <= ins.len(),
        chain_scan(ins.take(n)) == Err::<ChainScan, Unsupported>(e),
    ensures
        chain_scan(ins) == Err::<ChainScan, Unsupported>(e),
    decreases ins.len() - n,
{
    if n < ins.len() {
        assert(ins.take(n + 1).drop_last() =~= ins.take(n));
        lemma_chain_scan_stays_err(ins, n + 1, e);
    } else {
        assert(ins.take(n) =~= ins);
    }
}

/// Matches a compute shader's instructions against the chain shape (see
/// [`chain_shape`]).
pub fn decode_chain_shape(instructions: &[ShexInstruction]) -> (r: Result<ChainShape, Unsupported>)
    ensures
        r == chain_shape(instructions@),
{
    let mut st = ChainScanState {
        has_cbuffer: false,
        uavs: 0,
        thread_group: None,
        regs: Vec::new(),
        store: None,
        root: None,
        saw_ult: false,
        saw_if: false,
        saw_endif: false,
        saw_ret: false,
    };
    assert(st.model() == chain_scan_start()) by {
        assert(st.regs@ =~= Seq::<((u32, u32), RegExpr)>::empty());
    }
    let mut i: usize = 0;
    while i < instructions.len()
        invariant
            i <= instructions@.len(),
            st.uavs <= i,
            chain_scan(instructions@.take(i as int)) == Ok::<ChainScan, Unsupported>(st.model()),
        decreases instructions@.len() - i,
    {
        let r = st.step(&instructions[i]);
        assert(instructions@.take(i as int + 1).drop_last() =~= instructions@.take(i as int));
        match r {
            Err(e) => {
                proof {
                    lemma_chain_scan_stays_err(instructions@, i as int + 1, e);
                }
                assert(instructions@.take(instructions@.len() as int) =~= instructions@);
                return Err(e);
            },
            Ok(_) => {},
        }
        i = i + 1;
    }
    assert(instructions@.take(instructions@.len() as int) =~= instructions@);
    if st.uavs < 2 {
        return Err(Unsupported::TooFewUavs(st.uavs));
    }
    let thread_group = match st.thread_group {
        None => {
            return Err(Unsupported::NoThreadGroup);
        },
        Some(t) => t,
    };
    let write_uav = match st.store {
        None => {
            return Err(Unsupported::NoStore);
        },
        Some(u) => u,
    };
    let root = match st.root {
        None => {
            return Err(Unsupported::NoStore);
        },
        Some(v) => v,
    };
    if !st.saw_ret {
        return Err(Unsupported::NoReturn);
    }
    match &root {
        RegExpr::Load(_) => {
            return Err(Unsupported::PlainCopy);
        },
        _ => {},
    }
    let all = st.has_cbuffer && st.saw_ult && st.saw_if && st.saw_endif;
    if st.has_cbuffer != all || st.saw_ult != all || st.saw_if != all || st.saw_endif != all {
        return Err(Unsupported::PartialBoundsCheck);
    }
    Ok(ChainShape { thread_group, write_uav, root, bounds_check: all })
}

// ---------------------------------------------------------------------
// The module of a chain kernel
// ---------------------------------------------------------------------


/// The number of ids that the evaluation of an expression takes: two per
/// load (access chain, load), one per operation (two for `MulNeg`).
pub open spec fn expr_ids(e: RegExpr) -> nat
    decreases e,
{
    match e {
        RegExpr::Load(_) => 2,
        RegExpr::BinOp(op, l, r) => expr_ids(*l) + expr_ids(*r) + if op is MulNeg {
            2nat
        } else {
            1nat
        },
    }
}

/// The elements of `s`, each once, in the order they first occur.
pub open spec fn distinct(s: Seq<u32>) -> Seq<u32>
    decreases s.len(),
{
    if s.len() == 0 {
        Seq::empty()
    } else {
        let d = distinct(s.drop_last());
        if d.contains(s.last()) {
            d
        } else {
            d.push(s.last())
        }
    }
}

/// The index of the first occurrence of `x` in `s` (`s.len()` where there
/// is none).
pub open spec fn position(s: Seq<u32>, x: u32) -> int
    decreases s.len(),
{
    if s.len() == 0 {
        0
    } else if s[0] == x {
        0
    } else {
        1 + position(s.skip(1), x)
    }
}

/// The storage buffers of a chain module: the UAVs the expression loads
/// from, then the written one, each once, in the order they first occur.
pub open spec fn chain_uavs(root: RegExpr, write_uav: u32) -> Seq<u32> {
    distinct(loads_of(root).push(write_uav))
}

/// An id as a word.
pub open spec fn w(x: int) -> u32 {
    x as u32
}

/// An instruction whose operands are all literal words.
pub open spec fn inst(op: u32, rt: Option<u32>, rid: Option<u32>, ops: Seq<u32>) -> InstructionView {
    InstructionView { opcode: op, result_type: rt, result_id: rid, operands: ops.map_values(|x: u32| OperandView::Word(x)) }
}

/// The instructions that evaluate an expression, the id of its value and
/// the next free id.
pub struct ExprCode {
    pub insts: Seq<InstructionView>,
    pub result: int,
    pub next: int,
}

/// The evaluation of `e` with ids from `next` on, in a module with the
/// storage buffers `uavs` (`m` of them): a load is an access chain into the
/// buffer's variable at `[0, i]` and a load of a float; an operation takes
/// the two values (`MulNeg` multiplies, then negates).
pub open spec fn expr_code(e: RegExpr, next: int, uavs: Seq<u32>, m: int) -> ExprCode
    decreases e,
{
    match e {
        RegExpr::Load(u) => ExprCode {
            insts: seq![
                inst(65, Some(w(11 + m)), Some(w(next)), seq![w(9 + position(uavs, u)), w(19 + m), w(21 + m)]),
                inst(61, Some(3u32), Some(w(next + 1)), seq![w(next)]),
            ],
            result: next + 1,
            next: next + 2,
        },
        RegExpr::BinOp(op, l, r) => {
            let cl = expr_code(*l, next, uavs, m);
            let cr = expr_code(*r, cl.next, uavs, m);
            if op is MulNeg {
                ExprCode {
                    insts: cl.insts + cr.insts + seq![
                        inst(133, Some(3u32), Some(w(cr.next)), seq![w(cl.result), w(cr.result)]),
                        inst(127, Some(3u32), Some(w(cr.next + 1)), seq![w(cr.next)]),
                    ],
                    result: cr.next + 1,
                    next: cr.next + 2,
                }
            } else {
                ExprCode {
                    insts: cl.insts + cr.insts + seq![
                        inst(float_opcode(op), Some(3u32), Some(w(cr.next)), seq![w(cl.result), w(cr.result)]),
                    ],
                    result: cr.next,
                    next: cr.next + 1,
                }
            }
        },
    }
}

/// Capability, memory model, entry point, execution mode and the
/// decorations of the buffer type of a chain module with `m` buffers.
pub open spec fn chain_head(thread_group: (u32, u32, u32), m: int) -> Seq<InstructionView> {
    seq![
        inst(17, None, None, seq![1u32]),
        inst(14, None, None, seq![0u32, 1u32]),
        InstructionView {
            opcode: 15,
            result_type: None,
            result_id: None,
            operands: seq![
                OperandView::Word(5u32),
                OperandView::Word(w(17 + m)),
                OperandView::Text(main_text()),
                OperandView::Word(w(10 + m)),
            ],
        },
        inst(16, None, None, seq![w(17 + m), 17u32, thread_group.0, thread_group.1, thread_group.2]),
        inst(71, None, None, seq![6u32, 6u32, 4u32]),
        inst(71, None, None, seq![7u32, 3u32]),
        inst(72, None, None, seq![7u32, 0u32, 35u32, 0u32]),
    ]
}

/// The descriptor set and binding of each buffer variable.
pub open spec fn var_decorations(uavs: Seq<u32>) -> Seq<InstructionView>
    decreases uavs.len(),
{
    if uavs.len() == 0 {
        Seq::empty()
    } else {
        let j = uavs.len() - 1;
        var_decorations(uavs.drop_last()) + seq![
            inst(71, None, None, seq![w(9 + j), 34u32, 0u32]),
            inst(71, None, None, seq![w(9 + j), 33u32, uavs.last()]),
        ]
    }
}

/// The built-in decoration of the invocation id and the decorations of the
/// push-constant block.
pub open spec fn chain_decorations_tail(m: int) -> Seq<InstructionView> {
    seq![
        inst(71, None, None, seq![w(10 + m), 11u32, 28u32]),
        inst(71, None, None, seq![w(12 + m), 2u32]),
        inst(72, None, None, seq![w(12 + m), 0u32, 35u32, 0u32]),
    ]
}

/// The types up to the buffer pointer type.
pub open spec fn chain_types() -> Seq<InstructionView> {
    seq![
        inst(19, None, Some(1u32), seq![]),
        inst(33, None, Some(2u32), seq![1u32]),
        inst(22, None, Some(3u32), seq![32u32]),
        inst(21, None, Some(4u32), seq![32u32, 0u32]),
        inst(23, None, Some(5u32), seq![4u32, 3u32]),
        inst(29, None, Some(6u32), seq![3u32]),
        inst(30, None, Some(7u32), seq![6u32]),
        inst(32, None, Some(8u32), seq![2u32, 7u32]),
    ]
}

/// The first `n` buffer variables.
pub open spec fn var_globals(n: int) -> Seq<InstructionView>
    decreases n,
{
    if n <= 0 {
        Seq::empty()
    } else {
        var_globals(n - 1) + seq![inst(59, Some(8u32), Some(w(9 + n - 1)), seq![2u32])]
    }
}

/// The invocation id, the float pointer type, the push-constant block, the
/// bool type and the constant 0.
pub open spec fn chain_globals_tail(m: int) -> Seq<InstructionView> {
    seq![
        inst(32, None, Some(w(9 + m)), seq![1u32, 5u32]),
        inst(59, Some(w(9 + m)), Some(w(10 + m)), seq![1u32]),
        inst(32, None, Some(w(11 + m)), seq![2u32, 3u32]),
        inst(30, None, Some(w(12 + m)), seq![4u32]),
        inst(32, None, Some(w(13 + m)), seq![9u32, w(12 + m)]),
        inst(59, Some(w(13 + m)), Some(w(14 + m)), seq![9u32]),
        inst(32, None, Some(w(15 + m)), seq![9u32, 4u32]),
        inst(20, None, Some(w(16 + m)), seq![]),
        inst(43, Some(4u32), Some(w(19 + m)), seq![0u32]),
    ]
}

/// The start of the function: the invocation index `i` is id `21 + m`.
pub open spec fn chain_function_start(m: int) -> Seq<InstructionView> {
    seq![
        inst(54, Some(1u32), Some(w(17 + m)), seq![0u32, 2u32]),
        inst(248, None, Some(w(18 + m)), seq![]),
        inst(61, Some(5u32), Some(w(20 + m)), seq![w(10 + m)]),
        inst(81, Some(4u32), Some(w(21 + m)), seq![w(20 + m), 0u32]),
    ]
}

/// `if (i < n)`: load `n`, compare, branch into the guarded block.
pub open spec fn bounds_prefix(m: int) -> Seq<InstructionView> {
    seq![
        inst(65, Some(w(15 + m)), Some(w(22 + m)), seq![w(14 + m), w(19 + m)]),
        inst(61, Some(4u32), Some(w(23 + m)), seq![w(22 + m)]),
        inst(176, Some(w(16 + m)), Some(w(24 + m)), seq![w(21 + m), w(23 + m)]),
        inst(247, None, None, seq![w(26 + m), 0u32]),
        inst(250, None, None, seq![w(24 + m), w(25 + m), w(26 + m)]),
        inst(248, None, Some(w(25 + m)), seq![]),
    ]
}

/// The end of the guarded block.
pub open spec fn bounds_suffix(m: int) -> Seq<InstructionView> {
    seq![inst(249, None, None, seq![w(26 + m)]), inst(248, None, Some(w(26 + m)), seq![])]
}

/// The first id of the body.
pub open spec fn body_start(m: int, bounds_check: bool) -> int {
    if bounds_check {
        27 + m
    } else {
        22 + m
    }
}

/// The body: the evaluation of the expression and its store into the
/// written buffer at `[0, i]`.
pub open spec fn chain_body(root: RegExpr, write_uav: u32, uavs: Seq<u32>, m: int, bounds_check: bool) -> Seq<InstructionView> {
    let code = expr_code(root, body_start(m, bounds_check), uavs, m);
    code.insts + seq![
        inst(65, Some(w(11 + m)), Some(w(code.next)), seq![w(9 + position(uavs, write_uav)), w(19 + m), w(21 + m)]),
        inst(62, None, None, seq![w(code.next), w(code.result)]),
    ]
}

/// The instructions of the chain module.
pub open spec fn chain_module_insts(thread_group: (u32, u32, u32), root: RegExpr, write_uav: u32, bounds_check: bool) -> Seq<InstructionView> {
    let uavs = chain_uavs(root, write_uav);
    let m = uavs.len() as int;
    let body = chain_body(root, write_uav, uavs, m, bounds_check);
    let guarded = if bounds_check {
        bounds_prefix(m) + body + bounds_suffix(m)
    } else {
        body
    };
    chain_head(thread_group, m) + var_decorations(uavs) + chain_decorations_tail(m) + chain_types() + var_globals(m)
        + chain_globals_tail(m) + chain_function_start(m) + guarded + seq![
        inst(253, None, None, seq![]),
        inst(56, None, None, seq![]),
    ]
}

/// The id bound of the chain module.
pub open spec fn chain_module_bound(root: RegExpr, write_uav: u32, bounds_check: bool) -> u32 {
    let m = chain_uavs(root, write_uav).len() as int;
    w(expr_code(root, body_start(m, bounds_check), chain_uavs(root, write_uav), m).next + 1)
}

/// The id bound that the chain module of `root` needs: its last id plus
/// one. The module header holds the bound in a 32-bit word, so a chain
/// kernel exists only where this is at most `u32::MAX`.
pub open spec fn chain_id_bound(root: RegExpr, write_uav: u32, bounds_check: bool) -> int {
    body_start(chain_uavs(root, write_uav).len() as int, bounds_check) + expr_ids(root) + 1
}

/// The module of the chain kernel `out[i] = root`: one storage buffer per
/// UAV of [`chain_uavs`] (set 0, binding = the UAV), the push constant
/// `uint n` (compared with `i` where `bounds_check`), the thread-group
/// size as `LocalSize`, entry point `"main"`.
pub open spec fn chain_kernel_words(thread_group: (u32, u32, u32), root: RegExpr, write_uav: u32, bounds_check: bool) -> Seq<u32> {
    module_words(chain_module_bound(root, write_uav, bounds_check), chain_module_insts(thread_group, root, write_uav, bounds_check))
}

proof fn lemma_word_operands(ops: Seq<u32>)
    ensures
        operands_words(ops.map_values(|x: u32| OperandView::Word(x))) == ops,
    decreases ops.len(),
{
    let v = ops.map_values(|x: u32| OperandView::Word(x));
    if ops.len() > 0 {
        lemma_word_operands(ops.drop_last());
        assert(v.drop_last() =~= ops.drop_last().map_values(|x: u32| OperandView::Word(x)));
        assert(operands_words(v) =~= ops);
    } else {
        assert(operands_words(v) =~= ops);
    }
}

/// Builds an instruction whose operands are all literal words.
fn mk(op: u32, rt: Option<u32>, rid: Option<u32>, ops: Vec<u32>) -> (i: SpvInstruction)
    requires
        known_opcode(op),
        ops@.len() < 16,
    ensures
        i@ == inst(op, rt, rid, ops@),
        encodable(i@),
{
    let mut operands: Vec<SpvOperand> = Vec::new();
    let mut k: usize = 0;
    while k < ops.len()
        invariant
            k <= ops@.len(),
            operands@.len() == k,
            forall|j: int| 0 <= j < k ==> #[trigger] operands@[j]@ == OperandView::Word(ops@[j]),
        decreases ops@.len() - k,
    {
        operands.push(SpvOperand::Word(ops[k]));
        k = k + 1;
    }
    let i = SpvInstruction { opcode: op, result_type: rt, result_id: rid, operands };
    assert(i@.operands =~= ops@.map_values(|x: u32| OperandView::Word(x)));
    proof {
        lemma_word_operands(ops@);
    }
    i
}

/// Pushes `i` onto `out`.
fn push_inst(out: &mut Vec<SpvInstruction>, i: SpvInstruction)
    requires
        forall|k: int| 0 <= k < old(out)@.len() ==> encodable(#[trigger] old(out)@[k]@),
        encodable(i@),
    ensures
        insts_view(final(out)@) == insts_view(old(out)@).push(i@),
        forall|k: int| 0 <= k < final(out)@.len() ==> encodable(#[trigger] final(out)@[k]@),
{
    let ghost v = i@;
    out.push(i);
    assert(insts_view(out@) =~= insts_view(old(out)@).push(v));
}

proof fn lemma_position_lt(s: Seq<u32>, x: u32)
    requires
        s.contains(x),
    ensures
        0 <= position(s, x) < s.len(),
        s[position(s, x)] == x,
    decreases s.len(),
{
    if s[0] != x {
        let k = choose|k: int| 0 <= k < s.len() && s[k] == x;
        assert(s.skip(1)[k - 1] == x);
        lemma_position_lt(s.skip(1), x);
    }
}

fn position_exec(s: &Vec<u32>, x: u32) -> (r: usize)
    requires
        s@.contains(x),
    ensures
        r as int == position(s@, x),
        r < s@.len(),
{
    proof {
        lemma_position_lt(s@, x);
    }
    let mut i: usize = 0;
    assert(s@.skip(0) =~= s@);
    while i < s.len()
        invariant
            i <= s@.len(),
            s@.contains(x),
            position(s@, x) == i + position(s@.skip(i as int), x),
            0 <= position(s@, x) < s@.len(),
        decreases s@.len() - i,
    {
        if s[i] == x {
            return i;
        }
        assert(s@.skip(i as int).skip(1) =~= s@.skip(i as int + 1));
        i = i + 1;
    }
    assert(s@.skip(i as int) =~= Seq::<u32>::empty());
    i
}

fn vec_contains(s: &Vec<u32>, x: u32) -> (b: bool)
    ensures
        b == s@.contains(x),
{
    let mut i: usize = 0;
    while i < s.len()
        invariant
            i <= s@.len(),
            forall|j: int| 0 <= j < i ==> s@[j] != x,
        decreases s@.len() - i,
    {
        if s[i] == x {
            return true;
        }
        i = i + 1;
    }
    false
}

proof fn lemma_distinct(s: Seq<u32>)
    ensures
        distinct(s).len() <= s.len(),
        forall|x: u32| distinct(s).contains(x) <==> s.contains(x),
    decreases s.len(),
{
    if s.len() > 0 {
        let p = s.drop_last();
        let d = distinct(p);
        let l = s.last();
        lemma_distinct(p);
        assert forall|x: u32| distinct(s).contains(x) <==> s.contains(x) by {
            if s.contains(x) {
                let k = choose|k: int| 0 <= k < s.len() && s[k] == x;
                if k < s.len() - 1 {
                    assert(p[k] == x);
                    assert(p.contains(x));
                    assert(d.contains(x));
                    if !d.contains(l) {
                        let j = choose|j: int| 0 <= j < d.len() && d[j] == x;
                        assert(d.push(l)[j] == x);
                    }
                } else {
                    assert(x == l);
                    if !d.contains(l) {
                        assert(d.push(l)[d.len() as int] == l);
                    }
                }
            }
            if distinct(s).contains(x) {
                let k = choose|k: int| 0 <= k < distinct(s).len() && distinct(s)[k] == x;
                if d.contains(l) {
                    assert(d.contains(x));
                    assert(p.contains(x));
                    let j = choose|j: int| 0 <= j < p.len() && p[j] == x;
                    assert(s[j] == x);
                } else if k < d.len() {
                    assert(d[k] == x);
                    assert(d.contains(x));
                    assert(p.contains(x));
                    let j = choose|j: int| 0 <= j < p.len() && p[j] == x;
                    assert(s[j] == x);
                } else {
                    assert(x == l);
                    assert(s[s.len() - 1] == x);
                }
            }
        }
    }
}

fn distinct_exec(s: &Vec<u32>) -> (d: Vec<u32>)
    ensures
        d@ == distinct(s@),
{
    let mut d: Vec<u32> = Vec::new();
    let mut i: usize = 0;
    assert(s@.take(0) =~= Seq::<u32>::empty());
    while i < s.len()
        invariant
            i <= s@.len(),
            d@ == distinct(s@.take(i as int)),
        decreases s@.len() - i,
    {
        assert(s@.take(i as int + 1).drop_last() =~= s@.take(i as int));
        if !vec_contains(&d, s[i]) {
            d.push(s[i]);
        }
        i = i + 1;
    }
    assert(s@.take(s@.len() as int) =~= s@);
    d
}

proof fn lemma_loads_ids(e: RegExpr)
    ensures
        2 * loads_of(e).len() <= expr_ids(e),
    decreases e,
{
    match e {
        RegExpr::Load(_) => {},
        RegExpr::BinOp(_, l, r) => {
            lemma_loads_ids(*l);
            lemma_loads_ids(*r);
        },
    }
}

proof fn lemma_expr_code_next(e: RegExpr, next: int, uavs: Seq<u32>, m: int)
    ensures
        expr_code(e, next, uavs, m).next == next + expr_ids(e),
        next <= expr_code(e, next, uavs, m).result < expr_code(e, next, uavs, m).next,
    decreases e,
{
    match e {
        RegExpr::Load(_) => {},
        RegExpr::BinOp(_, l, r) => {
            lemma_expr_code_next(*l, next, uavs, m);
            lemma_expr_code_next(*r, expr_code(*l, next, uavs, m).next, uavs, m);
        },
    }
}

/// The number of ids of `e`, or `cap` where it is not smaller.
pub fn expr_ids_capped(e: &RegExpr, cap: u64) -> (r: u64)
    requires
        cap <= 0x1_0000_0000,
    ensures
        r == if expr_ids(*e) < cap {
            expr_ids(*e)
        } else {
            cap as nat
        },
    decreases e,
{
    match e {
        RegExpr::Load(_) => if 2 < cap {
            2
        } else {
            cap
        },
        RegExpr::BinOp(op, l, r) => {
            let a = expr_ids_capped(l, cap);
            if a >= cap {
                return cap;
            }
            let b = expr_ids_capped(r, cap);
            if b >= cap {
                return cap;
            }
            let own: u64 = match op {
                BinaryOp::MulNeg => 2,
                _ => 1,
            };
            if a + b + own < cap {
                a + b + own
            } else {
                cap
            }
        },
    }
}

/// Whether the chain module of `root` fits the 32-bit id bound (see
/// [`chain_id_bound`]).
pub fn chain_ids_fit(root: &RegExpr, write_uav: u32, bounds_check: bool) -> (b: bool)
    ensures
        b == (chain_id_bound(*root, write_uav, bounds_check) <= u32::MAX),
{
    let mut loads: Vec<u32> = Vec::new();
    crate::spirv_gen::collect_loads(root, &mut loads);
    loads.push(write_uav);
    let uavs = distinct_exec(&loads);
    assert(loads@ =~= loads_of(*root).push(write_uav));
    let ids = expr_ids_capped(root, 0x1_0000_0000u64);
    let m = uavs.len() as u64;
    if ids >= 0x1_0000_0000u64 || m >= 0x1_0000_0000u64 {
        return false;
    }
    let start: u64 = if bounds_check { 27 } else { 22 };
    m + start + ids + 1 <= 0xFFFF_FFFFu64
}

/// Emits the evaluation of `e` (see [`expr_code`]).
fn emit_expr(e: &RegExpr, next: u32, uavs: &Vec<u32>, m: u32, out: &mut Vec<SpvInstruction>) -> (r: (u32, u32))
    requires
        22 + m <= next,
        next + expr_ids(*e) < u32::MAX,
        uavs@.len() == m,
        forall|u: u32| loads_of(*e).contains(u) ==> uavs@.contains(u),
        forall|k: int| 0 <= k < old(out)@.len() ==> encodable(#[trigger] old(out)@[k]@),
    ensures
        insts_view(final(out)@) == insts_view(old(out)@) + expr_code(*e, next as int, uavs@, m as int).insts,
        r.0 == expr_code(*e, next as int, uavs@, m as int).result,
        r.1 == expr_code(*e, next as int, uavs@, m as int).next,
        forall|k: int| 0 <= k < final(out)@.len() ==> encodable(#[trigger] final(out)@[k]@),
    decreases e,
{
    proof {
        lemma_expr_code_next(*e, next as int, uavs@, m as int);
    }
    match e {
        RegExpr::Load(u) => {
            assert(loads_of(*e).contains(*u)) by {
                assert(loads_of(*e)[0] == *u);
            }
            let p = position_exec(uavs, *u);
            let i1 = mk(65, Some(11 + m), Some(next), vec![9 + p as u32, 19 + m, 21 + m]);
            assert(i1@ == expr_code(*e, next as int, uavs@, m as int).insts[0]) by {
                assert(seq![(9 + p) as u32, (19 + m) as u32, (21 + m) as u32] =~= seq![w(9 + position(uavs@, *u)), w(19 + m), w(21 + m)]);
            }
            push_inst(out, i1);
            let i2 = mk(61, Some(3), Some(next + 1), vec![next]);
            assert(i2@ == expr_code(*e, next as int, uavs@, m as int).insts[1]) by {
                let c = expr_code(*e, next as int, uavs@, m as int);
                assert(seq![next] =~= seq![w(next as int)]);
                assert(w(next as int + 1) == next + 1);
                assert(c.insts[1].opcode == 61);
                assert(c.insts[1].result_type == Some(3u32));
                assert(c.insts[1].result_id == Some((next + 1) as u32));
                assert(c.insts[1].operands == seq![next].map_values(|x: u32| OperandView::Word(x)));
                assert(i2@.operands == seq![next].map_values(|x: u32| OperandView::Word(x)));
            }
            push_inst(out, i2);
            assert(insts_view(out@) =~= insts_view(old(out)@) + expr_code(*e, next as int, uavs@, m as int).insts);
            (next + 1, next + 2)
        },
        RegExpr::BinOp(op, l, r) => {
            proof {
                lemma_expr_code_next(**l, next as int, uavs@, m as int);
                assert forall|u: u32| loads_of(**l).contains(u) implies uavs@.contains(u) by {
                    let k = choose|k: int| 0 <= k < loads_of(**l).len() && loads_of(**l)[k] == u;
                    assert(loads_of(*e)[k] == u);
                }
                assert forall|u: u32| loads_of(**r).contains(u) implies uavs@.contains(u) by {
                    let k = choose|k: int| 0 <= k < loads_of(**r).len() && loads_of(**r)[k] == u;
                    assert(loads_of(*e)[loads_of(**l).len() + k] == u);
                }
            }
            let ghost mid = insts_view(out@);
            let (lr, n1) = emit_expr(l, next, uavs, m, out);
            let (rr, n2) = emit_expr(r, n1, uavs, m, out);
            match op {
                BinaryOp::MulNeg => {
                    let i1 = mk(133, Some(3), Some(n2), vec![lr, rr]);
                    let i2 = mk(127, Some(3), Some(n2 + 1), vec![n2]);
                    let ghost cl = expr_code(**l, next as int, uavs@, m as int);
                    let ghost cr = expr_code(**r, cl.next, uavs@, m as int);
                    assert(seq![lr, rr] =~= seq![w(cl.result), w(cr.result)]);
                    assert(seq![n2] =~= seq![w(cr.next)]);
                    assert(w(cr.next + 1) == (n2 + 1) as u32);
                    assert(w(cr.next) == n2);
                    assert(i1@ == inst(133, Some(3u32), Some(w(cr.next)), seq![w(cl.result), w(cr.result)]));
                    assert(i2@.operands == seq![n2].map_values(|x: u32| OperandView::Word(x)));
                    assert(i2@.result_id == Some((n2 + 1) as u32));
                    assert(i2@ == inst(127, Some(3u32), Some(w(cr.next + 1)), seq![w(cr.next)]));
                    assert(expr_code(*e, next as int, uavs@, m as int).insts == cl.insts + cr.insts + seq![i1@, i2@]);
                    push_inst(out, i1);
                    push_inst(out, i2);
                    assert(insts_view(out@) =~= insts_view(old(out)@) + expr_code(*e, next as int, uavs@, m as int).insts);
                    (n2 + 1, n2 + 2)
                },
                _ => {
                    let opc = crate::spirv_gen::float_opcode_exec(*op);
                    let i1 = mk(opc, Some(3), Some(n2), vec![lr, rr]);
                    let ghost cl = expr_code(**l, next as int, uavs@, m as int);
                    let ghost cr = expr_code(**r, cl.next, uavs@, m as int);
                    assert(seq![lr, rr] =~= seq![w(cl.result), w(cr.result)]);
                    assert(expr_code(*e, next as int, uavs@, m as int).insts == cl.insts + cr.insts + seq![i1@]);
                    push_inst(out, i1);
                    assert(insts_view(out@) =~= insts_view(old(out)@) + expr_code(*e, next as int, uavs@, m as int).insts);
                    (n2, n2 + 1)
                },
            }
        },
    }
}

/// Pushes the head of a chain module (see [`chain_head`]).
fn emit_chain_head(out: &mut Vec<SpvInstruction>, thread_group: (u32, u32, u32), m: u32)
    requires
        m + 21 <= u32::MAX,
        forall|k: int| 0 <= k < old(out)@.len() ==> encodable(#[trigger] old(out)@[k]@),
    ensures
        insts_view(final(out)@) =~~= insts_view(old(out)@) + chain_head(thread_group, m as int),
        forall|k: int| 0 <= k < final(out)@.len() ==> encodable(#[trigger] final(out)@[k]@),
{
    let ghost start = insts_view(out@);
    push_inst(out, mk(17, None, None, vec![1]));
    push_inst(out, mk(14, None, None, vec![0, 1]));
    let ops: Vec<SpvOperand> = vec![
        SpvOperand::Word(5),
        SpvOperand::Word(17 + m),
        SpvOperand::Text(crate::spirv_module::main_bytes()),
        SpvOperand::Word(10 + m),
    ];
    let ep = SpvInstruction { opcode: 15, result_type: None, result_id: None, operands: ops };
    proof {
        let v = ep@.operands;
        assert(v =~~= seq![
            OperandView::Word(5u32),
            OperandView::Word(w(17 + m)),
            OperandView::Text(main_text()),
            OperandView::Word(w(10 + m)),
        ]);
        assert forall|k: int| 0 <= k < v.len() implies (#[trigger] v[k] matches OperandView::Text(s) ==> s == main_text()
            || s == crate::spirv_module::glsl_text()) by {}
        crate::spirv_module::lemma_operands_words_len(v);
        assert forall|k: int| 0 <= k < v.len() implies (#[trigger] v[k] matches OperandView::Text(s) ==> forall|j: int|
            0 <= j < s.len() ==> s[j] < 128) by {}
    }
    push_inst(out, ep);
    push_inst(out, mk(16, None, None, vec![17 + m, 17, thread_group.0, thread_group.1, thread_group.2]));
    push_inst(out, mk(71, None, None, vec![6, 6, 4]));
    push_inst(out, mk(71, None, None, vec![7, 3]));
    push_inst(out, mk(72, None, None, vec![7, 0, 35, 0]));
}

/// Pushes the decorations of the buffer variables (see
/// [`var_decorations`]).
fn emit_var_decorations(out: &mut Vec<SpvInstruction>, uavs: &Vec<u32>)
    requires
        uavs@.len() + 21 <= u32::MAX,
        forall|k: int| 0 <= k < old(out)@.len() ==> encodable(#[trigger] old(out)@[k]@),
    ensures
        insts_view(final(out)@) =~~= insts_view(old(out)@) + var_decorations(uavs@),
        forall|k: int| 0 <= k < final(out)@.len() ==> encodable(#[trigger] final(out)@[k]@),
{
    let ghost start = insts_view(out@);
    let mut j: usize = 0;
    assert(uavs@.take(0) =~= Seq::<u32>::empty());
    assert(start + var_decorations(Seq::<u32>::empty()) =~= start);
    while j < uavs.len()
        invariant
            j <= uavs@.len(),
            uavs@.len() + 21 <= u32::MAX,
            insts_view(out@) =~~= start + var_decorations(uavs@.take(j as int)),
            forall|k: int| 0 <= k < out@.len() ==> encodable(#[trigger] out@[k]@),
        decreases uavs@.len() - j,
    {
        let id = 9 + j as u32;
        push_inst(out, mk(71, None, None, vec![id, 34, 0]));
        push_inst(out, mk(71, None, None, vec![id, 33, uavs[j]]));
        assert(uavs@.take(j as int + 1).drop_last() =~= uavs@.take(j as int));
        assert(uavs@.take(j as int + 1).last() == uavs@[j as int]);
        j = j + 1;
    }
    assert(uavs@.take(uavs@.len() as int) =~= uavs@);
}

/// Pushes the decoration tail, the types and the globals of a chain module
/// with `m` buffers.
fn emit_chain_globals(out: &mut Vec<SpvInstruction>, m: u32)
    requires
        m + 21 <= u32::MAX,
        forall|k: int| 0 <= k < old(out)@.len() ==> encodable(#[trigger] old(out)@[k]@),
    ensures
        insts_view(final(out)@) =~~= insts_view(old(out)@) + chain_decorations_tail(m as int) + chain_types()
            + var_globals(m as int) + chain_globals_tail(m as int),
        forall|k: int| 0 <= k < final(out)@.len() ==> encodable(#[trigger] final(out)@[k]@),
{
    let ghost start = insts_view(out@);
    push_inst(out, mk(71, None, None, vec![10 + m, 11, 28]));
    push_inst(out, mk(71, None, None, vec![12 + m, 2]));
    push_inst(out, mk(72, None, None, vec![12 + m, 0, 35, 0]));
    push_inst(out, mk(19, None, Some(1), vec![]));
    push_inst(out, mk(33, None, Some(2), vec![1]));
    push_inst(out, mk(22, None, Some(3), vec![32]));
    push_inst(out, mk(21, None, Some(4), vec![32, 0]));
    push_inst(out, mk(23, None, Some(5), vec![4, 3]));
    push_inst(out, mk(29, None, Some(6), vec![3]));
    push_inst(out, mk(30, None, Some(7), vec![6]));
    push_inst(out, mk(32, None, Some(8), vec![2, 7]));
    let ghost mid = insts_view(out@);
    assert(mid =~~= start + chain_decorations_tail(m as int) + chain_types());
    let mut j: u32 = 0;
    assert(mid + var_globals(0) =~= mid);
    while j < m
        invariant
            j <= m,
            m + 21 <= u32::MAX,
            insts_view(out@) =~~= mid + var_globals(j as int),
            forall|k: int| 0 <= k < out@.len() ==> encodable(#[trigger] out@[k]@),
        decreases m - j,
    {
        push_inst(out, mk(59, Some(8), Some(9 + j), vec![2]));
        j = j + 1;
    }
    push_inst(out, mk(32, None, Some(9 + m), vec![1, 5]));
    push_inst(out, mk(59, Some(9 + m), Some(10 + m), vec![1]));
    push_inst(out, mk(32, None, Some(11 + m), vec![2, 3]));
    push_inst(out, mk(30, None, Some(12 + m), vec![4]));
    push_inst(out, mk(32, None, Some(13 + m), vec![9, 12 + m]));
    push_inst(out, mk(59, Some(13 + m), Some(14 + m), vec![9]));
    push_inst(out, mk(32, None, Some(15 + m), vec![9, 4]));
    push_inst(out, mk(20, None, Some(16 + m), vec![]));
    push_inst(out, mk(43, Some(4), Some(19 + m), vec![0]));
}

/// Pushes the start of the function (see [`chain_function_start`]).
fn emit_function_start(out: &mut Vec<SpvInstruction>, m: u32)
    requires
        m + 21 <= u32::MAX,
        forall|k: int| 0 <= k < old(out)@.len() ==> encodable(#[trigger] old(out)@[k]@),
    ensures
        insts_view(final(out)@) =~~= insts_view(old(out)@) + chain_function_start(m as int),
        forall|k: int| 0 <= k < final(out)@.len() ==> encodable(#[trigger] final(out)@[k]@),
{
    push_inst(out, mk(54, Some(1), Some(17 + m), vec![0, 2]));
    push_inst(out, mk(248, None, Some(18 + m), vec![]));
    push_inst(out, mk(61, Some(5), Some(20 + m), vec![10 + m]));
    push_inst(out, mk(81, Some(4), Some(21 + m), vec![20 + m, 0]));
}

/// Pushes the body, guarded by `if (i < n)` where `bounds_check`; returns
/// the id bound.
fn emit_guarded_body(
    out: &mut Vec<SpvInstruction>,
    root: &RegExpr,
    write_uav: u32,
    uavs: &Vec<u32>,
    m: u32,
    bounds_check: bool,
) -> (bound: u32)
    requires
        body_start(m as int, bounds_check) + expr_ids(*root) < u32::MAX,
        uavs@.len() == m,
        forall|u: u32| loads_of(*root).contains(u) ==> uavs@.contains(u),
        uavs@.contains(write_uav),
        forall|k: int| 0 <= k < old(out)@.len() ==> encodable(#[trigger] old(out)@[k]@),
    ensures
        insts_view(final(out)@) =~~= insts_view(old(out)@) + if bounds_check {
            bounds_prefix(m as int) + chain_body(*root, write_uav, uavs@, m as int, bounds_check) + bounds_suffix(m as int)
        } else {
            chain_body(*root, write_uav, uavs@, m as int, bounds_check)
        },
        bound == w(expr_code(*root, body_start(m as int, bounds_check), uavs@, m as int).next + 1),
        forall|k: int| 0 <= k < final(out)@.len() ==> encodable(#[trigger] final(out)@[k]@),
{
    let ghost mi = m as int;
    let ghost entry = insts_view(out@);
    let start: u32 = if bounds_check {
        push_inst(out, mk(65, Some(15 + m), Some(22 + m), vec![14 + m, 19 + m]));
        push_inst(out, mk(61, Some(4), Some(23 + m), vec![22 + m]));
        push_inst(out, mk(176, Some(16 + m), Some(24 + m), vec![21 + m, 23 + m]));
        push_inst(out, mk(247, None, None, vec![26 + m, 0]));
        push_inst(out, mk(250, None, None, vec![24 + m, 25 + m, 26 + m]));
        push_inst(out, mk(248, None, Some(25 + m), vec![]));
        27 + m
    } else {
        22 + m
    };
    let ghost before_body = insts_view(out@);
    assert(before_body =~~= entry + if bounds_check {
        bounds_prefix(mi)
    } else {
        Seq::<InstructionView>::empty()
    });
    assert(start == body_start(mi, bounds_check));
    proof {
        lemma_expr_code_next(*root, start as int, uavs@, mi);
    }
    let (result, next) = emit_expr(root, start, uavs, m, out);
    let p = position_exec(uavs, write_uav);
    push_inst(out, mk(65, Some(11 + m), Some(next), vec![9 + p as u32, 19 + m, 21 + m]));
    push_inst(out, mk(62, None, None, vec![next, result]));
    assert(insts_view(out@) =~~= before_body + chain_body(*root, write_uav, uavs@, mi, bounds_check));
    if bounds_check {
        push_inst(out, mk(249, None, None, vec![26 + m]));
        push_inst(out, mk(248, None, Some(26 + m), vec![]));
    }
    next + 1
}

/// Builds the SPIR-V module of the chain kernel `out[i] = root` (see
/// [`chain_kernel_words`]); shared by the DXBC and DXIL translators.
pub fn emit_chain_spirv_for_kernel(
    thread_group: (u32, u32, u32),
    root: &RegExpr,
    write_uav: u32,
    bounds_check: bool,
) -> (words: Vec<u32>)
    requires
        chain_id_bound(*root, write_uav, bounds_check) <= u32::MAX,
    ensures
        words@ == chain_kernel_words(thread_group, *root, write_uav, bounds_check),
{
    let mut loads: Vec<u32> = Vec::new();
    crate::spirv_gen::collect_loads(root, &mut loads);
    loads.push(write_uav);
    let uavs = distinct_exec(&loads);
    proof {
        assert(loads@ =~= loads_of(*root).push(write_uav));
        lemma_distinct(loads@);
        lemma_loads_ids(*root);
        assert forall|u: u32| loads_of(*root).contains(u) implies uavs@.contains(u) by {
            let k = choose|k: int| 0 <= k < loads_of(*root).len() && loads_of(*root)[k] == u;
            assert(loads@[k] == u);
            assert(loads@.contains(u));
        }
        assert(loads@[loads@.len() - 1] == write_uav);
        assert(loads@.contains(write_uav));
    }
    let m = uavs.len() as u32;
    let ghost mi = m as int;
    let mut out: Vec<SpvInstruction> = Vec::new();
    emit_chain_head(&mut out, thread_group, m);
    emit_var_decorations(&mut out, &uavs);
    emit_chain_globals(&mut out, m);
    emit_function_start(&mut out, m);
    let bound = emit_guarded_body(&mut out, root, write_uav, &uavs, m, bounds_check);
    push_inst(&mut out, mk(253, None, None, vec![]));
    push_inst(&mut out, mk(56, None, None, vec![]));
    assert(insts_view(out@) =~~= chain_module_insts(thread_group, *root, write_uav, bounds_check));
    crate::spirv_module::assemble_module(bound, out.as_slice())
}

} // verus!
