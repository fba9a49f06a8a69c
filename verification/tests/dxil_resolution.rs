//! Resolving the `dx.op` calls and the binary operation of a hand-built
//! module block: three handles, the thread id, two loads, an add and a
//! store.

use directx_shader_translate::dxil::{
    resolve_module_calls_and_binop, resolve_module_calls_and_chain, BcBlock, BcElement, BcPayload, BcRecord, ResolvedDxilBinOp, ResolvedDxilCall,
};
use directx_shader_translate::spirv_gen::{BinaryOp, RegExpr};

fn rec(id: u64, fields: &[u64]) -> BcElement {
    BcElement::Record(BcRecord { id, fields: fields.to_vec(), payload: None })
}

fn named(value_id: u64, name: &str) -> BcElement {
    BcElement::Record(BcRecord { id: 1, fields: vec![value_id], payload: Some(BcPayload::Char6String(name.as_bytes().to_vec())) })
}

fn int_constant(v: u64) -> BcElement {
    rec(4, &[v * 2])
}

/// Values 0..=3 are the four intrinsics, 4..=10 the constants
/// 57, 93, 68, 69, 0, 1, 2; the body defines values from 11 on.
fn module_with(binop_fields: &[u64]) -> BcBlock {
    let symtab = BcBlock {
        id: 14,
        elements: vec![
            named(0, "dx.op.createHandle"),
            named(1, "dx.op.threadId.i32"),
            named(2, "dx.op.bufferLoad.f32"),
            named(3, "dx.op.bufferStore.f32"),
        ],
    };
    let constants = BcBlock {
        id: 11,
        elements: vec![
            int_constant(57),
            int_constant(93),
            int_constant(68),
            int_constant(69),
            int_constant(0),
            int_constant(1),
            int_constant(2),
        ],
    };
    let body = BcBlock {
        id: 12,
        elements: vec![
            rec(1, &[1]),
            rec(34, &[0, 0, 11, 7, 3, 3, 3, 3]),
            rec(34, &[0, 0, 12, 8, 3, 3, 3, 3]),
            rec(34, &[0, 0, 13, 9, 3, 3, 3, 3]),
            rec(34, &[0, 0, 13, 9, 9]),
            rec(34, &[0, 0, 13, 9, 4, 1, 1]),
            rec(26, &[1, 0]),
            rec(34, &[0, 0, 15, 11, 5, 3, 3]),
            rec(26, &[1, 0]),
            rec(2, binop_fields),
            rec(34, &[0, 0, 17, 13, 7, 6, 6, 1, 1, 1, 1, 1]),
            rec(10, &[]),
        ],
    };
    BcBlock {
        id: 8,
        elements: vec![
            rec(8, &[]),
            rec(8, &[]),
            rec(8, &[]),
            rec(8, &[]),
            BcElement::Block(symtab),
            BcElement::Block(constants),
            BcElement::Block(body),
        ],
    }
}

#[test]
fn the_binary_operation_reads_two_loaded_buffers() {
    let (calls, binop) = resolve_module_calls_and_binop(&module_with(&[3, 1, 0, 0])).expect("resolves");
    assert_eq!(
        calls,
        vec![
            ResolvedDxilCall::CreateHandle { range_id: 0 },
            ResolvedDxilCall::CreateHandle { range_id: 1 },
            ResolvedDxilCall::CreateHandle { range_id: 2 },
            ResolvedDxilCall::ThreadId,
            ResolvedDxilCall::BufferLoad { handle_range_id: 0 },
            ResolvedDxilCall::BufferLoad { handle_range_id: 1 },
            ResolvedDxilCall::BufferStore { handle_range_id: 2 },
        ]
    );
    assert_eq!(binop, ResolvedDxilBinOp { op: BinaryOp::Add, lhs_range_id: 0, rhs_range_id: 1 });
    for id in [binop.lhs_range_id, binop.rhs_range_id] {
        assert!(calls.contains(&ResolvedDxilCall::BufferLoad { handle_range_id: id }));
    }
}

#[test]
fn swapped_operands_keep_their_order() {
    let (_, binop) = resolve_module_calls_and_binop(&module_with(&[1, 3, 1, 0])).expect("resolves");
    assert_eq!(binop, ResolvedDxilBinOp { op: BinaryOp::Sub, lhs_range_id: 1, rhs_range_id: 0 });
}

#[test]
fn an_operand_that_is_no_loaded_value_is_refused() {
    assert!(resolve_module_calls_and_binop(&module_with(&[5, 1, 0, 0])).is_err());
}

#[test]
fn the_chain_expression_loads_only_loaded_buffers() {
    let (calls, e) = resolve_module_calls_and_chain(&module_with(&[1, 3, 2, 0])).expect("resolves");
    assert_eq!(e, RegExpr::BinOp(BinaryOp::Mul, Box::new(RegExpr::Load(1)), Box::new(RegExpr::Load(0))));
    for id in [1i64, 0] {
        assert!(calls.contains(&ResolvedDxilCall::BufferLoad { handle_range_id: id }));
    }
}
