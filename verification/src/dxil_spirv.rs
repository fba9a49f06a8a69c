//! SPIR-V from DXIL compute shaders: the resolved calls and binary
//! operations of a module (see `crate::dxil`) and its thread-group size go
//! into the same modules as the DXBC translators build.

use vstd::prelude::*;
use crate::dxil::{
    calls_and_binop, calls_and_chain, dxil_module_elements, dxil_module_of, find_module_block, module_values, numthreads_in_blocks,
    numthreads_of_module, resolve_module_calls_and_binop, resolve_module_calls_and_chain, BcBlock, CallErrorView,
    DxilCallResolutionError, DxilNumThreadsError, MissingPart, ResolvedDxilCall,
};
use crate::spirv_gen::{
    chain_kernel, compute_kernel_words, emit_spirv_for_kernel, is_chain_kernel, ChainTranslatedKernel, RegExpr,
    TranslatedKernel, Unsupported,
};

verus! {

/// Why a single-operation DXIL shader could not be translated.
#[derive(Debug)]
pub enum DxilSpirvError {
    CallResolution(DxilCallResolutionError),
    /// This many buffer loads, where the shape has two.
    UnexpectedBufferLoadCount(usize),
    /// No buffer store (the count found).
    UnexpectedBufferStoreCount(usize),
    NumThreads(DxilNumThreadsError),
}

/// Why a chain DXIL shader could not be translated.
#[derive(Debug)]
pub enum DxilChainSpirvError {
    CallResolution(DxilCallResolutionError),
    /// No buffer store (the count found).
    UnexpectedBufferStoreCount(usize),
    NumThreads(DxilNumThreadsError),
    /// The expression would need more ids than a chain module may have.
    ExpressionTooLarge,
}

/// The range ids of the buffer loads among `calls`, in order.
pub open spec fn load_ranges(calls: Seq<ResolvedDxilCall>) -> Seq<i64>
    decreases calls.len(),
{
    if calls.len() == 0 {
        Seq::empty()
    } else {
        let rest = load_ranges(calls.drop_last());
        match calls.last() {
            ResolvedDxilCall::BufferLoad { handle_range_id } => rest.push(handle_range_id),
            _ => rest,
        }
    }
}

/// The range id of the last buffer store among `calls`.
pub open spec fn last_store(calls: Seq<ResolvedDxilCall>) -> Option<i64>
    decreases calls.len(),
{
    if calls.len() == 0 {
        None
    } else {
        match calls.last() {
            ResolvedDxilCall::BufferStore { handle_range_id } => Some(handle_range_id),
            _ => last_store(calls.drop_last()),
        }
    }
}

fn loads_and_store(calls: &[ResolvedDxilCall]) -> (r: (Vec<i64>, Option<i64>))
    ensures
        r.0@ == load_ranges(calls@),
        r.1 == last_store(calls@),
{
    let mut loads: Vec<i64> = Vec::new();
    let mut store: Option<i64> = None;
    let mut i: usize = 0;
    assert(calls@.take(0) =~= Seq::<ResolvedDxilCall>::empty());
    while i < calls.len()
        invariant
            i <= calls@.len(),
            loads@ == load_ranges(calls@.take(i as int)),
            store == last_store(calls@.take(i as int)),
        decreases calls@.len() - i,
    {
        assert(calls@.take(i as int + 1).drop_last() =~= calls@.take(i as int));
        match calls[i] {
            ResolvedDxilCall::BufferLoad { handle_range_id } => {
                loads.push(handle_range_id);
            },
            ResolvedDxilCall::BufferStore { handle_range_id } => {
                store = Some(handle_range_id);
            },
            _ => {},
        }
        i = i + 1;
    }
    assert(calls@.take(calls@.len() as int) =~= calls@);
    (loads, store)
}

/// The outcome of translating a single-operation DXIL module: the
/// resolution's error, the count of loads (two) and of stores (one at
/// least), the thread-group size, then the element-wise kernel with `a`,
/// `b` the ranges of the operation's operands and `c` the stored one.
pub open spec fn binop_translation_ok(mb: BcBlock, r: Result<TranslatedKernel, DxilSpirvError>) -> bool {
    match calls_and_binop(mb) {
        Err(ev) => r matches Err(DxilSpirvError::CallResolution(e)) && e@ == ev,
        Ok((calls, binop)) => {
            let loads = load_ranges(calls);
            if loads.len() != 2 {
                r matches Err(DxilSpirvError::UnexpectedBufferLoadCount(n)) && n == loads.len()
            } else {
                match last_store(calls) {
                    None => r matches Err(DxilSpirvError::UnexpectedBufferStoreCount(n)) && n == 0,
                    Some(c) => match numthreads_in_blocks(mb.elements@, module_values(mb), 0) {
                        Err(e) => r matches Err(DxilSpirvError::NumThreads(e2)) && e2 == e,
                        Ok(tg) => r matches Ok(k) && k.spirv_words@ == compute_kernel_words(
                            tg,
                            binop.lhs_range_id as u32,
                            binop.rhs_range_id as u32,
                            c as u32,
                            binop.op,
                            false,
                        ) && k.entry_point@ == "main"@ && k.local_size == tg && k.uav_bind_points == (
                            binop.lhs_range_id as u32,
                            binop.rhs_range_id as u32,
                            c as u32,
                        ),
                    },
                }
            }
        },
    }
}

/// Translates the module block of a single-operation DXIL compute shader
/// (see [`binop_translation_ok`]).
pub fn translate_dxil_module_binary_op(mb: &BcBlock) -> (r: Result<TranslatedKernel, DxilSpirvError>)
    ensures
        binop_translation_ok(*mb, r),
{
    let (calls, binop) = match resolve_module_calls_and_binop(mb) {
        Ok(p) => p,
        Err(e) => {
            return Err(DxilSpirvError::CallResolution(e));
        },
    };
    let (loads, store) = loads_and_store(calls.as_slice());
    if loads.len() != 2 {
        return Err(DxilSpirvError::UnexpectedBufferLoadCount(loads.len()));
    }
    let c = match store {
        None => {
            return Err(DxilSpirvError::UnexpectedBufferStoreCount(0));
        },
        Some(c) => c,
    };
    let uav_a = binop.lhs_range_id as u32;
    let uav_b = binop.rhs_range_id as u32;
    let uav_c = c as u32;
    let local_size = match numthreads_of_module(mb) {
        Ok(t) => t,
        Err(e) => {
            return Err(DxilSpirvError::NumThreads(e));
        },
    };
    let spirv_words = emit_spirv_for_kernel(local_size, uav_a, uav_b, uav_c, binop.op, false);
    Ok(TranslatedKernel { spirv_words, entry_point: "main", local_size, uav_bind_points: (uav_a, uav_b, uav_c) })
}

/// Translates a single-operation DXIL compute shader (`c[i] = a[i] op b[i]`
/// with `op` one of add, sub, mul, div): the module block of the bitcode in
/// its `DXIL` chunk goes through [`translate_dxil_module_binary_op`]. What
/// cannot be found is `CallResolution(MissingBlock(..))`, for fewer than 32
/// bytes `MissingBlock(Container)`.
pub fn translate_dxil_binary_op_to_spirv(bytes: &[u8]) -> (r: Result<TranslatedKernel, DxilSpirvError>)
    requires
        crate::container::dxbc_scan_safe(bytes@),
    ensures
        bytes@.len() < 32 ==> (r matches Err(DxilSpirvError::CallResolution(e)) && e@ == CallErrorView::MissingBlock(
            MissingPart::Container,
        )),
        match dxil_module_of(bytes@) {
            Err(p) => r matches Err(DxilSpirvError::CallResolution(e)) && e@ == CallErrorView::MissingBlock(p),
            Ok(mb) => binop_translation_ok(mb, r),
        },
{
    let elements = match dxil_module_elements(bytes) {
        Ok(e) => e,
        Err(p) => {
            return Err(DxilSpirvError::CallResolution(DxilCallResolutionError::MissingBlock(p)));
        },
    };
    match find_module_block(elements.as_slice()) {
        Some(mb) => {
            let r = translate_dxil_module_binary_op(mb);
            assert(binop_translation_ok(*mb, r));
            r
        },
        None => Err(DxilSpirvError::CallResolution(DxilCallResolutionError::MissingBlock(MissingPart::ModuleBlock))),
    }
}

/// The translator of the first DXIL shader (vector addition), which
/// [`translate_dxil_binary_op_to_spirv`] has grown out of; the same
/// translation.
pub fn translate_dxil_vector_add_to_spirv(bytes: &[u8]) -> (r: Result<TranslatedKernel, DxilSpirvError>)
    requires
        crate::container::dxbc_scan_safe(bytes@),
    ensures
        bytes@.len() < 32 ==> (r matches Err(DxilSpirvError::CallResolution(e)) && e@ == CallErrorView::MissingBlock(
            MissingPart::Container,
        )),
        match dxil_module_of(bytes@) {
            Err(p) => r matches Err(DxilSpirvError::CallResolution(e)) && e@ == CallErrorView::MissingBlock(p),
            Ok(mb) => binop_translation_ok(mb, r),
        },
{
    translate_dxil_binary_op_to_spirv(bytes)
}

/// The outcome of translating a chain DXIL module: the resolution's error,
/// a store, the thread-group size, then the chain kernel of the resolved
/// expression stored into the last store's range (no bounds check).
pub open spec fn chain_translation_ok(mb: BcBlock, r: Result<ChainTranslatedKernel, DxilChainSpirvError>) -> bool {
    match calls_and_chain(mb) {
        Err(ev) => r matches Err(DxilChainSpirvError::CallResolution(e)) && e@ == ev,
        Ok((calls, root)) => match last_store(calls) {
            None => r matches Err(DxilChainSpirvError::UnexpectedBufferStoreCount(n)) && n == 0,
            Some(c) => match numthreads_in_blocks(mb.elements@, module_values(mb), 0) {
                Err(e) => r matches Err(DxilChainSpirvError::NumThreads(e2)) && e2 == e,
                Ok(tg) => if crate::chain::chain_id_bound(root, c as u32, false) <= u32::MAX {
                    r matches Ok(k) && is_chain_kernel(k, tg, root, c as u32, false)
                } else {
                    r is Err && r->Err_0 is ExpressionTooLarge
                },
            },
        },
    }
}

/// Translates the module block of a chain DXIL compute shader (see
/// [`chain_translation_ok`]).
pub fn translate_dxil_module_chain(mb: &BcBlock) -> (r: Result<ChainTranslatedKernel, DxilChainSpirvError>)
    ensures
        chain_translation_ok(*mb, r),
{
    let (calls, root) = match resolve_module_calls_and_chain(mb) {
        Ok(p) => p,
        Err(e) => {
            return Err(DxilChainSpirvError::CallResolution(e));
        },
    };
    let (_, store) = loads_and_store(calls.as_slice());
    let c = match store {
        None => {
            return Err(DxilChainSpirvError::UnexpectedBufferStoreCount(0));
        },
        Some(c) => c,
    };
    let local_size = match numthreads_of_module(mb) {
        Ok(t) => t,
        Err(e) => {
            return Err(DxilChainSpirvError::NumThreads(e));
        },
    };
    match chain_kernel(local_size, root, c as u32, false) {
        Ok(k) => Ok(k),
        Err(_) => Err(DxilChainSpirvError::ExpressionTooLarge),
    }
}

/// Translates a chain DXIL compute shader: the module block of the bitcode
/// in its `DXIL` chunk goes through [`translate_dxil_module_chain`]. What
/// cannot be found is `CallResolution(MissingBlock(..))`, for fewer than 32
/// bytes `MissingBlock(Container)`.
pub fn translate_dxil_chain_to_spirv(bytes: &[u8]) -> (r: Result<ChainTranslatedKernel, DxilChainSpirvError>)
    requires
        crate::container::dxbc_scan_safe(bytes@),
    ensures
        bytes@.len() < 32 ==> (r matches Err(DxilChainSpirvError::CallResolution(e)) && e@
            == CallErrorView::MissingBlock(MissingPart::Container)),
        match dxil_module_of(bytes@) {
            Err(p) => r matches Err(DxilChainSpirvError::CallResolution(e)) && e@ == CallErrorView::MissingBlock(p),
            Ok(mb) => chain_translation_ok(mb, r),
        },
{
    let elements = match dxil_module_elements(bytes) {
        Ok(e) => e,
        Err(p) => {
            return Err(DxilChainSpirvError::CallResolution(DxilCallResolutionError::MissingBlock(p)));
        },
    };
    match find_module_block(elements.as_slice()) {
        Some(mb) => {
            let r = translate_dxil_module_chain(mb);
            assert(chain_translation_ok(*mb, r));
            r
        },
        None => Err(DxilChainSpirvError::CallResolution(DxilCallResolutionError::MissingBlock(MissingPart::ModuleBlock))),
    }
}

} // verus!
