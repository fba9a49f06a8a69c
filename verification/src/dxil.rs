//! DXIL (Shader Model 6) shaders: the LLVM bitstream of a `DXIL` chunk read
//! as a tree of blocks and records, its type table and instruction records
//! interpreted, the `dx.op.*` calls of a single-function compute shader
//! resolved through LLVM's relative value numbering, and the thread-group
//! size read from the `dx.entryPoints` metadata.
//!
//! The container is scanned by the `dxbc` crate and the bitstream by the
//! `llvm-bitcode` crate; both results are turned into the plain values of
//! this module ([`BcBlock`], [`BcRecord`], ...), on which all the logic works.

use vstd::prelude::*;
use llvm_bitcode::bitcode::{BitcodeElement, Payload};
use crate::container::{dxbc_first_container, dxbc_scan_safe, ChunkModel};

verus! {

/// The payload that an array, char6 or blob operand gave a record.
#[derive(Debug)]
pub enum BcPayload {
    Array(Vec<u64>),
    /// A char6 string, as its (ASCII) bytes.
    Char6String(Vec<u8>),
    Blob(Vec<u8>),
}

/// A record of the bitstream: its code, its fields and its payload.
#[derive(Debug)]
pub struct BcRecord {
    pub id: u64,
    pub fields: Vec<u64>,
    pub payload: Option<BcPayload>,
}

/// An element of a block: a nested block or a record.
#[derive(Debug)]
pub enum BcElement {
    Block(BcBlock),
    Record(BcRecord),
}

/// A block of the bitstream: its id and its elements in order.
#[derive(Debug)]
pub struct BcBlock {
    pub id: u32,
    pub elements: Vec<BcElement>,
}

/// An LLVM type-table entry (the codes of `TYPE_BLOCK_ID_NEW`, id 17).
#[derive(Clone, Debug, PartialEq, Eq)]
pub enum DxilType {
    Void,
    Float,
    Double,
    Integer { bits: u64 },
    /// A pointer; `pointee` indexes the type table.
    Pointer { pointee: usize, address_space: u64 },
    Function,
    /// A named struct (such as `class.RWStructuredBuffer<float>`), named by
    /// the `STRUCT_NAME` record before it; the name as UTF-8 bytes.
    StructNamed { name: Vec<u8> },
    Metadata,
    /// Any other code, kept as its number.
    Other { code: u64 },
    /// A `STRUCT_NAME` record (code 19): it only names the next struct and
    /// takes no place in the table.
    StructNameMarker,
}

/// An instruction record of a `FUNCTION_BLOCK` (id 12).
#[derive(Clone, Debug, PartialEq, Eq)]
pub enum DxilInstruction {
    /// `FUNC_CODE_DECLAREBLOCKS` (1): the number of basic blocks.
    DeclareBlocks { basic_block_count: u64 },
    /// `FUNC_CODE_INST_BINOP` (2), fields as read.
    BinOp { fields: Vec<u64> },
    /// `FUNC_CODE_INST_RET` (10).
    Ret,
    /// `FUNC_CODE_INST_CALL` (34), fields as read.
    Call { fields: Vec<u64> },
    /// `FUNC_CODE_INST_EXTRACTVAL` (26), fields as read.
    ExtractValue { fields: Vec<u64> },
    /// Any other code.
    Other { code: u64, fields: Vec<u64> },
}

/// The UTF-8 encoding of the character with code `c < 256`.
pub open spec fn latin1_utf8(c: u8) -> Seq<u8> {
    if c < 128 { seq![c] } else { seq![(0xC0 + c / 64) as u8, (0x80 + c % 64) as u8] }
}

/// The string made of the fields below 256, each read as a character
/// (fields of 256 and more are skipped), as UTF-8 bytes.
pub open spec fn chars_from_fields(fields: Seq<u64>) -> Seq<u8>
    decreases fields.len(),
{
    if fields.len() == 0 {
        Seq::empty()
    } else {
        let rest = chars_from_fields(fields.drop_last());
        let c = fields.last();
        if c < 256 { rest + latin1_utf8(c as u8) } else { rest }
    }
}

/// The string of `fields` (see [`chars_from_fields`]).
pub fn string_from_fields(fields: &[u64]) -> (s: Vec<u8>)
    ensures
        s@ == chars_from_fields(fields@),
{
    let mut out: Vec<u8> = Vec::new();
    let mut i: usize = 0;
    while i < fields.len()
        invariant
            i <= fields@.len(),
            out@ == chars_from_fields(fields@.take(i as int)),
        decreases fields@.len() - i,
    {
        assert(fields@.take(i as int + 1).drop_last() =~= fields@.take(i as int));
        let c = fields[i];
        if c < 128 {
            out.push(c as u8);
        } else if c < 256 {
            out.push((0xC0 + c / 64) as u8);
            out.push((0x80 + c % 64) as u8);
        }
        proof {
            let cc = c as u8;
            assert(out@ =~= chars_from_fields(fields@.take(i as int + 1)));
        }
        i = i + 1;
    }
    assert(fields@.take(fields@.len() as int) =~= fields@);
    out
}

/// [`DxilType`] as a plain value.
pub enum DxilTypeView {
    Void,
    Float,
    Double,
    Integer { bits: u64 },
    Pointer { pointee: usize, address_space: u64 },
    Function,
    StructNamed { name: Seq<u8> },
    Metadata,
    Other { code: u64 },
    StructNameMarker,
}

impl View for DxilType {
    type V = DxilTypeView;

    open spec fn view(&self) -> DxilTypeView {
        match self {
            DxilType::Void => DxilTypeView::Void,
            DxilType::Float => DxilTypeView::Float,
            DxilType::Double => DxilTypeView::Double,
            DxilType::Integer { bits } => DxilTypeView::Integer { bits: *bits },
            DxilType::Pointer { pointee, address_space } => DxilTypeView::Pointer { pointee: *pointee, address_space: *address_space },
            DxilType::Function => DxilTypeView::Function,
            DxilType::StructNamed { name } => DxilTypeView::StructNamed { name: name@ },
            DxilType::Metadata => DxilTypeView::Metadata,
            DxilType::Other { code } => DxilTypeView::Other { code: *code },
            DxilType::StructNameMarker => DxilTypeView::StructNameMarker,
        }
    }
}

/// [`DxilInstruction`] as a plain value.
pub enum DxilInstructionView {
    DeclareBlocks { basic_block_count: u64 },
    BinOp { fields: Seq<u64> },
    Ret,
    Call { fields: Seq<u64> },
    ExtractValue { fields: Seq<u64> },
    Other { code: u64, fields: Seq<u64> },
}

impl View for DxilInstruction {
    type V = DxilInstructionView;

    open spec fn view(&self) -> DxilInstructionView {
        match self {
            DxilInstruction::DeclareBlocks { basic_block_count } => DxilInstructionView::DeclareBlocks { basic_block_count: *basic_block_count },
            DxilInstruction::BinOp { fields } => DxilInstructionView::BinOp { fields: fields@ },
            DxilInstruction::Ret => DxilInstructionView::Ret,
            DxilInstruction::Call { fields } => DxilInstructionView::Call { fields: fields@ },
            DxilInstruction::ExtractValue { fields } => DxilInstructionView::ExtractValue { fields: fields@ },
            DxilInstruction::Other { code, fields } => DxilInstructionView::Other { code: *code, fields: fields@ },
        }
    }
}

/// The first field, or 0.
pub open spec fn first_or_zero(fields: Seq<u64>) -> u64 {
    if fields.len() > 0 { fields[0] } else { 0 }
}

/// The second field, or 0.
pub open spec fn second_or_zero(fields: Seq<u64>) -> u64 {
    if fields.len() > 1 { fields[1] } else { 0 }
}

/// The type-table entry of a record of `TYPE_BLOCK_ID_NEW`, given the name
/// carried over from a `STRUCT_NAME` record; and the name carried on.
pub open spec fn type_record(code: u64, fields: Seq<u64>, pending: Option<Seq<u8>>) -> (DxilTypeView, Option<Seq<u8>>) {
    if code == 2 {
        (DxilTypeView::Void, pending)
    } else if code == 3 {
        (DxilTypeView::Float, pending)
    } else if code == 4 {
        (DxilTypeView::Double, pending)
    } else if code == 7 {
        (DxilTypeView::Integer { bits: first_or_zero(fields) }, pending)
    } else if code == 8 {
        (DxilTypeView::Pointer { pointee: first_or_zero(fields) as usize, address_space: second_or_zero(fields) }, pending)
    } else if code == 21 {
        (DxilTypeView::Function, pending)
    } else if code == 19 {
        (DxilTypeView::StructNameMarker, Some(chars_from_fields(fields)))
    } else if code == 20 {
        (DxilTypeView::StructNamed { name: match pending { Some(n) => n, None => Seq::empty() } }, None)
    } else if code == 16 {
        (DxilTypeView::Metadata, pending)
    } else {
        (DxilTypeView::Other { code }, pending)
    }
}

fn first_field(fields: &[u64]) -> (r: u64)
    ensures
        r == first_or_zero(fields@),
{
    if fields.len() > 0 { fields[0] } else { 0 }
}

fn decode_type_record(code: u64, fields: &[u64], pending_struct_name: &mut Option<Vec<u8>>) -> (t: DxilType)
    ensures
        ({
            let (tv, p) = type_record(code, fields@, match *old(pending_struct_name) { Some(n) => Some(n@), None => None });
            &&& t@ == tv
            &&& p == match *final(pending_struct_name) { Some(n) => Some(n@), None => None }
        }),
{
    if code == 2 {
        DxilType::Void
    } else if code == 3 {
        DxilType::Float
    } else if code == 4 {
        DxilType::Double
    } else if code == 7 {
        DxilType::Integer { bits: first_field(fields) }
    } else if code == 8 {
        let second = if fields.len() > 1 { fields[1] } else { 0 };
        DxilType::Pointer { pointee: first_field(fields) as usize, address_space: second }
    } else if code == 21 {
        DxilType::Function
    } else if code == 19 {
        *pending_struct_name = Some(string_from_fields(fields));
        DxilType::StructNameMarker
    } else if code == 20 {
        let name = match pending_struct_name.take() {
            Some(n) => n,
            None => Vec::new(),
        };
        proof {
            assert(name@ == match *old(pending_struct_name) { Some(n) => n@, None => Seq::<u8>::empty() });
        }
        DxilType::StructNamed { name }
    } else if code == 16 {
        DxilType::Metadata
    } else {
        DxilType::Other { code }
    }
}

/// The type table of a `TYPE_BLOCK_ID_NEW` block's records from `k` on,
/// with the struct name carried over so far: `NUMENTRY` (code 1) and
/// `STRUCT_NAME` records take no place in it; sub-blocks are skipped.
pub open spec fn type_table_from(elements: Seq<BcElement>, pending: Option<Seq<u8>>) -> Seq<DxilTypeView>
    decreases elements.len(),
{
    if elements.len() == 0 {
        Seq::empty()
    } else {
        match elements[0] {
            BcElement::Record(rec) => if rec.id == 1 {
                type_table_from(elements.drop_first(), pending)
            } else {
                let (t, p) = type_record(rec.id, rec.fields@, pending);
                if t is StructNameMarker {
                    type_table_from(elements.drop_first(), p)
                } else {
                    seq![t] + type_table_from(elements.drop_first(), p)
                }
            },
            BcElement::Block(_) => type_table_from(elements.drop_first(), pending),
        }
    }
}

/// The type table of a `TYPE_BLOCK_ID_NEW` block (id 17), read with LLVM's
/// type codes.
pub fn resolve_type_table(type_block: &BcBlock) -> (table: Vec<DxilType>)
    ensures
        table@.map_values(|t: DxilType| t@) == type_table_from(type_block.elements@, None),
{
    let mut table: Vec<DxilType> = Vec::new();
    let mut pending: Option<Vec<u8>> = None;
    let mut i: usize = 0;
    let ghost all = type_block.elements@;
    assert(all.skip(0) =~= all);
    assert(table@.map_values(|t: DxilType| t@) =~= Seq::<DxilTypeView>::empty());
    while i < type_block.elements.len()
        invariant
            i <= all.len(),
            all == type_block.elements@,
            table@.map_values(|t: DxilType| t@) + type_table_from(all.skip(i as int), match pending { Some(n) => Some(n@), None => None })
                == type_table_from(all, None),
        decreases all.len() - i,
    {
        assert(all.skip(i as int + 1) =~= all.skip(i as int).drop_first());
        match &type_block.elements[i] {
            BcElement::Record(rec) => {
                if rec.id != 1 {
                    let t = decode_type_record(rec.id, rec.fields.as_slice(), &mut pending);
                    if !matches!(t, DxilType::StructNameMarker) {
                        let ghost before = table@;
                        table.push(t);
                        assert(table@.map_values(|t: DxilType| t@) =~= before.map_values(|t: DxilType| t@).push(t@));
                    }
                }
            },
            BcElement::Block(_) => {},
        }
        i = i + 1;
    }
    assert(all.skip(all.len() as int) =~= Seq::<BcElement>::empty());
    table
}


/// A copy of `s`.
pub fn copy_u64s(s: &[u64]) -> (v: Vec<u64>)
    ensures
        v@ == s@,
{
    let mut v: Vec<u64> = Vec::new();
    let mut i: usize = 0;
    while i < s.len()
        invariant
            i <= s@.len(),
            v@ == s@.take(i as int),
        decreases s@.len() - i,
    {
        v.push(s[i]);
        i = i + 1;
        assert(v@ =~= s@.take(i as int));
    }
    assert(s@.take(s@.len() as int) =~= s@);
    v
}

/// The instruction that a record of a `FUNCTION_BLOCK` stands for.
pub open spec fn instruction_of(rec: BcRecord) -> DxilInstructionView {
    if rec.id == 1 {
        DxilInstructionView::DeclareBlocks { basic_block_count: first_or_zero(rec.fields@) }
    } else if rec.id == 2 {
        DxilInstructionView::BinOp { fields: rec.fields@ }
    } else if rec.id == 10 {
        DxilInstructionView::Ret
    } else if rec.id == 26 {
        DxilInstructionView::ExtractValue { fields: rec.fields@ }
    } else if rec.id == 34 {
        DxilInstructionView::Call { fields: rec.fields@ }
    } else {
        DxilInstructionView::Other { code: rec.id, fields: rec.fields@ }
    }
}

/// The instructions of a block's records, in order; sub-blocks (such as a
/// function's `CONSTANTS_BLOCK`) are skipped.
pub open spec fn instructions_from(elements: Seq<BcElement>) -> Seq<DxilInstructionView>
    decreases elements.len(),
{
    if elements.len() == 0 {
        Seq::empty()
    } else {
        match elements[0] {
            BcElement::Record(rec) => seq![instruction_of(rec)] + instructions_from(elements.drop_first()),
            BcElement::Block(_) => instructions_from(elements.drop_first()),
        }
    }
}

/// The records directly under a `FUNCTION_BLOCK` (id 12), read as
/// instructions with LLVM's function codes.
pub fn decode_function_instructions(function_block: &BcBlock) -> (instructions: Vec<DxilInstruction>)
    ensures
        instructions@.map_values(|t: DxilInstruction| t@) == instructions_from(function_block.elements@),
{
    let mut out: Vec<DxilInstruction> = Vec::new();
    let mut i: usize = 0;
    let ghost all = function_block.elements@;
    assert(all.skip(0) =~= all);
    assert(out@.map_values(|t: DxilInstruction| t@) =~= Seq::<DxilInstructionView>::empty());
    while i < function_block.elements.len()
        invariant
            i <= all.len(),
            all == function_block.elements@,
            out@.map_values(|t: DxilInstruction| t@) + instructions_from(all.skip(i as int)) == instructions_from(all),
        decreases all.len() - i,
    {
        assert(all.skip(i as int + 1) =~= all.skip(i as int).drop_first());
        match &function_block.elements[i] {
            BcElement::Record(rec) => {
                let fields = copy_u64s(rec.fields.as_slice());
                let ins = if rec.id == 1 {
                    DxilInstruction::DeclareBlocks { basic_block_count: first_field(rec.fields.as_slice()) }
                } else if rec.id == 2 {
                    DxilInstruction::BinOp { fields }
                } else if rec.id == 10 {
                    DxilInstruction::Ret
                } else if rec.id == 26 {
                    DxilInstruction::ExtractValue { fields }
                } else if rec.id == 34 {
                    DxilInstruction::Call { fields }
                } else {
                    DxilInstruction::Other { code: rec.id, fields }
                };
                let ghost before = out@;
                out.push(ins);
                assert(out@.map_values(|t: DxilInstruction| t@) =~= before.map_values(|t: DxilInstruction| t@).push(instruction_of(*rec)));
            },
            BcElement::Block(_) => {},
        }
        i = i + 1;
    }
    assert(all.skip(all.len() as int) =~= Seq::<BcElement>::empty());
    out
}

/// The instruction shape of `vector_add_dxil.hlsl` as compiled by `dxc`:
/// where the float and the resource struct types are, and how many calls,
/// `extractvalue`s and binary operations it has.
#[derive(Debug, Clone, Copy, PartialEq, Eq)]
pub struct DxilVectorAddShape {
    /// Index of `float` in the type table.
    pub float_type_index: usize,
    /// Index of the first named struct (the `RWStructuredBuffer<float>`
    /// resource type) in the type table.
    pub resource_struct_type_index: usize,
    /// Number of `call` instructions.
    pub call_count: usize,
    /// Number of `extractvalue` instructions.
    pub extract_value_count: usize,
    /// Number of binary operations.
    pub binop_count: usize,
}

/// Why an instruction sequence is not the expected shape.
#[derive(Debug, Clone, Copy, PartialEq, Eq)]
pub enum DxilShapeError {
    /// More (or fewer) than one basic block.
    UnsupportedBasicBlockCount(u64),
    /// No `float` in the type table.
    NoFloatType,
    /// No named struct in the type table.
    NoNamedStructType,
    /// The instructions are not `DeclareBlocks`, calls and `extractvalue`s,
    /// one binary operation, at least one call, then `ret`.
    UnexpectedInstructionShape,
}

/// The first index at or after `i` of a `float` in `types`.
pub open spec fn first_float_from(types: Seq<DxilTypeView>, i: int) -> Option<int>
    decreases types.len() - i,
{
    if i < 0 || i >= types.len() {
        None
    } else if types[i] is Float {
        Some(i)
    } else {
        first_float_from(types, i + 1)
    }
}

/// The first index at or after `i` of a named struct in `types`.
pub open spec fn first_struct_from(types: Seq<DxilTypeView>, i: int) -> Option<int>
    decreases types.len() - i,
{
    if i < 0 || i >= types.len() {
        None
    } else if types[i] is StructNamed {
        Some(i)
    } else {
        first_struct_from(types, i + 1)
    }
}

/// The counts gathered while walking the instructions after `DeclareBlocks`.
pub struct ShapeScan {
    pub calls: nat,
    pub extracts: nat,
    pub binops: nat,
    pub saw_binop: bool,
    pub call_after_binop: bool,
    /// A `ret` has been seen; any instruction after it fails the scan.
    pub saw_ret: bool,
    pub failed: bool,
}

/// The scan after the instructions `ins` (walked in order).
pub open spec fn shape_scan(ins: Seq<DxilInstructionView>) -> ShapeScan
    decreases ins.len(),
{
    if ins.len() == 0 {
        ShapeScan { calls: 0, extracts: 0, binops: 0, saw_binop: false, call_after_binop: false, saw_ret: false, failed: false }
    } else {
        let s = shape_scan(ins.drop_last());
        if s.failed {
            s
        } else if s.saw_ret {
            ShapeScan { failed: true, ..s }
        } else {
            match ins.last() {
                DxilInstructionView::Call { .. } => ShapeScan { calls: s.calls + 1, call_after_binop: s.call_after_binop || s.saw_binop, ..s },
                DxilInstructionView::ExtractValue { .. } => if s.saw_binop {
                    ShapeScan { failed: true, ..s }
                } else {
                    ShapeScan { extracts: s.extracts + 1, ..s }
                },
                DxilInstructionView::BinOp { .. } => if s.saw_binop {
                    ShapeScan { failed: true, ..s }
                } else {
                    ShapeScan { binops: s.binops + 1, saw_binop: true, ..s }
                },
                DxilInstructionView::Ret => ShapeScan { saw_ret: true, ..s },
                _ => ShapeScan { failed: true, ..s },
            }
        }
    }
}

/// What [`decode_vector_add_dxil_shape`] returns.
pub open spec fn vector_add_shape(types: Seq<DxilTypeView>, ins: Seq<DxilInstructionView>) -> Result<DxilVectorAddShape, DxilShapeError> {
    match first_float_from(types, 0) {
        None => Err(DxilShapeError::NoFloatType),
        Some(fi) => match first_struct_from(types, 0) {
            None => Err(DxilShapeError::NoNamedStructType),
            Some(si) => if ins.len() == 0 || !(ins[0] is DeclareBlocks) {
                Err(DxilShapeError::UnexpectedInstructionShape)
            } else {
                let count = ins[0]->DeclareBlocks_basic_block_count;
                if count != 1 {
                    Err(DxilShapeError::UnsupportedBasicBlockCount(count))
                } else {
                    let s = shape_scan(ins.drop_first());
                    if s.failed || !s.saw_binop || !s.call_after_binop || !(ins.last() is Ret) {
                        Err(DxilShapeError::UnexpectedInstructionShape)
                    } else {
                        Ok(DxilVectorAddShape {
                            float_type_index: fi as usize,
                            resource_struct_type_index: si as usize,
                            call_count: s.calls as usize,
                            extract_value_count: s.extracts as usize,
                            binop_count: s.binops as usize,
                        })
                    }
                }
            }
        },
    }
}

proof fn lemma_scan_failed_stays(ins: Seq<DxilInstructionView>, k: int)
    requires
        0 <= k <= ins.len(),
        shape_scan(ins.take(k)).failed,
    ensures
        shape_scan(ins).failed,
    decreases ins.len() - k,
{
    if k < ins.len() {
        assert(ins.take(k + 1).drop_last() =~= ins.take(k));
        lemma_scan_failed_stays(ins, k + 1);
    } else {
        assert(ins.take(k) =~= ins);
    }
}

proof fn lemma_first_float_bound(types: Seq<DxilTypeView>, i: int)
    ensures
        first_float_from(types, i) matches Some(k) ==> i <= k < types.len() && types[k] is Float,
        forall|j: int| 0 <= i <= j < types.len() && first_float_from(types, i) is None ==> !(#[trigger] types[j] is Float),
    decreases types.len() - i,
{
    if 0 <= i < types.len() {
        lemma_first_float_bound(types, i + 1);
    }
}

/// Matches the type table and the instructions against the shape that
/// `vector_add_dxil.hlsl` compiles to: one basic block; calls and
/// `extractvalue`s; one binary operation; at least one call after it; and
/// `ret` last, and nowhere else. Anything else is refused.
pub fn decode_vector_add_dxil_shape(types: &[DxilType], instructions: &[DxilInstruction]) -> (r: Result<DxilVectorAddShape, DxilShapeError>)
    ensures
        r == vector_add_shape(types@.map_values(|t: DxilType| t@), instructions@.map_values(|t: DxilInstruction| t@)),
{
    let ghost tv = types@.map_values(|t: DxilType| t@);
    let ghost iv = instructions@.map_values(|t: DxilInstruction| t@);
    let mut fi: usize = 0;
    while fi < types.len()
        invariant
            fi <= types@.len(),
            tv == types@.map_values(|t: DxilType| t@),
            first_float_from(tv, 0) == first_float_from(tv, fi as int),
        ensures
            fi <= types@.len(),
            first_float_from(tv, 0) == first_float_from(tv, fi as int),
            fi == types@.len() || tv[fi as int] is Float,
        decreases types@.len() - fi,
    {
        if matches!(types[fi], DxilType::Float) {
            break;
        }
        fi = fi + 1;
    }
    if fi == types.len() {
        return Err(DxilShapeError::NoFloatType);
    }
    assert(tv[fi as int] is Float);
    assert(first_float_from(tv, 0) == Some(fi as int));
    let mut si: usize = 0;
    while si < types.len()
        invariant
            si <= types@.len(),
            tv == types@.map_values(|t: DxilType| t@),
            first_struct_from(tv, 0) == first_struct_from(tv, si as int),
        ensures
            si <= types@.len(),
            first_struct_from(tv, 0) == first_struct_from(tv, si as int),
            si == types@.len() || tv[si as int] is StructNamed,
        decreases types@.len() - si,
    {
        if matches!(types[si], DxilType::StructNamed { .. }) {
            break;
        }
        si = si + 1;
    }
    if si == types.len() {
        return Err(DxilShapeError::NoNamedStructType);
    }
    assert(tv[si as int] is StructNamed);
    assert(first_struct_from(tv, 0) == Some(si as int));
    if instructions.len() == 0 {
        return Err(DxilShapeError::UnexpectedInstructionShape);
    }
    let count = match &instructions[0] {
        DxilInstruction::DeclareBlocks { basic_block_count } => *basic_block_count,
        _ => {
            return Err(DxilShapeError::UnexpectedInstructionShape);
        },
    };
    if count != 1 {
        return Err(DxilShapeError::UnsupportedBasicBlockCount(count));
    }
    let mut calls: usize = 0;
    let mut extracts: usize = 0;
    let mut binops: usize = 0;
    let mut saw_binop = false;
    let mut call_after_binop = false;
    let mut saw_ret = false;
    let mut k: usize = 1;
    let ghost rest = iv.drop_first();
    assert(rest.take(0) =~= Seq::<DxilInstructionView>::empty());
    while k < instructions.len()
        invariant
            1 <= k <= instructions@.len(),
            iv == instructions@.map_values(|t: DxilInstruction| t@),
            rest == iv.drop_first(),
            iv.len() == instructions@.len(),
            iv[0] is DeclareBlocks,
            iv[0]->DeclareBlocks_basic_block_count == 1,
            tv == types@.map_values(|t: DxilType| t@),
            first_float_from(tv, 0) == Some(fi as int),
            first_struct_from(tv, 0) == Some(si as int),
            ({
                let s = shape_scan(rest.take(k - 1));
                &&& !s.failed
                &&& s.calls == calls
                &&& s.extracts == extracts
                &&& s.binops == binops
                &&& s.saw_binop == saw_binop
                &&& s.call_after_binop == call_after_binop
                &&& s.saw_ret == saw_ret
            }),
            calls <= k,
            extracts <= k,
            binops <= k,
        decreases instructions@.len() - k,
    {
        assert(rest.take(k as int).drop_last() =~= rest.take(k - 1));
        assert(rest.take(k as int).last() == instructions@[k as int]@);
        if saw_ret {
            proof {
                let s0 = shape_scan(rest.take(k - 1));
                assert(shape_scan(rest.take(k as int)) == ShapeScan { failed: true, ..s0 });
                lemma_scan_failed_stays(rest, k as int);
            }
            return Err(DxilShapeError::UnexpectedInstructionShape);
        }
        match &instructions[k] {
            DxilInstruction::Call { .. } => {
                calls = calls + 1;
                if saw_binop {
                    call_after_binop = true;
                }
            },
            DxilInstruction::ExtractValue { .. } => {
                if saw_binop {
                    proof {
                        let s0 = shape_scan(rest.take(k - 1));
                        assert(shape_scan(rest.take(k as int)) == ShapeScan { failed: true, ..s0 });
                        lemma_scan_failed_stays(rest, k as int);
                    }
                    return Err(DxilShapeError::UnexpectedInstructionShape);
                }
                extracts = extracts + 1;
            },
            DxilInstruction::BinOp { .. } => {
                if saw_binop {
                    proof {
                        let s0 = shape_scan(rest.take(k - 1));
                        assert(shape_scan(rest.take(k as int)) == ShapeScan { failed: true, ..s0 });
                        lemma_scan_failed_stays(rest, k as int);
                    }
                    return Err(DxilShapeError::UnexpectedInstructionShape);
                }
                saw_binop = true;
                binops = binops + 1;
            },
            DxilInstruction::Ret => {
                saw_ret = true;
            },
            _ => {
                proof {
                    let s0 = shape_scan(rest.take(k - 1));
                    assert(shape_scan(rest.take(k as int)) == ShapeScan { failed: true, ..s0 });
                    lemma_scan_failed_stays(rest, k as int);
                }
                return Err(DxilShapeError::UnexpectedInstructionShape);
            },
        }
        k = k + 1;
    }
    assert(rest.take(k - 1) =~= rest);
    if !saw_binop || !call_after_binop {
        return Err(DxilShapeError::UnexpectedInstructionShape);
    }
    if !matches!(instructions[instructions.len() - 1], DxilInstruction::Ret) {
        return Err(DxilShapeError::UnexpectedInstructionShape);
    }
    Ok(DxilVectorAddShape {
        float_type_index: fi,
        resource_struct_type_index: si,
        call_count: calls,
        extract_value_count: extracts,
        binop_count: binops,
    })
}

/// A value of the module's numbering, as far as the resolution below
/// distinguishes values.
#[derive(Debug, Clone, PartialEq)]
pub enum DxilValue {
    /// A declared function (a `dx.op.*` intrinsic or `main`), with its name
    /// where the value symbol table gives one.
    Function { name: Option<Vec<u8>> },
    /// An integer constant (`CST_CODE_INTEGER`, sign decoded).
    ConstantInt { value: i64 },
    /// `CST_CODE_NULL`.
    ConstantZero,
    /// `CST_CODE_UNDEF`.
    ConstantUndef,
    /// The handle a `dx.op.createHandle` call returns, for this range id.
    CreateHandleResult { range_id: i64 },
    /// The result of `dx.op.threadId.i32`.
    ThreadIdResult,
    /// The aggregate a `dx.op.bufferLoad.f32` call returns.
    BufferLoadAggregate { source_range_id: i64 },
    /// The float taken from such an aggregate by `extractvalue`.
    ExtractedBufferValue { source_range_id: i64 },
    /// The result of a binary operation.
    BinOpResult,
    /// Any other value.
    Other,
}

/// [`DxilValue`] as a plain value.
pub enum DxilValueView {
    Function { name: Option<Seq<u8>> },
    ConstantInt { value: i64 },
    ConstantZero,
    ConstantUndef,
    CreateHandleResult { range_id: i64 },
    ThreadIdResult,
    BufferLoadAggregate { source_range_id: i64 },
    ExtractedBufferValue { source_range_id: i64 },
    BinOpResult,
    Other,
}

impl View for DxilValue {
    type V = DxilValueView;

    open spec fn view(&self) -> DxilValueView {
        match self {
            DxilValue::Function { name } => DxilValueView::Function { name: match name { Some(n) => Some(n@), None => None } },
            DxilValue::ConstantInt { value } => DxilValueView::ConstantInt { value: *value },
            DxilValue::ConstantZero => DxilValueView::ConstantZero,
            DxilValue::ConstantUndef => DxilValueView::ConstantUndef,
            DxilValue::CreateHandleResult { range_id } => DxilValueView::CreateHandleResult { range_id: *range_id },
            DxilValue::ThreadIdResult => DxilValueView::ThreadIdResult,
            DxilValue::BufferLoadAggregate { source_range_id } => DxilValueView::BufferLoadAggregate { source_range_id: *source_range_id },
            DxilValue::ExtractedBufferValue { source_range_id } => DxilValueView::ExtractedBufferValue { source_range_id: *source_range_id },
            DxilValue::BinOpResult => DxilValueView::BinOpResult,
            DxilValue::Other => DxilValueView::Other,
        }
    }
}

/// The views of a sequence of values.
pub open spec fn values_view(v: Seq<DxilValue>) -> Seq<DxilValueView> {
    v.map_values(|x: DxilValue| x@)
}

/// LLVM's signed VBR convention for integer constants: the low bit is the
/// sign, the rest the magnitude; a lone sign bit (`1`) is `i64::MIN`.
pub open spec fn signed_vbr(raw: u64) -> i64 {
    if raw % 2 == 0 {
        (raw / 2) as i64
    } else if raw != 1 {
        (-((raw / 2) as int)) as i64
    } else {
        i64::MIN
    }
}

/// Decodes LLVM's signed VBR encoding of an integer constant.
pub fn decode_signed_vbr(raw: u64) -> (v: i64)
    ensures
        v == signed_vbr(raw),
{
    if raw % 2 == 0 {
        (raw / 2) as i64
    } else if raw != 1 {
        -((raw / 2) as i64)
    } else {
        i64::MIN
    }
}

/// The index that a relative operand refers to: `current - relative`, where
/// `current` values are defined so far; `None` for 0 or a reference before
/// the first value.
pub open spec fn relative_index(current: int, relative: u64) -> Option<int> {
    let r = relative as usize as int;
    if r == 0 || r > current { None } else { Some(current - r) }
}

/// The value that a relative operand refers to.
pub open spec fn relative_value(values: Seq<DxilValueView>, current: int, relative: u64) -> Option<DxilValueView> {
    match relative_index(current, relative) {
        Some(k) => if 0 <= k < values.len() { Some(values[k]) } else { None },
        None => None,
    }
}

/// Resolves an operand in LLVM's relative numbering: it counts back from
/// `current_value_no`, the number of values defined before the instruction.
pub fn resolve_relative(values: &[DxilValue], current_value_no: usize, relative: u64) -> (r: Option<&DxilValue>)
    ensures
        match r {
            Some(v) => relative_value(values_view(values@), current_value_no as int, relative) == Some(v@),
            None => relative_value(values_view(values@), current_value_no as int, relative) is None,
        },
{
    let relative = relative as usize;
    if relative == 0 || relative > current_value_no {
        return None;
    }
    let k = current_value_no - relative;
    if k < values.len() {
        Some(&values[k])
    } else {
        None
    }
}

/// `String::from_utf8_lossy(bytes)`, as UTF-8 bytes.
pub uninterp spec fn utf8_lossy(bytes: Seq<u8>) -> Seq<u8>;

/// Calls `String::from_utf8_lossy`: the contract names its result
/// [`utf8_lossy`], and states what std documents of valid input for the
/// plainest case: ASCII bytes (valid UTF-8) come back unchanged. Its
/// replacement of invalid sequences is not stated.
#[verifier::external_body]
fn from_utf8_lossy_bytes(bytes: &[u8]) -> (r: Vec<u8>)
    ensures
        r@ == utf8_lossy(bytes@),
        (forall|i: int| 0 <= i < bytes@.len() ==> #[trigger] bytes@[i] < 0x80) ==> r@ == bytes@,
{
    String::from_utf8_lossy(bytes).into_owned().into_bytes()
}

/// The name a payload gives: a char6 string as it is, a blob read as UTF-8
/// (lossily), an array read as characters.
pub open spec fn payload_name(p: BcPayload) -> Seq<u8> {
    match p {
        BcPayload::Char6String(s) => s@,
        BcPayload::Blob(b) => utf8_lossy(b@),
        BcPayload::Array(chars) => chars_from_fields(chars@),
    }
}

fn name_of_payload(p: &BcPayload) -> (n: Vec<u8>)
    ensures
        n@ == payload_name(*p),
{
    match p {
        BcPayload::Char6String(s) => {
            let mut v: Vec<u8> = Vec::new();
            let mut i: usize = 0;
            while i < s.len()
                invariant
                    i <= s@.len(),
                    v@ == s@.take(i as int),
                decreases s@.len() - i,
            {
                v.push(s[i]);
                i = i + 1;
                assert(v@ =~= s@.take(i as int));
            }
            assert(s@.take(s@.len() as int) =~= s@);
            v
        },
        BcPayload::Blob(b) => from_utf8_lossy_bytes(b.as_slice()),
        BcPayload::Array(chars) => string_from_fields(chars.as_slice()),
    }
}

/// The index of the first sub-block with id `id` among `elements`.
pub open spec fn first_block_from(elements: Seq<BcElement>, id: u32, i: int) -> Option<int>
    decreases elements.len() - i,
{
    if i < 0 || i >= elements.len() {
        None
    } else if elements[i] matches BcElement::Block(b) && b.id == id {
        Some(i)
    } else {
        first_block_from(elements, id, i + 1)
    }
}

/// The index of the first sub-block of `block` with id `id`.
pub fn find_sub_block(block: &BcBlock, id: u32) -> (r: Option<usize>)
    ensures
        r matches Some(k) ==> k < block.elements@.len(),
        match r {
            Some(k) => first_block_from(block.elements@, id, 0) == Some(k as int),
            None => first_block_from(block.elements@, id, 0) is None,
        },
{
    let mut i: usize = 0;
    while i < block.elements.len()
        invariant
            i <= block.elements@.len(),
            first_block_from(block.elements@, id, 0) == first_block_from(block.elements@, id, i as int),
        decreases block.elements@.len() - i,
    {
        match &block.elements[i] {
            BcElement::Block(b) => {
                if b.id == id {
                    return Some(i);
                }
            },
            BcElement::Record(_) => {},
        }
        i = i + 1;
    }
    None
}

/// The `(value id, name)` entries of a value symbol table's records from `k`
/// on: each `VST_CODE_ENTRY` (code 1) record with a first field and a
/// payload.
pub open spec fn symtab_entries(elements: Seq<BcElement>) -> Seq<(u64, Seq<u8>)>
    decreases elements.len(),
{
    if elements.len() == 0 {
        Seq::empty()
    } else {
        let rest = symtab_entries(elements.drop_last());
        match elements.last() {
            BcElement::Record(rec) => if rec.id == 1 && rec.fields@.len() > 0 && rec.payload is Some {
                rest.push((rec.fields@[0], payload_name(rec.payload->0)))
            } else {
                rest
            },
            BcElement::Block(_) => rest,
        }
    }
}

/// The names the module's value symbol table (the first sub-block with id
/// 14) gives, in order; a later entry for the same value wins.
pub open spec fn function_names(module_block: BcBlock) -> Seq<(u64, Seq<u8>)> {
    match first_block_from(module_block.elements@, 14, 0) {
        Some(k) => match module_block.elements@[k] {
            BcElement::Block(vst) => symtab_entries(vst.elements@),
            BcElement::Record(_) => Seq::empty(),
        },
        None => Seq::empty(),
    }
}

/// The name of value `id` among `entries`: the last entry for it.
pub open spec fn name_lookup(entries: Seq<(u64, Seq<u8>)>, id: u64) -> Option<Seq<u8>>
    decreases entries.len(),
{
    if entries.len() == 0 {
        None
    } else if entries.last().0 == id {
        Some(entries.last().1)
    } else {
        name_lookup(entries.drop_last(), id)
    }
}

fn symtab_names(vst: &BcBlock) -> (names: Vec<(u64, Vec<u8>)>)
    ensures
        names@.map_values(|e: (u64, Vec<u8>)| (e.0, e.1@)) == symtab_entries(vst.elements@),
{
    let mut names: Vec<(u64, Vec<u8>)> = Vec::new();
    let mut i: usize = 0;
    let ghost all = vst.elements@;
    while i < vst.elements.len()
        invariant
            i <= all.len(),
            all == vst.elements@,
            names@.map_values(|e: (u64, Vec<u8>)| (e.0, e.1@)) == symtab_entries(all.take(i as int)),
        decreases all.len() - i,
    {
        assert(all.take(i as int + 1).drop_last() =~= all.take(i as int));
        match &vst.elements[i] {
            BcElement::Record(rec) => {
                if rec.id == 1 && rec.fields.len() > 0 {
                    match &rec.payload {
                        Some(p) => {
                            let name = name_of_payload(p);
                            let ghost before = names@;
                            names.push((rec.fields[0], name));
                            assert(names@.map_values(|e: (u64, Vec<u8>)| (e.0, e.1@)) =~= before.map_values(
                                |e: (u64, Vec<u8>)| (e.0, e.1@),
                            ).push((rec.fields@[0], payload_name(*p))));
                        },
                        None => {},
                    }
                }
            },
            BcElement::Block(_) => {},
        }
        i = i + 1;
    }
    assert(all.take(all.len() as int) =~= all);
    names
}

/// The names that the module's value symbol table (block 14) gives its
/// values, in order (a later entry for the same value wins).
pub fn resolve_module_function_names(module_block: &BcBlock) -> (names: Vec<(u64, Vec<u8>)>)
    ensures
        names@.map_values(|e: (u64, Vec<u8>)| (e.0, e.1@)) == function_names(*module_block),
{
    match find_sub_block(module_block, 14) {
        Some(k) => match &module_block.elements[k] {
            BcElement::Block(vst) => symtab_names(vst),
            BcElement::Record(_) => Vec::new(),
        },
        None => Vec::new(),
    }
}

/// Looks up the name of value `id` (the last entry for it).
pub fn lookup_name(names: &[(u64, Vec<u8>)], id: u64) -> (r: Option<Vec<u8>>)
    ensures
        match r {
            Some(n) => name_lookup(names@.map_values(|e: (u64, Vec<u8>)| (e.0, e.1@)), id) == Some(n@),
            None => name_lookup(names@.map_values(|e: (u64, Vec<u8>)| (e.0, e.1@)), id) is None,
        },
{
    let ghost all = names@.map_values(|e: (u64, Vec<u8>)| (e.0, e.1@));
    let mut i: usize = names.len();
    assert(all.take(names@.len() as int) =~= all);
    while i > 0
        invariant
            i <= names@.len(),
            all == names@.map_values(|e: (u64, Vec<u8>)| (e.0, e.1@)),
            name_lookup(all, id) == name_lookup(all.take(i as int), id),
        decreases i,
    {
        assert(all.take(i as int).drop_last() =~= all.take(i - 1));
        if names[i - 1].0 == id {
            let mut v: Vec<u8> = Vec::new();
            let n = &names[i - 1].1;
            let mut j: usize = 0;
            while j < n.len()
                invariant
                    j <= n@.len(),
                    v@ == n@.take(j as int),
                decreases n@.len() - j,
            {
                v.push(n[j]);
                j = j + 1;
                assert(v@ =~= n@.take(j as int));
            }
            assert(n@.take(n@.len() as int) =~= n@);
            return Some(v);
        }
        i = i - 1;
    }
    None
}

/// The number of `MODULE_CODE_FUNCTION` records (code 8) among `elements`.
pub open spec fn function_record_count(elements: Seq<BcElement>) -> nat
    decreases elements.len(),
{
    if elements.len() == 0 {
        0
    } else {
        function_record_count(elements.drop_last()) + (if elements.last() matches BcElement::Record(r) && r.id == 8 { 1nat } else { 0nat })
    }
}

/// The number of function declarations of the module: the first values of
/// its numbering.
pub fn count_module_functions(module_block: &BcBlock) -> (n: usize)
    ensures
        n == function_record_count(module_block.elements@),
{
    let mut n: usize = 0;
    let mut i: usize = 0;
    let ghost all = module_block.elements@;
    while i < module_block.elements.len()
        invariant
            i <= all.len(),
            all == module_block.elements@,
            n == function_record_count(all.take(i as int)),
            n <= i,
        decreases all.len() - i,
    {
        assert(all.take(i as int + 1).drop_last() =~= all.take(i as int));
        match &module_block.elements[i] {
            BcElement::Record(r) => {
                if r.id == 8 {
                    n = n + 1;
                }
            },
            BcElement::Block(_) => {},
        }
        i = i + 1;
    }
    assert(all.take(all.len() as int) =~= all);
    n
}

/// The values that a `CONSTANTS_BLOCK`'s records define, in order:
/// `SETTYPE` (code 1) defines none, `NULL` (2) a zero, `UNDEF` (3) an undef,
/// `INTEGER` (4) an integer, any other code a value not told apart.
pub open spec fn constants_of(elements: Seq<BcElement>) -> Seq<DxilValueView>
    decreases elements.len(),
{
    if elements.len() == 0 {
        Seq::empty()
    } else {
        let rest = constants_of(elements.drop_last());
        match elements.last() {
            BcElement::Record(rec) => if rec.id == 1 {
                rest
            } else if rec.id == 2 {
                rest.push(DxilValueView::ConstantZero)
            } else if rec.id == 3 {
                rest.push(DxilValueView::ConstantUndef)
            } else if rec.id == 4 {
                rest.push(DxilValueView::ConstantInt { value: signed_vbr(first_or_zero(rec.fields@)) })
            } else {
                rest.push(DxilValueView::Other)
            },
            BcElement::Block(_) => rest,
        }
    }
}

/// Appends the values that a `CONSTANTS_BLOCK` (id 11) defines.
pub fn decode_constants_block(block: &BcBlock, values: &mut Vec<DxilValue>)
    ensures
        values_view(final(values)@) == values_view(old(values)@) + constants_of(block.elements@),
{
    let ghost all = block.elements@;
    let ghost start = values_view(values@);
    let mut i: usize = 0;
    assert(constants_of(all.take(0)) =~= Seq::<DxilValueView>::empty());
    assert(start + Seq::<DxilValueView>::empty() =~= start);
    while i < block.elements.len()
        invariant
            i <= all.len(),
            all == block.elements@,
            values_view(values@) == start + constants_of(all.take(i as int)),
        decreases all.len() - i,
    {
        assert(all.take(i as int + 1).drop_last() =~= all.take(i as int));
        assert(all.take(i as int + 1).last() == all[i as int]);
        let ghost before = values@;
        match &block.elements[i] {
            BcElement::Record(rec) => {
                if rec.id == 1 {
                } else if rec.id == 2 {
                    values.push(DxilValue::ConstantZero);
                } else if rec.id == 3 {
                    values.push(DxilValue::ConstantUndef);
                } else if rec.id == 4 {
                    let raw = first_field(rec.fields.as_slice());
                    values.push(DxilValue::ConstantInt { value: decode_signed_vbr(raw) });
                } else {
                    values.push(DxilValue::Other);
                }
            },
            BcElement::Block(_) => {},
        }
        proof {
            if values@.len() > before.len() {
                assert(values_view(values@) =~= values_view(before).push(values@.last()@));
            } else {
                assert(values@ == before);
            }
        }
        assert(values_view(values@) =~= start + constants_of(all.take(i as int + 1)));
        i = i + 1;
    }
    assert(all.take(all.len() as int) =~= all);
}

/// The module's value numbering before any function body: the declared
/// functions (named from the symbol table), then the constants of the
/// module-level `CONSTANTS_BLOCK` (its first sub-block with id 11).
pub open spec fn module_values(module_block: BcBlock) -> Seq<DxilValueView> {
    let names = function_names(module_block);
    let funcs = Seq::new(function_record_count(module_block.elements@), |id: int| DxilValueView::Function { name: name_lookup(names, id as u64) });
    match first_block_from(module_block.elements@, 11, 0) {
        Some(k) => match module_block.elements@[k] {
            BcElement::Block(cb) => funcs + constants_of(cb.elements@),
            BcElement::Record(_) => funcs,
        },
        None => funcs,
    }
}

/// Builds the module's value numbering before any function body (see
/// [`module_values`]).
pub fn build_module_value_list(module_block: &BcBlock) -> (values: Vec<DxilValue>)
    ensures
        values_view(values@) == module_values(*module_block),
{
    let names = resolve_module_function_names(module_block);
    let num_functions = count_module_functions(module_block);
    let ghost nv = function_names(*module_block);
    let mut values: Vec<DxilValue> = Vec::new();
    let mut id: usize = 0;
    while id < num_functions
        invariant
            id <= num_functions,
            num_functions == function_record_count(module_block.elements@),
            names@.map_values(|e: (u64, Vec<u8>)| (e.0, e.1@)) == nv,
            values_view(values@) == Seq::new(id as nat, |k: int| DxilValueView::Function { name: name_lookup(nv, k as u64) }),
        decreases num_functions - id,
    {
        let name = lookup_name(names.as_slice(), id as u64);
        let ghost before = values@;
        values.push(DxilValue::Function { name });
        assert(values_view(values@) =~= values_view(before).push(values@.last()@));
        assert(values_view(values@) =~= Seq::new((id + 1) as nat, |k: int| DxilValueView::Function { name: name_lookup(nv, k as u64) }));
        id = id + 1;
    }
    match find_sub_block(module_block, 11) {
        Some(k) => match &module_block.elements[k] {
            BcElement::Block(cb) => {
                decode_constants_block(cb, &mut values);
            },
            BcElement::Record(_) => {},
        },
        None => {},
    }
    values
}

/// `dx.op.createHandle`.
pub const CREATE_HANDLE_NAME: [u8; 18] = [100, 120, 46, 111, 112, 46, 99, 114, 101, 97, 116, 101, 72, 97, 110, 100, 108, 101];
/// `dx.op.threadId.i32`.
pub const THREAD_ID_NAME: [u8; 18] = [100, 120, 46, 111, 112, 46, 116, 104, 114, 101, 97, 100, 73, 100, 46, 105, 51, 50];
/// `dx.op.bufferLoad.f32`.
pub const BUFFER_LOAD_NAME: [u8; 20] = [100, 120, 46, 111, 112, 46, 98, 117, 102, 102, 101, 114, 76, 111, 97, 100, 46, 102, 51, 50];
/// `dx.op.bufferStore.f32`.
pub const BUFFER_STORE_NAME: [u8; 21] = [100, 120, 46, 111, 112, 46, 98, 117, 102, 102, 101, 114, 83, 116, 111, 114, 101, 46, 102, 51, 50];

/// Whether two byte strings are equal.
pub fn bytes_eq(a: &[u8], b: &[u8]) -> (r: bool)
    ensures
        r == (a@ == b@),
{
    if a.len() != b.len() {
        return false;
    }
    let mut i: usize = 0;
    while i < a.len()
        invariant
            i <= a@.len(),
            a@.len() == b@.len(),
            forall|k: int| 0 <= k < i ==> a@[k] == b@[k],
        decreases a@.len() - i,
    {
        if a[i] != b[i] {
            return false;
        }
        i = i + 1;
    }
    assert(a@ =~= b@);
    true
}

/// A copy of a value.
pub fn copy_value(v: &DxilValue) -> (r: DxilValue)
    ensures
        r@ == v@,
{
    match v {
        DxilValue::Function { name } => {
            let n = match name {
                Some(n) => {
                    let mut c: Vec<u8> = Vec::new();
                    let mut j: usize = 0;
                    while j < n.len()
                        invariant
                            j <= n@.len(),
                            c@ == n@.take(j as int),
                        decreases n@.len() - j,
                    {
                        c.push(n[j]);
                        j = j + 1;
                        assert(c@ =~= n@.take(j as int));
                    }
                    assert(n@.take(n@.len() as int) =~= n@);
                    Some(c)
                },
                None => None,
            };
            DxilValue::Function { name: n }
        },
        DxilValue::ConstantInt { value } => DxilValue::ConstantInt { value: *value },
        DxilValue::ConstantZero => DxilValue::ConstantZero,
        DxilValue::ConstantUndef => DxilValue::ConstantUndef,
        DxilValue::CreateHandleResult { range_id } => DxilValue::CreateHandleResult { range_id: *range_id },
        DxilValue::ThreadIdResult => DxilValue::ThreadIdResult,
        DxilValue::BufferLoadAggregate { source_range_id } => DxilValue::BufferLoadAggregate { source_range_id: *source_range_id },
        DxilValue::ExtractedBufferValue { source_range_id } => DxilValue::ExtractedBufferValue { source_range_id: *source_range_id },
        DxilValue::BinOpResult => DxilValue::BinOpResult,
        DxilValue::Other => DxilValue::Other,
    }
}

/// One resolved `call` instruction.
#[derive(Debug, Clone, Copy, PartialEq, Eq)]
pub enum ResolvedDxilCall {
    /// `dx.op.createHandle` with this range id (the UAV's `u#`).
    CreateHandle { range_id: i64 },
    /// `dx.op.threadId.i32`.
    ThreadId,
    /// `dx.op.bufferLoad.f32` through the handle of this range id.
    BufferLoad { handle_range_id: i64 },
    /// `dx.op.bufferStore.f32` through the handle of this range id.
    BufferStore { handle_range_id: i64 },
}

/// The resolved binary operation: which operation, and from which loaded
/// UAV (range id) each operand comes, in operand order.
#[derive(Debug, Clone, Copy, PartialEq, Eq)]
pub struct ResolvedDxilBinOp {
    pub op: crate::spirv_gen::BinaryOp,
    pub lhs_range_id: i64,
    pub rhs_range_id: i64,
}

/// The part of a DXIL shader that could not be found.
#[derive(Debug, Clone, Copy, PartialEq, Eq)]
pub enum MissingPart {
    /// No DXBC container.
    Container,
    /// No `DXIL` chunk in the container.
    DxilChunk,
    /// The bitcode is not an LLVM bitstream.
    Bitcode,
    /// No `MODULE_BLOCK` (id 8) first among the top-level elements.
    ModuleBlock,
    /// No `FUNCTION_BLOCK` (id 12) in the module.
    FunctionBlock,
}

/// The four `dx.op` intrinsics that the resolution knows.
#[derive(Debug, Clone, Copy, PartialEq, Eq)]
pub enum DxOp {
    CreateHandle,
    ThreadId,
    BufferLoad,
    BufferStore,
}

/// How the instructions depart from the single-function shape resolved here.
#[derive(Debug, Clone, Copy, PartialEq, Eq)]
pub enum ShapeProblem {
    /// A call record with fewer than three fields.
    CallTooShort,
    /// A call record without a callee operand.
    NoCallee,
    /// `createHandle`'s range id is not a constant.
    RangeIdNotConstant,
    /// `bufferLoad`'s coordinate is not the thread id.
    LoadCoordinateNotThreadId,
    /// `bufferStore`'s coordinate is not the thread id.
    StoreCoordinateNotThreadId,
    /// An `extractvalue` without an operand.
    NoExtractOperand,
    /// A binary operation without its first operand.
    NoBinOpLhs,
    /// A binary operation without its second operand.
    NoBinOpRhs,
    /// A binary operation without its opcode.
    NoBinOpOpcode,
    /// A binary operation whose operands are not both loaded values.
    BinOpOperandsNotLoaded,
    /// A binary operation operand that refers to no earlier value.
    BinOpOperandOutOfRange,
    /// A binary operation operand that is neither a loaded value nor an
    /// earlier binary operation.
    BinOpOperandNotLoadOrBinOp,
    /// An instruction code other than declare-blocks, binop, ret,
    /// extractvalue and call.
    UnexpectedCode(u64),
    /// A number of calls other than seven.
    CallCount(usize),
}

/// Why the calls of a DXIL shader could not be resolved.
#[derive(Debug, Clone, PartialEq, Eq)]
pub enum DxilCallResolutionError {
    MissingBlock(MissingPart),
    /// The callee is not a function with a known `dx.op` name (the name,
    /// where there is one).
    UnknownCallee(Option<Vec<u8>>),
    UnexpectedArgCount(DxOp, usize),
    /// The opcode argument is not the intrinsic's: the expected and the
    /// actual constant.
    OpcodeMismatch(DxOp, i64, Option<i64>),
    HandleNotFromCreateHandle,
    StoredValueNotBinOpResult,
    ExtractValueNotFromBufferLoad,
    UnexpectedShape(ShapeProblem),
    /// A binary opcode other than add (0), sub (1), mul (2) and div (4).
    UnknownBinOpcode(i64),
    MissingBinOp,
}

/// [`DxilCallResolutionError`] as a plain value.
pub enum CallErrorView {
    MissingBlock(MissingPart),
    UnknownCallee(Option<Seq<u8>>),
    UnexpectedArgCount(DxOp, usize),
    OpcodeMismatch(DxOp, i64, Option<i64>),
    HandleNotFromCreateHandle,
    StoredValueNotBinOpResult,
    ExtractValueNotFromBufferLoad,
    UnexpectedShape(ShapeProblem),
    UnknownBinOpcode(i64),
    MissingBinOp,
}

impl View for DxilCallResolutionError {
    type V = CallErrorView;

    open spec fn view(&self) -> CallErrorView {
        match self {
            DxilCallResolutionError::MissingBlock(p) => CallErrorView::MissingBlock(*p),
            DxilCallResolutionError::UnknownCallee(n) => CallErrorView::UnknownCallee(match n { Some(n) => Some(n@), None => None }),
            DxilCallResolutionError::UnexpectedArgCount(o, n) => CallErrorView::UnexpectedArgCount(*o, *n),
            DxilCallResolutionError::OpcodeMismatch(o, e, a) => CallErrorView::OpcodeMismatch(*o, *e, *a),
            DxilCallResolutionError::HandleNotFromCreateHandle => CallErrorView::HandleNotFromCreateHandle,
            DxilCallResolutionError::StoredValueNotBinOpResult => CallErrorView::StoredValueNotBinOpResult,
            DxilCallResolutionError::ExtractValueNotFromBufferLoad => CallErrorView::ExtractValueNotFromBufferLoad,
            DxilCallResolutionError::UnexpectedShape(p) => CallErrorView::UnexpectedShape(*p),
            DxilCallResolutionError::UnknownBinOpcode(c) => CallErrorView::UnknownBinOpcode(*c),
            DxilCallResolutionError::MissingBinOp => CallErrorView::MissingBinOp,
        }
    }
}

/// The state of the resolution after some instructions: the value
/// numbering, the calls resolved, the last binary operation, and (when
/// resolving chains) the expression of each binary operation's value and
/// the last such expression.
pub struct ResolveState {
    pub values: Seq<DxilValueView>,
    pub calls: Seq<ResolvedDxilCall>,
    pub binop: Option<ResolvedDxilBinOp>,
    pub exprs: Seq<(usize, crate::spirv_gen::RegExpr)>,
    pub last: Option<crate::spirv_gen::RegExpr>,
}

/// The integer that a constant value is.
pub open spec fn expect_int(v: DxilValueView) -> Option<i64> {
    match v {
        DxilValueView::ConstantInt { value } => Some(value),
        DxilValueView::ConstantZero => Some(0),
        _ => None,
    }
}

/// The value an argument operand refers to, or `Other`.
pub open spec fn arg_value(values: Seq<DxilValueView>, cur: int, f: u64) -> DxilValueView {
    match relative_value(values, cur, f) {
        Some(v) => v,
        None => DxilValueView::Other,
    }
}

/// The arguments of a call whose argument operands start at field `start`.
pub open spec fn call_args(values: Seq<DxilValueView>, fields: Seq<u64>, start: int) -> Seq<DxilValueView> {
    Seq::new((fields.len() - start) as nat, |k: int| arg_value(values, values.len() as int, fields[start + k]))
}

/// The position of the callee operand in a call record: after the
/// parameter attributes, the calling convention and, where bit 15 of the
/// calling convention says so, the explicit function type.
pub open spec fn callee_position(fields: Seq<u64>) -> int {
    if fields[1] & 0x8000 != 0 { 3 } else { 2 }
}

/// Resolving a call record (`FUNC_CODE_INST_CALL`, code 34).
pub open spec fn call_step(st: ResolveState, fields: Seq<u64>) -> Result<ResolveState, CallErrorView> {
    let cur = st.values.len() as int;
    if fields.len() < 3 {
        Err(CallErrorView::UnexpectedShape(ShapeProblem::CallTooShort))
    } else {
        let idx = callee_position(fields);
        if idx >= fields.len() {
            Err(CallErrorView::UnexpectedShape(ShapeProblem::NoCallee))
        } else {
            match relative_value(st.values, cur, fields[idx]) {
                Some(DxilValueView::Function { name: Some(name) }) => {
                    let args = call_args(st.values, fields, idx + 1);
                    if name == CREATE_HANDLE_NAME@ {
                        if args.len() != 5 {
                            Err(CallErrorView::UnexpectedArgCount(DxOp::CreateHandle, args.len() as usize))
                        } else if expect_int(args[0]) != Some(57i64) {
                            Err(CallErrorView::OpcodeMismatch(DxOp::CreateHandle, 57, expect_int(args[0])))
                        } else {
                            match expect_int(args[2]) {
                                None => Err(CallErrorView::UnexpectedShape(ShapeProblem::RangeIdNotConstant)),
                                Some(range_id) => Ok(ResolveState {
                                    values: st.values.push(DxilValueView::CreateHandleResult { range_id }),
                                    calls: st.calls.push(ResolvedDxilCall::CreateHandle { range_id }),
                                    ..st
                                }),
                            }
                        }
                    } else if name == THREAD_ID_NAME@ {
                        if args.len() != 2 {
                            Err(CallErrorView::UnexpectedArgCount(DxOp::ThreadId, args.len() as usize))
                        } else if expect_int(args[0]) != Some(93i64) {
                            Err(CallErrorView::OpcodeMismatch(DxOp::ThreadId, 93, expect_int(args[0])))
                        } else {
                            Ok(ResolveState {
                                values: st.values.push(DxilValueView::ThreadIdResult),
                                calls: st.calls.push(ResolvedDxilCall::ThreadId),
                                ..st
                            })
                        }
                    } else if name == BUFFER_LOAD_NAME@ {
                        if args.len() != 4 {
                            Err(CallErrorView::UnexpectedArgCount(DxOp::BufferLoad, args.len() as usize))
                        } else if expect_int(args[0]) != Some(68i64) {
                            Err(CallErrorView::OpcodeMismatch(DxOp::BufferLoad, 68, expect_int(args[0])))
                        } else {
                            match args[1] {
                                DxilValueView::CreateHandleResult { range_id } => if !(args[2] is ThreadIdResult) {
                                    Err(CallErrorView::UnexpectedShape(ShapeProblem::LoadCoordinateNotThreadId))
                                } else {
                                    Ok(ResolveState {
                                        values: st.values.push(DxilValueView::BufferLoadAggregate { source_range_id: range_id }),
                                        calls: st.calls.push(ResolvedDxilCall::BufferLoad { handle_range_id: range_id }),
                                        ..st
                                    })
                                },
                                _ => Err(CallErrorView::HandleNotFromCreateHandle),
                            }
                        }
                    } else if name == BUFFER_STORE_NAME@ {
                        if args.len() != 9 {
                            Err(CallErrorView::UnexpectedArgCount(DxOp::BufferStore, args.len() as usize))
                        } else if expect_int(args[0]) != Some(69i64) {
                            Err(CallErrorView::OpcodeMismatch(DxOp::BufferStore, 69, expect_int(args[0])))
                        } else {
                            match args[1] {
                                DxilValueView::CreateHandleResult { range_id } => if !(args[2] is ThreadIdResult) {
                                    Err(CallErrorView::UnexpectedShape(ShapeProblem::StoreCoordinateNotThreadId))
                                } else if !(args[4] is BinOpResult) {
                                    Err(CallErrorView::StoredValueNotBinOpResult)
                                } else {
                                    Ok(ResolveState {
                                        calls: st.calls.push(ResolvedDxilCall::BufferStore { handle_range_id: range_id }),
                                        ..st
                                    })
                                },
                                _ => Err(CallErrorView::HandleNotFromCreateHandle),
                            }
                        }
                    } else {
                        Err(CallErrorView::UnknownCallee(Some(name)))
                    }
                },
                _ => Err(CallErrorView::UnknownCallee(None)),
            }
        }
    }
}

/// Resolving an `extractvalue` record (`FUNC_CODE_INST_EXTRACTVAL`, 26):
/// element 0 of a buffer load's aggregate.
pub open spec fn extract_step(st: ResolveState, fields: Seq<u64>) -> Result<ResolveState, CallErrorView> {
    if fields.len() == 0 {
        Err(CallErrorView::UnexpectedShape(ShapeProblem::NoExtractOperand))
    } else {
        let index0 = if fields.len() > 1 { fields[1] } else { u64::MAX };
        match relative_value(st.values, st.values.len() as int, fields[0]) {
            Some(DxilValueView::BufferLoadAggregate { source_range_id }) => if index0 == 0 {
                Ok(ResolveState { values: st.values.push(DxilValueView::ExtractedBufferValue { source_range_id }), ..st })
            } else {
                Err(CallErrorView::ExtractValueNotFromBufferLoad)
            },
            _ => Err(CallErrorView::ExtractValueNotFromBufferLoad),
        }
    }
}

/// LLVM's encoding of binary opcodes: add 0, sub 1, mul 2, (s/f)div 4.
pub open spec fn binary_op_of(code: i64) -> Option<crate::spirv_gen::BinaryOp> {
    if code == 0 {
        Some(crate::spirv_gen::BinaryOp::Add)
    } else if code == 1 {
        Some(crate::spirv_gen::BinaryOp::Sub)
    } else if code == 2 {
        Some(crate::spirv_gen::BinaryOp::Mul)
    } else if code == 4 {
        Some(crate::spirv_gen::BinaryOp::Div)
    } else {
        None
    }
}

/// Resolving a binary operation whose two operands are loaded values.
pub open spec fn binop_step(st: ResolveState, fields: Seq<u64>) -> Result<ResolveState, CallErrorView> {
    let cur = st.values.len() as int;
    if fields.len() == 0 {
        Err(CallErrorView::UnexpectedShape(ShapeProblem::NoBinOpLhs))
    } else if fields.len() == 1 {
        Err(CallErrorView::UnexpectedShape(ShapeProblem::NoBinOpRhs))
    } else if fields.len() == 2 {
        Err(CallErrorView::UnexpectedShape(ShapeProblem::NoBinOpOpcode))
    } else {
        match (relative_value(st.values, cur, fields[0]), relative_value(st.values, cur, fields[1])) {
            (Some(DxilValueView::ExtractedBufferValue { source_range_id: l }), Some(DxilValueView::ExtractedBufferValue { source_range_id: r })) =>
                match binary_op_of(fields[2] as i64) {
                    None => Err(CallErrorView::UnknownBinOpcode(fields[2] as i64)),
                    Some(op) => Ok(ResolveState {
                        values: st.values.push(DxilValueView::BinOpResult),
                        binop: Some(ResolvedDxilBinOp { op, lhs_range_id: l, rhs_range_id: r }),
                        ..st
                    }),
                },
            _ => Err(CallErrorView::UnexpectedShape(ShapeProblem::BinOpOperandsNotLoaded)),
        }
    }
}

/// The SPIR-V opcode of the float operation that LLVM's encoded binary
/// opcode `code` stands for: add (0) `OpFAdd`, sub (1) `OpFSub`, mul (2)
/// `OpFMul`, sdiv/fdiv (4) `OpFDiv`.
pub open spec fn llvm_float_opcode(code: i64) -> Option<u32> {
    if code == 0 {
        Some(129u32)
    } else if code == 1 {
        Some(131u32)
    } else if code == 2 {
        Some(133u32)
    } else if code == 4 {
        Some(136u32)
    } else {
        None
    }
}

/// LLVM's binary opcodes resolve to the operations they encode: exactly the
/// codes 0, 1, 2 and 4 are known, no two of them resolve to the same
/// operation, and each operation is emitted as the SPIR-V instruction that
/// LLVM's opcode names (division as `OpFDiv`).
pub proof fn lemma_llvm_binary_opcodes(c1: i64, c2: i64)
    ensures
        binary_op_of(c1) is Some <==> llvm_float_opcode(c1) is Some,
        binary_op_of(c1) matches Some(op) ==> Some(crate::spirv_gen::float_opcode(op)) == llvm_float_opcode(c1),
        (binary_op_of(c1) is Some && binary_op_of(c1) == binary_op_of(c2)) ==> c1 == c2,
{
}

/// A resolved binary operation is the one its record's opcode field
/// encodes: it is emitted as the SPIR-V instruction LLVM's opcode names,
/// and two records that differ only in that field (both accepted) resolve
/// to different operations.
pub proof fn lemma_binop_step_opcode(st: ResolveState, f1: Seq<u64>, f2: Seq<u64>)
    ensures
        binop_step(st, f1) is Ok ==> f1.len() >= 3 && binop_step(st, f1)->Ok_0.binop is Some
            && Some(crate::spirv_gen::float_opcode(binop_step(st, f1)->Ok_0.binop->0.op)) == llvm_float_opcode(f1[2] as i64),
        (binop_step(st, f1) is Ok && binop_step(st, f2) is Ok && f1.len() >= 3 && f2.len() >= 3
            && f1[2] as i64 != f2[2] as i64) ==> binop_step(st, f1)->Ok_0.binop->0.op != binop_step(st, f2)->Ok_0.binop->0.op,
{
    lemma_llvm_binary_opcodes(f1[2] as i64, f2[2] as i64);
}

/// The expression recorded for value `k` (the last entry for it).
pub open spec fn expr_lookup(exprs: Seq<(usize, crate::spirv_gen::RegExpr)>, k: int) -> Option<crate::spirv_gen::RegExpr>
    decreases exprs.len(),
{
    if exprs.len() == 0 {
        None
    } else if exprs.last().0 == k {
        Some(exprs.last().1)
    } else {
        expr_lookup(exprs.drop_last(), k)
    }
}

/// The expression of a binary-operation operand in a chain: an earlier
/// binary operation's expression, or a load from the UAV a loaded value
/// came from.
pub open spec fn chain_operand(st: ResolveState, relative: u64) -> Result<crate::spirv_gen::RegExpr, CallErrorView> {
    let cur = st.values.len() as int;
    match relative_index(cur, relative) {
        None => Err(CallErrorView::UnexpectedShape(ShapeProblem::BinOpOperandOutOfRange)),
        Some(k) => match expr_lookup(st.exprs, k) {
            Some(e) => Ok(e),
            None => if 0 <= k < st.values.len() && st.values[k] is ExtractedBufferValue {
                Ok(crate::spirv_gen::RegExpr::Load(st.values[k]->ExtractedBufferValue_source_range_id as u32))
            } else {
                Err(CallErrorView::UnexpectedShape(ShapeProblem::BinOpOperandNotLoadOrBinOp))
            },
        },
    }
}

/// Resolving a binary operation of a chain: its expression over loads and
/// earlier binary operations.
pub open spec fn chain_binop_step(st: ResolveState, fields: Seq<u64>) -> Result<ResolveState, CallErrorView> {
    let cur = st.values.len() as int;
    if fields.len() == 0 {
        Err(CallErrorView::UnexpectedShape(ShapeProblem::NoBinOpLhs))
    } else if fields.len() == 1 {
        Err(CallErrorView::UnexpectedShape(ShapeProblem::NoBinOpRhs))
    } else if fields.len() == 2 {
        Err(CallErrorView::UnexpectedShape(ShapeProblem::NoBinOpOpcode))
    } else {
        match chain_operand(st, fields[0]) {
            Err(e) => Err(e),
            Ok(l) => match chain_operand(st, fields[1]) {
                Err(e) => Err(e),
                Ok(r) => match binary_op_of(fields[2] as i64) {
                    None => Err(CallErrorView::UnknownBinOpcode(fields[2] as i64)),
                    Some(op) => {
                        let e = crate::spirv_gen::RegExpr::BinOp(op, Box::new(l), Box::new(r));
                        Ok(ResolveState {
                            values: st.values.push(DxilValueView::BinOpResult),
                            exprs: st.exprs.push((cur as usize, e)),
                            last: Some(e),
                            ..st
                        })
                    },
                },
            },
        }
    }
}

/// Resolving one element of a `FUNCTION_BLOCK`: a nested `CONSTANTS_BLOCK`
/// continues the numbering, other blocks are skipped; records are resolved
/// by their code.
pub open spec fn resolve_element(st: ResolveState, el: BcElement, chain: bool) -> Result<ResolveState, CallErrorView> {
    match el {
        BcElement::Block(b) => if b.id == 11 {
            Ok(ResolveState { values: st.values + constants_of(b.elements@), ..st })
        } else {
            Ok(st)
        },
        BcElement::Record(rec) => if rec.id == 1 || rec.id == 10 {
            Ok(st)
        } else if rec.id == 34 {
            call_step(st, rec.fields@)
        } else if rec.id == 26 {
            extract_step(st, rec.fields@)
        } else if rec.id == 2 {
            if chain { chain_binop_step(st, rec.fields@) } else { binop_step(st, rec.fields@) }
        } else {
            Err(CallErrorView::UnexpectedShape(ShapeProblem::UnexpectedCode(rec.id)))
        },
    }
}

/// Resolving the elements in order, stopping at the first error.
pub open spec fn resolve_elements(elements: Seq<BcElement>, st: ResolveState, chain: bool) -> Result<ResolveState, CallErrorView>
    decreases elements.len(),
{
    if elements.len() == 0 {
        Ok(st)
    } else {
        match resolve_element(st, elements[0], chain) {
            Err(e) => Err(e),
            Ok(st2) => resolve_elements(elements.drop_first(), st2, chain),
        }
    }
}

fn expect_int_exec(v: &DxilValue) -> (r: Option<i64>)
    ensures
        r == expect_int(v@),
{
    match v {
        DxilValue::ConstantInt { value } => Some(*value),
        DxilValue::ConstantZero => Some(0),
        _ => None,
    }
}

fn copy_bytes(n: &[u8]) -> (c: Vec<u8>)
    ensures
        c@ == n@,
{
    let mut c: Vec<u8> = Vec::new();
    let mut j: usize = 0;
    while j < n.len()
        invariant
            j <= n@.len(),
            c@ == n@.take(j as int),
        decreases n@.len() - j,
    {
        c.push(n[j]);
        j = j + 1;
        assert(c@ =~= n@.take(j as int));
    }
    assert(n@.take(n@.len() as int) =~= n@);
    c
}

/// The resolution's working state (see [`ResolveState`]).
struct Resolver {
    values: Vec<DxilValue>,
    calls: Vec<ResolvedDxilCall>,
    binop: Option<ResolvedDxilBinOp>,
    exprs: Vec<(usize, crate::spirv_gen::RegExpr)>,
    last: Option<crate::spirv_gen::RegExpr>,
}

impl Resolver {
    closed spec fn state(&self) -> ResolveState {
        ResolveState { values: values_view(self.values@), calls: self.calls@, binop: self.binop, exprs: self.exprs@, last: self.last }
    }

    fn push_value(&mut self, v: DxilValue)
        ensures
            final(self).state() == (ResolveState { values: old(self).state().values.push(v@), ..old(self).state() }),
    {
        let ghost before = self.values@;
        self.values.push(v);
        assert(values_view(self.values@) =~= values_view(before).push(v@));
    }

    fn resolve_call(&mut self, fields: &[u64]) -> (r: Result<(), DxilCallResolutionError>)
        ensures
            match r {
                Ok(_) => call_step(old(self).state(), fields@) == Ok::<ResolveState, CallErrorView>(final(self).state()),
                Err(e) => call_step(old(self).state(), fields@) == Err::<ResolveState, CallErrorView>(e@),
            },
    {
        let cur = self.values.len();
        if fields.len() < 3 {
            return Err(DxilCallResolutionError::UnexpectedShape(ShapeProblem::CallTooShort));
        }
        let idx: usize = if fields[1] & 0x8000 != 0 { 3 } else { 2 };
        if idx >= fields.len() {
            return Err(DxilCallResolutionError::UnexpectedShape(ShapeProblem::NoCallee));
        }
        let name: Vec<u8> = match resolve_relative(self.values.as_slice(), cur, fields[idx]) {
            Some(DxilValue::Function { name: Some(n) }) => copy_bytes(n.as_slice()),
            _ => {
                return Err(DxilCallResolutionError::UnknownCallee(None));
            },
        };
        let ghost st = self.state();
        let ghost want = call_args(st.values, fields@, idx + 1);
        let mut args: Vec<DxilValue> = Vec::new();
        let mut k: usize = idx + 1;
        while k < fields.len()
            invariant
                idx + 1 <= k <= fields@.len(),
                st == self.state(),
                cur == self.values@.len(),
                want == call_args(st.values, fields@, idx + 1),
                values_view(args@) == want.take(k - idx - 1),
            decreases fields@.len() - k,
        {
            let v = match resolve_relative(self.values.as_slice(), cur, fields[k]) {
                Some(v) => copy_value(v),
                None => DxilValue::Other,
            };
            assert(v@ == arg_value(st.values, st.values.len() as int, fields@[k as int]));
            assert(want[k - idx - 1] == arg_value(st.values, st.values.len() as int, fields@[k as int]));
            let ghost before = args@;
            args.push(v);
            assert(values_view(args@) =~= values_view(before).push(v@));
            assert(values_view(args@) =~= want.take(k - idx));
            k = k + 1;
        }
        assert(want.take(want.len() as int) =~= want);
        if bytes_eq(name.as_slice(), &CREATE_HANDLE_NAME) {
            if args.len() != 5 {
                return Err(DxilCallResolutionError::UnexpectedArgCount(DxOp::CreateHandle, args.len()));
            }
            let opcode = expect_int_exec(&args[0]);
            if opcode != Some(57i64) {
                return Err(DxilCallResolutionError::OpcodeMismatch(DxOp::CreateHandle, 57, opcode));
            }
            match expect_int_exec(&args[2]) {
                None => Err(DxilCallResolutionError::UnexpectedShape(ShapeProblem::RangeIdNotConstant)),
                Some(range_id) => {
                    self.calls.push(ResolvedDxilCall::CreateHandle { range_id });
                    self.push_value(DxilValue::CreateHandleResult { range_id });
                    Ok(())
                },
            }
        } else if bytes_eq(name.as_slice(), &THREAD_ID_NAME) {
            if args.len() != 2 {
                return Err(DxilCallResolutionError::UnexpectedArgCount(DxOp::ThreadId, args.len()));
            }
            let opcode = expect_int_exec(&args[0]);
            if opcode != Some(93i64) {
                return Err(DxilCallResolutionError::OpcodeMismatch(DxOp::ThreadId, 93, opcode));
            }
            self.calls.push(ResolvedDxilCall::ThreadId);
            self.push_value(DxilValue::ThreadIdResult);
            Ok(())
        } else if bytes_eq(name.as_slice(), &BUFFER_LOAD_NAME) {
            if args.len() != 4 {
                return Err(DxilCallResolutionError::UnexpectedArgCount(DxOp::BufferLoad, args.len()));
            }
            let opcode = expect_int_exec(&args[0]);
            if opcode != Some(68i64) {
                return Err(DxilCallResolutionError::OpcodeMismatch(DxOp::BufferLoad, 68, opcode));
            }
            match &args[1] {
                DxilValue::CreateHandleResult { range_id } => {
                    if !matches!(args[2], DxilValue::ThreadIdResult) {
                        return Err(DxilCallResolutionError::UnexpectedShape(ShapeProblem::LoadCoordinateNotThreadId));
                    }
                    let range_id = *range_id;
                    self.calls.push(ResolvedDxilCall::BufferLoad { handle_range_id: range_id });
                    self.push_value(DxilValue::BufferLoadAggregate { source_range_id: range_id });
                    Ok(())
                },
                _ => Err(DxilCallResolutionError::HandleNotFromCreateHandle),
            }
        } else if bytes_eq(name.as_slice(), &BUFFER_STORE_NAME) {
            if args.len() != 9 {
                return Err(DxilCallResolutionError::UnexpectedArgCount(DxOp::BufferStore, args.len()));
            }
            let opcode = expect_int_exec(&args[0]);
            if opcode != Some(69i64) {
                return Err(DxilCallResolutionError::OpcodeMismatch(DxOp::BufferStore, 69, opcode));
            }
            match &args[1] {
                DxilValue::CreateHandleResult { range_id } => {
                    if !matches!(args[2], DxilValue::ThreadIdResult) {
                        return Err(DxilCallResolutionError::UnexpectedShape(ShapeProblem::StoreCoordinateNotThreadId));
                    }
                    if !matches!(args[4], DxilValue::BinOpResult) {
                        return Err(DxilCallResolutionError::StoredValueNotBinOpResult);
                    }
                    self.calls.push(ResolvedDxilCall::BufferStore { handle_range_id: *range_id });
                    Ok(())
                },
                _ => Err(DxilCallResolutionError::HandleNotFromCreateHandle),
            }
        } else {
            Err(DxilCallResolutionError::UnknownCallee(Some(name)))
        }
    }

    fn resolve_binop(&mut self, fields: &[u64]) -> (r: Result<(), DxilCallResolutionError>)
        ensures
            match r {
                Ok(_) => binop_step(old(self).state(), fields@) == Ok::<ResolveState, CallErrorView>(final(self).state()),
                Err(e) => binop_step(old(self).state(), fields@) == Err::<ResolveState, CallErrorView>(e@),
            },
    {
        if fields.len() == 0 {
            return Err(DxilCallResolutionError::UnexpectedShape(ShapeProblem::NoBinOpLhs));
        }
        if fields.len() == 1 {
            return Err(DxilCallResolutionError::UnexpectedShape(ShapeProblem::NoBinOpRhs));
        }
        if fields.len() == 2 {
            return Err(DxilCallResolutionError::UnexpectedShape(ShapeProblem::NoBinOpOpcode));
        }
        let cur = self.values.len();
        let l = match resolve_relative(self.values.as_slice(), cur, fields[0]) {
            Some(DxilValue::ExtractedBufferValue { source_range_id }) => Some(*source_range_id),
            _ => None,
        };
        let r = match resolve_relative(self.values.as_slice(), cur, fields[1]) {
            Some(DxilValue::ExtractedBufferValue { source_range_id }) => Some(*source_range_id),
            _ => None,
        };
        match (l, r) {
            (Some(l), Some(r)) => {
                let op = match binary_op_exec(fields[2] as i64) {
                    Some(op) => op,
                    None => {
                        return Err(DxilCallResolutionError::UnknownBinOpcode(fields[2] as i64));
                    },
                };
                self.binop = Some(ResolvedDxilBinOp { op, lhs_range_id: l, rhs_range_id: r });
                self.push_value(DxilValue::BinOpResult);
                Ok(())
            },
            _ => Err(DxilCallResolutionError::UnexpectedShape(ShapeProblem::BinOpOperandsNotLoaded)),
        }
    }

    fn lookup_expr(&self, k: usize) -> (r: Option<crate::spirv_gen::RegExpr>)
        ensures
            r == expr_lookup(self.exprs@, k as int),
    {
        let mut i: usize = self.exprs.len();
        assert(self.exprs@.take(self.exprs@.len() as int) =~= self.exprs@);
        while i > 0
            invariant
                i <= self.exprs@.len(),
                expr_lookup(self.exprs@, k as int) == expr_lookup(self.exprs@.take(i as int), k as int),
            decreases i,
        {
            assert(self.exprs@.take(i as int).drop_last() =~= self.exprs@.take(i - 1));
            if self.exprs[i - 1].0 == k {
                return Some(crate::spirv_gen::copy_expr(&self.exprs[i - 1].1));
            }
            i = i - 1;
        }
        None
    }

    fn chain_operand_exec(&self, relative: u64) -> (r: Result<crate::spirv_gen::RegExpr, DxilCallResolutionError>)
        ensures
            match r {
                Ok(e) => chain_operand(self.state(), relative) == Ok::<crate::spirv_gen::RegExpr, CallErrorView>(e),
                Err(e) => chain_operand(self.state(), relative) == Err::<crate::spirv_gen::RegExpr, CallErrorView>(e@),
            },
    {
        let cur = self.values.len();
        let rel = relative as usize;
        if rel == 0 || rel > cur {
            return Err(DxilCallResolutionError::UnexpectedShape(ShapeProblem::BinOpOperandOutOfRange));
        }
        let k = cur - rel;
        match self.lookup_expr(k) {
            Some(e) => Ok(e),
            None => match &self.values[k] {
                DxilValue::ExtractedBufferValue { source_range_id } => Ok(crate::spirv_gen::RegExpr::Load(*source_range_id as u32)),
                _ => Err(DxilCallResolutionError::UnexpectedShape(ShapeProblem::BinOpOperandNotLoadOrBinOp)),
            },
        }
    }

    fn resolve_chain_binop(&mut self, fields: &[u64]) -> (r: Result<(), DxilCallResolutionError>)
        ensures
            match r {
                Ok(_) => chain_binop_step(old(self).state(), fields@) == Ok::<ResolveState, CallErrorView>(final(self).state()),
                Err(e) => chain_binop_step(old(self).state(), fields@) == Err::<ResolveState, CallErrorView>(e@),
            },
    {
        if fields.len() == 0 {
            return Err(DxilCallResolutionError::UnexpectedShape(ShapeProblem::NoBinOpLhs));
        }
        if fields.len() == 1 {
            return Err(DxilCallResolutionError::UnexpectedShape(ShapeProblem::NoBinOpRhs));
        }
        if fields.len() == 2 {
            return Err(DxilCallResolutionError::UnexpectedShape(ShapeProblem::NoBinOpOpcode));
        }
        let l = match self.chain_operand_exec(fields[0]) {
            Ok(e) => e,
            Err(e) => {
                return Err(e);
            },
        };
        let r = match self.chain_operand_exec(fields[1]) {
            Ok(e) => e,
            Err(e) => {
                return Err(e);
            },
        };
        let op = match binary_op_exec(fields[2] as i64) {
            Some(op) => op,
            None => {
                return Err(DxilCallResolutionError::UnknownBinOpcode(fields[2] as i64));
            },
        };
        let cur = self.values.len();
        let e = crate::spirv_gen::RegExpr::BinOp(op, Box::new(l), Box::new(r));
        let e2 = crate::spirv_gen::copy_expr(&e);
        self.exprs.push((cur, e));
        self.last = Some(e2);
        self.push_value(DxilValue::BinOpResult);
        Ok(())
    }

    fn resolve_element(&mut self, el: &BcElement, chain: bool) -> (r: Result<(), DxilCallResolutionError>)
        ensures
            match r {
                Ok(_) => resolve_element(old(self).state(), *el, chain) == Ok::<ResolveState, CallErrorView>(final(self).state()),
                Err(e) => resolve_element(old(self).state(), *el, chain) == Err::<ResolveState, CallErrorView>(e@),
            },
    {
        match el {
            BcElement::Block(b) => {
                if b.id == 11 {
                    decode_constants_block(b, &mut self.values);
                }
                Ok(())
            },
            BcElement::Record(rec) => {
                if rec.id == 1 || rec.id == 10 {
                    Ok(())
                } else if rec.id == 34 {
                    self.resolve_call(rec.fields.as_slice())
                } else if rec.id == 26 {
                    self.resolve_extract(rec.fields.as_slice())
                } else if rec.id == 2 {
                    if chain {
                        self.resolve_chain_binop(rec.fields.as_slice())
                    } else {
                        self.resolve_binop(rec.fields.as_slice())
                    }
                } else {
                    Err(DxilCallResolutionError::UnexpectedShape(ShapeProblem::UnexpectedCode(rec.id)))
                }
            },
        }
    }

    fn resolve_extract(&mut self, fields: &[u64]) -> (r: Result<(), DxilCallResolutionError>)
        ensures
            match r {
                Ok(_) => extract_step(old(self).state(), fields@) == Ok::<ResolveState, CallErrorView>(final(self).state()),
                Err(e) => extract_step(old(self).state(), fields@) == Err::<ResolveState, CallErrorView>(e@),
            },
    {
        if fields.len() == 0 {
            return Err(DxilCallResolutionError::UnexpectedShape(ShapeProblem::NoExtractOperand));
        }
        let index0 = if fields.len() > 1 { fields[1] } else { u64::MAX };
        let cur = self.values.len();
        let src = match resolve_relative(self.values.as_slice(), cur, fields[0]) {
            Some(DxilValue::BufferLoadAggregate { source_range_id }) => {
                if index0 == 0 {
                    *source_range_id
                } else {
                    return Err(DxilCallResolutionError::ExtractValueNotFromBufferLoad);
                }
            },
            _ => {
                return Err(DxilCallResolutionError::ExtractValueNotFromBufferLoad);
            },
        };
        self.push_value(DxilValue::ExtractedBufferValue { source_range_id: src });
        Ok(())
    }
}


fn binary_op_exec(code: i64) -> (r: Option<crate::spirv_gen::BinaryOp>)
    ensures
        r == binary_op_of(code),
{
    if code == 0 {
        Some(crate::spirv_gen::BinaryOp::Add)
    } else if code == 1 {
        Some(crate::spirv_gen::BinaryOp::Sub)
    } else if code == 2 {
        Some(crate::spirv_gen::BinaryOp::Mul)
    } else if code == 4 {
        Some(crate::spirv_gen::BinaryOp::Div)
    } else {
        None
    }
}


/// The resolution's state before the function body: the module's values,
/// nothing resolved yet.
pub open spec fn initial_resolve_state(module_block: BcBlock) -> ResolveState {
    ResolveState { values: module_values(module_block), calls: Seq::empty(), binop: None, exprs: Seq::empty(), last: None }
}

/// Resolving the body of the module's first `FUNCTION_BLOCK` (id 12).
pub open spec fn module_resolution(module_block: BcBlock, chain: bool) -> Result<ResolveState, CallErrorView> {
    match first_block_from(module_block.elements@, 12, 0) {
        None => Err(CallErrorView::MissingBlock(MissingPart::FunctionBlock)),
        Some(k) => match module_block.elements@[k] {
            BcElement::Block(fb) => resolve_elements(fb.elements@, initial_resolve_state(module_block), chain),
            BcElement::Record(_) => Err(CallErrorView::MissingBlock(MissingPart::FunctionBlock)),
        },
    }
}

fn resolve_module(module_block: &BcBlock, chain: bool) -> (r: Result<Resolver, DxilCallResolutionError>)
    ensures
        match r {
            Ok(res) => module_resolution(*module_block, chain) == Ok::<ResolveState, CallErrorView>(res.state()),
            Err(e) => module_resolution(*module_block, chain) == Err::<ResolveState, CallErrorView>(e@),
        },
{
    let k = match find_sub_block(module_block, 12) {
        Some(k) => k,
        None => {
            return Err(DxilCallResolutionError::MissingBlock(MissingPart::FunctionBlock));
        },
    };
    let fb = match &module_block.elements[k] {
        BcElement::Block(fb) => fb,
        BcElement::Record(_) => {
            return Err(DxilCallResolutionError::MissingBlock(MissingPart::FunctionBlock));
        },
    };
    let values = build_module_value_list(module_block);
    let mut res = Resolver { values, calls: Vec::new(), binop: None, exprs: Vec::new(), last: None };
    assert(res.state() =~= initial_resolve_state(*module_block));
    let ghost all = fb.elements@;
    let ghost st0 = res.state();
    let mut i: usize = 0;
    assert(all.skip(0) =~= all);
    assert(module_resolution(*module_block, chain) == resolve_elements(all, st0, chain));
    while i < fb.elements.len()
        invariant
            i <= all.len(),
            all == fb.elements@,
            module_resolution(*module_block, chain) == resolve_elements(all, st0, chain),
            resolve_elements(all, st0, chain) == resolve_elements(all.skip(i as int), res.state(), chain),
        decreases all.len() - i,
    {
        assert(all.skip(i as int).drop_first() =~= all.skip(i as int + 1));
        assert(all.skip(i as int)[0] == all[i as int]);
        let ghost before = res.state();
        match res.resolve_element(&fb.elements[i], chain) {
            Ok(_) => {},
            Err(e) => {
                assert(resolve_elements(all.skip(i as int), before, chain) == Err::<ResolveState, CallErrorView>(e@));
                return Err(e);
            },
        }
        i = i + 1;
    }
    assert(all.skip(all.len() as int) =~= Seq::<BcElement>::empty());
    Ok(res)
}

/// The seven calls and the binary operation of a single-operation shader.
pub open spec fn calls_and_binop(module_block: BcBlock) -> Result<(Seq<ResolvedDxilCall>, ResolvedDxilBinOp), CallErrorView> {
    match module_resolution(module_block, false) {
        Err(e) => Err(e),
        Ok(st) => if st.calls.len() != 7 {
            Err(CallErrorView::UnexpectedShape(ShapeProblem::CallCount(st.calls.len() as usize)))
        } else {
            match st.binop {
                None => Err(CallErrorView::MissingBinOp),
                Some(b) => Ok((st.calls, b)),
            }
        },
    }
}

/// The seven calls and the expression stored by a chain of binary
/// operations (the expression of the last one).
pub open spec fn calls_and_chain(module_block: BcBlock) -> Result<(Seq<ResolvedDxilCall>, crate::spirv_gen::RegExpr), CallErrorView> {
    match module_resolution(module_block, true) {
        Err(e) => Err(e),
        Ok(st) => if st.calls.len() != 7 {
            Err(CallErrorView::UnexpectedShape(ShapeProblem::CallCount(st.calls.len() as usize)))
        } else {
            match st.last {
                None => Err(CallErrorView::MissingBinOp),
                Some(e) => Ok((st.calls, e)),
            }
        },
    }
}

/// Resolves the calls and the binary operation of the module's function
/// body: every `call` is matched to its `dx.op` intrinsic through the value
/// symbol table and LLVM's relative operand numbering.
pub fn resolve_module_calls_and_binop(module_block: &BcBlock) -> (r: Result<(Vec<ResolvedDxilCall>, ResolvedDxilBinOp), DxilCallResolutionError>)
    ensures
        match r {
            Ok((c, b)) => calls_and_binop(*module_block) == Ok::<(Seq<ResolvedDxilCall>, ResolvedDxilBinOp), CallErrorView>((c@, b)),
            Err(e) => calls_and_binop(*module_block) == Err::<(Seq<ResolvedDxilCall>, ResolvedDxilBinOp), CallErrorView>(e@),
        },
{
    let res = match resolve_module(module_block, false) {
        Ok(res) => res,
        Err(e) => {
            return Err(e);
        },
    };
    if res.calls.len() != 7 {
        return Err(DxilCallResolutionError::UnexpectedShape(ShapeProblem::CallCount(res.calls.len())));
    }
    match res.binop {
        None => Err(DxilCallResolutionError::MissingBinOp),
        Some(b) => Ok((res.calls, b)),
    }
}

/// Whether the resolved calls include a buffer load through the UAV with
/// this range id.
pub open spec fn loads_from(calls: Seq<ResolvedDxilCall>, range_id: i64) -> bool {
    exists|j: int| 0 <= j < calls.len() && calls[j] == (ResolvedDxilCall::BufferLoad { handle_range_id: range_id })
}

/// Every loaded value of a resolution state, and both operands of its
/// binary operation, come from a buffer load among its calls.
pub open spec fn loads_accounted(st: ResolveState) -> bool {
    &&& forall|i: int| 0 <= i < st.values.len() ==> match #[trigger] st.values[i] {
        DxilValueView::BufferLoadAggregate { source_range_id } => loads_from(st.calls, source_range_id),
        DxilValueView::ExtractedBufferValue { source_range_id } => loads_from(st.calls, source_range_id),
        _ => true,
    }
    &&& match st.binop {
        Some(b) => loads_from(st.calls, b.lhs_range_id) && loads_from(st.calls, b.rhs_range_id),
        None => true,
    }
}

/// Whether a sequence of values holds no loaded value.
pub open spec fn no_loaded_values(values: Seq<DxilValueView>) -> bool {
    forall|i: int| 0 <= i < values.len() ==> !(#[trigger] values[i] is BufferLoadAggregate) && !(values[i] is ExtractedBufferValue)
}

proof fn lemma_loads_from_push(calls: Seq<ResolvedDxilCall>, c: ResolvedDxilCall, r: i64)
    requires
        loads_from(calls, r),
    ensures
        loads_from(calls.push(c), r),
{
    let j = choose|j: int| 0 <= j < calls.len() && calls[j] == (ResolvedDxilCall::BufferLoad { handle_range_id: r });
    assert(calls.push(c)[j] == calls[j]);
}

proof fn lemma_constants_hold_no_loads(elements: Seq<BcElement>)
    ensures
        no_loaded_values(constants_of(elements)),
    decreases elements.len(),
{
    if elements.len() > 0 {
        lemma_constants_hold_no_loads(elements.drop_last());
    }
}

proof fn lemma_module_values_hold_no_loads(module_block: BcBlock)
    ensures
        no_loaded_values(module_values(module_block)),
{
    let names = function_names(module_block);
    let funcs = Seq::new(function_record_count(module_block.elements@), |id: int| DxilValueView::Function { name: name_lookup(names, id as u64) });
    assert(no_loaded_values(funcs));
    match first_block_from(module_block.elements@, 11, 0) {
        Some(k) => match module_block.elements@[k] {
            BcElement::Block(cb) => {
                lemma_constants_hold_no_loads(cb.elements@);
                let cs = constants_of(cb.elements@);
                assert forall|i: int| 0 <= i < (funcs + cs).len() implies !((funcs + cs)[i] is BufferLoadAggregate) && !((funcs + cs)[i] is ExtractedBufferValue) by {
                    if i >= funcs.len() {
                        assert((funcs + cs)[i] == cs[i - funcs.len()]);
                    }
                }
            },
            BcElement::Record(_) => {},
        },
        None => {},
    }
}

/// Appending values that hold no loaded value, or pushing a call, keeps the
/// loads accounted for.
proof fn lemma_accounted_extend(st: ResolveState, more: Seq<DxilValueView>, c: Option<ResolvedDxilCall>)
    requires
        loads_accounted(st),
        no_loaded_values(more),
    ensures
        loads_accounted(ResolveState {
            values: st.values + more,
            calls: match c { Some(c) => st.calls.push(c), None => st.calls },
            ..st
        }),
{
    let calls2 = match c { Some(c) => st.calls.push(c), None => st.calls };
    let values2 = st.values + more;
    assert forall|r: i64| loads_from(st.calls, r) implies loads_from(calls2, r) by {
        if let Some(c) = c {
            lemma_loads_from_push(st.calls, c, r);
        }
    }
    assert forall|i: int| 0 <= i < values2.len() implies match #[trigger] values2[i] {
        DxilValueView::BufferLoadAggregate { source_range_id } => loads_from(calls2, source_range_id),
        DxilValueView::ExtractedBufferValue { source_range_id } => loads_from(calls2, source_range_id),
        _ => true,
    } by {
        if i < st.values.len() {
            assert(values2[i] == st.values[i]);
        } else {
            assert(values2[i] == more[i - st.values.len()]);
        }
    }
}

proof fn lemma_call_step_accounted(st: ResolveState, fields: Seq<u64>)
    requires
        loads_accounted(st),
    ensures
        call_step(st, fields) matches Ok(st2) ==> loads_accounted(st2),
{
    if let Ok(st2) = call_step(st, fields) {
        let cur = st.values.len() as int;
        let idx = callee_position(fields);
        let args = call_args(st.values, fields, idx + 1);
        if let Some(DxilValueView::Function { name: Some(name) }) = relative_value(st.values, cur, fields[idx]) {
            if name == CREATE_HANDLE_NAME@ {
                let range_id = expect_int(args[2]).unwrap();
                lemma_accounted_extend(st, seq![DxilValueView::CreateHandleResult { range_id }], Some(ResolvedDxilCall::CreateHandle { range_id }));
                assert(st.values + seq![DxilValueView::CreateHandleResult { range_id }] =~= st.values.push(DxilValueView::CreateHandleResult { range_id }));
            } else if name == THREAD_ID_NAME@ {
                lemma_accounted_extend(st, seq![DxilValueView::ThreadIdResult], Some(ResolvedDxilCall::ThreadId));
                assert(st.values + seq![DxilValueView::ThreadIdResult] =~= st.values.push(DxilValueView::ThreadIdResult));
            } else if name == BUFFER_LOAD_NAME@ {
                let range_id = args[1]->CreateHandleResult_range_id;
                let load = ResolvedDxilCall::BufferLoad { handle_range_id: range_id };
                lemma_accounted_extend(st, Seq::empty(), Some(load));
                let mid = ResolveState { values: st.values + Seq::empty(), calls: st.calls.push(load), ..st };
                assert(st.values + Seq::<DxilValueView>::empty() =~= st.values);
                assert(st.calls.push(load)[st.calls.len() as int] == load);
                assert(loads_from(st.calls.push(load), range_id));
                let v2 = st.values.push(DxilValueView::BufferLoadAggregate { source_range_id: range_id });
                assert forall|i: int| 0 <= i < v2.len() implies match #[trigger] v2[i] {
                    DxilValueView::BufferLoadAggregate { source_range_id } => loads_from(st2.calls, source_range_id),
                    DxilValueView::ExtractedBufferValue { source_range_id } => loads_from(st2.calls, source_range_id),
                    _ => true,
                } by {
                    if i < st.values.len() {
                        assert(v2[i] == mid.values[i]);
                    }
                }
            } else if name == BUFFER_STORE_NAME@ {
                let range_id = args[1]->CreateHandleResult_range_id;
                lemma_accounted_extend(st, Seq::empty(), Some(ResolvedDxilCall::BufferStore { handle_range_id: range_id }));
                assert(st.values + Seq::<DxilValueView>::empty() =~= st.values);
            }
        }
    }
}

proof fn lemma_resolve_elements_accounted(elements: Seq<BcElement>, st: ResolveState)
    requires
        loads_accounted(st),
    ensures
        resolve_elements(elements, st, false) matches Ok(fin) ==> loads_accounted(fin),
    decreases elements.len(),
{
    if elements.len() > 0 {
        if let Ok(st2) = resolve_element(st, elements[0], false) {
            match elements[0] {
                BcElement::Block(b) => if b.id == 11 {
                    lemma_constants_hold_no_loads(b.elements@);
                    lemma_accounted_extend(st, constants_of(b.elements@), None);
                },
                BcElement::Record(rec) => if rec.id == 34 {
                    lemma_call_step_accounted(st, rec.fields@);
                } else if rec.id == 26 {
                    let fields = rec.fields@;
                    let r = relative_value(st.values, st.values.len() as int, fields[0])->0->BufferLoadAggregate_source_range_id;
                    let k = relative_index(st.values.len() as int, fields[0])->0;
                    assert(st.values[k] == (DxilValueView::BufferLoadAggregate { source_range_id: r }));
                    let v2 = st2.values;
                    assert forall|i: int| 0 <= i < v2.len() implies match #[trigger] v2[i] {
                        DxilValueView::BufferLoadAggregate { source_range_id } => loads_from(st2.calls, source_range_id),
                        DxilValueView::ExtractedBufferValue { source_range_id } => loads_from(st2.calls, source_range_id),
                        _ => true,
                    } by {
                        if i < st.values.len() {
                            assert(v2[i] == st.values[i]);
                        } else {
                            assert(st.values[k] matches DxilValueView::BufferLoadAggregate { .. });
                        }
                    }
                } else if rec.id == 2 {
                    let fields = rec.fields@;
                    let cur = st.values.len() as int;
                    let kl = relative_index(cur, fields[0])->0;
                    let kr = relative_index(cur, fields[1])->0;
                    assert(st.values[kl] is ExtractedBufferValue);
                    assert(st.values[kr] is ExtractedBufferValue);
                    lemma_accounted_extend(st, seq![DxilValueView::BinOpResult], None);
                    assert(st.values + seq![DxilValueView::BinOpResult] =~= st2.values);
                    assert(loads_accounted(st2));
                },
            }
            lemma_resolve_elements_accounted(elements.drop_first(), st2);
        }
    }
}

/// Both operands of a resolved single binary operation come from buffers
/// that the shader loads: each operand's range id is that of one of the
/// resolved `dx.op.bufferLoad` calls.
pub proof fn lemma_binop_operands_are_loaded(module_block: BcBlock)
    ensures
        calls_and_binop(module_block) matches Ok((calls, b)) ==> loads_from(calls, b.lhs_range_id) && loads_from(calls, b.rhs_range_id),
{
    if let Some(k) = first_block_from(module_block.elements@, 12, 0) {
        if let BcElement::Block(fb) = module_block.elements@[k] {
            let st0 = initial_resolve_state(module_block);
            lemma_module_values_hold_no_loads(module_block);
            assert(loads_accounted(st0));
            lemma_resolve_elements_accounted(fb.elements@, st0);
        }
    }
}

/// Whether every load in `e` reads a UAV that one of `calls` loads from.
pub open spec fn expr_loads_accounted(e: crate::spirv_gen::RegExpr, calls: Seq<ResolvedDxilCall>) -> bool
    decreases e,
{
    match e {
        crate::spirv_gen::RegExpr::Load(u) => exists|r: i64| loads_from(calls, r) && #[trigger] (r as u32) == u,
        crate::spirv_gen::RegExpr::BinOp(_, l, r) => expr_loads_accounted(*l, calls) && expr_loads_accounted(*r, calls),
    }
}

/// The chain counterpart of [`loads_accounted`]: loaded values come from
/// buffer loads, and so does every load in the recorded expressions.
pub open spec fn chain_loads_accounted(st: ResolveState) -> bool {
    &&& forall|i: int| 0 <= i < st.values.len() ==> match #[trigger] st.values[i] {
        DxilValueView::BufferLoadAggregate { source_range_id } => loads_from(st.calls, source_range_id),
        DxilValueView::ExtractedBufferValue { source_range_id } => loads_from(st.calls, source_range_id),
        _ => true,
    }
    &&& forall|i: int| 0 <= i < st.exprs.len() ==> expr_loads_accounted(#[trigger] st.exprs[i].1, st.calls)
    &&& match st.last {
        Some(e) => expr_loads_accounted(e, st.calls),
        None => true,
    }
}

proof fn lemma_expr_loads_push(e: crate::spirv_gen::RegExpr, calls: Seq<ResolvedDxilCall>, c: ResolvedDxilCall)
    requires
        expr_loads_accounted(e, calls),
    ensures
        expr_loads_accounted(e, calls.push(c)),
    decreases e,
{
    match e {
        crate::spirv_gen::RegExpr::Load(u) => {
            let r = choose|r: i64| loads_from(calls, r) && #[trigger] (r as u32) == u;
            lemma_loads_from_push(calls, c, r);
        },
        crate::spirv_gen::RegExpr::BinOp(_, l, r) => {
            lemma_expr_loads_push(*l, calls, c);
            lemma_expr_loads_push(*r, calls, c);
        },
    }
}

proof fn lemma_expr_lookup_accounted(exprs: Seq<(usize, crate::spirv_gen::RegExpr)>, k: int, calls: Seq<ResolvedDxilCall>)
    requires
        forall|i: int| 0 <= i < exprs.len() ==> expr_loads_accounted(#[trigger] exprs[i].1, calls),
    ensures
        expr_lookup(exprs, k) matches Some(e) ==> expr_loads_accounted(e, calls),
    decreases exprs.len(),
{
    if exprs.len() > 0 && exprs.last().0 != k {
        let rest = exprs.drop_last();
        assert forall|i: int| 0 <= i < rest.len() implies expr_loads_accounted(#[trigger] rest[i].1, calls) by {
            assert(rest[i] == exprs[i]);
        }
        lemma_expr_lookup_accounted(rest, k, calls);
    } else if exprs.len() > 0 {
        assert(exprs.last() == exprs[exprs.len() - 1]);
    }
}

/// Pushing a call (and values that hold no loaded value) keeps a chain
/// state's loads accounted for.
proof fn lemma_chain_accounted_extend(st: ResolveState, more: Seq<DxilValueView>, c: Option<ResolvedDxilCall>)
    requires
        chain_loads_accounted(st),
        no_loaded_values(more),
    ensures
        chain_loads_accounted(ResolveState {
            values: st.values + more,
            calls: match c { Some(c) => st.calls.push(c), None => st.calls },
            ..st
        }),
{
    let calls2 = match c { Some(c) => st.calls.push(c), None => st.calls };
    let st_plain = ResolveState { binop: None, ..st };
    assert(loads_accounted(st_plain));
    lemma_accounted_extend(st_plain, more, c);
    assert forall|e: crate::spirv_gen::RegExpr| expr_loads_accounted(e, st.calls) implies expr_loads_accounted(e, calls2) by {
        if let Some(c) = c {
            lemma_expr_loads_push(e, st.calls, c);
        }
    }
    let st2 = ResolveState { values: st.values + more, calls: calls2, ..st };
    assert forall|i: int| 0 <= i < st2.exprs.len() implies expr_loads_accounted(#[trigger] st2.exprs[i].1, st2.calls) by {
        assert(expr_loads_accounted(st.exprs[i].1, st.calls));
    }
}

proof fn lemma_chain_call_step_accounted(st: ResolveState, fields: Seq<u64>)
    requires
        chain_loads_accounted(st),
    ensures
        call_step(st, fields) matches Ok(st2) ==> chain_loads_accounted(st2),
{
    if let Ok(st2) = call_step(st, fields) {
        let st_plain = ResolveState { binop: None, ..st };
        assert(loads_accounted(st_plain));
        lemma_call_step_accounted(st_plain, fields);
        assert(call_step(st_plain, fields) == Ok::<ResolveState, CallErrorView>(ResolveState { binop: None, ..st2 }));
        assert forall|e: crate::spirv_gen::RegExpr| expr_loads_accounted(e, st.calls) implies expr_loads_accounted(e, st2.calls) by {
            if st2.calls.len() > st.calls.len() {
                assert(st2.calls == st.calls.push(st2.calls.last()));
                lemma_expr_loads_push(e, st.calls, st2.calls.last());
            } else {
                assert(st2.calls == st.calls);
            }
        }
        assert forall|i: int| 0 <= i < st2.exprs.len() implies expr_loads_accounted(#[trigger] st2.exprs[i].1, st2.calls) by {
            assert(expr_loads_accounted(st.exprs[i].1, st.calls));
        }
    }
}

proof fn lemma_chain_operand_accounted(st: ResolveState, relative: u64)
    requires
        chain_loads_accounted(st),
    ensures
        chain_operand(st, relative) matches Ok(e) ==> expr_loads_accounted(e, st.calls),
{
    let cur = st.values.len() as int;
    if let Some(k) = relative_index(cur, relative) {
        lemma_expr_lookup_accounted(st.exprs, k, st.calls);
        if expr_lookup(st.exprs, k) is None && 0 <= k < st.values.len() && st.values[k] is ExtractedBufferValue {
            let r = st.values[k]->ExtractedBufferValue_source_range_id;
            assert(loads_from(st.calls, r));
            assert(expr_loads_accounted(crate::spirv_gen::RegExpr::Load(r as u32), st.calls));
        }
    }
}

proof fn lemma_chain_elements_accounted(elements: Seq<BcElement>, st: ResolveState)
    requires
        chain_loads_accounted(st),
    ensures
        resolve_elements(elements, st, true) matches Ok(fin) ==> chain_loads_accounted(fin),
    decreases elements.len(),
{
    if elements.len() > 0 {
        if let Ok(st2) = resolve_element(st, elements[0], true) {
            match elements[0] {
                BcElement::Block(b) => if b.id == 11 {
                    lemma_constants_hold_no_loads(b.elements@);
                    lemma_chain_accounted_extend(st, constants_of(b.elements@), None);
                },
                BcElement::Record(rec) => if rec.id == 34 {
                    lemma_chain_call_step_accounted(st, rec.fields@);
                } else if rec.id == 26 {
                    let fields = rec.fields@;
                    let k = relative_index(st.values.len() as int, fields[0])->0;
                    let v2 = st2.values;
                    assert forall|i: int| 0 <= i < v2.len() implies match #[trigger] v2[i] {
                        DxilValueView::BufferLoadAggregate { source_range_id } => loads_from(st2.calls, source_range_id),
                        DxilValueView::ExtractedBufferValue { source_range_id } => loads_from(st2.calls, source_range_id),
                        _ => true,
                    } by {
                        if i < st.values.len() {
                            assert(v2[i] == st.values[i]);
                        } else {
                            assert(st.values[k] matches DxilValueView::BufferLoadAggregate { .. });
                        }
                    }
                    assert(chain_loads_accounted(st2));
                } else if rec.id == 2 {
                    let fields = rec.fields@;
                    lemma_chain_operand_accounted(st, fields[0]);
                    lemma_chain_operand_accounted(st, fields[1]);
                    let v2 = st2.values;
                    assert forall|i: int| 0 <= i < v2.len() implies match #[trigger] v2[i] {
                        DxilValueView::BufferLoadAggregate { source_range_id } => loads_from(st2.calls, source_range_id),
                        DxilValueView::ExtractedBufferValue { source_range_id } => loads_from(st2.calls, source_range_id),
                        _ => true,
                    } by {
                        if i < st.values.len() {
                            assert(v2[i] == st.values[i]);
                        }
                    }
                    let x2 = st2.exprs;
                    assert forall|i: int| 0 <= i < x2.len() implies expr_loads_accounted(#[trigger] x2[i].1, st2.calls) by {
                        if i < st.exprs.len() {
                            assert(x2[i] == st.exprs[i]);
                        }
                    }
                    assert(chain_loads_accounted(st2));
                },
            }
            lemma_chain_elements_accounted(elements.drop_first(), st2);
        }
    }
}

/// Every load in the expression that a chain of binary operations stores
/// reads a UAV that the shader loads from through `dx.op.bufferLoad`.
pub proof fn lemma_chain_loads_are_loaded(module_block: BcBlock)
    ensures
        calls_and_chain(module_block) matches Ok((calls, e)) ==> expr_loads_accounted(e, calls),
{
    if let Some(k) = first_block_from(module_block.elements@, 12, 0) {
        if let BcElement::Block(fb) = module_block.elements@[k] {
            let st0 = initial_resolve_state(module_block);
            lemma_module_values_hold_no_loads(module_block);
            assert(chain_loads_accounted(st0));
            lemma_chain_elements_accounted(fb.elements@, st0);
        }
    }
}

/// Resolves the calls and the expression tree of a chain of binary
/// operations in the module's function body.
pub fn resolve_module_calls_and_chain(module_block: &BcBlock) -> (r: Result<(Vec<ResolvedDxilCall>, crate::spirv_gen::RegExpr), DxilCallResolutionError>)
    ensures
        match r {
            Ok((c, e)) => calls_and_chain(*module_block) == Ok::<(Seq<ResolvedDxilCall>, crate::spirv_gen::RegExpr), CallErrorView>((c@, e)),
            Err(e) => calls_and_chain(*module_block) == Err::<(Seq<ResolvedDxilCall>, crate::spirv_gen::RegExpr), CallErrorView>(e@),
        },
{
    let res = match resolve_module(module_block, true) {
        Ok(res) => res,
        Err(e) => {
            return Err(e);
        },
    };
    if res.calls.len() != 7 {
        return Err(DxilCallResolutionError::UnexpectedShape(ShapeProblem::CallCount(res.calls.len())));
    }
    match res.last {
        None => Err(DxilCallResolutionError::MissingBinOp),
        Some(e) => Ok((res.calls, e)),
    }
}


/// `dx.entryPoints`.
pub const ENTRY_POINTS_NAME: [u8; 14] = [100, 120, 46, 101, 110, 116, 114, 121, 80, 111, 105, 110, 116, 115];

/// A record of a `METADATA_BLOCK` (id 15) that takes a metadata index.
#[derive(Debug, Clone, PartialEq, Eq)]
pub enum MetadataEntry {
    /// `METADATA_STRING_OLD` (code 1).
    String(Vec<u8>),
    /// `METADATA_VALUE` (code 2): `value_ref` indexes the module's values.
    Value { value_ref: u64 },
    /// `METADATA_NODE` / `METADATA_DISTINCT_NODE` (codes 3 and 5): operands
    /// as read (an operand `n > 0` refers to entry `n - 1`, 0 is null).
    Node(Vec<u64>),
}

/// [`MetadataEntry`] as a plain value.
pub enum MetadataView {
    String(Seq<u8>),
    Value { value_ref: u64 },
    Node(Seq<u64>),
}

impl View for MetadataEntry {
    type V = MetadataView;

    open spec fn view(&self) -> MetadataView {
        match self {
            MetadataEntry::String(s) => MetadataView::String(s@),
            MetadataEntry::Value { value_ref } => MetadataView::Value { value_ref: *value_ref },
            MetadataEntry::Node(f) => MetadataView::Node(f@),
        }
    }
}

/// The views of a sequence of metadata entries.
pub open spec fn md_view(v: Seq<MetadataEntry>) -> Seq<MetadataView> {
    v.map_values(|x: MetadataEntry| x@)
}

/// The string a metadata record carries: its payload's, or its fields read
/// as characters.
pub open spec fn md_string(payload: Option<BcPayload>, fields: Seq<u64>) -> Seq<u8> {
    match payload {
        Some(p) => payload_name(p),
        None => chars_from_fields(fields),
    }
}

/// The entries, the named nodes (`METADATA_NAME`, code 4, followed by
/// `METADATA_NAMED_NODE`, code 10) and the name awaiting its node, after
/// the elements of a metadata block.
pub struct MdFold {
    pub entries: Seq<MetadataView>,
    pub named: Seq<(Seq<u8>, Seq<u64>)>,
    pub pending: Option<Seq<u8>>,
}

/// Reading the elements of a metadata block in order.
pub open spec fn md_fold(elements: Seq<BcElement>) -> MdFold
    decreases elements.len(),
{
    if elements.len() == 0 {
        MdFold { entries: Seq::empty(), named: Seq::empty(), pending: None }
    } else {
        let f = md_fold(elements.drop_last());
        match elements.last() {
            BcElement::Record(rec) => if rec.id == 1 {
                MdFold { entries: f.entries.push(MetadataView::String(md_string(rec.payload, rec.fields@))), ..f }
            } else if rec.id == 2 {
                MdFold { entries: f.entries.push(MetadataView::Value { value_ref: second_or_zero(rec.fields@) }), ..f }
            } else if rec.id == 3 || rec.id == 5 {
                MdFold { entries: f.entries.push(MetadataView::Node(rec.fields@)), ..f }
            } else if rec.id == 4 {
                MdFold { pending: Some(md_string(rec.payload, rec.fields@)), ..f }
            } else if rec.id == 10 {
                match f.pending {
                    Some(name) => MdFold { named: f.named.push((name, rec.fields@)), pending: None, ..f },
                    None => f,
                }
            } else {
                f
            },
            BcElement::Block(_) => f,
        }
    }
}

/// The operands of the named node `name` (the last one so named).
pub open spec fn named_lookup(named: Seq<(Seq<u8>, Seq<u64>)>, name: Seq<u8>) -> Option<Seq<u64>>
    decreases named.len(),
{
    if named.len() == 0 {
        None
    } else if named.last().0 == name {
        Some(named.last().1)
    } else {
        named_lookup(named.drop_last(), name)
    }
}

fn md_string_exec(payload: &Option<BcPayload>, fields: &[u64]) -> (s: Vec<u8>)
    ensures
        s@ == md_string(*payload, fields@),
{
    match payload {
        Some(p) => name_of_payload(p),
        None => string_from_fields(fields),
    }
}

/// Reads a `METADATA_BLOCK`'s records: the entries that take a metadata
/// index, in order, and the named nodes with their operands.
pub fn decode_metadata_block(block: &BcBlock) -> (r: (Vec<MetadataEntry>, Vec<(Vec<u8>, Vec<u64>)>))
    ensures
        md_view(r.0@) == md_fold(block.elements@).entries,
        r.1@.map_values(|e: (Vec<u8>, Vec<u64>)| (e.0@, e.1@)) == md_fold(block.elements@).named,
{
    let mut entries: Vec<MetadataEntry> = Vec::new();
    let mut named: Vec<(Vec<u8>, Vec<u64>)> = Vec::new();
    let mut pending: Option<Vec<u8>> = None;
    let ghost all = block.elements@;
    let mut i: usize = 0;
    assert(all.take(0) =~= Seq::<BcElement>::empty());
    assert(md_view(entries@) =~= Seq::<MetadataView>::empty());
    assert(named@.map_values(|e: (Vec<u8>, Vec<u64>)| (e.0@, e.1@)) =~= Seq::<(Seq<u8>, Seq<u64>)>::empty());
    while i < block.elements.len()
        invariant
            i <= all.len(),
            all == block.elements@,
            md_view(entries@) == md_fold(all.take(i as int)).entries,
            named@.map_values(|e: (Vec<u8>, Vec<u64>)| (e.0@, e.1@)) == md_fold(all.take(i as int)).named,
            match pending { Some(n) => Some(n@), None => None::<Seq<u8>> } == md_fold(all.take(i as int)).pending,
        decreases all.len() - i,
    {
        assert(all.take(i as int + 1).drop_last() =~= all.take(i as int));
        assert(all.take(i as int + 1).last() == all[i as int]);
        let ghost be = entries@;
        let ghost bn = named@;
        match &block.elements[i] {
            BcElement::Record(rec) => {
                if rec.id == 1 {
                    entries.push(MetadataEntry::String(md_string_exec(&rec.payload, rec.fields.as_slice())));
                    assert(md_view(entries@) =~= md_view(be).push(entries@.last()@));
                } else if rec.id == 2 {
                    let value_ref = if rec.fields.len() > 1 { rec.fields[1] } else { 0 };
                    entries.push(MetadataEntry::Value { value_ref });
                    assert(md_view(entries@) =~= md_view(be).push(entries@.last()@));
                } else if rec.id == 3 || rec.id == 5 {
                    entries.push(MetadataEntry::Node(copy_u64s(rec.fields.as_slice())));
                    assert(md_view(entries@) =~= md_view(be).push(entries@.last()@));
                } else if rec.id == 4 {
                    pending = Some(md_string_exec(&rec.payload, rec.fields.as_slice()));
                } else if rec.id == 10 {
                    match pending.take() {
                        Some(name) => {
                            named.push((name, copy_u64s(rec.fields.as_slice())));
                            assert(named@.map_values(|e: (Vec<u8>, Vec<u64>)| (e.0@, e.1@)) =~= bn.map_values(
                                |e: (Vec<u8>, Vec<u64>)| (e.0@, e.1@),
                            ).push((named@.last().0@, named@.last().1@)));
                        },
                        None => {},
                    }
                }
            },
            BcElement::Block(_) => {},
        }
        i = i + 1;
    }
    assert(all.take(all.len() as int) =~= all);
    (entries, named)
}

/// The entry that a metadata operand refers to: `raw - 1`, with 0 null.
pub open spec fn md_operand(entries: Seq<MetadataView>, raw: u64) -> Option<MetadataView> {
    if raw == 0 {
        None
    } else {
        let k = (raw - 1) as usize as int;
        if k < entries.len() { Some(entries[k]) } else { None }
    }
}

/// Resolves a metadata operand (`raw - 1`, 0 is null).
pub fn resolve_md_operand(entries: &[MetadataEntry], raw: u64) -> (r: Option<&MetadataEntry>)
    ensures
        match r {
            Some(e) => md_operand(md_view(entries@), raw) == Some(e@),
            None => md_operand(md_view(entries@), raw) is None,
        },
{
    if raw == 0 {
        return None;
    }
    let k = (raw - 1) as usize;
    if k < entries.len() {
        Some(&entries[k])
    } else {
        None
    }
}

/// The integer constant that module value `value_ref` is.
pub open spec fn module_constant(values: Seq<DxilValueView>, value_ref: u64) -> Option<i64> {
    let k = value_ref as usize as int;
    if k < values.len() { expect_int(values[k]) } else { None }
}

/// Resolves a metadata value reference to the integer constant it names.
pub fn resolve_module_constant_i64(values: &[DxilValue], value_ref: u64) -> (r: Option<i64>)
    ensures
        r == module_constant(values_view(values@), value_ref),
{
    let k = value_ref as usize;
    if k < values.len() {
        expect_int_exec(&values[k])
    } else {
        None
    }
}

/// Why the thread-group size could not be read from the metadata.
#[derive(Debug, Clone, Copy, PartialEq, Eq)]
pub enum DxilNumThreadsError {
    MissingBlock(MissingPart),
    /// No metadata block names `dx.entryPoints`.
    NoEntryPointsMetadata,
    /// `dx.entryPoints` lists this many entry points instead of one.
    UnsupportedEntryPointCount(usize),
    /// The entry point is not a node of five operands whose last is the
    /// shader-properties node.
    UnexpectedEntryShape,
    /// The shader properties have no `NumThreads` tag (4).
    NoNumThreadsTag,
    /// The value of the `NumThreads` tag is not a node of three 32-bit
    /// unsigned constants.
    UnexpectedNumThreadsShape,
}

/// The three constants of a `NumThreads` value node.
pub open spec fn numthreads_triple(entries: Seq<MetadataView>, node: Seq<u64>, values: Seq<DxilValueView>) -> Result<(u32, u32, u32), DxilNumThreadsError> {
    if node.len() != 3 {
        Err(DxilNumThreadsError::UnexpectedNumThreadsShape)
    } else {
        let c = |k: int| match md_operand(entries, node[k]) {
            Some(MetadataView::Value { value_ref }) => module_constant(values, value_ref),
            _ => None,
        };
        match (c(0), c(1), c(2)) {
            (Some(x), Some(y), Some(z)) => if 0 <= x <= u32::MAX && 0 <= y <= u32::MAX && 0 <= z <= u32::MAX {
                Ok((x as u32, y as u32, z as u32))
            } else {
                Err(DxilNumThreadsError::UnexpectedNumThreadsShape)
            },
            _ => Err(DxilNumThreadsError::UnexpectedNumThreadsShape),
        }
    }
}

/// Searching the (tag, value) pairs of the shader properties from pair `j`
/// on for the `NumThreads` tag (4).
pub open spec fn numthreads_from(entries: Seq<MetadataView>, props: Seq<u64>, values: Seq<DxilValueView>, j: int) -> Result<(u32, u32, u32), DxilNumThreadsError>
    decreases props.len() - 2 * j,
{
    if j < 0 || 2 * j + 2 > props.len() {
        Err(DxilNumThreadsError::NoNumThreadsTag)
    } else {
        match md_operand(entries, props[2 * j]) {
            Some(MetadataView::Value { value_ref }) => if module_constant(values, value_ref) == Some(4i64) {
                match md_operand(entries, props[2 * j + 1]) {
                    Some(MetadataView::Node(nt)) => numthreads_triple(entries, nt, values),
                    _ => Err(DxilNumThreadsError::UnexpectedNumThreadsShape),
                }
            } else {
                numthreads_from(entries, props, values, j + 1)
            },
            _ => numthreads_from(entries, props, values, j + 1),
        }
    }
}

fn numthreads_component(entries: &[MetadataEntry], raw: u64, values: &[DxilValue]) -> (r: Option<i64>)
    ensures
        r == match md_operand(md_view(entries@), raw) {
            Some(MetadataView::Value { value_ref }) => module_constant(values_view(values@), value_ref),
            _ => None,
        },
{
    match resolve_md_operand(entries, raw) {
        Some(MetadataEntry::Value { value_ref }) => resolve_module_constant_i64(values, *value_ref),
        _ => None,
    }
}

/// Finds the `NumThreads` tag (4) among the (tag, value) pairs of a
/// shader-properties node and reads its three constants.
pub fn find_numthreads_in_shader_properties(entries: &[MetadataEntry], props_fields: &[u64], values: &[DxilValue]) -> (r: Result<(u32, u32, u32), DxilNumThreadsError>)
    ensures
        r == numthreads_from(md_view(entries@), props_fields@, values_view(values@), 0),
{
    let ghost ev = md_view(entries@);
    let ghost vv = values_view(values@);
    let mut j: usize = 0;
    let pairs = props_fields.len() / 2;
    while j < pairs
        invariant
            j <= pairs,
            pairs == props_fields@.len() / 2,
            ev == md_view(entries@),
            vv == values_view(values@),
            numthreads_from(ev, props_fields@, vv, 0) == numthreads_from(ev, props_fields@, vv, j as int),
        decreases props_fields@.len() - 2 * j,
    {
        let len = props_fields.len();
        assert(j + j + 1 < len);
        let base: usize = j + j;
        let tag_raw = props_fields[base];
        let value_raw = props_fields[base + 1];
        let is_tag = match resolve_md_operand(entries, tag_raw) {
            Some(MetadataEntry::Value { value_ref }) => resolve_module_constant_i64(values, *value_ref) == Some(4i64),
            _ => false,
        };
        if is_tag {
            let nt = match resolve_md_operand(entries, value_raw) {
                Some(MetadataEntry::Node(nt)) => nt,
                _ => {
                    return Err(DxilNumThreadsError::UnexpectedNumThreadsShape);
                },
            };
            if nt.len() != 3 {
                return Err(DxilNumThreadsError::UnexpectedNumThreadsShape);
            }
            let x = numthreads_component(entries, nt[0], values);
            let y = numthreads_component(entries, nt[1], values);
            let z = numthreads_component(entries, nt[2], values);
            return match (x, y, z) {
                (Some(x), Some(y), Some(z)) => {
                    if 0 <= x && x <= 0xFFFF_FFFF && 0 <= y && y <= 0xFFFF_FFFF && 0 <= z && z <= 0xFFFF_FFFF {
                        Ok((x as u32, y as u32, z as u32))
                    } else {
                        Err(DxilNumThreadsError::UnexpectedNumThreadsShape)
                    }
                },
                _ => Err(DxilNumThreadsError::UnexpectedNumThreadsShape),
            };
        }
        j = j + 1;
    }
    Err(DxilNumThreadsError::NoNumThreadsTag)
}

/// Reading the thread-group size from the metadata blocks (id 15) of the
/// module from element `i` on: the first that names `dx.entryPoints`
/// decides.
pub open spec fn numthreads_in_blocks(elements: Seq<BcElement>, values: Seq<DxilValueView>, i: int) -> Result<(u32, u32, u32), DxilNumThreadsError>
    decreases elements.len() - i,
{
    if i < 0 || i >= elements.len() {
        Err(DxilNumThreadsError::NoEntryPointsMetadata)
    } else {
        match elements[i] {
            BcElement::Block(b) => if b.id == 15 {
                let f = md_fold(b.elements@);
                match named_lookup(f.named, ENTRY_POINTS_NAME@) {
                    None => numthreads_in_blocks(elements, values, i + 1),
                    Some(ep) => if ep.len() != 1 {
                        Err(DxilNumThreadsError::UnsupportedEntryPointCount(ep.len() as usize))
                    } else {
                        let k = ep[0] as usize as int;
                        if k >= f.entries.len() {
                            Err(DxilNumThreadsError::UnexpectedEntryShape)
                        } else {
                            match f.entries[k] {
                                MetadataView::Node(entry) => if entry.len() != 5 {
                                    Err(DxilNumThreadsError::UnexpectedEntryShape)
                                } else {
                                    match md_operand(f.entries, entry[4]) {
                                        Some(MetadataView::Node(props)) => numthreads_from(f.entries, props, values, 0),
                                        _ => Err(DxilNumThreadsError::UnexpectedEntryShape),
                                    }
                                },
                                _ => Err(DxilNumThreadsError::UnexpectedEntryShape),
                            }
                        }
                    },
                }
            } else {
                numthreads_in_blocks(elements, values, i + 1)
            },
            BcElement::Record(_) => numthreads_in_blocks(elements, values, i + 1),
        }
    }
}

fn lookup_named<'a>(named: &'a [(Vec<u8>, Vec<u64>)], name: &[u8]) -> (r: Option<&'a Vec<u64>>)
    ensures
        match r {
            Some(f) => named_lookup(named@.map_values(|e: (Vec<u8>, Vec<u64>)| (e.0@, e.1@)), name@) == Some(f@),
            None => named_lookup(named@.map_values(|e: (Vec<u8>, Vec<u64>)| (e.0@, e.1@)), name@) is None,
        },
{
    let ghost all = named@.map_values(|e: (Vec<u8>, Vec<u64>)| (e.0@, e.1@));
    let mut i: usize = named.len();
    assert(all.take(named@.len() as int) =~= all);
    while i > 0
        invariant
            i <= named@.len(),
            all == named@.map_values(|e: (Vec<u8>, Vec<u64>)| (e.0@, e.1@)),
            named_lookup(all, name@) == named_lookup(all.take(i as int), name@),
        decreases i,
    {
        assert(all.take(i as int).drop_last() =~= all.take(i - 1));
        if bytes_eq(named[i - 1].0.as_slice(), name) {
            return Some(&named[i - 1].1);
        }
        i = i - 1;
    }
    None
}

/// The thread-group size that the module's metadata gives its single entry
/// point: `dx.entryPoints` -> the entry's shader properties -> the value of
/// the `NumThreads` tag.
pub fn numthreads_of_module(module_block: &BcBlock) -> (r: Result<(u32, u32, u32), DxilNumThreadsError>)
    ensures
        r == numthreads_in_blocks(module_block.elements@, module_values(*module_block), 0),
{
    let values = build_module_value_list(module_block);
    let ghost vv = values_view(values@);
    let ghost all = module_block.elements@;
    let mut i: usize = 0;
    while i < module_block.elements.len()
        invariant
            i <= all.len(),
            all == module_block.elements@,
            vv == values_view(values@),
            vv == module_values(*module_block),
            numthreads_in_blocks(all, vv, 0) == numthreads_in_blocks(all, vv, i as int),
        decreases all.len() - i,
    {
        match &module_block.elements[i] {
            BcElement::Block(b) => {
                if b.id == 15 {
                    let (entries, named) = decode_metadata_block(b);
                    match lookup_named(named.as_slice(), &ENTRY_POINTS_NAME) {
                        None => {},
                        Some(ep) => {
                            if ep.len() != 1 {
                                return Err(DxilNumThreadsError::UnsupportedEntryPointCount(ep.len()));
                            }
                            let k = ep[0] as usize;
                            if k >= entries.len() {
                                return Err(DxilNumThreadsError::UnexpectedEntryShape);
                            }
                            let entry = match &entries[k] {
                                MetadataEntry::Node(entry) => entry,
                                _ => {
                                    return Err(DxilNumThreadsError::UnexpectedEntryShape);
                                },
                            };
                            if entry.len() != 5 {
                                return Err(DxilNumThreadsError::UnexpectedEntryShape);
                            }
                            let props = match resolve_md_operand(entries.as_slice(), entry[4]) {
                                Some(MetadataEntry::Node(props)) => props,
                                _ => {
                                    return Err(DxilNumThreadsError::UnexpectedEntryShape);
                                },
                            };
                            return find_numthreads_in_shader_properties(entries.as_slice(), props.as_slice(), values.as_slice());
                        },
                    }
                }
            },
            BcElement::Record(_) => {},
        }
        i = i + 1;
    }
    Err(DxilNumThreadsError::NoEntryPointsMetadata)
}

#[verifier::external_type_specification]
#[verifier::external_body]
pub struct ExBitcodeElement(llvm_bitcode::bitcode::BitcodeElement);

/// Moves an element of the bitstream, and everything under it, into
/// [`BcElement`]: blocks keep their id and elements, records their code,
/// fields (`Record::fields`) and payload (`Record::take_payload` on a copy).
#[verifier::external_body]
fn convert_element(el: &llvm_bitcode::bitcode::BitcodeElement) -> BcElement {
    match el {
        BitcodeElement::Block(b) => BcElement::Block(BcBlock { id: b.id, elements: b.elements.iter().map(convert_element).collect() }),
        BitcodeElement::Record(r) => BcElement::Record(BcRecord { id: r.id, fields: r.fields().to_vec(), payload: match r.clone().take_payload() {
            Some(Payload::Array(a)) => Some(BcPayload::Array(a)),
            Some(Payload::Char6String(s)) => Some(BcPayload::Char6String(s.into_bytes())),
            Some(Payload::Blob(b)) => Some(BcPayload::Blob(b)),
            None => None,
        } }),
    }
}

/// What `llvm_bitcode::Bitcode::new` reads from `bitcode`: its top-level
/// elements, each converted by [`convert_element`]; `None` where it reports
/// an error.
pub uninterp spec fn bitcode_elements(bitcode: Seq<u8>) -> Option<Seq<BcElement>>;

/// Calls `llvm_bitcode::Bitcode::new` and converts its top-level elements;
/// the outcome is a function of the bytes alone (named
/// [`bitcode_elements`]). An error comes back as its debug text, which is
/// not stated.
///
/// The reader does not return on every stream (it can reserve room for a
/// count read from the stream, shift a word by 64 bits or more in a VBR
/// value, meet a `debug_assert!(false)`, or recurse deeply); `requires`
/// leaves those streams out (see [`crate::bitstream_check`]).
#[verifier::external_body]
pub(crate) fn parse_bitcode(bitcode: &[u8]) -> (r: Result<Vec<BcElement>, String>)
    requires
        crate::bitstream_check::bitcode_read_safe(bitcode@),
    ensures
        match bitcode_elements(bitcode@) {
            Some(els) => r matches Ok(v) && v@ == els,
            None => r is Err,
        },
{
    let bc = llvm_bitcode::Bitcode::new(bitcode).map_err(|e| format!("{e:?}"))?;
    Ok(bc.elements.iter().map(convert_element).collect())
}

/// The index of the first `DXIL` chunk among `chunks`.
pub open spec fn first_dxil_from(chunks: Seq<crate::container::ChunkModel>, i: int) -> Option<int>
    decreases chunks.len() - i,
{
    if i < 0 || i >= chunks.len() {
        None
    } else if chunks[i] is Dxil {
        Some(i)
    } else {
        first_dxil_from(chunks, i + 1)
    }
}

/// The first `DXIL` chunk among `chunks`.
pub fn find_dxil_chunk(chunks: &[crate::container::ChunkModel]) -> (r: Option<&crate::container::DxilChunkInfo>)
    ensures
        match r {
            Some(info) => first_dxil_from(chunks@, 0) matches Some(k) && chunks@[k] == crate::container::ChunkModel::Dxil(*info),
            None => first_dxil_from(chunks@, 0) is None,
        },
{
    let mut i: usize = 0;
    while i < chunks.len()
        invariant
            i <= chunks@.len(),
            first_dxil_from(chunks@, 0) == first_dxil_from(chunks@, i as int),
        decreases chunks@.len() - i,
    {
        match &chunks[i] {
            crate::container::ChunkModel::Dxil(info) => {
                return Some(info);
            },
            _ => {},
        }
        i = i + 1;
    }
    None
}

/// The index of the first block among `elements` (records skipped).
pub open spec fn first_any_block_from(elements: Seq<BcElement>, i: int) -> Option<int>
    decreases elements.len() - i,
{
    if i < 0 || i >= elements.len() {
        None
    } else if elements[i] is Block {
        Some(i)
    } else {
        first_any_block_from(elements, i + 1)
    }
}

/// The module block: the first top-level block, where its id is 8.
pub open spec fn module_block_of(elements: Seq<BcElement>) -> Option<BcBlock> {
    match first_any_block_from(elements, 0) {
        Some(k) => match elements[k] {
            BcElement::Block(b) => if b.id == 8 { Some(b) } else { None },
            BcElement::Record(_) => None,
        },
        None => None,
    }
}

/// The module block of a bitstream's top-level elements: the first block,
/// where it is a `MODULE_BLOCK` (id 8).
pub fn find_module_block(elements: &[BcElement]) -> (r: Option<&BcBlock>)
    ensures
        match r {
            Some(b) => module_block_of(elements@) == Some(*b),
            None => module_block_of(elements@) is None,
        },
{
    let mut i: usize = 0;
    while i < elements.len()
        invariant
            i <= elements@.len(),
            first_any_block_from(elements@, 0) == first_any_block_from(elements@, i as int),
        decreases elements@.len() - i,
    {
        match &elements[i] {
            BcElement::Block(b) => {
                if b.id == 8 {
                    return Some(b);
                } else {
                    return None;
                }
            },
            BcElement::Record(_) => {},
        }
        i = i + 1;
    }
    None
}

/// The top-level elements of the bitcode in the first `DXIL` chunk of the
/// first container in `bytes`, or the part missing.
pub open spec fn dxil_elements_of(bytes: Seq<u8>) -> Result<Seq<BcElement>, MissingPart> {
    match dxbc_first_container(bytes) {
        None => Err(MissingPart::Container),
        Some(cs) => match first_dxil_from(cs, 0) {
            None => Err(MissingPart::DxilChunk),
            Some(k) => match cs[k] {
                ChunkModel::Dxil(info) => if !crate::bitstream_check::bitcode_read_safe(info.bitcode@) {
                    Err(MissingPart::Bitcode)
                } else {
                    match bitcode_elements(info.bitcode@) {
                        Some(els) => Ok(els),
                        None => Err(MissingPart::Bitcode),
                    }
                },
                _ => Err(MissingPart::DxilChunk),
            },
        },
    }
}

/// The module block of a DXIL shader's bytes, or the part missing.
pub open spec fn dxil_module_of(bytes: Seq<u8>) -> Result<BcBlock, MissingPart> {
    match dxil_elements_of(bytes) {
        Err(p) => Err(p),
        Ok(els) => match module_block_of(els) {
            Some(b) => Ok(b),
            None => Err(MissingPart::ModuleBlock),
        },
    }
}

/// The top-level bitcode elements of a DXIL shader's bytes (see
/// [`dxil_elements_of`]), or the part missing.
pub fn dxil_module_elements(bytes: &[u8]) -> (r: Result<Vec<BcElement>, MissingPart>)
    requires
        dxbc_scan_safe(bytes@),
    ensures
        bytes@.len() < 32 ==> r == Err::<Vec<BcElement>, MissingPart>(MissingPart::Container),
        match dxil_elements_of(bytes@) {
            Ok(els) => r matches Ok(v) && v@ == els,
            Err(p) => r == Err::<Vec<BcElement>, MissingPart>(p),
        },
{
    let chunks = match crate::container::first_container_chunks(bytes) {
        Some(c) => c,
        None => {
            return Err(MissingPart::Container);
        },
    };
    let info = match find_dxil_chunk(chunks.as_slice()) {
        Some(info) => info,
        None => {
            return Err(MissingPart::DxilChunk);
        },
    };
    if !crate::bitstream_check::bitcode_reader_returns(info.bitcode.as_slice()) {
        return Err(MissingPart::Bitcode);
    }
    match parse_bitcode(info.bitcode.as_slice()) {
        Ok(els) => Ok(els),
        Err(_) => Err(MissingPart::Bitcode),
    }
}

/// Resolves the seven calls and the binary operation of a single-operation
/// DXIL compute shader (see [`resolve_module_calls_and_binop`]).
pub fn resolve_dxil_calls_and_binop(bytes: &[u8]) -> (r: Result<(Vec<ResolvedDxilCall>, ResolvedDxilBinOp), DxilCallResolutionError>)
    requires
        dxbc_scan_safe(bytes@),
    ensures
        bytes@.len() < 32 ==> (r matches Err(e) && e@ == CallErrorView::MissingBlock(MissingPart::Container)),
        match dxil_module_of(bytes@) {
            Err(p) => r matches Err(e) && e@ == CallErrorView::MissingBlock(p),
            Ok(mb) => match r {
                Ok((c, b)) => calls_and_binop(mb) == Ok::<(Seq<ResolvedDxilCall>, ResolvedDxilBinOp), CallErrorView>((c@, b)),
                Err(e) => calls_and_binop(mb) == Err::<(Seq<ResolvedDxilCall>, ResolvedDxilBinOp), CallErrorView>(e@),
            },
        },
{
    let elements = match dxil_module_elements(bytes) {
        Ok(e) => e,
        Err(p) => {
            return Err(DxilCallResolutionError::MissingBlock(p));
        },
    };
    match find_module_block(elements.as_slice()) {
        Some(mb) => resolve_module_calls_and_binop(mb),
        None => Err(DxilCallResolutionError::MissingBlock(MissingPart::ModuleBlock)),
    }
}

/// The seven resolved calls of a single-operation DXIL compute shader.
pub fn resolve_vector_add_dxil_calls(bytes: &[u8]) -> (r: Result<Vec<ResolvedDxilCall>, DxilCallResolutionError>)
    requires
        dxbc_scan_safe(bytes@),
    ensures
        bytes@.len() < 32 ==> (r matches Err(e) && e@ == CallErrorView::MissingBlock(MissingPart::Container)),
        match dxil_module_of(bytes@) {
            Err(p) => r matches Err(e) && e@ == CallErrorView::MissingBlock(p),
            Ok(mb) => match r {
                Ok(c) => calls_and_binop(mb) matches Ok((c2, _)) && c2 == c@,
                Err(e) => calls_and_binop(mb) == Err::<(Seq<ResolvedDxilCall>, ResolvedDxilBinOp), CallErrorView>(e@),
            },
        },
{
    match resolve_dxil_calls_and_binop(bytes) {
        Ok((calls, _)) => Ok(calls),
        Err(e) => Err(e),
    }
}

/// Resolves the seven calls and the expression tree of a chain of binary
/// operations in a DXIL compute shader (see
/// [`resolve_module_calls_and_chain`]).
pub fn resolve_dxil_calls_and_chain(bytes: &[u8]) -> (r: Result<(Vec<ResolvedDxilCall>, crate::spirv_gen::RegExpr), DxilCallResolutionError>)
    requires
        dxbc_scan_safe(bytes@),
    ensures
        bytes@.len() < 32 ==> (r matches Err(e) && e@ == CallErrorView::MissingBlock(MissingPart::Container)),
        match dxil_module_of(bytes@) {
            Err(p) => r matches Err(e) && e@ == CallErrorView::MissingBlock(p),
            Ok(mb) => match r {
                Ok((c, x)) => calls_and_chain(mb) == Ok::<(Seq<ResolvedDxilCall>, crate::spirv_gen::RegExpr), CallErrorView>((c@, x)),
                Err(e) => calls_and_chain(mb) == Err::<(Seq<ResolvedDxilCall>, crate::spirv_gen::RegExpr), CallErrorView>(e@),
            },
        },
{
    let elements = match dxil_module_elements(bytes) {
        Ok(e) => e,
        Err(p) => {
            return Err(DxilCallResolutionError::MissingBlock(p));
        },
    };
    match find_module_block(elements.as_slice()) {
        Some(mb) => resolve_module_calls_and_chain(mb),
        None => Err(DxilCallResolutionError::MissingBlock(MissingPart::ModuleBlock)),
    }
}

/// Reads the thread-group size of a DXIL compute shader from its
/// `dx.entryPoints` metadata (see [`numthreads_of_module`]).
pub fn extract_numthreads_from_metadata(bytes: &[u8]) -> (r: Result<(u32, u32, u32), DxilNumThreadsError>)
    requires
        dxbc_scan_safe(bytes@),
    ensures
        bytes@.len() < 32 ==> r == Err::<(u32, u32, u32), DxilNumThreadsError>(DxilNumThreadsError::MissingBlock(MissingPart::Container)),
        match dxil_module_of(bytes@) {
            Err(p) => r == Err::<(u32, u32, u32), DxilNumThreadsError>(DxilNumThreadsError::MissingBlock(p)),
            Ok(mb) => r == numthreads_in_blocks(mb.elements@, module_values(mb), 0),
        },
{
    let elements = match dxil_module_elements(bytes) {
        Ok(e) => e,
        Err(p) => {
            return Err(DxilNumThreadsError::MissingBlock(p));
        },
    };
    match find_module_block(elements.as_slice()) {
        Some(mb) => numthreads_of_module(mb),
        None => Err(DxilNumThreadsError::MissingBlock(MissingPart::ModuleBlock)),
    }
}
} // verus!
