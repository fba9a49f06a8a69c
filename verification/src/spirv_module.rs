//! SPIR-V modules as lists of instructions, the instruction templates that
//! the fixed kernels are written in, and the binary encoding of both, which
//! `rspirv` performs.

use vstd::prelude::*;
use rspirv::binary::Assemble;

verus! {

/// A template word at or above this value stands for the parameter
/// `word - PARAM_BASE` (where there is one).
pub const PARAM_BASE: u32 = 0xF000_0000;

/// A template operand word that stands for the string `"main"`.
pub const STR_MAIN: u32 = 0xE000_0000;

/// A template operand word that stands for the string `"GLSL.std.450"`.
pub const STR_GLSL: u32 = 0xE000_0001;

/// An operand of an instruction: one literal word (an id, a number or an
/// enumerant), or a string literal.
#[derive(Debug)]
pub enum SpvOperand {
    Word(u32),
    Text(Vec<u8>),
}

/// [`SpvOperand`] as a plain value.
#[verifier::ext_equal]
pub enum OperandView {
    Word(u32),
    Text(Seq<u8>),
}

impl View for SpvOperand {
    type V = OperandView;

    open spec fn view(&self) -> OperandView {
        match self {
            SpvOperand::Word(w) => OperandView::Word(*w),
            SpvOperand::Text(t) => OperandView::Text(t@),
        }
    }
}

/// One SPIR-V instruction: opcode, optional result type and result id, and
/// operands.
#[derive(Debug)]
pub struct SpvInstruction {
    pub opcode: u32,
    pub result_type: Option<u32>,
    pub result_id: Option<u32>,
    pub operands: Vec<SpvOperand>,
}

/// [`SpvInstruction`] as a plain value.
#[verifier::ext_equal]
pub struct InstructionView {
    pub opcode: u32,
    pub result_type: Option<u32>,
    pub result_id: Option<u32>,
    pub operands: Seq<OperandView>,
}

impl View for SpvInstruction {
    type V = InstructionView;

    open spec fn view(&self) -> InstructionView {
        InstructionView {
            opcode: self.opcode,
            result_type: self.result_type,
            result_id: self.result_id,
            operands: self.operands@.map_values(|o: SpvOperand| o@),
        }
    }
}

/// The views of a list of instructions.
pub open spec fn insts_view(insts: Seq<SpvInstruction>) -> Seq<InstructionView> {
    insts.map_values(|i: SpvInstruction| i@)
}

/// Byte `i` of `s`, zero past its end.
pub open spec fn byte_or_zero(s: Seq<u8>, i: int) -> int {
    if 0 <= i < s.len() {
        s[i] as int
    } else {
        0
    }
}

/// A string literal in words: its bytes, little-endian, followed by at least
/// one zero byte and padded with zeros to a whole word.
pub open spec fn text_words(s: Seq<u8>) -> Seq<u32> {
    Seq::new(
        (s.len() / 4 + 1) as nat,
        |k: int|
            (byte_or_zero(s, 4 * k) + 256 * byte_or_zero(s, 4 * k + 1) + 65536 * byte_or_zero(s, 4 * k + 2)
                + 16777216 * byte_or_zero(s, 4 * k + 3)) as u32,
    )
}

/// The words of one operand.
pub open spec fn operand_words(o: OperandView) -> Seq<u32> {
    match o {
        OperandView::Word(w) => seq![w],
        OperandView::Text(s) => text_words(s),
    }
}

/// The words of a list of operands, one after the other.
pub open spec fn operands_words(ops: Seq<OperandView>) -> Seq<u32>
    decreases ops.len(),
{
    if ops.len() == 0 {
        Seq::empty()
    } else {
        operands_words(ops.drop_last()) + operand_words(ops.last())
    }
}

/// The one word of a present optional id.
pub open spec fn opt_word(w: Option<u32>) -> Seq<u32> {
    match w {
        Some(x) => seq![x],
        None => Seq::empty(),
    }
}

/// The words that follow an instruction's first word.
pub open spec fn instruction_body(i: InstructionView) -> Seq<u32> {
    opt_word(i.result_type) + opt_word(i.result_id) + operands_words(i.operands)
}

/// The binary form of an instruction: the word count in the high half and
/// the opcode in the low half of the first word, then result type, result
/// id and operands.
pub open spec fn instruction_words(i: InstructionView) -> Seq<u32> {
    let body = instruction_body(i);
    seq![((body.len() + 1) * 65536 + i.opcode) as u32] + body
}

/// The words of a list of instructions, one after the other.
pub open spec fn insts_words(insts: Seq<InstructionView>) -> Seq<u32>
    decreases insts.len(),
{
    if insts.len() == 0 {
        Seq::empty()
    } else {
        insts_words(insts.drop_last()) + instruction_words(insts.last())
    }
}

/// The module header: magic number, version 1.0, the generator word of
/// `rspirv`, the id bound and a zero word.
pub open spec fn header_words(bound: u32) -> Seq<u32> {
    seq![0x0723_0203u32, 0x0001_0000u32, 0x000f_0000u32, bound, 0u32]
}

/// The binary form of a module with the given id bound and instructions.
pub open spec fn module_words(bound: u32, insts: Seq<InstructionView>) -> Seq<u32> {
    header_words(bound) + insts_words(insts)
}

/// Every module this crate emits (each goes through [`module_words`])
/// starts with the SPIR-V magic number and version 1.0, and declares its id
/// bound in the header.
pub proof fn lemma_module_header(bound: u32, insts: Seq<InstructionView>)
    ensures
        module_words(bound, insts).len() >= 5,
        module_words(bound, insts)[0] == 0x0723_0203u32,
        module_words(bound, insts)[1] == 0x0001_0000u32,
        module_words(bound, insts)[3] == bound,
{
}

/// The opcodes this crate emits, every one a core SPIR-V opcode.
pub open spec fn known_opcode(op: u32) -> bool {
    ||| op == 11 || op == 12 || op == 14 || op == 15 || op == 16 || op == 17
    ||| op == 19 || op == 20 || op == 21 || op == 22 || op == 23 || op == 25 || op == 27
    ||| op == 28 || op == 29 || op == 30 || op == 32 || op == 33 || op == 43
    ||| op == 54 || op == 56 || op == 59 || op == 61 || op == 62 || op == 65
    ||| op == 71 || op == 72 || op == 80 || op == 81 || op == 87
    ||| op == 127 || op == 128 || op == 129 || op == 130 || op == 131 || op == 132
    ||| op == 133 || op == 134 || op == 136 || op == 137
    ||| op == 167 || op == 169 || op == 170 || op == 172 || op == 176 || op == 188 || op == 190
    ||| op == 196 || op == 197 || op == 224
    ||| op == 246 || op == 247 || op == 248 || op == 249 || op == 250 || op == 253
}

/// Whether `op` is one of [`known_opcode`].
pub fn is_known_opcode(op: u32) -> (b: bool)
    ensures
        b == known_opcode(op),
{
    match op {
        11 | 12 | 14 | 15 | 16 | 17 | 19 | 20 | 21 | 22 | 23 | 25 | 27 | 28 | 29 | 30 | 32 | 33
        | 43 | 54 | 56 | 59 | 61 | 62 | 65 | 71 | 72 | 80 | 81 | 87 => true,
        127 | 128 | 129 | 130 | 131 | 132 | 133 | 134 | 136 | 137 => true,
        167 | 169 | 170 | 172 | 176 | 188 | 190 | 196 | 197 | 224 => true,
        246 | 247 | 248 | 249 | 250 | 253 => true,
        _ => false,
    }
}

/// Whether every string operand is ASCII.
pub open spec fn ascii_texts(ops: Seq<OperandView>) -> bool {
    forall|k: int|
        0 <= k < ops.len() ==> (#[trigger] ops[k] matches OperandView::Text(s) ==> forall|j: int|
            0 <= j < s.len() ==> s[j] < 128)
}

/// What the encoder is asked to take: a known opcode, ASCII strings and a
/// word count that fits the high half of the first word.
pub open spec fn encodable(i: InstructionView) -> bool {
    &&& known_opcode(i.opcode)
    &&& ascii_texts(i.operands)
    &&& instruction_body(i).len() < 65535
}

/// Calls `rspirv::dr::ModuleHeader::new` and `set_version(1, 0)` and
/// assembles the header. In the crate's source the header is the magic
/// number, the version word (major in bits 16-23, minor in bits 8-15), the
/// generator word `0x000f_0000`, the bound and a zero word.
#[verifier::external_body]
fn assemble_header(bound: u32) -> (r: Vec<u32>)
    ensures
        r@ == header_words(bound),
{
    let mut header = rspirv::dr::ModuleHeader::new(bound);
    header.set_version(1, 0);
    header.assemble()
}

/// Builds an `rspirv::dr::Instruction` (a word operand as `LiteralBit32`, a
/// string as `LiteralString`) and calls `Assemble::assemble` on it. In the
/// crate's source that pushes the opcode, the result type and id where
/// present and each operand (a literal word as itself, a string as its
/// bytes in little-endian words with zero padding and at least one zero
/// byte), then adds the word count shifted left by 16 to the first word.
#[verifier::external_body]
fn assemble_instruction(ins: &SpvInstruction) -> (r: Vec<u32>)
    requires
        encodable(ins@),
    ensures
        r@ == instruction_words(ins@),
{
    let operands = ins.operands.iter().map(|o| match o {
        SpvOperand::Word(w) => rspirv::dr::Operand::LiteralBit32(*w),
        SpvOperand::Text(t) => rspirv::dr::Operand::LiteralString(String::from_utf8_lossy(t).into_owned()),
    }).collect();
    let op = rspirv::spirv::Op::from_u32(ins.opcode).unwrap_or(rspirv::spirv::Op::Nop);
    rspirv::dr::Instruction::new(op, ins.result_type, ins.result_id, operands).assemble()
}

pub proof fn lemma_insts_words_append(a: Seq<InstructionView>, b: Seq<InstructionView>)
    ensures
        insts_words(a + b) == insts_words(a) + insts_words(b),
    decreases b.len(),
{
    if b.len() == 0 {
        assert(a + b =~= a);
        assert(insts_words(b) =~= Seq::<u32>::empty());
        assert(insts_words(a) + insts_words(b) =~= insts_words(a));
    } else {
        lemma_insts_words_append(a, b.drop_last());
        assert((a + b).drop_last() =~= a + b.drop_last());
        assert((a + b).last() == b.last());
        assert(insts_words(a + b) =~= insts_words(a) + insts_words(b));
    }
}

proof fn lemma_insts_words_single(i: InstructionView)
    ensures
        insts_words(seq![i]) == instruction_words(i),
{
    assert(seq![i].drop_last() =~= Seq::<InstructionView>::empty());
    assert(insts_words(Seq::<InstructionView>::empty()) =~= Seq::<u32>::empty());
    assert(insts_words(seq![i]) =~= instruction_words(i));
}

/// Encodes a module: the header with `bound`, then each instruction.
pub fn assemble_module(bound: u32, insts: &[SpvInstruction]) -> (words: Vec<u32>)
    requires
        forall|k: int| 0 <= k < insts@.len() ==> encodable(#[trigger] insts@[k]@),
    ensures
        words@ == module_words(bound, insts_view(insts@)),
{
    let mut words = assemble_header(bound);
    let mut i: usize = 0;
    while i < insts.len()
        invariant
            i <= insts@.len(),
            forall|k: int| 0 <= k < insts@.len() ==> encodable(#[trigger] insts@[k]@),
            words@ == module_words(bound, insts_view(insts@.take(i as int))),
        decreases insts@.len() - i,
    {
        let mut w = assemble_instruction(&insts[i]);
        proof {
            assert(insts_view(insts@.take(i as int + 1)).drop_last() =~= insts_view(insts@.take(i as int)));
            assert(insts_view(insts@.take(i as int + 1)).last() == insts@[i as int]@);
        }
        words.append(&mut w);
        i = i + 1;
    }
    assert(insts@.take(insts@.len() as int) =~= insts@);
    words
}

// ---------------------------------------------------------------------
// Templates
// ---------------------------------------------------------------------

/// The bytes of `"main"`.
pub open spec fn main_text() -> Seq<u8> {
    seq![109u8, 97u8, 105u8, 110u8]
}

/// The bytes of `"GLSL.std.450"`.
pub open spec fn glsl_text() -> Seq<u8> {
    seq![71u8, 76u8, 83u8, 76u8, 46u8, 115u8, 116u8, 100u8, 46u8, 52u8, 53u8, 48u8]
}

/// A template word with its parameter filled in.
pub open spec fn fill(w: u32, params: Seq<u32>) -> u32 {
    if w >= PARAM_BASE && w - PARAM_BASE < params.len() {
        params[w - PARAM_BASE]
    } else {
        w
    }
}

/// A template operand word as an operand.
pub open spec fn template_operand(w: u32, params: Seq<u32>) -> OperandView {
    if w == STR_MAIN {
        OperandView::Text(main_text())
    } else if w == STR_GLSL {
        OperandView::Text(glsl_text())
    } else {
        OperandView::Word(fill(w, params))
    }
}

/// The number of words before an instruction's operands in a template:
/// opcode, flags (bit 0: a result type follows, bit 1: a result id
/// follows), operand count, then the ids that the flags announce.
pub open spec fn template_header_len(flags: u32) -> int {
    3 + (flags % 2) + ((flags / 2) % 2)
}

/// The instruction that starts at `pos` in template `t`, and where the next
/// one starts; `None` where no whole instruction with a known opcode and
/// fewer than 16000 operands starts there.
pub open spec fn template_inst_at(t: Seq<u32>, params: Seq<u32>, pos: int) -> Option<(InstructionView, int)> {
    if 0 <= pos && pos + 3 <= t.len() {
        let op = fill(t[pos], params);
        let flags = t[pos + 1];
        let n = t[pos + 2];
        let h = template_header_len(flags);
        if known_opcode(op) && n < 16000 && pos + h + n <= t.len() {
            let rt = if flags % 2 == 1 {
                Some(t[pos + 3])
            } else {
                None
            };
            let rid = if (flags / 2) % 2 == 1 {
                Some(t[pos + 3 + (flags % 2)])
            } else {
                None
            };
            let ops = Seq::new(n as nat, |k: int| template_operand(t[pos + h + k], params));
            Some((InstructionView { opcode: op, result_type: rt, result_id: rid, operands: ops }, pos + h + n))
        } else {
            None
        }
    } else {
        None
    }
}

/// The instructions of template `t` from `pos` on, with `params` filled in,
/// up to the end or to the first place where no instruction starts.
pub open spec fn template_insts_from(t: Seq<u32>, params: Seq<u32>, pos: int) -> Seq<InstructionView>
    decreases t.len() - pos,
{
    match template_inst_at(t, params, pos) {
        Some((ins, next)) => if next > pos {
            seq![ins] + template_insts_from(t, params, next)
        } else {
            seq![ins]
        },
        None => Seq::empty(),
    }
}

/// Whether each of `offs` but the last starts an instruction of template
/// `t` that ends where the next offset starts.
pub open spec fn template_starts(t: Seq<u32>, params: Seq<u32>, offs: Seq<int>) -> bool
    decreases offs.len(),
{
    offs.len() <= 1 || (template_inst_at(t, params, offs[0]) matches Some((_, n)) && n == offs[1] && n > offs[0]
        && template_starts(t, params, offs.drop_first()))
}

/// Along such a chain of starts, the `k`-th instruction read from
/// `offs[0]` is the one that starts at `offs[k]`.
pub proof fn lemma_template_nth(t: Seq<u32>, params: Seq<u32>, offs: Seq<int>, k: int)
    requires
        template_starts(t, params, offs),
        0 <= k < offs.len(),
        template_inst_at(t, params, offs[k]) is Some,
    ensures
        template_insts_from(t, params, offs[0]).len() > k,
        template_insts_from(t, params, offs[0])[k] == template_inst_at(t, params, offs[k]).unwrap().0,
    decreases k,
{
    if k > 0 {
        let rest = offs.drop_first();
        assert(rest[k - 1] == offs[k]);
        lemma_template_nth(t, params, rest, k - 1);
        assert(template_insts_from(t, params, offs[0])[k] == template_insts_from(t, params, offs[1])[k - 1]);
    }
}

/// The module that template `t` describes with `params` filled in.
pub open spec fn template_module_words(t: Seq<u32>, params: Seq<u32>, bound: u32) -> Seq<u32> {
    module_words(bound, template_insts_from(t, params, 0))
}

pub(crate) fn main_bytes() -> (r: Vec<u8>)
    ensures
        r@ == main_text(),
{
    let r: Vec<u8> = vec![109u8, 97u8, 105u8, 110u8];
    assert(r@ =~= main_text());
    r
}

fn glsl_bytes() -> (r: Vec<u8>)
    ensures
        r@ == glsl_text(),
{
    let r: Vec<u8> = vec![71u8, 76u8, 83u8, 76u8, 46u8, 115u8, 116u8, 100u8, 46u8, 52u8, 53u8, 48u8];
    assert(r@ =~= glsl_text());
    r
}

fn fill_exec(w: u32, params: &[u32]) -> (r: u32)
    ensures
        r == fill(w, params@),
{
    if w >= PARAM_BASE && ((w - PARAM_BASE) as usize) < params.len() {
        params[(w - PARAM_BASE) as usize]
    } else {
        w
    }
}

fn template_operand_exec(w: u32, params: &[u32]) -> (r: SpvOperand)
    ensures
        r@ == template_operand(w, params@),
{
    if w == STR_MAIN {
        SpvOperand::Text(main_bytes())
    } else if w == STR_GLSL {
        SpvOperand::Text(glsl_bytes())
    } else {
        SpvOperand::Word(fill_exec(w, params))
    }
}

/// Reads the instruction that starts at `pos` in a template.
fn template_instruction(t: &[u32], params: &[u32], pos: usize) -> (r: Option<(SpvInstruction, usize)>)
    ensures
        match r {
            Some((ins, next)) => template_inst_at(t@, params@, pos as int) == Some((ins@, next as int)),
            None => template_inst_at(t@, params@, pos as int) is None,
        },
{
    if t.len() < 3 || pos > t.len() - 3 {
        return None;
    }
    let op = fill_exec(t[pos], params);
    let flags = t[pos + 1];
    let n = t[pos + 2];
    let h: usize = 3 + (flags % 2) as usize + ((flags / 2) % 2) as usize;
    if !is_known_opcode(op) || n >= 16000 || h + (n as usize) > t.len() - pos {
        return None;
    }
    let rt = if flags % 2 == 1 {
        Some(t[pos + 3])
    } else {
        None
    };
    let rid = if (flags / 2) % 2 == 1 {
        Some(t[pos + 3 + (flags % 2) as usize])
    } else {
        None
    };
    let tlen = t.len();
    let mut operands: Vec<SpvOperand> = Vec::new();
    let mut k: usize = 0;
    while k < n as usize
        invariant
            k <= n,
            tlen == t@.len(),
            pos + h + n <= tlen,
            operands@.len() == k,
            forall|j: int| 0 <= j < k ==> #[trigger] operands@[j]@ == template_operand(t@[pos + h + j], params@),
        decreases n - k,
    {
        operands.push(template_operand_exec(t[pos + h + k], params));
        k = k + 1;
    }
    let ins = SpvInstruction { opcode: op, result_type: rt, result_id: rid, operands };
    proof {
        let ops = Seq::new(n as nat, |j: int| template_operand(t@[pos + h + j], params@));
        assert(ins@.operands =~= ops);
    }
    Some((ins, pos + h + n as usize))
}

proof fn lemma_template_encodable(t: Seq<u32>, params: Seq<u32>, pos: int)
    requires
        template_inst_at(t, params, pos) is Some,
    ensures
        encodable(template_inst_at(t, params, pos).unwrap().0),
{
    let (ins, next) = template_inst_at(t, params, pos).unwrap();
    assert forall|k: int| 0 <= k < ins.operands.len() implies (#[trigger] ins.operands[k] matches OperandView::Text(s)
        ==> forall|j: int| 0 <= j < s.len() ==> s[j] < 128) by {
        match ins.operands[k] {
            OperandView::Text(s) => {
                assert(s == main_text() || s == glsl_text());
            },
            _ => {},
        }
    }
    lemma_operands_words_len(ins.operands);
}

/// A list of operands never takes more than four words per operand, where
/// every string is one of the two template strings.
pub(crate) proof fn lemma_operands_words_len(ops: Seq<OperandView>)
    requires
        forall|k: int| 0 <= k < ops.len() ==> (#[trigger] ops[k] matches OperandView::Text(s) ==> s == main_text() || s == glsl_text()),
    ensures
        operands_words(ops).len() <= 4 * ops.len(),
    decreases ops.len(),
{
    if ops.len() > 0 {
        assert forall|k: int| 0 <= k < ops.drop_last().len() implies (#[trigger] ops.drop_last()[k] matches OperandView::Text(s)
            ==> s == main_text() || s == glsl_text()) by {
            assert(ops.drop_last()[k] == ops[k]);
        }
        lemma_operands_words_len(ops.drop_last());
        assert(ops[ops.len() - 1] == ops.last());
    }
}

/// Encodes the module that template `t` describes with `params` filled in.
pub fn template_module(t: &[u32], params: &[u32], bound: u32) -> (words: Vec<u32>)
    ensures
        words@ == template_module_words(t@, params@, bound),
{
    let mut words = assemble_header(bound);
    let mut pos: usize = 0;
    loop
        invariant
            pos <= t@.len(),
            words@ + insts_words(template_insts_from(t@, params@, pos as int)) == template_module_words(t@, params@, bound),
        decreases t@.len() - pos,
    {
        match template_instruction(t, params, pos) {
            Some((ins, next)) => {
                proof {
                    lemma_template_encodable(t@, params@, pos as int);
                    let rest = template_insts_from(t@, params@, next as int);
                    lemma_insts_words_append(seq![ins@], rest);
                    lemma_insts_words_single(ins@);
                    assert(template_insts_from(t@, params@, pos as int) == seq![ins@] + rest);
                }
                let mut w = assemble_instruction(&ins);
                words.append(&mut w);
                pos = next;
            },
            None => {
                assert(template_insts_from(t@, params@, pos as int) =~= Seq::<InstructionView>::empty());
                assert(insts_words(Seq::<InstructionView>::empty()) =~= Seq::<u32>::empty());
                assert(words@ + insts_words(template_insts_from(t@, params@, pos as int)) =~= words@);
                return words;
            },
        }
    }
}

} // verus!
