//! Whether `llvm-bitcode`'s bitstream reader (`Bitcode::new`) returns on a
//! stream. The reader is followed step by step as its source reads: the
//! signature, the blocks with their abbreviation width, `BLOCKINFO`
//! blocks, abbreviation definitions, unabbreviated and abbreviated records
//! and their payloads, with the same cursor (a byte range and a bit offset
//! into it). A stream is refused where the reader would
//! - shift a 64-bit word by 64 bits or more while reading a VBR value;
//! - reserve room for more elements than the stream has bits;
//! - meet one of its `debug_assert!(false)` (a `BLOCKINFO` record with no
//!   operand where one is read, a block id beyond 32 bits, a name
//!   character beyond 8 bits);
//! - nest blocks, or chain abbreviation definitions and `BLOCKINFO` blocks,
//!   deeper than the limits below: the reader recurses once for each.
//! Where the reader reports an error, the stream counts as one on which it
//! returns.

use vstd::prelude::*;

verus! {

/// The deepest block nesting accepted: the reader recurses once per level.
pub const BITCODE_NESTING_LIMIT: usize = 64;

/// The longest run of abbreviation definitions and `BLOCKINFO` blocks
/// accepted between two items of a block: the reader recurses once for
/// each element of such a run.
pub const BITCODE_DEFINITION_RUN_LIMIT: usize = 1024;

/// The reader's cursor: the bytes `lo..hi` of the input and a bit offset
/// into them.
#[derive(Clone, Copy)]
pub struct BitCursor {
    pub lo: usize,
    pub hi: usize,
    pub off: usize,
}

/// A cursor within the input, its offset within its bytes.
pub open spec fn cursor_ok(b: Seq<u8>, c: BitCursor) -> bool {
    c.lo <= c.hi <= b.len() && 8 * c.hi <= usize::MAX && c.off <= 8 * (c.hi - c.lo)
}

/// Bit `p` of the input, least significant bit of each byte first.
pub open spec fn bit(b: Seq<u8>, p: int) -> u64 {
    ((b[p / 8] >> ((p % 8) as u8)) & 1u8) as u64
}

/// The `n` bits from bit `p` on, the first one lowest.
pub open spec fn bits_val(b: Seq<u8>, p: int, n: nat) -> u64
    decreases n,
{
    if n == 0 {
        0
    } else {
        bits_val(b, p, (n - 1) as nat) | (bit(b, p + n - 1) << ((n - 1) as u64))
    }
}

/// A fixed-width read: its value and the cursor after it, a reported
/// error (the cursor stays), or a cursor outside the input.
#[derive(Clone, Copy)]
pub enum Bits {
    Val(u64, BitCursor),
    Fail,
    Bad,
}

/// `Cursor::read(n)`: an error unless `1 <= n <= 64` bits remain.
pub open spec fn read_bits(b: Seq<u8>, c: BitCursor, n: u64) -> Bits {
    if !cursor_ok(b, c) {
        Bits::Bad
    } else if n < 1 || n > 64 || c.off + n > 8 * (c.hi - c.lo) {
        Bits::Fail
    } else {
        Bits::Val(bits_val(b, 8 * c.lo + c.off, n as nat), BitCursor { off: (c.off + n) as usize, ..c })
    }
}

/// A VBR read: its value and the cursor after it, a reported error with
/// the cursor where it stopped, or a read the reader may not return from.
#[derive(Clone, Copy)]
pub enum Vbr {
    Val(u64, BitCursor),
    Fail(BitCursor),
    Bad,
}

/// `Cursor::read_vbr_inline` from a chunk on: each chunk's low `w - 1`
/// bits are shifted into place, which needs a shift below 64.
pub open spec fn vbr_loop(b: Seq<u8>, c: BitCursor, w: u64, res: u64, shift: u64) -> Vbr
    decreases 8 * (c.hi - c.lo) - c.off,
{
    match read_bits(b, c, w) {
        Bits::Bad => Vbr::Bad,
        Bits::Fail => Vbr::Fail(c),
        Bits::Val(next, c2) => if shift >= 64 {
            Vbr::Bad
        } else {
            let test = 1u64 << ((w - 1) as u64);
            let mask = (test - 1) as u64;
            let res2 = res | ((next & mask) << shift);
            let shift2 = (shift + w - 1) as u64;
            if shift2 > 63 + w {
                Vbr::Fail(c2)
            } else if next & test == 0 {
                Vbr::Val(res2, c2)
            } else {
                vbr_loop(b, c2, w, res2, shift2)
            }
        },
    }
}

/// `Cursor::read_vbr(w)`.
pub open spec fn read_vbr(b: Seq<u8>, c: BitCursor, w: u64) -> Vbr {
    if w < 1 || w > 32 {
        Vbr::Fail(c)
    } else {
        vbr_loop(b, c, w, 0, 0)
    }
}

/// A cursor moved, or left where it was by a reported error.
#[derive(Clone, Copy)]
pub enum Moved {
    To(BitCursor),
    Fail(BitCursor),
    Bad,
}

/// `Cursor::align32`: on to the next 32-bit boundary, the buffer cut there.
pub open spec fn align32(b: Seq<u8>, c: BitCursor) -> Moved {
    if !cursor_ok(b, c) {
        Moved::Bad
    } else {
        let n = if c.off % 32 == 0 { c.off as int } else { (c.off / 32 + 1) * 32 };
        if n / 8 > c.hi - c.lo {
            Moved::Fail(c)
        } else {
            Moved::To(BitCursor { lo: (c.lo + n / 8) as usize, hi: c.hi, off: 0 })
        }
    }
}

/// A byte range read: its bounds in the input and the cursor after it.
#[derive(Clone, Copy)]
pub enum Span {
    Range(usize, usize, BitCursor),
    Fail,
    Bad,
}

/// `Cursor::read_bytes(n)`, which needs a byte-aligned cursor; its end
/// index is an unchecked sum.
pub open spec fn read_bytes(b: Seq<u8>, c: BitCursor, n: u64) -> Span {
    if !cursor_ok(b, c) {
        Span::Bad
    } else if c.off % 8 != 0 {
        Span::Fail
    } else if c.off / 8 + n > usize::MAX {
        Span::Bad
    } else if c.off / 8 + n > c.hi - c.lo {
        Span::Fail
    } else {
        Span::Range(
            (c.lo + c.off / 8) as usize,
            (c.lo + c.off / 8 + n) as usize,
            BitCursor { off: ((c.off / 8 + n) * 8) as usize, ..c },
        )
    }
}

/// `Cursor::take_slice(n)`, which needs a 32-bit aligned cursor.
pub open spec fn take_slice(b: Seq<u8>, c: BitCursor, n: u64) -> Span {
    if !cursor_ok(b, c) {
        Span::Bad
    } else if c.off % 32 != 0 {
        Span::Fail
    } else {
        read_bytes(b, c, n)
    }
}

/// An abbreviation operand as the reader keeps it.
#[derive(Clone, Copy)]
pub enum AbbrevOp {
    Literal(u64),
    Fixed(u64),
    Vbr(u64),
    Char6,
}

/// The payload operand of an abbreviation.
#[derive(Clone, Copy)]
pub enum AbbrevPayload {
    Blob,
    Array(AbbrevOp),
}

/// An abbreviation: `len` operands from `start` in the list of all
/// operands read, and its payload.
#[derive(Clone, Copy)]
pub struct AbbrevRef {
    pub start: usize,
    pub len: usize,
    pub payload: Option<AbbrevPayload>,
}

/// `RecordIter::read_scalar_operand`: a literal reads nothing; every char6
/// value is a character.
pub open spec fn read_scalar(b: Seq<u8>, c: BitCursor, op: AbbrevOp) -> Vbr {
    match op {
        AbbrevOp::Literal(v) => Vbr::Val(v, c),
        AbbrevOp::Fixed(w) => match read_bits(b, c, w) {
            Bits::Val(v, c2) => Vbr::Val(v, c2),
            Bits::Fail => Vbr::Fail(c),
            Bits::Bad => Vbr::Bad,
        },
        AbbrevOp::Vbr(w) => read_vbr(b, c, w),
        AbbrevOp::Char6 => match read_bits(b, c, 6) {
            Bits::Val(v, c2) => Vbr::Val(v, c2),
            Bits::Fail => Vbr::Fail(c),
            Bits::Bad => Vbr::Bad,
        },
    }
}

/// An abbreviation operand read.
#[derive(Clone, Copy)]
pub enum OpRead {
    Scalar(AbbrevOp, BitCursor),
    Payload(AbbrevPayload, BitCursor),
    Fail,
    Bad,
}

/// `read_abbrev_op` with `left` operands left after this one, where no
/// array may start (the element of an array).
pub open spec fn read_operand_inner(b: Seq<u8>, c: BitCursor, left: u64) -> OpRead {
    match read_bits(b, c, 1) {
        Bits::Bad => OpRead::Bad,
        Bits::Fail => OpRead::Fail,
        Bits::Val(lit, c1) => if lit == 1 {
            match read_vbr(b, c1, 8) {
                Vbr::Val(v, c2) => OpRead::Scalar(AbbrevOp::Literal(v), c2),
                Vbr::Fail(_) => OpRead::Fail,
                Vbr::Bad => OpRead::Bad,
            }
        } else {
            match read_bits(b, c1, 3) {
                Bits::Bad => OpRead::Bad,
                Bits::Fail => OpRead::Fail,
                Bits::Val(t, c2) => if t == 1 || t == 2 {
                    match read_vbr(b, c2, 5) {
                        Vbr::Val(wd, c3) => if wd < 1 || wd > 32 {
                            OpRead::Fail
                        } else if t == 1 {
                            OpRead::Scalar(AbbrevOp::Fixed(wd), c3)
                        } else {
                            OpRead::Scalar(AbbrevOp::Vbr(wd), c3)
                        },
                        Vbr::Fail(_) => OpRead::Fail,
                        Vbr::Bad => OpRead::Bad,
                    }
                } else if t == 4 {
                    OpRead::Scalar(AbbrevOp::Char6, c2)
                } else if t == 5 && left == 0 {
                    OpRead::Payload(AbbrevPayload::Blob, c2)
                } else {
                    OpRead::Fail
                },
            }
        },
    }
}

/// `read_abbrev_op` with `left` operands left after this one: an array
/// (code 3) may be the last but one operand, and takes the last as its
/// element.
pub open spec fn read_operand(b: Seq<u8>, c: BitCursor, left: u64) -> OpRead {
    match read_bits(b, c, 1) {
        Bits::Bad => OpRead::Bad,
        Bits::Fail => OpRead::Fail,
        Bits::Val(lit, c1) => if lit == 0 && left == 1 {
            match read_bits(b, c1, 3) {
                Bits::Val(t, c2) => if t == 3 {
                    match read_operand_inner(b, c2, 0) {
                        OpRead::Scalar(op, c3) => OpRead::Payload(AbbrevPayload::Array(op), c3),
                        OpRead::Bad => OpRead::Bad,
                        _ => OpRead::Fail,
                    }
                } else {
                    read_operand_inner(b, c, left)
                },
                _ => read_operand_inner(b, c, left),
            }
        } else {
            read_operand_inner(b, c, left)
        },
    }
}

/// An abbreviation definition read: its operands, its payload and the
/// cursor after it.
pub enum DefRead {
    Def(Seq<AbbrevOp>, Option<AbbrevPayload>, BitCursor),
    Fail,
    Bad,
}

/// The operands of a definition with `n` of them still to read.
pub open spec fn def_ops(b: Seq<u8>, c: BitCursor, n: u64, fields: Seq<AbbrevOp>) -> DefRead
    decreases n,
{
    if n == 0 {
        DefRead::Def(fields, None, c)
    } else {
        match read_operand(b, c, (n - 1) as u64) {
            OpRead::Scalar(op, c2) => def_ops(b, c2, (n - 1) as u64, fields.push(op)),
            OpRead::Payload(p, c2) => DefRead::Def(fields, Some(p), c2),
            OpRead::Fail => DefRead::Fail,
            OpRead::Bad => DefRead::Bad,
        }
    }
}

/// `define_abbrev`: a VBR5 operand count, for which room is reserved, then
/// the operands.
pub open spec fn define_abbrev(b: Seq<u8>, c: BitCursor) -> DefRead {
    match read_vbr(b, c, 5) {
        Vbr::Val(n, c1) => if n > 8 * b.len() {
            DefRead::Bad
        } else {
            def_ops(b, c1, n, Seq::empty())
        },
        Vbr::Fail(_) => DefRead::Fail,
        Vbr::Bad => DefRead::Bad,
    }
}

/// `n` VBR6 values (the operands of an unabbreviated record).
pub open spec fn vbr6_run(b: Seq<u8>, c: BitCursor, n: u64) -> Moved
    decreases n,
{
    if n == 0 {
        Moved::To(c)
    } else {
        match read_vbr(b, c, 6) {
            Vbr::Val(_, c2) => vbr6_run(b, c2, (n - 1) as u64),
            Vbr::Fail(c2) => Moved::Fail(c2),
            Vbr::Bad => Moved::Bad,
        }
    }
}

/// The scalar operands `ops[i..end]` of an abbreviated record.
pub open spec fn scalar_run(b: Seq<u8>, c: BitCursor, ops: Seq<AbbrevOp>, i: int, end: int) -> Moved
    decreases end - i,
{
    if i >= end || i < 0 || end > ops.len() {
        Moved::To(c)
    } else {
        match read_scalar(b, c, ops[i]) {
            Vbr::Val(_, c2) => scalar_run(b, c2, ops, i + 1, end),
            Vbr::Fail(c2) => Moved::Fail(c2),
            Vbr::Bad => Moved::Bad,
        }
    }
}

/// `n` elements of an array payload.
pub open spec fn elem_run(b: Seq<u8>, c: BitCursor, op: AbbrevOp, n: u64) -> Moved
    decreases n,
{
    if n == 0 {
        Moved::To(c)
    } else {
        match read_scalar(b, c, op) {
            Vbr::Val(_, c2) => elem_run(b, c2, op, (n - 1) as u64),
            Vbr::Fail(c2) => Moved::Fail(c2),
            Vbr::Bad => Moved::Bad,
        }
    }
}

/// The payload of an abbreviated record (`RecordIter::payload`, whose
/// errors `into_record` drops): the cursor after it, or where an error
/// left it.
pub open spec fn read_payload(b: Seq<u8>, c: BitCursor, p: Option<AbbrevPayload>) -> Moved {
    match p {
        None => Moved::To(c),
        Some(AbbrevPayload::Blob) => match read_vbr(b, c, 6) {
            Vbr::Bad => Moved::Bad,
            Vbr::Fail(c2) => Moved::To(c2),
            Vbr::Val(len, c2) => match align32(b, c2) {
                Moved::Bad => Moved::Bad,
                Moved::Fail(_) => Moved::To(c2),
                Moved::To(c3) => match read_bytes(b, c3, len) {
                    Span::Bad => Moved::Bad,
                    Span::Fail => Moved::To(c3),
                    Span::Range(_, _, c4) => match align32(b, c4) {
                        Moved::Bad => Moved::Bad,
                        Moved::Fail(_) => Moved::To(c4),
                        Moved::To(c5) => Moved::To(c5),
                    },
                },
            },
        },
        Some(AbbrevPayload::Array(op)) => match read_vbr(b, c, 6) {
            Vbr::Bad => Moved::Bad,
            Vbr::Fail(c2) => Moved::To(c2),
            Vbr::Val(len, c2) => if len > 8 * b.len() {
                Moved::Bad
            } else {
                match elem_run(b, c2, op, len) {
                    Moved::Bad => Moved::Bad,
                    Moved::To(c3) => Moved::To(c3),
                    Moved::Fail(c3) => Moved::To(c3),
                }
            },
        },
    }
}

/// `n` characters of a `BLOCKINFO` name record, each a VBR6 value that must
/// fit in a byte.
pub open spec fn name_run(b: Seq<u8>, c: BitCursor, n: u64) -> Moved
    decreases n,
{
    if n == 0 {
        Moved::To(c)
    } else {
        match read_vbr(b, c, 6) {
            Vbr::Val(ch, c2) => if ch > 255 {
                Moved::Bad
            } else {
                name_run(b, c2, (n - 1) as u64)
            },
            Vbr::Fail(c2) => Moved::Fail(c2),
            Vbr::Bad => Moved::Bad,
        }
    }
}

/// A block being read: its cursor, id and abbreviation width, whether it
/// is a `BLOCKINFO` block (and the block id its `SETBID` chose), the
/// length of the current run of definitions, and where its own
/// abbreviations start in the list of local ones.
#[derive(Clone, Copy)]
pub struct Frame {
    pub cur: BitCursor,
    pub id: u32,
    pub width: u64,
    pub info: bool,
    pub bid: Option<u32>,
    pub run: usize,
    pub base: usize,
}

/// The reader's state: the open blocks, the local abbreviations of all of
/// them, the abbreviations that `BLOCKINFO` gave each block id, and the
/// operands of all abbreviations.
pub struct ReaderState {
    pub frames: Seq<Frame>,
    pub locals: Seq<AbbrevRef>,
    pub globals: Seq<(u32, AbbrevRef)>,
    pub ops: Seq<AbbrevOp>,
}

/// The abbreviations that `BLOCKINFO` gave block id `id`, in order.
pub open spec fn globals_for(g: Seq<(u32, AbbrevRef)>, id: u32) -> Seq<AbbrevRef>
    decreases g.len(),
{
    if g.len() == 0 {
        Seq::empty()
    } else if g.last().0 == id {
        globals_for(g.drop_last(), id).push(g.last().1)
    } else {
        globals_for(g.drop_last(), id)
    }
}

/// The outcome of a step: 0 reading on, 1 the reader has returned its
/// elements, 2 it has returned an error, 3 it may not return.
pub open spec fn with_top(s: ReaderState, f: Frame) -> ReaderState {
    ReaderState { frames: s.frames.update(s.frames.len() - 1, f), ..s }
}

/// The end of the top block (the reader's `try_next` gives `None`).
pub open spec fn end_block(s: ReaderState) -> (u8, ReaderState) {
    let f = s.frames.last();
    if s.frames.len() <= 1 {
        (1, s)
    } else if f.base > s.locals.len() {
        (3, s)
    } else {
        (0, ReaderState { frames: s.frames.drop_last(), locals: s.locals.take(f.base as int), ..s })
    }
}

/// An abbreviation definition added to `s` (to the top block's local ones,
/// or for block id `bid` of a `BLOCKINFO`).
pub open spec fn add_abbrev(s: ReaderState, f: Frame, fields: Seq<AbbrevOp>, p: Option<AbbrevPayload>, c: BitCursor) -> (u8, ReaderState) {
    if s.ops.len() + fields.len() > usize::MAX {
        (3, s)
    } else {
        let a = AbbrevRef { start: s.ops.len() as usize, len: fields.len() as usize, payload: p };
        if f.info {
            match f.bid {
                Some(bid) => (0, ReaderState {
                    frames: s.frames.update(s.frames.len() - 1, Frame { cur: c, ..f }),
                    globals: s.globals.push((bid, a)),
                    ops: s.ops + fields,
                    ..s
                }),
                None => (2, s),
            }
        } else if f.run + 1 > BITCODE_DEFINITION_RUN_LIMIT {
            (3, s)
        } else {
            (0, ReaderState {
                frames: s.frames.update(s.frames.len() - 1, Frame { cur: c, run: (f.run + 1) as usize, ..f }),
                locals: s.locals.push(a),
                ops: s.ops + fields,
                ..s
            })
        }
    }
}

/// `ENTER_SUBBLOCK` in the top block: the new block's id (VBR8) and
/// abbreviation width (VBR4), alignment, its length in words, and its
/// bytes. A `BLOCKINFO` block (id 0) is read within the current item.
pub open spec fn enter_block(b: Seq<u8>, s: ReaderState, f: Frame, c1: BitCursor) -> (u8, ReaderState) {
    match read_vbr(b, c1, 8) {
        Vbr::Bad => (3, s),
        Vbr::Fail(_) => (2, s),
        Vbr::Val(bid, c2) => match read_vbr(b, c2, 4) {
            Vbr::Bad => (3, s),
            Vbr::Fail(_) => (2, s),
            Vbr::Val(w, c3) => match align32(b, c3) {
                Moved::Bad => (3, s),
                Moved::Fail(_) => (2, s),
                Moved::To(c4) => match read_bits(b, c4, 32) {
                    Bits::Bad => (3, s),
                    Bits::Fail => (2, s),
                    Bits::Val(words, c5) => if words * 4 > usize::MAX {
                        (3, s)
                    } else {
                        match take_slice(b, c5, (words * 4) as u64) {
                            Span::Bad => (3, s),
                            Span::Fail => (2, s),
                            Span::Range(lo, hi, c6) => {
                                let id = bid as u32;
                                let child = Frame {
                                    cur: BitCursor { lo, hi, off: 0 },
                                    id,
                                    width: (w as u8) as u64,
                                    info: id == 0,
                                    bid: None,
                                    run: 0,
                                    base: s.locals.len() as usize,
                                };
                                if s.frames.len() >= BITCODE_NESTING_LIMIT || s.locals.len() > usize::MAX {
                                    (3, s)
                                } else if id == 0 {
                                    if f.run + 1 > BITCODE_DEFINITION_RUN_LIMIT {
                                        (3, s)
                                    } else {
                                        (0, ReaderState {
                                            frames: s.frames.update(
                                                s.frames.len() - 1,
                                                Frame { cur: c6, run: (f.run + 1) as usize, ..f },
                                            ).push(child),
                                            ..s
                                        })
                                    }
                                } else {
                                    (0, ReaderState {
                                        frames: s.frames.update(s.frames.len() - 1, Frame { cur: c6, run: 0, ..f }).push(child),
                                        ..s
                                    })
                                }
                            },
                        }
                    },
                },
            },
        },
    }
}

/// The abbreviation that id `aid` (at least 4) names in block `f`: the
/// `BLOCKINFO` ones for its id first, then its own.
pub open spec fn abbrev_named(s: ReaderState, f: Frame, aid: u32) -> Option<AbbrevRef> {
    let g = globals_for(s.globals, f.id);
    let k = aid - 4;
    if k < g.len() {
        Some(g[k])
    } else if f.base <= s.locals.len() && k - g.len() < s.locals.len() - f.base {
        Some(s.locals[f.base + k - g.len()])
    } else {
        None
    }
}

/// An abbreviated record: its first operand (the code), the other scalar
/// operands, then its payload.
pub open spec fn abbreviated_record(b: Seq<u8>, s: ReaderState, f: Frame, c1: BitCursor, a: AbbrevRef) -> (u8, ReaderState) {
    if a.start + a.len > s.ops.len() {
        (3, s)
    } else if a.len == 0 {
        (2, s)
    } else {
        match read_scalar(b, c1, s.ops[a.start as int]) {
            Vbr::Bad => (3, s),
            Vbr::Fail(_) => (2, s),
            Vbr::Val(_, c2) => match scalar_run(b, c2, s.ops, a.start + 1, a.start + a.len) {
                Moved::Bad => (3, s),
                Moved::Fail(_) => (2, s),
                Moved::To(c3) => match read_payload(b, c3, a.payload) {
                    Moved::To(c4) => (0, with_top(s, Frame { cur: c4, run: 0, ..f })),
                    Moved::Fail(c4) => (0, with_top(s, Frame { cur: c4, run: 0, ..f })),
                    Moved::Bad => (3, s),
                },
            },
        }
    }
}

/// One item of an ordinary block (`BlockIter::try_next`, and for a record
/// `into_record`).
#[verifier::opaque]
pub open spec fn block_step(b: Seq<u8>, s: ReaderState, f: Frame) -> (u8, ReaderState) {
    if !cursor_ok(b, f.cur) {
        (3, s)
    } else if f.cur.off >= 8 * (f.cur.hi - f.cur.lo) {
        if f.id == u32::MAX {
            end_block(s)
        } else {
            (2, s)
        }
    } else {
        match read_bits(b, f.cur, f.width) {
            Bits::Bad => (3, s),
            Bits::Fail => (2, s),
            Bits::Val(v, c1) => {
                let aid = v as u32;
                if aid == 0 {
                    match align32(b, c1) {
                        Moved::Bad => (3, s),
                        Moved::Fail(_) => (2, s),
                        Moved::To(_) => end_block(s),
                    }
                } else if aid == 1 {
                    enter_block(b, s, f, c1)
                } else if aid == 2 {
                    match define_abbrev(b, c1) {
                        DefRead::Bad => (3, s),
                        DefRead::Fail => (2, s),
                        DefRead::Def(fields, p, c2) => add_abbrev(s, f, fields, p, c2),
                    }
                } else if aid == 3 {
                    match read_vbr(b, c1, 6) {
                        Vbr::Bad => (3, s),
                        Vbr::Fail(_) => (2, s),
                        Vbr::Val(_, c2) => match read_vbr(b, c2, 6) {
                            Vbr::Bad => (3, s),
                            Vbr::Fail(_) => (2, s),
                            Vbr::Val(n, c3) => if n > 8 * b.len() {
                                (3, s)
                            } else {
                                match vbr6_run(b, c3, n) {
                                    Moved::Bad => (3, s),
                                    Moved::Fail(_) => (2, s),
                                    Moved::To(c4) => (0, with_top(s, Frame { cur: c4, run: 0, ..f })),
                                }
                            },
                        },
                    }
                } else {
                    match abbrev_named(s, f, aid) {
                        None => (2, s),
                        Some(a) => abbreviated_record(b, s, f, c1, a),
                    }
                }
            },
        }
    }
}

/// An unabbreviated record of a `BLOCKINFO` block: `SETBID` (one operand,
/// a 32-bit block id), `BLOCKNAME` and `SETRECORDNAME` (a record id, then
/// byte characters), each after its operand count `n`.
pub open spec fn info_record(b: Seq<u8>, s: ReaderState, f: Frame, code: u64, n: u64, c3: BitCursor) -> (u8, ReaderState) {
    if code == 1 {
        if n == 0 {
            (3, s)
        } else {
            match read_vbr(b, c3, 6) {
                Vbr::Bad => (3, s),
                Vbr::Fail(_) => (2, s),
                Vbr::Val(x, c4) => if x > u32::MAX {
                    (3, s)
                } else if n > 1 {
                    (2, s)
                } else {
                    (0, with_top(s, Frame { cur: c4, bid: Some(x as u32), ..f }))
                },
            }
        }
    } else if code == 2 {
        if f.bid is None {
            (2, s)
        } else if n > 8 * b.len() {
            (3, s)
        } else {
            match name_run(b, c3, n) {
                Moved::Bad => (3, s),
                Moved::Fail(_) => (2, s),
                Moved::To(c4) => (0, with_top(s, Frame { cur: c4, ..f })),
            }
        }
    } else if code == 3 {
        if f.bid is None {
            (2, s)
        } else if n == 0 {
            (3, s)
        } else {
            match read_vbr(b, c3, 6) {
                Vbr::Bad => (3, s),
                Vbr::Fail(_) => (2, s),
                Vbr::Val(_, c4) => if n - 1 > 8 * b.len() {
                    (3, s)
                } else {
                    match name_run(b, c4, (n - 1) as u64) {
                        Moved::Bad => (3, s),
                        Moved::Fail(_) => (2, s),
                        Moved::To(c5) => (0, with_top(s, Frame { cur: c5, ..f })),
                    }
                },
            }
        }
    } else {
        (2, s)
    }
}

/// One item of a `BLOCKINFO` block (`read_block_info_block`).
#[verifier::opaque]
pub open spec fn info_step(b: Seq<u8>, s: ReaderState, f: Frame) -> (u8, ReaderState) {
    match read_bits(b, f.cur, f.width) {
        Bits::Bad => (3, s),
        Bits::Fail => (2, s),
        Bits::Val(v, c1) => {
            let aid = v as u32;
            if aid == 0 {
                match align32(b, c1) {
                    Moved::Bad => (3, s),
                    Moved::Fail(_) => (2, s),
                    Moved::To(_) => end_block(s),
                }
            } else if aid == 2 {
                if f.bid is None {
                    (2, s)
                } else {
                    match define_abbrev(b, c1) {
                        DefRead::Bad => (3, s),
                        DefRead::Fail => (2, s),
                        DefRead::Def(fields, p, c2) => add_abbrev(s, f, fields, p, c2),
                    }
                }
            } else if aid == 3 {
                match read_vbr(b, c1, 6) {
                    Vbr::Bad => (3, s),
                    Vbr::Fail(_) => (2, s),
                    Vbr::Val(code, c2) => match read_vbr(b, c2, 6) {
                        Vbr::Bad => (3, s),
                        Vbr::Fail(_) => (2, s),
                        Vbr::Val(n, c3) => if code > 255 {
                            (2, s)
                        } else {
                            info_record(b, s, f, code, n, c3)
                        },
                    },
                }
            } else {
                (2, s)
            }
        },
    }
}

/// One step of the reader.
pub open spec fn reader_step(b: Seq<u8>, s: ReaderState) -> (u8, ReaderState) {
    if s.frames.len() == 0 {
        (3, s)
    } else if s.frames.last().info {
        info_step(b, s, s.frames.last())
    } else {
        block_step(b, s, s.frames.last())
    }
}

/// The reader run for at most `fuel` steps; running out counts as not
/// returning.
pub open spec fn reader_run(b: Seq<u8>, s: ReaderState, fuel: nat) -> u8
    decreases fuel,
{
    if fuel == 0 {
        3
    } else {
        let (code, s2) = reader_step(b, s);
        if code == 0 {
            reader_run(b, s2, (fuel - 1) as nat)
        } else {
            code
        }
    }
}

/// The little-endian word at byte `i`.
pub open spec fn le_word(b: Seq<u8>, i: int) -> int {
    b[i] as int + b[i + 1] as int * 256 + b[i + 2] as int * 65536 + b[i + 3] as int * 16777216
}

/// Where the bitstream lies (`Signature::parse`): after the first word, or
/// inside an LLVM wrapper (magic `0x0B17C0DE`, offset and size at bytes 8
/// and 12) after its first word. `None` where the reader reports an error.
pub open spec fn stream_bounds(b: Seq<u8>) -> Option<(int, int)> {
    if b.len() < 4 {
        None
    } else if le_word(b, 0) != 0x0B17C0DE {
        Some((4, b.len() as int))
    } else if b.len() < 20 {
        None
    } else if le_word(b, 8) + le_word(b, 12) > b.len() || le_word(b, 12) < 4 {
        None
    } else {
        Some((le_word(b, 8) + 4, le_word(b, 8) + le_word(b, 12)))
    }
}

/// The reader's state before the first item: the top-level block, with
/// abbreviation width 2.
pub open spec fn initial_reader(lo: int, hi: int) -> ReaderState {
    ReaderState {
        frames: seq![Frame {
            cur: BitCursor { lo: lo as usize, hi: hi as usize, off: 0 },
            id: u32::MAX,
            width: 2,
            info: false,
            bid: None,
            run: 0,
            base: 0,
        }],
        locals: Seq::empty(),
        globals: Seq::empty(),
        ops: Seq::empty(),
    }
}

/// Whether `llvm_bitcode::Bitcode::new` returns on `bitcode` (with its
/// elements or an error), as the steps above follow it. Streams whose bit
/// offsets might not fit a `usize` are refused.
pub open spec fn bitcode_read_safe(bitcode: Seq<u8>) -> bool {
    &&& bitcode.len() * 16 <= usize::MAX
    &&& match stream_bounds(bitcode) {
        None => true,
        Some((lo, hi)) => reader_run(bitcode, initial_reader(lo, hi), (16 * bitcode.len() + 4) as nat) != 3,
    }
}


fn bit_exec(b: &[u8], p: usize) -> (r: u64)
    requires
        p / 8 < b@.len(),
    ensures
        r == bit(b@, p as int),
{
    ((b[p / 8] >> ((p % 8) as u8)) & 1u8) as u64
}

fn read_bits_exec(b: &[u8], c: BitCursor, n: u64) -> (r: Bits)
    requires
        b@.len() * 16 <= usize::MAX,
    ensures
        r == read_bits(b@, c, n),
{
    if !cursor_ok_exec(b, c) {
        return Bits::Bad;
    }
    if n < 1 || n > 64 || c.off + n as usize > 8 * (c.hi - c.lo) {
        return Bits::Fail;
    }
    let p = 8 * c.lo + c.off;
    let mut v: u64 = 0;
    let mut k: u64 = 0;
    while k < n
        invariant
            k <= n <= 64,
            b@.len() * 16 <= usize::MAX,
            p + n <= 8 * b@.len(),
            v == bits_val(b@, p as int, k as nat),
        decreases n - k,
    {
        let bt = bit_exec(b, p + k as usize);
        v = v | (bt << k);
        k = k + 1;
    }
    Bits::Val(v, BitCursor { off: c.off + n as usize, ..c })
}

fn read_vbr_exec(b: &[u8], c: BitCursor, w: u64) -> (r: Vbr)
    requires
        b@.len() * 16 <= usize::MAX,
    ensures
        r == read_vbr(b@, c, w),
{
    if w < 1 || w > 32 {
        return Vbr::Fail(c);
    }
    let mut cur = c;
    let mut res: u64 = 0;
    let mut shift: u64 = 0;
    loop
        invariant
            1 <= w <= 32,
            b@.len() * 16 <= usize::MAX,
            read_vbr(b@, c, w) == vbr_loop(b@, cur, w, res, shift),
        decreases 8 * (cur.hi - cur.lo) - cur.off,
    {
        match read_bits_exec(b, cur, w) {
            Bits::Bad => {
                return Vbr::Bad;
            },
            Bits::Fail => {
                return Vbr::Fail(cur);
            },
            Bits::Val(next, c2) => {
                if shift >= 64 {
                    return Vbr::Bad;
                }
                let sh: u64 = w - 1;
                let test: u64 = 1u64 << sh;
                assert(1u64 << sh >= 1u64) by (bit_vector)
                    requires
                        sh < 64u64,
                ;
                let mask: u64 = test - 1;
                let res2 = res | ((next & mask) << shift);
                let shift2 = shift + w - 1;
                if shift2 > 63 + w {
                    return Vbr::Fail(c2);
                }
                if next & test == 0 {
                    return Vbr::Val(res2, c2);
                }
                cur = c2;
                res = res2;
                shift = shift2;
            },
        }
    }
}

fn cursor_ok_exec(b: &[u8], c: BitCursor) -> (r: bool)
    requires
        b@.len() * 16 <= usize::MAX,
    ensures
        r == cursor_ok(b@, c),
{
    c.lo <= c.hi && c.hi <= b.len() && c.hi <= usize::MAX / 8 && c.off <= 8 * (c.hi - c.lo)
}

fn align32_exec(b: &[u8], c: BitCursor) -> (r: Moved)
    requires
        b@.len() * 16 <= usize::MAX,
    ensures
        r == align32(b@, c),
{
    if !cursor_ok_exec(b, c) {
        return Moved::Bad;
    }
    let n: usize = if c.off % 32 == 0 { c.off } else { (c.off / 32 + 1) * 32 };
    if n / 8 > c.hi - c.lo {
        Moved::Fail(c)
    } else {
        Moved::To(BitCursor { lo: c.lo + n / 8, hi: c.hi, off: 0 })
    }
}

fn read_bytes_exec(b: &[u8], c: BitCursor, n: u64) -> (r: Span)
    requires
        b@.len() * 16 <= usize::MAX,
    ensures
        r == read_bytes(b@, c, n),
{
    if !cursor_ok_exec(b, c) {
        return Span::Bad;
    }
    if c.off % 8 != 0 {
        return Span::Fail;
    }
    let bs = c.off / 8;
    if n > (usize::MAX - bs) as u64 {
        return Span::Bad;
    }
    let be = bs + n as usize;
    if be > c.hi - c.lo {
        return Span::Fail;
    }
    Span::Range(c.lo + bs, c.lo + be, BitCursor { off: be * 8, ..c })
}

fn take_slice_exec(b: &[u8], c: BitCursor, n: u64) -> (r: Span)
    requires
        b@.len() * 16 <= usize::MAX,
    ensures
        r == take_slice(b@, c, n),
{
    if !cursor_ok_exec(b, c) {
        return Span::Bad;
    }
    if c.off % 32 != 0 {
        return Span::Fail;
    }
    read_bytes_exec(b, c, n)
}

fn read_scalar_exec(b: &[u8], c: BitCursor, op: AbbrevOp) -> (r: Vbr)
    requires
        b@.len() * 16 <= usize::MAX,
    ensures
        r == read_scalar(b@, c, op),
{
    match op {
        AbbrevOp::Literal(v) => Vbr::Val(v, c),
        AbbrevOp::Fixed(w) => match read_bits_exec(b, c, w) {
            Bits::Val(v, c2) => Vbr::Val(v, c2),
            Bits::Fail => Vbr::Fail(c),
            Bits::Bad => Vbr::Bad,
        },
        AbbrevOp::Vbr(w) => read_vbr_exec(b, c, w),
        AbbrevOp::Char6 => match read_bits_exec(b, c, 6) {
            Bits::Val(v, c2) => Vbr::Val(v, c2),
            Bits::Fail => Vbr::Fail(c),
            Bits::Bad => Vbr::Bad,
        },
    }
}

fn read_operand_inner_exec(b: &[u8], c: BitCursor, left: u64) -> (r: OpRead)
    requires
        b@.len() * 16 <= usize::MAX,
    ensures
        r == read_operand_inner(b@, c, left),
{
    match read_bits_exec(b, c, 1) {
        Bits::Bad => OpRead::Bad,
        Bits::Fail => OpRead::Fail,
        Bits::Val(lit, c1) => if lit == 1 {
            match read_vbr_exec(b, c1, 8) {
                Vbr::Val(v, c2) => OpRead::Scalar(AbbrevOp::Literal(v), c2),
                Vbr::Fail(_) => OpRead::Fail,
                Vbr::Bad => OpRead::Bad,
            }
        } else {
            match read_bits_exec(b, c1, 3) {
                Bits::Bad => OpRead::Bad,
                Bits::Fail => OpRead::Fail,
                Bits::Val(t, c2) => if t == 1 || t == 2 {
                    match read_vbr_exec(b, c2, 5) {
                        Vbr::Val(wd, c3) => if wd < 1 || wd > 32 {
                            OpRead::Fail
                        } else if t == 1 {
                            OpRead::Scalar(AbbrevOp::Fixed(wd), c3)
                        } else {
                            OpRead::Scalar(AbbrevOp::Vbr(wd), c3)
                        },
                        Vbr::Fail(_) => OpRead::Fail,
                        Vbr::Bad => OpRead::Bad,
                    }
                } else if t == 4 {
                    OpRead::Scalar(AbbrevOp::Char6, c2)
                } else if t == 5 && left == 0 {
                    OpRead::Payload(AbbrevPayload::Blob, c2)
                } else {
                    OpRead::Fail
                },
            }
        },
    }
}

fn read_operand_exec(b: &[u8], c: BitCursor, left: u64) -> (r: OpRead)
    requires
        b@.len() * 16 <= usize::MAX,
    ensures
        r == read_operand(b@, c, left),
{
    match read_bits_exec(b, c, 1) {
        Bits::Bad => OpRead::Bad,
        Bits::Fail => OpRead::Fail,
        Bits::Val(lit, c1) => if lit == 0 && left == 1 {
            match read_bits_exec(b, c1, 3) {
                Bits::Val(t, c2) => if t == 3 {
                    match read_operand_inner_exec(b, c2, 0) {
                        OpRead::Scalar(op, c3) => OpRead::Payload(AbbrevPayload::Array(op), c3),
                        OpRead::Bad => OpRead::Bad,
                        _ => OpRead::Fail,
                    }
                } else {
                    read_operand_inner_exec(b, c, left)
                },
                _ => read_operand_inner_exec(b, c, left),
            }
        } else {
            read_operand_inner_exec(b, c, left)
        },
    }
}

/// `define_abbrev` run on the stream: 0 with the operands, payload and
/// cursor, 2 for a reported error, 3 where the reader may not return.
fn define_abbrev_exec(b: &[u8], c: BitCursor) -> (r: (u8, Vec<AbbrevOp>, Option<AbbrevPayload>, BitCursor))
    requires
        b@.len() * 16 <= usize::MAX,
    ensures
        match define_abbrev(b@, c) {
            DefRead::Def(fields, p, c2) => r.0 == 0 && r.1@ == fields && r.2 == p && r.3 == c2,
            DefRead::Fail => r.0 == 2,
            DefRead::Bad => r.0 == 3,
        },
{
    let mut fields: Vec<AbbrevOp> = Vec::new();
    let (n0, c1) = match read_vbr_exec(b, c, 5) {
        Vbr::Val(n, c1) => (n, c1),
        Vbr::Fail(_) => {
            return (2, fields, None, c);
        },
        Vbr::Bad => {
            return (3, fields, None, c);
        },
    };
    if n0 > 8 * b.len() as u64 {
        return (3, fields, None, c);
    }
    let mut n = n0;
    let mut cur = c1;
    while n > 0
        invariant
            b@.len() * 16 <= usize::MAX,
            define_abbrev(b@, c) == def_ops(b@, cur, n, fields@),
        decreases n,
    {
        match read_operand_exec(b, cur, n - 1) {
            OpRead::Scalar(op, c2) => {
                fields.push(op);
                cur = c2;
                n = n - 1;
            },
            OpRead::Payload(p, c2) => {
                return (0, fields, Some(p), c2);
            },
            OpRead::Fail => {
                return (2, fields, None, c);
            },
            OpRead::Bad => {
                return (3, fields, None, c);
            },
        }
    }
    (0, fields, None, cur)
}

fn vbr6_run_exec(b: &[u8], c: BitCursor, n: u64) -> (r: Moved)
    requires
        b@.len() * 16 <= usize::MAX,
    ensures
        r == vbr6_run(b@, c, n),
{
    let mut k = n;
    let mut cur = c;
    while k > 0
        invariant
            b@.len() * 16 <= usize::MAX,
            vbr6_run(b@, c, n) == vbr6_run(b@, cur, k),
        decreases k,
    {
        match read_vbr_exec(b, cur, 6) {
            Vbr::Val(_, c2) => {
                cur = c2;
                k = k - 1;
            },
            Vbr::Fail(c2) => {
                return Moved::Fail(c2);
            },
            Vbr::Bad => {
                return Moved::Bad;
            },
        }
    }
    Moved::To(cur)
}

fn name_run_exec(b: &[u8], c: BitCursor, n: u64) -> (r: Moved)
    requires
        b@.len() * 16 <= usize::MAX,
    ensures
        r == name_run(b@, c, n),
{
    let mut k = n;
    let mut cur = c;
    while k > 0
        invariant
            b@.len() * 16 <= usize::MAX,
            name_run(b@, c, n) == name_run(b@, cur, k),
        decreases k,
    {
        match read_vbr_exec(b, cur, 6) {
            Vbr::Val(ch, c2) => {
                if ch > 255 {
                    return Moved::Bad;
                }
                cur = c2;
                k = k - 1;
            },
            Vbr::Fail(c2) => {
                return Moved::Fail(c2);
            },
            Vbr::Bad => {
                return Moved::Bad;
            },
        }
    }
    Moved::To(cur)
}

fn elem_run_exec(b: &[u8], c: BitCursor, op: AbbrevOp, n: u64) -> (r: Moved)
    requires
        b@.len() * 16 <= usize::MAX,
    ensures
        r == elem_run(b@, c, op, n),
{
    let mut k = n;
    let mut cur = c;
    while k > 0
        invariant
            b@.len() * 16 <= usize::MAX,
            elem_run(b@, c, op, n) == elem_run(b@, cur, op, k),
        decreases k,
    {
        match read_scalar_exec(b, cur, op) {
            Vbr::Val(_, c2) => {
                cur = c2;
                k = k - 1;
            },
            Vbr::Fail(c2) => {
                return Moved::Fail(c2);
            },
            Vbr::Bad => {
                return Moved::Bad;
            },
        }
    }
    Moved::To(cur)
}

fn scalar_run_exec(b: &[u8], c: BitCursor, ops: &Vec<AbbrevOp>, start: usize, end: usize) -> (r: Moved)
    requires
        b@.len() * 16 <= usize::MAX,
        end <= ops@.len(),
    ensures
        r == scalar_run(b@, c, ops@, start as int, end as int),
{
    let mut i = start;
    let mut cur = c;
    while i < end
        invariant
            b@.len() * 16 <= usize::MAX,
            end <= ops@.len(),
            scalar_run(b@, c, ops@, start as int, end as int) == scalar_run(b@, cur, ops@, i as int, end as int),
        decreases end - i,
    {
        match read_scalar_exec(b, cur, ops[i]) {
            Vbr::Val(_, c2) => {
                cur = c2;
                i = i + 1;
            },
            Vbr::Fail(c2) => {
                return Moved::Fail(c2);
            },
            Vbr::Bad => {
                return Moved::Bad;
            },
        }
    }
    Moved::To(cur)
}

fn read_payload_exec(b: &[u8], c: BitCursor, p: Option<AbbrevPayload>) -> (r: Moved)
    requires
        b@.len() * 16 <= usize::MAX,
    ensures
        r == read_payload(b@, c, p),
{
    match p {
        None => Moved::To(c),
        Some(AbbrevPayload::Blob) => match read_vbr_exec(b, c, 6) {
            Vbr::Bad => Moved::Bad,
            Vbr::Fail(c2) => Moved::To(c2),
            Vbr::Val(len, c2) => match align32_exec(b, c2) {
                Moved::Bad => Moved::Bad,
                Moved::Fail(_) => Moved::To(c2),
                Moved::To(c3) => match read_bytes_exec(b, c3, len) {
                    Span::Bad => Moved::Bad,
                    Span::Fail => Moved::To(c3),
                    Span::Range(_, _, c4) => match align32_exec(b, c4) {
                        Moved::Bad => Moved::Bad,
                        Moved::Fail(_) => Moved::To(c4),
                        Moved::To(c5) => Moved::To(c5),
                    },
                },
            },
        },
        Some(AbbrevPayload::Array(op)) => match read_vbr_exec(b, c, 6) {
            Vbr::Bad => Moved::Bad,
            Vbr::Fail(c2) => Moved::To(c2),
            Vbr::Val(len, c2) => if len > 8 * b.len() as u64 {
                Moved::Bad
            } else {
                match elem_run_exec(b, c2, op, len) {
                    Moved::Bad => Moved::Bad,
                    Moved::To(c3) => Moved::To(c3),
                    Moved::Fail(c3) => Moved::To(c3),
                }
            },
        },
    }
}

/// The reader's state, held in vectors.
struct Reader {
    frames: Vec<Frame>,
    locals: Vec<AbbrevRef>,
    globals: Vec<(u32, AbbrevRef)>,
    ops: Vec<AbbrevOp>,
}

impl Reader {
    closed spec fn state(&self) -> ReaderState {
        ReaderState { frames: self.frames@, locals: self.locals@, globals: self.globals@, ops: self.ops@ }
    }
}

fn set_top(r: &mut Reader, f: Frame)
    requires
        old(r).frames@.len() > 0,
    ensures
        final(r).state() == with_top(old(r).state(), f),
{
    let _ = r.frames.pop();
    r.frames.push(f);
    assert(r.frames@ =~= old(r).frames@.update(old(r).frames@.len() - 1, f));
}

fn end_block_exec(r: &mut Reader) -> (code: u8)
    requires
        old(r).frames@.len() > 0,
    ensures
        code == end_block(old(r).state()).0,
        code == 0 ==> final(r).state() == end_block(old(r).state()).1,
{
    let f = r.frames[r.frames.len() - 1];
    if r.frames.len() <= 1 {
        return 1;
    }
    if f.base > r.locals.len() {
        return 3;
    }
    let _ = r.frames.pop();
    r.locals.truncate(f.base);
    assert(r.frames@ =~= old(r).frames@.drop_last());
    assert(r.locals@ =~= old(r).locals@.take(f.base as int));
    0
}

fn add_abbrev_exec(r: &mut Reader, f: Frame, fields: Vec<AbbrevOp>, p: Option<AbbrevPayload>, c: BitCursor) -> (code: u8)
    requires
        old(r).frames@.len() > 0,
        f == old(r).frames@.last(),
    ensures
        code == add_abbrev(old(r).state(), f, fields@, p, c).0,
        code == 0 ==> final(r).state() == add_abbrev(old(r).state(), f, fields@, p, c).1,
{
    if fields.len() > usize::MAX - r.ops.len() {
        return 3;
    }
    let a = AbbrevRef { start: r.ops.len(), len: fields.len(), payload: p };
    if f.info {
        match f.bid {
            Some(bid) => {
                set_top(r, Frame { cur: c, ..f });
                r.globals.push((bid, a));
            },
            None => {
                return 2;
            },
        }
    } else {
        if f.run >= BITCODE_DEFINITION_RUN_LIMIT {
            return 3;
        }
        set_top(r, Frame { cur: c, run: f.run + 1, ..f });
        r.locals.push(a);
    }
    let ghost before = r.ops@;
    let ghost fr = r.frames@;
    let ghost lo = r.locals@;
    let ghost gl = r.globals@;
    let mut i: usize = 0;
    while i < fields.len()
        invariant
            i <= fields@.len(),
            r.ops@ == before + fields@.take(i as int),
            r.frames@ == fr,
            r.locals@ == lo,
            r.globals@ == gl,
        decreases fields@.len() - i,
    {
        r.ops.push(fields[i]);
        assert(before + fields@.take(i as int + 1) =~= (before + fields@.take(i as int)).push(fields@[i as int]));
        i = i + 1;
    }
    assert(fields@.take(fields@.len() as int) =~= fields@);
    0
}

fn enter_block_exec(b: &[u8], r: &mut Reader, f: Frame, c1: BitCursor) -> (code: u8)
    requires
        b@.len() * 16 <= usize::MAX,
        old(r).frames@.len() > 0,
        f == old(r).frames@.last(),
    ensures
        code == enter_block(b@, old(r).state(), f, c1).0,
        code == 0 ==> final(r).state() == enter_block(b@, old(r).state(), f, c1).1,
{
    let (bid, c2) = match read_vbr_exec(b, c1, 8) {
        Vbr::Bad => {
            return 3;
        },
        Vbr::Fail(_) => {
            return 2;
        },
        Vbr::Val(v, c2) => (v, c2),
    };
    let (w, c3) = match read_vbr_exec(b, c2, 4) {
        Vbr::Bad => {
            return 3;
        },
        Vbr::Fail(_) => {
            return 2;
        },
        Vbr::Val(v, c3) => (v, c3),
    };
    let c4 = match align32_exec(b, c3) {
        Moved::Bad => {
            return 3;
        },
        Moved::Fail(_) => {
            return 2;
        },
        Moved::To(c4) => c4,
    };
    let (words, c5) = match read_bits_exec(b, c4, 32) {
        Bits::Bad => {
            return 3;
        },
        Bits::Fail => {
            return 2;
        },
        Bits::Val(v, c5) => (v, c5),
    };
    if words > u64::MAX / 4 || words * 4 > usize::MAX as u64 {
        return 3;
    }
    let (lo, hi, c6) = match take_slice_exec(b, c5, words * 4) {
        Span::Bad => {
            return 3;
        },
        Span::Fail => {
            return 2;
        },
        Span::Range(lo, hi, c6) => (lo, hi, c6),
    };
    let id = bid as u32;
    let child = Frame {
        cur: BitCursor { lo, hi, off: 0 },
        id,
        width: (w as u8) as u64,
        info: id == 0,
        bid: None,
        run: 0,
        base: r.locals.len(),
    };
    if r.frames.len() >= BITCODE_NESTING_LIMIT {
        return 3;
    }
    if id == 0 {
        if f.run >= BITCODE_DEFINITION_RUN_LIMIT {
            return 3;
        }
        set_top(r, Frame { cur: c6, run: f.run + 1, ..f });
    } else {
        set_top(r, Frame { cur: c6, run: 0, ..f });
    }
    r.frames.push(child);
    0
}

fn globals_for_exec(g: &Vec<(u32, AbbrevRef)>, id: u32) -> (v: Vec<AbbrevRef>)
    ensures
        v@ == globals_for(g@, id),
{
    let mut v: Vec<AbbrevRef> = Vec::new();
    let mut i: usize = 0;
    assert(g@.take(0) =~= Seq::<(u32, AbbrevRef)>::empty());
    while i < g.len()
        invariant
            i <= g@.len(),
            v@ == globals_for(g@.take(i as int), id),
        decreases g@.len() - i,
    {
        assert(g@.take(i as int + 1).drop_last() =~= g@.take(i as int));
        if g[i].0 == id {
            v.push(g[i].1);
        }
        i = i + 1;
    }
    assert(g@.take(g@.len() as int) =~= g@);
    v
}

fn abbrev_named_exec(r: &Reader, f: Frame, aid: u32) -> (a: Option<AbbrevRef>)
    requires
        aid >= 4,
    ensures
        a == abbrev_named(r.state(), f, aid),
{
    let g = globals_for_exec(&r.globals, f.id);
    let k = (aid - 4) as usize;
    if k < g.len() {
        Some(g[k])
    } else if f.base <= r.locals.len() && k - g.len() < r.locals.len() - f.base {
        Some(r.locals[f.base + (k - g.len())])
    } else {
        None
    }
}

fn abbreviated_record_exec(b: &[u8], r: &mut Reader, f: Frame, c1: BitCursor, a: AbbrevRef) -> (code: u8)
    requires
        b@.len() * 16 <= usize::MAX,
        old(r).frames@.len() > 0,
    ensures
        code == abbreviated_record(b@, old(r).state(), f, c1, a).0,
        code == 0 ==> final(r).state() == abbreviated_record(b@, old(r).state(), f, c1, a).1,
{
    if a.len > r.ops.len() || a.start > r.ops.len() - a.len {
        return 3;
    }
    if a.len == 0 {
        return 2;
    }
    let c2 = match read_scalar_exec(b, c1, r.ops[a.start]) {
        Vbr::Bad => {
            return 3;
        },
        Vbr::Fail(_) => {
            return 2;
        },
        Vbr::Val(_, c2) => c2,
    };
    let c3 = match scalar_run_exec(b, c2, &r.ops, a.start + 1, a.start + a.len) {
        Moved::Bad => {
            return 3;
        },
        Moved::Fail(_) => {
            return 2;
        },
        Moved::To(c3) => c3,
    };
    match read_payload_exec(b, c3, a.payload) {
        Moved::To(c4) => {
            set_top(r, Frame { cur: c4, run: 0, ..f });
            0
        },
        Moved::Fail(c4) => {
            set_top(r, Frame { cur: c4, run: 0, ..f });
            0
        },
        Moved::Bad => 3,
    }
}

fn block_step_exec(b: &[u8], r: &mut Reader, f: Frame) -> (code: u8)
    requires
        b@.len() * 16 <= usize::MAX,
        old(r).frames@.len() > 0,
        f == old(r).frames@.last(),
    ensures
        code == block_step(b@, old(r).state(), f).0,
        code == 0 ==> final(r).state() == block_step(b@, old(r).state(), f).1,
{
    reveal(block_step);
    if !cursor_ok_exec(b, f.cur) {
        return 3;
    }
    if f.cur.off >= 8 * (f.cur.hi - f.cur.lo) {
        if f.id == u32::MAX {
            return end_block_exec(r);
        }
        return 2;
    }
    let (v, c1) = match read_bits_exec(b, f.cur, f.width) {
        Bits::Bad => {
            return 3;
        },
        Bits::Fail => {
            return 2;
        },
        Bits::Val(v, c1) => (v, c1),
    };
    let aid = v as u32;
    if aid == 0 {
        match align32_exec(b, c1) {
            Moved::Bad => 3,
            Moved::Fail(_) => 2,
            Moved::To(_) => end_block_exec(r),
        }
    } else if aid == 1 {
        enter_block_exec(b, r, f, c1)
    } else if aid == 2 {
        let (k, fields, p, c2) = define_abbrev_exec(b, c1);
        if k != 0 {
            return k;
        }
        add_abbrev_exec(r, f, fields, p, c2)
    } else if aid == 3 {
        let c2 = match read_vbr_exec(b, c1, 6) {
            Vbr::Bad => {
                return 3;
            },
            Vbr::Fail(_) => {
                return 2;
            },
            Vbr::Val(_, c2) => c2,
        };
        let (n, c3) = match read_vbr_exec(b, c2, 6) {
            Vbr::Bad => {
                return 3;
            },
            Vbr::Fail(_) => {
                return 2;
            },
            Vbr::Val(n, c3) => (n, c3),
        };
        if n > 8 * b.len() as u64 {
            return 3;
        }
        match vbr6_run_exec(b, c3, n) {
            Moved::Bad => 3,
            Moved::Fail(_) => 2,
            Moved::To(c4) => {
                set_top(r, Frame { cur: c4, run: 0, ..f });
                0
            },
        }
    } else {
        match abbrev_named_exec(r, f, aid) {
            None => 2,
            Some(a) => abbreviated_record_exec(b, r, f, c1, a),
        }
    }
}

fn info_record_exec(b: &[u8], r: &mut Reader, f: Frame, code: u64, n: u64, c3: BitCursor) -> (k: u8)
    requires
        b@.len() * 16 <= usize::MAX,
        old(r).frames@.len() > 0,
    ensures
        k == info_record(b@, old(r).state(), f, code, n, c3).0,
        k == 0 ==> final(r).state() == info_record(b@, old(r).state(), f, code, n, c3).1,
{
    if code == 1 {
        if n == 0 {
            return 3;
        }
        match read_vbr_exec(b, c3, 6) {
            Vbr::Bad => 3,
            Vbr::Fail(_) => 2,
            Vbr::Val(x, c4) => if x > u32::MAX as u64 {
                3
            } else if n > 1 {
                2
            } else {
                set_top(r, Frame { cur: c4, bid: Some(x as u32), ..f });
                0
            },
        }
    } else if code == 2 {
        if f.bid.is_none() {
            return 2;
        }
        if n > 8 * b.len() as u64 {
            return 3;
        }
        match name_run_exec(b, c3, n) {
            Moved::Bad => 3,
            Moved::Fail(_) => 2,
            Moved::To(c4) => {
                set_top(r, Frame { cur: c4, ..f });
                0
            },
        }
    } else if code == 3 {
        if f.bid.is_none() {
            return 2;
        }
        if n == 0 {
            return 3;
        }
        match read_vbr_exec(b, c3, 6) {
            Vbr::Bad => 3,
            Vbr::Fail(_) => 2,
            Vbr::Val(_, c4) => if n - 1 > 8 * b.len() as u64 {
                3
            } else {
                match name_run_exec(b, c4, n - 1) {
                    Moved::Bad => 3,
                    Moved::Fail(_) => 2,
                    Moved::To(c5) => {
                        set_top(r, Frame { cur: c5, ..f });
                        0
                    },
                }
            },
        }
    } else {
        2
    }
}

fn info_step_exec(b: &[u8], r: &mut Reader, f: Frame) -> (code: u8)
    requires
        b@.len() * 16 <= usize::MAX,
        old(r).frames@.len() > 0,
        f == old(r).frames@.last(),
    ensures
        code == info_step(b@, old(r).state(), f).0,
        code == 0 ==> final(r).state() == info_step(b@, old(r).state(), f).1,
{
    reveal(info_step);
    let (v, c1) = match read_bits_exec(b, f.cur, f.width) {
        Bits::Bad => {
            return 3;
        },
        Bits::Fail => {
            return 2;
        },
        Bits::Val(v, c1) => (v, c1),
    };
    let aid = v as u32;
    if aid == 0 {
        match align32_exec(b, c1) {
            Moved::Bad => 3,
            Moved::Fail(_) => 2,
            Moved::To(_) => end_block_exec(r),
        }
    } else if aid == 2 {
        if f.bid.is_none() {
            return 2;
        }
        let (k, fields, p, c2) = define_abbrev_exec(b, c1);
        if k != 0 {
            return k;
        }
        add_abbrev_exec(r, f, fields, p, c2)
    } else if aid == 3 {
        let (code, c2) = match read_vbr_exec(b, c1, 6) {
            Vbr::Bad => {
                return 3;
            },
            Vbr::Fail(_) => {
                return 2;
            },
            Vbr::Val(x, c2) => (x, c2),
        };
        let (n, c3) = match read_vbr_exec(b, c2, 6) {
            Vbr::Bad => {
                return 3;
            },
            Vbr::Fail(_) => {
                return 2;
            },
            Vbr::Val(x, c3) => (x, c3),
        };
        if code > 255 {
            return 2;
        }
        info_record_exec(b, r, f, code, n, c3)
    } else {
        2
    }
}

fn le_word_exec(b: &[u8], i: usize) -> (r: u64)
    requires
        i + 4 <= b@.len(),
    ensures
        r == le_word(b@, i as int),
{
    b[i] as u64 + b[i + 1] as u64 * 256 + b[i + 2] as u64 * 65536 + b[i + 3] as u64 * 16777216
}

/// Whether `llvm_bitcode::Bitcode::new` returns on `bitcode` (see
/// [`bitcode_read_safe`]), the reader followed step by step.
pub fn bitcode_reader_returns(bitcode: &[u8]) -> (ok: bool)
    ensures
        ok == bitcode_read_safe(bitcode@),
{
    let b = bitcode;
    if b.len() > usize::MAX / 16 {
        return false;
    }
    let (lo, hi): (usize, usize) = if b.len() < 4 {
        return true;
    } else if le_word_exec(b, 0) != 0x0B17C0DE {
        (4, b.len())
    } else if b.len() < 20 {
        return true;
    } else {
        let off = le_word_exec(b, 8);
        let size = le_word_exec(b, 12);
        if off + size > b.len() as u64 || size < 4 {
            return true;
        }
        ((off + 4) as usize, (off + size) as usize)
    };
    let mut r = Reader {
        frames: vec![Frame {
            cur: BitCursor { lo, hi, off: 0 },
            id: u32::MAX,
            width: 2,
            info: false,
            bid: None,
            run: 0,
            base: 0,
        }],
        locals: Vec::new(),
        globals: Vec::new(),
        ops: Vec::new(),
    };
    assert(r.frames@ =~= initial_reader(lo as int, hi as int).frames);
    assert(r.locals@ =~= initial_reader(lo as int, hi as int).locals);
    assert(r.globals@ =~= initial_reader(lo as int, hi as int).globals);
    assert(r.ops@ =~= initial_reader(lo as int, hi as int).ops);
    assert(r.state() == initial_reader(lo as int, hi as int));
    let fuel: usize = 16 * b.len() + 4;
    let ghost s0 = r.state();
    assert(stream_bounds(b@) == Some((lo as int, hi as int)));
    let mut left: usize = fuel;
    while left > 0
        invariant
            b@ == bitcode@,
            b@.len() * 16 <= usize::MAX,
            bitcode_read_safe(b@) == (reader_run(b@, s0, fuel as nat) != 3),
            reader_run(b@, s0, fuel as nat) == reader_run(b@, r.state(), left as nat),
        decreases left,
    {
        let ghost st = r.state();
        if r.frames.len() == 0 {
            assert(reader_step(b@, st).0 == 3);
            assert(reader_run(b@, st, left as nat) == 3);
            assert(!bitcode_read_safe(b@));
            return false;
        }
        let f = r.frames[r.frames.len() - 1];
        let code = if f.info {
            info_step_exec(b, &mut r, f)
        } else {
            block_step_exec(b, &mut r, f)
        };
        assert(code == reader_step(b@, st).0);
        if code != 0 {
            assert(reader_run(b@, st, left as nat) == code);
            assert(bitcode_read_safe(b@) == (code != 3));
            return code != 3;
        }
        assert(r.state() == reader_step(b@, st).1);
        assert(reader_run(b@, st, left as nat) == reader_run(b@, r.state(), (left - 1) as nat));
        left = left - 1;
    }
    false
}

} // verus!
