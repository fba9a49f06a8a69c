//! Why the range decoder reads back what the range encoder wrote.
//!
//! The encoder's registers stand for an interval of the code line: after
//! `shifted(f)` bytes have left its 16-bit window, the big-endian value of
//! the first `shifted(f) + 2` bytes of the final stream lies in
//! `[interval_low(f), interval_low(f) + f.range)`. Every `put_rac` narrows
//! that interval, so the bytes that terminate the code lie in all of them;
//! a decoder whose `low` is the distance from the interval's lower end then
//! splits the interval as the encoder did and takes the same branch.

use vstd::prelude::*;
use crate::range_coder::{
    DecoderRegisters, EncoderFields, byte_or_zero, context_in_use, dec_rac, encoder_fields_wf,
    lemma_next_state_in_use, lemma_put_bits_step, pow256, prefix_value, put_bits, put_rac_fields,
    rac_decode, rac_decode_fits, renorm_fields, repeat_byte, state_in_use, bit_of, capped,
    dec_exponent, dec_mantissa, get_symbol_result, ilog2, lemma_ilog2_bounds, symbol_code,
    symbol_code_len, symbol_magnitude, wrap_i32, finish_bytes, initial_encoder,
};
use vstd::arithmetic::power2::pow2;

verus! {

/// The big-endian value of a byte string.
pub open spec fn be_value(s: Seq<u8>) -> int
    decreases s.len(),
{
    if s.len() == 0 {
        0
    } else {
        be_value(s.drop_last()) * 256 + s.last() as int
    }
}

/// The number of bytes that have left the encoder's window: those written,
/// the byte held back, and the run of `0xFF` bytes held back behind it.
pub open spec fn shifted(f: EncoderFields) -> nat {
    if f.ob < 0 {
        0
    } else {
        f.bytes.len() + 1 + f.count
    }
}

/// The value of the bytes that have left the window, before any carry that
/// is still to come.
pub open spec fn shifted_value(f: EncoderFields) -> int {
    if f.ob < 0 {
        0
    } else {
        (be_value(f.bytes) * 256 + f.ob) * pow256(f.count) + pow256(f.count) - 1
    }
}

/// The lower end of the encoder's interval, at the scale of the first
/// `shifted(f) + 2` bytes of the code.
pub open spec fn interval_low(f: EncoderFields) -> int {
    shifted_value(f) * 65536 + f.low
}

/// `g`'s interval lies within `f`'s, once `f`'s is brought to `g`'s scale.
pub open spec fn nested(f: EncoderFields, g: EncoderFields) -> bool {
    let d = (shifted(g) - shifted(f)) as nat;
    &&& shifted(f) <= shifted(g)
    &&& interval_low(f) * pow256(d) <= interval_low(g)
    &&& interval_low(g) + g.range <= (interval_low(f) + f.range) * pow256(d)
}

/// The code value of `input` at `f`'s scale lies in `f`'s interval.
pub open spec fn code_in_interval(f: EncoderFields, input: Seq<u8>) -> bool {
    let x = prefix_value(input, shifted(f) + 2);
    interval_low(f) <= x < interval_low(f) + f.range
}

/// The decoder's registers mirror the encoder's: the same `range`, `low` the
/// distance of the code value above the interval's lower end, and the read
/// position just after the bytes in the window (or at the end of the input).
pub open spec fn tracks(r: DecoderRegisters, f: EncoderFields, input: Seq<u8>) -> bool {
    &&& r.range == f.range
    &&& r.low == prefix_value(input, shifted(f) + 2) - interval_low(f)
    &&& r.pos == (if shifted(f) + 2 < input.len() { (shifted(f) + 2) as int } else { input.len() as int })
}

/// What one renormalisation step needs of the encoder's fields: the byte it
/// may write out fits in a byte.
pub open spec fn renorm_ok(f: EncoderFields) -> bool {
    &&& 0 <= f.low < 0x20000
    &&& -1 <= f.ob <= 255
    &&& f.ob == -1 ==> (f.bytes.len() == 0 && f.count == 0 && f.low < 0x10000)
    &&& f.ob == 255 ==> f.low < 0x10000
}

proof fn lemma_be_value_append(s: Seq<u8>, t: Seq<u8>)
    ensures
        be_value(s + t) == be_value(s) * pow256(t.len()) + be_value(t),
    decreases t.len(),
{
    if t.len() == 0 {
        assert(s + t =~= s);
    } else {
        lemma_be_value_append(s, t.drop_last());
        assert((s + t).drop_last() =~= s + t.drop_last());
        assert((s + t).last() == t.last());
        let p = pow256(t.drop_last().len());
        assert(pow256(t.len()) == 256 * p);
        assert((be_value(s) * p + be_value(t.drop_last())) * 256 == be_value(s) * (256 * p) + be_value(t.drop_last()) * 256)
            by (nonlinear_arith);
    }
}

proof fn lemma_be_value_repeat(b: u8, n: nat)
    ensures
        b == 0xFF ==> be_value(repeat_byte(b, n)) == pow256(n) - 1,
        b == 0 ==> be_value(repeat_byte(b, n)) == 0,
    decreases n,
{
    if n > 0 {
        lemma_be_value_repeat(b, (n - 1) as nat);
        assert(repeat_byte(b, n).drop_last() =~= repeat_byte(b, (n - 1) as nat));
    }
}

proof fn lemma_be_value_single(b: u8)
    ensures
        be_value(seq![b]) == b as int,
{
    assert(seq![b].drop_last() =~= Seq::<u8>::empty());
    assert(seq![b].last() == b);
    assert(be_value(Seq::<u8>::empty()) == 0);
}

proof fn lemma_pow256_positive(n: nat)
    ensures
        pow256(n) >= 1,
    decreases n,
{
    if n > 0 {
        lemma_pow256_positive((n - 1) as nat);
    }
}

/// One renormalisation step multiplies the interval by 256 and moves one
/// more byte out of the window.
proof fn lemma_renorm_interval(f: EncoderFields)
    requires
        f.range < 256,
        renorm_ok(f),
    ensures
        shifted(renorm_fields(f)) == shifted(f) + 1,
        interval_low(renorm_fields(f)) == 256 * interval_low(f),
        renorm_fields(f).range == 256 * f.range,
        0 <= renorm_fields(f).ob <= 255,
        0 <= renorm_fields(f).low <= 0xFF00,
        renorm_ok(renorm_fields(f)),
{
    let g = renorm_fields(f);
    let c = f.count;
    let p = pow256(c);
    let hi = f.low / 256;
    let lo = f.low % 256;
    assert(f.low == 256 * hi + lo);
    assert(pow256(0) == 1);
    lemma_pow256_positive(c);
    if f.ob < 0 {
        assert(g.count == 0 && g.bytes.len() == 0 && pow256(0) == 1);
        assert(be_value(g.bytes) == 0);
        assert(shifted_value(g) == hi);
    } else if f.low <= 0xFF00 {
        let b = f.bytes + seq![f.ob as u8];
        lemma_be_value_append(f.bytes, seq![f.ob as u8]);
        lemma_be_value_single(f.ob as u8);
        assert(pow256(1) == 256) by { reveal_with_fuel(pow256, 2); }
        lemma_be_value_append(b, repeat_byte(0xFF, c));
        lemma_be_value_repeat(0xFF, c);
        assert(g.bytes == b + repeat_byte(0xFF, c));
        assert(be_value(g.bytes) == (be_value(f.bytes) * 256 + f.ob) * p + p - 1);
        assert(g.bytes.len() == f.bytes.len() + 1 + c);
        assert(shifted_value(g) == be_value(g.bytes) * 256 + hi);
        assert(shifted_value(g) == 256 * shifted_value(f) + hi);
    } else if f.low >= 0x10000 {
        assert(0 <= f.ob <= 254);
        assert(((f.ob + 1) as u8) as int == f.ob + 1);
        let b = f.bytes + seq![(f.ob + 1) as u8];
        lemma_be_value_append(f.bytes, seq![(f.ob + 1) as u8]);
        lemma_be_value_single((f.ob + 1) as u8);
        assert(pow256(1) == 256) by { reveal_with_fuel(pow256, 2); }
        lemma_be_value_append(b, repeat_byte(0, c));
        lemma_be_value_repeat(0, c);
        assert(g.bytes == b + repeat_byte(0, c));
        assert(be_value(g.bytes) == (be_value(f.bytes) * 256 + f.ob + 1) * p);
        assert(g.bytes.len() == f.bytes.len() + 1 + c);
        assert(shifted_value(g) == be_value(g.bytes) * 256 + hi - 256);
        assert((be_value(f.bytes) * 256 + f.ob + 1) * p == (be_value(f.bytes) * 256 + f.ob) * p + p)
            by (nonlinear_arith);
        assert(shifted_value(g) == 256 * shifted_value(f) + hi);
    } else {
        assert(hi == 255);
        assert(pow256(c + 1) == 256 * p);
        assert((be_value(f.bytes) * 256 + f.ob) * (256 * p) == 256 * ((be_value(f.bytes) * 256 + f.ob) * p))
            by (nonlinear_arith);
        assert(shifted_value(g) == 256 * shifted_value(f) + hi);
    }
    assert(interval_low(g) == shifted_value(g) * 65536 + lo * 256);
}

/// `put_rac` before its renormalisation: the part of the interval that
/// `bit` selects.
pub open spec fn rac_split_fields(f: EncoderFields, s: u8, bit: bool) -> EncoderFields {
    let range_one = f.range * s / 256;
    if bit {
        EncoderFields { low: f.low + f.range - range_one, range: range_one, ..f }
    } else {
        EncoderFields { range: f.range - range_one, ..f }
    }
}

proof fn lemma_range_one_bounds(range: int, s: u8)
    requires
        256 <= range <= 0xFF00,
        state_in_use(s),
    ensures
        8 <= range * s / 256 <= range - 8,
{
    let r1 = range * s / 256;
    assert(8 <= r1 <= range - 8) by (nonlinear_arith)
        requires r1 == range * s / 256, 8 <= s <= 248, 256 <= range;
}

/// `put_rac` keeps the encoder well formed, and the interval it leaves lies
/// within the one it found.
pub proof fn lemma_put_rac_narrows(f: EncoderFields, s: u8, bit: bool)
    requires
        encoder_fields_wf(f),
        state_in_use(s),
    ensures
        put_rac_fields(f, s, bit) == renorm_fields(rac_split_fields(f, s, bit)),
        encoder_fields_wf(put_rac_fields(f, s, bit)),
        nested(f, put_rac_fields(f, s, bit)),
        renorm_ok(rac_split_fields(f, s, bit)),
        shifted(rac_split_fields(f, s, bit)) == shifted(f),
        interval_low(rac_split_fields(f, s, bit))
            == interval_low(f) + (if bit { f.range - f.range * s / 256 } else { 0 }),
{
    let h = rac_split_fields(f, s, bit);
    let g = put_rac_fields(f, s, bit);
    lemma_range_one_bounds(f.range, s);
    assert(shifted_value(h) == shifted_value(f));
    assert(renorm_ok(h));
    assert(pow256(0) == 1);
    if h.range < 256 {
        lemma_renorm_interval(h);
        assert(pow256(1) == 256) by { reveal_with_fuel(pow256, 2); }
        let hi = h.low / 256;
        assert(h.low == 256 * hi + h.low % 256);
        if f.ob < 0 {
            assert(g.ob == hi);
        } else if h.low <= 0xFF00 {
            assert(g.ob == hi);
            assert(hi == 255 ==> g.low == 0);
        } else if h.low >= 0x10000 {
            assert(g.ob == hi - 256);
        } else {
            assert(g.ob == f.ob);
        }
        assert(encoder_fields_wf(g));
        assert(((shifted(g) - shifted(f)) as nat) == 1);
        assert(interval_low(f) * 256 <= interval_low(g));
        assert(interval_low(g) + g.range <= (interval_low(f) + f.range) * 256);
    } else {
        assert(g == h);
        assert(((shifted(g) - shifted(f)) as nat) == 0);
    }
}

proof fn lemma_prefix_extend(input: Seq<u8>, k: nat, d: nat)
    ensures
        prefix_value(input, k) * pow256(d) <= prefix_value(input, k + d),
        prefix_value(input, k + d) < (prefix_value(input, k) + 1) * pow256(d),
    decreases d,
{
    if d == 0 {
        assert(pow256(0) == 1);
    } else {
        lemma_prefix_extend(input, k, (d - 1) as nat);
        let a = prefix_value(input, k);
        let m = prefix_value(input, (k + d - 1) as nat);
        let p = pow256((d - 1) as nat);
        let b = byte_or_zero(input, k + d - 1);
        assert(prefix_value(input, k + d) == m * 256 + b);
        assert(pow256(d) == 256 * p);
        assert(0 <= b < 256);
        assert(a * (256 * p) <= m * 256 + b) by (nonlinear_arith)
            requires a * p <= m, 0 <= b;
        assert(m * 256 + b < (a + 1) * (256 * p)) by (nonlinear_arith)
            requires m < (a + 1) * p, b < 256;
    }
}

proof fn lemma_pow256_add(a: nat, b: nat)
    ensures
        pow256(a + b) == pow256(a) * pow256(b),
    decreases b,
{
    if b == 0 {
        assert(pow256(0) == 1);
    } else {
        lemma_pow256_add(a, (b - 1) as nat);
        assert(pow256(a + b) == 256 * pow256((a + b - 1) as nat));
        assert(pow256(b) == 256 * pow256((b - 1) as nat));
        assert(pow256(a) * (256 * pow256((b - 1) as nat)) == 256 * (pow256(a) * pow256((b - 1) as nat)))
            by (nonlinear_arith);
    }
}

/// A code value that lies in a later, narrower interval lies in every
/// earlier one.
pub proof fn lemma_in_interval_inherited(f: EncoderFields, g: EncoderFields, input: Seq<u8>)
    requires
        nested(f, g),
        code_in_interval(g, input),
    ensures
        code_in_interval(f, input),
{
    let d = (shifted(g) - shifted(f)) as nat;
    lemma_prefix_extend(input, shifted(f) + 2, d);
    lemma_pow256_positive(d);
    assert(shifted(f) + 2 + d == shifted(g) + 2);
    let x = prefix_value(input, shifted(f) + 2);
    let y = prefix_value(input, shifted(g) + 2);
    let p = pow256(d);
    let a = interval_low(f);
    let r = f.range;
    assert(x < a + r) by (nonlinear_arith)
        requires x * p <= y, y < (a + r) * p, p >= 1;
    assert(a <= x) by (nonlinear_arith)
        requires a * p <= y, y < (x + 1) * p, p >= 1;
}

/// Nesting of intervals is transitive.
pub proof fn lemma_nested_trans(f: EncoderFields, g: EncoderFields, h: EncoderFields)
    requires
        nested(f, g),
        nested(g, h),
        interval_low(f) >= 0,
    ensures
        nested(f, h),
{
    let d1 = (shifted(g) - shifted(f)) as nat;
    let d2 = (shifted(h) - shifted(g)) as nat;
    lemma_pow256_add(d1, d2);
    lemma_pow256_positive(d2);
    assert((shifted(h) - shifted(f)) as nat == d1 + d2);
    let p1 = pow256(d1);
    let p2 = pow256(d2);
    let af = interval_low(f);
    let ag = interval_low(g);
    let ah = interval_low(h);
    let ef = af + f.range;
    let eg = ag + g.range;
    assert(af * (p1 * p2) <= ah) by (nonlinear_arith)
        requires af * p1 <= ag, ag * p2 <= ah, p2 >= 1;
    assert(ah + h.range <= ef * (p1 * p2)) by (nonlinear_arith)
        requires eg * p2 >= ah + h.range, eg <= ef * p1, p2 >= 1;
}

/// Every interval lies within itself.
pub proof fn lemma_nested_refl(f: EncoderFields)
    ensures
        nested(f, f),
{
    assert(pow256(0) == 1);
    assert(((shifted(f) - shifted(f)) as nat) == 0);
}

/// The decoder reads back the bit that `put_rac` coded, provided the code
/// value lies in the interval `put_rac` left; its registers then mirror the
/// encoder's again.
pub proof fn lemma_rac_roundtrip(f: EncoderFields, s: u8, bit: bool, r: DecoderRegisters, input: Seq<u8>)
    requires
        encoder_fields_wf(f),
        state_in_use(s),
        tracks(r, f, input),
        code_in_interval(put_rac_fields(f, s, bit), input),
    ensures
        rac_decode_fits(r, input, s),
        rac_decode(r, input, s).0 == bit,
        tracks(rac_decode(r, input, s).1, put_rac_fields(f, s, bit), input),
{
    lemma_put_rac_narrows(f, s, bit);
    let h = rac_split_fields(f, s, bit);
    let g = put_rac_fields(f, s, bit);
    let n = shifted(f);
    let x = prefix_value(input, n + 2);
    let b = byte_or_zero(input, n + 2int);
    assert(prefix_value(input, n + 3) == x * 256 + b);
    assert(0 <= b < 256);
    if h.range < 256 {
        lemma_renorm_interval(h);
        assert(shifted(g) + 2 == n + 3);
    } else {
        assert(g == h);
    }
    // The code value lies in the part of the interval that `bit` selects.
    assert(interval_low(h) <= x < interval_low(h) + h.range);
    let range_one = r.range * s / 256;
    assert(range_one == f.range * s / 256);
    let (dbit, low1, range1) = crate::range_coder::rac_split(r.low, r.range, s);
    assert(dbit == bit);
    assert(low1 == x - interval_low(h));
    assert(range1 == h.range);
    let pos_byte = byte_or_zero(input, r.pos);
    assert(pos_byte == b);
}

proof fn lemma_be_value_nonneg(s: Seq<u8>)
    ensures
        be_value(s) >= 0,
    decreases s.len(),
{
    if s.len() > 0 {
        lemma_be_value_nonneg(s.drop_last());
    }
}

/// A well-formed encoder's interval starts at or above 0.
pub proof fn lemma_interval_low_nonneg(f: EncoderFields)
    requires
        encoder_fields_wf(f),
    ensures
        interval_low(f) >= 0,
{
    if f.ob >= 0 {
        lemma_be_value_nonneg(f.bytes);
        lemma_pow256_positive(f.count);
        let p = pow256(f.count);
        let v = be_value(f.bytes) * 256 + f.ob;
        assert(v * p >= 0) by (nonlinear_arith) requires v >= 0, p >= 1;
    }
}

/// Every decision of a code names one of the 32 states of a context.
pub open spec fn code_slots_ok(code: Seq<(int, bool)>) -> bool {
    forall|i: int| 0 <= i < code.len() ==> 0 <= #[trigger] code[i].0 < 32
}

/// Coding a prefix of a code keeps the encoder and the context well formed.
proof fn lemma_put_bits_prefix_wf(f0: EncoderFields, st0: Seq<u8>, code: Seq<(int, bool)>, k: int)
    requires
        encoder_fields_wf(f0),
        context_in_use(st0),
        code_slots_ok(code),
        0 <= k <= code.len(),
    ensures
        encoder_fields_wf(put_bits(f0, st0, code.take(k)).0),
        context_in_use(put_bits(f0, st0, code.take(k)).1),
    decreases k,
{
    if k == 0 {
        assert(code.take(0) =~= Seq::<(int, bool)>::empty());
    } else {
        lemma_put_bits_prefix_wf(f0, st0, code, k - 1);
        lemma_put_bits_step(f0, st0, code, k - 1);
        let (f1, st1) = put_bits(f0, st0, code.take(k - 1));
        let (slot, bit) = code[k - 1];
        assert(0 <= slot < 32);
        assert(state_in_use(st1[slot]));
        lemma_put_rac_narrows(f1, st1[slot], bit);
        lemma_next_state_in_use(st1[slot], bit);
        let st2 = st1.update(slot, crate::range_coder::next_state(st1[slot], bit));
        assert forall|i: int| 0 <= i < 32 implies state_in_use(#[trigger] st2[i]) by {
            if i != slot {
                assert(st2[i] == st1[i]);
            }
        }
    }
}

/// The interval after a longer prefix of a code lies within the interval
/// after a shorter one.
proof fn lemma_put_bits_prefix_nested(f0: EncoderFields, st0: Seq<u8>, code: Seq<(int, bool)>, k: int, j: int)
    requires
        encoder_fields_wf(f0),
        context_in_use(st0),
        code_slots_ok(code),
        0 <= k <= j <= code.len(),
    ensures
        nested(put_bits(f0, st0, code.take(k)).0, put_bits(f0, st0, code.take(j)).0),
    decreases j - k,
{
    if j == k {
        lemma_nested_refl(put_bits(f0, st0, code.take(k)).0);
    } else {
        lemma_put_bits_prefix_nested(f0, st0, code, k, j - 1);
        lemma_put_bits_prefix_wf(f0, st0, code, k);
        lemma_put_bits_prefix_wf(f0, st0, code, j - 1);
        lemma_put_bits_step(f0, st0, code, j - 1);
        let (f1, st1) = put_bits(f0, st0, code.take(j - 1));
        let (slot, bit) = code[j - 1];
        lemma_put_rac_narrows(f1, st1[slot], bit);
        lemma_interval_low_nonneg(put_bits(f0, st0, code.take(k)).0);
        lemma_nested_trans(put_bits(f0, st0, code.take(k)).0, f1, put_bits(f0, st0, code.take(j)).0);
    }
}

/// The encoder and the context after the first `k` decisions of `code`.
#[verifier::opaque]
pub open spec fn trace_at(f0: EncoderFields, st0: Seq<u8>, code: Seq<(int, bool)>, k: int) -> (EncoderFields, Seq<u8>) {
    put_bits(f0, st0, code.take(k))
}

/// Decision `k` of a code: where the decoder's registers mirror the encoder
/// after the first `k` decisions, and the code value lies in the interval
/// the whole code leaves, the decoder reads decision `k`'s bit from its slot
/// and mirrors the encoder after `k + 1` decisions.
pub proof fn lemma_code_step(
    f0: EncoderFields,
    st0: Seq<u8>,
    code: Seq<(int, bool)>,
    k: int,
    r: DecoderRegisters,
    input: Seq<u8>,
)
    requires
        encoder_fields_wf(f0),
        context_in_use(st0),
        code_slots_ok(code),
        0 <= k < code.len(),
        tracks(r, trace_at(f0, st0, code, k).0, input),
        code_in_interval(trace_at(f0, st0, code, code.len() as int).0, input),
    ensures
        ({
            let st = trace_at(f0, st0, code, k).1;
            let r2 = rac_decode(r, input, st[code[k].0]).1;
            &&& dec_rac(r, input, st, code[k].0) == Some((code[k].1, r2, trace_at(f0, st0, code, k + 1).1))
            &&& tracks(r2, trace_at(f0, st0, code, k + 1).0, input)
        }),
{
    reveal(trace_at);
    lemma_put_bits_prefix_wf(f0, st0, code, k);
    lemma_put_bits_step(f0, st0, code, k);
    let (f1, st1) = trace_at(f0, st0, code, k);
    let (slot, bit) = code[k];
    assert(0 <= slot < 32);
    lemma_put_bits_prefix_nested(f0, st0, code, k + 1, code.len() as int);
    lemma_in_interval_inherited(trace_at(f0, st0, code, k + 1).0, trace_at(f0, st0, code, code.len() as int).0, input);
    lemma_rac_roundtrip(f1, st1[slot], bit, r, input);
}

proof fn lemma_symbol_code_facts(v: int, is_signed: bool)
    requires
        i32::MIN <= v <= i32::MAX,
    ensures
        code_slots_ok(symbol_code(v, is_signed)),
        symbol_code(v, is_signed).len() == symbol_code_len(v, is_signed),
        v != 0 ==> symbol_magnitude(v, is_signed) >= 1,
        v != 0 ==> symbol_magnitude(v, is_signed) < 0x1_0000_0000,
        v != 0 ==> ilog2(symbol_magnitude(v, is_signed)) <= 31,
        v != 0 ==> pow2(ilog2(symbol_magnitude(v, is_signed))) <= symbol_magnitude(v, is_signed),
        v != 0 ==> symbol_magnitude(v, is_signed) < pow2(ilog2(symbol_magnitude(v, is_signed)) + 1),
{
    let code = symbol_code(v, is_signed);
    if v != 0 {
        lemma_ilog2_bounds(symbol_magnitude(v, is_signed));
    }
    assert forall|i: int| 0 <= i < code.len() implies 0 <= #[trigger] code[i].0 < 32 by {
        assert(code[i] == crate::range_coder::symbol_code_at(v, is_signed, i));
    }
}

proof fn lemma_symbol_code_entry(v: int, is_signed: bool, k: int)
    requires
        0 <= k < symbol_code_len(v, is_signed),
    ensures
        ({
            let a = symbol_magnitude(v, is_signed);
            let e = ilog2(a) as int;
            let c = symbol_code(v, is_signed)[k];
            &&& v == 0 ==> c == (0int, true)
            &&& (v != 0 && k == 0) ==> c == (0int, false)
            &&& (v != 0 && 1 <= k <= e) ==> c == (1 + capped(k - 1, 9), true)
            &&& (v != 0 && k == e + 1) ==> c == (1 + capped(e, 9), false)
            &&& (v != 0 && e + 2 <= k <= 2 * e + 1) ==> c == (22 + capped(2 * e + 1 - k, 9), bit_of(a, (2 * e + 1 - k) as nat))
            &&& (v != 0 && k == 2 * e + 2) ==> c == (11 + capped(e, 10), v < 0)
        }),
{
    assert(symbol_code(v, is_signed)[k] == crate::range_coder::symbol_code_at(v, is_signed, k));
}

/// The exponent's unary bits: read from exponent bit `j` on, the decoder
/// finds the exponent `e` and stops after decision `e + 1`.
proof fn lemma_exponent_roundtrip(
    f0: EncoderFields,
    st0: Seq<u8>,
    v: int,
    is_signed: bool,
    j: int,
    r: DecoderRegisters,
    input: Seq<u8>,
)
    requires
        encoder_fields_wf(f0),
        context_in_use(st0),
        i32::MIN <= v <= i32::MAX,
        v != 0,
        0 <= j <= ilog2(symbol_magnitude(v, is_signed)),
        tracks(r, trace_at(f0, st0, symbol_code(v, is_signed), j + 1).0, input),
        code_in_interval(trace_at(f0, st0, symbol_code(v, is_signed), symbol_code(v, is_signed).len() as int).0, input),
    ensures
        ({
            let code = symbol_code(v, is_signed);
            let e = ilog2(symbol_magnitude(v, is_signed)) as int;
            dec_exponent(r, input, trace_at(f0, st0, code, j + 1).1, j) matches Some((e2, r2, st2))
                && e2 == e
                && st2 == trace_at(f0, st0, code, e + 2).1
                && tracks(r2, trace_at(f0, st0, code, e + 2).0, input)
        }),
    decreases ilog2(symbol_magnitude(v, is_signed)) - j,
{
    let code = symbol_code(v, is_signed);
    let e = ilog2(symbol_magnitude(v, is_signed)) as int;
    lemma_symbol_code_facts(v, is_signed);
    lemma_symbol_code_entry(v, is_signed, j + 1);
    assert(code[j + 1] == (1 + capped(j, 9), j < e));
    lemma_code_step(f0, st0, code, j + 1, r, input);
    let st = trace_at(f0, st0, code, j + 1).1;
    let r2 = rac_decode(r, input, st[code[j + 1].0]).1;
    if j < e {
        lemma_exponent_roundtrip(f0, st0, v, is_signed, j + 1, r2, input);
    }
}

proof fn lemma_halving(a: nat, i: nat)
    ensures
        (a / pow2(i)) as int == 2 * ((a / pow2(i + 1)) as int) + (if bit_of(a, i) { 1int } else { 0int }),
{
    vstd::arithmetic::power2::lemma_pow2_pos(i);
    vstd::arithmetic::power2::lemma_pow2_unfold(i + 1);
    let q = a / pow2(i);
    vstd::arithmetic::div_mod::lemma_div_denominator(a as int, pow2(i) as int, 2);
    assert(pow2(i + 1) == pow2(i) * 2);
    assert(a / pow2(i + 1) == q / 2);
    vstd::arithmetic::div_mod::lemma_fundamental_div_mod(q as int, 2);
}

/// The bits under the top bit of the magnitude, highest first: from bit `i`
/// down, the decoder appends them to `acc`, which holds the bits above.
proof fn lemma_mantissa_roundtrip(
    f0: EncoderFields,
    st0: Seq<u8>,
    v: int,
    is_signed: bool,
    i: int,
    acc: int,
    r: DecoderRegisters,
    input: Seq<u8>,
)
    requires
        encoder_fields_wf(f0),
        context_in_use(st0),
        i32::MIN <= v <= i32::MAX,
        v != 0,
        -1 <= i < ilog2(symbol_magnitude(v, is_signed)),
        acc == symbol_magnitude(v, is_signed) / pow2((i + 1) as nat),
        tracks(r, trace_at(f0, st0, symbol_code(v, is_signed), 2 * ilog2(symbol_magnitude(v, is_signed)) + 1 - i).0, input),
        code_in_interval(trace_at(f0, st0, symbol_code(v, is_signed), symbol_code(v, is_signed).len() as int).0, input),
    ensures
        ({
            let code = symbol_code(v, is_signed);
            let e = ilog2(symbol_magnitude(v, is_signed)) as int;
            let k = 2 * e + 1 - i;
            dec_mantissa(r, input, trace_at(f0, st0, code, k).1, acc, i) matches Some((a2, r2, st2))
                && a2 == symbol_magnitude(v, is_signed)
                && st2 == trace_at(f0, st0, code, 2 * e + 2).1
                && tracks(r2, trace_at(f0, st0, code, 2 * e + 2).0, input)
        }),
    decreases i + 1,
{
    let code = symbol_code(v, is_signed);
    let a = symbol_magnitude(v, is_signed);
    let e = ilog2(a) as int;
    let k = 2 * e + 1 - i;
    lemma_symbol_code_facts(v, is_signed);
    if i < 0 {
        assert(pow2(0) == 1) by { vstd::arithmetic::power2::lemma2_to64(); }
        assert(((i + 1) as nat) == 0);
        vstd::arithmetic::div_mod::lemma_div_basics(a as int);
        assert(acc == a);
        assert(k == 2 * e + 2);
        let st = trace_at(f0, st0, code, k).1;
        assert(dec_mantissa(r, input, st, acc, i) == Some((acc, r, st)));
    } else {
        lemma_symbol_code_entry(v, is_signed, k);
        assert(code[k] == (22 + capped(i, 9), bit_of(a, i as nat)));
        lemma_code_step(f0, st0, code, k, r, input);
        let st = trace_at(f0, st0, code, k).1;
        let r2 = rac_decode(r, input, st[code[k].0]).1;
        lemma_halving(a, i as nat);
        assert(k + 1 == 2 * e + 1 - (i - 1));
        let acc2 = 2 * acc + (if bit_of(a, i as nat) { 1int } else { 0int });
        assert(acc2 == a / pow2(i as nat));
        lemma_mantissa_roundtrip(f0, st0, v, is_signed, i - 1, acc2, r2, input);
        let st_next = trace_at(f0, st0, code, k + 1).1;
        assert(dec_rac(r, input, st, 22 + capped(i, 9)) == Some((bit_of(a, i as nat), r2, st_next)));
        assert(dec_mantissa(r, input, st, acc, i) == dec_mantissa(r2, input, st_next, acc2, i - 1));
    }
}

/// `get_symbol` reads back the value that `put_symbol` coded: where the
/// decoder's registers mirror the encoder before the symbol and the code
/// value lies in the interval the symbol leaves, the decoder returns `v`,
/// the context as the encoder left it, and mirrors the encoder after it.
#[verifier::rlimit(60)]
pub proof fn lemma_symbol_roundtrip(
    f: EncoderFields,
    st: Seq<u8>,
    v: int,
    is_signed: bool,
    r: DecoderRegisters,
    input: Seq<u8>,
)
    requires
        encoder_fields_wf(f),
        context_in_use(st),
        i32::MIN <= v <= i32::MAX,
        tracks(r, f, input),
        code_in_interval(put_bits(f, st, symbol_code(v, is_signed)).0, input),
    ensures
        ({
            let (f2, st2) = put_bits(f, st, symbol_code(v, is_signed));
            get_symbol_result(r, input, st, is_signed) matches Some((v2, r2, st3))
                && v2 == v
                && st3 == st2
                && tracks(r2, f2, input)
        }),
{
    let code = symbol_code(v, is_signed);
    lemma_symbol_code_facts(v, is_signed);
    assert(trace_at(f, st, code, 0) == (f, st)) by {
        reveal(trace_at);
        assert(code.take(0) =~= Seq::<(int, bool)>::empty());
    }
    assert(trace_at(f, st, code, code.len() as int) == put_bits(f, st, code)) by {
        reveal(trace_at);
        assert(code.take(code.len() as int) =~= code);
    }
    lemma_symbol_code_entry(v, is_signed, 0);
    lemma_code_step(f, st, code, 0, r, input);
    let r1 = rac_decode(r, input, st[code[0].0]).1;
    if v != 0 {
        let a = symbol_magnitude(v, is_signed);
        let e = ilog2(a) as int;
        lemma_exponent_roundtrip(f, st, v, is_signed, 0, r1, input);
        let (ee, r2, st2) = dec_exponent(r1, input, trace_at(f, st, code, 1).1, 0).unwrap();
        vstd::arithmetic::power2::lemma_pow2_unfold((e + 1) as nat);
        vstd::arithmetic::power2::lemma_pow2_pos(e as nat);
        assert(a / pow2(e as nat) == 1) by {
            let p = pow2(e as nat) as int;
            vstd::arithmetic::div_mod::lemma_fundamental_div_mod(a as int, p);
            let q = (a as int) / p;
            let rem = (a as int) % p;
            assert(q == 1) by (nonlinear_arith)
                requires a == p * q + rem, 0 <= rem < p, p <= a < 2 * p;
        }
        assert(2 * e + 1 - (e - 1) == e + 2);
        lemma_mantissa_roundtrip(f, st, v, is_signed, e - 1, 1, r2, input);
        let (aa, r3, st3) = dec_mantissa(r2, input, st2, 1, e - 1).unwrap();
        if is_signed {
            lemma_symbol_code_entry(v, is_signed, 2 * e + 2);
            lemma_code_step(f, st, code, 2 * e + 2, r3, input);
        }
    }
}

proof fn lemma_prefix_value_take(input: Seq<u8>, k: nat)
    requires
        k <= input.len(),
    ensures
        prefix_value(input, k) == be_value(input.take(k as int)),
    decreases k,
{
    if k > 0 {
        lemma_prefix_value_take(input, (k - 1) as nat);
        assert(input.take(k as int).drop_last() =~= input.take(k - 1));
    }
}

/// The bytes that terminate the code: there is one more of them than bytes
/// had left the encoder's window, and the code value they spell out, read
/// with a zero after them, lies in the encoder's last interval.
pub proof fn lemma_finish_in_interval(f: EncoderFields, input: Seq<u8>)
    requires
        encoder_fields_wf(f),
        finish_bytes(f).len() <= input.len(),
        input.take(finish_bytes(f).len() as int) == finish_bytes(f),
        byte_or_zero(input, finish_bytes(f).len() as int) == 0,
    ensures
        finish_bytes(f).len() == shifted(f) + 1,
        code_in_interval(f, input),
{
    let g0 = EncoderFields { low: f.low + 0xFF, range: 0xFF, ..f };
    assert(renorm_ok(g0));
    lemma_renorm_interval(g0);
    let f1 = renorm_fields(g0);
    assert(f1.low == (g0.low % 256) * 256);
    let g1 = EncoderFields { range: 0xFF, ..f1 };
    lemma_renorm_interval(g1);
    let f2 = renorm_fields(g1);
    let bytes = finish_bytes(f);
    assert(bytes == f2.bytes);
    assert(f2.count == 0);
    assert(f2.low == 0);
    let ob2 = f2.ob;
    assert(0 <= ob2 <= 255);
    assert(bytes.len() == shifted(f) + 1);
    assert(pow256(0) == 1);
    assert(shifted_value(f2) == be_value(bytes) * 256 + ob2);
    assert(interval_low(g0) == interval_low(f) + 255);
    assert(be_value(bytes) * 256 + ob2 == interval_low(f) + 255);
    lemma_prefix_value_take(input, bytes.len());
    let x = prefix_value(input, shifted(f) + 2);
    assert(x == prefix_value(input, bytes.len()) * 256 + byte_or_zero(input, bytes.len() as int));
    assert(x == be_value(bytes) * 256);
}

/// `put_symbol` keeps the encoder and the context well formed, and the
/// interval it leaves lies within the one it found.
pub proof fn lemma_put_symbol_narrows(f: EncoderFields, st: Seq<u8>, v: int, is_signed: bool)
    requires
        encoder_fields_wf(f),
        context_in_use(st),
        i32::MIN <= v <= i32::MAX,
    ensures
        encoder_fields_wf(put_bits(f, st, symbol_code(v, is_signed)).0),
        context_in_use(put_bits(f, st, symbol_code(v, is_signed)).1),
        nested(f, put_bits(f, st, symbol_code(v, is_signed)).0),
{
    let code = symbol_code(v, is_signed);
    lemma_symbol_code_facts(v, is_signed);
    assert(code.take(0) =~= Seq::<(int, bool)>::empty());
    assert(code.take(code.len() as int) =~= code);
    lemma_put_bits_prefix_wf(f, st, code, code.len() as int);
    lemma_put_bits_prefix_nested(f, st, code, 0, code.len() as int);
}

/// `get_rac` on slot `slots[0]`, then `slots[1]`, and so on, of one context:
/// the bits read, the registers and the context after them; `None` where a
/// refill would overflow the decoder's 32-bit `low`.
pub open spec fn dec_slots(r: DecoderRegisters, input: Seq<u8>, st: Seq<u8>, slots: Seq<int>) -> Option<(Seq<bool>, DecoderRegisters, Seq<u8>)>
    decreases slots.len(),
{
    if slots.len() == 0 {
        Some((Seq::empty(), r, st))
    } else {
        match dec_slots(r, input, st, slots.drop_last()) {
            None => None,
            Some((bits, r1, st1)) => match dec_rac(r1, input, st1, slots.last()) {
                None => None,
                Some((b, r2, st2)) => Some((bits.push(b), r2, st2)),
            },
        }
    }
}

/// The registers of a decoder started on `input` (see `RangeDecoderCpu::new`).
pub open spec fn decoder_start(input: Seq<u8>) -> DecoderRegisters {
    DecoderRegisters { low: input[0] as int * 256 + input[1] as int, range: 0xFF00, pos: 2 }
}

proof fn lemma_dec_slots_prefix(
    st: Seq<u8>,
    code: Seq<(int, bool)>,
    input: Seq<u8>,
    k: int,
)
    requires
        context_in_use(st),
        code_slots_ok(code),
        0 <= k <= code.len(),
        input.len() >= 2,
        tracks(decoder_start(input), initial_encoder(), input),
        code_in_interval(trace_at(initial_encoder(), st, code, code.len() as int).0, input),
    ensures
        ({
            let slots = code.map_values(|c: (int, bool)| c.0);
            let bits = code.map_values(|c: (int, bool)| c.1);
            dec_slots(decoder_start(input), input, st, slots.take(k)) matches Some((b, r, st2))
                && b == bits.take(k)
                && st2 == trace_at(initial_encoder(), st, code, k).1
                && tracks(r, trace_at(initial_encoder(), st, code, k).0, input)
        }),
    decreases k,
{
    let slots = code.map_values(|c: (int, bool)| c.0);
    let bits = code.map_values(|c: (int, bool)| c.1);
    let f0 = initial_encoder();
    if k == 0 {
        assert(slots.take(0) =~= Seq::<int>::empty());
        assert(bits.take(0) =~= Seq::<bool>::empty());
        assert(trace_at(f0, st, code, 0) == (f0, st)) by {
            reveal(trace_at);
            assert(code.take(0) =~= Seq::<(int, bool)>::empty());
        }
    } else {
        lemma_dec_slots_prefix(st, code, input, k - 1);
        let (b, r, st1) = dec_slots(decoder_start(input), input, st, slots.take(k - 1)).unwrap();
        assert(encoder_fields_wf(f0));
        lemma_code_step(f0, st, code, k - 1, r, input);
        assert(slots.take(k).drop_last() =~= slots.take(k - 1));
        assert(slots.take(k).last() == code[k - 1].0);
        assert(bits.take(k) =~= bits.take(k - 1).push(code[k - 1].1));
    }
}

/// The range coder decodes what it encoded: code any decisions (a bit in
/// one of the 32 states of a context each) from a fresh encoder, terminate
/// the code, and a decoder started on those bytes, followed by zeros,
/// reads every bit back in order, leaving the context as the encoder did.
pub proof fn lemma_bits_roundtrip(st: Seq<u8>, code: Seq<(int, bool)>, zeros: nat)
    requires
        context_in_use(st),
        code_slots_ok(code),
        zeros >= 1,
    ensures
        ({
            let (f, st2) = put_bits(initial_encoder(), st, code);
            let input = finish_bytes(f) + Seq::new(zeros, |i: int| 0u8);
            let slots = code.map_values(|c: (int, bool)| c.0);
            dec_slots(decoder_start(input), input, st, slots) matches Some((bits, r, st3))
                && bits == code.map_values(|c: (int, bool)| c.1)
                && st3 == st2
        }),
{
    let f0 = initial_encoder();
    let (f, st2) = put_bits(f0, st, code);
    let bytes = finish_bytes(f);
    let input = bytes + Seq::new(zeros, |i: int| 0u8);
    let slots = code.map_values(|c: (int, bool)| c.0);
    let bits = code.map_values(|c: (int, bool)| c.1);
    assert(trace_at(f0, st, code, code.len() as int) == (f, st2)) by {
        reveal(trace_at);
        assert(code.take(code.len() as int) =~= code);
    }
    assert(encoder_fields_wf(f0));
    lemma_put_bits_prefix_wf(f0, st, code, code.len() as int);
    assert(code.take(code.len() as int) =~= code);
    assert(input.take(bytes.len() as int) =~= bytes);
    assert(byte_or_zero(input, bytes.len() as int) == 0);
    lemma_finish_in_interval(f, input);
    assert(input.len() >= 2);
    assert(prefix_value(input, 2) == input[0] as int * 256 + input[1] as int) by {
        reveal_with_fuel(prefix_value, 3);
    }
    assert(pow256(0) == 1);
    assert(tracks(decoder_start(input), f0, input));
    lemma_dec_slots_prefix(st, code, input, code.len() as int);
    assert(slots.take(code.len() as int) =~= slots);
    assert(bits.take(code.len() as int) =~= bits);
}

} // verus!
