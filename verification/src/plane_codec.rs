//! The pixel loop of an FFV1 plane: each sample is predicted from its
//! neighbours with the median edge detector, a context is chosen from the
//! quantised neighbour gradients, and the prediction error is coded with
//! `put_symbol` / `get_symbol` in that context's adaptive states.
//!
//! The output is the bare range-coder stream (no slice header, no CRC); the
//! decoder is told the plane's width and height.

use vstd::prelude::*;
use crate::range_coder::{
    DecoderRegisters, EncoderFields, RangeDecoderCpu, RangeEncoderCpu, context_in_use, finish_bytes,
    get_symbol, get_symbol_result, initial_encoder, put_bits, put_symbol, symbol_code, try_get_symbol,
    symbol_code_len, state_in_use, encoder_fields_wf, byte_or_zero, prefix_value,
};
use crate::coding_interval::{
    code_in_interval, lemma_finish_in_interval, lemma_in_interval_inherited,
    lemma_interval_low_nonneg, lemma_nested_refl, lemma_nested_trans, lemma_put_symbol_narrows,
    lemma_symbol_roundtrip, nested, tracks,
};

verus! {

/// The default `quant11` table of FFV1 (8-bit samples): a difference `d`,
/// taken modulo 256, is quantised to one of 11 levels in `-5..=5`.
pub const QUANT11: [i8; 256] = [
      0,   1,   2,   2,   2,   3,   3,   3,   3,   3,   3,   3,   4,   4,   4,   4,
      4,   4,   4,   4,   4,   4,   4,   4,   4,   4,   4,   4,   4,   4,   4,   4,
      4,   4,   4,   5,   5,   5,   5,   5,   5,   5,   5,   5,   5,   5,   5,   5,
      5,   5,   5,   5,   5,   5,   5,   5,   5,   5,   5,   5,   5,   5,   5,   5,
      5,   5,   5,   5,   5,   5,   5,   5,   5,   5,   5,   5,   5,   5,   5,   5,
      5,   5,   5,   5,   5,   5,   5,   5,   5,   5,   5,   5,   5,   5,   5,   5,
      5,   5,   5,   5,   5,   5,   5,   5,   5,   5,   5,   5,   5,   5,   5,   5,
      5,   5,   5,   5,   5,   5,   5,   5,   5,   5,   5,   5,   5,   5,   5,   5,
     -5,  -5,  -5,  -5,  -5,  -5,  -5,  -5,  -5,  -5,  -5,  -5,  -5,  -5,  -5,  -5,
     -5,  -5,  -5,  -5,  -5,  -5,  -5,  -5,  -5,  -5,  -5,  -5,  -5,  -5,  -5,  -5,
     -5,  -5,  -5,  -5,  -5,  -5,  -5,  -5,  -5,  -5,  -5,  -5,  -5,  -5,  -5,  -5,
     -5,  -5,  -5,  -5,  -5,  -5,  -5,  -5,  -5,  -5,  -5,  -5,  -5,  -5,  -5,  -5,
     -5,  -5,  -5,  -5,  -5,  -5,  -5,  -5,  -5,  -5,  -5,  -5,  -5,  -5,  -5,  -5,
     -5,  -5,  -5,  -5,  -5,  -5,  -5,  -5,  -5,  -5,  -5,  -5,  -5,  -5,  -4,  -4,
     -4,  -4,  -4,  -4,  -4,  -4,  -4,  -4,  -4,  -4,  -4,  -4,  -4,  -4,  -4,  -4,
     -4,  -4,  -4,  -4,  -4,  -3,  -3,  -3,  -3,  -3,  -3,  -3,  -2,  -2,  -2,  -1,
];

/// The default `quant5` table of FFV1 (8-bit samples): a difference `d`,
/// taken modulo 256, is quantised to one of 5 levels in `-2..=2`.
pub const QUANT5: [i8; 256] = [
      0,   1,   1,   1,   2,   2,   2,   2,   2,   2,   2,   2,   2,   2,   2,   2,
      2,   2,   2,   2,   2,   2,   2,   2,   2,   2,   2,   2,   2,   2,   2,   2,
      2,   2,   2,   2,   2,   2,   2,   2,   2,   2,   2,   2,   2,   2,   2,   2,
      2,   2,   2,   2,   2,   2,   2,   2,   2,   2,   2,   2,   2,   2,   2,   2,
      2,   2,   2,   2,   2,   2,   2,   2,   2,   2,   2,   2,   2,   2,   2,   2,
      2,   2,   2,   2,   2,   2,   2,   2,   2,   2,   2,   2,   2,   2,   2,   2,
      2,   2,   2,   2,   2,   2,   2,   2,   2,   2,   2,   2,   2,   2,   2,   2,
      2,   2,   2,   2,   2,   2,   2,   2,   2,   2,   2,   2,   2,   2,   2,   2,
     -2,  -2,  -2,  -2,  -2,  -2,  -2,  -2,  -2,  -2,  -2,  -2,  -2,  -2,  -2,  -2,
     -2,  -2,  -2,  -2,  -2,  -2,  -2,  -2,  -2,  -2,  -2,  -2,  -2,  -2,  -2,  -2,
     -2,  -2,  -2,  -2,  -2,  -2,  -2,  -2,  -2,  -2,  -2,  -2,  -2,  -2,  -2,  -2,
     -2,  -2,  -2,  -2,  -2,  -2,  -2,  -2,  -2,  -2,  -2,  -2,  -2,  -2,  -2,  -2,
     -2,  -2,  -2,  -2,  -2,  -2,  -2,  -2,  -2,  -2,  -2,  -2,  -2,  -2,  -2,  -2,
     -2,  -2,  -2,  -2,  -2,  -2,  -2,  -2,  -2,  -2,  -2,  -2,  -2,  -2,  -2,  -2,
     -2,  -2,  -2,  -2,  -2,  -2,  -2,  -2,  -2,  -2,  -2,  -2,  -2,  -2,  -2,  -2,
     -2,  -2,  -2,  -2,  -2,  -2,  -2,  -2,  -2,  -2,  -2,  -2,  -2,  -1,  -1,  -1,
];

/// Number of contexts that [`compute_context`] can select:
/// `ceil(11 * 11 * 5 * 5 * 5 / 2)`.
pub const CONTEXT_COUNT: usize = 7563;

/// Every entry of `QUANT11` lies in `[-5, 5]` and every entry of `QUANT5` in
/// `[-2, 2]`.
pub proof fn lemma_quant_tables_bounds()
    ensures
        forall|i: int| 0 <= i < 256 ==> -5 <= #[trigger] QUANT11[i] <= 5,
        forall|i: int| 0 <= i < 256 ==> -2 <= #[trigger] QUANT5[i] <= 2,
{
}

/// `x` is a value of `i32`.
pub open spec fn fits_i32(x: int) -> bool {
    i32::MIN <= x <= i32::MAX
}

/// The median of `left`, `top` and `left + top - topleft`.
pub open spec fn med_pred(left: int, top: int, topleft: int) -> int {
    let mx = if left >= top { left } else { top };
    let mn = if left <= top { left } else { top };
    if topleft >= mx {
        mn
    } else if topleft <= mn {
        mx
    } else {
        left + top - topleft
    }
}

/// The prediction is computed without leaving `i32` (the third case
/// computes `left + top`, then subtracts `topleft`).
pub open spec fn med_fits(left: int, top: int, topleft: int) -> bool {
    let mx = if left >= top { left } else { top };
    let mn = if left <= top { left } else { top };
    topleft >= mx || topleft <= mn || (fits_i32(left + top) && fits_i32(left + top - topleft))
}

/// MED (median edge detector) prediction: `mid_pred(L, L + T - LT, T)`.
pub fn med_predict(left: i32, top: i32, topleft: i32) -> (p: i32)
    requires
        med_fits(left as int, top as int, topleft as int),
    ensures
        p as int == med_pred(left as int, top as int, topleft as int),
{
    let mx = if left >= top { left } else { top };
    let mn = if left <= top { left } else { top };
    if topleft >= mx {
        mn
    } else if topleft <= mn {
        mx
    } else {
        left + top - topleft
    }
}

/// `quant11[d & 255]`.
pub open spec fn q11_spec(d: int) -> int {
    QUANT11[d % 256] as int
}

/// `quant5[d & 255]`.
pub open spec fn q5_spec(d: int) -> int {
    QUANT5[d % 256] as int
}

/// The smaller of two values.
pub open spec fn min2(a: int, b: int) -> int {
    if a <= b { a } else { b }
}

/// The larger of two values.
pub open spec fn max2(a: int, b: int) -> int {
    if a >= b { a } else { b }
}

/// The MED prediction is the median of `left`, `top` and the gradient
/// `left + top - topleft`: it lies between their minimum and maximum, is
/// one of the three, and equals their sum less the minimum and the
/// maximum.
pub proof fn lemma_med_pred_is_median(left: int, top: int, topleft: int)
    ensures
        ({
            let g = left + top - topleft;
            let p = med_pred(left, top, topleft);
            let lo = min2(min2(left, top), g);
            let hi = max2(max2(left, top), g);
            &&& lo <= p <= hi
            &&& (p == left || p == top || p == g)
            &&& p == left + top + g - lo - hi
        }),
{
}

/// Quantises a difference to 11 levels.
pub fn q11(d: i32) -> (q: i32)
    ensures
        q as int == q11_spec(d as int),
        -5 <= q <= 5,
{
    let idx = (d as u32) & 0xFF;
    assert(((d as u32) & 0xFF) as int == (d as int) % 256) by (bit_vector);
    proof { lemma_quant_tables_bounds(); }
    QUANT11[idx as usize] as i32
}

/// Quantises a difference to 5 levels.
pub fn q5(d: i32) -> (q: i32)
    ensures
        q as int == q5_spec(d as int),
        -2 <= q <= 2,
{
    let idx = (d as u32) & 0xFF;
    assert(((d as u32) & 0xFF) as int == (d as int) % 256) by (bit_vector);
    proof { lemma_quant_tables_bounds(); }
    QUANT5[idx as usize] as i32
}

/// The six causal neighbours of a sample: left, top, top-left, top-right,
/// two to the left, two above.
pub struct Neighbours {
    pub left: int,
    pub top: int,
    pub topleft: int,
    pub topright: int,
    pub ll: int,
    pub tt: int,
}

/// The sample at `(xx, yy)` where it lies inside the plane's columns and at
/// or below row 0.
pub open spec fn sample_at(img: Seq<i32>, w: int, xx: int, yy: int) -> Option<int> {
    if 0 <= xx < w && yy >= 0 { Some(img[yy * w + xx] as int) } else { None }
}

/// `a`, or `b` where `a` is `None`.
pub open spec fn or_opt(a: Option<int>, b: Option<int>) -> Option<int> {
    if a is Some { a } else { b }
}

/// The value in `a`, or `d`.
pub open spec fn or_default(a: Option<int>, d: int) -> int {
    match a {
        Some(v) => v,
        None => d,
    }
}

/// The neighbours of `(x, y)`, each missing one replaced by an already
/// coded neighbour (or 0 at the very first sample), so that encoder and
/// decoder see the same values.
pub open spec fn neighbours_of(img: Seq<i32>, w: int, x: int, y: int) -> Neighbours {
    let raw_left = sample_at(img, w, x - 1, y);
    let raw_top = sample_at(img, w, x, y - 1);
    let raw_topleft = sample_at(img, w, x - 1, y - 1);
    let raw_topright = sample_at(img, w, x + 1, y - 1);
    let raw_ll = sample_at(img, w, x - 2, y);
    let raw_tt = sample_at(img, w, x, y - 2);
    let left = or_default(or_opt(raw_left, raw_top), 0);
    let top = or_default(or_opt(raw_top, raw_left), 0);
    let topleft = or_default(or_opt(or_opt(raw_topleft, raw_left), raw_top), 0);
    let topright = or_default(or_opt(raw_topright, raw_top), top);
    let ll = or_default(or_opt(raw_ll, raw_left), left);
    let tt = or_default(or_opt(raw_tt, raw_top), top);
    Neighbours { left, top, topleft, topright, ll, tt }
}

/// The signed context of a sample (FFV1's `get_context` with the default
/// tables): `q11(L-LT) + 11 q11(LT-T) + 121 q5(T-RT) + 605 q5(LL-L) + 3025 q5(TT-T)`.
pub open spec fn signed_context(n: Neighbours) -> int {
    q11_spec(n.left - n.topleft) + 11 * q11_spec(n.topleft - n.top) + 121 * q5_spec(n.top - n.topright)
        + 605 * q5_spec(n.ll - n.left) + 3025 * q5_spec(n.tt - n.top)
}

/// The five gradients are computed without leaving `i32`.
pub open spec fn context_fits(n: Neighbours) -> bool {
    &&& fits_i32(n.left - n.topleft)
    &&& fits_i32(n.topleft - n.top)
    &&& fits_i32(n.top - n.topright)
    &&& fits_i32(n.ll - n.left)
    &&& fits_i32(n.tt - n.top)
}

/// The context index and whether the sign is flipped: a negative context
/// uses the states of its opposite with the coded difference negated.
pub open spec fn context_of(n: Neighbours) -> (int, bool) {
    let ctx = signed_context(n);
    if ctx < 0 { (-ctx, true) } else { (ctx, false) }
}

/// FFV1's `get_context` with the default quantisation tables; a negative
/// context is mirrored, and the flag says so.
pub fn compute_context(left: i32, top: i32, topleft: i32, topright: i32, ll: i32, tt: i32) -> (r: (usize, bool))
    requires
        context_fits(Neighbours { left: left as int, top: top as int, topleft: topleft as int, topright: topright as int, ll: ll as int, tt: tt as int }),
    ensures
        r.0 < CONTEXT_COUNT,
        (r.0 as int, r.1) == context_of(Neighbours { left: left as int, top: top as int, topleft: topleft as int, topright: topright as int, ll: ll as int, tt: tt as int }),
{
    let ctx = q11(left - topleft) + 11 * q11(topleft - top) + 121 * q5(top - topright) + 605 * q5(ll - left)
        + 3025 * q5(tt - top);
    if ctx < 0 {
        ((-ctx) as usize, true)
    } else {
        (ctx as usize, false)
    }
}


/// `o` as an optional mathematical integer.
pub open spec fn opt_int(o: Option<i32>) -> Option<int> {
    match o {
        Some(v) => Some(v as int),
        None => None,
    }
}

proof fn lemma_index_in_plane(w: int, xx: int, yy: int, y: int)
    requires
        0 <= xx < w,
        0 <= yy <= y,
    ensures
        0 <= yy * w + xx < (y + 1) * w,
{
    assert(0 <= yy * w) by (nonlinear_arith) requires 0 <= yy, 0 <= w;
    assert(yy * w + xx < (y + 1) * w) by (nonlinear_arith) requires 0 <= xx < w, 0 <= yy <= y;
}

fn sample(image: &[i32], w: i64, xx: i64, yy: i64) -> (r: Option<i32>)
    requires
        1 <= w,
        -2 <= xx <= w + 1,
        -2 <= yy <= i32::MAX,
        image@.len() <= i32::MAX,
        (0 <= xx < w && 0 <= yy) ==> yy * w + xx < image@.len(),
    ensures
        opt_int(r) == sample_at(image@, w as int, xx as int, yy as int),
{
    if xx >= 0 && xx < w && yy >= 0 {
        assert(0 <= yy * w) by (nonlinear_arith) requires 0 <= yy, 0 <= w;
        Some(image[(yy * w + xx) as usize])
    } else {
        None
    }
}

fn or_else(a: Option<i32>, b: Option<i32>) -> (r: Option<i32>)
    ensures
        opt_int(r) == or_opt(opt_int(a), opt_int(b)),
{
    match a {
        Some(v) => Some(v),
        None => b,
    }
}

fn unwrap_or_default(a: Option<i32>, d: i32) -> (r: i32)
    ensures
        r as int == or_default(opt_int(a), d as int),
{
    match a {
        Some(v) => v,
        None => d,
    }
}

/// The six causal neighbours of `(x, y)` (see [`neighbours_of`]): left, top,
/// top-left, top-right, two to the left, two above.
pub fn neighbors(image: &[i32], width: i64, x: i64, y: i64) -> (n: (i32, i32, i32, i32, i32, i32))
    requires
        0 <= x < width,
        0 <= y,
        y * width + x <= image@.len() <= i32::MAX,
    ensures
        neighbours_of(image@, width as int, x as int, y as int) == (Neighbours {
            left: n.0 as int,
            top: n.1 as int,
            topleft: n.2 as int,
            topright: n.3 as int,
            ll: n.4 as int,
            tt: n.5 as int,
        }),
{
    proof {
        assert(0 <= y * width) by (nonlinear_arith) requires 0 <= y, 0 <= width;
        assert((y - 1) * width == y * width - width) by (nonlinear_arith);
        assert((y - 2) * width == y * width - 2 * width) by (nonlinear_arith);
        assert(y <= y * width) by (nonlinear_arith) requires 0 <= y, 1 <= width;
    }
    let raw_left = sample(image, width, x - 1, y);
    let raw_top = sample(image, width, x, y - 1);
    let raw_topleft = sample(image, width, x - 1, y - 1);
    let raw_topright = sample(image, width, x + 1, y - 1);
    let raw_ll = sample(image, width, x - 2, y);
    let raw_tt = sample(image, width, x, y - 2);
    let left = unwrap_or_default(or_else(raw_left, raw_top), 0);
    let top = unwrap_or_default(or_else(raw_top, raw_left), 0);
    let topleft = unwrap_or_default(or_else(or_else(raw_topleft, raw_left), raw_top), 0);
    let topright = unwrap_or_default(or_else(raw_topright, raw_top), top);
    let ll = unwrap_or_default(or_else(raw_ll, raw_left), left);
    let tt = unwrap_or_default(or_else(raw_tt, raw_top), top);
    (left, top, topleft, topright, ll, tt)
}

/// The 32 states of every context before the first sample: all 128.
pub open spec fn initial_contexts() -> Seq<Seq<u8>> {
    Seq::new(CONTEXT_COUNT as nat, |i: int| Seq::new(32, |j: int| 128u8))
}

/// The contexts held in a vector of state arrays.
pub open spec fn contexts_view(v: Seq<[u8; 32]>) -> Seq<Seq<u8>> {
    v.map_values(|a: [u8; 32]| a@)
}

/// The context index and the value that the encoder codes for sample `p`.
pub open spec fn pixel_symbol(img: Seq<i32>, w: int, p: int) -> (int, int) {
    let n = neighbours_of(img, w, p % w, p / w);
    let pred = med_pred(n.left, n.top, n.topleft);
    let diff = img[p] - pred;
    let (ctx, flip) = context_of(n);
    (ctx, if flip { -diff } else { diff })
}

/// Coding sample `p` stays within `i32`: the prediction, the difference,
/// the gradients and the mirrored difference.
pub open spec fn pixel_fits(img: Seq<i32>, w: int, p: int) -> bool {
    let n = neighbours_of(img, w, p % w, p / w);
    let pred = med_pred(n.left, n.top, n.topleft);
    let diff = img[p] - pred;
    let (ctx, flip) = context_of(n);
    &&& med_fits(n.left, n.top, n.topleft)
    &&& fits_i32(diff)
    &&& context_fits(n)
    &&& (flip ==> fits_i32(-diff))
}

/// Every sample of the plane can be coded within `i32`.
pub open spec fn encode_fits(img: Seq<i32>, w: int) -> bool {
    forall|p: int| 0 <= p < img.len() ==> #[trigger] pixel_fits(img, w, p)
}

/// The encoder and the contexts after the first `n` samples.
pub open spec fn enc_pixels(img: Seq<i32>, w: int, n: nat) -> (EncoderFields, Seq<Seq<u8>>)
    decreases n,
{
    if n == 0 {
        (initial_encoder(), initial_contexts())
    } else {
        let (f, sts) = enc_pixels(img, w, (n - 1) as nat);
        let (ctx, v) = pixel_symbol(img, w, n - 1);
        let (f2, st2) = put_bits(f, sts[ctx], symbol_code(v, true));
        (f2, sts.update(ctx, st2))
    }
}

/// The bytes [`encode_plane`] produces for a plane of width `w`.
pub open spec fn encoded_plane(img: Seq<i32>, w: int) -> Seq<u8> {
    finish_bytes(enc_pixels(img, w, img.len()).0)
}

fn new_contexts() -> (states: Vec<[u8; 32]>)
    ensures
        contexts_view(states@) == initial_contexts(),
        states@.len() == CONTEXT_COUNT,
        forall|k: int| 0 <= k < CONTEXT_COUNT ==> context_in_use(#[trigger] states@[k]@),
{
    let mut states: Vec<[u8; 32]> = Vec::new();
    let mut i: usize = 0;
    while i < CONTEXT_COUNT
        invariant
            i <= CONTEXT_COUNT,
            states@.len() == i,
            forall|k: int| 0 <= k < i ==> #[trigger] states@[k]@ == Seq::new(32, |j: int| 128u8),
        decreases CONTEXT_COUNT - i,
    {
        let a = [128u8; 32];
        assert(a@ =~= Seq::new(32, |j: int| 128u8));
        states.push(a);
        i = i + 1;
    }
    assert(contexts_view(states@) =~= initial_contexts());
    assert forall|k: int| 0 <= k < CONTEXT_COUNT implies context_in_use(#[trigger] states@[k]@) by {
        assert(states@[k]@ == Seq::new(32, |j: int| 128u8));
    }
    states
}

proof fn lemma_pixel_coords(w: int, x: int, y: int)
    requires
        0 <= x < w,
        0 <= y,
    ensures
        (y * w + x) % w == x,
        (y * w + x) / w == y,
{
    vstd::arithmetic::div_mod::lemma_fundamental_div_mod_converse_mod(y * w + x, w, y, x);
    vstd::arithmetic::div_mod::lemma_fundamental_div_mod_converse_div(y * w + x, w, y, x);
}

#[verifier::rlimit(40)]
fn encode_sample(
    enc: &mut RangeEncoderCpu,
    states: &mut Vec<[u8; 32]>,
    image: &[i32],
    w: i64,
    h: i64,
    x: i64,
    y: i64,
)
    requires
        0 <= x < w,
        0 <= y < h,
        image@.len() == w * h,
        (y + 1) * w <= w * h,
        w * h <= i32::MAX,
        encode_fits(image@, w as int),
        old(enc).wf(),
        old(enc).pending() + 66 <= u64::MAX,
        old(states)@.len() == CONTEXT_COUNT,
        forall|k: int| 0 <= k < CONTEXT_COUNT ==> context_in_use(#[trigger] old(states)@[k]@),
        (old(enc).fields(), contexts_view(old(states)@)) == enc_pixels(image@, w as int, (y * w + x) as nat),
    ensures
        final(enc).wf(),
        final(enc).pending() <= old(enc).pending() + 65,
        final(states)@.len() == CONTEXT_COUNT,
        forall|k: int| 0 <= k < CONTEXT_COUNT ==> context_in_use(#[trigger] final(states)@[k]@),
        (final(enc).fields(), contexts_view(final(states)@)) == enc_pixels(image@, w as int, (y * w + x + 1) as nat),
{
    let ghost img = image@;
    let ghost p = y * w + x;
    proof {
        lemma_pixel_coords(w as int, x as int, y as int);
        lemma_index_in_plane(w as int, x as int, y as int, y as int);
        assert(pixel_fits(img, w as int, p));
    }
    let (left, top, topleft, topright, ll, tt) = neighbors(image, w, x, y);
    let pred = med_predict(left, top, topleft);
    let actual = image[(y * w + x) as usize];
    let diff = actual - pred;
    let (ctx, flip) = compute_context(left, top, topleft, topright, ll, tt);
    let v = if flip { -diff } else { diff };
    let mut st = states[ctx];
    proof {
        assert(pixel_symbol(img, w as int, p) == (ctx as int, v as int));
        assert(st@ == contexts_view(states@)[ctx as int]);
    }
    put_symbol(enc, &mut st, v, true);
    let ghost before = states@;
    states.set(ctx, st);
    proof {
        assert(contexts_view(states@) =~= contexts_view(before).update(ctx as int, st@));
        assert forall|k: int| 0 <= k < CONTEXT_COUNT implies context_in_use(#[trigger] states@[k]@) by {
            if k != ctx as int {
        assert(states@[k] == before[k]);
            }
        }
    }
}

fn fits_i32_exec(x: i64) -> (b: bool)
    ensures
        b == fits_i32(x as int),
{
    -2147483648i64 <= x && x <= 2147483647i64
}

fn pixel_fits_exec(image: &[i32], w: i64, h: i64, x: i64, y: i64) -> (b: bool)
    requires
        0 <= x < w,
        0 <= y < h,
        image@.len() == w * h,
        (y + 1) * w <= w * h,
        w * h <= i32::MAX,
    ensures
        b == pixel_fits(image@, w as int, y * w + x),
{
    proof {
        lemma_pixel_coords(w as int, x as int, y as int);
        lemma_index_in_plane(w as int, x as int, y as int, y as int);
    }
    let (left, top, topleft, topright, ll, tt) = neighbors(image, w, x, y);
    let l = left as i64;
    let t = top as i64;
    let tl = topleft as i64;
    let mx = if l >= t { l } else { t };
    let mn = if l <= t { l } else { t };
    let pred: i64 = if tl >= mx {
        mn
    } else if tl <= mn {
        mx
    } else {
        if !fits_i32_exec(l + t) || !fits_i32_exec(l + t - tl) {
            return false;
        }
        l + t - tl
    };
    let diff = image[(y * w + x) as usize] as i64 - pred;
    if !fits_i32_exec(diff) {
        return false;
    }
    if !fits_i32_exec(l - tl) || !fits_i32_exec(tl - t) || !fits_i32_exec(t - topright as i64)
        || !fits_i32_exec(ll as i64 - l) || !fits_i32_exec(tt as i64 - t) {
        return false;
    }
    let (_, flip) = compute_context(left, top, topleft, topright, ll, tt);
    !flip || fits_i32_exec(-diff)
}

/// Whether every sample of the plane can be coded within `i32`, which
/// [`encode_plane`] requires (see [`encode_fits`]).
pub fn plane_fits(image: &[i32], width: u32, height: u32) -> (b: bool)
    requires
        width as int * height as int <= i32::MAX,
        image@.len() == width as int * height as int,
    ensures
        b == encode_fits(image@, width as int),
{
    let w = width as i64;
    let h = height as i64;
    let ghost img = image@;
    let mut y: i64 = 0;
    while y < h
        invariant
            0 <= y <= h,
            w == width as i64,
            h == height as i64,
            img == image@,
            img.len() == w * h,
            w * h <= i32::MAX,
            forall|q: int| 0 <= q < y * w ==> #[trigger] pixel_fits(img, w as int, q),
        decreases h - y,
    {
        assert(y * w + w == (y + 1) * w) by (nonlinear_arith);
        assert((y + 1) * w <= h * w) by (nonlinear_arith) requires y < h, 0 <= w;
        let mut x: i64 = 0;
        while x < w
            invariant
                0 <= x <= w,
                0 <= y < h,
                w == width as i64,
                h == height as i64,
                img == image@,
                img.len() == w * h,
                (y + 1) * w <= w * h,
                w * h <= i32::MAX,
                forall|q: int| 0 <= q < y * w + x ==> #[trigger] pixel_fits(img, w as int, q),
            decreases w - x,
        {
            if !pixel_fits_exec(image, w, h, x, y) {
                proof {
                    lemma_index_in_plane(w as int, x as int, y as int, y as int);
                    assert(!pixel_fits(img, w as int, y * w + x));
                }
                return false;
            }
            x = x + 1;
        }
        y = y + 1;
    }
    proof {
        assert(y * w == w * h) by (nonlinear_arith) requires y == h;
    }
    true
}

/// Codes a plane (row-major samples) with FFV1's prediction, context model
/// and default quantisation tables, and returns the range-coded bytes.
pub fn encode_plane(image: &[i32], width: u32, height: u32) -> (out: Vec<u8>)
    requires
        width as int * height as int <= i32::MAX,
        image@.len() == width as int * height as int,
        encode_fits(image@, width as int),
    ensures
        out@ == encoded_plane(image@, width as int),
{
    let w = width as i64;
    let h = height as i64;
    let mut enc = RangeEncoderCpu::new();
    let mut states = new_contexts();
    let ghost img = image@;
    assert(65 * img.len() + 68 <= u64::MAX);
    let mut y: i64 = 0;
    while y < h
        invariant
            0 <= y <= h,
            w == width as i64,
            h == height as i64,
            img == image@,
            img.len() == w * h,
            w * h <= i32::MAX,
            encode_fits(img, w as int),
            65 * img.len() + 68 <= u64::MAX,
            enc.wf(),
            states@.len() == CONTEXT_COUNT,
            forall|k: int| 0 <= k < CONTEXT_COUNT ==> context_in_use(#[trigger] states@[k]@),
            (enc.fields(), contexts_view(states@)) == enc_pixels(img, w as int, (y * w) as nat),
            enc.pending() <= 65 * (y * w),
        decreases h - y,
    {
        assert(y * w + w == (y + 1) * w) by (nonlinear_arith);
        assert((y + 1) * w <= h * w) by (nonlinear_arith) requires y < h, 0 <= w;
        let mut x: i64 = 0;
        while x < w
            invariant
                0 <= x <= w,
                0 <= y < h,
                w == width as i64,
                img == image@,
                img.len() == w * h,
                (y + 1) * w <= w * h,
                w * h <= i32::MAX,
                encode_fits(img, w as int),
                65 * img.len() + 68 <= u64::MAX,
                enc.wf(),
                states@.len() == CONTEXT_COUNT,
                forall|k: int| 0 <= k < CONTEXT_COUNT ==> context_in_use(#[trigger] states@[k]@),
                (enc.fields(), contexts_view(states@)) == enc_pixels(img, w as int, (y * w + x) as nat),
                enc.pending() <= 65 * (y * w + x),
            decreases w - x,
        {
            proof { lemma_index_in_plane(w as int, x as int, y as int, y as int); }
            encode_sample(&mut enc, &mut states, image, w, h, x, y);
            x = x + 1;
        }
        y = y + 1;
    }
    proof {
        assert(y * w == w * h) by (nonlinear_arith) requires y == h;
    }
    enc.finish()
}


/// The decoder registers right after reading the first two bytes.
pub open spec fn initial_decoder(bytes: Seq<u8>) -> DecoderRegisters {
    DecoderRegisters { low: bytes[0] as int * 256 + bytes[1] as int, range: 0xFF00, pos: 2 }
}

/// The input the decoder reads: the given bytes and four zeros.
pub open spec fn padded_input(bytes: Seq<u8>) -> Seq<u8> {
    bytes + seq![0u8, 0u8, 0u8, 0u8]
}

/// The decoder, the contexts and the plane after the first `n` of `total`
/// samples; `None` where a step would leave `i32` or overflow the
/// decoder's 32-bit `low`.
pub open spec fn dec_pixels(bytes: Seq<u8>, w: int, total: nat, n: nat) -> Option<(DecoderRegisters, Seq<Seq<u8>>, Seq<i32>)>
    decreases n,
{
    if n == 0 {
        Some((initial_decoder(bytes), initial_contexts(), Seq::new(total, |i: int| 0i32)))
    } else {
        match dec_pixels(bytes, w, total, (n - 1) as nat) {
            None => None,
            Some((r, sts, img)) => {
                let p = n - 1;
                let nb = neighbours_of(img, w, p % w, p / w);
                if !(med_fits(nb.left, nb.top, nb.topleft) && context_fits(nb)) {
                    None
                } else {
                    let pred = med_pred(nb.left, nb.top, nb.topleft);
                    let (ctx, flip) = context_of(nb);
                    match get_symbol_result(r, bytes, sts[ctx], true) {
                        None => None,
                        Some((v, r2, st2)) => if flip && !fits_i32(-v) {
                            None
                        } else {
                            let diff = if flip { -v } else { v };
                            if !fits_i32(pred + diff) {
                                None
                            } else {
                                Some((r2, sts.update(ctx, st2), img.update(p, (pred + diff) as i32)))
                            }
                        },
                    }
                }
            },
        }
    }
}

/// The plane [`decode_plane`] returns for `bytes`, or `None` where decoding
/// would leave `i32` or overflow the decoder.
pub open spec fn decoded_plane(bytes: Seq<u8>, w: int, h: int) -> Option<Seq<i32>> {
    match dec_pixels(padded_input(bytes), w, (w * h) as nat, (w * h) as nat) {
        Some((r, sts, img)) => Some(img),
        None => None,
    }
}

proof fn lemma_dec_pixels_prefix(bytes: Seq<u8>, w: int, total: nat, k: nat, n: nat)
    requires
        k <= n,
        dec_pixels(bytes, w, total, n) is Some,
    ensures
        dec_pixels(bytes, w, total, k) is Some,
    decreases n,
{
    if k < n {
        lemma_dec_pixels_prefix(bytes, w, total, k, (n - 1) as nat);
    }
}

#[verifier::spinoff_prover]
fn decode_sample(
    dec: &mut RangeDecoderCpu,
    states: &mut Vec<[u8; 32]>,
    image: &mut Vec<i32>,
    w: i64,
    h: i64,
    x: i64,
    y: i64,
    Ghost(bytes): Ghost<Seq<u8>>,
)
    requires
        0 <= x < w,
        0 <= y < h,
        old(image)@.len() == w * h,
        (y + 1) * w <= w * h,
        w * h <= i32::MAX,
        old(dec).wf(),
        old(dec).input() == bytes,
        old(states)@.len() == CONTEXT_COUNT,
        dec_pixels(bytes, w as int, (w * h) as nat, (y * w + x) as nat)
            == Some((old(dec).registers(), contexts_view(old(states)@), old(image)@)),
        dec_pixels(bytes, w as int, (w * h) as nat, (y * w + x + 1) as nat) is Some,
    ensures
        final(dec).wf(),
        final(dec).input() == bytes,
        final(states)@.len() == CONTEXT_COUNT,
        final(image)@.len() == w * h,
        dec_pixels(bytes, w as int, (w * h) as nat, (y * w + x + 1) as nat)
            == Some((final(dec).registers(), contexts_view(final(states)@), final(image)@)),
{
    let ghost p = y * w + x;
    proof {
        lemma_pixel_coords(w as int, x as int, y as int);
        lemma_index_in_plane(w as int, x as int, y as int, y as int);
    }
    let (left, top, topleft, topright, ll, tt) = neighbors(image.as_slice(), w, x, y);
    let pred = med_predict(left, top, topleft);
    let (ctx, flip) = compute_context(left, top, topleft, topright, ll, tt);
    let mut st = states[ctx];
    proof {
        assert(st@ == contexts_view(states@)[ctx as int]);
    }
    let v = get_symbol(dec, &mut st, true);
    let diff = if flip { -v } else { v };
    let value = pred + diff;
    let ghost before = states@;
    states.set(ctx, st);
    image.set((y * w + x) as usize, value);
    proof {
        assert(contexts_view(states@) =~= contexts_view(before).update(ctx as int, st@));
    }
}

#[verifier::spinoff_prover]
#[verifier::rlimit(50)]
fn try_decode_sample(
    dec: &mut RangeDecoderCpu,
    states: &mut Vec<[u8; 32]>,
    image: &mut Vec<i32>,
    w: i64,
    h: i64,
    x: i64,
    y: i64,
    Ghost(bytes): Ghost<Seq<u8>>,
) -> (ok: bool)
    requires
        0 <= x < w,
        0 <= y < h,
        old(image)@.len() == w * h,
        (y + 1) * w <= w * h,
        w * h <= i32::MAX,
        old(dec).wf(),
        old(dec).input() == bytes,
        old(states)@.len() == CONTEXT_COUNT,
        dec_pixels(bytes, w as int, (w * h) as nat, (y * w + x) as nat)
            == Some((old(dec).registers(), contexts_view(old(states)@), old(image)@)),
    ensures
        final(dec).wf(),
        final(dec).input() == bytes,
        final(states)@.len() == CONTEXT_COUNT,
        final(image)@.len() == w * h,
        ok ==> dec_pixels(bytes, w as int, (w * h) as nat, (y * w + x + 1) as nat)
            == Some((final(dec).registers(), contexts_view(final(states)@), final(image)@)),
        !ok ==> dec_pixels(bytes, w as int, (w * h) as nat, (y * w + x + 1) as nat) is None,
{
    let ghost p = y * w + x;
    proof {
        lemma_pixel_coords(w as int, x as int, y as int);
        lemma_index_in_plane(w as int, x as int, y as int, y as int);
    }
    let (left, top, topleft, topright, ll, tt) = neighbors(image.as_slice(), w, x, y);
    let l = left as i64;
    let t = top as i64;
    let tl = topleft as i64;
    let mx = if l >= t { l } else { t };
    let mn = if l <= t { l } else { t };
    if !(tl >= mx || tl <= mn || (fits_i32_exec(l + t) && fits_i32_exec(l + t - tl))) {
        return false;
    }
    if !fits_i32_exec(l - tl) || !fits_i32_exec(tl - t) || !fits_i32_exec(t - topright as i64)
        || !fits_i32_exec(ll as i64 - l) || !fits_i32_exec(tt as i64 - t) {
        return false;
    }
    let pred = med_predict(left, top, topleft);
    let (ctx, flip) = compute_context(left, top, topleft, topright, ll, tt);
    let mut st = states[ctx];
    proof {
        assert(st@ == contexts_view(states@)[ctx as int]);
    }
    let v = match try_get_symbol(dec, &mut st, true) {
        Some(v) => v,
        None => {
            return false;
        },
    };
    if flip && v == i32::MIN {
        return false;
    }
    let diff = if flip { -v } else { v };
    let value64 = pred as i64 + diff as i64;
    if !fits_i32_exec(value64) {
        return false;
    }
    let value = value64 as i32;
    let ghost before = states@;
    states.set(ctx, st);
    image.set((y * w + x) as usize, value);
    proof {
        assert(contexts_view(states@) =~= contexts_view(before).update(ctx as int, st@));
    }
    true
}

proof fn lemma_dec_pixels_none_stays(bytes: Seq<u8>, w: int, total: nat, k: nat, n: nat)
    requires
        k <= n,
        dec_pixels(bytes, w, total, k) is None,
    ensures
        dec_pixels(bytes, w, total, n) is None,
    decreases n,
{
    if k < n {
        lemma_dec_pixels_none_stays(bytes, w, total, k, (n - 1) as nat);
    }
}

/// [`decode_plane`] where its `requires` may fail: `None` exactly where
/// [`decoded_plane`] is `None` (a sample or a difference would leave
/// `i32`, or a refill would overflow the decoder's 32-bit `low`).
pub fn try_decode_plane(bytes: &[u8], width: u32, height: u32) -> (out: Option<Vec<i32>>)
    requires
        width as int * height as int <= i32::MAX,
    ensures
        match decoded_plane(bytes@, width as int, height as int) {
            Some(img) => out matches Some(v) && v@ == img,
            None => out is None,
        },
{
    let w = width as i64;
    let h = height as i64;
    let mut padded: Vec<u8> = Vec::new();
    let mut i: usize = 0;
    while i < bytes.len()
        invariant
            i <= bytes@.len(),
            padded@ == bytes@.take(i as int),
        decreases bytes@.len() - i,
    {
        padded.push(bytes[i]);
        i = i + 1;
        assert(padded@ =~= bytes@.take(i as int));
    }
    padded.push(0);
    padded.push(0);
    padded.push(0);
    padded.push(0);
    let ghost input = padded_input(bytes@);
    assert(padded@ =~= input);
    let mut dec = RangeDecoderCpu::new(padded.as_slice());
    let mut states = new_contexts();
    let total = (w * h) as usize;
    let mut image: Vec<i32> = Vec::new();
    let mut k: usize = 0;
    while k < total
        invariant
            k <= total,
            image@.len() == k,
            forall|j: int| 0 <= j < k ==> #[trigger] image@[j] == 0i32,
        decreases total - k,
    {
        image.push(0);
        k = k + 1;
    }
    assert(image@ =~= Seq::new((w * h) as nat, |j: int| 0i32));
    assert(initial_decoder(input) == dec.registers());
    let ghost whole = (w * h) as nat;
    let mut y: i64 = 0;
    while y < h
        invariant
            0 <= y <= h,
            w == width as i64,
            h == height as i64,
            w * h <= i32::MAX,
            image@.len() == w * h,
            dec.wf(),
            dec.input() == input,
            input == padded_input(bytes@),
            states@.len() == CONTEXT_COUNT,
            whole == w * h,
            dec_pixels(input, w as int, whole, (y * w) as nat)
                == Some((dec.registers(), contexts_view(states@), image@)),
        decreases h - y,
    {
        assert(y * w + w == (y + 1) * w) by (nonlinear_arith);
        assert((y + 1) * w <= h * w) by (nonlinear_arith) requires y < h, 0 <= w;
        let mut x: i64 = 0;
        while x < w
            invariant
                0 <= x <= w,
                0 <= y < h,
                w == width as i64,
                h == height as i64,
                (y + 1) * w <= w * h,
                w * h <= i32::MAX,
                image@.len() == w * h,
                dec.wf(),
                dec.input() == input,
                input == padded_input(bytes@),
                states@.len() == CONTEXT_COUNT,
                whole == w * h,
                dec_pixels(input, w as int, whole, (y * w + x) as nat)
                    == Some((dec.registers(), contexts_view(states@), image@)),
            decreases w - x,
        {
            proof {
                lemma_index_in_plane(w as int, x as int, y as int, y as int);
            }
            if !try_decode_sample(&mut dec, &mut states, &mut image, w, h, x, y, Ghost(input)) {
                proof {
                    lemma_dec_pixels_none_stays(input, w as int, whole, (y * w + x + 1) as nat, whole);
                }
                return None;
            }
            x = x + 1;
        }
        y = y + 1;
    }
    proof {
        assert(y * w == w * h) by (nonlinear_arith) requires y == h;
    }
    Some(image)
}

/// Decodes a plane of `width` x `height` samples coded by [`encode_plane`].
/// The caller knows the plane's size; the input is read as if followed by
/// zeros.
pub fn decode_plane(bytes: &[u8], width: u32, height: u32) -> (out: Vec<i32>)
    requires
        width as int * height as int <= i32::MAX,
        decoded_plane(bytes@, width as int, height as int) is Some,
    ensures
        out@ == decoded_plane(bytes@, width as int, height as int).unwrap(),
{
    let w = width as i64;
    let h = height as i64;
    let mut padded: Vec<u8> = Vec::new();
    let mut i: usize = 0;
    while i < bytes.len()
        invariant
            i <= bytes@.len(),
            padded@ == bytes@.take(i as int),
        decreases bytes@.len() - i,
    {
        padded.push(bytes[i]);
        i = i + 1;
        assert(padded@ =~= bytes@.take(i as int));
    }
    padded.push(0);
    padded.push(0);
    padded.push(0);
    padded.push(0);
    let ghost input = padded_input(bytes@);
    assert(padded@ =~= input);
    let mut dec = RangeDecoderCpu::new(padded.as_slice());
    let mut states = new_contexts();
    let total = (w * h) as usize;
    let mut image: Vec<i32> = Vec::new();
    let mut k: usize = 0;
    while k < total
        invariant
            k <= total,
            image@.len() == k,
            forall|j: int| 0 <= j < k ==> #[trigger] image@[j] == 0i32,
        decreases total - k,
    {
        image.push(0);
        k = k + 1;
    }
    assert(image@ =~= Seq::new((w * h) as nat, |j: int| 0i32));
    assert(initial_decoder(input) == dec.registers());
    let ghost whole = (w * h) as nat;
    let mut y: i64 = 0;
    while y < h
        invariant
            0 <= y <= h,
            w == width as i64,
            h == height as i64,
            w * h <= i32::MAX,
            image@.len() == w * h,
            dec.wf(),
            dec.input() == input,
            states@.len() == CONTEXT_COUNT,
            dec_pixels(input, w as int, whole, whole) is Some,
            whole == w * h,
            dec_pixels(input, w as int, whole, (y * w) as nat)
                == Some((dec.registers(), contexts_view(states@), image@)),
        decreases h - y,
    {
        assert(y * w + w == (y + 1) * w) by (nonlinear_arith);
        assert((y + 1) * w <= h * w) by (nonlinear_arith) requires y < h, 0 <= w;
        let mut x: i64 = 0;
        while x < w
            invariant
                0 <= x <= w,
                0 <= y < h,
                w == width as i64,
                h == height as i64,
                (y + 1) * w <= w * h,
                w * h <= i32::MAX,
                image@.len() == w * h,
                dec.wf(),
                dec.input() == input,
                states@.len() == CONTEXT_COUNT,
                dec_pixels(input, w as int, whole, whole) is Some,
                whole == w * h,
                dec_pixels(input, w as int, whole, (y * w + x) as nat)
                    == Some((dec.registers(), contexts_view(states@), image@)),
            decreases w - x,
        {
            proof {
                lemma_index_in_plane(w as int, x as int, y as int, y as int);
                lemma_dec_pixels_prefix(input, w as int, whole, (y * w + x + 1) as nat, whole);
            }
            decode_sample(&mut dec, &mut states, &mut image, w, h, x, y, Ghost(input));
            x = x + 1;
        }
        y = y + 1;
    }
    proof {
        assert(y * w == w * h) by (nonlinear_arith) requires y == h;
    }
    image
}

/// Every context that [`context_of`] selects is one of the
/// [`CONTEXT_COUNT`] contexts.
proof fn lemma_context_in_range(n: Neighbours)
    ensures
        0 <= context_of(n).0 < CONTEXT_COUNT,
{
    lemma_quant_tables_bounds();
    let a = q11_spec(n.left - n.topleft);
    let b = q11_spec(n.topleft - n.top);
    let c = q5_spec(n.top - n.topright);
    let d = q5_spec(n.ll - n.left);
    let e = q5_spec(n.tt - n.top);
    assert(-5 <= a <= 5 && -5 <= b <= 5);
    assert(-2 <= c <= 2 && -2 <= d <= 2 && -2 <= e <= 2);
}

/// The encoder is well formed, and every context in use, after any number
/// of samples.
proof fn lemma_enc_pixels_wf(img: Seq<i32>, w: int, n: nat)
    requires
        encode_fits(img, w),
        n <= img.len(),
    ensures
        encoder_fields_wf(enc_pixels(img, w, n).0),
        enc_pixels(img, w, n).1.len() == CONTEXT_COUNT,
        forall|k: int| 0 <= k < CONTEXT_COUNT ==> context_in_use(#[trigger] enc_pixels(img, w, n).1[k]),
    decreases n,
{
    if n == 0 {
        assert forall|k: int| 0 <= k < CONTEXT_COUNT implies context_in_use(#[trigger] enc_pixels(img, w, n).1[k]) by {
            assert(initial_contexts()[k] == Seq::new(32, |j: int| 128u8));
        }
    } else {
        lemma_enc_pixels_wf(img, w, (n - 1) as nat);
        let (f, sts) = enc_pixels(img, w, (n - 1) as nat);
        let p = n - 1;
        assert(pixel_fits(img, w, p));
        let nb = neighbours_of(img, w, p % w, p / w);
        lemma_context_in_range(nb);
        let (ctx, v) = pixel_symbol(img, w, p);
        lemma_put_symbol_narrows(f, sts[ctx], v, true);
        let sts2 = enc_pixels(img, w, n).1;
        assert forall|k: int| 0 <= k < CONTEXT_COUNT implies context_in_use(#[trigger] sts2[k]) by {
            if k != ctx {
                assert(sts2[k] == sts[k]);
            }
        }
    }
}

/// The interval after more samples lies within the interval after fewer.
proof fn lemma_enc_pixels_nested(img: Seq<i32>, w: int, k: nat, j: nat)
    requires
        encode_fits(img, w),
        k <= j <= img.len(),
    ensures
        nested(enc_pixels(img, w, k).0, enc_pixels(img, w, j).0),
    decreases j - k,
{
    if j == k {
        lemma_nested_refl(enc_pixels(img, w, k).0);
    } else {
        lemma_enc_pixels_nested(img, w, k, (j - 1) as nat);
        lemma_enc_pixels_wf(img, w, (j - 1) as nat);
        lemma_enc_pixels_wf(img, w, k);
        let (f, sts) = enc_pixels(img, w, (j - 1) as nat);
        let p = j - 1;
        assert(pixel_fits(img, w, p));
        let nb = neighbours_of(img, w, p % w, p / w);
        lemma_context_in_range(nb);
        let (ctx, v) = pixel_symbol(img, w, p);
        lemma_put_symbol_narrows(f, sts[ctx], v, true);
        lemma_interval_low_nonneg(enc_pixels(img, w, k).0);
        lemma_nested_trans(enc_pixels(img, w, k).0, f, enc_pixels(img, w, j).0);
    }
}

/// Each neighbour of sample `p` comes before it in raster order, so two
/// planes that agree on the samples before `p` give `p` the same neighbours
/// ([`neighbors`] computes [`neighbours_of`]): neither the sample itself nor
/// any later one is read.
pub proof fn lemma_neighbours_causal(a: Seq<i32>, b: Seq<i32>, w: int, p: int)
    requires
        0 < w,
        0 <= p,
        forall|j: int| 0 <= j < p ==> a[j] == b[j],
    ensures
        neighbours_of(a, w, p % w, p / w) == neighbours_of(b, w, p % w, p / w),
{
    let x = p % w;
    let y = p / w;
    vstd::arithmetic::div_mod::lemma_fundamental_div_mod(p, w);
    assert(0 <= x < w);
    assert(y >= 0) by {
        vstd::arithmetic::div_mod::lemma_div_pos_is_pos(p, w);
    }
    assert(p == y * w + x) by (nonlinear_arith) requires p == w * y + x;
    assert((y - 1) * w == y * w - w) by (nonlinear_arith);
    assert((y - 2) * w == y * w - 2 * w) by (nonlinear_arith);
    assert forall|xx: int, yy: int| 0 <= xx < w && 0 <= yy && yy * w + xx < p implies
        sample_at(a, w, xx, yy) == sample_at(b, w, xx, yy) by {
        assert(0 <= yy * w) by (nonlinear_arith) requires 0 <= yy, 0 < w;
    }
    assert(sample_at(a, w, x - 1, y) == sample_at(b, w, x - 1, y));
    assert(sample_at(a, w, x - 2, y) == sample_at(b, w, x - 2, y));
    assert(sample_at(a, w, x, y - 1) == sample_at(b, w, x, y - 1));
    assert(sample_at(a, w, x - 1, y - 1) == sample_at(b, w, x - 1, y - 1));
    assert(sample_at(a, w, x + 1, y - 1) == sample_at(b, w, x + 1, y - 1));
    assert(sample_at(a, w, x, y - 2) == sample_at(b, w, x, y - 2));
}

/// The bytes of a coded plane, followed by the zeros that the decoder
/// reads past them, spell out a code value in the interval the encoder
/// left after any number of samples.
proof fn lemma_coded_plane_in_interval(img: Seq<i32>, w: int, k: nat)
    requires
        encode_fits(img, w),
        k <= img.len(),
    ensures
        code_in_interval(enc_pixels(img, w, k).0, padded_input(encoded_plane(img, w))),
{
    let input = padded_input(encoded_plane(img, w));
    let total = img.len();
    let fin = enc_pixels(img, w, total).0;
    lemma_enc_pixels_wf(img, w, total);
    let bytes = encoded_plane(img, w);
    assert(input.take(bytes.len() as int) =~= bytes);
    assert(byte_or_zero(input, bytes.len() as int) == 0);
    lemma_finish_in_interval(fin, input);
    lemma_enc_pixels_nested(img, w, k, total);
    lemma_in_interval_inherited(enc_pixels(img, w, k).0, fin, input);
}

/// One sample: where the decoder mirrors the encoder before sample `p`
/// and has recovered the samples before it, it recovers sample `p` and
/// mirrors the encoder after it.
proof fn lemma_plane_decode_step(
    img: Seq<i32>,
    w: int,
    p: int,
    input: Seq<u8>,
    r: DecoderRegisters,
    dimg: Seq<i32>,
)
    requires
        0 < w,
        0 <= p < img.len(),
        encode_fits(img, w),
        tracks(r, enc_pixels(img, w, p as nat).0, input),
        code_in_interval(enc_pixels(img, w, (p + 1) as nat).0, input),
        forall|j: int| 0 <= j < p ==> #[trigger] dimg[j] == img[j],
        dimg.len() == img.len(),
    ensures
        ({
            let (f, sts) = enc_pixels(img, w, p as nat);
            let nb = neighbours_of(dimg, w, p % w, p / w);
            let pred = med_pred(nb.left, nb.top, nb.topleft);
            let (ctx, flip) = context_of(nb);
            &&& med_fits(nb.left, nb.top, nb.topleft)
            &&& context_fits(nb)
            &&& get_symbol_result(r, input, sts[ctx], true) matches Some((v, r2, st2))
                && (flip ==> fits_i32(-v))
                && pred + (if flip { -v } else { v }) == img[p]
                && tracks(r2, enc_pixels(img, w, (p + 1) as nat).0, input)
                && sts.update(ctx, st2) == enc_pixels(img, w, (p + 1) as nat).1
        }),
{
    let (f, sts) = enc_pixels(img, w, p as nat);
    lemma_neighbours_causal(dimg, img, w, p);
    let nb = neighbours_of(img, w, p % w, p / w);
    assert(pixel_fits(img, w, p));
    lemma_context_in_range(nb);
    lemma_enc_pixels_wf(img, w, p as nat);
    let (ctx, v) = pixel_symbol(img, w, p);
    lemma_symbol_roundtrip(f, sts[ctx], v, true, r, input);
}

proof fn lemma_dec_pixels_unfold(bytes: Seq<u8>, w: int, total: nat, k: nat)
    requires
        k > 0,
        dec_pixels(bytes, w, total, (k - 1) as nat) is Some,
    ensures
        ({
            let (r, sts, img) = dec_pixels(bytes, w, total, (k - 1) as nat).unwrap();
            let p = k - 1;
            let nb = neighbours_of(img, w, p % w, p / w);
            let pred = med_pred(nb.left, nb.top, nb.topleft);
            let (ctx, flip) = context_of(nb);
            (med_fits(nb.left, nb.top, nb.topleft) && context_fits(nb)) ==>
            (get_symbol_result(r, bytes, sts[ctx], true) matches Some((v, r2, st2)) ==>
            ((!(flip && !fits_i32(-v)) && fits_i32(pred + (if flip { -v } else { v }))) ==>
            dec_pixels(bytes, w, total, k) == Some((r2, sts.update(ctx, st2), img.update(p, (pred + (if flip { -v } else { v })) as i32)))))
        }),
{
}

/// The decoder's state after the first `k` samples of a coded plane: its
/// registers mirror the encoder's after those samples, its contexts are the
/// encoder's, and it has recovered those samples.
#[verifier::spinoff_prover]
#[verifier::rlimit(50)]
proof fn lemma_plane_decode_prefix(img: Seq<i32>, w: int, h: int, k: nat)
    requires
        0 <= w,
        0 <= h,
        img.len() == w * h,
        encode_fits(img, w),
        k <= img.len(),
    ensures
        ({
            let input = padded_input(encoded_plane(img, w));
            let (f, sts) = enc_pixels(img, w, k);
            dec_pixels(input, w, img.len(), k) matches Some((r, dsts, dimg))
                && tracks(r, f, input)
                && dsts == sts
                && dimg.len() == img.len()
                && forall|j: int| 0 <= j < k ==> #[trigger] dimg[j] == img[j]
        }),
    decreases k,
{
    let input = padded_input(encoded_plane(img, w));
    let total = img.len();
    if k == 0 {
        let f0 = initial_encoder();
        assert(prefix_value(input, 2) == input[0] as int * 256 + input[1] as int) by {
            reveal_with_fuel(prefix_value, 3);
        }
        assert(tracks(initial_decoder(input), f0, input));
    } else {
        lemma_plane_decode_prefix(img, w, h, (k - 1) as nat);
        let p = (k - 1) as nat;
        let (r, dsts, dimg) = dec_pixels(input, w, total, p).unwrap();
        assert(w > 0) by (nonlinear_arith) requires img.len() == w * h, 0 <= p < img.len(), 0 <= w;
        lemma_coded_plane_in_interval(img, w, k);
        lemma_plane_decode_step(img, w, p as int, input, r, dimg);
        lemma_dec_pixels_unfold(input, w, total, k);
        let dimg2 = dec_pixels(input, w, total, k).unwrap().2;
        assert forall|j: int| 0 <= j < k implies #[trigger] dimg2[j] == img[j] by {
            if j < p {
                assert(dimg2[j] == dimg[j]);
            }
        }
    }
}

/// Decoding a coded plane gives back the plane: for every plane whose
/// samples can be coded within `i32`, [`decode_plane`] on the bytes of
/// [`encode_plane`] returns the samples that were coded.
pub proof fn lemma_plane_roundtrip(img: Seq<i32>, w: int, h: int)
    requires
        0 <= w,
        0 <= h,
        img.len() == w * h,
        encode_fits(img, w),
    ensures
        decoded_plane(encoded_plane(img, w), w, h) == Some(img),
{
    lemma_plane_decode_prefix(img, w, h, img.len());
    let input = padded_input(encoded_plane(img, w));
    let (r, dsts, dimg) = dec_pixels(input, w, img.len(), img.len()).unwrap();
    assert(dimg =~= img);
    assert(((w * h) as nat) == img.len());
}


/// Every sample of the plane lies within `[-bound, bound]`.
pub open spec fn samples_within(img: Seq<i32>, bound: int) -> bool {
    forall|i: int| 0 <= i < img.len() ==> -bound <= #[trigger] img[i] <= bound
}

proof fn lemma_neighbours_within(img: Seq<i32>, w: int, p: int, bound: int)
    requires
        0 < w,
        0 <= p < img.len(),
        0 <= bound,
        samples_within(img, bound),
    ensures
        ({
            let n = neighbours_of(img, w, p % w, p / w);
            &&& -bound <= n.left <= bound
            &&& -bound <= n.top <= bound
            &&& -bound <= n.topleft <= bound
            &&& -bound <= n.topright <= bound
            &&& -bound <= n.ll <= bound
            &&& -bound <= n.tt <= bound
        }),
{
    let x = p % w;
    let y = p / w;
    vstd::arithmetic::div_mod::lemma_fundamental_div_mod(p, w);
    assert(y >= 0) by {
        vstd::arithmetic::div_mod::lemma_div_pos_is_pos(p, w);
    }
    assert(p == y * w + x) by (nonlinear_arith) requires p == w * y + x;
    assert((y - 1) * w == y * w - w) by (nonlinear_arith);
    assert((y - 2) * w == y * w - 2 * w) by (nonlinear_arith);
    assert forall|xx: int, yy: int| 0 <= xx < w && 0 <= yy && yy * w + xx < p implies
        (#[trigger] sample_at(img, w, xx, yy) matches Some(v) && -bound <= v <= bound) by {
        assert(0 <= yy * w) by (nonlinear_arith) requires 0 <= yy, 0 < w;
        assert(0 <= yy * w + xx < img.len());
    }
    assert(x - 1 < 0 || y * w + (x - 1) < p);
    assert(x - 2 < 0 || y * w + (x - 2) < p);
    assert(y - 1 < 0 || (y - 1) * w + x < p);
    assert(y - 1 < 0 || x - 1 < 0 || (y - 1) * w + (x - 1) < p);
    assert(y - 1 < 0 || x + 1 >= w || (y - 1) * w + (x + 1) < p);
    assert(y - 2 < 0 || (y - 2) * w + x < p);
}

/// Samples within `[-2^20, 2^20]` can always be coded within `i32`.
pub proof fn lemma_small_samples_fit(img: Seq<i32>, w: int, h: int)
    requires
        0 <= w,
        0 <= h,
        img.len() == w * h,
        samples_within(img, 0x10_0000),
    ensures
        encode_fits(img, w),
{
    assert forall|p: int| 0 <= p < img.len() implies #[trigger] pixel_fits(img, w, p) by {
        assert(w > 0) by (nonlinear_arith) requires img.len() == w * h, 0 <= p < img.len(), 0 <= w;
        lemma_neighbours_within(img, w, p, 0x10_0000);
        assert(-0x10_0000 <= img[p] <= 0x10_0000);
    }
}

/// Decoding a coded plane gives back every plane of `w` x `h` samples
/// within `[-2^20, 2^20]`.
pub proof fn lemma_small_plane_roundtrip(img: Seq<i32>, w: int, h: int)
    requires
        0 <= w,
        0 <= h,
        img.len() == w * h,
        samples_within(img, 0x10_0000),
    ensures
        encode_fits(img, w),
        decoded_plane(encoded_plane(img, w), w, h) == Some(img),
{
    lemma_small_samples_fit(img, w, h);
    lemma_plane_roundtrip(img, w, h);
}

} // verus!
