//! The adaptive binary range coder of FFV1 (RFC 9043, section 3.8.1):
//! the state-transition tables, a byte-wise decoder (`get_rac`), the
//! matching encoder (`put_rac`), and the symbol layer built on top of them
//! (`put_symbol` / `get_symbol`).
//!
//! Both coders are specified field by field over plain values
//! ([`EncoderFields`], [`DecoderRegisters`]); the bytes that terminate the
//! code are [`finish_bytes`]. Why the decoder reads back what the encoder
//! wrote is proved in `coding_interval`.

use vstd::prelude::*;
use vstd::arithmetic::power2::pow2;

verus! {

/// The `default_state_transition` table of RFC 9043, section 3.8.1.5.
pub const DEFAULT_STATE_TRANSITION: [u8; 256] = [
      0,  0,  0,  0,  0,  0,  0,  0, 20, 21, 22, 23, 24, 25, 26, 27,
     28, 29, 30, 31, 32, 33, 34, 35, 36, 37, 37, 38, 39, 40, 41, 42,
     43, 44, 45, 46, 47, 48, 49, 50, 51, 52, 53, 54, 55, 56, 56, 57,
     58, 59, 60, 61, 62, 63, 64, 65, 66, 67, 68, 69, 70, 71, 72, 73,
     74, 75, 75, 76, 77, 78, 79, 80, 81, 82, 83, 84, 85, 86, 87, 88,
     89, 90, 91, 92, 93, 94, 94, 95, 96, 97, 98, 99,100,101,102,103,
    104,105,106,107,108,109,110,111,112,113,114,114,115,116,117,118,
    119,120,121,122,123,124,125,126,127,128,129,130,131,132,133,133,
    134,135,136,137,138,139,140,141,142,143,144,145,146,147,148,149,
    150,151,152,152,153,154,155,156,157,158,159,160,161,162,163,164,
    165,166,167,168,169,170,171,171,172,173,174,175,176,177,178,179,
    180,181,182,183,184,185,186,187,188,189,190,190,191,192,194,194,
    195,196,197,198,199,200,201,202,202,204,205,206,207,208,209,209,
    210,211,212,213,215,215,216,217,218,219,220,220,222,223,224,225,
    226,227,227,229,229,230,231,232,234,234,235,236,237,238,239,240,
    241,242,243,244,245,246,247,248,248,  0,  0,  0,  0,  0,  0,  0,
];

/// `256^n`.
pub open spec fn pow256(n: nat) -> int
    decreases n,
{
    if n == 0 { 1 } else { 256 * pow256((n - 1) as nat) }
}

/// Entry `i` of the `zero_state` table derived from a `one_state` table:
/// `zero_state[i] = 256 - one_state[256 - i]` in 8-bit arithmetic, and 0 at
/// index 0 (RFC 9043, section 3.8.1.5).
pub open spec fn zero_state_entry(one: [u8; 256], i: int) -> u8 {
    if i == 0 {
        0
    } else {
        ((256 - one[256 - i]) % 256) as u8
    }
}

/// The state that follows `s` after coding `bit` with the default tables.
pub open spec fn next_state(s: u8, bit: bool) -> u8 {
    if bit {
        DEFAULT_STATE_TRANSITION[s as int]
    } else {
        zero_state_entry(DEFAULT_STATE_TRANSITION, s as int)
    }
}

/// States that the default tables never leave once entered: every adaptive
/// state starts at 128 and stays within `[8, 248]`.
pub open spec fn state_in_use(s: u8) -> bool {
    8 <= s <= 248
}

/// Every entry of `t` at an index in `[8, hi)` lies in `[20, 248]`.
pub open spec fn table_prefix_in_range(t: [u8; 256], hi: int) -> bool
    decreases hi,
{
    if hi <= 8 {
        true
    } else {
        table_prefix_in_range(t, hi - 1) && 20 <= t[hi - 1] <= 248
    }
}

proof fn lemma_table_in_range(hi: int, i: int)
    requires
        8 <= i < hi <= 249,
        table_prefix_in_range(DEFAULT_STATE_TRANSITION, hi),
    ensures
        20 <= DEFAULT_STATE_TRANSITION[i] <= 248,
    decreases hi,
{
    if i < hi - 1 {
        lemma_table_in_range(hi - 1, i);
    }
}

/// The entries of the default table at indices 8 through 248 lie in
/// `[20, 248]` (checked entry by entry).
pub proof fn lemma_default_table_bounds()
    ensures
        forall|i: int| 8 <= i <= 248 ==> 20 <= #[trigger] DEFAULT_STATE_TRANSITION[i] <= 248,
{
    assert(table_prefix_in_range(DEFAULT_STATE_TRANSITION, 8)); assert(table_prefix_in_range(DEFAULT_STATE_TRANSITION, 9)); assert(table_prefix_in_range(DEFAULT_STATE_TRANSITION, 10)); assert(table_prefix_in_range(DEFAULT_STATE_TRANSITION, 11)); assert(table_prefix_in_range(DEFAULT_STATE_TRANSITION, 12)); assert(table_prefix_in_range(DEFAULT_STATE_TRANSITION, 13)); assert(table_prefix_in_range(DEFAULT_STATE_TRANSITION, 14)); assert(table_prefix_in_range(DEFAULT_STATE_TRANSITION, 15));
    assert(table_prefix_in_range(DEFAULT_STATE_TRANSITION, 16)); assert(table_prefix_in_range(DEFAULT_STATE_TRANSITION, 17)); assert(table_prefix_in_range(DEFAULT_STATE_TRANSITION, 18)); assert(table_prefix_in_range(DEFAULT_STATE_TRANSITION, 19)); assert(table_prefix_in_range(DEFAULT_STATE_TRANSITION, 20)); assert(table_prefix_in_range(DEFAULT_STATE_TRANSITION, 21)); assert(table_prefix_in_range(DEFAULT_STATE_TRANSITION, 22)); assert(table_prefix_in_range(DEFAULT_STATE_TRANSITION, 23));
    assert(table_prefix_in_range(DEFAULT_STATE_TRANSITION, 24)); assert(table_prefix_in_range(DEFAULT_STATE_TRANSITION, 25)); assert(table_prefix_in_range(DEFAULT_STATE_TRANSITION, 26)); assert(table_prefix_in_range(DEFAULT_STATE_TRANSITION, 27)); assert(table_prefix_in_range(DEFAULT_STATE_TRANSITION, 28)); assert(table_prefix_in_range(DEFAULT_STATE_TRANSITION, 29)); assert(table_prefix_in_range(DEFAULT_STATE_TRANSITION, 30)); assert(table_prefix_in_range(DEFAULT_STATE_TRANSITION, 31));
    assert(table_prefix_in_range(DEFAULT_STATE_TRANSITION, 32)); assert(table_prefix_in_range(DEFAULT_STATE_TRANSITION, 33)); assert(table_prefix_in_range(DEFAULT_STATE_TRANSITION, 34)); assert(table_prefix_in_range(DEFAULT_STATE_TRANSITION, 35)); assert(table_prefix_in_range(DEFAULT_STATE_TRANSITION, 36)); assert(table_prefix_in_range(DEFAULT_STATE_TRANSITION, 37)); assert(table_prefix_in_range(DEFAULT_STATE_TRANSITION, 38)); assert(table_prefix_in_range(DEFAULT_STATE_TRANSITION, 39));
    assert(table_prefix_in_range(DEFAULT_STATE_TRANSITION, 40)); assert(table_prefix_in_range(DEFAULT_STATE_TRANSITION, 41)); assert(table_prefix_in_range(DEFAULT_STATE_TRANSITION, 42)); assert(table_prefix_in_range(DEFAULT_STATE_TRANSITION, 43)); assert(table_prefix_in_range(DEFAULT_STATE_TRANSITION, 44)); assert(table_prefix_in_range(DEFAULT_STATE_TRANSITION, 45)); assert(table_prefix_in_range(DEFAULT_STATE_TRANSITION, 46)); assert(table_prefix_in_range(DEFAULT_STATE_TRANSITION, 47));
    assert(table_prefix_in_range(DEFAULT_STATE_TRANSITION, 48)); assert(table_prefix_in_range(DEFAULT_STATE_TRANSITION, 49)); assert(table_prefix_in_range(DEFAULT_STATE_TRANSITION, 50)); assert(table_prefix_in_range(DEFAULT_STATE_TRANSITION, 51)); assert(table_prefix_in_range(DEFAULT_STATE_TRANSITION, 52)); assert(table_prefix_in_range(DEFAULT_STATE_TRANSITION, 53)); assert(table_prefix_in_range(DEFAULT_STATE_TRANSITION, 54)); assert(table_prefix_in_range(DEFAULT_STATE_TRANSITION, 55));
    assert(table_prefix_in_range(DEFAULT_STATE_TRANSITION, 56)); assert(table_prefix_in_range(DEFAULT_STATE_TRANSITION, 57)); assert(table_prefix_in_range(DEFAULT_STATE_TRANSITION, 58)); assert(table_prefix_in_range(DEFAULT_STATE_TRANSITION, 59)); assert(table_prefix_in_range(DEFAULT_STATE_TRANSITION, 60)); assert(table_prefix_in_range(DEFAULT_STATE_TRANSITION, 61)); assert(table_prefix_in_range(DEFAULT_STATE_TRANSITION, 62)); assert(table_prefix_in_range(DEFAULT_STATE_TRANSITION, 63));
    assert(table_prefix_in_range(DEFAULT_STATE_TRANSITION, 64)); assert(table_prefix_in_range(DEFAULT_STATE_TRANSITION, 65)); assert(table_prefix_in_range(DEFAULT_STATE_TRANSITION, 66)); assert(table_prefix_in_range(DEFAULT_STATE_TRANSITION, 67)); assert(table_prefix_in_range(DEFAULT_STATE_TRANSITION, 68)); assert(table_prefix_in_range(DEFAULT_STATE_TRANSITION, 69)); assert(table_prefix_in_range(DEFAULT_STATE_TRANSITION, 70)); assert(table_prefix_in_range(DEFAULT_STATE_TRANSITION, 71));
    assert(table_prefix_in_range(DEFAULT_STATE_TRANSITION, 72)); assert(table_prefix_in_range(DEFAULT_STATE_TRANSITION, 73)); assert(table_prefix_in_range(DEFAULT_STATE_TRANSITION, 74)); assert(table_prefix_in_range(DEFAULT_STATE_TRANSITION, 75)); assert(table_prefix_in_range(DEFAULT_STATE_TRANSITION, 76)); assert(table_prefix_in_range(DEFAULT_STATE_TRANSITION, 77)); assert(table_prefix_in_range(DEFAULT_STATE_TRANSITION, 78)); assert(table_prefix_in_range(DEFAULT_STATE_TRANSITION, 79));
    assert(table_prefix_in_range(DEFAULT_STATE_TRANSITION, 80)); assert(table_prefix_in_range(DEFAULT_STATE_TRANSITION, 81)); assert(table_prefix_in_range(DEFAULT_STATE_TRANSITION, 82)); assert(table_prefix_in_range(DEFAULT_STATE_TRANSITION, 83)); assert(table_prefix_in_range(DEFAULT_STATE_TRANSITION, 84)); assert(table_prefix_in_range(DEFAULT_STATE_TRANSITION, 85)); assert(table_prefix_in_range(DEFAULT_STATE_TRANSITION, 86)); assert(table_prefix_in_range(DEFAULT_STATE_TRANSITION, 87));
    assert(table_prefix_in_range(DEFAULT_STATE_TRANSITION, 88)); assert(table_prefix_in_range(DEFAULT_STATE_TRANSITION, 89)); assert(table_prefix_in_range(DEFAULT_STATE_TRANSITION, 90)); assert(table_prefix_in_range(DEFAULT_STATE_TRANSITION, 91)); assert(table_prefix_in_range(DEFAULT_STATE_TRANSITION, 92)); assert(table_prefix_in_range(DEFAULT_STATE_TRANSITION, 93)); assert(table_prefix_in_range(DEFAULT_STATE_TRANSITION, 94)); assert(table_prefix_in_range(DEFAULT_STATE_TRANSITION, 95));
    assert(table_prefix_in_range(DEFAULT_STATE_TRANSITION, 96)); assert(table_prefix_in_range(DEFAULT_STATE_TRANSITION, 97)); assert(table_prefix_in_range(DEFAULT_STATE_TRANSITION, 98)); assert(table_prefix_in_range(DEFAULT_STATE_TRANSITION, 99)); assert(table_prefix_in_range(DEFAULT_STATE_TRANSITION, 100)); assert(table_prefix_in_range(DEFAULT_STATE_TRANSITION, 101)); assert(table_prefix_in_range(DEFAULT_STATE_TRANSITION, 102)); assert(table_prefix_in_range(DEFAULT_STATE_TRANSITION, 103));
    assert(table_prefix_in_range(DEFAULT_STATE_TRANSITION, 104)); assert(table_prefix_in_range(DEFAULT_STATE_TRANSITION, 105)); assert(table_prefix_in_range(DEFAULT_STATE_TRANSITION, 106)); assert(table_prefix_in_range(DEFAULT_STATE_TRANSITION, 107)); assert(table_prefix_in_range(DEFAULT_STATE_TRANSITION, 108)); assert(table_prefix_in_range(DEFAULT_STATE_TRANSITION, 109)); assert(table_prefix_in_range(DEFAULT_STATE_TRANSITION, 110)); assert(table_prefix_in_range(DEFAULT_STATE_TRANSITION, 111));
    assert(table_prefix_in_range(DEFAULT_STATE_TRANSITION, 112)); assert(table_prefix_in_range(DEFAULT_STATE_TRANSITION, 113)); assert(table_prefix_in_range(DEFAULT_STATE_TRANSITION, 114)); assert(table_prefix_in_range(DEFAULT_STATE_TRANSITION, 115)); assert(table_prefix_in_range(DEFAULT_STATE_TRANSITION, 116)); assert(table_prefix_in_range(DEFAULT_STATE_TRANSITION, 117)); assert(table_prefix_in_range(DEFAULT_STATE_TRANSITION, 118)); assert(table_prefix_in_range(DEFAULT_STATE_TRANSITION, 119));
    assert(table_prefix_in_range(DEFAULT_STATE_TRANSITION, 120)); assert(table_prefix_in_range(DEFAULT_STATE_TRANSITION, 121)); assert(table_prefix_in_range(DEFAULT_STATE_TRANSITION, 122)); assert(table_prefix_in_range(DEFAULT_STATE_TRANSITION, 123)); assert(table_prefix_in_range(DEFAULT_STATE_TRANSITION, 124)); assert(table_prefix_in_range(DEFAULT_STATE_TRANSITION, 125)); assert(table_prefix_in_range(DEFAULT_STATE_TRANSITION, 126)); assert(table_prefix_in_range(DEFAULT_STATE_TRANSITION, 127));
    assert(table_prefix_in_range(DEFAULT_STATE_TRANSITION, 128)); assert(table_prefix_in_range(DEFAULT_STATE_TRANSITION, 129)); assert(table_prefix_in_range(DEFAULT_STATE_TRANSITION, 130)); assert(table_prefix_in_range(DEFAULT_STATE_TRANSITION, 131)); assert(table_prefix_in_range(DEFAULT_STATE_TRANSITION, 132)); assert(table_prefix_in_range(DEFAULT_STATE_TRANSITION, 133)); assert(table_prefix_in_range(DEFAULT_STATE_TRANSITION, 134)); assert(table_prefix_in_range(DEFAULT_STATE_TRANSITION, 135));
    assert(table_prefix_in_range(DEFAULT_STATE_TRANSITION, 136)); assert(table_prefix_in_range(DEFAULT_STATE_TRANSITION, 137)); assert(table_prefix_in_range(DEFAULT_STATE_TRANSITION, 138)); assert(table_prefix_in_range(DEFAULT_STATE_TRANSITION, 139)); assert(table_prefix_in_range(DEFAULT_STATE_TRANSITION, 140)); assert(table_prefix_in_range(DEFAULT_STATE_TRANSITION, 141)); assert(table_prefix_in_range(DEFAULT_STATE_TRANSITION, 142)); assert(table_prefix_in_range(DEFAULT_STATE_TRANSITION, 143));
    assert(table_prefix_in_range(DEFAULT_STATE_TRANSITION, 144)); assert(table_prefix_in_range(DEFAULT_STATE_TRANSITION, 145)); assert(table_prefix_in_range(DEFAULT_STATE_TRANSITION, 146)); assert(table_prefix_in_range(DEFAULT_STATE_TRANSITION, 147)); assert(table_prefix_in_range(DEFAULT_STATE_TRANSITION, 148)); assert(table_prefix_in_range(DEFAULT_STATE_TRANSITION, 149)); assert(table_prefix_in_range(DEFAULT_STATE_TRANSITION, 150)); assert(table_prefix_in_range(DEFAULT_STATE_TRANSITION, 151));
    assert(table_prefix_in_range(DEFAULT_STATE_TRANSITION, 152)); assert(table_prefix_in_range(DEFAULT_STATE_TRANSITION, 153)); assert(table_prefix_in_range(DEFAULT_STATE_TRANSITION, 154)); assert(table_prefix_in_range(DEFAULT_STATE_TRANSITION, 155)); assert(table_prefix_in_range(DEFAULT_STATE_TRANSITION, 156)); assert(table_prefix_in_range(DEFAULT_STATE_TRANSITION, 157)); assert(table_prefix_in_range(DEFAULT_STATE_TRANSITION, 158)); assert(table_prefix_in_range(DEFAULT_STATE_TRANSITION, 159));
    assert(table_prefix_in_range(DEFAULT_STATE_TRANSITION, 160)); assert(table_prefix_in_range(DEFAULT_STATE_TRANSITION, 161)); assert(table_prefix_in_range(DEFAULT_STATE_TRANSITION, 162)); assert(table_prefix_in_range(DEFAULT_STATE_TRANSITION, 163)); assert(table_prefix_in_range(DEFAULT_STATE_TRANSITION, 164)); assert(table_prefix_in_range(DEFAULT_STATE_TRANSITION, 165)); assert(table_prefix_in_range(DEFAULT_STATE_TRANSITION, 166)); assert(table_prefix_in_range(DEFAULT_STATE_TRANSITION, 167));
    assert(table_prefix_in_range(DEFAULT_STATE_TRANSITION, 168)); assert(table_prefix_in_range(DEFAULT_STATE_TRANSITION, 169)); assert(table_prefix_in_range(DEFAULT_STATE_TRANSITION, 170)); assert(table_prefix_in_range(DEFAULT_STATE_TRANSITION, 171)); assert(table_prefix_in_range(DEFAULT_STATE_TRANSITION, 172)); assert(table_prefix_in_range(DEFAULT_STATE_TRANSITION, 173)); assert(table_prefix_in_range(DEFAULT_STATE_TRANSITION, 174)); assert(table_prefix_in_range(DEFAULT_STATE_TRANSITION, 175));
    assert(table_prefix_in_range(DEFAULT_STATE_TRANSITION, 176)); assert(table_prefix_in_range(DEFAULT_STATE_TRANSITION, 177)); assert(table_prefix_in_range(DEFAULT_STATE_TRANSITION, 178)); assert(table_prefix_in_range(DEFAULT_STATE_TRANSITION, 179)); assert(table_prefix_in_range(DEFAULT_STATE_TRANSITION, 180)); assert(table_prefix_in_range(DEFAULT_STATE_TRANSITION, 181)); assert(table_prefix_in_range(DEFAULT_STATE_TRANSITION, 182)); assert(table_prefix_in_range(DEFAULT_STATE_TRANSITION, 183));
    assert(table_prefix_in_range(DEFAULT_STATE_TRANSITION, 184)); assert(table_prefix_in_range(DEFAULT_STATE_TRANSITION, 185)); assert(table_prefix_in_range(DEFAULT_STATE_TRANSITION, 186)); assert(table_prefix_in_range(DEFAULT_STATE_TRANSITION, 187)); assert(table_prefix_in_range(DEFAULT_STATE_TRANSITION, 188)); assert(table_prefix_in_range(DEFAULT_STATE_TRANSITION, 189)); assert(table_prefix_in_range(DEFAULT_STATE_TRANSITION, 190)); assert(table_prefix_in_range(DEFAULT_STATE_TRANSITION, 191));
    assert(table_prefix_in_range(DEFAULT_STATE_TRANSITION, 192)); assert(table_prefix_in_range(DEFAULT_STATE_TRANSITION, 193)); assert(table_prefix_in_range(DEFAULT_STATE_TRANSITION, 194)); assert(table_prefix_in_range(DEFAULT_STATE_TRANSITION, 195)); assert(table_prefix_in_range(DEFAULT_STATE_TRANSITION, 196)); assert(table_prefix_in_range(DEFAULT_STATE_TRANSITION, 197)); assert(table_prefix_in_range(DEFAULT_STATE_TRANSITION, 198)); assert(table_prefix_in_range(DEFAULT_STATE_TRANSITION, 199));
    assert(table_prefix_in_range(DEFAULT_STATE_TRANSITION, 200)); assert(table_prefix_in_range(DEFAULT_STATE_TRANSITION, 201)); assert(table_prefix_in_range(DEFAULT_STATE_TRANSITION, 202)); assert(table_prefix_in_range(DEFAULT_STATE_TRANSITION, 203)); assert(table_prefix_in_range(DEFAULT_STATE_TRANSITION, 204)); assert(table_prefix_in_range(DEFAULT_STATE_TRANSITION, 205)); assert(table_prefix_in_range(DEFAULT_STATE_TRANSITION, 206)); assert(table_prefix_in_range(DEFAULT_STATE_TRANSITION, 207));
    assert(table_prefix_in_range(DEFAULT_STATE_TRANSITION, 208)); assert(table_prefix_in_range(DEFAULT_STATE_TRANSITION, 209)); assert(table_prefix_in_range(DEFAULT_STATE_TRANSITION, 210)); assert(table_prefix_in_range(DEFAULT_STATE_TRANSITION, 211)); assert(table_prefix_in_range(DEFAULT_STATE_TRANSITION, 212)); assert(table_prefix_in_range(DEFAULT_STATE_TRANSITION, 213)); assert(table_prefix_in_range(DEFAULT_STATE_TRANSITION, 214)); assert(table_prefix_in_range(DEFAULT_STATE_TRANSITION, 215));
    assert(table_prefix_in_range(DEFAULT_STATE_TRANSITION, 216)); assert(table_prefix_in_range(DEFAULT_STATE_TRANSITION, 217)); assert(table_prefix_in_range(DEFAULT_STATE_TRANSITION, 218)); assert(table_prefix_in_range(DEFAULT_STATE_TRANSITION, 219)); assert(table_prefix_in_range(DEFAULT_STATE_TRANSITION, 220)); assert(table_prefix_in_range(DEFAULT_STATE_TRANSITION, 221)); assert(table_prefix_in_range(DEFAULT_STATE_TRANSITION, 222)); assert(table_prefix_in_range(DEFAULT_STATE_TRANSITION, 223));
    assert(table_prefix_in_range(DEFAULT_STATE_TRANSITION, 224)); assert(table_prefix_in_range(DEFAULT_STATE_TRANSITION, 225)); assert(table_prefix_in_range(DEFAULT_STATE_TRANSITION, 226)); assert(table_prefix_in_range(DEFAULT_STATE_TRANSITION, 227)); assert(table_prefix_in_range(DEFAULT_STATE_TRANSITION, 228)); assert(table_prefix_in_range(DEFAULT_STATE_TRANSITION, 229)); assert(table_prefix_in_range(DEFAULT_STATE_TRANSITION, 230)); assert(table_prefix_in_range(DEFAULT_STATE_TRANSITION, 231));
    assert(table_prefix_in_range(DEFAULT_STATE_TRANSITION, 232)); assert(table_prefix_in_range(DEFAULT_STATE_TRANSITION, 233)); assert(table_prefix_in_range(DEFAULT_STATE_TRANSITION, 234)); assert(table_prefix_in_range(DEFAULT_STATE_TRANSITION, 235)); assert(table_prefix_in_range(DEFAULT_STATE_TRANSITION, 236)); assert(table_prefix_in_range(DEFAULT_STATE_TRANSITION, 237)); assert(table_prefix_in_range(DEFAULT_STATE_TRANSITION, 238)); assert(table_prefix_in_range(DEFAULT_STATE_TRANSITION, 239));
    assert(table_prefix_in_range(DEFAULT_STATE_TRANSITION, 240)); assert(table_prefix_in_range(DEFAULT_STATE_TRANSITION, 241)); assert(table_prefix_in_range(DEFAULT_STATE_TRANSITION, 242)); assert(table_prefix_in_range(DEFAULT_STATE_TRANSITION, 243)); assert(table_prefix_in_range(DEFAULT_STATE_TRANSITION, 244)); assert(table_prefix_in_range(DEFAULT_STATE_TRANSITION, 245)); assert(table_prefix_in_range(DEFAULT_STATE_TRANSITION, 246)); assert(table_prefix_in_range(DEFAULT_STATE_TRANSITION, 247));
    assert(table_prefix_in_range(DEFAULT_STATE_TRANSITION, 248)); assert(table_prefix_in_range(DEFAULT_STATE_TRANSITION, 249));
    assert forall|i: int| 8 <= i <= 248 implies 20 <= #[trigger] DEFAULT_STATE_TRANSITION[i] <= 248 by {
        lemma_table_in_range(249, i);
    }
}

/// Coding a bit from a state in `[8, 248]` leads to a state in `[8, 248]`:
/// the adaptive states never reach 0, the one value for which the coder
/// could not make progress.
pub proof fn lemma_next_state_in_use(s: u8, bit: bool)
    requires
        state_in_use(s),
    ensures
        state_in_use(next_state(s, bit)),
{
    lemma_default_table_bounds();
    assert(20 <= DEFAULT_STATE_TRANSITION[s as int] <= 248);
    assert(20 <= DEFAULT_STATE_TRANSITION[256 - s] <= 248);
}

/// `one_state[i] = default_state_transition[i]` (no `state_transition_delta`).
pub fn one_state() -> (one: [u8; 256])
    ensures
        one == DEFAULT_STATE_TRANSITION,
{
    DEFAULT_STATE_TRANSITION
}

/// `zero_state[i] = 256 - one_state[256 - i]` in 8-bit arithmetic, with
/// `zero_state[0] = 0`.
pub fn zero_state() -> (zero: [u8; 256])
    ensures
        forall|i: int| 0 <= i < 256 ==> #[trigger] zero[i] == zero_state_entry(DEFAULT_STATE_TRANSITION, i),
{
    let one = one_state();
    let mut zero = [0u8; 256];
    let mut i: usize = 1;
    while i < 256
        invariant
            1 <= i <= 256,
            one == DEFAULT_STATE_TRANSITION,
            zero[0] == 0,
            forall|j: int| 1 <= j < i ==> #[trigger] zero[j] == zero_state_entry(DEFAULT_STATE_TRANSITION, j),
        decreases 256 - i,
    {
        let idx = 256 - i;
        let v: u16 = 256u16 - one[idx] as u16;
        assert(v as u8 == (v % 256) as u8) by (bit_vector);
        zero[i] = v as u8;
        i = i + 1;
    }
    zero
}


/// Byte `i` of `bytes`, reading 0 past the end (the decoder feeds zeros once
/// the input is exhausted).
pub open spec fn byte_or_zero(bytes: Seq<u8>, i: int) -> int {
    if 0 <= i < bytes.len() {
        bytes[i] as int
    } else {
        0
    }
}

/// The big-endian value of the first `n` bytes of `bytes`, zero-padded.
pub open spec fn prefix_value(bytes: Seq<u8>, n: nat) -> int
    decreases n,
{
    if n == 0 {
        0
    } else {
        prefix_value(bytes, (n - 1) as nat) * 256 + byte_or_zero(bytes, n - 1)
    }
}

/// The decoder's registers.
pub struct DecoderRegisters {
    pub low: int,
    pub range: int,
    pub pos: int,
}

/// One `get_rac` step on the decoder registers, without the refill: the
/// decoded bit and the registers after it.
pub open spec fn rac_split(low: int, range: int, s: u8) -> (bool, int, int) {
    let range_one = range * s / 256;
    let range_zero = range - range_one;
    if low < range_zero {
        (false, low, range_zero)
    } else {
        (true, low - range_zero, range_one)
    }
}

/// The refill that follows each decoded bit: once `range` drops under 256,
/// both registers are shifted by one byte and the next input byte (or 0 past
/// the end) enters `low`.
pub open spec fn refill(r: DecoderRegisters, bytes: Seq<u8>) -> DecoderRegisters {
    if r.range < 256 {
        DecoderRegisters {
            low: r.low * 256 + byte_or_zero(bytes, r.pos),
            range: r.range * 256,
            pos: if r.pos < bytes.len() { r.pos + 1 } else { r.pos },
        }
    } else {
        r
    }
}

/// `get_rac` on the registers: the decoded bit and the registers after the
/// refill.
pub open spec fn rac_decode(r: DecoderRegisters, bytes: Seq<u8>, s: u8) -> (bool, DecoderRegisters) {
    let (bit, low, range) = rac_split(r.low, r.range, s);
    (bit, refill(DecoderRegisters { low, range, pos: r.pos }, bytes))
}

/// `get_rac` stays within 32-bit arithmetic on these registers: the refill,
/// if one follows, does not overflow `low`.
pub open spec fn rac_decode_fits(r: DecoderRegisters, bytes: Seq<u8>, s: u8) -> bool {
    let (bit, low, range) = rac_split(r.low, r.range, s);
    range < 256 ==> low * 256 + byte_or_zero(bytes, r.pos) <= u32::MAX
}

/// Registers that a well-formed code stream keeps: `low < range <= 0xFF00`.
/// On such registers `get_rac` never overflows, whatever the state.
pub open spec fn registers_in_window(r: DecoderRegisters) -> bool {
    0 <= r.low < r.range <= 0xFF00
}

/// The decoder's window: `range` in `[256, 0xFF00]` and `low` below it.
pub open spec fn decoder_window(r: DecoderRegisters) -> bool {
    256 <= r.range <= 0xFF00 && 0 <= r.low < r.range
}

/// Within its window the decoder is safe and stays there: `get_rac` does
/// not overflow (whatever the state and the input) and leaves `range` in
/// `[256, 0xFF00]` and `low` below it.
pub proof fn lemma_decoder_window(r: DecoderRegisters, bytes: Seq<u8>, s: u8)
    requires
        decoder_window(r),
    ensures
        rac_decode_fits(r, bytes, s),
        decoder_window(rac_decode(r, bytes, s).1),
{
    let range_one = r.range * s / 256;
    assert(0 <= range_one < r.range) by (nonlinear_arith)
        requires range_one == r.range * s / 256, 256 <= r.range, s <= 255;
    let b = byte_or_zero(bytes, r.pos);
    assert(0 <= b < 256);
}

/// A decoder started on `b0, b1, ...` is in its window exactly when `b0`
/// is not `0xFF`.
pub proof fn lemma_decoder_start_window(b0: u8, b1: u8)
    ensures
        decoder_window(DecoderRegisters { low: b0 as int * 256 + b1 as int, range: 0xFF00, pos: 2 }) <==> b0 != 0xFF,
{
}

/// `n` successive `get_rac` calls with one state `s`: the bits read, the
/// registers and the state after them.
pub open spec fn rac_run(r: DecoderRegisters, bytes: Seq<u8>, s: u8, n: nat) -> (Seq<bool>, DecoderRegisters, u8)
    decreases n,
{
    if n == 0 {
        (Seq::empty(), r, s)
    } else {
        let (bits, r1, s1) = rac_run(r, bytes, s, (n - 1) as nat);
        let (b, r2) = rac_decode(r1, bytes, s1);
        (bits.push(b), r2, next_state(s1, b))
    }
}

/// `get_rac` is deterministic over any number of calls: two decoders with
/// the same registers, reading the same bytes, from the same state, read
/// the same bits and end in the same registers and state.
pub proof fn lemma_rac_run_deterministic(r1: DecoderRegisters, r2: DecoderRegisters, b1: Seq<u8>, b2: Seq<u8>, s: u8, n: nat)
    requires
        r1 == r2,
        b1 == b2,
    ensures
        rac_run(r1, b1, s, n) == rac_run(r2, b2, s, n),
{
}

/// In its window the decoder stays there over any number of calls.
pub proof fn lemma_rac_run_window(r: DecoderRegisters, bytes: Seq<u8>, s: u8, n: nat)
    requires
        decoder_window(r),
    ensures
        decoder_window(rac_run(r, bytes, s, n).1),
    decreases n,
{
    if n > 0 {
        lemma_rac_run_window(r, bytes, s, (n - 1) as nat);
        let (bits, r1, s1) = rac_run(r, bytes, s, (n - 1) as nat);
        lemma_decoder_window(r1, bytes, s1);
    }
}

/// `n` successive `get_rac` calls on one state, which moves through the
/// tables `one` (after a 1) and `zero` (after a 0): the bits read, the
/// registers and the state after them.
pub open spec fn rac_run_tables(r: DecoderRegisters, bytes: Seq<u8>, s: u8, n: nat, one: [u8; 256], zero: [u8; 256]) -> (Seq<bool>, DecoderRegisters, u8)
    decreases n,
{
    if n == 0 {
        (Seq::empty(), r, s)
    } else {
        let (bits, r1, s1) = rac_run_tables(r, bytes, s, (n - 1) as nat, one, zero);
        let (b, r2) = rac_decode(r1, bytes, s1);
        (bits.push(b), r2, if b { one[s1 as int] } else { zero[s1 as int] })
    }
}

/// With the default tables (those of [`one_state`] and [`zero_state`]) a
/// run of `get_rac` calls is [`rac_run`].
pub proof fn lemma_rac_run_default_tables(r: DecoderRegisters, bytes: Seq<u8>, s: u8, n: nat, one: [u8; 256], zero: [u8; 256])
    requires
        one == DEFAULT_STATE_TRANSITION,
        forall|i: int| 0 <= i < 256 ==> #[trigger] zero[i] == zero_state_entry(DEFAULT_STATE_TRANSITION, i),
    ensures
        rac_run_tables(r, bytes, s, n, one, zero) == rac_run(r, bytes, s, n),
    decreases n,
{
    if n > 0 {
        lemma_rac_run_default_tables(r, bytes, s, (n - 1) as nat, one, zero);
        let s1 = rac_run(r, bytes, s, (n - 1) as nat).2;
        assert(zero[s1 as int] == zero_state_entry(DEFAULT_STATE_TRANSITION, s1 as int));
    }
}

/// The bits of a run as the words `get_rac` returns.
pub open spec fn bit_words(bits: Seq<bool>) -> Seq<u32> {
    bits.map_values(|b: bool| if b { 1u32 } else { 0u32 })
}

/// FFV1 range decoder (RFC 9043, section 3.8.1.1): `low` starts as the first
/// two bytes read big-endian and `range` as `0xFF00`.
pub struct RangeDecoderCpu<'a> {
    bytes: &'a [u8],
    pos: usize,
    low: u32,
    range: u32,
}

impl<'a> RangeDecoderCpu<'a> {
    /// The input bytes.
    pub closed spec fn input(&self) -> Seq<u8> {
        self.bytes@
    }

    /// The registers `low`, `range` and the read position.
    pub closed spec fn registers(&self) -> DecoderRegisters {
        DecoderRegisters { low: self.low as int, range: self.range as int, pos: self.pos as int }
    }

    /// `range` never exceeds `0xFF00` and the read position stays within the
    /// input.
    pub closed spec fn wf(&self) -> bool {
        &&& self.range <= 0xFF00
        &&& 2 <= self.pos <= self.bytes@.len()
    }

    /// A decoder positioned after the first two bytes of `bytes`.
    pub fn new(bytes: &'a [u8]) -> (dec: Self)
        requires
            bytes@.len() >= 2,
        ensures
            dec.wf(),
            dec.input() == bytes@,
            dec.registers() == (DecoderRegisters {
                low: bytes@[0] as int * 256 + bytes@[1] as int,
                range: 0xFF00,
                pos: 2,
            }),
    {
        let low = ((bytes[0] as u32) << 8) | (bytes[1] as u32);
        let b0 = bytes[0];
        let b1 = bytes[1];
        assert(((b0 as u32) << 8) | (b1 as u32) == b0 as u32 * 256 + b1 as u32) by (bit_vector);
        Self { bytes, pos: 2, low, range: 0xFF00 }
    }

    fn refill(&mut self)
        requires
            old(self).wf(),
            old(self).range < 256 ==> old(self).low as int * 256 + byte_or_zero(old(self).bytes@, old(self).pos as int) <= u32::MAX,
        ensures
            final(self).wf(),
            final(self).bytes == old(self).bytes,
            final(self).registers() == refill(old(self).registers(), old(self).bytes@),
    {
        if self.range < 256 {
            self.range = self.range * 256;
            self.low = self.low * 256;
            if self.pos < self.bytes.len() {
                self.low = self.low + self.bytes[self.pos] as u32;
                self.pos = self.pos + 1;
            }
        }
    }

    /// Whether the registers are in the decoder's window (see
    /// [`lemma_decoder_window`]).
    pub fn in_window(&self) -> (b: bool)
        ensures
            b == decoder_window(self.registers()),
    {
        256 <= self.range && self.range <= 0xFF00 && self.low < self.range
    }

    /// Whether `get_rac` with `state` stays within 32-bit arithmetic, which
    /// it requires.
    pub fn rac_fits(&self, state: u8) -> (b: bool)
        requires
            self.wf(),
        ensures
            b == rac_decode_fits(self.registers(), self.input(), state),
    {
        assert(self.range as int * state as int <= 0xFF00 * 255) by (nonlinear_arith)
            requires self.range <= 0xFF00, state <= 255;
        let range_one = (self.range * (state as u32)) / 256;
        assert(range_one <= self.range) by (nonlinear_arith)
            requires range_one == (self.range * state as u32) / 256, state <= 255;
        let range_zero = self.range - range_one;
        let (low, range) = if self.low < range_zero {
            (self.low, range_zero)
        } else {
            (self.low - range_zero, range_one)
        };
        if range >= 256 {
            return true;
        }
        let byte: u64 = if self.pos < self.bytes.len() { self.bytes[self.pos] as u64 } else { 0 };
        (low as u64) * 256 + byte <= u32::MAX as u64
    }

    /// Decodes one bit with the adaptive `state` (RFC 9043, `get_rac`), and
    /// moves `state` on through `one` (after a 1) or `zero` (after a 0).
    pub fn get_rac(&mut self, state: &mut u8, one: &[u8; 256], zero: &[u8; 256]) -> (bit: u32)
        requires
            old(self).wf(),
            rac_decode_fits(old(self).registers(), old(self).input(), *old(state)),
        ensures
            final(self).wf(),
            final(self).input() == old(self).input(),
            ({
                let (b, r) = rac_decode(old(self).registers(), old(self).input(), *old(state));
                &&& final(self).registers() == r
                &&& bit == (if b { 1u32 } else { 0u32 })
                &&& *final(state) == (if b { one[*old(state) as int] } else { zero[*old(state) as int] })
            }),
    {
        let s = *state;
        assert(self.range as int * s as int <= 0xFF00 * 255) by (nonlinear_arith)
            requires self.range <= 0xFF00, s <= 255;
        let rangeoff = (self.range * (s as u32)) / 256;
        assert(rangeoff <= self.range) by (nonlinear_arith)
            requires rangeoff == (self.range * s as u32) / 256, s <= 255;
        let range_after = self.range - rangeoff;
        let bit = if self.low < range_after {
            self.range = range_after;
            *state = zero[s as usize];
            0
        } else {
            self.low = self.low - range_after;
            self.range = rangeoff;
            *state = one[s as usize];
            1
        };
        self.refill();
        bit
    }

    /// `n` successive [`get_rac`](Self::get_rac) calls on `state`: the bits
    /// they return, in order. Two decoders on the same bytes, from the same
    /// state, read the same bits: the result is [`rac_run_tables`] of the
    /// registers, the input and the state.
    pub fn get_rac_run(&mut self, state: &mut u8, one: &[u8; 256], zero: &[u8; 256], n: usize) -> (bits: Vec<u32>)
        requires
            old(self).wf(),
            decoder_window(old(self).registers()),
        ensures
            final(self).wf(),
            final(self).input() == old(self).input(),
            ({
                let (bs, r, s) = rac_run_tables(old(self).registers(), old(self).input(), *old(state), n as nat, *one, *zero);
                &&& bits@ == bit_words(bs)
                &&& final(self).registers() == r
                &&& *final(state) == s
            }),
    {
        let ghost r0 = self.registers();
        let ghost s0 = *state;
        let ghost input = self.input();
        let mut bits: Vec<u32> = Vec::new();
        let mut i: usize = 0;
        while i < n
            invariant
                i <= n,
                self.wf(),
                self.input() == input,
                decoder_window(self.registers()),
                ({
                    let (bs, r, s) = rac_run_tables(r0, input, s0, i as nat, *one, *zero);
                    &&& bits@ == bit_words(bs)
                    &&& self.registers() == r
                    &&& *state == s
                }),
            decreases n - i,
        {
            proof {
                lemma_decoder_window(self.registers(), input, *state);
            }
            let ghost before = bits@;
            let b = self.get_rac(state, one, zero);
            bits.push(b);
            proof {
                let (bs, r, s) = rac_run_tables(r0, input, s0, i as nat, *one, *zero);
                assert(bit_words(rac_run_tables(r0, input, s0, (i + 1) as nat, *one, *zero).0) =~= bits@) by {
                    assert(bit_words(bs) == before);
                }
            }
            i = i + 1;
        }
        bits
    }
}


/// The encoder's registers and output, as plain values.
pub struct EncoderFields {
    /// Bytes written so far.
    pub bytes: Seq<u8>,
    /// The 16-bit window of the code value, plus a possible carry bit.
    pub low: int,
    pub range: int,
    /// Number of `0xFF` bytes held back behind `ob` until a carry is settled.
    pub count: nat,
    /// The byte held back until a carry is settled; `-1` before the first one.
    pub ob: int,
}

/// `n` copies of the byte `b`.
pub open spec fn repeat_byte(b: u8, n: nat) -> Seq<u8> {
    Seq::new(n, |i: int| b)
}

/// One renormalisation step of the encoder (FFmpeg's `renorm_encoder`): once
/// `range` drops under 256 the top byte of the window leaves `low`; it is
/// written out as soon as no later carry can change it.
pub open spec fn renorm_fields(f: EncoderFields) -> EncoderFields {
    if f.range >= 256 {
        f
    } else {
        let low2 = (f.low % 256) * 256;
        let range2 = f.range * 256;
        if f.ob < 0 {
            EncoderFields { bytes: f.bytes, low: low2, range: range2, count: f.count, ob: f.low / 256 }
        } else if f.low <= 0xFF00 {
            EncoderFields {
                bytes: f.bytes + seq![f.ob as u8] + repeat_byte(0xFF, f.count),
                low: low2,
                range: range2,
                count: 0,
                ob: f.low / 256,
            }
        } else if f.low >= 0x10000 {
            EncoderFields {
                bytes: f.bytes + seq![(f.ob + 1) as u8] + repeat_byte(0, f.count),
                low: low2,
                range: range2,
                count: 0,
                ob: f.low / 256 - 256,
            }
        } else {
            EncoderFields { bytes: f.bytes, low: low2, range: range2, count: f.count + 1, ob: f.ob }
        }
    }
}

/// `put_rac`: the interval is split in the ratio of `s / 256`; a 0 keeps the
/// lower part, a 1 the upper part; then the encoder renormalises.
pub open spec fn put_rac_fields(f: EncoderFields, s: u8, bit: bool) -> EncoderFields {
    let range_one = f.range * s / 256;
    if bit {
        renorm_fields(EncoderFields { low: f.low + f.range - range_one, range: range_one, ..f })
    } else {
        renorm_fields(EncoderFields { range: f.range - range_one, ..f })
    }
}

/// The bytes that terminating the encoder produces (FFmpeg's
/// `ff_rac_terminate`, version 0): `low` is rounded up to a multiple of 256
/// and two more bytes are shifted out; the last of them, always 0, is left
/// out, since the decoder reads zeros past the end.
pub open spec fn finish_bytes(f: EncoderFields) -> Seq<u8> {
    let f1 = renorm_fields(EncoderFields { low: f.low + 0xFF, range: 0xFF, ..f });
    let f2 = renorm_fields(EncoderFields { range: 0xFF, ..f1 });
    f2.bytes
}

/// The initial encoder: nothing written, `low = 0`, `range = 0xFF00`.
pub open spec fn initial_encoder() -> EncoderFields {
    EncoderFields { bytes: Seq::empty(), low: 0, range: 0xFF00, count: 0, ob: -1 }
}

/// The invariant that the encoder keeps between calls.
pub open spec fn encoder_fields_wf(f: EncoderFields) -> bool {
    &&& 256 <= f.range <= 0xFF00
    &&& 0 <= f.low
    &&& f.low + f.range <= 0x1FE00
    &&& -1 <= f.ob <= 255
    &&& f.ob == -1 ==> (f.count == 0 && f.bytes.len() == 0 && f.low + f.range <= 0xFF00)
    &&& f.ob == 255 ==> f.low + f.range <= 0xFF00
}

/// FFV1 range encoder (FFmpeg's `RangeCoder` in its writing role): the
/// counterpart of [`RangeDecoderCpu`].
pub struct RangeEncoderCpu {
    bytes: Vec<u8>,
    low: u32,
    range: u32,
    outstanding_count: u64,
    outstanding_byte: i32,
    one: [u8; 256],
    zero: [u8; 256],
}

impl RangeEncoderCpu {
    /// The registers and the bytes written so far.
    pub closed spec fn fields(&self) -> EncoderFields {
        EncoderFields {
            bytes: self.bytes@,
            low: self.low as int,
            range: self.range as int,
            count: self.outstanding_count as nat,
            ob: self.outstanding_byte as int,
        }
    }

    /// The number of `0xFF` bytes held back.
    pub closed spec fn pending(&self) -> nat {
        self.outstanding_count as nat
    }

    /// The registers satisfy [`encoder_fields_wf`] and the tables are the
    /// default ones.
    pub closed spec fn wf(&self) -> bool {
        &&& encoder_fields_wf(self.fields())
        &&& self.one == DEFAULT_STATE_TRANSITION
        &&& forall|i: int| 0 <= i < 256 ==> #[trigger] self.zero[i] == zero_state_entry(DEFAULT_STATE_TRANSITION, i)
    }

    /// A fresh encoder (RFC 9043, section 3.8.1.1): `low = 0`,
    /// `range = 0xFF00`, nothing written.
    pub fn new() -> (enc: Self)
        ensures
            enc.wf(),
            enc.fields() == initial_encoder(),
            enc.pending() == 0,
    {
        let enc = RangeEncoderCpu {
            bytes: Vec::new(),
            low: 0,
            range: 0xFF00,
            outstanding_count: 0,
            outstanding_byte: -1,
            one: one_state(),
            zero: zero_state(),
        };
        assert(enc.fields().bytes =~= Seq::<u8>::empty());
        enc
    }

    fn push_repeated(&mut self, b: u8, n: u64)
        ensures
            final(self).bytes@ == old(self).bytes@ + repeat_byte(b, n as nat),
            final(self).low == old(self).low,
            final(self).range == old(self).range,
            final(self).outstanding_count == old(self).outstanding_count,
            final(self).outstanding_byte == old(self).outstanding_byte,
            final(self).one == old(self).one,
            final(self).zero == old(self).zero,
    {
        let mut i: u64 = 0;
        while i < n
            invariant
                i <= n,
                self.bytes@ == old(self).bytes@ + repeat_byte(b, i as nat),
                self.low == old(self).low,
                self.range == old(self).range,
                self.outstanding_count == old(self).outstanding_count,
                self.outstanding_byte == old(self).outstanding_byte,
                self.one == old(self).one,
                self.zero == old(self).zero,
            decreases n - i,
        {
            self.bytes.push(b);
            i = i + 1;
            assert(self.bytes@ =~= old(self).bytes@ + repeat_byte(b, i as nat));
        }
    }

    /// One step of FFmpeg's `renorm_encoder` (one step always suffices here,
    /// since `range` is at least 1).
    fn renorm(&mut self)
        requires
            0 < old(self).range,
            old(self).low < 0x1FF00,
            -1 <= old(self).outstanding_byte <= 255,
            old(self).outstanding_byte == -1 ==> old(self).low < 0x10000,
            old(self).outstanding_byte == 255 ==> old(self).low < 0x10000,
            old(self).outstanding_count < u64::MAX,
            old(self).range < 256 ==> old(self).range * 256 <= u32::MAX,
        ensures
            final(self).fields() == renorm_fields(old(self).fields()),
            final(self).one == old(self).one,
            final(self).zero == old(self).zero,
    {
        if self.range < 256 {
            let low = self.low;
            if self.outstanding_byte < 0 {
                self.outstanding_byte = (low / 256) as i32;
            } else if low <= 0xFF00 {
                let ob = self.outstanding_byte as u8;
                self.bytes.push(ob);
                let n = self.outstanding_count;
                self.push_repeated(0xFF, n);
                self.outstanding_count = 0;
                self.outstanding_byte = (low / 256) as i32;
            } else if low >= 0x10000 {
                let ob = (self.outstanding_byte + 1) as u8;
                self.bytes.push(ob);
                let n = self.outstanding_count;
                self.push_repeated(0, n);
                self.outstanding_count = 0;
                self.outstanding_byte = (low / 256) as i32 - 256;
            } else {
                self.outstanding_count = self.outstanding_count + 1;
            }
            self.low = (low % 256) * 256;
            self.range = self.range * 256;
            proof {
                let f = renorm_fields(old(self).fields());
                assert(self.fields().bytes =~= f.bytes);
            }
        }
    }

    /// Terminates the code (FFmpeg's `ff_rac_terminate`, version 0) and
    /// returns the bytes written.
    pub fn finish(self) -> (out: Vec<u8>)
        requires
            self.wf(),
            self.pending() + 2 <= u64::MAX,
        ensures
            out@ == finish_bytes(self.fields()),
    {
        let mut enc = self;
        enc.range = 0xFF;
        enc.low = enc.low + 0xFF;
        enc.renorm();
        enc.range = 0xFF;
        enc.renorm();
        enc.bytes
    }

    /// Encodes `bit` with the adaptive `state` (FFmpeg's `put_rac`) and moves
    /// `state` on as the decoder will.
    pub fn put_rac(&mut self, state: &mut u8, bit: bool)
        requires
            old(self).wf(),
            state_in_use(*old(state)),
            old(self).pending() < u64::MAX,
        ensures
            final(self).wf(),
            final(self).fields() == put_rac_fields(old(self).fields(), *old(state), bit),
            *final(state) == next_state(*old(state), bit),
            final(self).pending() <= old(self).pending() + 1,
    {
        let s = *state;
        assert(self.range as int * s as int <= 0xFF00 * 255) by (nonlinear_arith)
            requires self.range <= 0xFF00, s <= 255;
        let range_one = (self.range * (s as u32)) / 256;
        assert(8 <= range_one <= self.range - 8) by (nonlinear_arith)
            requires range_one == (self.range * s as u32) / 256, 8 <= s <= 248, 256 <= self.range;
        if bit {
            self.low = self.low + self.range - range_one;
            self.range = range_one;
            *state = self.one[s as usize];
        } else {
            self.range = self.range - range_one;
            *state = self.zero[s as usize];
        }
        self.renorm();
    }
}


/// The value that `get_symbol` returns for a malformed exponent (more than 31
/// leading one bits): FFmpeg's `AVERROR_INVALIDDATA`.
pub const INVALID_SYMBOL: i32 = -1094995529;

/// `min(i, cap)`: the context slots of the exponent and mantissa bits are
/// shared beyond the tenth bit.
pub open spec fn capped(i: int, cap: int) -> int {
    if i < cap { i } else { cap }
}

/// `floor(log2(a))` for `a >= 1`.
pub open spec fn ilog2(a: nat) -> nat
    decreases a,
{
    if a <= 1 { 0 } else { 1 + ilog2(a / 2) }
}

/// Bit `i` of `a`.
pub open spec fn bit_of(a: nat, i: nat) -> bool {
    (a / pow2(i)) % 2 == 1
}

/// The magnitude that `put_symbol` codes: `|v|` for a signed symbol, the
/// 32-bit two's-complement value of `v` for an unsigned one.
pub open spec fn symbol_magnitude(v: int, is_signed: bool) -> nat {
    if v >= 0 {
        v as nat
    } else if is_signed {
        (-v) as nat
    } else {
        (v + 0x1_0000_0000) as nat
    }
}

/// The number of binary decisions `put_symbol` codes for `v`.
pub open spec fn symbol_code_len(v: int, is_signed: bool) -> nat {
    if v == 0 {
        1
    } else {
        2 * ilog2(symbol_magnitude(v, is_signed)) + 2 + (if is_signed { 1nat } else { 0nat })
    }
}

/// Decision `k` that `put_symbol` codes for `v` (RFC 9043, section 3.8.1.2):
/// the context slot within the 32 states of the context, and the bit. A zero
/// is one 1 in slot 0; any other value is a 0 in slot 0, the exponent
/// `e = floor(log2 |v|)` in unary (slots 1..10), the `e` bits of `|v|` under
/// its top bit, highest first (slots 22..31), and the sign (slots 11..21).
pub open spec fn symbol_code_at(v: int, is_signed: bool, k: int) -> (int, bool) {
    let a = symbol_magnitude(v, is_signed);
    let e = ilog2(a) as int;
    if v == 0 {
        (0, true)
    } else if k == 0 {
        (0, false)
    } else if k <= e {
        (1 + capped(k - 1, 9), true)
    } else if k == e + 1 {
        (1 + capped(e, 9), false)
    } else if k <= 2 * e + 1 {
        let i = 2 * e + 1 - k;
        (22 + capped(i, 9), bit_of(a, i as nat))
    } else {
        (11 + capped(e, 10), v < 0)
    }
}

/// All the decisions that `put_symbol` codes for `v`, in order.
pub open spec fn symbol_code(v: int, is_signed: bool) -> Seq<(int, bool)> {
    Seq::new(symbol_code_len(v, is_signed), |k: int| symbol_code_at(v, is_signed, k))
}

/// The encoder and the 32 context states after coding `code` with `put_rac`.
pub open spec fn put_bits(f: EncoderFields, st: Seq<u8>, code: Seq<(int, bool)>) -> (EncoderFields, Seq<u8>)
    decreases code.len(),
{
    if code.len() == 0 {
        (f, st)
    } else {
        let (f1, st1) = put_bits(f, st, code.drop_last());
        let (slot, bit) = code.last();
        (put_rac_fields(f1, st1[slot], bit), st1.update(slot, next_state(st1[slot], bit)))
    }
}

/// All 32 states of a context lie in `[8, 248]`.
pub open spec fn context_in_use(st: Seq<u8>) -> bool {
    st.len() == 32 && forall|i: int| 0 <= i < 32 ==> state_in_use(#[trigger] st[i])
}

pub(crate) proof fn lemma_put_bits_step(f: EncoderFields, st: Seq<u8>, code: Seq<(int, bool)>, k: int)
    requires
        0 <= k < code.len(),
    ensures
        put_bits(f, st, code.take(k + 1)) == ({
            let (f1, st1) = put_bits(f, st, code.take(k));
            let (slot, bit) = code[k];
            (put_rac_fields(f1, st1[slot], bit), st1.update(slot, next_state(st1[slot], bit)))
        }),
{
    assert(code.take(k + 1).drop_last() =~= code.take(k));
}

pub(crate) proof fn lemma_ilog2_bounds(a: nat)
    requires
        a >= 1,
    ensures
        pow2(ilog2(a)) <= a < pow2(ilog2(a) + 1),
        a < 0x1_0000_0000 ==> ilog2(a) <= 31,
    decreases a,
{
    vstd::arithmetic::power2::lemma2_to64();
    if a > 1 {
        lemma_ilog2_bounds(a / 2);
        let k = ilog2(a / 2);
        vstd::arithmetic::power2::lemma_pow2_unfold(k + 1);
        vstd::arithmetic::power2::lemma_pow2_unfold(k + 2);
        assert(ilog2(a) == k + 1);
        assert(pow2(k + 1) <= a);
        assert(a < pow2(k + 2));
    }
    if a < 0x1_0000_0000 && ilog2(a) > 31 {
        if ilog2(a) > 32 {
            vstd::arithmetic::power2::lemma_pow2_strictly_increases(32, ilog2(a));
        }
    }
}

fn put_code_step(
    enc: &mut RangeEncoderCpu,
    state: &mut [u8; 32],
    slot: usize,
    bit: bool,
    Ghost(f0): Ghost<EncoderFields>,
    Ghost(st0): Ghost<Seq<u8>>,
    Ghost(code): Ghost<Seq<(int, bool)>>,
    Ghost(k): Ghost<int>,
)
    requires
        old(enc).wf(),
        context_in_use(old(state)@),
        old(enc).pending() < u64::MAX,
        0 <= k < code.len(),
        slot < 32,
        code[k] == (slot as int, bit),
        (old(enc).fields(), old(state)@) == put_bits(f0, st0, code.take(k)),
    ensures
        final(enc).wf(),
        context_in_use(final(state)@),
        (final(enc).fields(), final(state)@) == put_bits(f0, st0, code.take(k + 1)),
        final(enc).pending() <= old(enc).pending() + 1,
{
    proof { lemma_put_bits_step(f0, st0, code, k); }
    let mut s = state[slot];
    enc.put_rac(&mut s, bit);
    proof { lemma_next_state_in_use(state[slot as int], bit); }
    state[slot] = s;
    assert(state@ =~= old(state)@.update(slot as int, next_state(old(state)@[slot as int], bit)));
}

/// Codes `v` with the 32 adaptive states of one context (RFC 9043,
/// section 3.8.1.2, `put_symbol`).
pub fn put_symbol(enc: &mut RangeEncoderCpu, state: &mut [u8; 32], v: i32, is_signed: bool)
    requires
        old(enc).wf(),
        context_in_use(old(state)@),
        old(enc).pending() + 66 <= u64::MAX,
    ensures
        final(enc).wf(),
        context_in_use(final(state)@),
        (final(enc).fields(), final(state)@) == put_bits(old(enc).fields(), old(state)@, symbol_code(v as int, is_signed)),
        final(enc).pending() <= old(enc).pending() + symbol_code_len(v as int, is_signed),
        symbol_code_len(v as int, is_signed) <= 65,
{
    let ghost code = symbol_code(v as int, is_signed);
    let ghost f0 = enc.fields();
    let ghost st0 = state@;
    let ghost p0 = enc.pending();
    assert(code.take(0) =~= Seq::<(int, bool)>::empty());
    if v == 0 {
        put_code_step(enc, state, 0, true, Ghost(f0), Ghost(st0), Ghost(code), Ghost(0));
        assert(code.take(1) =~= code);
        return;
    }
    let a: u32 = if v < 0 {
        if is_signed { (-(v as i64)) as u32 } else { (v as i64 + 0x1_0000_0000i64) as u32 }
    } else {
        v as u32
    };
    assert(a as nat == symbol_magnitude(v as int, is_signed));
    // e = floor(log2(a))
    proof { lemma_ilog2_bounds(a as nat); }
    let mut t: u32 = a;
    let mut e: usize = 0;
    while t > 1
        invariant
            t >= 1,
            ilog2(a as nat) <= 31,
            ilog2(a as nat) == e + ilog2(t as nat),
        decreases t,
    {
        t = t / 2;
        e = e + 1;
    }
    assert(e <= 31);
    let ghost ee = e as int;
    assert(code.len() == 2 * ee + 2 + (if is_signed { 1int } else { 0int }));
    put_code_step(enc, state, 0, false, Ghost(f0), Ghost(st0), Ghost(code), Ghost(0));
    let mut i: usize = 0;
    while i < e
        invariant
            i <= e,
            e as int == ee,
            ee <= 31,
            ee == ilog2(a as nat),
            a as nat == symbol_magnitude(v as int, is_signed),
            v != 0,
            code == symbol_code(v as int, is_signed),
            code.len() == 2 * ee + 2 + (if is_signed { 1int } else { 0int }),
            enc.wf(),
            context_in_use(state@),
            (enc.fields(), state@) == put_bits(f0, st0, code.take(i + 1)),
            enc.pending() <= p0 + i + 1,
            p0 + 66 <= u64::MAX,
        decreases e - i,
    {
        let slot: usize = if i < 9 { 1 + i } else { 10 };
        put_code_step(enc, state, slot, true, Ghost(f0), Ghost(st0), Ghost(code), Ghost(i + 1));
        i = i + 1;
    }
    let slot: usize = if e < 9 { 1 + e } else { 10 };
    put_code_step(enc, state, slot, false, Ghost(f0), Ghost(st0), Ghost(code), Ghost(ee + 1));
    let mut j: usize = e;
    while j > 0
        invariant
            j <= e,
            e as int == ee,
            ee <= 31,
            ee == ilog2(a as nat),
            a as nat == symbol_magnitude(v as int, is_signed),
            v != 0,
            code == symbol_code(v as int, is_signed),
            code.len() == 2 * ee + 2 + (if is_signed { 1int } else { 0int }),
            enc.wf(),
            context_in_use(state@),
            (enc.fields(), state@) == put_bits(f0, st0, code.take(2 * ee + 2 - j)),
            enc.pending() <= p0 + 2 * ee + 2 - j,
            p0 + 66 <= u64::MAX,
        decreases j,
    {
        let i = j - 1;
        let slot: usize = if i < 9 { 22 + i } else { 31 };
        let bit = (a >> (i as u32)) & 1 == 1;
        proof {
            vstd::bits::lemma_u32_shr_is_div(a, i as u32);
            let sh = a >> (i as u32);
            assert(sh & 1 == sh % 2) by (bit_vector);
            assert(bit == bit_of(a as nat, i as nat));
        }
        put_code_step(enc, state, slot, bit, Ghost(f0), Ghost(st0), Ghost(code), Ghost(2 * ee + 2 - j));
        j = j - 1;
    }
    if is_signed {
        let slot: usize = if e < 10 { 11 + e } else { 21 };
        put_code_step(enc, state, slot, v < 0, Ghost(f0), Ghost(st0), Ghost(code), Ghost(2 * ee + 2));
        assert(code.take(2 * ee + 3) =~= code);
    } else {
        assert(code.take(2 * ee + 2) =~= code);
    }
}


/// One `get_rac` on slot `slot` of a context, with the default tables: the
/// bit, the registers after it and the context after it; `None` where the
/// refill would overflow the 32-bit `low`.
pub open spec fn dec_rac(r: DecoderRegisters, bytes: Seq<u8>, st: Seq<u8>, slot: int) -> Option<(bool, DecoderRegisters, Seq<u8>)> {
    if rac_decode_fits(r, bytes, st[slot]) {
        let (b, r2) = rac_decode(r, bytes, st[slot]);
        Some((b, r2, st.update(slot, next_state(st[slot], b))))
    } else {
        None
    }
}

/// The unary exponent of a symbol, read from exponent bit `e` on: the
/// exponent (32 where more than 31 ones were read), and what follows it.
pub open spec fn dec_exponent(r: DecoderRegisters, bytes: Seq<u8>, st: Seq<u8>, e: int) -> Option<(int, DecoderRegisters, Seq<u8>)>
    decreases 31 - e,
{
    if !(0 <= e <= 31) {
        None
    } else {
        match dec_rac(r, bytes, st, 1 + capped(e, 9)) {
            None => None,
            Some((b, r2, st2)) => if !b {
                Some((e, r2, st2))
            } else if e + 1 > 31 {
                Some((32, r2, st2))
            } else {
                dec_exponent(r2, bytes, st2, e + 1)
            },
        }
    }
}

/// The mantissa bits `i` down to 0, appended to `a`.
pub open spec fn dec_mantissa(r: DecoderRegisters, bytes: Seq<u8>, st: Seq<u8>, a: int, i: int) -> Option<(int, DecoderRegisters, Seq<u8>)>
    decreases i + 1,
{
    if i < 0 {
        Some((a, r, st))
    } else {
        match dec_rac(r, bytes, st, 22 + capped(i, 9)) {
            None => None,
            Some((b, r2, st2)) => dec_mantissa(r2, bytes, st2, 2 * a + (if b { 1int } else { 0int }), i - 1),
        }
    }
}

/// `x` reduced to a 32-bit two's-complement value.
pub open spec fn wrap_i32(x: int) -> int {
    let m = x % 0x1_0000_0000;
    if m >= 0x8000_0000 { m - 0x1_0000_0000 } else { m }
}

/// `get_symbol` (RFC 9043, section 3.8.1.2): the value read, the registers
/// and the context after it; `None` where a refill would overflow.
pub open spec fn get_symbol_result(r: DecoderRegisters, bytes: Seq<u8>, st: Seq<u8>, is_signed: bool) -> Option<(int, DecoderRegisters, Seq<u8>)> {
    match dec_rac(r, bytes, st, 0) {
        None => None,
        Some((b0, r1, st1)) => if b0 {
            Some((0, r1, st1))
        } else {
            match dec_exponent(r1, bytes, st1, 0) {
                None => None,
                Some((e, r2, st2)) => if e > 31 {
                    Some((INVALID_SYMBOL as int, r2, st2))
                } else {
                    match dec_mantissa(r2, bytes, st2, 1, e - 1) {
                        None => None,
                        Some((a, r3, st3)) => if is_signed {
                            match dec_rac(r3, bytes, st3, 11 + capped(e, 10)) {
                                None => None,
                                Some((neg, r4, st4)) => Some((wrap_i32(if neg { -a } else { a }), r4, st4)),
                            }
                        } else {
                            Some((wrap_i32(a), r3, st3))
                        },
                    }
                },
            }
        },
    }
}

fn get_code_step(dec: &mut RangeDecoderCpu, state: &mut [u8; 32], slot: usize, one: &[u8; 256], zero: &[u8; 256]) -> (bit: bool)
    requires
        old(dec).wf(),
        slot < 32,
        *one == DEFAULT_STATE_TRANSITION,
        forall|i: int| 0 <= i < 256 ==> #[trigger] zero[i] == zero_state_entry(DEFAULT_STATE_TRANSITION, i),
        dec_rac(old(dec).registers(), old(dec).input(), old(state)@, slot as int) is Some,
    ensures
        final(dec).wf(),
        final(dec).input() == old(dec).input(),
        dec_rac(old(dec).registers(), old(dec).input(), old(state)@, slot as int) == Some((bit, final(dec).registers(), final(state)@)),
{
    let mut s = state[slot];
    let b = dec.get_rac(&mut s, one, zero);
    state[slot] = s;
    proof {
        let (bb, _) = rac_decode(old(dec).registers(), old(dec).input(), old(state)@[slot as int]);
        assert(state@ =~= old(state)@.update(slot as int, next_state(old(state)@[slot as int], bb)));
    }
    b == 1
}

/// Reads one symbol with the 32 adaptive states of one context (RFC 9043,
/// section 3.8.1.2, `get_symbol`). An exponent of more than 31 ones gives
/// [`INVALID_SYMBOL`].
pub fn get_symbol(dec: &mut RangeDecoderCpu, state: &mut [u8; 32], is_signed: bool) -> (v: i32)
    requires
        old(dec).wf(),
        get_symbol_result(old(dec).registers(), old(dec).input(), old(state)@, is_signed) is Some,
    ensures
        final(dec).wf(),
        final(dec).input() == old(dec).input(),
        get_symbol_result(old(dec).registers(), old(dec).input(), old(state)@, is_signed)
            == Some((v as int, final(dec).registers(), final(state)@)),
{
    let one = one_state();
    let zero = zero_state();
    let ghost bytes = dec.input();
    let ghost whole = get_symbol_result(dec.registers(), bytes, state@, is_signed);
    if get_code_step(dec, state, 0, &one, &zero) {
        return 0;
    }
    let ghost r1 = dec.registers();
    let ghost st1 = state@;
    let mut e: usize = 0;
    loop
        invariant_except_break
            0 <= e <= 31,
            one == DEFAULT_STATE_TRANSITION,
            forall|k: int| 0 <= k < 256 ==> #[trigger] zero[k] == zero_state_entry(DEFAULT_STATE_TRANSITION, k),
            dec.wf(),
            dec.input() == bytes,
            dec_exponent(r1, bytes, st1, 0) == dec_exponent(dec.registers(), bytes, state@, e as int),
            dec_exponent(r1, bytes, st1, 0) is Some,
        ensures
            0 <= e <= 32,
            dec.wf(),
            dec.input() == bytes,
            dec_exponent(r1, bytes, st1, 0) == Some((e as int, dec.registers(), state@)),
        decreases 32 - e,
    {
        let slot: usize = if e < 9 { 1 + e } else { 10 };
        let b = get_code_step(dec, state, slot, &one, &zero);
        if !b {
            break;
        }
        e = e + 1;
        if e > 31 {
            break;
        }
    }
    if e > 31 {
        return INVALID_SYMBOL;
    }
    let ghost r2 = dec.registers();
    let ghost st2 = state@;
    let mut a: u32 = 1;
    let mut i: usize = e;
    proof { vstd::arithmetic::power2::lemma2_to64(); }
    while i > 0
        invariant
            i <= e <= 31,
            one == DEFAULT_STATE_TRANSITION,
            forall|k: int| 0 <= k < 256 ==> #[trigger] zero[k] == zero_state_entry(DEFAULT_STATE_TRANSITION, k),
            dec.wf(),
            dec.input() == bytes,
            dec_mantissa(r2, bytes, st2, 1, e - 1) == dec_mantissa(dec.registers(), bytes, state@, a as int, i - 1),
            dec_mantissa(r2, bytes, st2, 1, e - 1) is Some,
            (a as nat) < pow2((e - i + 1) as nat),
        decreases i,
    {
        let slot: usize = if i - 1 < 9 { 22 + (i - 1) } else { 31 };
        let b = get_code_step(dec, state, slot, &one, &zero);
        proof {
            vstd::arithmetic::power2::lemma_pow2_unfold((e - i + 2) as nat);
            if e - i + 2 < 32 {
                vstd::arithmetic::power2::lemma_pow2_strictly_increases((e - i + 2) as nat, 32);
            }
            vstd::arithmetic::power2::lemma2_to64();
        }
        a = a + a + (if b { 1u32 } else { 0u32 });
        i = i - 1;
    }
    let v64: i64 = if is_signed {
        let slot: usize = if e < 10 { 11 + e } else { 21 };
        let neg = get_code_step(dec, state, slot, &one, &zero);
        if neg { -(a as i64) } else { a as i64 }
    } else {
        a as i64
    };
    let y: i64 = if v64 < 0 { v64 + 0x1_0000_0000i64 } else { v64 };
    let z: i64 = if y >= 0x8000_0000i64 { y - 0x1_0000_0000i64 } else { y };
    proof {
        let m = v64 as int % 0x1_0000_0000;
        assert(y as int == m);
    }
    z as i32
}


fn try_code_step(dec: &mut RangeDecoderCpu, state: &mut [u8; 32], slot: usize, one: &[u8; 256], zero: &[u8; 256]) -> (r: Option<bool>)
    requires
        old(dec).wf(),
        slot < 32,
        *one == DEFAULT_STATE_TRANSITION,
        forall|i: int| 0 <= i < 256 ==> #[trigger] zero[i] == zero_state_entry(DEFAULT_STATE_TRANSITION, i),
    ensures
        final(dec).wf(),
        final(dec).input() == old(dec).input(),
        match dec_rac(old(dec).registers(), old(dec).input(), old(state)@, slot as int) {
            None => r is None,
            Some((b, r2, st2)) => r == Some(b) && final(dec).registers() == r2 && final(state)@ == st2,
        },
{
    if !dec.rac_fits(state[slot]) {
        return None;
    }
    Some(get_code_step(dec, state, slot, one, zero))
}

/// [`get_symbol`] where its `requires` may fail: `None` where a refill
/// would overflow the decoder's 32-bit `low` (see [`get_symbol_result`]).
#[verifier::spinoff_prover]
#[verifier::rlimit(40)]
pub fn try_get_symbol(dec: &mut RangeDecoderCpu, state: &mut [u8; 32], is_signed: bool) -> (v: Option<i32>)
    requires
        old(dec).wf(),
    ensures
        final(dec).wf(),
        final(dec).input() == old(dec).input(),
        match get_symbol_result(old(dec).registers(), old(dec).input(), old(state)@, is_signed) {
            None => v is None,
            Some((x, r2, st2)) => v == Some(x as i32) && x == x as i32 && final(dec).registers() == r2 && final(state)@ == st2,
        },
{
    let one = one_state();
    let zero = zero_state();
    let ghost bytes = dec.input();
    let ghost r0 = dec.registers();
    let ghost st0 = state@;
    let b0 = match try_code_step(dec, state, 0, &one, &zero) {
        None => {
            return None;
        },
        Some(b) => b,
    };
    if b0 {
        return Some(0);
    }
    let ghost r1 = dec.registers();
    let ghost st1 = state@;
    let mut e: usize = 0;
    loop
        invariant_except_break
            0 <= e <= 31,
            one == DEFAULT_STATE_TRANSITION,
            forall|k: int| 0 <= k < 256 ==> #[trigger] zero[k] == zero_state_entry(DEFAULT_STATE_TRANSITION, k),
            dec.wf(),
            dec.input() == bytes,
            dec_exponent(r1, bytes, st1, 0) == dec_exponent(dec.registers(), bytes, state@, e as int),
            bytes == old(dec).input(),
            r0 == old(dec).registers(),
            st0 == old(state)@,
            dec_rac(r0, bytes, st0, 0) == Some((false, r1, st1)),
        ensures
            0 <= e <= 32,
            one == DEFAULT_STATE_TRANSITION,
            forall|k: int| 0 <= k < 256 ==> #[trigger] zero[k] == zero_state_entry(DEFAULT_STATE_TRANSITION, k),
            dec.wf(),
            dec.input() == bytes,
            dec_exponent(r1, bytes, st1, 0) == Some((e as int, dec.registers(), state@)),
        decreases 32 - e,
    {
        let slot: usize = if e < 9 { 1 + e } else { 10 };
        let ghost rc = dec.registers();
        let ghost sc = state@;
        let b = match try_code_step(dec, state, slot, &one, &zero) {
            None => {
                assert(dec_exponent(rc, bytes, sc, e as int) is None);
                return None;
            },
            Some(b) => b,
        };
        if !b {
            break;
        }
        e = e + 1;
        if e > 31 {
            break;
        }
    }
    if e > 31 {
        return Some(INVALID_SYMBOL);
    }
    let ghost r2 = dec.registers();
    let ghost st2 = state@;
    let mut a: u32 = 1;
    let mut i: usize = e;
    proof { vstd::arithmetic::power2::lemma2_to64(); }
    while i > 0
        invariant
            i <= e <= 31,
            one == DEFAULT_STATE_TRANSITION,
            forall|k: int| 0 <= k < 256 ==> #[trigger] zero[k] == zero_state_entry(DEFAULT_STATE_TRANSITION, k),
            dec.wf(),
            dec.input() == bytes,
            dec_mantissa(r2, bytes, st2, 1, e - 1) == dec_mantissa(dec.registers(), bytes, state@, a as int, i - 1),
            (a as nat) < pow2((e - i + 1) as nat),
            bytes == old(dec).input(),
            r0 == old(dec).registers(),
            st0 == old(state)@,
            dec_rac(r0, bytes, st0, 0) == Some((false, r1, st1)),
            dec_exponent(r1, bytes, st1, 0) == Some((e as int, r2, st2)),
        decreases i,
    {
        let slot: usize = if i - 1 < 9 { 22 + (i - 1) } else { 31 };
        let ghost rc = dec.registers();
        let ghost sc = state@;
        let ghost ac = a as int;
        let b = match try_code_step(dec, state, slot, &one, &zero) {
            None => {
                assert(dec_mantissa(rc, bytes, sc, ac, i - 1) is None);
                return None;
            },
            Some(b) => b,
        };
        proof {
            vstd::arithmetic::power2::lemma_pow2_unfold((e - i + 2) as nat);
            if e - i + 2 < 32 {
                vstd::arithmetic::power2::lemma_pow2_strictly_increases((e - i + 2) as nat, 32);
            }
            vstd::arithmetic::power2::lemma2_to64();
        }
        a = a + a + (if b { 1u32 } else { 0u32 });
        i = i - 1;
    }
    let v64: i64 = if is_signed {
        let slot: usize = if e < 10 { 11 + e } else { 21 };
        assert(dec_mantissa(r2, bytes, st2, 1, e - 1) == Some((a as int, dec.registers(), state@)));
        let neg = match try_code_step(dec, state, slot, &one, &zero) {
            None => {
                return None;
            },
            Some(b) => b,
        };
        if neg { -(a as i64) } else { a as i64 }
    } else {
        a as i64
    };
    let y: i64 = if v64 < 0 { v64 + 0x1_0000_0000i64 } else { v64 };
    let z: i64 = if y >= 0x8000_0000i64 { y - 0x1_0000_0000i64 } else { y };
    proof {
        let m = v64 as int % 0x1_0000_0000;
        assert(y as int == m);
    }
    Some(z as i32)
}

} // verus!
