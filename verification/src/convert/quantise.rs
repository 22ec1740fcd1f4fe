//! Rounding to a gamut's grid, and putting a generated palette in order.
//! Median-cut palette generation itself is floating point and is not part
//! of this library.
use vstd::prelude::*;

use vstd::arithmetic::power2::{
    lemma2_to64, lemma_pow2_pos, lemma_pow2_strictly_increases, lemma_pow2_unfold, pow2,
};

use crate::mediaspec::Rgb;

verus! {

/// `2^bits - 1`: the highest level of a `bits`-deep gun.
pub open spec fn gun_levels(bits: u8) -> int
    decreases bits,
{
    if bits == 0 {
        0
    } else {
        2 * gun_levels((bits - 1) as u8) + 1
    }
}

/// The gamut level an 8-bit channel rounds to: `(v*levels + 127) / 255`.
pub open spec fn gamut_level(v: u8, bits: u8) -> int {
    (v * gun_levels(bits) + 127) / 255
}

/// The 8-bit display value of a channel rounded to a `bits`-deep gun:
/// `(level*255 + levels/2) / levels`. For 4 bits this is `level * 17`.
pub open spec fn gamut_round(v: u8, bits: u8) -> int {
    (gamut_level(v, bits) * 255 + gun_levels(bits) / 2) / gun_levels(bits)
}

/// The 32-bit arithmetic of the rounding does not overflow: a gun of 1 to
/// 31 bits, and both intermediate sums fit.
pub open spec fn gamut_fits(v: u8, bits: u8) -> bool {
    &&& 1 <= bits <= 31
    &&& v * gun_levels(bits) + 127 <= u32::MAX
    &&& gamut_level(v, bits) * 255 + gun_levels(bits) / 2 <= u32::MAX
}

proof fn lemma_gun_levels_pow(bits: u8)
    ensures
        gun_levels(bits) == pow2(bits as nat) - 1,
    decreases bits,
{
    if bits > 0 {
        lemma_gun_levels_pow((bits - 1) as u8);
        lemma_pow2_unfold(bits as nat);
    } else {
        lemma2_to64();
    }
}

proof fn lemma_gun_levels(bits: u8)
    requires
        bits <= 31,
    ensures
        gun_levels(bits) >= 0,
        bits >= 1 ==> gun_levels(bits) >= 1,
        gun_levels(bits) < 0x8000_0000,
{
    lemma_gun_levels_pow(bits);
    lemma2_to64();
    lemma_pow2_pos(bits as nat);
    if bits < 31 {
        lemma_pow2_strictly_increases(bits as nat, 31);
    }
    if bits >= 1 {
        lemma_pow2_strictly_increases(0, bits as nat);
    }
}

/// `(1 << bits) - 1` computed by doubling.
fn levels_of(bits: u8) -> (r: u32)
    requires
        1 <= bits <= 31,
    ensures
        r == gun_levels(bits),
{
    let mut r: u32 = 0;
    let mut i: u8 = 0;
    while i < bits
        invariant
            i <= bits <= 31,
            r == gun_levels(i),
        decreases bits - i,
    {
        proof {
            lemma_gun_levels((i + 1) as u8);
        }
        r = 2 * r + 1;
        i += 1;
    }
    r
}

/// Round one 8-bit channel to a `bits_per_gun` gamut and scale back to
/// 8-bit display form: `level = (v*levels + 127) / 255`, `display =
/// (level*255 + levels/2) / levels`.
pub fn round_channel_to_gamut(v: u8, bits_per_gun: u8) -> (r: u8)
    requires
        gamut_fits(v, bits_per_gun),
    ensures
        r == gamut_round(v, bits_per_gun),
{
    proof {
        lemma_gun_levels(bits_per_gun);
    }
    let levels = levels_of(bits_per_gun);
    let level = ((v as u32) * levels + 127) / 255;
    assert(level <= levels) by (nonlinear_arith)
        requires
            level as int == (v as int * levels as int + 127) / 255,
            v <= 255,
    ;
    let display = (level * 255 + levels / 2) / levels;
    assert(display <= 255) by (nonlinear_arith)
        requires
            display as int == (level as int * 255 + levels as int / 2) / levels as int,
            level <= levels,
            levels >= 1,
    ;
    display as u8
}

/// On a 4-bit gun (the Amiga OCS's) a rounded channel is its level's
/// nibble written twice (`level * 17`), and rounding is idempotent: a
/// channel already on the grid rounds to itself.
pub proof fn lemma_four_bit_round_is_nibble_pair_and_idempotent(v: u8)
    ensures
        0 <= gamut_level(v, 4) <= 15,
        gamut_round(v, 4) == 17 * gamut_level(v, 4),
        gamut_round(gamut_round(v, 4) as u8, 4) == gamut_round(v, 4),
{
    assert(gun_levels(4) == 15) by {
        reveal_with_fuel(gun_levels, 5);
    }
    let level = gamut_level(v, 4);
    assert(level == (v * 15 + 127) / 255);
    assert(0 <= level <= 15) by (nonlinear_arith)
        requires
            level == (v * 15 + 127) / 255,
            0 <= v <= 255,
    ;
    assert((level * 255 + 7) / 15 == 17 * level) by (nonlinear_arith)
        requires
            0 <= level <= 15,
    ;
    let d = 17 * level;
    assert(0 <= d <= 255);
    assert((d * 15 + 127) / 255 == level) by (nonlinear_arith)
        requires
            d == 17 * level,
            0 <= level <= 15,
    ;
    assert(gamut_level(d as u8, 4) == level);
}

/// The order a generated palette is kept in: by red, then green, then blue.
pub open spec fn colour_key(c: Rgb) -> int {
    c.r * 65536 + c.g * 256 + c.b
}

proof fn lemma_colour_key_injective(a: Rgb, b: Rgb)
    ensures
        colour_key(a) == colour_key(b) ==> a == b,
{
    let (ar, ag, ab) = (a.r as int, a.g as int, a.b as int);
    let (br, bg, bb) = (b.r as int, b.g as int, b.b as int);
    assert(ar * 65536 + ag * 256 + ab == br * 65536 + bg * 256 + bb ==> ar == br && ag == bg && ab == bb)
        by (nonlinear_arith)
        requires
            0 <= ar < 256,
            0 <= ag < 256,
            0 <= ab < 256,
            0 <= br < 256,
            0 <= bg < 256,
            0 <= bb < 256,
    ;
}

fn key_of(c: Rgb) -> (k: u32)
    ensures
        k == colour_key(c),
{
    (c.r as u32) * 65536 + (c.g as u32) * 256 + (c.b as u32)
}

/// The distinct colours, in ascending `(r, g, b)` order: a generated
/// palette after rounding (which can merge neighbouring buckets).
pub fn sorted_distinct_colours(v: &[Rgb]) -> (r: Vec<Rgb>)
    ensures
        forall|i: int, j: int| 0 <= i < j < r@.len() ==> colour_key(#[trigger] r@[i]) < colour_key(#[trigger] r@[j]),
        forall|c: Rgb| r@.contains(c) <==> v@.contains(c),
{
    let mut out: Vec<Rgb> = Vec::new();
    let mut i: usize = 0;
    while i < v.len()
        invariant
            i <= v@.len(),
            forall|a: int, b: int| 0 <= a < b < out@.len() ==> colour_key(#[trigger] out@[a]) < colour_key(#[trigger] out@[b]),
            forall|c: Rgb| out@.contains(c) <==> v@.take(i as int).contains(c),
        decreases v@.len() - i,
    {
        let c = v[i];
        let k = key_of(c);
        let mut p: usize = 0;
        while p < out.len() && key_of(out[p]) < k
            invariant
                p <= out@.len(),
                k == colour_key(c),
                forall|a: int| 0 <= a < p ==> colour_key(#[trigger] out@[a]) < colour_key(c),
            decreases out@.len() - p,
        {
            p += 1;
        }
        let ghost before = out@;
        let dup = p < out.len() && key_of(out[p]) == k;
        if dup {
            proof {
                lemma_colour_key_injective(out@[p as int], c);
            }
        } else {
            out.insert(p, c);
            proof {
                assert forall|a: int, b: int| 0 <= a < b < out@.len() implies colour_key(#[trigger] out@[a])
                    < colour_key(#[trigger] out@[b]) by {
                    if b < p {
                    } else if b == p {
                    } else if a < p {
                        assert(out@[b] == before[b - 1]);
                        if p < before.len() {
                            assert(colour_key(before[p as int]) > colour_key(c));
                            if b - 1 > p {
                                assert(colour_key(before[p as int]) < colour_key(before[b - 1]));
                            }
                        }
                    } else if a == p {
                        assert(out@[b] == before[b - 1]);
                        assert(colour_key(before[p as int]) > colour_key(c));
                        if b - 1 > p {
                            assert(colour_key(before[p as int]) < colour_key(before[b - 1]));
                        }
                    } else {
                        assert(out@[a] == before[a - 1]);
                        assert(out@[b] == before[b - 1]);
                    }
                }
            }
        }
        proof {
            let t0 = v@.take(i as int);
            let t1 = v@.take(i + 1);
            assert(t1 =~= t0.push(c));
            assert forall|x: Rgb| out@.contains(x) <==> t1.contains(x) by {
                if out@.contains(x) {
                    let q = choose|q: int| 0 <= q < out@.len() && out@[q] == x;
                    if x != c {
                        if !dup {
                            if q < p {
                                assert(before[q] == x);
                            } else {
                                assert(before[q - 1] == x);
                            }
                        }
                        assert(before.contains(x));
                        assert(t0.contains(x));
                        let w = choose|w: int| 0 <= w < i && t0[w] == x;
                        assert(t1[w] == x);
                    } else {
                        assert(t1[i as int] == c);
                    }
                }
                if t1.contains(x) {
                    let w = choose|w: int| 0 <= w < i + 1 && t1[w] == x;
                    if w < i {
                        assert(t0[w] == x);
                        assert(before.contains(x));
                        let q = choose|q: int| 0 <= q < before.len() && before[q] == x;
                        if dup {
                            assert(out@[q] == x);
                        } else if q < p {
                            assert(out@[q] == x);
                        } else {
                            assert(out@[q + 1] == x);
                        }
                    } else {
                        assert(x == c);
                        if dup {
                            assert(out@[p as int] == c);
                        } else {
                            assert(out@[p as int] == c);
                        }
                    }
                }
            }
        }
        i += 1;
    }
    assert(v@.take(v@.len() as int) =~= v@);
    out
}

} // verus!
