//! The tick -> sqrt price ladder (Q64.64), with the proof that it never overflows on the
//! ticks that Whirlpool accepts.
//!
//! The ladder multiplies a starting ratio by one constant per set bit of `|tick|`,
//! flooring after each step; for positive ticks the ratio is Q32.96 and the result is
//! shifted down by 32 bits at the end.
use vstd::prelude::*;
use vstd::arithmetic::div_mod::{
    lemma_div_is_ordered, lemma_div_multiples_vanish, lemma_fundamental_div_mod,
    lemma_mod_breakdown, lemma_mod_bound,
};
use vstd::arithmetic::mul::{lemma_mul_inequality, lemma_mul_is_commutative};
use vstd::arithmetic::power2::{lemma2_to64, lemma_pow2_adds, lemma_pow2_pos, pow2};
use vstd::bits::{lemma_u128_shr_is_div, lemma_u32_shr_is_div};
use crate::wide::{mul_u128, two64};

verus! {

/// Bit `k` of `t`.
pub open spec fn bit(t: nat, k: nat) -> bool {
    (t / pow2(k)) % 2 == 1
}

/// 2^96, the scale of the positive-tick ratio.
pub open spec fn two96() -> nat {
    0x1_0000_0000_0000_0000_0000_0000
}

/// Starting ratio for odd positive ticks: sqrt(1.0001) in Q32.96.
pub open spec fn pos_odd() -> nat {
    79232123823359799118286999567
}

/// Starting ratio for odd negative ticks: 1 / sqrt(1.0001) in Q64.64.
pub open spec fn neg_odd() -> nat {
    18445821805675392311
}

/// The Q32.96 factor for bit `k` (1..=18) of a positive tick: sqrt(1.0001)^(2^k).
pub open spec fn pos_factor(k: nat) -> nat {
    if k == 1 {
        79236085330515764027303304731
    } else if k == 2 {
        79244008939048815603706035061
    } else if k == 3 {
        79259858533276714757314932305
    } else if k == 4 {
        79291567232598584799939703904
    } else if k == 5 {
        79355022692464371645785046466
    } else if k == 6 {
        79482085999252804386437311141
    } else if k == 7 {
        79736823300114093921829183326
    } else if k == 8 {
        80248749790819932309965073892
    } else if k == 9 {
        81282483887344747381513967011
    } else if k == 10 {
        83390072131320151908154831281
    } else if k == 11 {
        87770609709833776024991924138
    } else if k == 12 {
        97234110755111693312479820773
    } else if k == 13 {
        119332217159966728226237229890
    } else if k == 14 {
        179736315981702064433883588727
    } else if k == 15 {
        407748233172238350107850275304
    } else if k == 16 {
        2098478828474011932436660412517
    } else if k == 17 {
        55581415166113811149459800483533
    } else {
        38992368544603139932233054999993551
    }
}

/// The Q64.64 factor for bit `k` (1..=18) of a negative tick: 1 / sqrt(1.0001)^(2^k).
pub open spec fn neg_factor(k: nat) -> nat {
    if k == 1 {
        18444899583751176498
    } else if k == 2 {
        18443055278223354162
    } else if k == 3 {
        18439367220385604838
    } else if k == 4 {
        18431993317065449817
    } else if k == 5 {
        18417254355718160513
    } else if k == 6 {
        18387811781193591352
    } else if k == 7 {
        18329067761203520168
    } else if k == 8 {
        18212142134806087854
    } else if k == 9 {
        17980523815641551639
    } else if k == 10 {
        17526086738831147013
    } else if k == 11 {
        16651378430235024244
    } else if k == 12 {
        15030750278693429944
    } else if k == 13 {
        12247334978882834399
    } else if k == 14 {
        8131365268884726200
    } else if k == 15 {
        3584323654723342297
    } else if k == 16 {
        696457651847595233
    } else if k == 17 {
        26294789957452057
    } else {
        37481735321082
    }
}

/// The positive-tick ratio after the bits `0..=k` of `t` (Q32.96).
pub open spec fn pos_ratio(t: nat, k: nat) -> nat
    decreases k,
{
    if k == 0 {
        if t % 2 == 1 {
            pos_odd()
        } else {
            two96()
        }
    } else if bit(t, k) {
        (pos_ratio(t, (k - 1) as nat) * pos_factor(k)) / two96()
    } else {
        pos_ratio(t, (k - 1) as nat)
    }
}

/// The negative-tick ratio after the bits `0..=k` of `a = |tick|` (Q64.64).
pub open spec fn neg_ratio(a: nat, k: nat) -> nat
    decreases k,
{
    if k == 0 {
        if a % 2 == 1 {
            neg_odd()
        } else {
            two64()
        }
    } else if bit(a, k) {
        (neg_ratio(a, (k - 1) as nat) * neg_factor(k)) / two64()
    } else {
        neg_ratio(a, (k - 1) as nat)
    }
}

/// The sqrt price (Q64.64) at `tick`.
pub open spec fn sqrt_price_at(tick: int) -> nat {
    if tick >= 0 {
        pos_ratio(tick as nat, 18) / 0x1_0000_0000
    } else {
        neg_ratio((-tick) as nat, 18)
    }
}

/// Ticks on which the ladder is defined: every negative tick but `i32::MIN`, and every
/// non-negative tick whose low 19 bits (the only ones the ladder reads) stay within
/// `MAX_TICK_INDEX`.
pub open spec fn tick_in_domain(tick: int) -> bool {
    &&& i32::MIN < tick <= i32::MAX
    &&& tick >= 0 ==> tick % 0x80000 <= 443636
}

pub(crate) fn pos_factor_at(k: u32) -> (f: u128)
    requires
        1 <= k <= 18,
    ensures
        f == pos_factor(k as nat),
{
    match k {
        1 => 79236085330515764027303304731,
        2 => 79244008939048815603706035061,
        3 => 79259858533276714757314932305,
        4 => 79291567232598584799939703904,
        5 => 79355022692464371645785046466,
        6 => 79482085999252804386437311141,
        7 => 79736823300114093921829183326,
        8 => 80248749790819932309965073892,
        9 => 81282483887344747381513967011,
        10 => 83390072131320151908154831281,
        11 => 87770609709833776024991924138,
        12 => 97234110755111693312479820773,
        13 => 119332217159966728226237229890,
        14 => 179736315981702064433883588727,
        15 => 407748233172238350107850275304,
        16 => 2098478828474011932436660412517,
        17 => 55581415166113811149459800483533,
        _ => 38992368544603139932233054999993551,
    }
}

pub(crate) fn neg_factor_at(k: u32) -> (f: u128)
    requires
        1 <= k <= 18,
    ensures
        f == neg_factor(k as nat),
{
    match k {
        1 => 18444899583751176498,
        2 => 18443055278223354162,
        3 => 18439367220385604838,
        4 => 18431993317065449817,
        5 => 18417254355718160513,
        6 => 18387811781193591352,
        7 => 18329067761203520168,
        8 => 18212142134806087854,
        9 => 17980523815641551639,
        10 => 17526086738831147013,
        11 => 16651378430235024244,
        12 => 15030750278693429944,
        13 => 12247334978882834399,
        14 => 8131365268884726200,
        15 => 3584323654723342297,
        16 => 696457651847595233,
        17 => 26294789957452057,
        _ => 37481735321082,
    }
}

// ------------------------------------------------------------------ overflow bound

/// Each step multiplies by at least 2^96, so the ratio never decreases.
proof fn lemma_pos_step_grows(t: nat, k: nat)
    requires
        1 <= k <= 18,
    ensures
        pos_ratio(t, (k - 1) as nat) <= pos_ratio(t, k),
{
    let r = pos_ratio(t, (k - 1) as nat);
    if bit(t, k) {
        assert(r * two96() <= r * pos_factor(k)) by {
            lemma_mul_inequality(two96() as int, pos_factor(k) as int, r as int);
            lemma_mul_is_commutative(r as int, two96() as int);
            lemma_mul_is_commutative(r as int, pos_factor(k) as int);
        }
        lemma_div_is_ordered((r * two96()) as int, (r * pos_factor(k)) as int, two96() as int);
        lemma_div_multiples_vanish(r as int, two96() as int);
        lemma_mul_is_commutative(r as int, two96() as int);
    }
}

proof fn lemma_pos_grows_to(t: nat, j: nat, k: nat)
    requires
        j <= k <= 18,
    ensures
        pos_ratio(t, j) <= pos_ratio(t, k),
    decreases k - j,
{
    if j < k {
        lemma_pos_grows_to(t, j, (k - 1) as nat);
        lemma_pos_step_grows(t, k);
    }
}

/// The ratio never drops below 2^96.
pub proof fn lemma_pos_at_least_base(t: nat, k: nat)
    requires
        k <= 18,
    ensures
        pos_ratio(t, k) >= two96(),
{
    lemma_pos_grows_to(t, 0, k);
}

/// Flooring a product by a fixed factor is monotone.
proof fn lemma_scaled_monotone(r: nat, s: nat, f: nat)
    requires
        r <= s,
    ensures
        (r * f) / two96() <= (s * f) / two96(),
{
    lemma_mul_inequality(r as int, s as int, f as int);
    lemma_div_is_ordered((r * f) as int, (s * f) as int, two96() as int);
}

/// `x mod 2^(k+1)` splits into bit `k` and `x mod 2^k`.
proof fn lemma_low_bits_split(x: nat, k: nat)
    ensures
        x % pow2(k + 1) == (if bit(x, k) { pow2(k) } else { 0 }) + x % pow2(k),
        x % pow2(k) < pow2(k),
{
    lemma_pow2_pos(k);
    lemma_pow2_adds(k, 1);
    lemma2_to64();
    lemma_mod_breakdown(x as int, pow2(k) as int, 2);
    lemma_mod_bound(x as int, pow2(k) as int);
    lemma_mod_bound((x / pow2(k)) as int, 2);
    assert(pow2(k + 1) == pow2(k) * 2);
    let b = (x / pow2(k)) % 2;
    assert(pow2(k) * b == if bit(x, k) { pow2(k) } else { 0 }) by {
        if b == 1 {
        } else {
            assert(b == 0);
        }
    }
}

/// The fact behind the bound: the ratio with all bits below `k` set stays under the
/// factor of bit `k`.
proof fn lemma_all_ones_below_factor(k: nat)
    requires
        1 <= k <= 18,
    ensures
        pos_ratio(524287, (k - 1) as nat) + 0x100_0000_0000 <= pos_factor(k),
{
    lemma2_to64();
    assert(pos_ratio(524287, 0) == 79232123823359799118286999567);
    assert(pos_ratio(524287, 1) == 79240047035742135098198828266);
    assert(pos_ratio(524287, 2) == 79255895837549753882639819013);
    assert(pos_ratio(524287, 3) == 79287602951555555546117890668);
    assert(pos_ratio(524287, 4) == 79351055238886287249021387662);
    assert(pos_ratio(524287, 5) == 79478112192985828264683945743);
    assert(pos_ratio(524287, 6) == 79732836757937260015387211174);
    assert(pos_ratio(524287, 7) == 80244737654238127488718973602);
    assert(pos_ratio(524287, 8) == 81278420067934296167840804769);
    assert(pos_ratio(524287, 9) == 83385902940400299275461041535);
    assert(pos_ratio(524287, 10) == 87766221508460644832294642638);
    assert(pos_ratio(524287, 11) == 97229249414171470058378025113);
    assert(pos_ratio(524287, 12) == 119326250996567256184535330018);
    assert(pos_ratio(524287, 13) == 179727329839858001577522965083);
    assert(pos_ratio(524287, 14) == 407727847289508202411734771016);
    assert(pos_ratio(524287, 15) == 2098373912401228121358801911315);
    assert(pos_ratio(524287, 16) == 55578636303768444659257259827406);
    assert(pos_ratio(524287, 17) == 38990419072385107768429658011568861);
}

/// A tick whose low bits are no larger carries no larger ratio.
proof fn lemma_pos_ratio_ordered(t: nat, s: nat, k: nat)
    requires
        k <= 18,
        t % pow2(k + 1) <= s % pow2(k + 1),
    ensures
        pos_ratio(t, k) <= pos_ratio(s, k),
    decreases k,
{
    lemma2_to64();
    if k == 0 {
        assert(pow2(1) == 2);
        assert(524287nat % 2 == 1);
    } else {
        let j = (k - 1) as nat;
        lemma_low_bits_split(t, k);
        lemma_low_bits_split(s, k);
        lemma_pow2_pos(k);
        if bit(t, k) == bit(s, k) {
            lemma_pos_ratio_ordered(t, s, j);
            if bit(t, k) {
                lemma_scaled_monotone(pos_ratio(t, j), pos_ratio(s, j), pos_factor(k));
            }
        } else {
            assert(!bit(t, k) && bit(s, k));
            // t below 2^k in its low bits: its ratio is at most that of all ones
            lemma_low_bits_split(524287, k);
            assert(524287nat % pow2(k) == pow2(k) - 1) by {
                lemma_all_ones_low_bits(k);
            }
            lemma_pos_ratio_ordered(t, 524287, j);
            lemma_all_ones_below_factor(k);
            lemma_pos_at_least_base(s, j);
            lemma_scaled_monotone(two96(), pos_ratio(s, j), pos_factor(k));
            lemma_div_multiples_vanish(pos_factor(k) as int, two96() as int);
            lemma_mul_is_commutative(pos_factor(k) as int, two96() as int);
        }
    }
}

/// 524287 = 2^19 - 1 has all of its low bits set.
proof fn lemma_all_ones_low_bits(k: nat)
    requires
        1 <= k <= 18,
    ensures
        524287nat % pow2(k) == pow2(k) - 1,
{
    lemma2_to64();
    if k == 1 {
        assert(pow2(1) == 2);
        assert(524287nat % 2 == 1);

    } else if k == 2 {
        assert(pow2(2) == 4);
        assert(524287nat % 4 == 3);

    } else if k == 3 {
        assert(pow2(3) == 8);
        assert(524287nat % 8 == 7);

    } else if k == 4 {
        assert(pow2(4) == 16);
        assert(524287nat % 16 == 15);

    } else if k == 5 {
        assert(pow2(5) == 32);
        assert(524287nat % 32 == 31);

    } else if k == 6 {
        assert(pow2(6) == 64);
        assert(524287nat % 64 == 63);

    } else if k == 7 {
        assert(pow2(7) == 128);
        assert(524287nat % 128 == 127);

    } else if k == 8 {
        assert(pow2(8) == 256);
        assert(524287nat % 256 == 255);

    } else if k == 9 {
        assert(pow2(9) == 512);
        assert(524287nat % 512 == 511);

    } else if k == 10 {
        assert(pow2(10) == 1024);
        assert(524287nat % 1024 == 1023);

    } else if k == 11 {
        assert(pow2(11) == 2048);
        assert(524287nat % 2048 == 2047);

    } else if k == 12 {
        assert(pow2(12) == 4096);
        assert(524287nat % 4096 == 4095);

    } else if k == 13 {
        assert(pow2(13) == 8192);
        assert(524287nat % 8192 == 8191);

    } else if k == 14 {
        assert(pow2(14) == 16384);
        assert(524287nat % 16384 == 16383);

    } else if k == 15 {
        assert(pow2(15) == 32768);
        assert(524287nat % 32768 == 32767);

    } else if k == 16 {
        assert(pow2(16) == 65536);
        assert(524287nat % 65536 == 65535);

    } else if k == 17 {
        assert(pow2(17) == 131072);
        assert(524287nat % 131072 == 131071);
    } else {
        assert(pow2(18) == 262144);
        assert(524287nat % 262144 == 262143);
    }
}

/// On its domain, every intermediate positive-tick ratio fits in 128 bits.
pub proof fn lemma_pos_ratio_fits(t: nat, k: nat)
    requires
        k <= 18,
        t % 0x80000 <= 443636,
    ensures
        pos_ratio(t, k) <= u128::MAX,
{
    lemma2_to64();
    assert(pow2(19) == 0x80000);
    assert(pow2(18 + 1) == 0x80000);
    assert(443636nat % 0x80000 == 443636);
    assert(t % pow2(18 + 1) <= 443636nat % pow2(18 + 1));
    lemma_pos_ratio_ordered(t, 443636, 18);
    assert(pos_ratio(443636, 0) == 79228162514264337593543950336);
    assert(pos_ratio(443636, 1) == 79228162514264337593543950336);
    assert(pos_ratio(443636, 2) == 79244008939048815603706035061);
    assert(pos_ratio(443636, 3) == 79244008939048815603706035061);
    assert(pos_ratio(443636, 4) == 79307426338960776842885539843);
    assert(pos_ratio(443636, 5) == 79434413434441317004961661155);
    assert(pos_ratio(443636, 6) == 79688997946402660867703038957);
    assert(pos_ratio(443636, 7) == 80200617388689977366536547152);
    assert(pos_ratio(443636, 8) == 80200617388689977366536547152);
    assert(pos_ratio(443636, 9) == 80200617388689977366536547152);
    assert(pos_ratio(443636, 10) == 84413610726049114366347414816);
    assert(pos_ratio(443636, 11) == 84413610726049114366347414816);
    assert(pos_ratio(443636, 12) == 84413610726049114366347414816);
    assert(pos_ratio(443636, 13) == 84413610726049114366347414816);
    assert(pos_ratio(443636, 14) == 191499978405809145203445059952);
    assert(pos_ratio(443636, 15) == 985555834813563612221638545219);
    assert(pos_ratio(443636, 16) == 985555834813563612221638545219);
    assert(pos_ratio(443636, 17) == 691402984567465602855604295835822);
    assert(pos_ratio(443636, 18) == 340275971719517849884101479037289023427);
    lemma_pos_grows_to(t, k, 18);
}

/// Each negative-tick step multiplies by less than 2^64, so the ratio never grows.
proof fn lemma_neg_step_shrinks(a: nat, k: nat)
    requires
        1 <= k <= 18,
    ensures
        neg_ratio(a, k) <= neg_ratio(a, (k - 1) as nat),
{
    let r = neg_ratio(a, (k - 1) as nat);
    if bit(a, k) {
        assert(r * neg_factor(k) <= r * two64()) by {
            lemma_mul_inequality(neg_factor(k) as int, two64() as int, r as int);
            lemma_mul_is_commutative(r as int, two64() as int);
            lemma_mul_is_commutative(r as int, neg_factor(k) as int);
        }
        lemma_div_is_ordered((r * neg_factor(k)) as int, (r * two64()) as int, two64() as int);
        lemma_div_multiples_vanish(r as int, two64() as int);
        lemma_mul_is_commutative(r as int, two64() as int);
    }
}

proof fn lemma_neg_shrinks_to(a: nat, j: nat, k: nat)
    requires
        j <= k <= 18,
    ensures
        neg_ratio(a, k) <= neg_ratio(a, j),
    decreases k - j,
{
    if j < k {
        lemma_neg_shrinks_to(a, j, (k - 1) as nat);
        lemma_neg_step_shrinks(a, k);
    }
}

/// The negative-tick ratio never exceeds 2^64.
pub proof fn lemma_neg_at_most_base(a: nat, k: nat)
    requires
        k <= 18,
    ensures
        neg_ratio(a, k) <= two64(),
{
    lemma_neg_shrinks_to(a, 0, k);
}

/// Flooring a product by a fixed factor is monotone (Q64.64 scale).
proof fn lemma_scaled_monotone_64(r: nat, s: nat, f: nat)
    requires
        r <= s,
    ensures
        (r * f) / two64() <= (s * f) / two64(),
{
    lemma_mul_inequality(r as int, s as int, f as int);
    lemma_div_is_ordered((r * f) as int, (s * f) as int, two64() as int);
}

/// The negative-tick ratio with all bits below `k` set stays above the factor of bit `k`;
/// with all 19 bits set it is still positive.
proof fn lemma_neg_all_ones_facts(k: nat)
    requires
        1 <= k <= 18,
    ensures
        0x8001 * neg_factor(k) <= 0x8000 * neg_ratio(524287, (k - 1) as nat),
        neg_ratio(524287, 18) == 76162531,
{
    lemma2_to64();
    assert(neg_ratio(524287, 0) == 18445821805675392311);
    assert(neg_ratio(524287, 1) == 18443977407934598850);
    assert(neg_ratio(524287, 2) == 18440289165698567478);
    assert(neg_ratio(524287, 3) == 18432914893692463368);
    assert(neg_ratio(524287, 4) == 18418175195415529478);
    assert(neg_ratio(524287, 5) == 18388731148799035466);
    assert(neg_ratio(524287, 6) == 18329984191681391131);
    assert(neg_ratio(524287, 7) == 18213052719148788671);
    assert(neg_ratio(524287, 8) == 17981422819357802651);
    assert(neg_ratio(524287, 9) == 17526963021261575450);
    assert(neg_ratio(524287, 10) == 16652210978343353594);
    assert(neg_ratio(524287, 11) == 15031501797419866121);
    assert(neg_ratio(524287, 12) == 12247947330323375219);
    assert(neg_ratio(524287, 13) == 8131771826984472022);
    assert(neg_ratio(524287, 14) == 3584502866425897898);
    assert(neg_ratio(524287, 15) == 696492473859659073);
    assert(neg_ratio(524287, 16) == 26296104664083085);
    assert(neg_ratio(524287, 17) == 37483609360998);
    assert(neg_ratio(524287, 18) == 76162531);
}

/// A larger `|tick|` (in its low bits) carries no larger negative-tick ratio.
proof fn lemma_neg_ratio_ordered(a: nat, b: nat, k: nat)
    requires
        k <= 18,
        a % pow2(k + 1) <= b % pow2(k + 1),
    ensures
        neg_ratio(b, k) <= neg_ratio(a, k),
    decreases k,
{
    lemma2_to64();
    if k == 0 {
        assert(pow2(1) == 2);
    } else {
        let j = (k - 1) as nat;
        lemma_low_bits_split(a, k);
        lemma_low_bits_split(b, k);
        lemma_pow2_pos(k);
        if bit(a, k) == bit(b, k) {
            lemma_neg_ratio_ordered(a, b, j);
            if bit(a, k) {
                lemma_scaled_monotone_64(neg_ratio(b, j), neg_ratio(a, j), neg_factor(k));
            }
        } else {
            assert(!bit(a, k) && bit(b, k));
            lemma_low_bits_split(524287, k);
            assert(524287nat % pow2(k) == pow2(k) - 1) by {
                lemma_all_ones_low_bits(k);
            }
            lemma_neg_ratio_ordered(a, 524287, j);
            lemma_neg_all_ones_facts(k);
            lemma_neg_at_most_base(b, j);
            lemma_scaled_monotone_64(neg_ratio(b, j), two64(), neg_factor(k));
            lemma_div_multiples_vanish(neg_factor(k) as int, two64() as int);
            lemma_mul_is_commutative(neg_factor(k) as int, two64() as int);
        }
    }
}

// ------------------------------------------------------------------ strict increase

/// Flooring by `2^96` after multiplying by a factor of at least `2^96` keeps a gap.
proof fn lemma_scaled_gap(r: nat, s: nat, f: nat, g: nat)
    requires
        r + g <= s,
        f >= two96(),
    ensures
        (r * f) / two96() + g <= (s * f) / two96(),
{
    assert(r * f + g * two96() <= s * f) by (nonlinear_arith)
        requires r + g <= s, f >= two96();
    vstd::arithmetic::div_mod::lemma_hoist_over_denominator((r * f) as int, g as int, two96());
    lemma_div_is_ordered((r * f + g * two96()) as int, (s * f) as int, two96() as int);
}

/// A tick whose low bits are smaller carries a ratio smaller by at least `2^40`.
proof fn lemma_pos_ratio_gap(t: nat, s: nat, k: nat)
    requires
        k <= 18,
        t % pow2(k + 1) < s % pow2(k + 1),
    ensures
        pos_ratio(t, k) + 0x100_0000_0000 <= pos_ratio(s, k),
    decreases k,
{
    lemma2_to64();
    if k == 0 {
        assert(pow2(1) == 2);
    } else {
        let j = (k - 1) as nat;
        lemma_low_bits_split(t, k);
        lemma_low_bits_split(s, k);
        lemma_pow2_pos(k);
        if bit(t, k) == bit(s, k) {
            lemma_pos_ratio_gap(t, s, j);
            if bit(t, k) {
                lemma_scaled_gap(pos_ratio(t, j), pos_ratio(s, j), pos_factor(k), 0x100_0000_0000);
            }
        } else {
            assert(!bit(t, k) && bit(s, k));
            lemma_low_bits_split(524287, k);
            assert(524287nat % pow2(k) == pow2(k) - 1) by {
                lemma_all_ones_low_bits(k);
            }
            lemma_pos_ratio_ordered(t, 524287, j);
            lemma_all_ones_below_factor(k);
            lemma_pos_at_least_base(s, j);
            lemma_scaled_monotone(two96(), pos_ratio(s, j), pos_factor(k));
            lemma_div_multiples_vanish(pos_factor(k) as int, two96() as int);
            lemma_mul_is_commutative(pos_factor(k) as int, two96() as int);
        }
    }
}

/// One negative-tick step keeps the relative gap `2^15 * rb + 2^15 * k >= (2^15 + 1) * ra`,
/// losing at most one unit to the floor.
proof fn lemma_neg_step_gap(ra: nat, rb: nat, f: nat, k: nat)
    requires
        0x8000 * rb + 0x8000 * (k - 1) >= 0x8001 * ra,
        k >= 1,
        f < two64(),
    ensures
        0x8000 * ((rb * f) / two64()) + 0x8000 * k >= 0x8001 * ((ra * f) / two64()),
{
    let a2 = (ra * f) / two64();
    let b2 = (rb * f) / two64();
    lemma_fundamental_div_mod((ra * f) as int, two64() as int);
    lemma_mod_bound((ra * f) as int, two64() as int);
    lemma_fundamental_div_mod((rb * f) as int, two64() as int);
    lemma_mod_bound((rb * f) as int, two64() as int);
    assert(a2 * two64() <= ra * f) by (nonlinear_arith)
        requires ra * f == two64() * a2 + (ra * f) % two64(), (ra * f) % two64() >= 0;
    assert(rb * f < (b2 + 1) * two64()) by (nonlinear_arith)
        requires rb * f == two64() * b2 + (rb * f) % two64(), (rb * f) % two64() < two64();
    assert(0x8001 * ra * f <= (0x8000 * rb + 0x8000 * (k - 1)) * f) by (nonlinear_arith)
        requires 0x8000 * rb + 0x8000 * (k - 1) >= 0x8001 * ra;
    assert(0x8000 * (k - 1) * f <= 0x8000 * (k - 1) * two64()) by (nonlinear_arith)
        requires f < two64(), k >= 1;
    assert(0x8001 * a2 * two64() < 0x8000 * (b2 + k) * two64()) by (nonlinear_arith)
        requires
            a2 * two64() <= ra * f,
            rb * f < (b2 + 1) * two64(),
            0x8001 * ra * f <= (0x8000 * rb + 0x8000 * (k - 1)) * f,
            0x8000 * (k - 1) * f <= 0x8000 * (k - 1) * two64(),
            k >= 1;
    assert(0x8001 * a2 < 0x8000 * (b2 + k)) by (nonlinear_arith)
        requires 0x8001 * a2 * two64() < 0x8000 * (b2 + k) * two64(), two64() > 0;
}

/// A larger `|tick|` (in its low bits) carries a ratio smaller by a relative gap:
/// `2^15 * r(b) + 2^15 * k >= (2^15 + 1) * r(a)`.
proof fn lemma_neg_ratio_gap(a: nat, b: nat, k: nat)
    requires
        k <= 18,
        b % pow2(k + 1) < a % pow2(k + 1),
    ensures
        0x8000 * neg_ratio(b, k) + 0x8000 * k >= 0x8001 * neg_ratio(a, k),
    decreases k,
{
    lemma2_to64();
    if k == 0 {
        assert(pow2(1) == 2);
    } else {
        let j = (k - 1) as nat;
        lemma_low_bits_split(a, k);
        lemma_low_bits_split(b, k);
        lemma_pow2_pos(k);
        if bit(a, k) == bit(b, k) {
            lemma_neg_ratio_gap(a, b, j);
            if bit(a, k) {
                lemma_neg_step_gap(neg_ratio(a, j), neg_ratio(b, j), neg_factor(k), k);
            }
        } else {
            assert(bit(a, k) && !bit(b, k));
            lemma_low_bits_split(524287, k);
            assert(524287nat % pow2(k) == pow2(k) - 1) by {
                lemma_all_ones_low_bits(k);
            }
            lemma_neg_ratio_ordered(b, 524287, j);
            lemma_neg_all_ones_facts(k);
            lemma_neg_at_most_base(a, j);
            lemma_scaled_monotone_64(neg_ratio(a, j), two64(), neg_factor(k));
            lemma_div_multiples_vanish(neg_factor(k) as int, two64() as int);
            lemma_mul_is_commutative(neg_factor(k) as int, two64() as int);
        }
    }
}

/// Tick zero's negative-tick ratio: no bit set, so 2^64.
proof fn lemma_neg_ratio_zero(k: nat)
    requires
        k <= 18,
    ensures
        neg_ratio(0, k) == two64(),
    decreases k,
{
    if k > 0 {
        lemma_pow2_pos(k);
        assert(0nat / pow2(k) == 0);
        lemma_neg_ratio_zero((k - 1) as nat);
    }
}

/// The price at the bottom tick.
proof fn lemma_neg_ratio_bottom()
    ensures
        neg_ratio(443636, 18) == 4295048016,
{
    lemma2_to64();
    assert(neg_ratio(443636, 0) == 18446744073709551616);
    assert(neg_ratio(443636, 1) == 18446744073709551616);
    assert(neg_ratio(443636, 2) == 18443055278223354162);
    assert(neg_ratio(443636, 3) == 18443055278223354162);
    assert(neg_ratio(443636, 4) == 18428307471288117479);
    assert(neg_ratio(443636, 5) == 18398847226801858501);
    assert(neg_ratio(443636, 6) == 18340067951587015306);
    assert(neg_ratio(443636, 7) == 18223072152272561885);
    assert(neg_ratio(443636, 8) == 18223072152272561885);
    assert(neg_ratio(443636, 9) == 18223072152272561885);
    assert(neg_ratio(443636, 10) == 17313578044587773368);
    assert(neg_ratio(443636, 11) == 17313578044587773368);
    assert(neg_ratio(443636, 12) == 17313578044587773368);
    assert(neg_ratio(443636, 13) == 17313578044587773368);
    assert(neg_ratio(443636, 14) == 7631863196526440527);
    assert(neg_ratio(443636, 15) == 1482921196045045371);
    assert(neg_ratio(443636, 16) == 1482921196045045371);
    assert(neg_ratio(443636, 17) == 2113820261052536);
    assert(neg_ratio(443636, 18) == 4295048016);
}

/// The sqrt price strictly increases with the tick, across the whole tick range.
pub proof fn lemma_sqrt_price_strictly_increasing(t1: int, t2: int)
    requires
        -443636 <= t1 < t2 <= 443636,
    ensures
        sqrt_price_at(t1) < sqrt_price_at(t2),
{
    lemma2_to64();
    assert(pow2(19) == 0x80000);
    assert(pow2(18 + 1) == 0x80000);
    if t1 >= 0 {
        assert((t1 as nat) % 0x80000 == t1);
        assert((t2 as nat) % 0x80000 == t2);
        lemma_pos_ratio_gap(t1 as nat, t2 as nat, 18);
        let x = pos_ratio(t1 as nat, 18);
        vstd::arithmetic::div_mod::lemma_hoist_over_denominator(x as int, 0x100, 0x1_0000_0000);
        lemma_div_is_ordered((x + 0x100 * 0x1_0000_0000) as int, pos_ratio(t2 as nat, 18) as int, 0x1_0000_0000);
    } else if t2 < 0 {
        let a = (-t1) as nat;
        let b = (-t2) as nat;
        assert(a % 0x80000 == a);
        assert(b % 0x80000 == b);
        assert(443636nat % 0x80000 == 443636);
        lemma_neg_ratio_gap(a, b, 18);
        lemma_neg_ratio_ordered(a, 443636, 18);
        lemma_neg_ratio_bottom();
    } else {
        let a = (-t1) as nat;
        assert(a % 0x80000 == a);
        assert(0nat % 0x80000 == 0);
        lemma_neg_ratio_gap(a, 0, 18);
        lemma_neg_ratio_zero(18);
        lemma_pos_at_least_base(t2 as nat, 18);
        lemma_div_is_ordered(two96() as int, pos_ratio(t2 as nat, 18) as int, 0x1_0000_0000);
    }
}

/// On its domain the sqrt price is positive and below 2^96.
pub proof fn lemma_sqrt_price_bounds(tick: int)
    requires
        tick_in_domain(tick),
    ensures
        0 < sqrt_price_at(tick) < 0x1_0000_0000_0000_0000_0000_0000,
{
    lemma2_to64();
    if tick >= 0 {
        lemma_pos_ratio_fits(tick as nat, 18);
        lemma_pos_at_least_base(tick as nat, 18);
    } else {
        let a = (-tick) as nat;
        lemma_neg_at_most_base(a, 18);
        lemma_mod_bound(a as int, 0x80000);
        assert(pow2(19) == 0x80000);
        assert(pow2(18 + 1) == 0x80000);
        assert(524287nat % 0x80000 == 524287);
        lemma_neg_ratio_ordered(a, 524287, 18);
        lemma_neg_all_ones_facts(1);
    }
}

/// The sqrt price never decreases as the tick grows, across the whole tick range.
pub proof fn lemma_sqrt_price_monotone(t1: int, t2: int)
    requires
        -443636 <= t1 <= t2 <= 443636,
    ensures
        sqrt_price_at(t1) <= sqrt_price_at(t2),
{
    lemma2_to64();
    assert(pow2(19) == 0x80000);
    assert(pow2(18 + 1) == 0x80000);
    if t1 >= 0 {
        assert((t1 as nat) % 0x80000 == t1);
        assert((t2 as nat) % 0x80000 == t2);
        lemma_pos_ratio_ordered(t1 as nat, t2 as nat, 18);
        lemma_div_is_ordered(pos_ratio(t1 as nat, 18) as int, pos_ratio(t2 as nat, 18) as int, 0x1_0000_0000);
    } else if t2 < 0 {
        let a1 = (-t1) as nat;
        let a2 = (-t2) as nat;
        assert(a1 % 0x80000 == a1);
        assert(a2 % 0x80000 == a2);
        lemma_neg_ratio_ordered(a2, a1, 18);
    } else {
        lemma_neg_at_most_base((-t1) as nat, 18);
        lemma_pos_at_least_base(t2 as nat, 18);
        lemma_div_is_ordered(two96() as int, pos_ratio(t2 as nat, 18) as int, 0x1_0000_0000);
    }
}

} // verus!
