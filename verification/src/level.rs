//! Level control: the dB-to-linear mapping shared by the gain and drive
//! parameters, and the linear gain stage itself.
//!
//! A level in decibels from -127 dB up to 0 dB maps to a Q24 multiplier in
//! `[0, ONE]` by repeated multiplication with `10^(-1/20)`, one factor per
//! decibel of attenuation, so `0` dB maps exactly to unity.

use vstd::prelude::*;

verus! {

use crate::fixed::ONE;
use crate::fixed::SAMPLE_MAX;
use crate::fixed::mul_fix;
use crate::fixed::mul_fix_spec;
use crate::fixed::lemma_mul_fix_one;
use crate::fixed::lemma_mul_fix_nonneg_bound;
use crate::fixed::lemma_mul_fix_contract;

/// `10^(-1/20)` in Q24: one decibel of attenuation as a linear factor.
pub const DB_STEP_DOWN: i64 = 14952709;

/// Lowest level the dB mapping accepts, in whole decibels.
pub const MIN_LEVEL_DB: i64 = -127;

/// `base` raised to the `n`-th power under the Q24 product, starting from unity.
pub open spec fn pow_fix_spec(base: int, n: nat) -> int
    decreases n,
{
    if n == 0 {
        ONE as int
    } else {
        mul_fix_spec(pow_fix_spec(base, (n - 1) as nat), base)
    }
}

/// The linear Q24 multiplier that a level of `db` decibels stands for.
pub open spec fn db_to_linear_spec(db: int) -> int {
    pow_fix_spec(DB_STEP_DOWN as int, (-db) as nat)
}

/// Map a level in whole decibels (attenuation only) to a linear Q24 multiplier.
/// `0` dB maps exactly to `ONE`; every decibel below multiplies by `10^(-1/20)`.
pub fn db_to_linear(db: i64) -> (r: i64)
    requires
        MIN_LEVEL_DB <= db <= 0,
    ensures
        r == db_to_linear_spec(db as int),
        0 <= r <= ONE,
        db == 0 ==> r == ONE,
{
    let n: u64 = (-db) as u64;
    let mut r: i64 = ONE;
    let mut i: u64 = 0;
    while i < n
        invariant
            0 <= i <= n,
            n <= 127,
            r == pow_fix_spec(DB_STEP_DOWN as int, i as nat),
            0 <= r <= ONE,
        decreases n - i,
    {
        proof {
            lemma_mul_fix_nonneg_bound(r as int, DB_STEP_DOWN as int, ONE as int);
            lemma_mul_fix_contract(r as int, DB_STEP_DOWN as int);
        }
        r = mul_fix(r, DB_STEP_DOWN);
        i = i + 1;
    }
    r
}

/// Linear gain stage: output is exactly the Q24 product of sample and gain.
/// With a gain in `[0, ONE]` the output never exceeds the input in magnitude.
pub fn apply_gain(x: i64, g: i64) -> (r: i64)
    requires
        -SAMPLE_MAX <= x <= SAMPLE_MAX,
        0 <= g <= ONE,
    ensures
        r == mul_fix_spec(x as int, g as int),
        x >= 0 ==> 0 <= r <= x,
        x < 0 ==> x <= r <= 0,
{
    proof {
        lemma_mul_fix_contract(x as int, g as int);
    }
    mul_fix(x, g)
}

/// The gain floor: -127 dB maps to exactly 3 Q24 units, about 1.8e-7 of
/// full scale -- silence for every audio purpose. Evaluated step by
/// step, one ramp factor per decibel.
pub proof fn lemma_level_floor_value()
    ensures
        db_to_linear_spec(MIN_LEVEL_DB as int) == 3,
{
    let d = DB_STEP_DOWN as int;
    assert(pow_fix_spec(d, 0) == 16777216);
    assert(pow_fix_spec(d, 1) == 14952709);
    assert(pow_fix_spec(d, 2) == 13326615);
    assert(pow_fix_spec(d, 3) == 11877357);
    assert(pow_fix_spec(d, 4) == 10585705);
    assert(pow_fix_spec(d, 5) == 9434519);
    assert(pow_fix_spec(d, 6) == 8408523);
    assert(pow_fix_spec(d, 7) == 7494103);
    assert(pow_fix_spec(d, 8) == 6679126);
    assert(pow_fix_spec(d, 9) == 5952777);
    assert(pow_fix_spec(d, 10) == 5305417);
    assert(pow_fix_spec(d, 11) == 4728457);
    assert(pow_fix_spec(d, 12) == 4214241);
    assert(pow_fix_spec(d, 13) == 3755946);
    assert(pow_fix_spec(d, 14) == 3347490);
    assert(pow_fix_spec(d, 15) == 2983453);
    assert(pow_fix_spec(d, 16) == 2659005);
    assert(pow_fix_spec(d, 17) == 2369840);
    assert(pow_fix_spec(d, 18) == 2112122);
    assert(pow_fix_spec(d, 19) == 1882430);
    assert(pow_fix_spec(d, 20) == 1677717);
    assert(pow_fix_spec(d, 21) == 1495266);
    assert(pow_fix_spec(d, 22) == 1332657);
    assert(pow_fix_spec(d, 23) == 1187731);
    assert(pow_fix_spec(d, 24) == 1058566);
    assert(pow_fix_spec(d, 25) == 943447);
    assert(pow_fix_spec(d, 26) == 840847);
    assert(pow_fix_spec(d, 27) == 749405);
    assert(pow_fix_spec(d, 28) == 667907);
    assert(pow_fix_spec(d, 29) == 595272);
    assert(pow_fix_spec(d, 30) == 530536);
    assert(pow_fix_spec(d, 31) == 472840);
    assert(pow_fix_spec(d, 32) == 421419);
    assert(pow_fix_spec(d, 33) == 375590);
    assert(pow_fix_spec(d, 34) == 334744);
    assert(pow_fix_spec(d, 35) == 298340);
    assert(pow_fix_spec(d, 36) == 265895);
    assert(pow_fix_spec(d, 37) == 236979);
    assert(pow_fix_spec(d, 38) == 211207);
    assert(pow_fix_spec(d, 39) == 188238);
    assert(pow_fix_spec(d, 40) == 167767);
    assert(pow_fix_spec(d, 41) == 149522);
    assert(pow_fix_spec(d, 42) == 133261);
    assert(pow_fix_spec(d, 43) == 118768);
    assert(pow_fix_spec(d, 44) == 105852);
    assert(pow_fix_spec(d, 45) == 94340);
    assert(pow_fix_spec(d, 46) == 84080);
    assert(pow_fix_spec(d, 47) == 74936);
    assert(pow_fix_spec(d, 48) == 66786);
    assert(pow_fix_spec(d, 49) == 59523);
    assert(pow_fix_spec(d, 50) == 53049);
    assert(pow_fix_spec(d, 51) == 47279);
    assert(pow_fix_spec(d, 52) == 42137);
    assert(pow_fix_spec(d, 53) == 37554);
    assert(pow_fix_spec(d, 54) == 33470);
    assert(pow_fix_spec(d, 55) == 29830);
    assert(pow_fix_spec(d, 56) == 26586);
    assert(pow_fix_spec(d, 57) == 23694);
    assert(pow_fix_spec(d, 58) == 21117);
    assert(pow_fix_spec(d, 59) == 18820);
    assert(pow_fix_spec(d, 60) == 16773);
    assert(pow_fix_spec(d, 61) == 14948);
    assert(pow_fix_spec(d, 62) == 13322);
    assert(pow_fix_spec(d, 63) == 11873);
    assert(pow_fix_spec(d, 64) == 10581);
    assert(pow_fix_spec(d, 65) == 9430);
    assert(pow_fix_spec(d, 66) == 8404);
    assert(pow_fix_spec(d, 67) == 7490);
    assert(pow_fix_spec(d, 68) == 6675);
    assert(pow_fix_spec(d, 69) == 5949);
    assert(pow_fix_spec(d, 70) == 5302);
    assert(pow_fix_spec(d, 71) == 4725);
    assert(pow_fix_spec(d, 72) == 4211);
    assert(pow_fix_spec(d, 73) == 3753);
    assert(pow_fix_spec(d, 74) == 3344);
    assert(pow_fix_spec(d, 75) == 2980);
    assert(pow_fix_spec(d, 76) == 2655);
    assert(pow_fix_spec(d, 77) == 2366);
    assert(pow_fix_spec(d, 78) == 2108);
    assert(pow_fix_spec(d, 79) == 1878);
    assert(pow_fix_spec(d, 80) == 1673);
    assert(pow_fix_spec(d, 81) == 1491);
    assert(pow_fix_spec(d, 82) == 1328);
    assert(pow_fix_spec(d, 83) == 1183);
    assert(pow_fix_spec(d, 84) == 1054);
    assert(pow_fix_spec(d, 85) == 939);
    assert(pow_fix_spec(d, 86) == 836);
    assert(pow_fix_spec(d, 87) == 745);
    assert(pow_fix_spec(d, 88) == 663);
    assert(pow_fix_spec(d, 89) == 590);
    assert(pow_fix_spec(d, 90) == 525);
    assert(pow_fix_spec(d, 91) == 467);
    assert(pow_fix_spec(d, 92) == 416);
    assert(pow_fix_spec(d, 93) == 370);
    assert(pow_fix_spec(d, 94) == 329);
    assert(pow_fix_spec(d, 95) == 293);
    assert(pow_fix_spec(d, 96) == 261);
    assert(pow_fix_spec(d, 97) == 232);
    assert(pow_fix_spec(d, 98) == 206);
    assert(pow_fix_spec(d, 99) == 183);
    assert(pow_fix_spec(d, 100) == 163);
    assert(pow_fix_spec(d, 101) == 145);
    assert(pow_fix_spec(d, 102) == 129);
    assert(pow_fix_spec(d, 103) == 114);
    assert(pow_fix_spec(d, 104) == 101);
    assert(pow_fix_spec(d, 105) == 90);
    assert(pow_fix_spec(d, 106) == 80);
    assert(pow_fix_spec(d, 107) == 71);
    assert(pow_fix_spec(d, 108) == 63);
    assert(pow_fix_spec(d, 109) == 56);
    assert(pow_fix_spec(d, 110) == 49);
    assert(pow_fix_spec(d, 111) == 43);
    assert(pow_fix_spec(d, 112) == 38);
    assert(pow_fix_spec(d, 113) == 33);
    assert(pow_fix_spec(d, 114) == 29);
    assert(pow_fix_spec(d, 115) == 25);
    assert(pow_fix_spec(d, 116) == 22);
    assert(pow_fix_spec(d, 117) == 19);
    assert(pow_fix_spec(d, 118) == 16);
    assert(pow_fix_spec(d, 119) == 14);
    assert(pow_fix_spec(d, 120) == 12);
    assert(pow_fix_spec(d, 121) == 10);
    assert(pow_fix_spec(d, 122) == 8);
    assert(pow_fix_spec(d, 123) == 7);
    assert(pow_fix_spec(d, 124) == 6);
    assert(pow_fix_spec(d, 125) == 5);
    assert(pow_fix_spec(d, 126) == 4);
    assert(pow_fix_spec(d, 127) == 3);
}

/// The gain floor silences everything: at -127 dB, any sample the stages
/// admit comes out within 12 Q24 units of zero — under a millionth of full
/// scale — whatever its amplitude.
pub proof fn lemma_gain_floor_silences(x: int)
    requires
        -SAMPLE_MAX <= x <= SAMPLE_MAX,
    ensures
        -12 <= mul_fix_spec(x, db_to_linear_spec(MIN_LEVEL_DB as int)) <= 12,
{
    lemma_level_floor_value();
    let u = ONE as int;
    assert((u * 12) / u == 12) by {
        vstd::arithmetic::div_mod::lemma_div_multiples_vanish(12, u);
    }
    if x >= 0 {
        vstd::arithmetic::div_mod::lemma_div_is_ordered(0, x * 3, u);
        vstd::arithmetic::div_mod::lemma_div_is_ordered(x * 3, u * 12, u);
    } else {
        vstd::arithmetic::div_mod::lemma_div_is_ordered(0, -(x * 3), u);
        vstd::arithmetic::div_mod::lemma_div_is_ordered(-(x * 3), u * 12, u);
    }
}

/// Unity gain is the identity on every sample.
pub proof fn lemma_unity_gain(x: int)
    ensures
        mul_fix_spec(x, ONE as int) == x,
{
    lemma_mul_fix_one(x);
}

/// A zero gain silences every sample.
pub proof fn lemma_zero_gain(x: int)
    ensures
        mul_fix_spec(x, 0) == 0,
{
    crate::fixed::lemma_mul_fix_zero(x);
}

} // verus!
