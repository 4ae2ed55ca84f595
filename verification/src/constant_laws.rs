//! The values of the numeric constants.

use vstd::arithmetic::power2::lemma2_to64;
use vstd::arithmetic::power2::lemma2_to64_rest;
use vstd::arithmetic::power2::lemma_pow2_adds;
use vstd::arithmetic::power2::lemma_pow2_pos;
use vstd::arithmetic::power2::pow2;
use vstd::prelude::*;

use crate::constants::BILLION;
use crate::constants::DAY;
use crate::constants::EIGHT_TENTHS;
use crate::constants::EPSILON;
use crate::constants::EXTRUDE_CROSS_SECTION;
use crate::constants::EXTRUDE_ONLY_ACCEL;
use crate::constants::FIFTY;
use crate::constants::FILAMENT_DIAMETER;
use crate::constants::FILAMENT_RADIUS;
use crate::constants::FIVE;
use crate::constants::FOUR;
use crate::constants::HALF;
use crate::constants::HOUR;
use crate::constants::HUNDRED;
use crate::constants::HUNDRED_FIFTY;
use crate::constants::HUNDRED_FORTY_FIVE;
use crate::constants::HUNDRED_THOUSAND;
use crate::constants::LOOKAHEAD_BUFFER_TIME;
use crate::constants::LOOKAHEAD_FLUSH_TIME;
use crate::constants::MESH_TENSION;
use crate::constants::MINUTE;
use crate::constants::NINETY;
use crate::constants::NINE_TENTHS;
use crate::constants::NOZZLE_DIAMETER;
use crate::constants::PI;
use crate::constants::QUARTER;
use crate::constants::SIX;
use crate::constants::SIXTY;
use crate::constants::SIX_HUNDRED;
use crate::constants::SIX_THOUSAND;
use crate::constants::SPLIT_DELTA_Z;
use crate::constants::TAU;
use crate::constants::TEN;
use crate::constants::TENTH;
use crate::constants::THIRTY;
use crate::constants::THOUSAND;
use crate::constants::THREE;
use crate::constants::THREE_HUNDRED_THIRTY;
use crate::constants::TWELVE;
use crate::constants::TWENTY;
use crate::constants::TWO;
use crate::constants::TWO_HUNDRED;
use crate::constants::TWO_HUNDRED_SEVENTY;
use crate::constants::TWO_HUNDRED_TEN;
use crate::constants::UNLIMITED_JUNCTION;
use crate::double::exponent_index;
use crate::double::one_units;
use crate::double::units;
use crate::motion_laws::lemma_packed_units;
use crate::rounding::lemma_two52;
use crate::rounding::HIDDEN_BIT;

verus! {

/// Whether no number is closer to a fraction than the one of a bit pattern: they differ by at most
/// half of the last place.
pub open spec fn nearest_to(bits: u64, a: nat, b: nat) -> bool {
    let place = pow2(exponent_index(bits as nat));
    let held = b * units(bits as nat);
    let meant = a * one_units();
    2 * held <= 2 * meant + b * place && 2 * meant <= 2 * held + b * place
}

/// Whether a bit pattern is that of a whole number.
pub open spec fn stands_for_whole(bits: u64, n: nat) -> bool {
    units(bits as nat) == n * one_units()
}

proof fn lemma_constant(bits: u64, k: nat, q: nat, a: nat, b: nat, j: nat, p: nat)
    requires
        bits == k * HIDDEN_BIT + q,
        0x10_0000_0000_0000 <= q < 0x20_0000_0000_0000,
        k > 0,
        k + j == 1074,
        p == pow2(j),
        2 * (b * q) <= 2 * (a * p) + b,
        2 * (a * p) <= 2 * (b * q) + b,
    ensures
        nearest_to(bits, a, b),
        b * q == a * p && b == 1 ==> stands_for_whole(bits, a),
{
    lemma_two52();
    lemma_packed_units(k, q);
    lemma_pow2_adds(k, j);
    lemma_pow2_pos(k);
    let g = pow2(k);
    let u = units(bits as nat);
    assert(u == q * g);
    assert(exponent_index(bits as nat) == k);
    assert(2 * (b * (q * g)) <= 2 * (a * (g * p)) + b * g && 2 * (a * (g * p)) <= 2 * (b * (q * g))
        + b * g) by (nonlinear_arith)
        requires
            2 * (b * q) <= 2 * (a * p) + b,
            2 * (a * p) <= 2 * (b * q) + b,
            g > 0,
    ;
    if b == 1 && b * q == a * p {
        assert(q * g == a * (g * p)) by (nonlinear_arith)
            requires
                q == a * p,
        ;
    }
}

/// The constants that are whole numbers are those that their names say.
pub proof fn whole_constants_are_the_numbers_they_name()
    ensures
        stands_for_whole(TWO, 2),
        stands_for_whole(THREE, 3),
        stands_for_whole(FOUR, 4),
        stands_for_whole(FIVE, 5),
        stands_for_whole(SIX, 6),
        stands_for_whole(TWELVE, 12),
        stands_for_whole(FIFTY, 50),
        stands_for_whole(SIXTY, 60),
        stands_for_whole(HUNDRED, 100),
        stands_for_whole(THOUSAND, 1000),
        stands_for_whole(SIX_THOUSAND, 6000),
        stands_for_whole(HUNDRED_THOUSAND, 100_000),
        stands_for_whole(BILLION, 1_000_000_000),
        stands_for_whole(DAY, 86_400),
        stands_for_whole(HOUR, 3600),
        stands_for_whole(MINUTE, 60),
        stands_for_whole(TWO_HUNDRED, 200),
        stands_for_whole(TEN, 10),
        stands_for_whole(TWENTY, 20),
        stands_for_whole(THIRTY, 30),
        stands_for_whole(NINETY, 90),
        stands_for_whole(HUNDRED_FIFTY, 150),
        stands_for_whole(TWO_HUNDRED_TEN, 210),
        stands_for_whole(TWO_HUNDRED_SEVENTY, 270),
        stands_for_whole(THREE_HUNDRED_THIRTY, 330),
        stands_for_whole(HUNDRED_FORTY_FIVE, 145),
        stands_for_whole(SIX_HUNDRED, 600),
{
    lemma2_to64();
    lemma2_to64_rest();
    lemma_constant(TWO, 1023, 0x10_0000_0000_0000, 2, 1, 51, 0x8_0000_0000_0000);
    lemma_constant(THREE, 1023, 0x18_0000_0000_0000, 3, 1, 51, 0x8_0000_0000_0000);
    lemma_constant(FOUR, 1024, 0x10_0000_0000_0000, 4, 1, 50, 0x4_0000_0000_0000);
    lemma_constant(FIVE, 1024, 0x14_0000_0000_0000, 5, 1, 50, 0x4_0000_0000_0000);
    lemma_constant(SIX, 1024, 0x18_0000_0000_0000, 6, 1, 50, 0x4_0000_0000_0000);
    lemma_constant(TWELVE, 1025, 0x18_0000_0000_0000, 12, 1, 49, 0x2_0000_0000_0000);
    lemma_constant(FIFTY, 1027, 0x19_0000_0000_0000, 50, 1, 47, 0x8000_0000_0000);
    lemma_constant(SIXTY, 1027, 0x1e_0000_0000_0000, 60, 1, 47, 0x8000_0000_0000);
    lemma_constant(HUNDRED, 1028, 0x19_0000_0000_0000, 100, 1, 46, 0x4000_0000_0000);
    lemma_constant(THOUSAND, 1031, 0x1f_4000_0000_0000, 1000, 1, 43, 0x800_0000_0000);
    lemma_constant(SIX_THOUSAND, 1034, 0x17_7000_0000_0000, 6000, 1, 40, 0x100_0000_0000);
    lemma_constant(HUNDRED_THOUSAND, 1038, 0x18_6a00_0000_0000, 100_000, 1, 36, 0x10_0000_0000);
    lemma_constant(BILLION, 1051, 0x1d_cd65_0000_0000, 1_000_000_000, 1, 23, 0x80_0000);
    lemma_constant(DAY, 1038, 0x15_1800_0000_0000, 86_400, 1, 36, 0x10_0000_0000);
    lemma_constant(HOUR, 1033, 0x1c_2000_0000_0000, 3600, 1, 41, 0x200_0000_0000);
    lemma_constant(MINUTE, 1027, 0x1e_0000_0000_0000, 60, 1, 47, 0x8000_0000_0000);
    lemma_constant(TWO_HUNDRED, 1029, 0x19_0000_0000_0000, 200, 1, 45, 0x2000_0000_0000);
    lemma_constant(TEN, 1025, 0x14_0000_0000_0000, 10, 1, 49, 0x2_0000_0000_0000);
    lemma_constant(TWENTY, 1026, 0x14_0000_0000_0000, 20, 1, 48, 0x1_0000_0000_0000);
    lemma_constant(THIRTY, 1026, 0x1e_0000_0000_0000, 30, 1, 48, 0x1_0000_0000_0000);
    lemma_constant(NINETY, 1028, 0x16_8000_0000_0000, 90, 1, 46, 0x4000_0000_0000);
    lemma_constant(HUNDRED_FIFTY, 1029, 0x12_c000_0000_0000, 150, 1, 45, 0x2000_0000_0000);
    lemma_constant(TWO_HUNDRED_TEN, 1029, 0x1a_4000_0000_0000, 210, 1, 45, 0x2000_0000_0000);
    lemma_constant(TWO_HUNDRED_SEVENTY, 1030, 0x10_e000_0000_0000, 270, 1, 44, 0x1000_0000_0000);
    lemma_constant(THREE_HUNDRED_THIRTY, 1030, 0x14_a000_0000_0000, 330, 1, 44, 0x1000_0000_0000);
    lemma_constant(HUNDRED_FORTY_FIVE, 1029, 0x12_2000_0000_0000, 145, 1, 45, 0x2000_0000_0000);
    lemma_constant(SIX_HUNDRED, 1031, 0x12_c000_0000_0000, 600, 1, 43, 0x800_0000_0000);
}

/// The constants that are not whole numbers are the nearest to those that their names say.
pub proof fn other_constants_are_nearest_to_the_numbers_they_name()
    ensures
        nearest_to(HALF, 1, 2),
        nearest_to(QUARTER, 1, 4),
        nearest_to(EXTRUDE_ONLY_ACCEL, 999_999_999, 10),
        nearest_to(UNLIMITED_JUNCTION, 9_999_999_999, 10),
        nearest_to(PI, 3_141_592_653_589_793_238, 1_000_000_000_000_000_000),
        nearest_to(TAU, 6_283_185_307_179_586_477, 1_000_000_000_000_000_000),
        nearest_to(LOOKAHEAD_FLUSH_TIME, 15, 100),
        nearest_to(LOOKAHEAD_BUFFER_TIME, 1, 4),
        nearest_to(FILAMENT_DIAMETER, 175, 100),
        nearest_to(FILAMENT_RADIUS, 875, 1000),
        nearest_to(NOZZLE_DIAMETER, 4, 10),
        nearest_to(EXTRUDE_CROSS_SECTION, 64, 100),
        nearest_to(SPLIT_DELTA_Z, 25, 1000),
        nearest_to(MESH_TENSION, 2, 10),
        nearest_to(TENTH, 1, 10),
        nearest_to(EIGHT_TENTHS, 8, 10),
        nearest_to(NINE_TENTHS, 9, 10),
        0x10_0000_0000_0000 * units(EPSILON as nat) == one_units(),
{
    lemma2_to64();
    lemma2_to64_rest();
    lemma_constant(HALF, 1021, 0x10_0000_0000_0000, 1, 2, 53, 0x20_0000_0000_0000);
    lemma_constant(QUARTER, 1020, 0x10_0000_0000_0000, 1, 4, 54, 0x40_0000_0000_0000);
    lemma_constant(EXTRUDE_ONLY_ACCEL, 1048, 0x17_d783_ff99_999a, 999_999_999, 10, 26, 0x400_0000);
    lemma_constant(UNLIMITED_JUNCTION, 1051, 0x1d_cd64_fff3_3333, 9_999_999_999, 10, 23, 0x80_0000);
    lemma_constant(PI, 1023, 0x19_21fb_5444_2d18, 3_141_592_653_589_793_238, 1_000_000_000_000_000_000, 51, 0x8_0000_0000_0000);
    lemma_constant(TAU, 1024, 0x19_21fb_5444_2d18, 6_283_185_307_179_586_477, 1_000_000_000_000_000_000, 50, 0x4_0000_0000_0000);
    lemma_constant(LOOKAHEAD_FLUSH_TIME, 1019, 0x13_3333_3333_3333, 15, 100, 55, 0x80_0000_0000_0000);
    lemma_constant(LOOKAHEAD_BUFFER_TIME, 1020, 0x10_0000_0000_0000, 1, 4, 54, 0x40_0000_0000_0000);
    lemma_constant(FILAMENT_DIAMETER, 1022, 0x1c_0000_0000_0000, 175, 100, 52, 0x10_0000_0000_0000);
    lemma_constant(FILAMENT_RADIUS, 1021, 0x1c_0000_0000_0000, 875, 1000, 53, 0x20_0000_0000_0000);
    lemma_constant(NOZZLE_DIAMETER, 1020, 0x19_9999_9999_999a, 4, 10, 54, 0x40_0000_0000_0000);
    lemma_constant(EXTRUDE_CROSS_SECTION, 1021, 0x14_7ae1_47ae_147b, 64, 100, 53, 0x20_0000_0000_0000);
    lemma_constant(SPLIT_DELTA_Z, 1016, 0x19_9999_9999_999a, 25, 1000, 58, 0x400_0000_0000_0000);
    lemma_constant(MESH_TENSION, 1019, 0x19_9999_9999_999a, 2, 10, 55, 0x80_0000_0000_0000);
    lemma_constant(TENTH, 1018, 0x19_9999_9999_999a, 1, 10, 56, 0x100_0000_0000_0000);
    lemma_constant(EIGHT_TENTHS, 1021, 0x19_9999_9999_999a, 8, 10, 53, 0x20_0000_0000_0000);
    lemma_constant(NINE_TENTHS, 1021, 0x1c_cccc_cccc_cccd, 9, 10, 53, 0x20_0000_0000_0000);
    lemma_two52();
    lemma_packed_units(970, 0x10_0000_0000_0000);
    lemma_pow2_adds(52, 970);
    lemma_pow2_adds(52, 1022);
}

} // verus!
