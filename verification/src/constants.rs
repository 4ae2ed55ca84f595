//! Numeric constants as binary64 bit patterns.

use vstd::prelude::*;

verus! {

/// One half.
pub const HALF: u64 = 0x3fe0_0000_0000_0000;

/// One quarter.
pub const QUARTER: u64 = 0x3fd0_0000_0000_0000;

/// Two.
pub const TWO: u64 = 0x4000_0000_0000_0000;

/// Three.
pub const THREE: u64 = 0x4008_0000_0000_0000;

/// Four.
pub const FOUR: u64 = 0x4010_0000_0000_0000;

/// Five.
pub const FIVE: u64 = 0x4014_0000_0000_0000;

/// Six.
pub const SIX: u64 = 0x4018_0000_0000_0000;

/// Twelve.
pub const TWELVE: u64 = 0x4028_0000_0000_0000;

/// Fifty.
pub const FIFTY: u64 = 0x4049_0000_0000_0000;

/// Sixty.
pub const SIXTY: u64 = 0x404e_0000_0000_0000;

/// One hundred.
pub const HUNDRED: u64 = 0x4059_0000_0000_0000;

/// One thousand.
pub const THOUSAND: u64 = 0x408f_4000_0000_0000;

/// Six thousand.
pub const SIX_THOUSAND: u64 = 0x40b7_7000_0000_0000;

/// One hundred thousand.
pub const HUNDRED_THOUSAND: u64 = 0x40f8_6a00_0000_0000;

/// One billion.
pub const BILLION: u64 = 0x41cd_cd65_0000_0000;

/// `99_999_999.9`, the acceleration of a move without toolhead travel.
pub const EXTRUDE_ONLY_ACCEL: u64 = 0x4197_d783_ff99_999a;

/// `999_999_999.9`, the squared junction speed before any limit applies.
pub const UNLIMITED_JUNCTION: u64 = 0x41cd_cd64_fff3_3333;

/// The distance from one to the next larger number.
pub const EPSILON: u64 = 0x3cb0_0000_0000_0000;

/// The ratio of a circle to its diameter.
pub const PI: u64 = 0x4009_21fb_5444_2d18;

/// A full turn.
pub const TAU: u64 = 0x4019_21fb_5444_2d18;

/// `0.150`, the queued time that triggers a lazy flush, in seconds.
pub const LOOKAHEAD_FLUSH_TIME: u64 = 0x3fc3_3333_3333_3333;

/// `0.25`, the time added before the first move after a stop, in seconds.
pub const LOOKAHEAD_BUFFER_TIME: u64 = 0x3fd0_0000_0000_0000;

/// `1.75`, the usual filament diameter.
pub const FILAMENT_DIAMETER: u64 = 0x3ffc_0000_0000_0000;

/// `0.875`, half the usual filament diameter.
pub const FILAMENT_RADIUS: u64 = 0x3fec_0000_0000_0000;

/// `0.4`, the usual nozzle diameter.
pub const NOZZLE_DIAMETER: u64 = 0x3fd9_9999_9999_999a;

/// `0.64`, four times the square of the usual nozzle diameter.
pub const EXTRUDE_CROSS_SECTION: u64 = 0x3fe4_7ae1_47ae_147b;

/// `0.025`, the usual height step of a split mesh move.
pub const SPLIT_DELTA_Z: u64 = 0x3f99_9999_9999_999a;

/// `0.2`, the tension of a bicubic mesh.
pub const MESH_TENSION: u64 = 0x3fc9_9999_9999_999a;

/// The seconds of a day.
pub const DAY: u64 = 0x40f5_1800_0000_0000;

/// The seconds of an hour.
pub const HOUR: u64 = 0x40ac_2000_0000_0000;

/// The seconds of a minute.
pub const MINUTE: u64 = 0x404e_0000_0000_0000;

/// Two hundred.
pub const TWO_HUNDRED: u64 = 0x4069_0000_0000_0000;

/// Ten.
pub const TEN: u64 = 0x4024_0000_0000_0000;

/// Twenty.
pub const TWENTY: u64 = 0x4034_0000_0000_0000;

/// Thirty.
pub const THIRTY: u64 = 0x403e_0000_0000_0000;

/// Ninety.
pub const NINETY: u64 = 0x4056_8000_0000_0000;

/// One hundred and fifty.
pub const HUNDRED_FIFTY: u64 = 0x4062_c000_0000_0000;

/// Two hundred and ten.
pub const TWO_HUNDRED_TEN: u64 = 0x406a_4000_0000_0000;

/// Two hundred and seventy.
pub const TWO_HUNDRED_SEVENTY: u64 = 0x4070_e000_0000_0000;

/// Three hundred and thirty.
pub const THREE_HUNDRED_THIRTY: u64 = 0x4074_a000_0000_0000;

/// One hundred and forty-five.
pub const HUNDRED_FORTY_FIVE: u64 = 0x4062_2000_0000_0000;

/// Six hundred.
pub const SIX_HUNDRED: u64 = 0x4082_c000_0000_0000;

/// The nearest to one tenth.
pub const TENTH: u64 = 0x3fb9_9999_9999_999a;

/// The nearest to eight tenths.
pub const EIGHT_TENTHS: u64 = 0x3fe9_9999_9999_999a;

/// The nearest to nine tenths.
pub const NINE_TENTHS: u64 = 0x3fec_cccc_cccc_cccd;

} // verus!
