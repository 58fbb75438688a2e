//! The frequencies of the 128 keys of a timeline.
//!
//! Key 69 is the A at 440 Hz, and each key sounds a twelfth of an octave above
//! the key before it: the frequency of key `n` is `440 * 2^((n - 69) / 12)`
//! Hz. The table holds these to seven digits, and this module proves that
//! each entry lies within one part in a million of its frequency.

use vstd::prelude::*;
use vstd::arithmetic::power::*;
use vstd::arithmetic::power2::*;
use crate::midi_player::PlayerErrorKind;
use crate::pitch::{lemma_twelfth_power, twelfth_power, CONCERT_PITCH};

verus! {

/// The frequency of each key in micro-hertz, from key 0 (a C at a little over
/// 8 Hz) to key 127.
pub const MIDI_FREQUENCIES: [u64; 128] = [
    8175799, 8661957, 9177024, 9722718, 10300860, 10913380,
    11562330, 12249860, 12978270, 13750000, 14567620, 15433850,
    16351600, 17323910, 18354050, 19445440, 20601720, 21826760,
    23124650, 24499710, 25956540, 27500000, 29135240, 30867710,
    32703200, 34647830, 36708100, 38890870, 41203440, 43653530,
    46249300, 48999430, 51913090, 55000000, 58270470, 61735410,
    65406390, 69295660, 73416190, 77781750, 82406890, 87307060,
    92498610, 97998860, 103826200, 110000000, 116540900, 123470800,
    130812800, 138591300, 146832400, 155563500, 164813800, 174614100,
    184997200, 195997700, 207652300, 220000000, 233081900, 246941700,
    261625600, 277182600, 293664800, 311127000, 329627600, 349228200,
    369994400, 391995400, 415304700, 440000000, 466163800, 493883300,
    523251100, 554365300, 587329500, 622254000, 659255100, 698456500,
    739988800, 783990900, 830609400, 880000000, 932327500, 987766600,
    1046502000, 1108731000, 1174659000, 1244508000, 1318510000, 1396913000,
    1479978000, 1567982000, 1661219000, 1760000000, 1864655000, 1975533000,
    2093005000, 2217461000, 2349318000, 2489016000, 2637020000, 2793826000,
    2959955000, 3135963000, 3322438000, 3520000000, 3729310000, 3951066000,
    4186009000, 4434922000, 4698636000, 4978032000, 5274041000, 5587652000,
    5919911000, 6271927000, 6644875000, 7040000000, 7458620000, 7902133000,
    8372018000, 8869844000, 9397273000, 9956063000, 10548080000, 11175300000,
    11839820000, 12543850000,
];

/// The frequency of a key in micro-hertz. A key above 127 has none.
pub fn midi_number_to_freq(num: u8) -> (r: Result<u64, PlayerErrorKind>)
    ensures
        num <= 127 ==> r == Ok::<u64, PlayerErrorKind>(MIDI_FREQUENCIES[num as int]),
        num > 127 ==> r == Err::<u64, PlayerErrorKind>(PlayerErrorKind::UnsupportedToneId),
{
    if num > 127 {
        Err(PlayerErrorKind::UnsupportedToneId)
    } else {
        Ok(MIDI_FREQUENCIES[num as usize])
    }
}

/// `f` micro-hertz lies within one part in a million of the frequency of key
/// `num`: `f * 0.999999 <= 440 * 10^6 * 2^((num - 69) / 12) <= f * 1.000001`.
/// Both sides are multiplied by a million, raised to the twelfth power and
/// multiplied by `2^69`, which leaves integers.
pub open spec fn is_near_pitch(num: int, f: int) -> bool {
    let exact = pow(CONCERT_PITCH as int * 1_000_000, 12) * pow2(num as nat);
    &&& 0 <= num
    &&& pow(f * 999_999, 12) * pow2(69) <= exact
    &&& exact <= pow(f * 1_000_001, 12) * pow2(69)
}

/// `2^n` from `2^64` on, as a product of two powers that are known numbers.
proof fn lemma_pow2_split(n: nat)
    ensures
        n >= 64 ==> pow2(n) == 0x1_0000_0000_0000_0000 * pow2((n - 64) as nat),
{
    if n >= 64 {
        lemma_pow2_adds(64, (n - 64) as nat);
        lemma2_to64();
    }
}

/// `(440 * 10^12)^12`.
pub open spec fn scaled_pitch_pow12() -> int {
    52654090776777588736000000000000000000000000000000000000000000000000000000000000000000000000000000000000000000000000000000000000000000000000000000000000000000000000000000000000int
}

/// Checks one entry of the table against the twelfth powers.
proof fn lemma_entry(num: int, f: int)
    requires
        0 <= num < 128,
        twelfth_power(f * 999_999) * 0x20_0000_0000_0000_0000 <= scaled_pitch_pow12() * pow2(
            num as nat,
        ),
        scaled_pitch_pow12() * pow2(num as nat) <= twelfth_power(f * 1_000_001)
            * 0x20_0000_0000_0000_0000,
    ensures
        is_near_pitch(num, f),
{
    lemma_twelfth_power(f * 999_999);
    lemma_twelfth_power(f * 1_000_001);
    lemma_twelfth_power(CONCERT_PITCH as int * 1_000_000);
    assert(twelfth_power(440_000_000_000_000) == scaled_pitch_pow12());
    lemma_pow2_split(69);
    lemma2_to64();
}

/// The keys 0 to 15.
proof fn lemma_keys_from_0(num: int)
    requires
        0 <= num < 16,
    ensures
        is_near_pitch(num, MIDI_FREQUENCIES[num] as int),
{
    lemma2_to64();
    lemma2_to64_rest();
    lemma_entry(0, 8175799);
    lemma_entry(1, 8661957);
    lemma_entry(2, 9177024);
    lemma_entry(3, 9722718);
    lemma_entry(4, 10300860);
    lemma_entry(5, 10913380);
    lemma_entry(6, 11562330);
    lemma_entry(7, 12249860);
    lemma_entry(8, 12978270);
    lemma_entry(9, 13750000);
    lemma_entry(10, 14567620);
    lemma_entry(11, 15433850);
    lemma_entry(12, 16351600);
    lemma_entry(13, 17323910);
    lemma_entry(14, 18354050);
    lemma_entry(15, 19445440);
}

/// The keys 16 to 31.
proof fn lemma_keys_from_16(num: int)
    requires
        16 <= num < 32,
    ensures
        is_near_pitch(num, MIDI_FREQUENCIES[num] as int),
{
    lemma2_to64();
    lemma2_to64_rest();
    lemma_entry(16, 20601720);
    lemma_entry(17, 21826760);
    lemma_entry(18, 23124650);
    lemma_entry(19, 24499710);
    lemma_entry(20, 25956540);
    lemma_entry(21, 27500000);
    lemma_entry(22, 29135240);
    lemma_entry(23, 30867710);
    lemma_entry(24, 32703200);
    lemma_entry(25, 34647830);
    lemma_entry(26, 36708100);
    lemma_entry(27, 38890870);
    lemma_entry(28, 41203440);
    lemma_entry(29, 43653530);
    lemma_entry(30, 46249300);
    lemma_entry(31, 48999430);
}

/// The keys 32 to 47.
proof fn lemma_keys_from_32(num: int)
    requires
        32 <= num < 48,
    ensures
        is_near_pitch(num, MIDI_FREQUENCIES[num] as int),
{
    lemma2_to64();
    lemma2_to64_rest();
    lemma_entry(32, 51913090);
    lemma_entry(33, 55000000);
    lemma_entry(34, 58270470);
    lemma_entry(35, 61735410);
    lemma_entry(36, 65406390);
    lemma_entry(37, 69295660);
    lemma_entry(38, 73416190);
    lemma_entry(39, 77781750);
    lemma_entry(40, 82406890);
    lemma_entry(41, 87307060);
    lemma_entry(42, 92498610);
    lemma_entry(43, 97998860);
    lemma_entry(44, 103826200);
    lemma_entry(45, 110000000);
    lemma_entry(46, 116540900);
    lemma_entry(47, 123470800);
}

/// The keys 48 to 63.
proof fn lemma_keys_from_48(num: int)
    requires
        48 <= num < 64,
    ensures
        is_near_pitch(num, MIDI_FREQUENCIES[num] as int),
{
    lemma2_to64();
    lemma2_to64_rest();
    lemma_entry(48, 130812800);
    lemma_entry(49, 138591300);
    lemma_entry(50, 146832400);
    lemma_entry(51, 155563500);
    lemma_entry(52, 164813800);
    lemma_entry(53, 174614100);
    lemma_entry(54, 184997200);
    lemma_entry(55, 195997700);
    lemma_entry(56, 207652300);
    lemma_entry(57, 220000000);
    lemma_entry(58, 233081900);
    lemma_entry(59, 246941700);
    lemma_entry(60, 261625600);
    lemma_entry(61, 277182600);
    lemma_entry(62, 293664800);
    lemma_entry(63, 311127000);
}

/// The keys 64 to 79.
proof fn lemma_keys_from_64(num: int)
    requires
        64 <= num < 80,
    ensures
        is_near_pitch(num, MIDI_FREQUENCIES[num] as int),
{
    lemma2_to64();
    lemma2_to64_rest();
    lemma_entry(64, 329627600);
    lemma_pow2_split(65);
    lemma_entry(65, 349228200);
    lemma_pow2_split(66);
    lemma_entry(66, 369994400);
    lemma_pow2_split(67);
    lemma_entry(67, 391995400);
    lemma_pow2_split(68);
    lemma_entry(68, 415304700);
    lemma_pow2_split(69);
    lemma_entry(69, 440000000);
    lemma_pow2_split(70);
    lemma_entry(70, 466163800);
    lemma_pow2_split(71);
    lemma_entry(71, 493883300);
    lemma_pow2_split(72);
    lemma_entry(72, 523251100);
    lemma_pow2_split(73);
    lemma_entry(73, 554365300);
    lemma_pow2_split(74);
    lemma_entry(74, 587329500);
    lemma_pow2_split(75);
    lemma_entry(75, 622254000);
    lemma_pow2_split(76);
    lemma_entry(76, 659255100);
    lemma_pow2_split(77);
    lemma_entry(77, 698456500);
    lemma_pow2_split(78);
    lemma_entry(78, 739988800);
    lemma_pow2_split(79);
    lemma_entry(79, 783990900);
}

/// The keys 80 to 95.
proof fn lemma_keys_from_80(num: int)
    requires
        80 <= num < 96,
    ensures
        is_near_pitch(num, MIDI_FREQUENCIES[num] as int),
{
    lemma2_to64();
    lemma2_to64_rest();
    lemma_pow2_split(80);
    lemma_entry(80, 830609400);
    lemma_pow2_split(81);
    lemma_entry(81, 880000000);
    lemma_pow2_split(82);
    lemma_entry(82, 932327500);
    lemma_pow2_split(83);
    lemma_entry(83, 987766600);
    lemma_pow2_split(84);
    lemma_entry(84, 1046502000);
    lemma_pow2_split(85);
    lemma_entry(85, 1108731000);
    lemma_pow2_split(86);
    lemma_entry(86, 1174659000);
    lemma_pow2_split(87);
    lemma_entry(87, 1244508000);
    lemma_pow2_split(88);
    lemma_entry(88, 1318510000);
    lemma_pow2_split(89);
    lemma_entry(89, 1396913000);
    lemma_pow2_split(90);
    lemma_entry(90, 1479978000);
    lemma_pow2_split(91);
    lemma_entry(91, 1567982000);
    lemma_pow2_split(92);
    lemma_entry(92, 1661219000);
    lemma_pow2_split(93);
    lemma_entry(93, 1760000000);
    lemma_pow2_split(94);
    lemma_entry(94, 1864655000);
    lemma_pow2_split(95);
    lemma_entry(95, 1975533000);
}

/// The keys 96 to 111.
proof fn lemma_keys_from_96(num: int)
    requires
        96 <= num < 112,
    ensures
        is_near_pitch(num, MIDI_FREQUENCIES[num] as int),
{
    lemma2_to64();
    lemma2_to64_rest();
    lemma_pow2_split(96);
    lemma_entry(96, 2093005000);
    lemma_pow2_split(97);
    lemma_entry(97, 2217461000);
    lemma_pow2_split(98);
    lemma_entry(98, 2349318000);
    lemma_pow2_split(99);
    lemma_entry(99, 2489016000);
    lemma_pow2_split(100);
    lemma_entry(100, 2637020000);
    lemma_pow2_split(101);
    lemma_entry(101, 2793826000);
    lemma_pow2_split(102);
    lemma_entry(102, 2959955000);
    lemma_pow2_split(103);
    lemma_entry(103, 3135963000);
    lemma_pow2_split(104);
    lemma_entry(104, 3322438000);
    lemma_pow2_split(105);
    lemma_entry(105, 3520000000);
    lemma_pow2_split(106);
    lemma_entry(106, 3729310000);
    lemma_pow2_split(107);
    lemma_entry(107, 3951066000);
    lemma_pow2_split(108);
    lemma_entry(108, 4186009000);
    lemma_pow2_split(109);
    lemma_entry(109, 4434922000);
    lemma_pow2_split(110);
    lemma_entry(110, 4698636000);
    lemma_pow2_split(111);
    lemma_entry(111, 4978032000);
}

/// The keys 112 to 127.
proof fn lemma_keys_from_112(num: int)
    requires
        112 <= num < 128,
    ensures
        is_near_pitch(num, MIDI_FREQUENCIES[num] as int),
{
    lemma2_to64();
    lemma2_to64_rest();
    lemma_pow2_split(112);
    lemma_entry(112, 5274041000);
    lemma_pow2_split(113);
    lemma_entry(113, 5587652000);
    lemma_pow2_split(114);
    lemma_entry(114, 5919911000);
    lemma_pow2_split(115);
    lemma_entry(115, 6271927000);
    lemma_pow2_split(116);
    lemma_entry(116, 6644875000);
    lemma_pow2_split(117);
    lemma_entry(117, 7040000000);
    lemma_pow2_split(118);
    lemma_entry(118, 7458620000);
    lemma_pow2_split(119);
    lemma_entry(119, 7902133000);
    lemma_pow2_split(120);
    lemma_entry(120, 8372018000);
    lemma_pow2_split(121);
    lemma_entry(121, 8869844000);
    lemma_pow2_split(122);
    lemma_entry(122, 9397273000);
    lemma_pow2_split(123);
    lemma_entry(123, 9956063000);
    lemma_pow2_split(124);
    lemma_entry(124, 10548080000);
    lemma_pow2_split(125);
    lemma_entry(125, 11175300000);
    lemma_pow2_split(126);
    lemma_entry(126, 11839820000);
    lemma_pow2_split(127);
    lemma_entry(127, 12543850000);
}

/// Every entry of the table lies within one part in a million of the
/// equal-tempered frequency of its key.
pub proof fn lemma_midi_table_is_equal_tempered(num: int)
    requires
        0 <= num < 128,
    ensures
        is_near_pitch(num, MIDI_FREQUENCIES[num] as int),
{
    if num < 16 {
        lemma_keys_from_0(num);
    } else if num < 32 {
        lemma_keys_from_16(num);
    } else if num < 48 {
        lemma_keys_from_32(num);
    } else if num < 64 {
        lemma_keys_from_48(num);
    } else if num < 80 {
        lemma_keys_from_64(num);
    } else if num < 96 {
        lemma_keys_from_80(num);
    } else if num < 112 {
        lemma_keys_from_96(num);
    } else if num < 128 {
        lemma_keys_from_112(num);
    }
}

/// Key 69 sounds at concert pitch.
pub proof fn lemma_key_69_is_concert_pitch()
    ensures
        MIDI_FREQUENCIES[69] == CONCERT_PITCH,
{
}

} // verus!
