//! sRGB to linear light: the inverse gamma curve as a table, and the proof
//! that every entry of the table is the curve's value, correctly rounded.

use vstd::prelude::*;
use crate::fixed::ONE;

verus! {

/// Linear-light value of every sRGB byte: the inverse gamma curve
/// (`c / 12.92` up to 0.04045, `((c + 0.055) / 1.055) ^ 2.4` above it),
/// rounded to the nearest millionth.
pub const LINEAR: [u32; 256] = [
    0, 304, 607, 911, 1214, 1518, 1821, 2125,
    2428, 2732, 3035, 3347, 3677, 4025, 4391, 4777,
    5182, 5605, 6049, 6512, 6995, 7499, 8023, 8568,
    9134, 9721, 10330, 10960, 11612, 12286, 12983, 13702,
    14444, 15209, 15996, 16807, 17642, 18500, 19382, 20289,
    21219, 22174, 23153, 24158, 25187, 26241, 27321, 28426,
    29557, 30713, 31896, 33105, 34340, 35601, 36889, 38204,
    39546, 40915, 42311, 43735, 45186, 46665, 48172, 49707,
    51269, 52861, 54480, 56128, 57805, 59511, 61246, 63010,
    64803, 66626, 68478, 70360, 72272, 74214, 76185, 78187,
    80220, 82283, 84376, 86500, 88656, 90842, 93059, 95307,
    97587, 99899, 102242, 104616, 107023, 109462, 111932, 114435,
    116971, 119538, 122139, 124772, 127438, 130136, 132868, 135633,
    138432, 141263, 144128, 147027, 149960, 152926, 155926, 158961,
    162029, 165132, 168269, 171441, 174647, 177888, 181164, 184475,
    187821, 191202, 194618, 198069, 201556, 205079, 208637, 212231,
    215861, 219526, 223228, 226966, 230740, 234551, 238398, 242281,
    246201, 250158, 254152, 258183, 262251, 266356, 270498, 274677,
    278894, 283149, 287441, 291771, 296138, 300544, 304987, 309469,
    313989, 318547, 323143, 327778, 332452, 337164, 341914, 346704,
    351533, 356400, 361307, 366253, 371238, 376262, 381326, 386429,
    391572, 396755, 401978, 407240, 412543, 417885, 423268, 428690,
    434154, 439657, 445201, 450786, 456411, 462077, 467784, 473531,
    479320, 485150, 491021, 496933, 502886, 508881, 514918, 520996,
    527115, 533276, 539479, 545724, 552011, 558340, 564712, 571125,
    577580, 584078, 590619, 597202, 603827, 610496, 617207, 623960,
    630757, 637597, 644480, 651406, 658375, 665387, 672443, 679542,
    686685, 693872, 701102, 708376, 715694, 723055, 730461, 737910,
    745404, 752942, 760525, 768151, 775822, 783538, 791298, 799103,
    806952, 814847, 822786, 830770, 838799, 846873, 854993, 863157,
    871367, 879622, 887923, 896269, 904661, 913099, 921582, 930111,
    938686, 947307, 955973, 964686, 973445, 982251, 991102, 1000000,
];

/// Linear-light value of the sRGB byte `c`.
pub open spec fn linear(c: u8) -> int {
    LINEAR@[c as int] as int
}

/// `a` times the fifth power of `x`.
pub open spec fn times_pow5(a: int, x: int) -> int {
    a * x * x * x * x * x
}

/// `a` times the twelfth power of `x`.
pub open spec fn times_pow12(a: int, x: int) -> int {
    a * x * x * x * x * x * x * x * x * x * x * x * x
}

/// `v` millionths is the linear-light value of the sRGB byte `c`, rounded
/// to the nearest millionth. With `s = c / 255`, the value is `s / 12.92`
/// for `s <= 0.04045`, which holds up to byte 10, and
/// `((s + 0.055) / 1.055) ^ 2.4` above. The power is stated without
/// roots: `y = b ^ (12 / 5)` means `y ^ 5 = b ^ 12`, so `v` is the
/// nearest millionth when `b ^ 12` lies between the fifth powers of
/// `v - 1/2` and `v + 1/2` millionths. Cleared of fractions, with
/// `b = (1000 c + 14025) / 269025`, that is
/// `(2v - 1)^5 * 269025^12 <= 32 * 10^30 * (1000 c + 14025)^12
/// < (2v + 1)^5 * 269025^12`.
#[verifier::opaque]
pub open spec fn is_gamma_expansion(c: int, v: int) -> bool {
    if c <= 10 {
        2 * v * 329_460 - 329_460 <= 2 * c * 100_000_000 <= 2 * v * 329_460 + 329_460
    } else {
        &&& times_pow12(times_pow5(1, 2 * v - 1), 269_025) <= times_pow12(
            times_pow5(32, 1_000_000),
            1000 * c + 14_025,
        )
        &&& times_pow12(times_pow5(32, 1_000_000), 1000 * c + 14_025) < times_pow12(
            times_pow5(1, 2 * v + 1),
            269_025,
        )
    }
}

/// The condition of `is_gamma_expansion` above byte 10 with the powers
/// written out, so that it is plain arithmetic when `c` and `v` are
/// given as numbers; `below`, `above` and `base` are `2v - 1`, `2v + 1`
/// and `1000 c + 14025`.
proof fn lemma_gamma_entry(c: int, v: int, below: int, above: int, base: int)
    requires
        c > 10,
        below == 2 * v - 1,
        above == 2 * v + 1,
        base == 1000 * c + 14_025,
        1 * below * below * below * below * below * 269_025 * 269_025 * 269_025 * 269_025
            * 269_025 * 269_025 * 269_025 * 269_025 * 269_025 * 269_025 * 269_025 * 269_025 <= 32
            * 1_000_000 * 1_000_000 * 1_000_000 * 1_000_000 * 1_000_000 * base * base * base
            * base * base * base * base * base * base * base * base * base,
        32 * 1_000_000 * 1_000_000 * 1_000_000 * 1_000_000 * 1_000_000 * base * base * base * base
            * base * base * base * base * base * base * base * base < 1 * above * above * above
            * above * above * 269_025 * 269_025 * 269_025 * 269_025 * 269_025 * 269_025 * 269_025
            * 269_025 * 269_025 * 269_025 * 269_025 * 269_025,
    ensures
        is_gamma_expansion(c, v),
{
    reveal(is_gamma_expansion);
}

/// The condition of `is_gamma_expansion` up to byte 10.
proof fn lemma_gamma_low_entry(c: int, v: int)
    requires
        c <= 10,
        2 * v * 329_460 - 329_460 <= 2 * c * 100_000_000 <= 2 * v * 329_460 + 329_460,
    ensures
        is_gamma_expansion(c, v),
{
    reveal(is_gamma_expansion);
}

proof fn lemma_gamma_from_0(c: u8)
    requires
        0 <= c < 32,
    ensures
        is_gamma_expansion(c as int, linear(c)),
{
    lemma_gamma_low_entry(0, 0);
    lemma_gamma_low_entry(1, 304);
    lemma_gamma_low_entry(2, 607);
    lemma_gamma_low_entry(3, 911);
    lemma_gamma_low_entry(4, 1_214);
    lemma_gamma_low_entry(5, 1_518);
    lemma_gamma_low_entry(6, 1_821);
    lemma_gamma_low_entry(7, 2_125);
    lemma_gamma_low_entry(8, 2_428);
    lemma_gamma_low_entry(9, 2_732);
    lemma_gamma_low_entry(10, 3_035);
    lemma_gamma_entry(11, 3_347, 6_693, 6_695, 25_025);
    lemma_gamma_entry(12, 3_677, 7_353, 7_355, 26_025);
    lemma_gamma_entry(13, 4_025, 8_049, 8_051, 27_025);
    lemma_gamma_entry(14, 4_391, 8_781, 8_783, 28_025);
    lemma_gamma_entry(15, 4_777, 9_553, 9_555, 29_025);
    lemma_gamma_entry(16, 5_182, 10_363, 10_365, 30_025);
    lemma_gamma_entry(17, 5_605, 11_209, 11_211, 31_025);
    lemma_gamma_entry(18, 6_049, 12_097, 12_099, 32_025);
    lemma_gamma_entry(19, 6_512, 13_023, 13_025, 33_025);
    lemma_gamma_entry(20, 6_995, 13_989, 13_991, 34_025);
    lemma_gamma_entry(21, 7_499, 14_997, 14_999, 35_025);
    lemma_gamma_entry(22, 8_023, 16_045, 16_047, 36_025);
    lemma_gamma_entry(23, 8_568, 17_135, 17_137, 37_025);
    lemma_gamma_entry(24, 9_134, 18_267, 18_269, 38_025);
    lemma_gamma_entry(25, 9_721, 19_441, 19_443, 39_025);
    lemma_gamma_entry(26, 10_330, 20_659, 20_661, 40_025);
    lemma_gamma_entry(27, 10_960, 21_919, 21_921, 41_025);
    lemma_gamma_entry(28, 11_612, 23_223, 23_225, 42_025);
    lemma_gamma_entry(29, 12_286, 24_571, 24_573, 43_025);
    lemma_gamma_entry(30, 12_983, 25_965, 25_967, 44_025);
    lemma_gamma_entry(31, 13_702, 27_403, 27_405, 45_025);
}

proof fn lemma_gamma_from_32(c: u8)
    requires
        32 <= c < 64,
    ensures
        is_gamma_expansion(c as int, linear(c)),
{
    lemma_gamma_entry(32, 14_444, 28_887, 28_889, 46_025);
    lemma_gamma_entry(33, 15_209, 30_417, 30_419, 47_025);
    lemma_gamma_entry(34, 15_996, 31_991, 31_993, 48_025);
    lemma_gamma_entry(35, 16_807, 33_613, 33_615, 49_025);
    lemma_gamma_entry(36, 17_642, 35_283, 35_285, 50_025);
    lemma_gamma_entry(37, 18_500, 36_999, 37_001, 51_025);
    lemma_gamma_entry(38, 19_382, 38_763, 38_765, 52_025);
    lemma_gamma_entry(39, 20_289, 40_577, 40_579, 53_025);
    lemma_gamma_entry(40, 21_219, 42_437, 42_439, 54_025);
    lemma_gamma_entry(41, 22_174, 44_347, 44_349, 55_025);
    lemma_gamma_entry(42, 23_153, 46_305, 46_307, 56_025);
    lemma_gamma_entry(43, 24_158, 48_315, 48_317, 57_025);
    lemma_gamma_entry(44, 25_187, 50_373, 50_375, 58_025);
    lemma_gamma_entry(45, 26_241, 52_481, 52_483, 59_025);
    lemma_gamma_entry(46, 27_321, 54_641, 54_643, 60_025);
    lemma_gamma_entry(47, 28_426, 56_851, 56_853, 61_025);
    lemma_gamma_entry(48, 29_557, 59_113, 59_115, 62_025);
    lemma_gamma_entry(49, 30_713, 61_425, 61_427, 63_025);
    lemma_gamma_entry(50, 31_896, 63_791, 63_793, 64_025);
    lemma_gamma_entry(51, 33_105, 66_209, 66_211, 65_025);
    lemma_gamma_entry(52, 34_340, 68_679, 68_681, 66_025);
    lemma_gamma_entry(53, 35_601, 71_201, 71_203, 67_025);
    lemma_gamma_entry(54, 36_889, 73_777, 73_779, 68_025);
    lemma_gamma_entry(55, 38_204, 76_407, 76_409, 69_025);
    lemma_gamma_entry(56, 39_546, 79_091, 79_093, 70_025);
    lemma_gamma_entry(57, 40_915, 81_829, 81_831, 71_025);
    lemma_gamma_entry(58, 42_311, 84_621, 84_623, 72_025);
    lemma_gamma_entry(59, 43_735, 87_469, 87_471, 73_025);
    lemma_gamma_entry(60, 45_186, 90_371, 90_373, 74_025);
    lemma_gamma_entry(61, 46_665, 93_329, 93_331, 75_025);
    lemma_gamma_entry(62, 48_172, 96_343, 96_345, 76_025);
    lemma_gamma_entry(63, 49_707, 99_413, 99_415, 77_025);
}

proof fn lemma_gamma_from_64(c: u8)
    requires
        64 <= c < 96,
    ensures
        is_gamma_expansion(c as int, linear(c)),
{
    lemma_gamma_entry(64, 51_269, 102_537, 102_539, 78_025);
    lemma_gamma_entry(65, 52_861, 105_721, 105_723, 79_025);
    lemma_gamma_entry(66, 54_480, 108_959, 108_961, 80_025);
    lemma_gamma_entry(67, 56_128, 112_255, 112_257, 81_025);
    lemma_gamma_entry(68, 57_805, 115_609, 115_611, 82_025);
    lemma_gamma_entry(69, 59_511, 119_021, 119_023, 83_025);
    lemma_gamma_entry(70, 61_246, 122_491, 122_493, 84_025);
    lemma_gamma_entry(71, 63_010, 126_019, 126_021, 85_025);
    lemma_gamma_entry(72, 64_803, 129_605, 129_607, 86_025);
    lemma_gamma_entry(73, 66_626, 133_251, 133_253, 87_025);
    lemma_gamma_entry(74, 68_478, 136_955, 136_957, 88_025);
    lemma_gamma_entry(75, 70_360, 140_719, 140_721, 89_025);
    lemma_gamma_entry(76, 72_272, 144_543, 144_545, 90_025);
    lemma_gamma_entry(77, 74_214, 148_427, 148_429, 91_025);
    lemma_gamma_entry(78, 76_185, 152_369, 152_371, 92_025);
    lemma_gamma_entry(79, 78_187, 156_373, 156_375, 93_025);
    lemma_gamma_entry(80, 80_220, 160_439, 160_441, 94_025);
    lemma_gamma_entry(81, 82_283, 164_565, 164_567, 95_025);
    lemma_gamma_entry(82, 84_376, 168_751, 168_753, 96_025);
    lemma_gamma_entry(83, 86_500, 172_999, 173_001, 97_025);
    lemma_gamma_entry(84, 88_656, 177_311, 177_313, 98_025);
    lemma_gamma_entry(85, 90_842, 181_683, 181_685, 99_025);
    lemma_gamma_entry(86, 93_059, 186_117, 186_119, 100_025);
    lemma_gamma_entry(87, 95_307, 190_613, 190_615, 101_025);
    lemma_gamma_entry(88, 97_587, 195_173, 195_175, 102_025);
    lemma_gamma_entry(89, 99_899, 199_797, 199_799, 103_025);
    lemma_gamma_entry(90, 102_242, 204_483, 204_485, 104_025);
    lemma_gamma_entry(91, 104_616, 209_231, 209_233, 105_025);
    lemma_gamma_entry(92, 107_023, 214_045, 214_047, 106_025);
    lemma_gamma_entry(93, 109_462, 218_923, 218_925, 107_025);
    lemma_gamma_entry(94, 111_932, 223_863, 223_865, 108_025);
    lemma_gamma_entry(95, 114_435, 228_869, 228_871, 109_025);
}

proof fn lemma_gamma_from_96(c: u8)
    requires
        96 <= c < 128,
    ensures
        is_gamma_expansion(c as int, linear(c)),
{
    lemma_gamma_entry(96, 116_971, 233_941, 233_943, 110_025);
    lemma_gamma_entry(97, 119_538, 239_075, 239_077, 111_025);
    lemma_gamma_entry(98, 122_139, 244_277, 244_279, 112_025);
    lemma_gamma_entry(99, 124_772, 249_543, 249_545, 113_025);
    lemma_gamma_entry(100, 127_438, 254_875, 254_877, 114_025);
    lemma_gamma_entry(101, 130_136, 260_271, 260_273, 115_025);
    lemma_gamma_entry(102, 132_868, 265_735, 265_737, 116_025);
    lemma_gamma_entry(103, 135_633, 271_265, 271_267, 117_025);
    lemma_gamma_entry(104, 138_432, 276_863, 276_865, 118_025);
    lemma_gamma_entry(105, 141_263, 282_525, 282_527, 119_025);
    lemma_gamma_entry(106, 144_128, 288_255, 288_257, 120_025);
    lemma_gamma_entry(107, 147_027, 294_053, 294_055, 121_025);
    lemma_gamma_entry(108, 149_960, 299_919, 299_921, 122_025);
    lemma_gamma_entry(109, 152_926, 305_851, 305_853, 123_025);
    lemma_gamma_entry(110, 155_926, 311_851, 311_853, 124_025);
    lemma_gamma_entry(111, 158_961, 317_921, 317_923, 125_025);
    lemma_gamma_entry(112, 162_029, 324_057, 324_059, 126_025);
    lemma_gamma_entry(113, 165_132, 330_263, 330_265, 127_025);
    lemma_gamma_entry(114, 168_269, 336_537, 336_539, 128_025);
    lemma_gamma_entry(115, 171_441, 342_881, 342_883, 129_025);
    lemma_gamma_entry(116, 174_647, 349_293, 349_295, 130_025);
    lemma_gamma_entry(117, 177_888, 355_775, 355_777, 131_025);
    lemma_gamma_entry(118, 181_164, 362_327, 362_329, 132_025);
    lemma_gamma_entry(119, 184_475, 368_949, 368_951, 133_025);
    lemma_gamma_entry(120, 187_821, 375_641, 375_643, 134_025);
    lemma_gamma_entry(121, 191_202, 382_403, 382_405, 135_025);
    lemma_gamma_entry(122, 194_618, 389_235, 389_237, 136_025);
    lemma_gamma_entry(123, 198_069, 396_137, 396_139, 137_025);
    lemma_gamma_entry(124, 201_556, 403_111, 403_113, 138_025);
    lemma_gamma_entry(125, 205_079, 410_157, 410_159, 139_025);
    lemma_gamma_entry(126, 208_637, 417_273, 417_275, 140_025);
    lemma_gamma_entry(127, 212_231, 424_461, 424_463, 141_025);
}

proof fn lemma_gamma_from_128(c: u8)
    requires
        128 <= c < 160,
    ensures
        is_gamma_expansion(c as int, linear(c)),
{
    lemma_gamma_entry(128, 215_861, 431_721, 431_723, 142_025);
    lemma_gamma_entry(129, 219_526, 439_051, 439_053, 143_025);
    lemma_gamma_entry(130, 223_228, 446_455, 446_457, 144_025);
    lemma_gamma_entry(131, 226_966, 453_931, 453_933, 145_025);
    lemma_gamma_entry(132, 230_740, 461_479, 461_481, 146_025);
    lemma_gamma_entry(133, 234_551, 469_101, 469_103, 147_025);
    lemma_gamma_entry(134, 238_398, 476_795, 476_797, 148_025);
    lemma_gamma_entry(135, 242_281, 484_561, 484_563, 149_025);
    lemma_gamma_entry(136, 246_201, 492_401, 492_403, 150_025);
    lemma_gamma_entry(137, 250_158, 500_315, 500_317, 151_025);
    lemma_gamma_entry(138, 254_152, 508_303, 508_305, 152_025);
    lemma_gamma_entry(139, 258_183, 516_365, 516_367, 153_025);
    lemma_gamma_entry(140, 262_251, 524_501, 524_503, 154_025);
    lemma_gamma_entry(141, 266_356, 532_711, 532_713, 155_025);
    lemma_gamma_entry(142, 270_498, 540_995, 540_997, 156_025);
    lemma_gamma_entry(143, 274_677, 549_353, 549_355, 157_025);
    lemma_gamma_entry(144, 278_894, 557_787, 557_789, 158_025);
    lemma_gamma_entry(145, 283_149, 566_297, 566_299, 159_025);
    lemma_gamma_entry(146, 287_441, 574_881, 574_883, 160_025);
    lemma_gamma_entry(147, 291_771, 583_541, 583_543, 161_025);
    lemma_gamma_entry(148, 296_138, 592_275, 592_277, 162_025);
    lemma_gamma_entry(149, 300_544, 601_087, 601_089, 163_025);
    lemma_gamma_entry(150, 304_987, 609_973, 609_975, 164_025);
    lemma_gamma_entry(151, 309_469, 618_937, 618_939, 165_025);
    lemma_gamma_entry(152, 313_989, 627_977, 627_979, 166_025);
    lemma_gamma_entry(153, 318_547, 637_093, 637_095, 167_025);
    lemma_gamma_entry(154, 323_143, 646_285, 646_287, 168_025);
    lemma_gamma_entry(155, 327_778, 655_555, 655_557, 169_025);
    lemma_gamma_entry(156, 332_452, 664_903, 664_905, 170_025);
    lemma_gamma_entry(157, 337_164, 674_327, 674_329, 171_025);
    lemma_gamma_entry(158, 341_914, 683_827, 683_829, 172_025);
    lemma_gamma_entry(159, 346_704, 693_407, 693_409, 173_025);
}

proof fn lemma_gamma_from_160(c: u8)
    requires
        160 <= c < 192,
    ensures
        is_gamma_expansion(c as int, linear(c)),
{
    lemma_gamma_entry(160, 351_533, 703_065, 703_067, 174_025);
    lemma_gamma_entry(161, 356_400, 712_799, 712_801, 175_025);
    lemma_gamma_entry(162, 361_307, 722_613, 722_615, 176_025);
    lemma_gamma_entry(163, 366_253, 732_505, 732_507, 177_025);
    lemma_gamma_entry(164, 371_238, 742_475, 742_477, 178_025);
    lemma_gamma_entry(165, 376_262, 752_523, 752_525, 179_025);
    lemma_gamma_entry(166, 381_326, 762_651, 762_653, 180_025);
    lemma_gamma_entry(167, 386_429, 772_857, 772_859, 181_025);
    lemma_gamma_entry(168, 391_572, 783_143, 783_145, 182_025);
    lemma_gamma_entry(169, 396_755, 793_509, 793_511, 183_025);
    lemma_gamma_entry(170, 401_978, 803_955, 803_957, 184_025);
    lemma_gamma_entry(171, 407_240, 814_479, 814_481, 185_025);
    lemma_gamma_entry(172, 412_543, 825_085, 825_087, 186_025);
    lemma_gamma_entry(173, 417_885, 835_769, 835_771, 187_025);
    lemma_gamma_entry(174, 423_268, 846_535, 846_537, 188_025);
    lemma_gamma_entry(175, 428_690, 857_379, 857_381, 189_025);
    lemma_gamma_entry(176, 434_154, 868_307, 868_309, 190_025);
    lemma_gamma_entry(177, 439_657, 879_313, 879_315, 191_025);
    lemma_gamma_entry(178, 445_201, 890_401, 890_403, 192_025);
    lemma_gamma_entry(179, 450_786, 901_571, 901_573, 193_025);
    lemma_gamma_entry(180, 456_411, 912_821, 912_823, 194_025);
    lemma_gamma_entry(181, 462_077, 924_153, 924_155, 195_025);
    lemma_gamma_entry(182, 467_784, 935_567, 935_569, 196_025);
    lemma_gamma_entry(183, 473_531, 947_061, 947_063, 197_025);
    lemma_gamma_entry(184, 479_320, 958_639, 958_641, 198_025);
    lemma_gamma_entry(185, 485_150, 970_299, 970_301, 199_025);
    lemma_gamma_entry(186, 491_021, 982_041, 982_043, 200_025);
    lemma_gamma_entry(187, 496_933, 993_865, 993_867, 201_025);
    lemma_gamma_entry(188, 502_886, 1_005_771, 1_005_773, 202_025);
    lemma_gamma_entry(189, 508_881, 1_017_761, 1_017_763, 203_025);
    lemma_gamma_entry(190, 514_918, 1_029_835, 1_029_837, 204_025);
    lemma_gamma_entry(191, 520_996, 1_041_991, 1_041_993, 205_025);
}

proof fn lemma_gamma_from_192(c: u8)
    requires
        192 <= c < 224,
    ensures
        is_gamma_expansion(c as int, linear(c)),
{
    lemma_gamma_entry(192, 527_115, 1_054_229, 1_054_231, 206_025);
    lemma_gamma_entry(193, 533_276, 1_066_551, 1_066_553, 207_025);
    lemma_gamma_entry(194, 539_479, 1_078_957, 1_078_959, 208_025);
    lemma_gamma_entry(195, 545_724, 1_091_447, 1_091_449, 209_025);
    lemma_gamma_entry(196, 552_011, 1_104_021, 1_104_023, 210_025);
    lemma_gamma_entry(197, 558_340, 1_116_679, 1_116_681, 211_025);
    lemma_gamma_entry(198, 564_712, 1_129_423, 1_129_425, 212_025);
    lemma_gamma_entry(199, 571_125, 1_142_249, 1_142_251, 213_025);
    lemma_gamma_entry(200, 577_580, 1_155_159, 1_155_161, 214_025);
    lemma_gamma_entry(201, 584_078, 1_168_155, 1_168_157, 215_025);
    lemma_gamma_entry(202, 590_619, 1_181_237, 1_181_239, 216_025);
    lemma_gamma_entry(203, 597_202, 1_194_403, 1_194_405, 217_025);
    lemma_gamma_entry(204, 603_827, 1_207_653, 1_207_655, 218_025);
    lemma_gamma_entry(205, 610_496, 1_220_991, 1_220_993, 219_025);
    lemma_gamma_entry(206, 617_207, 1_234_413, 1_234_415, 220_025);
    lemma_gamma_entry(207, 623_960, 1_247_919, 1_247_921, 221_025);
    lemma_gamma_entry(208, 630_757, 1_261_513, 1_261_515, 222_025);
    lemma_gamma_entry(209, 637_597, 1_275_193, 1_275_195, 223_025);
    lemma_gamma_entry(210, 644_480, 1_288_959, 1_288_961, 224_025);
    lemma_gamma_entry(211, 651_406, 1_302_811, 1_302_813, 225_025);
    lemma_gamma_entry(212, 658_375, 1_316_749, 1_316_751, 226_025);
    lemma_gamma_entry(213, 665_387, 1_330_773, 1_330_775, 227_025);
    lemma_gamma_entry(214, 672_443, 1_344_885, 1_344_887, 228_025);
    lemma_gamma_entry(215, 679_542, 1_359_083, 1_359_085, 229_025);
    lemma_gamma_entry(216, 686_685, 1_373_369, 1_373_371, 230_025);
    lemma_gamma_entry(217, 693_872, 1_387_743, 1_387_745, 231_025);
    lemma_gamma_entry(218, 701_102, 1_402_203, 1_402_205, 232_025);
    lemma_gamma_entry(219, 708_376, 1_416_751, 1_416_753, 233_025);
    lemma_gamma_entry(220, 715_694, 1_431_387, 1_431_389, 234_025);
    lemma_gamma_entry(221, 723_055, 1_446_109, 1_446_111, 235_025);
    lemma_gamma_entry(222, 730_461, 1_460_921, 1_460_923, 236_025);
    lemma_gamma_entry(223, 737_910, 1_475_819, 1_475_821, 237_025);
}

proof fn lemma_gamma_from_224(c: u8)
    requires
        224 <= c < 256,
    ensures
        is_gamma_expansion(c as int, linear(c)),
{
    lemma_gamma_entry(224, 745_404, 1_490_807, 1_490_809, 238_025);
    lemma_gamma_entry(225, 752_942, 1_505_883, 1_505_885, 239_025);
    lemma_gamma_entry(226, 760_525, 1_521_049, 1_521_051, 240_025);
    lemma_gamma_entry(227, 768_151, 1_536_301, 1_536_303, 241_025);
    lemma_gamma_entry(228, 775_822, 1_551_643, 1_551_645, 242_025);
    lemma_gamma_entry(229, 783_538, 1_567_075, 1_567_077, 243_025);
    lemma_gamma_entry(230, 791_298, 1_582_595, 1_582_597, 244_025);
    lemma_gamma_entry(231, 799_103, 1_598_205, 1_598_207, 245_025);
    lemma_gamma_entry(232, 806_952, 1_613_903, 1_613_905, 246_025);
    lemma_gamma_entry(233, 814_847, 1_629_693, 1_629_695, 247_025);
    lemma_gamma_entry(234, 822_786, 1_645_571, 1_645_573, 248_025);
    lemma_gamma_entry(235, 830_770, 1_661_539, 1_661_541, 249_025);
    lemma_gamma_entry(236, 838_799, 1_677_597, 1_677_599, 250_025);
    lemma_gamma_entry(237, 846_873, 1_693_745, 1_693_747, 251_025);
    lemma_gamma_entry(238, 854_993, 1_709_985, 1_709_987, 252_025);
    lemma_gamma_entry(239, 863_157, 1_726_313, 1_726_315, 253_025);
    lemma_gamma_entry(240, 871_367, 1_742_733, 1_742_735, 254_025);
    lemma_gamma_entry(241, 879_622, 1_759_243, 1_759_245, 255_025);
    lemma_gamma_entry(242, 887_923, 1_775_845, 1_775_847, 256_025);
    lemma_gamma_entry(243, 896_269, 1_792_537, 1_792_539, 257_025);
    lemma_gamma_entry(244, 904_661, 1_809_321, 1_809_323, 258_025);
    lemma_gamma_entry(245, 913_099, 1_826_197, 1_826_199, 259_025);
    lemma_gamma_entry(246, 921_582, 1_843_163, 1_843_165, 260_025);
    lemma_gamma_entry(247, 930_111, 1_860_221, 1_860_223, 261_025);
    lemma_gamma_entry(248, 938_686, 1_877_371, 1_877_373, 262_025);
    lemma_gamma_entry(249, 947_307, 1_894_613, 1_894_615, 263_025);
    lemma_gamma_entry(250, 955_973, 1_911_945, 1_911_947, 264_025);
    lemma_gamma_entry(251, 964_686, 1_929_371, 1_929_373, 265_025);
    lemma_gamma_entry(252, 973_445, 1_946_889, 1_946_891, 266_025);
    lemma_gamma_entry(253, 982_251, 1_964_501, 1_964_503, 267_025);
    lemma_gamma_entry(254, 991_102, 1_982_203, 1_982_205, 268_025);
    lemma_gamma_entry(255, 1_000_000, 1_999_999, 2_000_001, 269_025);
}

/// Every entry of the table is the correctly rounded value of the
/// inverse gamma curve.
pub proof fn lemma_linear_is_gamma_expansion(c: u8)
    ensures
        is_gamma_expansion(c as int, linear(c)),
{
    if c < 32 {
        lemma_gamma_from_0(c);
    } else if c < 64 {
        lemma_gamma_from_32(c);
    } else if c < 96 {
        lemma_gamma_from_64(c);
    } else if c < 128 {
        lemma_gamma_from_96(c);
    } else if c < 160 {
        lemma_gamma_from_128(c);
    } else if c < 192 {
        lemma_gamma_from_160(c);
    } else if c < 224 {
        lemma_gamma_from_192(c);
    } else {
        lemma_gamma_from_224(c);
    }
}

/// Linear-light value of an sRGB byte, in millionths: the inverse gamma
/// curve at `c / 255`, rounded to the nearest millionth.
pub fn srgb_to_linear(c: u8) -> (v: u32)
    ensures
        v as int == linear(c),
        is_gamma_expansion(c as int, v as int),
        v <= ONE,
{
    proof {
        lemma_linear_bounds(c);
        lemma_linear_is_gamma_expansion(c);
    }
    LINEAR[c as usize]
}

/// Linear light runs from 0 for byte 0 to one for byte 255.
pub proof fn lemma_linear_bounds(c: u8)
    ensures
        0 <= linear(c) <= ONE,
        linear(0) == 0,
        linear(255) == ONE,
{
    assert(forall|i: int| 0 <= i < 256 ==> LINEAR@[i] <= ONE);
}

} // verus!
