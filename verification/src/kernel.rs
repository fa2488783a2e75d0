//! The band-limited step kernel: 33 phases of 8 leading taps each.

use vstd::prelude::*;

verus! {

/// Leading half of a band-limited step, sampled at 33 sub-sample offsets.
/// Row `p` is the step that starts `p / 32` of a sample late; the trailing
/// half of that step is row `32 - p` read backwards.
pub const BL_STEP: [[i32; 8]; 33] = [
    [43, -115, 350, -488, 1136, -914, 5861, 21022],
    [44, -118, 348, -473, 1076, -799, 5274, 21001],
    [45, -121, 344, -454, 1011, -677, 4706, 20936],
    [46, -122, 336, -431, 942, -549, 4156, 20829],
    [47, -123, 327, -404, 868, -418, 3629, 20679],
    [47, -122, 316, -375, 792, -285, 3124, 20488],
    [47, -120, 303, -344, 714, -151, 2644, 20256],
    [46, -117, 289, -310, 634, -17, 2188, 19985],
    [46, -114, 273, -275, 553, 117, 1758, 19675],
    [44, -108, 255, -237, 471, 247, 1356, 19327],
    [43, -103, 237, -199, 390, 373, 981, 18944],
    [42, -98, 218, -160, 310, 495, 633, 18527],
    [40, -91, 198, -121, 231, 611, 314, 18078],
    [38, -84, 178, -81, 153, 722, 22, 17599],
    [36, -76, 157, -43, 80, 824, -241, 17092],
    [34, -68, 135, -3, 8, 919, -476, 16558],
    [32, -61, 115, 34, -60, 1006, -683, 16001],
    [29, -52, 94, 70, -123, 1083, -862, 15422],
    [27, -44, 73, 106, -184, 1152, -1015, 14824],
    [25, -36, 53, 139, -239, 1211, -1142, 14210],
    [22, -27, 34, 170, -290, 1261, -1244, 13582],
    [20, -20, 16, 199, -335, 1301, -1322, 12942],
    [18, -12, -3, 226, -375, 1331, -1376, 12293],
    [15, -4, -19, 250, -410, 1351, -1408, 11638],
    [13, 3, -35, 272, -439, 1361, -1419, 10979],
    [11, 9, -49, 292, -464, 1362, -1410, 10319],
    [9, 16, -63, 309, -483, 1354, -1383, 9660],
    [7, 22, -75, 322, -496, 1337, -1339, 9005],
    [6, 26, -85, 333, -504, 1312, -1280, 8355],
    [4, 31, -94, 341, -507, 1278, -1205, 7713],
    [3, 35, -102, 347, -506, 1238, -1119, 7082],
    [1, 40, -110, 350, -499, 1190, -1021, 6464],
    [0, 43, -115, 350, -488, 1136, -914, 5861],
];

/// Tap `i` of the leading half at phase `phase`.
pub open spec fn step_tap(phase: int, i: int) -> int
    recommends
        0 <= phase <= 32,
        0 <= i < 8,
{
    BL_STEP[phase][i] as int
}

/// Tap `k` of the whole kernel at `phase`, 16 taps wide: the leading half
/// is row `phase`, the trailing half is row `32 - phase` read backwards.
pub open spec fn kernel_value(phase: int, k: int) -> int
    recommends
        0 <= phase <= 32,
        0 <= k < 16,
{
    if k < 8 {
        step_tap(phase, k)
    } else {
        step_tap(32 - phase, 15 - k)
    }
}

/// Sum of the 8 taps of one row.
pub open spec fn row_sum(phase: int) -> int
    recommends
        0 <= phase <= 32,
{
    step_tap(phase, 0) + step_tap(phase, 1) + step_tap(phase, 2) + step_tap(phase, 3)
        + step_tap(phase, 4) + step_tap(phase, 5) + step_tap(phase, 6) + step_tap(phase, 7)
}

/// Reads one tap of the table.
pub fn kernel_tap(phase: usize, i: usize) -> (tap: i32)
    requires
        phase <= 32,
        i < 8,
    ensures
        tap == step_tap(phase as int, i as int),
        -32768 < tap < 32768,
{
    BL_STEP[phase][i]
}

/// Every tap is smaller in magnitude than one unit of amplitude.
pub proof fn lemma_step_tap_bounded(phase: int, i: int)
    requires
        0 <= phase <= 32,
        0 <= i < 8,
    ensures
        -32768 < step_tap(phase, i) < 32768,
{
}

/// A whole kernel sums to exactly one unit of amplitude.
pub proof fn lemma_kernel_is_unit_step(phase: int)
    requires
        0 <= phase <= 32,
    ensures
        row_sum(phase) + row_sum(32 - phase) == 32768,
        kernel_value(phase, 0) + kernel_value(phase, 1) + kernel_value(phase, 2) + kernel_value(
            phase,
            3,
        ) + kernel_value(phase, 4) + kernel_value(phase, 5) + kernel_value(phase, 6)
            + kernel_value(phase, 7) + kernel_value(phase, 8) + kernel_value(phase, 9)
            + kernel_value(phase, 10) + kernel_value(phase, 11) + kernel_value(phase, 12)
            + kernel_value(phase, 13) + kernel_value(phase, 14) + kernel_value(phase, 15)
            == 32768,
{
}

/// The kernel at phase `32 - p` is the kernel at phase `p` read backwards.
pub proof fn lemma_kernel_mirrors(phase: int, k: int)
    requires
        0 <= phase <= 32,
        0 <= k < 16,
    ensures
        kernel_value(32 - phase, k) == kernel_value(phase, 15 - k),
{
}

/// The last row is the first one moved one tap later, with a zero in front.
pub proof fn lemma_last_row_is_first_shifted(i: int)
    requires
        0 <= i < 7,
    ensures
        step_tap(32, i + 1) == step_tap(0, i),
        step_tap(32, 0) == 0,
{
}

} // verus!
