//! Headings are whole degrees; sine and cosine come from a table of the first
//! quadrant, in millionths.

use crate::fixed::SCALE;
use vstd::prelude::*;

verus! {

/// `sin(d)` for `d` from 0 to 90 degrees, in millionths, rounded to nearest.
pub const SINE_TABLE: [i64; 91] = [
    0, 17452, 34899, 52336, 69756, 87156, 104528,
    121869, 139173, 156434, 173648, 190809, 207912, 224951,
    241922, 258819, 275637, 292372, 309017, 325568, 342020,
    358368, 374607, 390731, 406737, 422618, 438371, 453990,
    469472, 484810, 500000, 515038, 529919, 544639, 559193,
    573576, 587785, 601815, 615661, 629320, 642788, 656059,
    669131, 681998, 694658, 707107, 719340, 731354, 743145,
    754710, 766044, 777146, 788011, 798636, 809017, 819152,
    829038, 838671, 848048, 857167, 866025, 874620, 882948,
    891007, 898794, 906308, 913545, 920505, 927184, 933580,
    939693, 945519, 951057, 956305, 961262, 965926, 970296,
    974370, 978148, 981627, 984808, 987688, 990268, 992546,
    994522, 996195, 997564, 998630, 999391, 999848, 1000000,
];

/// Every entry of the table lies between 0 and 1.
pub open spec fn table_in_range() -> bool {
    forall|i: int| 0 <= i <= 90 ==> 0 <= #[trigger] SINE_TABLE[i] <= SCALE
}

/// The sine of a heading in degrees, in millionths.
pub open spec fn spec_sine(degrees: u32) -> i64 {
    let d = (degrees % 360) as int;
    if d <= 90 {
        SINE_TABLE[d]
    } else if d <= 180 {
        SINE_TABLE[180 - d]
    } else if d <= 270 {
        (-SINE_TABLE[d - 180]) as i64
    } else {
        (-SINE_TABLE[360 - d]) as i64
    }
}

/// The cosine of a heading in degrees, in millionths.
pub open spec fn spec_cosine(degrees: u32) -> i64 {
    spec_sine(((degrees % 360) + 90) as u32)
}

/// The entries of the table are fractions between 0 and 1.
pub proof fn lemma_table_in_range()
    ensures
        table_in_range(),
{
    assert forall|i: int| 0 <= i <= 90 implies 0 <= #[trigger] SINE_TABLE[i] <= SCALE by {
        lemma_entry_in_range(i);
    }
}

/// One entry of the table is a fraction between 0 and 1.
proof fn lemma_entry_in_range(i: int)
    requires
        0 <= i <= 90,
    ensures
        0 <= SINE_TABLE[i] <= SCALE,
{
    let t = SINE_TABLE;
    if i < 30 {
        assert(0 <= t[i] <= 500_000);
    } else if i < 60 {
        assert(500_000 <= t[i] <= 866_025);
    } else {
        assert(866_025 <= t[i] <= 1_000_000);
    }
}

/// The sine of a heading in degrees, in millionths.
pub fn sine(degrees: u32) -> (s: i64)
    ensures
        s == spec_sine(degrees),
        -SCALE <= s <= SCALE,
{
    proof {
        lemma_table_in_range();
    }
    let d: u32 = degrees % 360;
    if d <= 90 {
        SINE_TABLE[d as usize]
    } else if d <= 180 {
        SINE_TABLE[(180 - d) as usize]
    } else if d <= 270 {
        -SINE_TABLE[(d - 180) as usize]
    } else {
        -SINE_TABLE[(360 - d) as usize]
    }
}

/// The cosine of a heading in degrees, in millionths.
pub fn cosine(degrees: u32) -> (c: i64)
    ensures
        c == spec_cosine(degrees),
        -SCALE <= c <= SCALE,
{
    sine(degrees % 360 + 90)
}

} // verus!
