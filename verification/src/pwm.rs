//! The duty-cycle side of the dimmer: a perceptually scaled table that
//! turns a brightness level 0..=15 into a duty numerator out of 256, and
//! the frame of eight duty writes that the output driver applies to the
//! two four-channel timer groups whenever it wakes.

use vstd::prelude::*;
use crate::dimmer::DimmerBank;
use crate::dimmer::spec_get_level;

verus! {

/// Duty numerator for one brightness level, out of a fixed denominator of
/// 256. The curve is roughly exponential so that equal level steps read as
/// equal brightness steps.
pub open spec fn duty_entry(i: int) -> u16 {
    if i <= 0 {
        0
    } else if i == 1 {
        2
    } else if i == 2 {
        3
    } else if i == 3 {
        4
    } else if i == 4 {
        6
    } else if i == 5 {
        8
    } else if i == 6 {
        11
    } else if i == 7 {
        16
    } else if i == 8 {
        23
    } else if i == 9 {
        32
    } else if i == 10 {
        45
    } else if i == 11 {
        64
    } else if i == 12 {
        90
    } else if i == 13 {
        128
    } else if i == 14 {
        181
    } else {
        255
    }
}

/// The whole table: sixteen entries, one per brightness level.
pub open spec fn duty_table() -> Seq<u16> {
    Seq::new(16, |i: int| duty_entry(i))
}

/// Law: the duty-cycle table has exactly sixteen entries, is monotonically
/// non-decreasing, starts dark (level 0 maps to duty 0) and ends at its
/// maximum entry (level 15 maps to 255, the largest value in the table).
pub proof fn lemma_duty_table_shape()
    ensures
        duty_table().len() == 16,
        forall|i: int, j: int|
            0 <= i <= j < 16 ==> #[trigger] duty_table()[i] <= #[trigger] duty_table()[j],
        duty_table()[0] == 0,
        duty_table()[15] == 255,
        forall|i: int| 0 <= i < 16 ==> #[trigger] duty_table()[i] <= 255,
{
}

/// Look one brightness level up in the duty-cycle table.
pub fn duty_of_level(level: u8) -> (d: u16)
    requires
        level <= 15,
    ensures
        d == duty_table()[level as int],
        d <= 255,
{
    match level {
        0 => 0,
        1 => 2,
        2 => 3,
        3 => 4,
        4 => 6,
        5 => 8,
        6 => 11,
        7 => 16,
        8 => 23,
        9 => 32,
        10 => 45,
        11 => 64,
        12 => 90,
        13 => 128,
        14 => 181,
        _ => 255,
    }
}

/// One duty write: which timer group (1 or 2), which of its four channels
/// (1..=4), and the duty numerator out of [`DUTY_DENOMINATOR`].
#[derive(Clone, Copy, Debug, PartialEq, Eq, Structural)]
pub struct DutyWrite {
    pub group: u8,
    pub channel: u8,
    pub numerator: u16,
}

/// The fixed duty denominator every write is expressed against.
pub const DUTY_DENOMINATOR: u16 = 256;

/// The k-th write of an output frame. The driver walks the dimmer channels
/// in reverse order: write 0 takes dimmer channel 7 on timer group 2
/// channel 1, down to write 7 taking dimmer channel 0 on timer group 1
/// channel 4.
pub open spec fn spec_frame_write(levels: Seq<u8>, k: int) -> DutyWrite {
    DutyWrite {
        group: if k < 4 {
            2
        } else {
            1
        },
        channel: (k % 4 + 1) as u8,
        numerator: duty_table()[spec_get_level(levels, 7 - k) as int],
    }
}

/// Compute the frame of eight duty writes the output driver applies on one
/// wake: every channel's current level mapped through the duty-cycle
/// table, in the driver's fixed write order.
pub fn pwm_frame(bank: &DimmerBank) -> (frame: Vec<DutyWrite>)
    requires
        bank.inv(),
    ensures
        frame@.len() == 8,
        forall|k: int|
            0 <= k < 8 ==> #[trigger] frame@[k] == spec_frame_write(bank.level_seq(), k),
{
    let mut frame: Vec<DutyWrite> = Vec::new();
    let mut k: usize = 0;
    while k < 8
        invariant
            bank.inv(),
            k <= 8,
            frame@.len() == k,
            forall|j: int|
                0 <= j < k ==> #[trigger] frame@[j] == spec_frame_write(bank.level_seq(), j),
        decreases 8 - k,
    {
        let level = bank.get_dimmer(7 - k);
        let w = DutyWrite {
            group: if k < 4 {
                2
            } else {
                1
            },
            channel: (k % 4 + 1) as u8,
            numerator: duty_of_level(level),
        };
        frame.push(w);
        k = k + 1;
    }
    frame
}

} // verus!
