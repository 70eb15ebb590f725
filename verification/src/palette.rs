//! The colour in which a slot's log lines are shown.

use vstd::prelude::*;

verus! {

/// The number of slots that have a colour of their own.
pub const MAX_SLOTS: u8 = 20;

/// A colour by its red, green and blue parts.
#[derive(Debug, Clone, Copy, PartialEq, Eq, Structural)]
pub struct Rgb {
    pub red: u8,
    pub green: u8,
    pub blue: u8,
}

/// The colours of the slots, by slot index.
pub open spec fn slot_colours() -> Seq<Rgb> {
    seq![
        Rgb { red: 238, green: 63, blue: 77 },
        Rgb { red: 43, green: 18, blue: 22 },
        Rgb { red: 233, green: 184, blue: 195 },
        Rgb { red: 167, green: 168, blue: 189 },
        Rgb { red: 46, green: 49, blue: 124 },
        Rgb { red: 23, green: 114, blue: 180 },
        Rgb { red: 97, green: 113, blue: 114 },
        Rgb { red: 85, green: 187, blue: 138 },
        Rgb { red: 208, green: 222, blue: 170 },
        Rgb { red: 249, green: 211, blue: 103 },
        Rgb { red: 237, green: 51, blue: 51 },
        Rgb { red: 244, green: 62, blue: 6 },
        Rgb { red: 232, green: 180, blue: 154 },
        Rgb { red: 102, green: 70, blue: 42 },
        Rgb { red: 247, green: 193, blue: 115 },
        Rgb { red: 57, green: 55, blue: 51 },
        Rgb { red: 242, green: 230, blue: 206 },
        Rgb { red: 88, green: 71, blue: 23 },
        Rgb { red: 252, green: 210, blue: 23 },
        Rgb { red: 91, green: 174, blue: 35 },
    ]
}

/// The colour of a slot; `None` for a slot beyond the table.
pub fn slot_colour(slot: u8) -> (c: Option<Rgb>)
    ensures
        slot_colours().len() == MAX_SLOTS,
        c == if slot < MAX_SLOTS {
            Some(slot_colours()[slot as int])
        } else {
            None
        },
{
    let (red, green, blue): (u8, u8, u8) = match slot {
        0 => (238, 63, 77),
        1 => (43, 18, 22),
        2 => (233, 184, 195),
        3 => (167, 168, 189),
        4 => (46, 49, 124),
        5 => (23, 114, 180),
        6 => (97, 113, 114),
        7 => (85, 187, 138),
        8 => (208, 222, 170),
        9 => (249, 211, 103),
        10 => (237, 51, 51),
        11 => (244, 62, 6),
        12 => (232, 180, 154),
        13 => (102, 70, 42),
        14 => (247, 193, 115),
        15 => (57, 55, 51),
        16 => (242, 230, 206),
        17 => (88, 71, 23),
        18 => (252, 210, 23),
        19 => (91, 174, 35),
        _ => {
            return None;
        },
    };
    Some(Rgb { red, green, blue })
}

} // verus!
