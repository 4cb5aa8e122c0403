//! Command dispatch: the interpretation of single bytes from the serial
//! link against the dimmer bank and the selection state, and the exact
//! menu bytes each command sends back. The surrounding read loop lives
//! outside this crate; it feeds the bytes in and writes the bytes out.

use vstd::prelude::*;
use crate::dimmer::DimmerBank;
use crate::dimmer::spec_inc_level;
use crate::dimmer::spec_inc_wakes;
use crate::dimmer::spec_dec_level;
use crate::dimmer::spec_dec_wakes;
use crate::menu::line_update_bytes;
use crate::menu::menu_bytes;
use crate::menu::menu_update;
use crate::menu::menu;

verus! {

/// Effect of one command byte on the whole dispatch state: the new
/// levels, the new wake flag, the new selection, and the bytes sent back
/// over the serial link.
///
/// `+`/`d` and `-`/`a` adjust the selected channel and redraw its line;
/// the digits `0`..`8` move the selection (0 deselects), clearing the old
/// line's highlight and drawing the new; `r` repaints the whole menu; `s`
/// and `w` step the selection up and down within 0..=8; every other byte
/// is an invalid command and changes nothing.
pub open spec fn spec_step(levels: Seq<u8>, pending: bool, sel: int, c: u8) -> (
    Seq<u8>,
    bool,
    int,
    Seq<u8>,
) {
    if c == 43 || c == 100 {
        if sel > 0 {
            (
                spec_inc_level(levels, sel - 1),
                pending || spec_inc_wakes(levels, sel - 1),
                sel,
                line_update_bytes(spec_inc_level(levels, sel - 1), sel, sel),
            )
        } else {
            (levels, pending, sel, Seq::empty())
        }
    } else if c == 45 || c == 97 {
        if sel > 0 {
            (
                spec_dec_level(levels, sel - 1),
                pending || spec_dec_wakes(levels, sel - 1),
                sel,
                line_update_bytes(spec_dec_level(levels, sel - 1), sel, sel),
            )
        } else {
            (levels, pending, sel, Seq::empty())
        }
    } else if 48 <= c <= 56 {
        (
            levels,
            pending,
            c - 48,
            line_update_bytes(levels, sel, 0) + line_update_bytes(levels, c - 48, c - 48),
        )
    } else if c == 114 {
        (levels, pending, sel, menu_bytes(levels, sel))
    } else if c == 115 {
        if sel < 8 {
            (
                levels,
                pending,
                sel + 1,
                line_update_bytes(levels, sel, 0) + line_update_bytes(levels, sel + 1, sel + 1),
            )
        } else {
            (levels, pending, sel, Seq::empty())
        }
    } else if c == 119 {
        if sel > 0 {
            (
                levels,
                pending,
                sel - 1,
                line_update_bytes(levels, sel, 0) + line_update_bytes(levels, sel - 1, sel - 1),
            )
        } else {
            (levels, pending, sel, Seq::empty())
        }
    } else {
        (levels, pending, sel, Seq::empty())
    }
}

/// Effect of a whole chunk of command bytes, first to last, with the
/// outputs of the single steps concatenated in order.
pub open spec fn spec_run(levels: Seq<u8>, pending: bool, sel: int, input: Seq<u8>) -> (
    Seq<u8>,
    bool,
    int,
    Seq<u8>,
)
    decreases input.len(),
{
    if input.len() == 0 {
        (levels, pending, sel, Seq::empty())
    } else {
        let (l1, p1, s1, o1) = spec_step(levels, pending, sel, input[0]);
        let (l2, p2, s2, o2) = spec_run(l1, p1, s1, input.skip(1));
        (l2, p2, s2, o1 + o2)
    }
}

/// Interpret one command byte: mutate the bank and the selection as the
/// dispatch table says, and return the bytes to send back.
pub fn handle_command(bank: &mut DimmerBank, sel: &mut usize, c: u8) -> (out: Vec<u8>)
    requires
        old(bank).inv(),
        *old(sel) <= 8,
    ensures
        final(bank).inv(),
        *final(sel) <= 8,
        ({
            let (l, p, s, o) = spec_step(
                old(bank).level_seq(),
                old(bank).pending(),
                *old(sel) as int,
                c,
            );
            final(bank).level_seq() == l && final(bank).pending() == p && *final(sel) as int == s
                && out@ == o
        }),
{
    match c {
        43 | 100 => {
            if *sel > 0 {
                bank.inc_dimmer(*sel - 1);
                menu_update(bank, *sel, *sel)
            } else {
                Vec::new()
            }
        },
        45 | 97 => {
            if *sel > 0 {
                bank.dec_dimmer(*sel - 1);
                menu_update(bank, *sel, *sel)
            } else {
                Vec::new()
            }
        },
        48..=56 => {
            let mut out = menu_update(bank, *sel, 0);
            *sel = (c - 48) as usize;
            let mut second = menu_update(bank, *sel, *sel);
            out.append(&mut second);
            out
        },
        114 => menu(bank, *sel),
        115 => {
            if *sel < 8 {
                let mut out = menu_update(bank, *sel, 0);
                *sel = *sel + 1;
                let mut second = menu_update(bank, *sel, *sel);
                out.append(&mut second);
                out
            } else {
                Vec::new()
            }
        },
        119 => {
            if *sel > 0 {
                let mut out = menu_update(bank, *sel, 0);
                *sel = *sel - 1;
                let mut second = menu_update(bank, *sel, *sel);
                out.append(&mut second);
                out
            } else {
                Vec::new()
            }
        },
        _ => Vec::new(),
    }
}

/// Interpret a chunk of command bytes in order, as the steady-state read
/// loop does, and return everything they send back, concatenated.
#[verifier::rlimit(60)]
pub fn handle_bytes(bank: &mut DimmerBank, sel: &mut usize, input: &Vec<u8>) -> (out: Vec<u8>)
    requires
        old(bank).inv(),
        *old(sel) <= 8,
    ensures
        final(bank).inv(),
        *final(sel) <= 8,
        ({
            let (l, p, s, o) = spec_run(
                old(bank).level_seq(),
                old(bank).pending(),
                *old(sel) as int,
                input@,
            );
            final(bank).level_seq() == l && final(bank).pending() == p && *final(sel) as int == s
                && out@ == o
        }),
{
    let ghost l0 = bank.level_seq();
    let ghost p0 = bank.pending();
    let ghost s0 = *sel as int;
    let mut out: Vec<u8> = Vec::new();
    let mut i: usize = 0;
    proof {
        assert(input@.skip(0) =~= input@);
        let (l, p, s, o) = spec_run(l0, p0, s0, input@);
        assert(out@ + o =~= o);
    }
    while i < input.len()
        invariant
            bank.inv(),
            *sel <= 8,
            i <= input@.len(),
            spec_run(l0, p0, s0, input@) == ({
                let (l, p, s, o) = spec_run(
                    bank.level_seq(),
                    bank.pending(),
                    *sel as int,
                    input@.skip(i as int),
                );
                (l, p, s, out@ + o)
            }),
        decreases input@.len() - i,
    {
        let ghost rest = input@.skip(i as int);
        let ghost lc = bank.level_seq();
        let ghost pc = bank.pending();
        let ghost sc = *sel as int;
        let ghost oc = out@;
        let c = input[i];
        let mut step_out = handle_command(bank, sel, c);
        out.append(&mut step_out);
        i = i + 1;
        proof {
            assert(rest[0] == c);
            assert(rest.skip(1) =~= input@.skip(i as int));
            let (l1, p1, s1, o1) = spec_step(lc, pc, sc, c);
            let (l2, p2, s2, o2) = spec_run(l1, p1, s1, input@.skip(i as int));
            assert(spec_run(lc, pc, sc, rest) == (l2, p2, s2, o1 + o2));
            assert(out@ + o2 =~= oc + (o1 + o2));
        }
    }
    proof {
        assert(input@.skip(i as int).len() == 0);
        assert(out@ + Seq::<u8>::empty() =~= out@);
    }
    out
}

} // verus!
