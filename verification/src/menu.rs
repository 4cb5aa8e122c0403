//! The serial menu: byte-exact rendering of the full status screen and of
//! single status lines, as VT100 escape sequences, plus the one-time
//! terminal reset that precedes them. The functions return the bytes to
//! send; the serial link itself lives outside this crate.

use vstd::prelude::*;
use crate::dimmer::DimmerBank;
use crate::dimmer::spec_get_level;

verus! {

/// Decimal digits of a number 0..=99: one byte below ten, two above.
pub open spec fn digits2(n: int) -> Seq<u8> {
    if n < 10 {
        seq![(48 + n) as u8]
    } else {
        seq![(48 + n / 10) as u8, (48 + n % 10) as u8]
    }
}

/// A brightness value right-justified to three characters, space padded,
/// as the menu shows it.
pub open spec fn level_field(level: u8) -> Seq<u8> {
    if level < 10 {
        seq![32u8, 32u8, (48 + level) as u8]
    } else {
        seq![32u8, (48 + level / 10) as u8, (48 + level % 10) as u8]
    }
}

/// Cursor home: `ESC [ H`.
pub open spec fn home_bytes() -> Seq<u8> {
    seq![27u8, 91u8, 72u8]
}

/// The fixed head of a status line: cursor to row `idx + 4` column 10,
/// then `Licht <idx>: `.
pub open spec fn line_head(idx: int) -> Seq<u8> {
    seq![27u8, 91u8] + digits2(idx + 4) + seq![
        59u8,
        49u8,
        48u8,
        72u8,
        76u8,
        105u8,
        99u8,
        104u8,
        116u8,
        32u8,
    ] + digits2(idx) + seq![58u8, 32u8]
}

/// One channel's status line, ending in a newline. The selected channel's
/// value is wrapped in inverse video (`ESC [ 7 m` .. `ESC [ 0 m`).
pub open spec fn status_line(idx: int, sel: int, level: u8) -> Seq<u8> {
    if idx == sel {
        line_head(idx) + seq![27u8, 91u8, 55u8, 109u8] + level_field(level) + seq![
            27u8,
            91u8,
            48u8,
            109u8,
            10u8,
        ]
    } else {
        line_head(idx) + level_field(level) + seq![10u8]
    }
}

/// Everything a single-line update sends: the redrawn status line followed
/// by cursor home. An index outside 1..=8 sends nothing.
pub open spec fn line_update_bytes(levels: Seq<u8>, idx: int, sel: int) -> Seq<u8> {
    if 1 <= idx <= 8 {
        status_line(idx, sel, spec_get_level(levels, idx - 1)) + home_bytes()
    } else {
        Seq::empty()
    }
}

/// The status lines of channels 1..=n, in order, each with its trailing
/// cursor home.
pub open spec fn menu_lines(levels: Seq<u8>, sel: int, n: int) -> Seq<u8>
    decreases n,
{
    if n <= 0 {
        Seq::empty()
    } else {
        menu_lines(levels, sel, n - 1) + line_update_bytes(levels, n, sel)
    }
}

/// Screen clear and cursor to the title position: `ESC [ 2 J ESC [ 1 ; 20 H`.
pub open spec fn clear_head() -> Seq<u8> {
    seq![27u8, 91u8, 50u8, 74u8, 27u8, 91u8, 49u8, 59u8, 50u8, 48u8, 72u8]
}

/// The title line.
pub open spec fn title_bytes() -> Seq<u8> {
    seq![68u8, 67u8, 67u8, 32u8, 76u8, 105u8, 99u8, 104u8, 116u8, 10u8]
}

/// A full menu repaint: clear and title, all eight status lines, cursor
/// home.
pub open spec fn menu_bytes(levels: Seq<u8>, sel: int) -> Seq<u8> {
    clear_head() + title_bytes() + menu_lines(levels, sel, 8) + home_bytes()
}

/// The one-time initialization output: terminal reset `ESC c` and three
/// bell characters.
pub open spec fn init_bytes() -> Seq<u8> {
    seq![27u8, 99u8, 7u8, 7u8, 7u8]
}

/// Append the decimal digits of `n` (0..=99).
fn push_digits2(out: &mut Vec<u8>, n: u8)
    requires
        n <= 99,
    ensures
        final(out)@ == old(out)@ + digits2(n as int),
{
    if n < 10 {
        out.push(48 + n);
    } else {
        out.push(48 + n / 10);
        out.push(48 + n % 10);
    }
    assert(out@ =~= old(out)@ + digits2(n as int));
}

/// Append a brightness value right-justified to three characters.
fn push_level_field(out: &mut Vec<u8>, level: u8)
    requires
        level <= 99,
    ensures
        final(out)@ == old(out)@ + level_field(level),
{
    out.push(32);
    if level < 10 {
        out.push(32);
        out.push(48 + level);
    } else {
        out.push(48 + level / 10);
        out.push(48 + level % 10);
    }
    assert(out@ =~= old(out)@ + level_field(level));
}

/// Render one channel's status line update: cursor to its row, the line's
/// text with the value in inverse video when the channel is the selected
/// one, then cursor home. Indices outside 1..=8 render nothing.
pub fn menu_update(bank: &DimmerBank, idx: usize, sel: usize) -> (out: Vec<u8>)
    requires
        bank.inv(),
    ensures
        out@ == line_update_bytes(bank.level_seq(), idx as int, sel as int),
{
    let mut out: Vec<u8> = Vec::new();
    if idx < 1 || idx > 8 {
        assert(out@ =~= line_update_bytes(bank.level_seq(), idx as int, sel as int));
        return out;
    }
    let level = bank.get_dimmer(idx - 1);
    out.push(27);
    out.push(91);
    assert(out@ =~= seq![27u8, 91u8]);
    push_digits2(&mut out, (idx + 4) as u8);
    out.push(59);
    out.push(49);
    out.push(48);
    out.push(72);
    out.push(76);
    out.push(105);
    out.push(99);
    out.push(104);
    out.push(116);
    out.push(32);
    push_digits2(&mut out, idx as u8);
    out.push(58);
    out.push(32);
    assert(out@ =~= line_head(idx as int));
    if idx == sel {
        out.push(27);
        out.push(91);
        out.push(55);
        out.push(109);
        push_level_field(&mut out, level);
        out.push(27);
        out.push(91);
        out.push(48);
        out.push(109);
        out.push(10);
        assert(out@ =~= status_line(idx as int, sel as int, level));
    } else {
        push_level_field(&mut out, level);
        out.push(10);
        assert(out@ =~= status_line(idx as int, sel as int, level));
    }
    out.push(27);
    out.push(91);
    out.push(72);
    assert(out@ =~= line_update_bytes(bank.level_seq(), idx as int, sel as int));
    out
}

/// Render the full menu: clear the screen, print the title, then every
/// channel's status line (the selected one highlighted), and leave the
/// cursor at home.
pub fn menu(bank: &DimmerBank, sel: usize) -> (out: Vec<u8>)
    requires
        bank.inv(),
    ensures
        out@ == menu_bytes(bank.level_seq(), sel as int),
{
    let mut out: Vec<u8> = Vec::new();
    out.push(27);
    out.push(91);
    out.push(50);
    out.push(74);
    out.push(27);
    out.push(91);
    out.push(49);
    out.push(59);
    out.push(50);
    out.push(48);
    out.push(72);
    assert(out@ =~= clear_head());
    out.push(68);
    out.push(67);
    out.push(67);
    out.push(32);
    out.push(76);
    out.push(105);
    out.push(99);
    out.push(104);
    out.push(116);
    out.push(10);
    assert(out@ =~= clear_head() + title_bytes());
    let mut n: usize = 1;
    while n <= 8
        invariant
            bank.inv(),
            1 <= n <= 9,
            out@ == clear_head() + title_bytes() + menu_lines(bank.level_seq(), sel as int, n - 1),
        decreases 9 - n,
    {
        let mut line = menu_update(bank, n, sel);
        out.append(&mut line);
        assert(out@ =~= clear_head() + title_bytes() + menu_lines(
            bank.level_seq(),
            sel as int,
            n as int,
        ));
        n = n + 1;
    }
    out.push(27);
    out.push(91);
    out.push(72);
    assert(out@ =~= menu_bytes(bank.level_seq(), sel as int));
    out
}

/// Protocol initialization: reset every channel to level 0 (each reset
/// raises the wake signal) and return the terminal-reset-and-chirp bytes
/// to send first.
pub fn menu_init(bank: &mut DimmerBank) -> (out: Vec<u8>)
    requires
        old(bank).inv(),
    ensures
        final(bank).inv(),
        final(bank).level_seq().len() == 8,
        forall|i: int| 0 <= i < 8 ==> final(bank).level_seq()[i] == 0,
        final(bank).pending(),
        out@ == init_bytes(),
{
    let mut idx: usize = 0;
    while idx < 8
        invariant
            bank.inv(),
            idx <= 8,
            forall|i: int| 0 <= i < idx ==> bank.level_seq()[i] == 0,
            idx > 0 ==> bank.pending(),
        decreases 8 - idx,
    {
        bank.set_dimmer(idx, 0);
        idx = idx + 1;
    }
    let mut out: Vec<u8> = Vec::new();
    out.push(27);
    out.push(99);
    out.push(7);
    out.push(7);
    out.push(7);
    assert(out@ =~= init_bytes());
    out
}

} // verus!
