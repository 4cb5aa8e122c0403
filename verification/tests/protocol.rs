use dcclicht::dimmer::DimmerBank;
use dcclicht::dispatch::{handle_bytes, handle_command};
use dcclicht::menu::{menu, menu_init, menu_update};

fn line(idx: usize, sel: usize, lvl: u8) -> Vec<u8> {
    let mut v = if idx == sel {
        format!("\x1b[{};10HLicht {}: \x1b[7m{:3}\x1b[0m\n", idx + 4, idx, lvl)
    } else {
        format!("\x1b[{};10HLicht {}: {:3}\n", idx + 4, idx, lvl)
    }
    .into_bytes();
    v.extend_from_slice(b"\x1b[H");
    v
}

fn full_menu(levels: &[u8; 8], sel: usize) -> Vec<u8> {
    let mut v = b"\x1b[2J\x1b[1;20H".to_vec();
    v.extend_from_slice(b"DCC Licht\n");
    for n in 1..=8 {
        v.extend_from_slice(&line(n, sel, levels[n - 1]));
    }
    v.extend_from_slice(b"\x1b[H");
    v
}

#[test]
fn line_update_renders_selected_in_inverse_video() {
    let mut b = DimmerBank::new();
    b.set_dimmer(4, 12);
    assert_eq!(menu_update(&b, 5, 5), line(5, 5, 12));
    assert_eq!(menu_update(&b, 5, 2), line(5, 2, 12));
    assert_eq!(menu_update(&b, 8, 0), line(8, 0, 0));
}

#[test]
fn line_update_out_of_range_renders_nothing() {
    let b = DimmerBank::new();
    assert_eq!(menu_update(&b, 0, 0), Vec::<u8>::new());
    assert_eq!(menu_update(&b, 9, 3), Vec::<u8>::new());
}

#[test]
fn init_chirps_and_resets_all_channels() {
    let mut b = DimmerBank::new();
    b.set_dimmer(0, 9);
    b.set_dimmer(7, 15);
    b.wait_dimmer();
    let out = menu_init(&mut b);
    assert_eq!(out, vec![27u8, 99, 7, 7, 7]);
    for idx in 0..8 {
        assert_eq!(b.get_dimmer(idx), 0);
    }
    assert!(b.wait_dimmer());
}

#[test]
fn startup_menu_shows_eight_dark_channels_unhighlighted() {
    let mut b = DimmerBank::new();
    let chirp = menu_init(&mut b);
    assert_eq!(chirp, vec![27u8, 99, 7, 7, 7]);
    let out = menu(&b, 0);
    assert_eq!(out, full_menu(&[0; 8], 0));
}

#[test]
fn select_then_adjust_scenario() {
    let mut b = DimmerBank::new();
    let mut sel: usize = 0;
    let out = handle_bytes(&mut b, &mut sel, &b"5++-".to_vec());
    assert_eq!(sel, 5);
    assert_eq!(b.get_dimmer(4), 1);
    let mut expected = line(5, 5, 0);
    expected.extend_from_slice(&line(5, 5, 1));
    expected.extend_from_slice(&line(5, 5, 2));
    expected.extend_from_slice(&line(5, 5, 1));
    assert_eq!(out, expected);
}

#[test]
fn adjust_levels_step_by_step() {
    let mut b = DimmerBank::new();
    let mut sel: usize = 0;
    assert_eq!(handle_command(&mut b, &mut sel, b'5'), line(5, 5, 0));
    assert_eq!(sel, 5);
    assert_eq!(handle_command(&mut b, &mut sel, b'+'), line(5, 5, 1));
    assert_eq!(b.get_dimmer(4), 1);
    assert_eq!(handle_command(&mut b, &mut sel, b'd'), line(5, 5, 2));
    assert_eq!(b.get_dimmer(4), 2);
    assert_eq!(handle_command(&mut b, &mut sel, b'-'), line(5, 5, 1));
    assert_eq!(handle_command(&mut b, &mut sel, b'a'), line(5, 5, 0));
    assert_eq!(b.get_dimmer(4), 0);
}

#[test]
fn selection_caps_at_eight() {
    let mut b = DimmerBank::new();
    let mut sel: usize = 0;
    for step in 1..=8 {
        let mut expected = if step == 1 {
            Vec::new()
        } else {
            line(step - 1, 0, 0)
        };
        expected.extend_from_slice(&line(step, step, 0));
        assert_eq!(handle_command(&mut b, &mut sel, b's'), expected);
        assert_eq!(sel, step);
    }
    let ninth = handle_command(&mut b, &mut sel, b's');
    assert_eq!(ninth, Vec::<u8>::new());
    assert_eq!(sel, 8);
}

#[test]
fn step_down_at_zero_changes_nothing() {
    let mut b = DimmerBank::new();
    let mut sel: usize = 0;
    let out = handle_command(&mut b, &mut sel, b'w');
    assert_eq!(out, Vec::<u8>::new());
    assert_eq!(sel, 0);
    for idx in 0..8 {
        assert_eq!(b.get_dimmer(idx), 0);
    }
    assert!(!b.wait_dimmer());
}

#[test]
fn step_down_moves_highlight() {
    let mut b = DimmerBank::new();
    let mut sel: usize = 3;
    let mut expected = line(3, 0, 0);
    expected.extend_from_slice(&line(2, 2, 0));
    assert_eq!(handle_command(&mut b, &mut sel, b'w'), expected);
    assert_eq!(sel, 2);
}

#[test]
fn digit_zero_deselects() {
    let mut b = DimmerBank::new();
    let mut sel: usize = 4;
    let out = handle_command(&mut b, &mut sel, b'0');
    assert_eq!(sel, 0);
    assert_eq!(out, line(4, 0, 0));
    let ignored = handle_command(&mut b, &mut sel, b'+');
    assert_eq!(ignored, Vec::<u8>::new());
    assert_eq!(b.get_dimmer(0), 0);
}

#[test]
fn repaint_command_renders_full_menu() {
    let mut b = DimmerBank::new();
    let mut sel: usize = 2;
    b.set_dimmer(1, 7);
    b.set_dimmer(6, 15);
    let out = handle_command(&mut b, &mut sel, b'r');
    let mut levels = [0u8; 8];
    levels[1] = 7;
    levels[6] = 15;
    assert_eq!(out, full_menu(&levels, 2));
    assert_eq!(sel, 2);
}

#[test]
fn unmapped_byte_changes_nothing() {
    let mut b = DimmerBank::new();
    let mut sel: usize = 3;
    b.set_dimmer(2, 5);
    b.wait_dimmer();
    let out = handle_command(&mut b, &mut sel, 200);
    assert_eq!(out, Vec::<u8>::new());
    assert_eq!(sel, 3);
    for idx in 0..8 {
        let expected = if idx == 2 { 5 } else { 0 };
        assert_eq!(b.get_dimmer(idx), expected);
    }
    assert!(!b.wait_dimmer());
}

#[test]
fn adjust_while_deselected_is_ignored() {
    let mut b = DimmerBank::new();
    let mut sel: usize = 0;
    assert_eq!(handle_command(&mut b, &mut sel, b'+'), Vec::<u8>::new());
    assert_eq!(handle_command(&mut b, &mut sel, b'-'), Vec::<u8>::new());
    for idx in 0..8 {
        assert_eq!(b.get_dimmer(idx), 0);
    }
    assert!(!b.wait_dimmer());
}

#[test]
fn digit_nine_is_not_a_command() {
    let mut b = DimmerBank::new();
    let mut sel: usize = 2;
    let out = handle_command(&mut b, &mut sel, b'9');
    assert_eq!(out, Vec::<u8>::new());
    assert_eq!(sel, 2);
    assert!(!b.wait_dimmer());
}

#[test]
fn increment_at_maximum_still_redraws_without_wake() {
    let mut b = DimmerBank::new();
    let mut sel: usize = 3;
    b.set_dimmer(2, 15);
    b.wait_dimmer();
    let out = handle_command(&mut b, &mut sel, b'+');
    assert_eq!(out, line(3, 3, 15));
    assert_eq!(b.get_dimmer(2), 15);
    assert!(!b.wait_dimmer());
}

#[test]
fn level_field_is_right_justified() {
    let mut b = DimmerBank::new();
    b.set_dimmer(0, 9);
    let single = menu_update(&b, 1, 0);
    let rendered = String::from_utf8(single).unwrap();
    assert!(rendered.contains("Licht 1:   9"));
    b.set_dimmer(0, 10);
    let double = menu_update(&b, 1, 0);
    let rendered = String::from_utf8(double).unwrap();
    assert!(rendered.contains("Licht 1:  10"));
}
