use termhex::navigation::{Command, DisplayMode, Effect, NavigationState};

fn valid(s: &NavigationState) -> bool {
    s.offset % 16 == 0 && s.offset <= 16 * (s.len / 16)
}

#[test]
fn starts_at_top_in_hex() {
    let s = NavigationState::new(100, 25);
    assert_eq!(s.offset, 0);
    assert_eq!(s.mode, DisplayMode::Hex);
    assert_eq!(s.visible_rows, 24);
    assert_eq!(s.len, 100);
    assert_eq!(NavigationState::new(100, 0).visible_rows, 0);
    assert_eq!(NavigationState::new(100, 1).visible_rows, 0);
}

#[test]
fn home_then_end_on_37_bytes() {
    let mut s = NavigationState::new(37, 10);
    assert_eq!(s.apply(Command::Home), Effect::Redraw);
    assert_eq!(s.offset, 0);
    assert_eq!(s.apply(Command::End), Effect::Redraw);
    assert_eq!(s.offset, 32);
}

#[test]
fn end_on_multiple_of_16_and_on_empty() {
    let mut s = NavigationState::new(64, 10);
    s.end();
    assert_eq!(s.offset, 64);
    let mut e = NavigationState::new(0, 10);
    e.end();
    assert_eq!(e.offset, 0);
    let mut small = NavigationState::new(15, 10);
    small.end();
    assert_eq!(small.offset, 0);
}

#[test]
fn page_down_moves_a_full_page() {
    let mut s = NavigationState::new(10000, 21);
    assert_eq!(s.visible_rows, 20);
    assert_eq!(s.apply(Command::PageDown), Effect::Redraw);
    assert_eq!(s.offset, 320);
}

#[test]
fn page_down_clamps_near_the_end() {
    let mut s = NavigationState::new(100, 21);
    s.page_down();
    assert_eq!(s.offset, 96);
    let mut t = NavigationState::new(96, 21);
    t.page_down();
    assert_eq!(t.offset, 80);
}

#[test]
fn page_up_clamps_at_the_top() {
    let mut s = NavigationState::new(10000, 21);
    s.page_down();
    s.page_down();
    assert_eq!(s.offset, 640);
    s.page_up();
    assert_eq!(s.offset, 320);
    s.move_up();
    assert_eq!(s.offset, 304);
    s.page_up();
    assert_eq!(s.offset, 0);
    s.page_up();
    assert_eq!(s.offset, 0);
}

#[test]
fn move_up_is_a_no_op_in_the_first_row() {
    let mut s = NavigationState::new(100, 10);
    assert_eq!(s.apply(Command::MoveUp), Effect::Redraw);
    assert_eq!(s.offset, 0);
}

#[test]
fn move_down_stops_before_the_end() {
    let mut s = NavigationState::new(32, 10);
    assert_eq!(s.apply(Command::MoveDown), Effect::Redraw);
    assert_eq!(s.offset, 16);
    s.move_down();
    assert_eq!(s.offset, 16);
    let mut t = NavigationState::new(33, 10);
    t.move_down();
    t.move_down();
    assert_eq!(t.offset, 32);
    let mut e = NavigationState::new(0, 10);
    e.move_down();
    assert_eq!(e.offset, 0);
    let mut one_row = NavigationState::new(16, 10);
    one_row.move_down();
    assert_eq!(one_row.offset, 0);
}

#[test]
fn down_undoes_up_at_interior_offsets() {
    let mut s = NavigationState::new(1000, 10);
    for _ in 0..5 {
        s.move_down();
    }
    let before = s;
    s.move_up();
    assert_eq!(s.offset, before.offset - 16);
    s.move_down();
    assert_eq!(s, before);
}

#[test]
fn toggle_twice_restores_the_mode() {
    let mut s = NavigationState::new(1000, 10);
    s.move_down();
    let before = s;
    assert_eq!(s.apply(Command::ToggleMode), Effect::ClearScreen);
    assert_eq!(s.mode, DisplayMode::Char);
    assert_eq!(s.offset, before.offset);
    assert_eq!(s.apply(Command::ToggleMode), Effect::ClearScreen);
    assert_eq!(s, before);
}

#[test]
fn resize_sets_rows_and_keeps_the_offset() {
    let mut s = NavigationState::new(1000, 10);
    s.move_down();
    assert_eq!(s.apply(Command::Resize(80, 41)), Effect::ClearScreen);
    assert_eq!(s.visible_rows, 40);
    assert_eq!(s.offset, 16);
    assert_eq!(s.apply(Command::Resize(80, 0)), Effect::ClearScreen);
    assert_eq!(s.visible_rows, 0);
    s.resize(120, 1);
    assert_eq!(s.visible_rows, 0);
    assert_eq!(s.offset, 16);
}

#[test]
fn export_and_quit_leave_the_state() {
    let mut s = NavigationState::new(1000, 10);
    s.move_down();
    let before = s;
    assert_eq!(s.apply(Command::Export), Effect::Export);
    assert_eq!(s, before);
    assert_eq!(s.apply(Command::Quit), Effect::Quit);
    assert_eq!(s, before);
}

#[test]
fn offset_stays_valid_under_any_commands() {
    let cmds = [
        Command::End,
        Command::MoveDown,
        Command::PageDown,
        Command::MoveUp,
        Command::Resize(80, 3),
        Command::PageUp,
        Command::PageDown,
        Command::ToggleMode,
        Command::MoveDown,
        Command::Home,
        Command::PageUp,
        Command::Resize(80, 500),
        Command::PageDown,
        Command::End,
        Command::PageUp,
    ];
    for len in [0usize, 1, 15, 16, 17, 31, 32, 37, 255, 256, 1000] {
        let mut s = NavigationState::new(len, 7);
        for round in 0..4 {
            for (i, c) in cmds.iter().enumerate() {
                if (i + round) % 3 != 0 {
                    s.apply(*c);
                    assert!(valid(&s));
                    assert_eq!(s.len, len);
                }
            }
        }
    }
}
