use editor::buffer::Buffer;
use editor::editor::{max_column, Mode, RunningEditor, Step, MAX_RENDER_DELAY};
use editor::input::{printable, InputEvent, Key};
use editor::run;

fn started(text: &str, window: (usize, usize)) -> RunningEditor {
    let ed = run(text.to_string(), window);
    assert!(ed.is_well_formed());
    ed
}

fn press(ed: &mut RunningEditor, c: char) {
    assert!(ed.is_well_formed());
    ed.handle_input(InputEvent::Key(Key::Char(c)));
}

fn key(ed: &mut RunningEditor, k: Key) {
    assert!(ed.is_well_formed());
    ed.handle_input(InputEvent::Key(k));
}

fn text(ed: &RunningEditor) -> &str {
    &ed.buffers[ed.cur_buf].content
}

#[test]
fn with_buf_starts_at_the_top_left() {
    let ed = RunningEditor::with_buf(Buffer { content: "ab\ncd".to_string() }, (80, 24));
    assert!(!ed.running);
    assert_eq!(ed.buffers.len(), 1);
    assert_eq!(ed.buffers[0].content, "ab\ncd");
    assert_eq!(ed.cur_buf, 0);
    assert_eq!(ed.cursor, (0, 0));
    assert_eq!(ed.wanted_col, 0);
    assert_eq!(ed.window_size, (80, 24));
    assert_eq!(ed.scroll, (0, 0));
    assert!(ed.screen_dirty);
    assert_eq!(ed.mode, Mode::Normal);
    assert!(ed.is_well_formed());
}

#[test]
fn new_editor_has_an_empty_buffer() {
    let ed = RunningEditor::new((10, 5));
    assert_eq!(ed.buffers.len(), 1);
    assert_eq!(ed.buffers[0].content, "");
    assert_eq!(ed.window_size, (10, 5));
    assert!(!ed.running);
    assert!(!ed.is_well_formed());
}

#[test]
fn run_starts_the_editor() {
    let ed = run("x".to_string(), (3, 2));
    assert!(ed.running);
    assert!(ed.screen_dirty);
    assert_eq!(ed.buffers[0].content, "x");
    assert_eq!(ed.cursor, (0, 0));
    assert_eq!(ed.mode, Mode::Normal);
    assert_eq!(ed.window_size, (3, 2));
}

#[test]
fn move_then_insert() {
    let mut ed = started("ab\ncd", (80, 24));
    press(&mut ed, 'l');
    assert_eq!(ed.cursor, (1, 0));
    press(&mut ed, 'j');
    assert_eq!(ed.cursor, (1, 1));
    press(&mut ed, 'i');
    assert_eq!(ed.mode, Mode::Insert);
    assert_eq!(ed.cursor, (1, 1));
    press(&mut ed, 'X');
    assert_eq!(text(&ed), "ab\ncXd");
    assert_eq!(ed.cursor, (2, 1));
    assert_eq!(ed.wanted_col, 2);
}

#[test]
fn insert_on_the_first_row() {
    let mut ed = started("ab\ncd", (80, 24));
    press(&mut ed, 'l');
    press(&mut ed, 'i');
    press(&mut ed, 'X');
    assert_eq!(text(&ed), "aXb\ncd");
    assert_eq!(ed.cursor, (2, 0));
}

#[test]
fn empty_lines() {
    let mut ed = started("\n\nabc", (80, 24));
    press(&mut ed, 'l');
    assert_eq!(ed.cursor, (0, 0));
    press(&mut ed, 'j');
    assert_eq!(ed.cursor, (0, 1));
    press(&mut ed, 'l');
    assert_eq!(ed.cursor, (0, 1));
    press(&mut ed, 'j');
    assert_eq!(ed.cursor, (0, 2));
    press(&mut ed, 'l');
    assert_eq!(ed.cursor, (1, 2));
    press(&mut ed, 'l');
    assert_eq!(ed.cursor, (2, 2));
    press(&mut ed, 'l');
    assert_eq!(ed.cursor, (2, 2));
    press(&mut ed, 'j');
    assert_eq!(ed.cursor, (2, 2));
    press(&mut ed, 'k');
    assert_eq!(ed.cursor, (0, 1));
    assert_eq!(ed.wanted_col, 2);
}

#[test]
fn ragged_rows_restore_the_column() {
    let mut ed = started("abcdef\nab\n\nabcdefgh", (80, 24));
    for _ in 0..4 {
        press(&mut ed, 'l');
    }
    assert_eq!(ed.cursor, (4, 0));
    press(&mut ed, 'j');
    assert_eq!(ed.cursor, (1, 1));
    press(&mut ed, 'j');
    assert_eq!(ed.cursor, (0, 2));
    press(&mut ed, 'j');
    assert_eq!(ed.cursor, (4, 3));
    assert_eq!(ed.wanted_col, 4);
    press(&mut ed, 'k');
    press(&mut ed, 'k');
    press(&mut ed, 'k');
    assert_eq!(ed.cursor, (4, 0));
}

#[test]
fn left_and_right_set_the_wanted_column() {
    let mut ed = started("abc\nabc", (80, 24));
    press(&mut ed, 'l');
    press(&mut ed, 'l');
    assert_eq!(ed.wanted_col, 2);
    press(&mut ed, 'h');
    assert_eq!(ed.cursor, (1, 0));
    assert_eq!(ed.wanted_col, 1);
    press(&mut ed, 'j');
    assert_eq!(ed.cursor, (1, 1));
}

#[test]
fn esc_in_normal_mode_stops() {
    let mut ed = started("ab", (80, 24));
    ed.screen_dirty = false;
    key(&mut ed, Key::Esc);
    assert!(!ed.running);
    assert!(!ed.screen_dirty);
    assert_eq!(ed.mode, Mode::Normal);
}

#[test]
fn append_moves_past_the_character() {
    let mut ed = started("ab", (80, 24));
    press(&mut ed, 'l');
    ed.screen_dirty = false;
    press(&mut ed, 'a');
    assert_eq!(ed.mode, Mode::Insert);
    assert_eq!(ed.cursor, (2, 0));
    assert!(ed.screen_dirty);
    press(&mut ed, 'c');
    assert_eq!(text(&ed), "abc");
    assert_eq!(ed.cursor, (3, 0));
}

#[test]
fn append_in_an_empty_row_stays() {
    let mut ed = started("\nab", (80, 24));
    press(&mut ed, 'a');
    assert_eq!(ed.mode, Mode::Insert);
    assert_eq!(ed.cursor, (0, 0));
    press(&mut ed, 'x');
    assert_eq!(text(&ed), "x\nab");
    assert_eq!(ed.cursor, (1, 0));
}

#[test]
fn esc_in_insert_mode_steps_back_onto_the_row() {
    let mut ed = started("ab\ncd", (80, 24));
    press(&mut ed, 'l');
    press(&mut ed, 'a');
    assert_eq!(ed.cursor, (2, 0));
    ed.screen_dirty = false;
    key(&mut ed, Key::Esc);
    assert_eq!(ed.mode, Mode::Normal);
    assert_eq!(ed.cursor, (1, 0));
    assert_eq!(ed.wanted_col, 2);
    assert!(ed.running);
    assert!(ed.screen_dirty);
}

#[test]
fn esc_in_insert_mode_inside_the_row_stays() {
    let mut ed = started("abc", (80, 24));
    press(&mut ed, 'l');
    press(&mut ed, 'i');
    key(&mut ed, Key::Esc);
    assert_eq!(ed.mode, Mode::Normal);
    assert_eq!(ed.cursor, (1, 0));
}

#[test]
fn esc_in_insert_mode_on_an_empty_row() {
    let mut ed = started("\nx", (80, 24));
    press(&mut ed, 'i');
    key(&mut ed, Key::Esc);
    assert_eq!(ed.mode, Mode::Normal);
    assert_eq!(ed.cursor, (0, 0));
}

#[test]
fn enter_breaks_the_line() {
    let mut ed = started("abcd\nef", (80, 24));
    press(&mut ed, 'l');
    press(&mut ed, 'l');
    press(&mut ed, 'i');
    ed.screen_dirty = false;
    key(&mut ed, Key::Enter);
    assert_eq!(text(&ed), "ab\ncd\nef");
    assert_eq!(ed.cursor, (0, 1));
    assert_eq!(ed.wanted_col, 0);
    assert_eq!(ed.mode, Mode::Insert);
    assert!(ed.screen_dirty);
    press(&mut ed, 'X');
    assert_eq!(text(&ed), "ab\nXcd\nef");
}

#[test]
fn enter_at_the_end_of_a_row() {
    let mut ed = started("ab\ncd", (80, 24));
    press(&mut ed, 'l');
    press(&mut ed, 'a');
    key(&mut ed, Key::Enter);
    assert_eq!(text(&ed), "ab\n\ncd");
    assert_eq!(ed.cursor, (0, 1));
    press(&mut ed, 'x');
    assert_eq!(text(&ed), "ab\nx\ncd");
}

#[test]
fn enter_at_the_end_of_the_text_begins_no_row() {
    let mut ed = started("ab", (80, 24));
    press(&mut ed, 'l');
    press(&mut ed, 'a');
    assert_eq!(ed.cursor, (2, 0));
    key(&mut ed, Key::Enter);
    assert_eq!(text(&ed), "ab\n");
    assert_eq!(ed.buffers[0].num_rows(), 1);
    assert_eq!(ed.cursor, (0, 0));
    assert_eq!(ed.wanted_col, 0);
    assert!(ed.is_well_formed());
}

#[test]
fn typing_counts_characters_not_bytes() {
    let mut ed = started("h\u{e9}\u{4e16}", (80, 24));
    press(&mut ed, 'l');
    press(&mut ed, 'l');
    press(&mut ed, 'i');
    press(&mut ed, '\u{1f600}');
    assert_eq!(text(&ed), "h\u{e9}\u{1f600}\u{4e16}");
    assert_eq!(ed.cursor, (3, 0));
    press(&mut ed, 'z');
    assert_eq!(text(&ed), "h\u{e9}\u{1f600}z\u{4e16}");
    assert_eq!(ed.cursor, (4, 0));
}

#[test]
fn control_characters_are_not_typed() {
    let mut ed = started("ab", (80, 24));
    press(&mut ed, 'i');
    ed.screen_dirty = false;
    press(&mut ed, '\n');
    assert_eq!(text(&ed), "ab");
    assert_eq!(ed.cursor, (0, 0));
    assert!(ed.screen_dirty);
    press(&mut ed, '\r');
    press(&mut ed, '\u{7f}');
    press(&mut ed, '\u{9b}');
    press(&mut ed, '\u{0}');
    assert_eq!(text(&ed), "ab");
    press(&mut ed, ' ');
    press(&mut ed, '\u{a0}');
    assert_eq!(text(&ed), " \u{a0}ab");
}

#[test]
fn printable_leaves_out_the_control_characters() {
    assert!(printable('a'));
    assert!(printable(' '));
    assert!(printable('~'));
    assert!(printable('\u{a0}'));
    assert!(printable('\u{10ffff}'));
    assert!(!printable('\u{1f}'));
    assert!(!printable('\t'));
    assert!(!printable('\u{7f}'));
    assert!(!printable('\u{80}'));
    assert!(!printable('\u{9f}'));
}

#[test]
fn keys_without_meaning_mark_the_screen() {
    let mut ed = started("ab", (80, 24));
    ed.screen_dirty = false;
    press(&mut ed, 'z');
    assert!(ed.screen_dirty);
    assert_eq!(ed.cursor, (0, 0));
    assert_eq!(ed.mode, Mode::Normal);
    ed.screen_dirty = false;
    key(&mut ed, Key::Other);
    assert!(ed.screen_dirty);
    ed.screen_dirty = false;
    key(&mut ed, Key::Enter);
    assert!(ed.screen_dirty);
    assert_eq!(text(&ed), "ab");
    press(&mut ed, 'i');
    ed.screen_dirty = false;
    key(&mut ed, Key::Other);
    assert!(ed.screen_dirty);
    assert_eq!(ed.mode, Mode::Insert);
}

#[test]
fn moves_that_cannot_be_made_leave_the_screen() {
    let mut ed = started("a", (80, 24));
    ed.screen_dirty = false;
    press(&mut ed, 'h');
    press(&mut ed, 'j');
    press(&mut ed, 'k');
    press(&mut ed, 'l');
    assert!(!ed.screen_dirty);
    assert_eq!(ed.cursor, (0, 0));
}

#[test]
fn moves_mark_the_screen() {
    let mut ed = started("ab\ncd", (80, 24));
    ed.screen_dirty = false;
    press(&mut ed, 'l');
    assert!(ed.screen_dirty);
    ed.screen_dirty = false;
    press(&mut ed, 'j');
    assert!(ed.screen_dirty);
    ed.screen_dirty = false;
    press(&mut ed, 'h');
    assert!(ed.screen_dirty);
    ed.screen_dirty = false;
    press(&mut ed, 'k');
    assert!(ed.screen_dirty);
}

#[test]
fn other_events_change_nothing() {
    let mut ed = started("ab", (80, 24));
    ed.screen_dirty = false;
    ed.handle_input(InputEvent::Other);
    assert!(!ed.screen_dirty);
    assert!(ed.running);
    assert_eq!(ed.cursor, (0, 0));
}

#[test]
fn scrolling_follows_the_cursor() {
    let mut ed = started("0123456789\n1\n2\n3\n4\n5", (4, 3));
    for _ in 0..3 {
        press(&mut ed, 'l');
    }
    assert_eq!(ed.cursor, (3, 0));
    assert_eq!(ed.scroll, (0, 0));
    press(&mut ed, 'l');
    assert_eq!(ed.cursor, (4, 0));
    assert_eq!(ed.scroll, (1, 0));
    for _ in 0..5 {
        press(&mut ed, 'l');
    }
    assert_eq!(ed.cursor, (9, 0));
    assert_eq!(ed.scroll, (6, 0));
    press(&mut ed, 'j');
    assert_eq!(ed.cursor, (0, 1));
    assert_eq!(ed.scroll, (0, 0));
    press(&mut ed, 'j');
    assert_eq!(ed.scroll, (0, 0));
    press(&mut ed, 'j');
    assert_eq!(ed.cursor, (0, 3));
    assert_eq!(ed.scroll, (0, 1));
    press(&mut ed, 'j');
    press(&mut ed, 'j');
    assert_eq!(ed.cursor, (0, 5));
    assert_eq!(ed.scroll, (0, 3));
    press(&mut ed, 'k');
    press(&mut ed, 'k');
    assert_eq!(ed.cursor, (0, 3));
    assert_eq!(ed.scroll, (0, 3));
    press(&mut ed, 'k');
    assert_eq!(ed.cursor, (0, 2));
    assert_eq!(ed.scroll, (0, 2));
    for _ in 0..4 {
        press(&mut ed, 'k');
    }
    assert_eq!(ed.cursor, (9, 0));
    assert_eq!(ed.scroll, (6, 0));
    press(&mut ed, 'h');
    assert_eq!(ed.scroll, (6, 0));
    for _ in 0..3 {
        press(&mut ed, 'h');
    }
    assert_eq!(ed.cursor, (5, 0));
    assert_eq!(ed.scroll, (5, 0));
}

#[test]
fn scrolling_again_changes_nothing() {
    let mut ed = started("0123456789\n1\n2\n3\n4\n5", (4, 3));
    for _ in 0..6 {
        press(&mut ed, 'l');
    }
    for _ in 0..4 {
        press(&mut ed, 'j');
    }
    let scroll = ed.scroll;
    ed.scroll_to_cursor();
    assert_eq!(ed.scroll, scroll);
    ed.check_scroll_up();
    ed.check_scroll_down();
    ed.check_scroll_left();
    ed.check_scroll_right();
    assert_eq!(ed.scroll, scroll);
}

#[test]
fn the_cursor_stays_in_the_window() {
    let mut ed = started("0123456789\n1\n2\n3\n4\n5", (4, 3));
    let keys = ['l', 'l', 'l', 'l', 'l', 'j', 'j', 'j', 'l', 'k', 'j', 'j', 'j', 'h', 'k', 'k', 'k', 'k', 'k', 'l'];
    for c in keys {
        press(&mut ed, c);
        assert!(ed.scroll.0 <= ed.cursor.0 && ed.cursor.0 < ed.scroll.0 + 4);
        assert!(ed.scroll.1 <= ed.cursor.1 && ed.cursor.1 < ed.scroll.1 + 3);
    }
}

#[test]
fn esc_scrolls_back_to_the_cursor() {
    let mut ed = started("abc", (1, 1));
    press(&mut ed, 'l');
    press(&mut ed, 'l');
    press(&mut ed, 'a');
    assert_eq!(ed.cursor, (3, 0));
    assert_eq!(ed.scroll, (3, 0));
    key(&mut ed, Key::Esc);
    assert_eq!(ed.cursor, (2, 0));
    assert_eq!(ed.scroll, (2, 0));
}

#[test]
fn enter_scrolls_back_to_the_first_column() {
    let mut ed = started("abcdef\nx", (3, 2));
    for _ in 0..5 {
        press(&mut ed, 'l');
    }
    assert_eq!(ed.scroll, (3, 0));
    press(&mut ed, 'i');
    key(&mut ed, Key::Enter);
    assert_eq!(text(&ed), "abcde\nf\nx");
    assert_eq!(ed.cursor, (0, 1));
    assert_eq!(ed.scroll, (0, 0));
}

#[test]
fn resize_keeps_the_cursor_in_the_window() {
    let mut ed = started("0123456789\n1\n2\n3\n4\n5\n6\n7", (20, 10));
    for _ in 0..8 {
        press(&mut ed, 'l');
    }
    for _ in 0..6 {
        press(&mut ed, 'j');
    }
    for _ in 0..6 {
        press(&mut ed, 'k');
    }
    for _ in 0..6 {
        press(&mut ed, 'j');
    }
    assert_eq!(ed.cursor, (0, 6));
    press(&mut ed, 'k');
    press(&mut ed, 'k');
    press(&mut ed, 'k');
    press(&mut ed, 'k');
    press(&mut ed, 'k');
    press(&mut ed, 'k');
    assert_eq!(ed.cursor, (8, 0));
    for _ in 0..6 {
        press(&mut ed, 'j');
    }
    assert_eq!(ed.cursor, (0, 6));
    assert_eq!(ed.scroll, (0, 0));
    ed.screen_dirty = false;
    ed.handle_input(InputEvent::Resize(5, 3));
    assert_eq!(ed.window_size, (5, 3));
    assert!(ed.screen_dirty);
    assert_eq!(ed.scroll, (0, 4));
    assert_eq!(ed.cursor, (0, 6));
}

#[test]
fn resize_to_a_narrow_window_scrolls_right() {
    let mut ed = started("0123456789", (20, 10));
    for _ in 0..8 {
        press(&mut ed, 'l');
    }
    ed.handle_input(InputEvent::Resize(3, 1));
    assert_eq!(ed.scroll, (6, 0));
    ed.handle_input(InputEvent::Resize(30, 10));
    assert_eq!(ed.scroll, (6, 0));
}

#[test]
fn resize_to_nothing_leaves_the_scroll_offset() {
    let mut ed = started("0123456789", (20, 10));
    for _ in 0..8 {
        press(&mut ed, 'l');
    }
    ed.handle_input(InputEvent::Resize(0, 0));
    assert_eq!(ed.window_size, (0, 0));
    assert_eq!(ed.scroll, (0, 0));
    assert!(ed.is_well_formed());
    press(&mut ed, 'l');
    assert_eq!(ed.cursor, (9, 0));
    assert_eq!(ed.scroll, (0, 0));
}

#[test]
fn one_frame_for_a_burst_of_keys() {
    let mut ed = started("ab\ncd", (80, 24));
    match ed.run(0) {
        Step::Wait(left) => assert_eq!(left, MAX_RENDER_DELAY),
        _ => panic!("the round has only begun"),
    }
    press(&mut ed, 'l');
    match ed.run(10_000_000) {
        Step::Wait(left) => assert_eq!(left, 40_000_000),
        _ => panic!("the round is not over"),
    }
    press(&mut ed, 'j');
    press(&mut ed, 'i');
    press(&mut ed, 'X');
    match ed.run(49_999_999) {
        Step::Wait(left) => assert_eq!(left, 1),
        _ => panic!("the round is not over"),
    }
    match ed.run(MAX_RENDER_DELAY) {
        Step::Render(info) => {
            assert_eq!(info.buf.content, "ab\ncXd");
            assert_eq!(info.cursor, (2, 1));
            assert_eq!(info.scroll, (0, 0));
            assert_eq!(info.window_size, (80, 24));
            assert_eq!(info.mode, Mode::Insert);
        },
        _ => panic!("the screen is out of date"),
    }
    assert!(!ed.screen_dirty);
    match ed.run(MAX_RENDER_DELAY) {
        Step::Idle => {},
        _ => panic!("nothing has changed"),
    }
    match ed.run(u64::MAX) {
        Step::Idle => {},
        _ => panic!("nothing has changed"),
    }
}

#[test]
fn the_first_round_draws_the_screen() {
    let mut ed = started("ab", (80, 24));
    match ed.run(MAX_RENDER_DELAY) {
        Step::Render(info) => {
            assert_eq!(info.buf.content, "ab");
            assert_eq!(info.mode, Mode::Normal);
        },
        _ => panic!("the screen was never drawn"),
    }
}

#[test]
fn a_stopped_editor_leaves_the_loop() {
    let mut ed = started("ab", (80, 24));
    key(&mut ed, Key::Esc);
    match ed.run(1) {
        Step::Wait(left) => assert_eq!(left, MAX_RENDER_DELAY - 1),
        _ => panic!("the round is not over"),
    }
    match ed.run(MAX_RENDER_DELAY + 5) {
        Step::Stop => {},
        _ => panic!("the editor was stopped"),
    }
}

#[test]
fn mark_dirty_sets_the_flag() {
    let mut ed = started("ab", (80, 24));
    ed.screen_dirty = false;
    ed.mark_dirty();
    assert!(ed.screen_dirty);
    assert_eq!(ed.cursor, (0, 0));
}

#[test]
fn the_moves_say_whether_the_cursor_moved() {
    let mut ed = started("ab\ncd", (80, 24));
    assert!(!ed.move_cursor_up());
    assert!(!ed.move_cursor_left());
    assert!(ed.move_cursor_right());
    assert!(!ed.move_cursor_right());
    assert!(ed.move_cursor_down());
    assert!(!ed.move_cursor_down());
    assert_eq!(ed.cursor, (1, 1));
    assert!(ed.move_cursor_up());
    assert!(ed.move_cursor_left());
    assert_eq!(ed.cursor, (0, 0));
}

#[test]
fn is_well_formed_checks_the_cursor() {
    let mut ed = started("ab\n\ncd", (80, 24));
    ed.cursor = (1, 0);
    assert!(ed.is_well_formed());
    ed.cursor = (2, 0);
    assert!(!ed.is_well_formed());
    ed.mode = Mode::Insert;
    assert!(ed.is_well_formed());
    ed.cursor = (3, 0);
    assert!(!ed.is_well_formed());
    ed.cursor = (0, 1);
    assert!(ed.is_well_formed());
    ed.mode = Mode::Normal;
    assert!(ed.is_well_formed());
    ed.cursor = (0, 3);
    assert!(!ed.is_well_formed());
    ed.cursor = (0, 0);
    ed.cur_buf = 1;
    assert!(!ed.is_well_formed());
}

#[test]
fn lines_that_end_in_cr_lf() {
    let mut ed = started("ab\r\ncd\r\n", (80, 24));
    press(&mut ed, 'l');
    press(&mut ed, 'l');
    assert_eq!(ed.cursor, (1, 0));
    press(&mut ed, 'a');
    assert_eq!(ed.cursor, (2, 0));
    press(&mut ed, 'X');
    assert_eq!(text(&ed), "abX\r\ncd\r\n");
    assert_eq!(ed.cursor, (3, 0));
    key(&mut ed, Key::Enter);
    assert_eq!(text(&ed), "abX\n\r\ncd\r\n");
    assert_eq!(ed.cursor, (0, 1));
    assert_eq!(ed.buffers[0].num_rows(), 3);
    assert_eq!(ed.buffers[0].row_len(1), 0);
}

#[test]
fn max_column_depends_on_the_mode() {
    assert_eq!(max_column(Mode::Normal, 0), 0);
    assert_eq!(max_column(Mode::Normal, 1), 0);
    assert_eq!(max_column(Mode::Normal, 5), 4);
    assert_eq!(max_column(Mode::Insert, 0), 0);
    assert_eq!(max_column(Mode::Insert, 1), 1);
    assert_eq!(max_column(Mode::Insert, 5), 5);
}
