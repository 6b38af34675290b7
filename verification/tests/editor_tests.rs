use byote::editor::{
    editor_del_char, editor_del_row, editor_insert_char, editor_insert_new_line, editor_insert_row,
    editor_move_cursor, editor_row_append_string, editor_row_del_char, editor_row_insert_char,
    editor_rows_to_string, editor_scroll, editor_set_status_message, init_editor, EditorConfig,
};
use byote::input::{
    editor_process_keypress, editor_prompt, editor_save_aborted, editor_save_finish, EditorAction,
    PromptCallback, PromptResult,
};
use byote::keys::EditorKey;
use byote::row::Highlight;
use byote::screen::{
    editor_draw_message_bar, editor_draw_rows, editor_draw_status_bar, editor_refresh_screen,
};
use byote::search::{editor_find, editor_find_begin, find_next_match, find_substring};

fn doc(lines: &[&str]) -> EditorConfig {
    let mut e = init_editor(26, 80);
    for (i, l) in lines.iter().enumerate() {
        editor_insert_row(&mut e, i, &l.as_bytes().to_vec());
    }
    e.dirty = false;
    e
}

fn chars_of(e: &EditorConfig, i: usize) -> Vec<u8> {
    e.rows[i].chars.clone()
}

#[test]
fn fresh_session_is_clean() {
    let e = init_editor(26, 80);
    assert_eq!(e.screenrows, 24);
    assert_eq!(e.screencols, 80);
    assert_eq!((e.cx, e.cy, e.rx), (0, 0, 0));
    assert_eq!((e.rowoff, e.coloff), (0, 0));
    assert!(!e.dirty);
    assert_eq!(e.quit_times, 3);
    assert!(e.filename.is_none());
    assert_eq!(e.find.last_match, -1);
    assert_eq!(e.find.direction, 1);
    assert!(e.find.saved_hl.is_none());
}

#[test]
fn insert_row_appends_and_marks_dirty() {
    let mut e = init_editor(26, 80);
    editor_insert_row(&mut e, 0, &b"hello".to_vec());
    assert!(e.dirty);
    assert_eq!(e.rows.len(), 1);
    assert_eq!(chars_of(&e, 0), b"hello".to_vec());
    assert_eq!(e.rows[0].render, b"hello".to_vec());
    // An index past the end is a no-op.
    editor_insert_row(&mut e, 5, &b"nope".to_vec());
    assert_eq!(e.rows.len(), 1);
}

#[test]
fn del_row_removes_and_clamps() {
    let mut e = doc(&["a", "b", "c"]);
    editor_del_row(&mut e, 1);
    assert_eq!(e.rows.len(), 2);
    assert_eq!(chars_of(&e, 1), b"c".to_vec());
    assert!(e.dirty);
    let before = e.rows.len();
    editor_del_row(&mut e, 9);
    assert_eq!(e.rows.len(), before);
}

#[test]
fn row_level_edits_rebuild_caches() {
    let mut e = doc(&["ac"]);
    e.cy = 0;
    editor_row_insert_char(&mut e, 1, b'b');
    assert_eq!(chars_of(&e, 0), b"abc".to_vec());
    editor_row_append_string(&mut e, 0, &b"\td".to_vec());
    assert_eq!(chars_of(&e, 0), b"abc\td".to_vec());
    assert_eq!(e.rows[0].render, b"abc     d".to_vec());
    assert_eq!(e.rows[0].hl.len(), e.rows[0].render.len());
    editor_row_del_char(&mut e, 0, 0);
    assert_eq!(chars_of(&e, 0), b"bc\td".to_vec());
    assert!(e.dirty);
}

#[test]
fn insert_char_sets_dirty_and_moves_cursor() {
    let mut e = init_editor(26, 80);
    assert!(!e.dirty);
    editor_insert_char(&mut e, b'x');
    assert!(e.dirty);
    assert_eq!(e.rows.len(), 1);
    assert_eq!(chars_of(&e, 0), b"x".to_vec());
    assert_eq!((e.cx, e.cy), (1, 0));
}

#[test]
fn newline_splits_row() {
    let mut e = doc(&["abcd"]);
    e.cy = 0;
    e.cx = 2;
    editor_insert_new_line(&mut e);
    assert_eq!(e.rows.len(), 2);
    assert_eq!(chars_of(&e, 0), b"ab".to_vec());
    assert_eq!(chars_of(&e, 1), b"cd".to_vec());
    assert_eq!((e.cx, e.cy), (0, 1));
}

#[test]
fn newline_at_column_zero_opens_row_above() {
    let mut e = doc(&["abcd"]);
    e.cy = 0;
    e.cx = 0;
    editor_insert_new_line(&mut e);
    assert_eq!(e.rows.len(), 2);
    assert_eq!(chars_of(&e, 0), b"".to_vec());
    assert_eq!(chars_of(&e, 1), b"abcd".to_vec());
    assert_eq!((e.cx, e.cy), (0, 1));
}

#[test]
fn del_char_inside_row() {
    let mut e = doc(&["abc"]);
    e.cy = 0;
    e.cx = 2;
    editor_del_char(&mut e);
    assert_eq!(chars_of(&e, 0), b"ac".to_vec());
    assert_eq!(e.cx, 1);
}

#[test]
fn del_char_at_column_zero_joins_rows() {
    let mut e = doc(&["ab", "cd"]);
    e.cy = 1;
    e.cx = 0;
    editor_del_char(&mut e);
    assert_eq!(e.rows.len(), 1);
    assert_eq!(chars_of(&e, 0), b"abcd".to_vec());
    assert_eq!((e.cx, e.cy), (2, 0));
}

#[test]
fn del_char_at_origin_is_noop() {
    let mut e = doc(&["ab"]);
    e.cy = 0;
    e.cx = 0;
    editor_del_char(&mut e);
    assert_eq!(e.rows.len(), 1);
    assert_eq!(chars_of(&e, 0), b"ab".to_vec());
}

#[test]
fn rows_to_string_joins_with_newlines() {
    let e = doc(&["ab", "", "cd"]);
    assert_eq!(editor_rows_to_string(&e), b"ab\n\ncd".to_vec());
    let empty = init_editor(26, 80);
    assert_eq!(editor_rows_to_string(&empty), Vec::<u8>::new());
    let one = doc(&["solo"]);
    assert_eq!(editor_rows_to_string(&one), b"solo".to_vec());
}

#[test]
fn move_cursor_clamps_on_arrival() {
    let mut e = doc(&["long line", "ab"]);
    e.cy = 0;
    e.cx = 9;
    editor_move_cursor(&EditorKey::ArrowDown, &mut e);
    assert_eq!((e.cx, e.cy), (2, 1));
}

#[test]
fn move_cursor_wraps_line_ends() {
    let mut e = doc(&["ab", "cd"]);
    e.cy = 0;
    e.cx = 2;
    editor_move_cursor(&EditorKey::ArrowRight, &mut e);
    assert_eq!((e.cx, e.cy), (0, 1));
    editor_move_cursor(&EditorKey::ArrowLeft, &mut e);
    assert_eq!((e.cx, e.cy), (2, 0));
}

#[test]
fn scroll_keeps_cursor_visible() {
    let lines: Vec<String> = (0..100).map(|i| format!("line {}", i)).collect();
    let refs: Vec<&str> = lines.iter().map(|s| s.as_str()).collect();
    let mut e = doc(&refs);
    e.cy = 50;
    e.cx = 0;
    editor_scroll(&mut e);
    assert!(e.rowoff <= e.cy && e.cy < e.rowoff + e.screenrows);
    assert_eq!(e.rowoff, 50 - e.screenrows + 1);
    e.cy = 3;
    editor_scroll(&mut e);
    assert_eq!(e.rowoff, 3);
    assert!(e.rowoff <= e.cy && e.cy < e.rowoff + e.screenrows);
}

#[test]
fn scroll_derives_rx_from_tabs() {
    let mut e = doc(&["ab\tc"]);
    e.cy = 0;
    e.cx = 3;
    editor_scroll(&mut e);
    assert_eq!(e.rx, 8);
}

#[test]
fn find_substring_first_occurrence() {
    assert_eq!(find_substring(&b"abcabc".to_vec(), &b"bc".to_vec()), Some(1));
    assert_eq!(find_substring(&b"abc".to_vec(), &b"zz".to_vec()), None);
    assert_eq!(find_substring(&b"abc".to_vec(), &b"".to_vec()), Some(0));
    assert_eq!(find_substring(&b"ab".to_vec(), &b"abc".to_vec()), None);
}

#[test]
fn search_wraps_around_both_ways() {
    let e = doc(&["foo", "bar", "baz"]);
    // Forward from the top.
    assert_eq!(find_next_match(&e.rows, &b"bar".to_vec(), -1, 1), Some((1, 0)));
    // Forward from past the match wraps around.
    assert_eq!(find_next_match(&e.rows, &b"bar".to_vec(), 2, 1), Some((1, 0)));
    // Backward from the top wraps to the end first.
    assert_eq!(find_next_match(&e.rows, &b"baz".to_vec(), 0, -1), Some((2, 0)));
    // Backward finds the unique row from anywhere.
    assert_eq!(find_next_match(&e.rows, &b"foo".to_vec(), 1, -1), Some((0, 0)));
    // Absent text is never found.
    assert_eq!(find_next_match(&e.rows, &b"nope".to_vec(), 1, -1), None);
}

#[test]
fn find_callback_moves_cursor_and_tags_match() {
    let mut e = doc(&["hay", "needle here", "hay"]);
    let saved = editor_find_begin(&e);
    let mut buf: Vec<u8> = Vec::new();
    for b in b"needle" {
        let r = editor_find(&mut e, &saved, &mut buf, &EditorKey::Char(*b), 0);
        assert_eq!(r, PromptResult::Pending);
    }
    assert_eq!(e.cy, 1);
    assert_eq!(e.cx, 0);
    assert_eq!(e.find.last_match, 1);
    assert_eq!(e.rows[1].hl[0], Highlight::Match);
    assert_eq!(e.rows[1].hl[5], Highlight::Match);
    assert_eq!(e.rows[1].hl[6], Highlight::Normal);
    // Submitting keeps the cursor on the match and restores the highlight.
    let r = editor_find(&mut e, &saved, &mut buf, &EditorKey::Return, 0);
    assert_eq!(r, PromptResult::Submitted);
    assert_eq!(e.cy, 1);
    assert_eq!(e.rows[1].hl[0], Highlight::Normal);
    assert_eq!(e.find.last_match, -1);
    assert!(e.find.saved_hl.is_none());
}

#[test]
fn find_cancel_restores_cursor_and_offsets() {
    let mut e = doc(&["aaa", "bbb", "ccc"]);
    e.cy = 2;
    e.cx = 1;
    e.rowoff = 1;
    let saved = editor_find_begin(&e);
    let mut buf: Vec<u8> = Vec::new();
    editor_find(&mut e, &saved, &mut buf, &EditorKey::Char(b'a'), 0);
    assert_eq!(e.cy, 0);
    let r = editor_find(&mut e, &saved, &mut buf, &EditorKey::Escape, 0);
    assert_eq!(r, PromptResult::Cancelled);
    assert_eq!((e.cx, e.cy, e.rowoff, e.coloff), (1, 2, 1, 0));
    assert_eq!(e.rows[0].hl[0], Highlight::Normal);
}

#[test]
fn find_arrows_step_between_matches() {
    let mut e = doc(&["one x", "two x", "three x"]);
    let saved = editor_find_begin(&e);
    let mut buf: Vec<u8> = Vec::new();
    editor_find(&mut e, &saved, &mut buf, &EditorKey::Char(b'x'), 0);
    assert_eq!(e.cy, 0);
    editor_find(&mut e, &saved, &mut buf, &EditorKey::ArrowDown, 0);
    assert_eq!(e.cy, 1);
    editor_find(&mut e, &saved, &mut buf, &EditorKey::ArrowDown, 0);
    assert_eq!(e.cy, 2);
    editor_find(&mut e, &saved, &mut buf, &EditorKey::ArrowDown, 0);
    assert_eq!(e.cy, 0);
    editor_find(&mut e, &saved, &mut buf, &EditorKey::ArrowUp, 0);
    assert_eq!(e.cy, 2);
}

#[test]
fn prompt_collects_and_erases_bytes() {
    let mut e = init_editor(26, 80);
    let prompt = b"Save as (ESC to cancel): ".to_vec();
    let mut buf: Vec<u8> = Vec::new();
    let r = editor_prompt(&mut e, &prompt, &mut buf, &EditorKey::Char(b'h'), PromptCallback::NoCallback, 7);
    assert_eq!(r, PromptResult::Pending);
    editor_prompt(&mut e, &prompt, &mut buf, &EditorKey::Char(b'i'), PromptCallback::NoCallback, 7);
    assert_eq!(buf, b"hi".to_vec());
    assert_eq!(e.statusmsg, b"Save as (ESC to cancel): hi".to_vec());
    editor_prompt(&mut e, &prompt, &mut buf, &EditorKey::Char(127), PromptCallback::NoCallback, 7);
    assert_eq!(buf, b"h".to_vec());
    // Control bytes are not collected.
    editor_prompt(&mut e, &prompt, &mut buf, &EditorKey::Char(1), PromptCallback::NoCallback, 7);
    assert_eq!(buf, b"h".to_vec());
    let r = editor_prompt(&mut e, &prompt, &mut buf, &EditorKey::Return, PromptCallback::NoCallback, 7);
    assert_eq!(r, PromptResult::Submitted);
    assert_eq!(buf, b"h".to_vec());
    assert_eq!(e.statusmsg, Vec::<u8>::new());
}

#[test]
fn prompt_escape_cancels() {
    let mut e = init_editor(26, 80);
    let prompt = b"p: ".to_vec();
    let mut buf: Vec<u8> = Vec::new();
    // Return on an empty line does not submit.
    let r = editor_prompt(&mut e, &prompt, &mut buf, &EditorKey::Return, PromptCallback::NoCallback, 0);
    assert_eq!(r, PromptResult::Pending);
    let r = editor_prompt(&mut e, &prompt, &mut buf, &EditorKey::Escape, PromptCallback::NoCallback, 0);
    assert_eq!(r, PromptResult::Cancelled);
    assert_eq!(e.statusmsg, Vec::<u8>::new());
}

#[test]
fn dirty_save_round_trip() {
    let mut e = init_editor(26, 80);
    editor_insert_char(&mut e, b'x');
    assert!(e.dirty);
    // A failed save leaves the buffer dirty and reports the error.
    editor_save_finish(&mut e, Err(b"permission denied".to_vec()), 1);
    assert!(e.dirty);
    assert_eq!(e.statusmsg, b"Can't save! I/O error: permission denied".to_vec());
    // A successful save clears it and reports the byte count.
    editor_save_finish(&mut e, Ok(1), 2);
    assert!(!e.dirty);
    assert_eq!(e.statusmsg, b"1 bytes written to disk".to_vec());
    assert_eq!(e.statusmsg_time, 2);
}

#[test]
fn save_aborted_keeps_dirty() {
    let mut e = init_editor(26, 80);
    editor_insert_char(&mut e, b'x');
    editor_save_aborted(&mut e, 3);
    assert!(e.dirty);
    assert_eq!(e.statusmsg, b"Save aborted!".to_vec());
}

#[test]
fn quit_requires_confirmation_when_dirty() {
    let mut e = init_editor(26, 80);
    editor_insert_char(&mut e, b'x');
    let quit = EditorKey::Char(17);
    // Three presses only warn and count down.
    let a = editor_process_keypress(&mut e, &quit, 0);
    assert_eq!(a, EditorAction::Continue);
    assert_eq!(e.quit_times, 2);
    assert_eq!(
        e.statusmsg,
        b"WARNING!!! File has unsaved changes. Press Ctrl-Q 3 more times to quit.".to_vec()
    );
    assert_eq!(editor_process_keypress(&mut e, &quit, 0), EditorAction::Continue);
    assert_eq!(e.quit_times, 1);
    assert_eq!(editor_process_keypress(&mut e, &quit, 0), EditorAction::Continue);
    assert_eq!(e.quit_times, 0);
    // With the counter exhausted the next press quits.
    assert_eq!(editor_process_keypress(&mut e, &quit, 0), EditorAction::Quit);
}

#[test]
fn intervening_key_resets_quit_counter() {
    let mut e = init_editor(26, 80);
    editor_insert_char(&mut e, b'x');
    let quit = EditorKey::Char(17);
    editor_process_keypress(&mut e, &quit, 0);
    editor_process_keypress(&mut e, &quit, 0);
    assert_eq!(e.quit_times, 1);
    editor_process_keypress(&mut e, &EditorKey::ArrowRight, 0);
    assert_eq!(e.quit_times, 3);
}

#[test]
fn clean_buffer_quits_at_once() {
    let mut e = init_editor(26, 80);
    assert_eq!(editor_process_keypress(&mut e, &EditorKey::Char(17), 0), EditorAction::Quit);
}

#[test]
fn keypress_dispatch() {
    let mut e = doc(&["abc", "def"]);
    assert_eq!(editor_process_keypress(&mut e, &EditorKey::Char(19), 0), EditorAction::Save);
    assert_eq!(editor_process_keypress(&mut e, &EditorKey::Char(6), 0), EditorAction::Find);
    assert_eq!(editor_process_keypress(&mut e, &EditorKey::End, 0), EditorAction::Continue);
    assert_eq!(e.cx, 3);
    assert_eq!(editor_process_keypress(&mut e, &EditorKey::Home, 0), EditorAction::Continue);
    assert_eq!(e.cx, 0);
    editor_process_keypress(&mut e, &EditorKey::Char(b'Z'), 0);
    assert_eq!(chars_of(&e, 0), b"Zabc".to_vec());
    editor_process_keypress(&mut e, &EditorKey::Char(127), 0);
    assert_eq!(chars_of(&e, 0), b"abc".to_vec());
    editor_process_keypress(&mut e, &EditorKey::Return, 0);
    assert_eq!(e.rows.len(), 3);
    // Ctrl-L and a raw escape byte do nothing.
    let before = chars_of(&e, 0);
    editor_process_keypress(&mut e, &EditorKey::Char(12), 0);
    editor_process_keypress(&mut e, &EditorKey::Char(27), 0);
    assert_eq!(chars_of(&e, 0), before);
}

#[test]
fn delete_key_removes_under_cursor() {
    let mut e = doc(&["abc"]);
    e.cy = 0;
    e.cx = 1;
    editor_process_keypress(&mut e, &EditorKey::Delete, 0);
    assert_eq!(chars_of(&e, 0), b"ac".to_vec());
    assert_eq!(e.cx, 1);
}

#[test]
fn page_keys_move_a_screenful() {
    let lines: Vec<String> = (0..100).map(|i| format!("{}", i)).collect();
    let refs: Vec<&str> = lines.iter().map(|s| s.as_str()).collect();
    let mut e = doc(&refs);
    e.cy = 30;
    editor_scroll(&mut e);
    let rowoff = e.rowoff;
    editor_process_keypress(&mut e, &EditorKey::PageDown, 0);
    assert_eq!(e.cy, rowoff + e.screenrows - 1 + e.screenrows);
    editor_process_keypress(&mut e, &EditorKey::PageUp, 0);
    assert_eq!(e.cy, if e.rowoff > e.screenrows { e.rowoff - e.screenrows } else { 0 });
}

#[test]
fn welcome_banner_scenario() {
    // An empty document on a 24-row text window shows the banner a third of
    // the way down, centred, and tildes everywhere else.
    let e = init_editor(26, 80);
    assert_eq!(e.screenrows, 24);
    let mut out: Vec<u8> = Vec::new();
    editor_draw_rows(&e, &mut out);
    let text = String::from_utf8(out).unwrap();
    let lines: Vec<&str> = text.split("\r\n").collect();
    assert_eq!(lines.len(), 25);
    let mut banner = String::from("~");
    for _ in 0..28 {
        banner.push(' ');
    }
    banner.push_str("BYOTE -- version 0.1.0");
    banner.push_str("\x1b[K");
    for (y, line) in lines.iter().take(24).enumerate() {
        if y == 8 {
            assert_eq!(*line, banner);
        } else {
            assert_eq!(*line, "~\x1b[K");
        }
    }
}

#[test]
fn draw_rows_shows_window_with_colors() {
    let mut e = doc(&["a1"]);
    e.screenrows = 1;
    let mut out: Vec<u8> = Vec::new();
    editor_draw_rows(&e, &mut out);
    assert_eq!(out, b"a\x1b[31m1\x1b[39m\x1b[K\r\n".to_vec());
}

#[test]
fn draw_rows_honours_column_offset() {
    let mut e = doc(&["abcdef"]);
    e.screenrows = 1;
    e.coloff = 2;
    let mut out: Vec<u8> = Vec::new();
    editor_draw_rows(&e, &mut out);
    assert_eq!(out, b"cdef\x1b[39m\x1b[K\r\n".to_vec());
}

#[test]
fn status_bar_contents() {
    let mut e = doc(&["x", "y"]);
    e.screencols = 30;
    e.cy = 1;
    let mut out: Vec<u8> = Vec::new();
    editor_draw_status_bar(&e, &mut out);
    let text = String::from_utf8(out).unwrap();
    assert_eq!(text, "\x1b[7m[No Name] - 2 lines        2/2\x1b[m\r\n");
    e.filename = Some(b"notes.txt".to_vec());
    e.dirty = true;
    e.screencols = 40;
    let mut out2: Vec<u8> = Vec::new();
    editor_draw_status_bar(&e, &mut out2);
    let text2 = String::from_utf8(out2).unwrap();
    assert!(text2.contains("notes.txt - 2 lines (modified)"));
    assert!(text2.ends_with("2/2\x1b[m\r\n"));
}

#[test]
fn status_bar_truncates_long_names() {
    let mut e = doc(&["x"]);
    e.screencols = 10;
    e.filename = Some(b"a-very-long-file-name-here.txt".to_vec());
    let mut out: Vec<u8> = Vec::new();
    editor_draw_status_bar(&e, &mut out);
    let text = String::from_utf8(out).unwrap();
    // Reverse video, ten cells, reset: the name is clipped to 20 bytes and
    // the line to the screen width; no room for the position indicator.
    assert_eq!(text, "\x1b[7ma-very-lon\x1b[m\r\n");
}

#[test]
fn message_bar_expires() {
    let mut e = init_editor(26, 80);
    editor_set_status_message(&mut e, b"hello".to_vec(), 1000);
    let mut out: Vec<u8> = Vec::new();
    editor_draw_message_bar(&e, &mut out, 2000);
    assert_eq!(out, b"\x1b[Khello".to_vec());
    let mut out2: Vec<u8> = Vec::new();
    editor_draw_message_bar(&e, &mut out2, 6000);
    assert_eq!(out2, b"\x1b[K".to_vec());
    let mut out3: Vec<u8> = Vec::new();
    editor_draw_message_bar(&e, &mut out3, 5999);
    assert_eq!(out3, b"\x1b[Khello".to_vec());
}

#[test]
fn message_bar_crops_to_width() {
    let mut e = init_editor(26, 80);
    e.screencols = 3;
    editor_set_status_message(&mut e, b"hello".to_vec(), 0);
    let mut out: Vec<u8> = Vec::new();
    editor_draw_message_bar(&e, &mut out, 0);
    assert_eq!(out, b"\x1b[Khel".to_vec());
}

#[test]
fn refresh_frame_parks_cursor() {
    let mut e = doc(&["ab\tc"]);
    e.cy = 0;
    e.cx = 3;
    let frame = editor_refresh_screen(&mut e, 0);
    let text = String::from_utf8(frame).unwrap();
    assert!(text.starts_with("\x1b[?25l\x1b[H"));
    assert!(text.ends_with("\x1b[1;9H\x1b[?25h"));
    assert_eq!(e.rx, 8);
}

#[test]
fn set_status_message_stamps_clock() {
    let mut e = init_editor(26, 80);
    editor_set_status_message(&mut e, b"hi".to_vec(), 42);
    assert_eq!(e.statusmsg, b"hi".to_vec());
    assert_eq!(e.statusmsg_time, 42);
}
