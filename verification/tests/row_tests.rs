use byote::keys::{ctrl_key, decode_key, is_backspace_or_delete, EditorKey};
use byote::row::{
    editor_row_cx_to_rx, editor_row_rx_to_cx, editor_syntax_to_color, editor_update_row,
    editor_update_syntax, ERow, Highlight,
};
use byote::terminal::parse_cursor_position;
use byote::text::u64_to_dec;
use byote::unwrap_or_die;

fn mk_row(s: &str) -> ERow {
    let mut r = ERow { chars: s.as_bytes().to_vec(), render: Vec::new(), hl: Vec::new() };
    editor_update_row(&mut r);
    r
}

#[test]
fn tab_expansion_scenario() {
    // A tab after two characters pads with six spaces up to column 8.
    let r = mk_row("ab\tc");
    assert_eq!(r.render, b"ab      c".to_vec());
    assert_eq!(editor_row_cx_to_rx(&r, 3), 8);
}

#[test]
fn tab_expansion_relative_to_render_position() {
    // Two tabs in a row expand relative to rendered columns, not raw indices.
    let r = mk_row("\t\tx");
    assert_eq!(r.render, b"                x".to_vec());
    assert_eq!(editor_row_cx_to_rx(&r, 1), 8);
    assert_eq!(editor_row_cx_to_rx(&r, 2), 16);
}

#[test]
fn tab_one_short_of_stop_renders_one_space() {
    let r = mk_row("1234567\t");
    assert_eq!(r.render.len(), r.chars.len());
    assert_eq!(r.render, b"1234567 ".to_vec());
}

#[test]
fn render_no_tabs_is_identity() {
    let r = mk_row("hello, world");
    assert_eq!(r.render, r.chars);
    assert_eq!(r.render.len(), r.chars.len());
}

#[test]
fn render_with_tab_is_longer() {
    let r = mk_row("a\tb");
    assert!(r.render.len() > r.chars.len());
    assert_eq!(r.render, b"a       b".to_vec());
}

#[test]
fn rx_to_cx_round_trip() {
    let r = mk_row("ab\tcd");
    // Boundary rendered columns map back exactly.
    for (cx, rx) in [(0usize, 0usize), (1, 1), (2, 2), (3, 8), (4, 9), (5, 10)] {
        assert_eq!(editor_row_cx_to_rx(&r, cx), rx);
        assert_eq!(editor_row_rx_to_cx(&r, rx), cx);
    }
    // A target inside the tab's padding maps to the tab's character column.
    for rx in 3..8 {
        let cx = editor_row_rx_to_cx(&r, rx);
        assert_eq!(cx, 2);
        assert!(editor_row_cx_to_rx(&r, cx) <= rx);
    }
    // Past the end of the render the row length comes back.
    assert_eq!(editor_row_rx_to_cx(&r, 1000), 5);
}

#[test]
fn cx_to_rx_clamps_past_end() {
    let r = mk_row("ab");
    assert_eq!(editor_row_cx_to_rx(&r, 99), 2);
}

#[test]
fn syntax_tags_digits() {
    let mut r = mk_row("a1b22");
    editor_update_syntax(&mut r);
    assert_eq!(
        r.hl,
        vec![
            Highlight::Normal,
            Highlight::Number,
            Highlight::Normal,
            Highlight::Number,
            Highlight::Number
        ]
    );
    assert_eq!(r.hl.len(), r.render.len());
}

#[test]
fn highlight_matches_render_length_with_tabs() {
    let r = mk_row("1\t2");
    assert_eq!(r.hl.len(), r.render.len());
    assert_eq!(r.hl[0], Highlight::Number);
    assert_eq!(r.hl[1], Highlight::Normal);
    assert_eq!(r.hl[8], Highlight::Number);
}

#[test]
fn syntax_colors() {
    assert_eq!(editor_syntax_to_color(&Highlight::Number), 31);
    assert_eq!(editor_syntax_to_color(&Highlight::Match), 34);
    assert_eq!(editor_syntax_to_color(&Highlight::Normal), 37);
}

#[test]
fn ctrl_key_masks_low_bits() {
    assert_eq!(ctrl_key(b'q'), 17);
    assert_eq!(ctrl_key(b's'), 19);
    assert_eq!(ctrl_key(b'f'), 6);
    assert_eq!(ctrl_key(b'h'), 8);
}

#[test]
fn backspace_forms() {
    assert!(is_backspace_or_delete(&EditorKey::Delete));
    assert!(is_backspace_or_delete(&EditorKey::Char(127)));
    assert!(is_backspace_or_delete(&EditorKey::Char(8)));
    assert!(!is_backspace_or_delete(&EditorKey::Char(b'a')));
    assert!(!is_backspace_or_delete(&EditorKey::Escape));
}

#[test]
fn decode_key_escape_table() {
    let cases: [(&[u8], EditorKey); 13] = [
        (b"[A", EditorKey::ArrowUp),
        (b"[B", EditorKey::ArrowDown),
        (b"[C", EditorKey::ArrowRight),
        (b"[D", EditorKey::ArrowLeft),
        (b"[3~", EditorKey::Delete),
        (b"[5~", EditorKey::PageUp),
        (b"[6~", EditorKey::PageDown),
        (b"[1~", EditorKey::Home),
        (b"[7~", EditorKey::Home),
        (b"[H", EditorKey::Home),
        (b"OH", EditorKey::Home),
        (b"[4~", EditorKey::End),
        (b"OF", EditorKey::End),
    ];
    for (seq, want) in cases {
        assert_eq!(decode_key(27, &seq.to_vec()), want);
    }
    assert_eq!(decode_key(27, &b"[8~".to_vec()), EditorKey::End);
    assert_eq!(decode_key(27, &b"[F".to_vec()), EditorKey::End);
}

#[test]
fn decode_key_plain_bytes() {
    assert_eq!(decode_key(27, &Vec::new()), EditorKey::Escape);
    assert_eq!(decode_key(27, &b"[Z".to_vec()), EditorKey::Escape);
    assert_eq!(decode_key(13, &Vec::new()), EditorKey::Return);
    assert_eq!(decode_key(b'x', &Vec::new()), EditorKey::Char(b'x'));
    assert_eq!(decode_key(9, &Vec::new()), EditorKey::Char(9));
}

#[test]
fn decimal_rendering() {
    assert_eq!(u64_to_dec(0), b"0".to_vec());
    assert_eq!(u64_to_dec(7), b"7".to_vec());
    assert_eq!(u64_to_dec(12345), b"12345".to_vec());
    assert_eq!(u64_to_dec(u64::MAX), b"18446744073709551615".to_vec());
}

#[test]
fn cursor_report_parses() {
    assert_eq!(parse_cursor_position(&b"\x1b[24;80".to_vec()), Some((24, 80)));
    assert_eq!(parse_cursor_position(&b"\x1b[1;1".to_vec()), Some((1, 1)));
}

#[test]
fn cursor_report_rejects_malformed() {
    assert_eq!(parse_cursor_position(&b"".to_vec()), None);
    assert_eq!(parse_cursor_position(&b"24;80".to_vec()), None);
    assert_eq!(parse_cursor_position(&b"\x1b[2480".to_vec()), None);
    assert_eq!(parse_cursor_position(&b"\x1b[24;80;1".to_vec()), None);
    assert_eq!(parse_cursor_position(&b"\x1b[;80".to_vec()), None);
    assert_eq!(parse_cursor_position(&b"\x1b[24;".to_vec()), None);
    assert_eq!(parse_cursor_position(&b"\x1b[2a;80".to_vec()), None);
    assert_eq!(parse_cursor_position(&b"\x1b[99999999999999999999;80".to_vec()), None);
}

#[test]
fn unwrap_or_die_returns_ok() {
    let r: Result<u32, u32> = Ok(5);
    assert_eq!(unwrap_or_die(r), 5);
}
