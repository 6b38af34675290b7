//! Frame composition: the visible rows with their colour runs, the status
//! bar, the message bar, and the cursor-positioning escape, all gathered
//! into one byte buffer per frame so a single write refreshes the screen.
use crate::editor::{editor_scroll, EditorConfig};
use crate::row::{syntax_color_spec, Highlight};
use crate::text::{dec_spec, lit_bytes, u64_to_dec};
use vstd::prelude::*;
use vstd::slice::slice_to_vec;
use vstd::string::StringSliceAdditionalSpecFns;

verus! {

/// The welcome banner shown on an empty document.
pub const BYOTE_WELCOME: &'static str = "BYOTE -- version 0.1.0";

/// How long a status message stays visible, in milliseconds.
pub const BYOTE_MSG_TIMEOUT_MS: u64 = 5000;

/// `n` spaces.
pub open spec fn spaces(n: int) -> Seq<u8> {
    Seq::new(n as nat, |i: int| 32u8)
}

/// The escape sequence selecting foreground colour `c`.
pub open spec fn color_esc(c: u8) -> Seq<u8> {
    "\x1b[".spec_bytes() + dec_spec(c as nat) + "m".spec_bytes()
}

/// One visible row slice rendered with its colour runs: a colour escape is
/// emitted only when the colour changes, `cur` being the colour in effect
/// (-1 for the terminal's default).
pub open spec fn colored_spec(s: Seq<u8>, hl: Seq<Highlight>, cur: int) -> Seq<u8>
    decreases s.len(),
{
    if s.len() == 0 {
        Seq::empty()
    } else {
        let c = s[0];
        let h = hl[0];
        if h == Highlight::Normal {
            (if cur != -1 {
                "\x1b[39m".spec_bytes()
            } else {
                Seq::empty()
            }) + seq![c] + colored_spec(s.drop_first(), hl.drop_first(), -1)
        } else {
            let col = syntax_color_spec(h) as int;
            (if cur != col {
                color_esc(syntax_color_spec(h))
            } else {
                Seq::empty()
            }) + seq![c] + colored_spec(s.drop_first(), hl.drop_first(), col)
        }
    }
}

/// The welcome banner line: the banner truncated to the screen width and
/// centred behind a tilde.
pub open spec fn welcome_spec(cols: int) -> Seq<u8> {
    let full = BYOTE_WELCOME.spec_bytes();
    let msg = if full.len() > cols {
        full.take(cols)
    } else {
        full
    };
    let padding = (cols - msg.len()) / 2;
    (if padding > 0 {
        "~".spec_bytes() + spaces(padding - 1)
    } else {
        Seq::empty()
    }) + msg
}

/// What one screen row `y` shows: a window onto the document row that scrolls
/// past it, the welcome banner at a third of an empty screen, or a tilde;
/// every row ends with erase-to-end-of-line and a line break.
pub open spec fn draw_row_line_spec(e: EditorConfig, y: int) -> Seq<u8> {
    let filerow = y + e.rowoff;
    let body = if filerow >= e.rows@.len() {
        if e.rows@.len() == 0 && y == e.screenrows as int / 3 {
            welcome_spec(e.screencols as int)
        } else {
            "~".spec_bytes()
        }
    } else {
        let render = e.rows@[filerow].render@;
        let hl = e.rows@[filerow].hl@;
        let from = if render.len() >= e.coloff {
            e.coloff as int
        } else {
            render.len() as int
        };
        let avail = render.len() - from;
        let len = if avail > e.screencols {
            e.screencols as int
        } else {
            avail
        };
        colored_spec(render.subrange(from, from + len), hl.subrange(from, from + len), -1)
            + "\x1b[39m".spec_bytes()
    };
    body + "\x1b[K\r\n".spec_bytes()
}

/// The text rows of a frame, from screen row `y` down.
pub open spec fn draw_rows_spec(e: EditorConfig, y: int) -> Seq<u8>
    decreases e.screenrows - y,
{
    if y < 0 || y >= e.screenrows {
        Seq::empty()
    } else {
        draw_row_line_spec(e, y) + draw_rows_spec(e, y + 1)
    }
}

/// Appends one visible row slice with its colour runs.
fn draw_colored(row_render: &Vec<u8>, row_hl: &Vec<Highlight>, from: usize, to: usize, buffer: &mut Vec<u8>)
    requires
        from <= to <= row_render@.len(),
        row_hl@.len() == row_render@.len(),
    ensures
        final(buffer)@ == old(buffer)@ + colored_spec(
            row_render@.subrange(from as int, to as int),
            row_hl@.subrange(from as int, to as int),
            -1,
        ),
{
    let ghost s_all = row_render@.subrange(from as int, to as int);
    let ghost hl_all = row_hl@.subrange(from as int, to as int);
    let mut current_color: i16 = -1;
    let mut i = from;
    while i < to
        invariant
            from <= i <= to <= row_render@.len(),
            row_hl@.len() == row_render@.len(),
            s_all == row_render@.subrange(from as int, to as int),
            hl_all == row_hl@.subrange(from as int, to as int),
            -1 <= current_color <= 255,
            old(buffer)@ + colored_spec(s_all, hl_all, -1) == buffer@ + colored_spec(
                row_render@.subrange(i as int, to as int),
                row_hl@.subrange(i as int, to as int),
                current_color as int,
            ),
        decreases to - i,
    {
        let ghost rest_s = row_render@.subrange(i as int, to as int);
        let ghost rest_hl = row_hl@.subrange(i as int, to as int);
        proof {
            assert(rest_s[0] == row_render@[i as int]);
            assert(rest_hl[0] == row_hl@[i as int]);
            assert(rest_s.drop_first() =~= row_render@.subrange(i + 1, to as int));
            assert(rest_hl.drop_first() =~= row_hl@.subrange(i + 1, to as int));
        }
        let c = row_render[i];
        let h = row_hl[i];
        match h {
            Highlight::Normal => {
                if current_color != -1 {
                    let mut esc = lit_bytes("\x1b[39m");
                    buffer.append(&mut esc);
                    current_color = -1;
                }
                buffer.push(c);
            },
            _ => {
                let color = crate::row::editor_syntax_to_color(&h);
                if current_color != color as i16 {
                    current_color = color as i16;
                    let mut esc = lit_bytes("\x1b[");
                    let mut digits = u64_to_dec(color as u64);
                    let mut m = lit_bytes("m");
                    buffer.append(&mut esc);
                    buffer.append(&mut digits);
                    buffer.append(&mut m);
                }
                buffer.push(c);
            },
        }
        i = i + 1;
    }
    proof {
        assert(row_render@.subrange(to as int, to as int) =~= Seq::<u8>::empty());
        assert(row_hl@.subrange(to as int, to as int) =~= Seq::<Highlight>::empty());
        assert(buffer@ =~= old(buffer)@ + colored_spec(s_all, hl_all, -1));
    }
}

/// Composes the text rows of the frame: each visible document row through
/// its highlight colours, tildes past the end of the document, and on an
/// empty document a centred welcome banner a third of the way down.
#[verifier::rlimit(100)]
pub fn editor_draw_rows(e: &EditorConfig, buffer: &mut Vec<u8>)
    requires
        e.wf(),
    ensures
        final(buffer)@ == old(buffer)@ + draw_rows_spec(*e, 0),
{
    let mut y: usize = 0;
    while y < e.screenrows
        invariant
            e.wf(),
            y <= e.screenrows,
            old(buffer)@ + draw_rows_spec(*e, 0) == buffer@ + draw_rows_spec(*e, y as int),
        decreases e.screenrows - y,
    {
        let ghost buf_y = buffer@;
        if y > usize::MAX - e.rowoff || y + e.rowoff >= e.rows.len() {
            proof {
                vstd::std_specs::vec::axiom_spec_len(&e.rows);
                assert(y + e.rowoff >= e.rows@.len());
            }
            if e.rows.len() == 0 && y == e.screenrows / 3 {
                let mut msg = lit_bytes(BYOTE_WELCOME);
                msg.truncate(e.screencols);
                proof {
                    if BYOTE_WELCOME.spec_bytes().len() > e.screencols {
                        assert(msg@ =~= BYOTE_WELCOME.spec_bytes().take(e.screencols as int));
                    }
                }
                let mut padding = (e.screencols - msg.len()) / 2;
                let ghost pad0 = padding as int;
                let ghost buf_before = buffer@;
                if padding > 0 {
                    let mut tilde = lit_bytes("~");
                    buffer.append(&mut tilde);
                    padding = padding - 1;
                    let ghost pad1 = padding as int;
                    let mut k: usize = 0;
                    while k < padding
                        invariant
                            k <= pad1,
                            buffer@ == buf_before + "~".spec_bytes() + spaces(k as int),
                            padding == pad1,
                        decreases pad1 - k,
                    {
                        buffer.push(32);
                        proof {
                            assert(buffer@ =~= buf_before + "~".spec_bytes() + spaces(k + 1));
                        }
                        k = k + 1;
                    }
                }
                let ghost msg_view = msg@;
                let mut msg_m = msg;
                buffer.append(&mut msg_m);
                proof {
                    if pad0 > 0 {
                        assert(buffer@ =~= buf_before + ("~".spec_bytes() + spaces(pad0 - 1))
                            + msg_view);
                        assert(buffer@ =~= buf_before + welcome_spec(e.screencols as int));
                    } else {
                        assert(buffer@ =~= buf_before + welcome_spec(e.screencols as int));
                    }
                }
            } else {
                let mut tilde = lit_bytes("~");
                buffer.append(&mut tilde);
            }
        } else {
            let filerow = y + e.rowoff;
            let row_len = e.rows[filerow].render.len();
            let avail = if row_len >= e.coloff {
                row_len - e.coloff
            } else {
                0
            };
            let len = if avail > e.screencols {
                e.screencols
            } else {
                avail
            };
            let from = if row_len >= e.coloff {
                e.coloff
            } else {
                row_len
            };
            proof {
                assert(e.rows@[filerow as int].wf());
                assert(from + len <= row_len);
            }
            let row = &e.rows[filerow];
            draw_colored(&row.render, &row.hl, from, from + len, buffer);
            let mut reset = lit_bytes("\x1b[39m");
            buffer.append(&mut reset);
        }
        let mut eol = lit_bytes("\x1b[K\r\n");
        buffer.append(&mut eol);
        proof {
            assert(draw_rows_spec(*e, y as int) == draw_row_line_spec(*e, y as int)
                + draw_rows_spec(*e, y + 1));
            assert(buffer@ =~= buf_y + draw_row_line_spec(*e, y as int));
            assert(old(buffer)@ + draw_rows_spec(*e, 0) =~= buffer@ + draw_rows_spec(
                *e,
                y + 1,
            ));
        }
        y = y + 1;
    }
    proof {
        assert(draw_rows_spec(*e, e.screenrows as int) =~= Seq::<u8>::empty());
        assert(final(buffer)@ =~= old(buffer)@ + draw_rows_spec(*e, 0));
    }
}


/// The status text before truncation: the filename (its first 20 bytes, or
/// a placeholder), the line count, and a dirty marker.
pub open spec fn status_full(e: EditorConfig) -> Seq<u8> {
    let name = match e.filename {
        Some(f) => if f@.len() > 20 {
            f@.take(20)
        } else {
            f@
        },
        None => "[No Name]".spec_bytes(),
    };
    name + " - ".spec_bytes() + dec_spec(e.rows@.len()) + " lines ".spec_bytes() + (if e.dirty {
        "(modified)".spec_bytes()
    } else {
        Seq::empty()
    })
}

/// The status-bar line: the filename (its first 20 bytes, or a placeholder),
/// the line count and a dirty marker, all in reverse video, with the cursor
/// position right-justified when it fits. Text that does not fit the width
/// is truncated, and the position indicator is dropped when there is no room
/// for it.
pub open spec fn status_bar_spec(e: EditorConfig) -> Seq<u8> {
    let status = status_full(e);
    let rstatus = dec_spec((e.cy + 1) as nat) + "/".spec_bytes() + dec_spec(e.rows@.len());
    let shown = if status.len() > e.screencols {
        status.take(e.screencols as int)
    } else {
        status
    };
    let line = if shown.len() + rstatus.len() <= e.screencols {
        shown + spaces(e.screencols - shown.len() - rstatus.len()) + rstatus
    } else {
        shown + spaces(e.screencols - shown.len())
    };
    "\x1b[7m".spec_bytes() + line + "\x1b[m\r\n".spec_bytes()
}

/// A status message is shown until it is five seconds old.
pub open spec fn msg_visible_spec(time: u64, now: u64) -> bool {
    now < time || now - time < BYOTE_MSG_TIMEOUT_MS
}

/// The message-bar line: erase the line, then the status message if one is
/// set and fresh, cropped to the screen width.
pub open spec fn message_bar_spec(e: EditorConfig, now: u64) -> Seq<u8> {
    "\x1b[K".spec_bytes() + if e.statusmsg@.len() > 0 && msg_visible_spec(e.statusmsg_time, now) {
        if e.statusmsg@.len() > e.screencols {
            e.statusmsg@.take(e.screencols as int)
        } else {
            e.statusmsg@
        }
    } else {
        Seq::empty()
    }
}

/// Appends `n` spaces.
fn push_spaces(buffer: &mut Vec<u8>, n: usize)
    ensures
        final(buffer)@ == old(buffer)@ + spaces(n as int),
{
    let mut k: usize = 0;
    while k < n
        invariant
            k <= n,
            buffer@ == old(buffer)@ + spaces(k as int),
        decreases n - k,
    {
        buffer.push(32);
        proof {
            assert(buffer@ =~= old(buffer)@ + spaces(k + 1));
        }
        k = k + 1;
    }
}

/// Composes the status bar: filename (or a placeholder), line count, dirty
/// marker, and the right-justified cursor position when it fits.
#[verifier::rlimit(100)]
pub fn editor_draw_status_bar(e: &EditorConfig, buffer: &mut Vec<u8>)
    requires
        e.cy < usize::MAX,
    ensures
        final(buffer)@ == old(buffer)@ + status_bar_spec(*e),
{
    let mut rev = lit_bytes("\x1b[7m");
    buffer.append(&mut rev);
    let ghost buf0 = buffer@;

    let mut status: Vec<u8> = match &e.filename {
        Some(f) => {
            let mut name = slice_to_vec(f.as_slice());
            name.truncate(20);
            proof {
                if f@.len() > 20 {
                    assert(name@ =~= f@.take(20));
                }
            }
            name
        },
        None => lit_bytes("[No Name]"),
    };
    let mut sep = lit_bytes(" - ");
    status.append(&mut sep);
    proof {
        vstd::std_specs::vec::axiom_spec_len(&e.rows);
    }
    let mut count = u64_to_dec(e.rows.len() as u64);
    status.append(&mut count);
    let mut lines = lit_bytes(" lines ");
    status.append(&mut lines);
    if e.dirty {
        let mut modified = lit_bytes("(modified)");
        status.append(&mut modified);
    }
    let mut rstatus = u64_to_dec((e.cy + 1) as u64);
    let mut slash = lit_bytes("/");
    rstatus.append(&mut slash);
    let mut count2 = u64_to_dec(e.rows.len() as u64);
    rstatus.append(&mut count2);

    status.truncate(e.screencols);
    proof {
        let st = status_full(*e);
        if st.len() > e.screencols {
            assert(status@ =~= st.take(e.screencols as int));
        }
    }
    let shown_len = status.len();
    let r_len = rstatus.len();
    buffer.append(&mut status);
    if shown_len <= e.screencols && e.screencols - shown_len >= r_len {
        push_spaces(buffer, e.screencols - shown_len - r_len);
        buffer.append(&mut rstatus);
    } else {
        push_spaces(buffer, e.screencols - shown_len);
    }
    let mut tail = lit_bytes("\x1b[m\r\n");
    buffer.append(&mut tail);
    proof {
        let st = status_full(*e);
        let shown = if st.len() > e.screencols as int {
            st.take(e.screencols as int)
        } else {
            st
        };
        let rst = dec_spec((e.cy + 1) as nat) + "/".spec_bytes() + dec_spec(e.rows@.len());
        if shown.len() + rst.len() <= e.screencols {
            assert(buffer@ =~= buf0 + (shown + spaces(
                e.screencols - shown.len() - rst.len(),
            ) + rst) + "\x1b[m\r\n".spec_bytes());
        } else {
            assert(buffer@ =~= buf0 + (shown + spaces(e.screencols - shown.len()))
                + "\x1b[m\r\n".spec_bytes());
        }
        assert(buffer@ =~= old(buffer)@ + status_bar_spec(*e));
    }
}


/// Composes the message bar: erases the line and shows the status message
/// while it is fresh, cropped to the screen width.
pub fn editor_draw_message_bar(e: &EditorConfig, buffer: &mut Vec<u8>, now: u64)
    ensures
        final(buffer)@ == old(buffer)@ + message_bar_spec(*e, now),
{
    let mut erase = lit_bytes("\x1b[K");
    buffer.append(&mut erase);
    if e.statusmsg.len() > 0 && (now < e.statusmsg_time || now - e.statusmsg_time
        < BYOTE_MSG_TIMEOUT_MS) {
        let mut cropped = slice_to_vec(e.statusmsg.as_slice());
        cropped.truncate(e.screencols);
        proof {
            if e.statusmsg@.len() > e.screencols {
                assert(cropped@ =~= e.statusmsg@.take(e.screencols as int));
            }
        }
        buffer.append(&mut cropped);
    }
}


/// The escape that parks the terminal cursor on the editor cursor, in
/// 1-based window coordinates.
pub open spec fn cursor_esc_spec(e: EditorConfig) -> Seq<u8> {
    "\x1b[".spec_bytes() + dec_spec((e.cy - e.rowoff + 1) as nat) + ";".spec_bytes() + dec_spec(
        (e.rx - e.coloff + 1) as nat,
    ) + "H".spec_bytes()
}

/// One whole frame: hide the cursor, home, the text rows, the status and
/// message bars, park the cursor, show it again.
pub open spec fn frame_spec(e: EditorConfig, now: u64) -> Seq<u8> {
    "\x1b[?25l".spec_bytes() + "\x1b[H".spec_bytes() + draw_rows_spec(e, 0) + status_bar_spec(e)
        + message_bar_spec(e, now) + cursor_esc_spec(e) + "\x1b[?25h".spec_bytes()
}

/// Recomputes the viewport around the cursor and composes one frame for the
/// caller to write to the terminal in a single flush.
pub fn editor_refresh_screen(e: &mut EditorConfig, now: u64) -> (frame: Vec<u8>)
    requires
        old(e).wf(),
        old(e).rows@.len() < usize::MAX,
    ensures
        final(e).wf(),
        final(e).rx as int == if old(e).cy < old(e).rows@.len() {
            crate::row::rx_spec(old(e).rows@[old(e).cy as int].chars@, old(e).cx as int)
        } else {
            0
        },
        final(e).rowoff as int == crate::editor::scroll_offset_spec(
            old(e).cy as int,
            old(e).rowoff as int,
            old(e).screenrows as int,
        ),
        final(e).coloff as int == crate::editor::scroll_offset_spec(
            final(e).rx as int,
            old(e).coloff as int,
            old(e).screencols as int,
        ),
        final(e).rowoff <= final(e).cy < final(e).rowoff + final(e).screenrows,
        final(e).coloff <= final(e).rx < final(e).coloff + final(e).screencols,
        final(e).rows == old(e).rows,
        final(e).dirty == old(e).dirty,
        final(e).cx == old(e).cx,
        final(e).cy == old(e).cy,
        final(e).statusmsg == old(e).statusmsg,
        final(e).statusmsg_time == old(e).statusmsg_time,
        final(e).filename == old(e).filename,
        final(e).quit_times == old(e).quit_times,
        final(e).find == old(e).find,
        crate::editor::same_screen(*old(e), *final(e)),
        frame@ == frame_spec(*final(e), now),
{
    editor_scroll(e);
    let mut frame = lit_bytes("\x1b[?25l");
    let mut home = lit_bytes("\x1b[H");
    frame.append(&mut home);
    editor_draw_rows(e, &mut frame);
    editor_draw_status_bar(e, &mut frame);
    editor_draw_message_bar(e, &mut frame, now);
    let mut esc = lit_bytes("\x1b[");
    frame.append(&mut esc);
    let row_pos = e.cy - e.rowoff + 1;
    let mut row_digits = u64_to_dec(row_pos as u64);
    frame.append(&mut row_digits);
    let mut semi = lit_bytes(";");
    frame.append(&mut semi);
    let col_pos = e.rx - e.coloff + 1;
    let mut col_digits = u64_to_dec(col_pos as u64);
    frame.append(&mut col_digits);
    let mut park = lit_bytes("H");
    frame.append(&mut park);
    let mut show = lit_bytes("\x1b[?25h");
    frame.append(&mut show);
    proof {
        assert(frame@ =~= frame_spec(*e, now));
    }
    frame
}

} // verus!
