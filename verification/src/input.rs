//! Keypress dispatch: the prompt-line state machine, the top-level key
//! handler with its quit-confirmation protocol, and the application of a
//! save attempt's outcome.
use crate::editor::{
    del_char_post, editor_del_char, editor_insert_char, editor_insert_new_line, editor_move_cursor,
    editor_set_status_message, insert_char_post, insert_new_line_post, move_cursor_post,
    move_cursor_spec, rows_clean, same_screen, EditorConfig, BYOTE_QUIT_TIMES,
};
use crate::keys::{is_backspace_or_delete, is_backspace_or_delete_spec, EditorKey};
use crate::search::{editor_find_callback, find_step_post, find_wf, is_end_key, mid_hl};
use crate::text::{dec_spec, lit_bytes, u64_to_dec};
use vstd::prelude::*;
use vstd::slice::slice_to_vec;
use vstd::string::StringSliceAdditionalSpecFns;

verus! {

/// How one prompt key ends: the session goes on, was cancelled with Escape,
/// or was submitted with Return on a non-empty line.
#[derive(PartialEq, Eq, Structural, Clone, Copy, Debug)]
pub enum PromptResult {
    Pending,
    Cancelled,
    Submitted,
}

/// Which callback a prompt session drives after every key.
#[derive(PartialEq, Eq, Structural, Clone, Copy, Debug)]
pub enum PromptCallback {
    NoCallback,
    FindCallback,
}

/// A byte the prompt line accepts: printable ASCII.
pub open spec fn prompt_printable(k: EditorKey) -> bool {
    match k {
        EditorKey::Char(c) => !(c < 32 || c == 127) && c < 128,
        _ => false,
    }
}

/// The prompt line after one key: backspace forms erase the last byte,
/// printable ASCII is appended, everything else leaves it alone.
pub open spec fn prompt_buf_spec(key: EditorKey, buf: Seq<u8>) -> Seq<u8> {
    if is_backspace_or_delete_spec(key) && buf.len() > 0 {
        buf.drop_last()
    } else if prompt_printable(key) {
        buf.push(key->Char_0)
    } else {
        buf
    }
}

/// How one prompt key ends the session: Escape cancels, Return on a
/// non-empty line submits, anything else keeps it going.
pub open spec fn prompt_result_spec(key: EditorKey, buf: Seq<u8>) -> PromptResult {
    if key == EditorKey::Escape {
        PromptResult::Cancelled
    } else if key == EditorKey::Return && buf.len() > 0 {
        PromptResult::Submitted
    } else {
        PromptResult::Pending
    }
}

/// Feeds one key to a prompt session: edits the prompt line, runs the
/// session's callback with the line and the key, and shows the prompt plus
/// the live line in the message bar (cleared when the session ends).
pub fn editor_prompt(
    e: &mut EditorConfig,
    prompt: &Vec<u8>,
    buf: &mut Vec<u8>,
    key: &EditorKey,
    callback: PromptCallback,
    now: u64,
) -> (r: PromptResult)
    requires
        old(e).wf(),
        callback == PromptCallback::FindCallback ==> find_wf(*old(e)) && old(e).rows@.len()
            <= isize::MAX,
    ensures
        final(e).wf(),
        final(buf)@ == prompt_buf_spec(*key, old(buf)@),
        r == prompt_result_spec(*key, old(buf)@),
        final(e).statusmsg_time == now,
        r == PromptResult::Pending ==> final(e).statusmsg@ == prompt@ + final(buf)@,
        r != PromptResult::Pending ==> final(e).statusmsg@.len() == 0,
        final(e).dirty == old(e).dirty,
        final(e).filename == old(e).filename,
        final(e).quit_times == old(e).quit_times,
        final(e).rx == old(e).rx,
        final(e).coloff == old(e).coloff,
        same_screen(*old(e), *final(e)),
        callback == PromptCallback::NoCallback ==> final(e).rows == old(e).rows && final(e).cx
            == old(e).cx && final(e).cy == old(e).cy && final(e).rowoff == old(e).rowoff
            && final(e).find == old(e).find,
        callback == PromptCallback::FindCallback ==> {
            &&& find_wf(*final(e))
            &&& final(e).rows@.len() == old(e).rows@.len()
            &&& (forall|j: int|
                #![trigger final(e).rows@[j]]
                0 <= j < old(e).rows@.len() ==> final(e).rows@[j].chars == old(e).rows@[j].chars
                    && final(e).rows@[j].render == old(e).rows@[j].render)
            &&& (is_end_key(*key) ==> (forall|j: int|
                #![trigger final(e).rows@[j]]
                0 <= j < old(e).rows@.len() ==> final(e).rows@[j].hl@ == mid_hl(*old(e), j))
                && final(e).find.last_match == -1 && final(e).find.direction == 1
                && final(e).find.saved_hl is None && final(e).cx == old(e).cx && final(e).cy == old(
                e,
            ).cy && final(e).rowoff == old(e).rowoff)
            &&& (!is_end_key(*key) ==> find_step_post(*old(e), final(buf)@, *key, *final(e)))
        },
{
    if is_backspace_or_delete(key) && buf.len() > 0 {
        buf.pop();
        proof {
            assert(buf@ =~= prompt_buf_spec(*key, old(buf)@));
        }
    } else if *key == EditorKey::Escape {
        editor_set_status_message(e, Vec::new(), now);
        match callback {
            PromptCallback::NoCallback => {},
            PromptCallback::FindCallback => editor_find_callback(e, buf, key),
        }
        return PromptResult::Cancelled;
    } else if *key == EditorKey::Return {
        if buf.len() > 0 {
            editor_set_status_message(e, Vec::new(), now);
            match callback {
                PromptCallback::NoCallback => {},
                PromptCallback::FindCallback => editor_find_callback(e, buf, key),
            }
            return PromptResult::Submitted;
        }
    } else {
        match *key {
            EditorKey::Char(c) => {
                if !(c < 32 || c == 127) && c < 128 {
                    buf.push(c);
                }
            },
            _ => {},
        }
    }
    match callback {
        PromptCallback::NoCallback => {},
        PromptCallback::FindCallback => editor_find_callback(e, buf, key),
    }
    let mut msg = slice_to_vec(prompt.as_slice());
    let mut tail = slice_to_vec(buf.as_slice());
    msg.append(&mut tail);
    editor_set_status_message(e, msg, now);
    PromptResult::Pending
}

/// What the caller must do next after one keypress: keep going, exit the
/// process, save the document, or open a search session.
#[derive(PartialEq, Eq, Structural, Clone, Copy, Debug)]
pub enum EditorAction {
    Continue,
    Quit,
    Save,
    Find,
}

/// The warning shown when quit is pressed on an unsaved buffer; `qt` presses
/// remain.
pub open spec fn quit_warning_spec(qt: u8) -> Seq<u8> {
    "WARNING!!! File has unsaved changes. Press Ctrl-Q ".spec_bytes() + dec_spec(qt as nat)
        + " more times to quit.".spec_bytes()
}

/// The same session with the quit counter replaced.
pub open spec fn with_qt(e: EditorConfig, qt: u8) -> EditorConfig {
    EditorConfig { quit_times: qt, ..e }
}

/// Where the cursor sits after `n` presses of one movement key.
pub open spec fn move_iter_spec(key: EditorKey, e: EditorConfig, n: nat) -> (int, int)
    decreases n,
{
    if n == 0 {
        (e.cx as int, e.cy as int)
    } else {
        let prev = move_iter_spec(key, e, (n - 1) as nat);
        move_cursor_spec(key, EditorConfig { cx: prev.0 as usize, cy: prev.1 as usize, ..e })
    }
}

/// The row a PageUp/PageDown jump puts the cursor on before the page of
/// movement steps: the top of the window, or one short of its bottom
/// (clamped to the document length).
pub open spec fn page_target_spec(key: EditorKey, e: EditorConfig) -> int {
    if key == EditorKey::PageUp {
        if e.rowoff <= e.rows@.len() {
            e.rowoff as int
        } else {
            e.rows@.len() as int
        }
    } else {
        let cand = e.rowoff + e.screenrows - 1;
        if cand > e.rows@.len() {
            e.rows@.len() as int
        } else {
            cand
        }
    }
}

/// Handles one decoded keypress: Return opens a line; Ctrl-Q asks the caller
/// to quit, but on an unsaved buffer it first demands `BYOTE_QUIT_TIMES`
/// consecutive presses, warning and counting down; Ctrl-S and Ctrl-F ask the
/// caller to save or search; arrows, Home, End, PageUp and PageDown move the
/// cursor; backspace forms delete; Ctrl-L and a raw escape byte are ignored;
/// any other byte is inserted. Every key but an unconfirmed quit refills the
/// quit counter.
pub fn editor_process_keypress(e: &mut EditorConfig, key: &EditorKey, now: u64) -> (a:
    EditorAction)
    requires
        old(e).wf(),
    ensures
        final(e).wf(),
        final(e).find == old(e).find,
        rows_clean(*old(e)) ==> rows_clean(*final(e)),
        ({
            let pre = *old(e);
            match *key {
                EditorKey::Return => a == EditorAction::Continue && final(e).quit_times
                    == BYOTE_QUIT_TIMES && insert_new_line_post(
                    pre,
                    with_qt(*final(e), pre.quit_times),
                ),
                EditorKey::ArrowLeft | EditorKey::ArrowRight | EditorKey::ArrowUp
                    | EditorKey::ArrowDown => a == EditorAction::Continue && final(e).quit_times
                    == BYOTE_QUIT_TIMES && move_cursor_post(
                    *key,
                    pre,
                    with_qt(*final(e), pre.quit_times),
                ),
                EditorKey::Home => a == EditorAction::Continue && *final(e) == EditorConfig {
                    cx: 0,
                    quit_times: BYOTE_QUIT_TIMES,
                    ..pre
                },
                EditorKey::End => a == EditorAction::Continue && (pre.cy < pre.rows@.len()
                    ==> *final(e) == EditorConfig {
                    cx: pre.rows@[pre.cy as int].chars@.len() as usize,
                    quit_times: BYOTE_QUIT_TIMES,
                    ..pre
                }) && (pre.cy == pre.rows@.len() ==> *final(e) == with_qt(pre, BYOTE_QUIT_TIMES)),
                EditorKey::Delete => a == EditorAction::Continue && final(e).quit_times
                    == BYOTE_QUIT_TIMES && del_char_post(
                    ({
                        let moved = move_cursor_spec(EditorKey::ArrowRight, pre);
                        EditorConfig { cx: moved.0 as usize, cy: moved.1 as usize, ..pre }
                    }),
                    with_qt(*final(e), pre.quit_times),
                ),
                EditorKey::PageUp | EditorKey::PageDown => a == EditorAction::Continue && ({
                    let arrow = if *key == EditorKey::PageUp {
                        EditorKey::ArrowUp
                    } else {
                        EditorKey::ArrowDown
                    };
                    let start = EditorConfig {
                        cy: page_target_spec(*key, pre) as usize,
                        ..pre
                    };
                    let end = move_iter_spec(arrow, start, pre.screenrows as nat);
                    *final(e) == EditorConfig {
                        cx: end.0 as usize,
                        cy: end.1 as usize,
                        quit_times: BYOTE_QUIT_TIMES,
                        ..pre
                    }
                }),
                EditorKey::Escape => a == EditorAction::Continue && *final(e) == with_qt(
                    pre,
                    BYOTE_QUIT_TIMES,
                ),
                EditorKey::Char(c) => {
                    if c == 17 {
                        // Ctrl-Q
                        if pre.dirty && pre.quit_times > 0 {
                            &&& a == EditorAction::Continue
                            &&& final(e).statusmsg@ == quit_warning_spec(pre.quit_times)
                            &&& final(e).statusmsg_time == now
                            &&& final(e).quit_times == pre.quit_times - 1
                            &&& final(e).rows == pre.rows
                            &&& final(e).cx == pre.cx && final(e).cy == pre.cy && final(e).rx
                                == pre.rx
                            &&& final(e).rowoff == pre.rowoff && final(e).coloff == pre.coloff
                            &&& final(e).dirty == pre.dirty && final(e).filename == pre.filename
                            &&& same_screen(pre, *final(e))
                        } else {
                            a == EditorAction::Quit && *final(e) == pre
                        }
                    } else if c == 19 {
                        // Ctrl-S
                        a == EditorAction::Save && *final(e) == with_qt(pre, BYOTE_QUIT_TIMES)
                    } else if c == 6 {
                        // Ctrl-F
                        a == EditorAction::Find && *final(e) == with_qt(pre, BYOTE_QUIT_TIMES)
                    } else if c == 127 || c == 8 {
                        a == EditorAction::Continue && final(e).quit_times == BYOTE_QUIT_TIMES
                            && del_char_post(pre, with_qt(*final(e), pre.quit_times))
                    } else if c == 12 || c == 27 {
                        a == EditorAction::Continue && *final(e) == with_qt(pre, BYOTE_QUIT_TIMES)
                    } else {
                        a == EditorAction::Continue && final(e).quit_times == BYOTE_QUIT_TIMES
                            && insert_char_post(pre, with_qt(*final(e), pre.quit_times), c)
                    }
                },
            }
        }),
{
    let ghost pre = *old(e);
    match *key {
        EditorKey::Return => {
            editor_insert_new_line(e);
            let ghost mid = *e;
            e.quit_times = BYOTE_QUIT_TIMES;
            proof {
                assert(with_qt(*e, pre.quit_times) == mid);
            }
            EditorAction::Continue
        },
        EditorKey::Char(c) if c == 17 => {
            if e.dirty && e.quit_times > 0 {
                let mut msg = lit_bytes("WARNING!!! File has unsaved changes. Press Ctrl-Q ");
                let mut digits = u64_to_dec(e.quit_times as u64);
                let mut tail = lit_bytes(" more times to quit.");
                msg.append(&mut digits);
                msg.append(&mut tail);
                editor_set_status_message(e, msg, now);
                e.quit_times = e.quit_times - 1;
                EditorAction::Continue
            } else {
                EditorAction::Quit
            }
        },
        EditorKey::Char(c) if c == 19 => {
            e.quit_times = BYOTE_QUIT_TIMES;
            EditorAction::Save
        },
        EditorKey::ArrowDown | EditorKey::ArrowUp | EditorKey::ArrowLeft | EditorKey::ArrowRight
        => {
            editor_move_cursor(key, e);
            let ghost mid = *e;
            e.quit_times = BYOTE_QUIT_TIMES;
            proof {
                assert(with_qt(*e, pre.quit_times) == mid);
            }
            EditorAction::Continue
        },
        EditorKey::Home => {
            e.cx = 0;
            e.quit_times = BYOTE_QUIT_TIMES;
            proof {
                assert(*e == EditorConfig { cx: 0, quit_times: BYOTE_QUIT_TIMES, ..pre });
            }
            EditorAction::Continue
        },
        EditorKey::End => {
            if e.cy < e.rows.len() {
                e.cx = e.rows[e.cy].chars.len();
            }
            e.quit_times = BYOTE_QUIT_TIMES;
            EditorAction::Continue
        },
        EditorKey::Char(c) if c == 6 => {
            e.quit_times = BYOTE_QUIT_TIMES;
            EditorAction::Find
        },
        EditorKey::Delete => {
            editor_move_cursor(&EditorKey::ArrowRight, e);
            let ghost moved = *e;
            proof {
                let m = move_cursor_spec(EditorKey::ArrowRight, pre);
                assert(moved == EditorConfig { cx: m.0 as usize, cy: m.1 as usize, ..pre });
            }
            editor_del_char(e);
            let ghost mid = *e;
            e.quit_times = BYOTE_QUIT_TIMES;
            proof {
                assert(with_qt(*e, pre.quit_times) == mid);
            }
            EditorAction::Continue
        },
        EditorKey::Char(c) if c == 127 || c == 8 => {
            editor_del_char(e);
            let ghost mid = *e;
            e.quit_times = BYOTE_QUIT_TIMES;
            proof {
                assert(with_qt(*e, pre.quit_times) == mid);
            }
            EditorAction::Continue
        },
        EditorKey::PageUp | EditorKey::PageDown => {
            let arrow = if *key == EditorKey::PageUp {
                e.cy = if e.rowoff <= e.rows.len() {
                    e.rowoff
                } else {
                    e.rows.len()
                };
                EditorKey::ArrowUp
            } else {
                let cap = e.rows.len();
                let t = e.screenrows - 1;
                e.cy = if e.rowoff >= cap || cap - e.rowoff <= t {
                    cap
                } else {
                    e.rowoff + t
                };
                EditorKey::ArrowDown
            };
            proof {
                assert(e.cy as int == page_target_spec(*key, pre));
                assert(*e == EditorConfig { cy: page_target_spec(*key, pre) as usize, ..pre });
            }
            let ghost start = *e;
            let mut i: usize = 0;
            while i < e.screenrows
                invariant
                    i <= start.screenrows,
                    e.screenrows == start.screenrows,
                    e.rows_wf(),
                    e.screen_wf(),
                    e.cy <= e.rows@.len(),
                    i > 0 ==> e.cursor_wf(),
                    arrow == (if *key == EditorKey::PageUp {
                        EditorKey::ArrowUp
                    } else {
                        EditorKey::ArrowDown
                    }),
                    start == (EditorConfig {
                        cy: page_target_spec(*key, *old(e)) as usize,
                        ..(*old(e))
                    }),
                    (e.cx as int, e.cy as int) == move_iter_spec(arrow, start, i as nat),
                    e.rows == start.rows,
                    e.rx == start.rx,
                    e.rowoff == start.rowoff,
                    e.coloff == start.coloff,
                    e.dirty == start.dirty,
                    e.quit_times == start.quit_times,
                    e.filename == start.filename,
                    e.statusmsg == start.statusmsg,
                    e.statusmsg_time == start.statusmsg_time,
                    e.find == start.find,
                    e.screencols == start.screencols,
                decreases start.screenrows - i,
            {
                proof {
                    assert(*e == EditorConfig { cx: e.cx, cy: e.cy, ..start });
                }
                editor_move_cursor(&arrow, e);
                i = i + 1;
            }
            e.quit_times = BYOTE_QUIT_TIMES;
            proof {
                let end = move_iter_spec(
                    if *key == EditorKey::PageUp {
                        EditorKey::ArrowUp
                    } else {
                        EditorKey::ArrowDown
                    },
                    start,
                    pre.screenrows as nat,
                );
                assert(*e == EditorConfig {
                    cx: end.0 as usize,
                    cy: end.1 as usize,
                    quit_times: BYOTE_QUIT_TIMES,
                    ..pre
                });
            }
            EditorAction::Continue
        },
        EditorKey::Char(c) if c == 12 || c == 27 => {
            e.quit_times = BYOTE_QUIT_TIMES;
            EditorAction::Continue
        },
        EditorKey::Char(c) => {
            editor_insert_char(e, c);
            let ghost mid = *e;
            e.quit_times = BYOTE_QUIT_TIMES;
            proof {
                assert(with_qt(*e, pre.quit_times) == mid);
            }
            EditorAction::Continue
        },
        _ => {
            e.quit_times = BYOTE_QUIT_TIMES;
            EditorAction::Continue
        },
    }
}

/// Applies the outcome of writing the document to disk: success clears the
/// dirty flag and reports the byte count; failure leaves the flag alone and
/// shows the error text. Nothing else changes.
pub fn editor_save_finish(e: &mut EditorConfig, result: Result<usize, Vec<u8>>, now: u64)
    ensures
        final(e).statusmsg_time == now,
        result is Ok ==> final(e).dirty == false && final(e).statusmsg@ == dec_spec(
            result->Ok_0 as nat,
        ) + " bytes written to disk".spec_bytes(),
        result is Err ==> final(e).dirty == old(e).dirty && final(e).statusmsg@
            == "Can't save! I/O error: ".spec_bytes() + result->Err_0@,
        final(e).rows == old(e).rows,
        final(e).cx == old(e).cx && final(e).cy == old(e).cy && final(e).rx == old(e).rx,
        final(e).rowoff == old(e).rowoff && final(e).coloff == old(e).coloff,
        final(e).filename == old(e).filename,
        final(e).quit_times == old(e).quit_times,
        final(e).find == old(e).find,
        same_screen(*old(e), *final(e)),
{
    match result {
        Result::Ok(n) => {
            e.dirty = false;
            let mut msg = u64_to_dec(n as u64);
            let mut tail = lit_bytes(" bytes written to disk");
            msg.append(&mut tail);
            proof {
                assert((n as u64) as nat == n as nat);
            }
            editor_set_status_message(e, msg, now);
        },
        Result::Err(err) => {
            let mut msg = lit_bytes("Can't save! I/O error: ");
            let mut tail = err;
            msg.append(&mut tail);
            editor_set_status_message(e, msg, now);
        },
    }
}

/// Reports a save abandoned at the filename prompt; the dirty flag stays.
pub fn editor_save_aborted(e: &mut EditorConfig, now: u64)
    ensures
        final(e).statusmsg@ == "Save aborted!".spec_bytes(),
        final(e).statusmsg_time == now,
        final(e).dirty == old(e).dirty,
        final(e).rows == old(e).rows,
        final(e).cx == old(e).cx && final(e).cy == old(e).cy && final(e).rx == old(e).rx,
        final(e).rowoff == old(e).rowoff && final(e).coloff == old(e).coloff,
        final(e).filename == old(e).filename,
        final(e).quit_times == old(e).quit_times,
        final(e).find == old(e).find,
        same_screen(*old(e), *final(e)),
{
    let msg = lit_bytes("Save aborted!");
    editor_set_status_message(e, msg, now);
}

} // verus!
