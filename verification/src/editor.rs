//! The editor session: the document as a sequence of rows, the cursor, the
//! scroll offsets, the dirty flag and the status message, with the mutation
//! operations that keep all of their invariants intact.
use crate::row::{render_spec, rx_spec, ERow, Highlight};
use vstd::prelude::*;
use vstd::slice::slice_to_vec;

verus! {

/// How many consecutive quit presses an unsaved buffer demands.
pub const BYOTE_QUIT_TIMES: u8 = 3;

/// The state of an incremental search session: the row of the most recent
/// match (or -1 for none), the scan direction (1 forward, -1 backward), and
/// the single saved highlight slice used to undo the transient Match tags.
pub struct FindState {
    pub last_match: isize,
    pub direction: i8,
    pub saved_hl_line: usize,
    pub saved_hl: Option<Vec<Highlight>>,
}

/// The whole editor session.
pub struct EditorConfig {
    pub screenrows: usize,
    pub screencols: usize,
    pub cx: usize,
    pub rx: usize,
    pub cy: usize,
    pub rows: Vec<ERow>,
    pub dirty: bool,
    pub quit_times: u8,
    pub rowoff: usize,
    pub coloff: usize,
    pub filename: Option<Vec<u8>>,
    pub statusmsg: Vec<u8>,
    pub statusmsg_time: u64,
    pub find: FindState,
}

impl EditorConfig {
    /// The character length of the row under index `cy`, or 0 for the
    /// virtual row one past the end of the document.
    pub open spec fn row_len(self, cy: int) -> int {
        if 0 <= cy < self.rows@.len() {
            self.rows@[cy].chars@.len() as int
        } else {
            0
        }
    }

    /// Every row's caches are in step with its text.
    pub open spec fn rows_wf(self) -> bool {
        forall|i: int| 0 <= i < self.rows@.len() ==> (#[trigger] self.rows@[i]).wf()
    }

    /// The cursor stays inside the document: at most one row past the last
    /// line, and within the current row's text (column 0 on the virtual row).
    pub open spec fn cursor_wf(self) -> bool {
        &&& self.cy <= self.rows@.len()
        &&& self.cx <= self.row_len(self.cy as int)
    }

    /// The screen has room for at least one text cell.
    pub open spec fn screen_wf(self) -> bool {
        self.screenrows >= 1 && self.screencols >= 1
    }

    pub open spec fn wf(self) -> bool {
        &&& self.rows_wf()
        &&& self.cursor_wf()
        &&& self.screen_wf()
    }

    /// No search session is in flight: nothing saved, no remembered match,
    /// scan direction forward.
    pub open spec fn find_at_rest(self) -> bool {
        &&& self.find.saved_hl is None
        &&& self.find.last_match == -1
        &&& self.find.direction == 1
    }
}

/// No transient search highlight anywhere: every row carries exactly its
/// syntax tags.
pub open spec fn rows_clean(e: EditorConfig) -> bool {
    forall|j: int| 0 <= j < e.rows@.len() ==> (#[trigger] e.rows@[j]).hl_clean()
}

/// In every well-formed session state -- and every mutation here returns
/// one -- each row's highlight has exactly one tag per byte of its render
/// cache.
pub proof fn lemma_highlight_len_invariant(e: EditorConfig)
    requires
        e.rows_wf(),
    ensures
        forall|i: int|
            0 <= i < e.rows@.len() ==> (#[trigger] e.rows@[i]).hl@.len() == e.rows@[i].render@.len(),
{
}

/// The screen dimensions agree.
pub open spec fn same_screen(a: EditorConfig, b: EditorConfig) -> bool {
    &&& b.screenrows == a.screenrows
    &&& b.screencols == a.screencols
}

/// Cursor position and derived render column agree.
pub open spec fn same_cursor(a: EditorConfig, b: EditorConfig) -> bool {
    &&& b.cx == a.cx
    &&& b.cy == a.cy
    &&& b.rx == a.rx
}

/// Scroll offsets agree.
pub open spec fn same_offsets(a: EditorConfig, b: EditorConfig) -> bool {
    &&& b.rowoff == a.rowoff
    &&& b.coloff == a.coloff
}

/// Filename, status message, quit counter and search state agree.
pub open spec fn same_session(a: EditorConfig, b: EditorConfig) -> bool {
    &&& b.filename == a.filename
    &&& b.statusmsg == a.statusmsg
    &&& b.statusmsg_time == a.statusmsg_time
    &&& b.quit_times == a.quit_times
    &&& b.find == a.find
}

/// `b`'s rows are `a`'s with a fresh row holding `s` inserted at `at`.
pub open spec fn rows_inserted(a: Seq<ERow>, b: Seq<ERow>, at: int, s: Seq<u8>) -> bool {
    &&& b.len() == a.len() + 1
    &&& (forall|j: int| 0 <= j < at ==> b[j] == a[j])
    &&& (forall|j: int| at < j < b.len() ==> b[j] == a[j - 1])
    &&& b[at].chars@ == s
    &&& b[at].wf()
    &&& b[at].hl_clean()
}

/// `b`'s rows are `a`'s with the row at `at` replaced by one holding `s`
/// (with freshly rebuilt caches).
pub open spec fn rows_replaced(a: Seq<ERow>, b: Seq<ERow>, at: int, s: Seq<u8>) -> bool {
    &&& b.len() == a.len()
    &&& (forall|j: int| 0 <= j < b.len() && j != at ==> b[j] == a[j])
    &&& b[at].chars@ == s
    &&& b[at].wf()
    &&& b[at].hl_clean()
}

impl EditorConfig {
    /// Builds a fresh session around a terminal of `rows` by `cols` cells;
    /// two rows are reserved for the status and message bars, so the
    /// terminal must offer at least three. The buffer starts empty, clean,
    /// with the quit counter full and no search in flight.
    pub fn from_env(rows: usize, cols: usize) -> (e: EditorConfig)
        requires
            rows >= 3,
            cols >= 1,
        ensures
            e.screenrows == rows - 2,
            e.screencols == cols,
            e.cx == 0 && e.cy == 0 && e.rx == 0,
            e.rows@.len() == 0,
            e.dirty == false,
            e.quit_times == BYOTE_QUIT_TIMES,
            e.rowoff == 0 && e.coloff == 0,
            e.filename is None,
            e.statusmsg@.len() == 0,
            e.statusmsg_time == 0,
            e.wf(),
            e.find_at_rest(),
    {
        EditorConfig {
            screenrows: rows - 2,
            screencols: cols,
            cx: 0,
            rx: 0,
            cy: 0,
            rows: Vec::new(),
            dirty: false,
            quit_times: BYOTE_QUIT_TIMES,
            rowoff: 0,
            coloff: 0,
            filename: None,
            statusmsg: Vec::new(),
            statusmsg_time: 0,
            find: FindState { last_match: -1, direction: 1, saved_hl_line: 0, saved_hl: None },
        }
    }
}

/// Builds the session state for a terminal of the given size.
pub fn init_editor(rows: usize, cols: usize) -> (e: EditorConfig)
    requires
        rows >= 3,
        cols >= 1,
    ensures
        e.screenrows == rows - 2,
        e.screencols == cols,
        e.cx == 0 && e.cy == 0 && e.rx == 0,
        e.rows@.len() == 0,
        e.dirty == false,
        e.quit_times == BYOTE_QUIT_TIMES,
        e.rowoff == 0 && e.coloff == 0,
        e.filename is None,
        e.statusmsg@.len() == 0,
        e.statusmsg_time == 0,
        e.wf(),
        e.find_at_rest(),
{
    EditorConfig::from_env(rows, cols)
}

/// Replaces the status message and stamps it with the caller's clock (so the
/// screen composer can expire it later).
pub fn editor_set_status_message(e: &mut EditorConfig, msg: Vec<u8>, now: u64)
    ensures
        final(e).statusmsg == msg,
        final(e).statusmsg_time == now,
        final(e).rows == old(e).rows,
        final(e).dirty == old(e).dirty,
        final(e).filename == old(e).filename,
        final(e).quit_times == old(e).quit_times,
        final(e).find == old(e).find,
        same_screen(*old(e), *final(e)),
        same_cursor(*old(e), *final(e)),
        same_offsets(*old(e), *final(e)),
{
    e.statusmsg = msg;
    e.statusmsg_time = now;
}

/// Inserts a row holding `s` at index `at`, rebuilding its caches and
/// marking the buffer dirty. An index past the end is a no-op.
pub fn editor_insert_row(e: &mut EditorConfig, at: usize, s: &Vec<u8>)
    ensures
        at > old(e).rows@.len() ==> *final(e) == *old(e),
        at <= old(e).rows@.len() ==> rows_inserted(old(e).rows@, final(e).rows@, at as int, s@),
        at <= old(e).rows@.len() ==> final(e).dirty,
        same_screen(*old(e), *final(e)),
        same_cursor(*old(e), *final(e)),
        same_offsets(*old(e), *final(e)),
        same_session(*old(e), *final(e)),
{
    if at > e.rows.len() {
        return ;
    }
    let mut row = ERow { chars: slice_to_vec(s.as_slice()), render: Vec::new(), hl: Vec::new() };
    crate::row::editor_update_row(&mut row);
    e.rows.insert(at, row);
    e.dirty = true;
}

/// Deletes the row at index `at` and marks the buffer dirty. An index past
/// the end is a no-op.
pub fn editor_del_row(e: &mut EditorConfig, at: usize)
    ensures
        at >= old(e).rows@.len() ==> *final(e) == *old(e),
        at < old(e).rows@.len() ==> final(e).rows@ == old(e).rows@.remove(at as int),
        at < old(e).rows@.len() ==> final(e).dirty,
        same_screen(*old(e), *final(e)),
        same_cursor(*old(e), *final(e)),
        same_offsets(*old(e), *final(e)),
        same_session(*old(e), *final(e)),
{
    if at >= e.rows.len() {
        return ;
    }
    e.rows.remove(at);
    e.dirty = true;
}

/// Inserts byte `c` into the current row's text at column `at` (clamped to
/// the row length), rebuilds that row's caches and marks the buffer dirty.
pub fn editor_row_insert_char(e: &mut EditorConfig, at: usize, c: u8)
    requires
        old(e).cy < old(e).rows@.len(),
    ensures
        rows_replaced(
            old(e).rows@,
            final(e).rows@,
            old(e).cy as int,
            old(e).rows@[old(e).cy as int].chars@.insert(
                if at <= old(e).rows@[old(e).cy as int].chars@.len() {
                    at as int
                } else {
                    old(e).rows@[old(e).cy as int].chars@.len() as int
                },
                c,
            ),
        ),
        final(e).dirty,
        same_screen(*old(e), *final(e)),
        same_cursor(*old(e), *final(e)),
        same_offsets(*old(e), *final(e)),
        same_session(*old(e), *final(e)),
{
    let cy = e.cy;
    let rowlen = e.rows[cy].chars.len();
    let pos = if at <= rowlen {
        at
    } else {
        rowlen
    };
    e.rows[cy].chars.insert(pos, c);
    crate::row::editor_update_row(&mut e.rows[cy]);
    e.dirty = true;
}

/// Appends `s` to the text of the row at `at_row`, rebuilds its caches and
/// marks the buffer dirty.
pub fn editor_row_append_string(e: &mut EditorConfig, at_row: usize, s: &Vec<u8>)
    requires
        at_row < old(e).rows@.len(),
    ensures
        rows_replaced(
            old(e).rows@,
            final(e).rows@,
            at_row as int,
            old(e).rows@[at_row as int].chars@ + s@,
        ),
        final(e).dirty,
        same_screen(*old(e), *final(e)),
        same_cursor(*old(e), *final(e)),
        same_offsets(*old(e), *final(e)),
        same_session(*old(e), *final(e)),
{
    let mut tail = slice_to_vec(s.as_slice());
    e.rows[at_row].chars.append(&mut tail);
    crate::row::editor_update_row(&mut e.rows[at_row]);
    e.dirty = true;
}

/// Removes the byte at column `at` of the row at `at_row`, rebuilds that
/// row's caches and marks the buffer dirty.
pub fn editor_row_del_char(e: &mut EditorConfig, at_row: usize, at: usize)
    requires
        at_row < old(e).rows@.len(),
        at < old(e).rows@[at_row as int].chars@.len(),
    ensures
        rows_replaced(
            old(e).rows@,
            final(e).rows@,
            at_row as int,
            old(e).rows@[at_row as int].chars@.remove(at as int),
        ),
        final(e).dirty,
        same_screen(*old(e), *final(e)),
        same_cursor(*old(e), *final(e)),
        same_offsets(*old(e), *final(e)),
        same_session(*old(e), *final(e)),
{
    e.rows[at_row].chars.remove(at);
    crate::row::editor_update_row(&mut e.rows[at_row]);
    e.dirty = true;
}

/// Inserts byte `c` at the cursor and advances the cursor one column. On the
/// virtual row past the last line an empty row is appended first.
/// How inserting one byte at the cursor changes the session: the current row
/// (or a fresh final row) gains `c` at the cursor column, the cursor moves
/// one column right, and the buffer is dirty.
pub open spec fn insert_char_post(pre: EditorConfig, post: EditorConfig, c: u8) -> bool {
    &&& post.wf()
    &&& post.dirty
    &&& post.cy == pre.cy
    &&& post.cx == pre.cx + 1
    &&& (pre.cy < pre.rows@.len() ==> rows_replaced(
        pre.rows@,
        post.rows@,
        pre.cy as int,
        pre.rows@[pre.cy as int].chars@.insert(pre.cx as int, c),
    ))
    &&& (pre.cy == pre.rows@.len() ==> post.rows@.len() == pre.rows@.len() + 1 && (forall|j: int|
        0 <= j < pre.rows@.len() ==> post.rows@[j] == pre.rows@[j]) && post.rows@[pre.cy as int].chars@
        == seq![c] && post.rows@[pre.cy as int].wf() && post.rows@[pre.cy as int].hl_clean())
    &&& post.rx == pre.rx
    &&& same_screen(pre, post)
    &&& same_offsets(pre, post)
    &&& same_session(pre, post)
}

pub fn editor_insert_char(e: &mut EditorConfig, c: u8)
    requires
        old(e).wf(),
    ensures
        insert_char_post(*old(e), *final(e), c),
{
    if e.cy == e.rows.len() {
        let empty: Vec<u8> = Vec::new();
        let at = e.rows.len();
        editor_insert_row(e, at, &empty);
    }
    let at = e.cx;
    editor_row_insert_char(e, at, c);
    proof {
        vstd::std_specs::vec::axiom_spec_len(&e.rows@[e.cy as int].chars);
        assert(e.rows@[e.cy as int].chars@.len() <= usize::MAX);
    }
    e.cx = e.cx + 1;
    proof {
        let pre = *old(e);
        assert(e.wf());
        if pre.cy < pre.rows@.len() {
            assert(rows_replaced(
                pre.rows@,
                e.rows@,
                pre.cy as int,
                pre.rows@[pre.cy as int].chars@.insert(pre.cx as int, c),
            ));
        } else {
            assert(e.rows@.len() == pre.rows@.len() + 1);
            assert(forall|j: int| 0 <= j < pre.rows@.len() ==> e.rows@[j] == pre.rows@[j]);
            assert(e.rows@[pre.cy as int].chars@ =~= seq![c]);
            assert(e.rows@[pre.cy as int].wf());
            assert(e.rows@[pre.cy as int].hl_clean());
        }
        assert(same_screen(pre, *e) && same_offsets(pre, *e) && same_session(pre, *e));
        assert(insert_char_post(pre, *e, c));
    }
}

/// Splits the current row at the cursor (or opens a fresh empty row when the
/// cursor is at column zero) and moves the cursor to the start of the next
/// row.
/// How a newline at the cursor changes the session: at column zero a fresh
/// empty row opens above; otherwise the current row splits at the cursor.
/// The cursor lands at the start of the next row and the buffer is dirty.
pub open spec fn insert_new_line_post(pre: EditorConfig, post: EditorConfig) -> bool {
    &&& post.wf()
    &&& post.dirty
    &&& post.cy == pre.cy + 1
    &&& post.cx == 0
    &&& (pre.cx == 0 ==> rows_inserted(pre.rows@, post.rows@, pre.cy as int, seq![]))
    &&& (pre.cx > 0 ==> post.rows@.len() == pre.rows@.len() + 1 && (forall|j: int|
        0 <= j < pre.cy ==> post.rows@[j] == pre.rows@[j]) && (forall|j: int|
        pre.cy + 1 < j < post.rows@.len() ==> post.rows@[j] == pre.rows@[j - 1])
        && post.rows@[pre.cy as int].chars@ == pre.rows@[pre.cy as int].chars@.take(pre.cx as int)
        && post.rows@[pre.cy + 1].chars@ == pre.rows@[pre.cy as int].chars@.skip(pre.cx as int)
        && post.rows@[pre.cy as int].wf() && post.rows@[pre.cy as int].hl_clean()
        && post.rows@[pre.cy + 1].wf() && post.rows@[pre.cy + 1].hl_clean())
    &&& post.rx == pre.rx
    &&& same_screen(pre, post)
    &&& same_offsets(pre, post)
    &&& same_session(pre, post)
}

pub fn editor_insert_new_line(e: &mut EditorConfig)
    requires
        old(e).wf(),
    ensures
        insert_new_line_post(*old(e), *final(e)),
{
    if e.cx == 0 {
        let empty: Vec<u8> = Vec::new();
        let at = e.cy;
        editor_insert_row(e, at, &empty);
    } else {
        // The cursor sits inside a real row: cx > 0 rules the virtual row out.
        let cy = e.cy;
        proof {
            vstd::std_specs::vec::axiom_spec_len(&e.rows);
            assert(e.cy < e.rows@.len());
        }
        let right = e.rows[cy].chars.split_off(e.cx);
        let at = cy + 1;
        editor_insert_row(e, at, &right);
        crate::row::editor_update_row(&mut e.rows[cy]);
        proof {
            assert(e.rows@[cy as int].chars@ =~= old(e).rows@[cy as int].chars@.take(
                old(e).cx as int,
            ));
            assert(e.rows@[cy + 1].chars@ =~= old(e).rows@[cy as int].chars@.skip(
                old(e).cx as int,
            ));
        }
    }
    proof {
        vstd::std_specs::vec::axiom_spec_len(&e.rows);
        assert(e.cy < e.rows@.len());
    }
    e.cy = e.cy + 1;
    e.cx = 0;
}

/// Deletes the character before the cursor; at column zero the current row
/// is joined onto the previous one. At the very start of the document, or on
/// the virtual row past the end, nothing happens.
/// How deleting before the cursor changes the session: inside a row the byte
/// left of the cursor goes and the cursor follows; at column zero the row is
/// joined onto the previous one; at the start of the document, or on the
/// virtual row, nothing changes.
pub open spec fn del_char_post(pre: EditorConfig, post: EditorConfig) -> bool {
    &&& post.wf()
    &&& (pre.cy == pre.rows@.len() || (pre.cx == 0 && pre.cy == 0) ==> post == pre)
    &&& (pre.cy < pre.rows@.len() && pre.cx > 0 ==> rows_replaced(
        pre.rows@,
        post.rows@,
        pre.cy as int,
        pre.rows@[pre.cy as int].chars@.remove(pre.cx - 1),
    ) && post.cx == pre.cx - 1 && post.cy == pre.cy && post.dirty)
    &&& (pre.cy < pre.rows@.len() && pre.cx == 0 && pre.cy > 0 ==> post.rows@.len() == pre.rows@.len()
        - 1 && (forall|j: int| 0 <= j < pre.cy - 1 ==> post.rows@[j] == pre.rows@[j]) && (forall|
        j: int,
    |
        pre.cy <= j < post.rows@.len() ==> post.rows@[j] == pre.rows@[j + 1]) && post.rows@[pre.cy
        - 1].chars@ == pre.rows@[pre.cy - 1].chars@ + pre.rows@[pre.cy as int].chars@ && post.cy
        == pre.cy - 1 && post.cx == pre.rows@[pre.cy - 1].chars@.len() && post.dirty
        && post.rows@[pre.cy - 1].wf() && post.rows@[pre.cy - 1].hl_clean())
    &&& post.rx == pre.rx
    &&& same_screen(pre, post)
    &&& same_offsets(pre, post)
    &&& same_session(pre, post)
}

pub fn editor_del_char(e: &mut EditorConfig)
    requires
        old(e).wf(),
    ensures
        del_char_post(*old(e), *final(e)),
{
    if e.cy == e.rows.len() {
        return ;
    }
    if e.cx == 0 && e.cy == 0 {
        return ;
    }
    if e.cx > 0 {
        let cy = e.cy;
        let at = e.cx - 1;
        editor_row_del_char(e, cy, at);
        e.cx = e.cx - 1;
    } else {
        let cy = e.cy;
        let prevlen = e.rows[cy - 1].chars.len();
        let moved = slice_to_vec(e.rows[cy].chars.as_slice());
        e.cx = prevlen;
        editor_row_append_string(e, cy - 1, &moved);
        editor_del_row(e, cy);
        e.cy = cy - 1;
        proof {
            assert(forall|j: int|
                old(e).cy <= j < final(e).rows@.len() ==> final(e).rows@[j] == old(e).rows@[j + 1]);
        }
    }
}

/// The document serialised for saving: the rows joined by single newlines,
/// nothing appended after the last row.
pub open spec fn join_spec(rows: Seq<ERow>) -> Seq<u8>
    decreases rows.len(),
{
    if rows.len() == 0 {
        Seq::empty()
    } else if rows.len() == 1 {
        rows[0].chars@
    } else {
        join_spec(rows.drop_last()) + seq![10u8] + rows.last().chars@
    }
}

/// Serialises the document as its rows joined by single newlines.
pub fn editor_rows_to_string(e: &EditorConfig) -> (out: Vec<u8>)
    ensures
        out@ == join_spec(e.rows@),
{
    let mut out: Vec<u8> = Vec::new();
    let mut i: usize = 0;
    proof {
        assert(e.rows@.take(0) =~= Seq::<ERow>::empty());
    }
    while i < e.rows.len()
        invariant
            i <= e.rows@.len(),
            out@ == join_spec(e.rows@.take(i as int)),
        decreases e.rows@.len() - i,
    {
        if i > 0 {
            out.push(10);
        }
        let mut line = slice_to_vec(e.rows[i].chars.as_slice());
        out.append(&mut line);
        proof {
            assert(e.rows@.take(i + 1).drop_last() =~= e.rows@.take(i as int));
            assert(e.rows@.take(i + 1).last() == e.rows@[i as int]);
            if i > 0 {
                assert(out@ == join_spec(e.rows@.take(i + 1)));
            } else {
                assert(out@ =~= e.rows@[0].chars@);
            }
        }
        i = i + 1;
    }
    proof {
        assert(e.rows@.take(e.rows@.len() as int) =~= e.rows@);
    }
    out
}

/// Where one arrow key moves the cursor, before the arrival clamp: left and
/// right wrap across line ends, up and down keep the column.
pub open spec fn move_step_spec(key: crate::keys::EditorKey, e: EditorConfig) -> (int, int) {
    let cx = e.cx as int;
    let cy = e.cy as int;
    let n = e.rows@.len() as int;
    let rl = e.row_len(cy);
    match key {
        crate::keys::EditorKey::ArrowLeft => if cx > 0 {
            (cx - 1, cy)
        } else if cy > 0 {
            (e.row_len(cy - 1), cy - 1)
        } else {
            (cx, cy)
        },
        crate::keys::EditorKey::ArrowRight => if cy < n && cx < rl {
            (cx + 1, cy)
        } else if cy < n && cx == rl {
            (0, cy + 1)
        } else {
            (cx, cy)
        },
        crate::keys::EditorKey::ArrowUp => if cy > 0 {
            (cx, cy - 1)
        } else {
            (cx, cy)
        },
        crate::keys::EditorKey::ArrowDown => if n > 0 && cy < n - 1 {
            (cx, cy + 1)
        } else {
            (cx, cy)
        },
        _ => (cx, cy),
    }
}

/// Where one key moves the cursor: the raw step, then the column clamped to
/// the length of the row the cursor lands on.
pub open spec fn move_cursor_spec(key: crate::keys::EditorKey, e: EditorConfig) -> (int, int) {
    let (ncx, ncy) = move_step_spec(key, e);
    let clamp = e.row_len(ncy);
    (if ncx > clamp {
        clamp
    } else {
        ncx
    }, ncy)
}

/// Moves the cursor one step for an arrow key (anything else leaves it in
/// place), clamping the column to the row the cursor arrives on.
/// How one cursor-movement key changes the session: only the cursor moves,
/// following `move_cursor_spec`.
pub open spec fn move_cursor_post(key: crate::keys::EditorKey, pre: EditorConfig, post: EditorConfig) -> bool {
    &&& post.wf()
    &&& (post.cx as int, post.cy as int) == move_cursor_spec(key, pre)
    &&& post.rows == pre.rows
    &&& post.dirty == pre.dirty
    &&& post.rx == pre.rx
    &&& same_screen(pre, post)
    &&& same_offsets(pre, post)
    &&& same_session(pre, post)
}

pub fn editor_move_cursor(key: &crate::keys::EditorKey, e: &mut EditorConfig)
    requires
        old(e).rows_wf(),
        old(e).screen_wf(),
        old(e).cy <= old(e).rows@.len(),
    ensures
        move_cursor_post(*key, *old(e), *final(e)),
{
    let rowlen_old = if e.cy < e.rows.len() {
        e.rows[e.cy].chars.len()
    } else {
        0
    };
    match key {
        crate::keys::EditorKey::ArrowLeft => {
            if e.cx > 0 {
                e.cx = e.cx - 1;
            } else if e.cy > 0 {
                e.cy = e.cy - 1;
                e.cx = e.rows[e.cy].chars.len();
            }
        },
        crate::keys::EditorKey::ArrowRight => {
            if e.cy < e.rows.len() && e.cx < rowlen_old {
                e.cx = e.cx + 1;
            } else if e.cy < e.rows.len() && e.cx == rowlen_old {
                e.cy = e.cy + 1;
                e.cx = 0;
            }
        },
        crate::keys::EditorKey::ArrowUp => {
            if e.cy > 0 {
                e.cy = e.cy - 1;
            }
        },
        crate::keys::EditorKey::ArrowDown => {
            if e.rows.len() > 0 && e.cy < e.rows.len() - 1 {
                e.cy = e.cy + 1;
            }
        },
        _ => {},
    }
    let rowlen_new = if e.cy < e.rows.len() {
        e.rows[e.cy].chars.len()
    } else {
        0
    };
    if e.cx > rowlen_new {
        e.cx = rowlen_new;
    }
}

/// What one scroll recompute leaves an offset at: the window is dragged the
/// shortest distance that brings the cursor inside it.
pub open spec fn scroll_offset_spec(pos: int, off: int, extent: int) -> int {
    if pos < off {
        pos
    } else if pos >= off + extent {
        pos - extent + 1
    } else {
        off
    }
}

/// Recomputes the render column from the cursor and drags both scroll
/// offsets so the cursor is inside the visible window. After the call the
/// viewport invariant holds: `rowoff <= cy < rowoff + screenrows` and
/// `coloff <= rx < coloff + screencols`.
pub fn editor_scroll(e: &mut EditorConfig)
    requires
        old(e).wf(),
    ensures
        final(e).wf(),
        final(e).rx as int == if old(e).cy < old(e).rows@.len() {
            rx_spec(old(e).rows@[old(e).cy as int].chars@, old(e).cx as int)
        } else {
            0
        },
        final(e).rowoff as int == scroll_offset_spec(
            old(e).cy as int,
            old(e).rowoff as int,
            old(e).screenrows as int,
        ),
        final(e).coloff as int == scroll_offset_spec(
            final(e).rx as int,
            old(e).coloff as int,
            old(e).screencols as int,
        ),
        final(e).rowoff <= final(e).cy < final(e).rowoff + final(e).screenrows,
        final(e).coloff <= final(e).rx < final(e).coloff + final(e).screencols,
        final(e).rows == old(e).rows,
        final(e).dirty == old(e).dirty,
        final(e).cx == old(e).cx,
        final(e).cy == old(e).cy,
        same_screen(*old(e), *final(e)),
        same_session(*old(e), *final(e)),
{
    e.rx = if e.cy < e.rows.len() {
        crate::row::editor_row_cx_to_rx(&e.rows[e.cy], e.cx)
    } else {
        0
    };
    if e.cy < e.rowoff {
        e.rowoff = e.cy;
    }
    if e.cy - e.rowoff >= e.screenrows {
        e.rowoff = e.cy - e.screenrows + 1;
    }
    if e.rx < e.coloff {
        e.coloff = e.rx;
    }
    if e.rx - e.coloff >= e.screencols {
        e.coloff = e.rx - e.screencols + 1;
    }
}

} // verus!
