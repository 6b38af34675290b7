//! Incremental search: literal substring matching over the rendered rows,
//! scanning row by row from the last match with wraparound at both ends of
//! the document.
use crate::editor::{same_screen, EditorConfig, FindState};
use crate::keys::EditorKey;
use crate::row::{rx_spec, ERow, Highlight};
use vstd::slice::slice_to_vec;
use vstd::string::StringSliceAdditionalSpecFns;
use vstd::arithmetic::div_mod::{
    lemma_add_mod_noop_right, lemma_mod_bound, lemma_small_mod, lemma_sub_mod_noop_right,
};
use vstd::prelude::*;

verus! {

/// `needle` occurs in `hay` starting at index `i`.
pub open spec fn occurs_at(hay: Seq<u8>, needle: Seq<u8>, i: int) -> bool {
    &&& 0 <= i
    &&& i + needle.len() <= hay.len()
    &&& hay.subrange(i, i + needle.len() as int) == needle
}

/// `needle` occurs somewhere in `hay`.
pub open spec fn contains_sub(hay: Seq<u8>, needle: Seq<u8>) -> bool {
    exists|i: int| occurs_at(hay, needle, i)
}

/// Whether `needle` occurs in `hay` at exactly index `i`.
fn match_at(hay: &Vec<u8>, needle: &Vec<u8>, i: usize) -> (r: bool)
    requires
        i + needle@.len() <= hay@.len(),
    ensures
        r == occurs_at(hay@, needle@, i as int),
{
    let m = needle.len();
    let mut k: usize = 0;
    proof {
        vstd::std_specs::vec::axiom_spec_len(hay);
    }
    while k < m
        invariant
            k <= m,
            m == needle@.len(),
            i + m <= hay@.len(),
            hay@.len() <= usize::MAX,
            forall|j: int| 0 <= j < k ==> hay@[i + j] == needle@[j],
        decreases m - k,
    {
        if hay[i + k] != needle[k] {
            proof {
                assert(hay@.subrange(i as int, i + m) != needle@) by {
                    assert(hay@.subrange(i as int, i + m)[k as int] == hay@[i + k]);
                }
            }
            return false;
        }
        k = k + 1;
    }
    proof {
        assert(hay@.subrange(i as int, i + m) =~= needle@);
    }
    true
}

/// Finds the first occurrence of `needle` in `hay`, if any; an empty needle
/// matches at index 0.
pub fn find_substring(hay: &Vec<u8>, needle: &Vec<u8>) -> (r: Option<usize>)
    ensures
        match r {
            Some(i) => occurs_at(hay@, needle@, i as int) && (forall|j: int|
                0 <= j < i ==> !occurs_at(hay@, needle@, j)),
            None => forall|j: int| !occurs_at(hay@, needle@, j),
        },
{
    let n = hay.len();
    let m = needle.len();
    if m > n {
        return None;
    }
    let mut i: usize = 0;
    while i <= n - m
        invariant
            m <= n,
            n == hay@.len(),
            m == needle@.len(),
            i <= n - m + 1,
            forall|j: int| 0 <= j < i ==> !occurs_at(hay@, needle@, j),
        decreases n - i,
    {
        if match_at(hay, needle, i) {
            return Some(i);
        }
        proof {
            if m == 0 {
                assert(hay@.subrange(i as int, i as int) =~= needle@);
                assert(occurs_at(hay@, needle@, i as int));
                assert(false);
            }
        }
        i = i + 1;
    }
    None
}

/// The row index one scan step away: forward steps wrap from the last row to
/// the first, backward steps from the first to the last.
pub open spec fn wrap_next(pos: int, dir: int, n: int) -> int {
    if dir == 1 {
        if pos + 1 == n {
            0
        } else {
            pos + 1
        }
    } else {
        if pos == 0 {
            n - 1
        } else {
            pos - 1
        }
    }
}

/// The row index `i` scan steps away.
pub open spec fn pos_after(pos: int, dir: int, n: int, i: nat) -> int
    decreases i,
{
    if i == 0 {
        pos
    } else {
        pos_after(wrap_next(pos, dir, n), dir, n, (i - 1) as nat)
    }
}

/// The first matching row reached by stepping `dir`-wards from `pos`,
/// spending at most `fuel` steps; the row at `pos` itself is tested only
/// after wrapping all the way around.
pub open spec fn scan_from(rows: Seq<ERow>, q: Seq<u8>, pos: int, dir: int, fuel: nat) -> Option<
    int,
>
    decreases fuel,
{
    if fuel == 0 {
        None
    } else {
        let next = wrap_next(pos, dir, rows.len() as int);
        if contains_sub(rows[next].render@, q) {
            Some(next)
        } else {
            scan_from(rows, q, next, dir, (fuel - 1) as nat)
        }
    }
}

/// A scan step stays inside the document.
proof fn lemma_wrap_next_bounds(pos: int, dir: int, n: int)
    requires
        n >= 1,
        0 <= pos < n,
        dir == 1 || dir == -1,
    ensures
        0 <= wrap_next(pos, dir, n) < n,
{
}

/// Stepping `i` times from `pos` lands on `(pos + dir * i) % n`.
#[verifier::rlimit(50)]
proof fn lemma_pos_after_mod(pos: int, dir: int, n: int, i: nat)
    requires
        n >= 1,
        0 <= pos < n,
        dir == 1 || dir == -1,
    ensures
        0 <= pos_after(pos, dir, n, i) < n,
        pos_after(pos, dir, n, i) == (pos + dir * i) % n,
    decreases i,
{
    if i == 0 {
        lemma_small_mod(pos as nat, n as nat);
        vstd::arithmetic::mul::lemma_mul_basics(dir);
        assert(dir * i == 0);
        assert((pos + dir * i) % n == pos % n);
    } else {
        let next = wrap_next(pos, dir, n);
        lemma_wrap_next_bounds(pos, dir, n);
        lemma_pos_after_mod(next, dir, n, (i - 1) as nat);
        let im1 = (i - 1) as int;
        assert(pos_after(pos, dir, n, i) == (next + dir * im1) % n);
        vstd::arithmetic::mul::lemma_mul_is_distributive_sub(dir, i as int, 1);
        vstd::arithmetic::mul::lemma_mul_basics(dir);
        assert(dir * im1 == dir * (i as int) - dir);
        if next == pos + dir {
            assert(next + dir * im1 == pos + dir * (i as int));
        } else if next == pos + dir - n {
            assert(next + dir * im1 == n * (-1) + (pos + dir * (i as int)));
            vstd::arithmetic::div_mod::lemma_mod_multiples_vanish(-1, pos + dir * (i as int), n);
        } else {
            assert(next == pos + dir + n);
            assert(next + dir * im1 == n * 1 + (pos + dir * (i as int)));
            vstd::arithmetic::div_mod::lemma_mod_multiples_vanish(1, pos + dir * (i as int), n);
        }
        assert((next + dir * im1) % n == (pos + dir * (i as int)) % n);
        assert(pos_after(pos, dir, n, i) == (pos + dir * (i as int)) % n);
        assert(pos_after(pos, dir, n, i) == (pos + dir * i) % n);
        assert(0 <= pos_after(pos, dir, n, i) < n);
    }
}

/// If some row within `fuel` steps of `pos` matches, the scan returns a
/// match.
proof fn lemma_scan_hits(rows: Seq<ERow>, q: Seq<u8>, pos: int, dir: int, fuel: nat, i: nat, j: int)
    requires
        rows.len() >= 1,
        0 <= pos < rows.len(),
        dir == 1 || dir == -1,
        1 <= i <= fuel,
        0 <= j < rows.len(),
        pos_after(pos, dir, rows.len() as int, i) == j,
        contains_sub(rows[j].render@, q),
    ensures
        scan_from(rows, q, pos, dir, fuel) is Some,
    decreases i,
{
    let n = rows.len() as int;
    let next = wrap_next(pos, dir, n);
    lemma_wrap_next_bounds(pos, dir, n);
    assert(pos_after(next, dir, n, 0) == next);
    assert(pos_after(pos, dir, n, 1) == pos_after(next, dir, n, 0));
    if contains_sub(rows[next].render@, q) {
    } else {
        assert(i != 1);
        assert(pos_after(pos, dir, n, i) == pos_after(next, dir, n, (i - 1) as nat));
        lemma_scan_hits(rows, q, next, dir, (fuel - 1) as nat, (i - 1) as nat, j);
    }
}

/// Every row of the document is reached within `n` scan steps.
proof fn lemma_steps_reach(pos: int, dir: int, n: int, j: int) -> (i: nat)
    requires
        n >= 1,
        0 <= pos < n,
        dir == 1 || dir == -1,
        0 <= j < n,
    ensures
        1 <= i <= n,
        pos_after(pos, dir, n, i) == j,
{
    let delta = if dir == 1 {
        (j - pos - 1) % n
    } else {
        (pos - 1 - j) % n
    };
    lemma_mod_bound(j - pos - 1, n);
    lemma_mod_bound(pos - 1 - j, n);
    let i = (delta + 1) as nat;
    lemma_pos_after_mod(pos, dir, n, i);
    if dir == 1 {
        assert((pos + dir * i) % n == j) by {
            assert(dir * i == 1 * (delta + 1));
            assert(1 * (delta + 1) == delta + 1) by (nonlinear_arith);
            lemma_add_mod_noop_right(pos + 1, j - pos - 1, n);
            lemma_small_mod(j as nat, n as nat);
        }
    } else {
        assert((pos + dir * i) % n == j) by {
            assert(dir * i == (-1) * (delta + 1));
            assert((-1) * (delta + 1) == -delta - 1) by (nonlinear_arith);
            lemma_sub_mod_noop_right(pos - 1, pos - 1 - j, n);
            lemma_small_mod(j as nat, n as nat);
        }
    }
    i
}

/// A scan that comes back empty-handed after a full pass has proven that no
/// row of the document matches.
pub proof fn lemma_scan_complete(rows: Seq<ERow>, q: Seq<u8>, pos: int, dir: int)
    requires
        rows.len() >= 1,
        0 <= pos < rows.len(),
        dir == 1 || dir == -1,
        scan_from(rows, q, pos, dir, rows.len() as nat) is None,
    ensures
        forall|j: int| 0 <= j < rows.len() ==> !contains_sub((#[trigger] rows[j]).render@, q),
{
    let n = rows.len() as int;
    assert forall|j: int| 0 <= j < n implies !contains_sub((#[trigger] rows[j]).render@, q) by {
        if contains_sub(rows[j].render@, q) {
            let i = lemma_steps_reach(pos, dir, n, j);
            lemma_scan_hits(rows, q, pos, dir, n as nat, i, j);
        }
    }
}

/// Whatever row a scan returns does contain the query.
pub proof fn lemma_scan_result_matches(
    rows: Seq<ERow>,
    q: Seq<u8>,
    pos: int,
    dir: int,
    fuel: nat,
    r: int,
)
    requires
        rows.len() >= 1,
        0 <= pos < rows.len(),
        dir == 1 || dir == -1,
        scan_from(rows, q, pos, dir, fuel) == Some(r),
    ensures
        0 <= r < rows.len(),
        contains_sub(rows[r].render@, q),
    decreases fuel,
{
    let n = rows.len() as int;
    let next = wrap_next(pos, dir, n);
    lemma_wrap_next_bounds(pos, dir, n);
    if !contains_sub(rows[next].render@, q) {
        lemma_scan_result_matches(rows, q, next, dir, (fuel - 1) as nat, r);
    }
}

/// Search wraparound: when exactly one row of the document contains the
/// query, a full scan finds precisely that row, no matter which row it
/// starts from and in which direction it steps.
pub proof fn lemma_search_finds_unique_row(
    rows: Seq<ERow>,
    q: Seq<u8>,
    pos: int,
    dir: int,
    jstar: int,
)
    requires
        rows.len() >= 1,
        0 <= pos < rows.len(),
        dir == 1 || dir == -1,
        0 <= jstar < rows.len(),
        contains_sub(rows[jstar].render@, q),
        forall|j: int|
            0 <= j < rows.len() && j != jstar ==> !contains_sub((#[trigger] rows[j]).render@, q),
    ensures
        scan_from(rows, q, pos, dir, rows.len() as nat) == Some(jstar),
{
    let n = rows.len() as int;
    let i = lemma_steps_reach(pos, dir, n, jstar);
    lemma_scan_hits(rows, q, pos, dir, n as nat, i, jstar);
    let r = scan_from(rows, q, pos, dir, n as nat)->0;
    lemma_scan_result_matches(rows, q, pos, dir, n as nat, r);
}

/// Where a scan begins: the row of the last match, or (when there is none)
/// the last row, so that the first forward step lands on row 0.
pub open spec fn scan_start(last_match: isize, n: int) -> int {
    if last_match < 0 {
        n - 1
    } else {
        last_match as int
    }
}

/// The outcome of a full search pass for this document and search state.
pub open spec fn full_scan(rows: Seq<ERow>, q: Seq<u8>, last_match: isize, direction: i8) -> Option<
    int,
> {
    scan_from(
        rows,
        q,
        scan_start(last_match, rows.len() as int),
        direction as int,
        rows.len() as nat,
    )
}

/// Scans the document for the query, starting one step past `last_match`
/// (or from the top when there is none), stepping `direction`-wards with
/// wraparound, at most once around. Returns the matched row and the first
/// match column within its render.
pub fn find_next_match(rows: &Vec<ERow>, query: &Vec<u8>, last_match: isize, direction: i8) -> (r:
    Option<(usize, usize)>)
    requires
        -1 <= last_match < rows@.len(),
        direction == 1i8 || direction == -1i8,
        last_match == -1 ==> direction == 1i8,
    ensures
        match r {
            Some(pair) => {
                &&& full_scan(rows@, query@, last_match, direction) == Some(pair.0 as int)
                &&& pair.0 < rows@.len()
                &&& occurs_at(rows@[pair.0 as int].render@, query@, pair.1 as int)
                &&& forall|j: int|
                    0 <= j < pair.1 ==> !occurs_at(rows@[pair.0 as int].render@, query@, j)
            },
            None => full_scan(rows@, query@, last_match, direction) is None,
        },
{
    let n = rows.len();
    if n == 0 {
        return None;
    }
    let mut current: usize = if last_match < 0 {
        n - 1
    } else {
        last_match as usize
    };
    let ghost start = current as int;
    proof {
        assert(start == scan_start(last_match, rows@.len() as int));
    }
    let mut y: usize = 0;
    while y < n
        invariant
            n == rows@.len(),
            n >= 1,
            current < n,
            y <= n,
            start == scan_start(last_match, rows@.len() as int),
            scan_from(rows@, query@, start, direction as int, n as nat) == scan_from(
                rows@,
                query@,
                current as int,
                direction as int,
                (n - y) as nat,
            ),
        decreases n - y,
    {
        let next = if direction == 1 {
            if current + 1 == n {
                0
            } else {
                current + 1
            }
        } else {
            if current == 0 {
                n - 1
            } else {
                current - 1
            }
        };
        proof {
            assert(next as int == wrap_next(current as int, direction as int, n as int));
        }
        match find_substring(&rows[next].render, query) {
            Some(rx) => {
                proof {
                    assert(occurs_at(rows@[next as int].render@, query@, rx as int));
                    assert(contains_sub(rows@[next as int].render@, query@));
                    assert((n - y) as nat != 0);
                    assert(scan_from(
                        rows@,
                        query@,
                        current as int,
                        direction as int,
                        (n - y) as nat,
                    ) == Some(next as int));
                    assert(full_scan(rows@, query@, last_match, direction) == Some(next as int));
                }
                return Some((next, rx));
            },
            None => {
                proof {
                    assert(!contains_sub(rows@[next as int].render@, query@));
                }
                current = next;
                y = y + 1;
            },
        }
    }
    None
}

/// Search-session state is consistent with the document: the last match (if
/// any) names a row, the direction is a unit step, and a saved highlight
/// slice names a row and holds that row's syntax highlight.
pub open spec fn find_wf(e: EditorConfig) -> bool {
    &&& -1 <= e.find.last_match < e.rows@.len()
    &&& (e.find.direction == 1i8 || e.find.direction == -1i8)
    &&& (e.find.last_match == -1 ==> e.find.direction == 1i8)
    &&& match e.find.saved_hl {
        Some(h) => e.find.saved_hl_line < e.rows@.len() && h@ == crate::row::hl_spec(
            e.rows@[e.find.saved_hl_line as int].render@,
        ),
        None => true,
    }
    &&& forall|j: int|
        0 <= j < e.rows@.len() && !(e.find.saved_hl is Some && e.find.saved_hl_line == j) ==> (
        #[trigger] e.rows@[j]).hl_clean()
}

/// The keys that end a search session.
pub open spec fn is_end_key(k: EditorKey) -> bool {
    k == EditorKey::Escape || k == EditorKey::Return
}

/// The keys that continue the current search instead of restarting it.
pub open spec fn is_arrow_key(k: EditorKey) -> bool {
    ||| k == EditorKey::ArrowLeft
    ||| k == EditorKey::ArrowRight
    ||| k == EditorKey::ArrowUp
    ||| k == EditorKey::ArrowDown
}

/// The row a search triggered by `k` starts from: arrows continue from the
/// last match, any other key restarts from the top.
pub open spec fn search_last(k: EditorKey, f: FindState) -> isize {
    if is_arrow_key(k) {
        f.last_match
    } else {
        -1isize
    }
}

/// The direction a search triggered by `k` steps in: up/left turn backward,
/// down/right forward; a search with no current match always runs forward.
pub open spec fn search_dir(k: EditorKey, f: FindState) -> i8 {
    if search_last(k, f) == -1 {
        1i8
    } else if k == EditorKey::ArrowLeft || k == EditorKey::ArrowUp {
        -1i8
    } else {
        1i8
    }
}

/// The highlight row `j` carries once any saved slice has been restored.
pub open spec fn mid_hl(pre: EditorConfig, j: int) -> Seq<Highlight> {
    if pre.find.saved_hl is Some && pre.find.saved_hl_line == j {
        pre.find.saved_hl->0@
    } else {
        pre.rows@[j].hl@
    }
}

/// A highlight slice with Match tags spliced over `[rx, rx + m)`.
pub open spec fn splice_match(h: Seq<Highlight>, rx: int, m: int) -> Seq<Highlight> {
    Seq::new(h.len(), |k: int| if rx <= k < rx + m {
        Highlight::Match
    } else {
        h[k]
    })
}

/// A scan only reads the rendered rows, so documents with equal renders scan
/// alike.
proof fn lemma_scan_same_renders(
    a: Seq<ERow>,
    b: Seq<ERow>,
    q: Seq<u8>,
    pos: int,
    dir: int,
    fuel: nat,
)
    requires
        a.len() == b.len(),
        a.len() >= 1,
        0 <= pos < a.len(),
        dir == 1 || dir == -1,
        forall|j: int| 0 <= j < a.len() ==> (#[trigger] a[j]).render@ == b[j].render@,
    ensures
        scan_from(a, q, pos, dir, fuel) == scan_from(b, q, pos, dir, fuel),
    decreases fuel,
{
    if fuel > 0 {
        let next = wrap_next(pos, dir, a.len() as int);
        lemma_wrap_next_bounds(pos, dir, a.len() as int);
        lemma_scan_same_renders(a, b, q, next, dir, (fuel - 1) as nat);
    }
}

/// Splices Match tags over `[rx, rx + qlen)` of one row's highlight,
/// leaving everything else in the session untouched.
fn splice_hl(e: &mut EditorConfig, row: usize, rx: usize, qlen: usize)
    requires
        row < old(e).rows@.len(),
        rx + qlen <= old(e).rows@[row as int].hl@.len(),
        old(e).rows@[row as int].hl@.len() <= usize::MAX,
    ensures
        final(e).rows@.len() == old(e).rows@.len(),
        forall|j: int|
            0 <= j < old(e).rows@.len() && j != row ==> (#[trigger] final(e).rows@[j]) == old(
                e,
            ).rows@[j],
        final(e).rows@[row as int].chars == old(e).rows@[row as int].chars,
        final(e).rows@[row as int].render == old(e).rows@[row as int].render,
        final(e).rows@[row as int].hl@ == splice_match(
            old(e).rows@[row as int].hl@,
            rx as int,
            qlen as int,
        ),
        same_screen(*old(e), *final(e)),
        final(e).cx == old(e).cx && final(e).cy == old(e).cy && final(e).rx == old(e).rx,
        final(e).rowoff == old(e).rowoff && final(e).coloff == old(e).coloff,
        final(e).dirty == old(e).dirty,
        final(e).quit_times == old(e).quit_times,
        final(e).filename == old(e).filename,
        final(e).statusmsg == old(e).statusmsg,
        final(e).statusmsg_time == old(e).statusmsg_time,
        final(e).find == old(e).find,
{
    let ghost pre_hl = old(e).rows@[row as int].hl@;
    let mut k = rx;
    while k < rx + qlen
        invariant
            rx <= k <= rx + qlen,
            rx + qlen <= usize::MAX,
            row < e.rows@.len(),
            rx + qlen <= e.rows@[row as int].hl@.len(),
            e.rows@[row as int].hl@.len() == pre_hl.len(),
            e.screenrows == old(e).screenrows,
            e.screencols == old(e).screencols,
            e.cx == old(e).cx,
            e.cy == old(e).cy,
            e.rx == old(e).rx,
            e.dirty == old(e).dirty,
            e.quit_times == old(e).quit_times,
            e.rowoff == old(e).rowoff,
            e.coloff == old(e).coloff,
            e.filename == old(e).filename,
            e.statusmsg == old(e).statusmsg,
            e.statusmsg_time == old(e).statusmsg_time,
            e.find == old(e).find,
            forall|j: int|
                0 <= j < pre_hl.len() && !(rx <= j < k) ==> (#[trigger] e.rows@[row as int].hl@[j])
                    == pre_hl[j],
            forall|j: int|
                rx <= j < k ==> (#[trigger] e.rows@[row as int].hl@[j]) == Highlight::Match,
            forall|j: int|
                0 <= j < e.rows@.len() && j != row ==> #[trigger] e.rows@[j] == old(e).rows@[j],
            e.rows@[row as int].chars == old(e).rows@[row as int].chars,
            e.rows@[row as int].render == old(e).rows@[row as int].render,
            e.rows@.len() == old(e).rows@.len(),
        decreases rx + qlen - k,
    {
        e.rows[row].hl[k] = Highlight::Match;
        k = k + 1;
    }
    proof {
        assert(e.rows@[row as int].hl@ =~= splice_match(pre_hl, rx as int, qlen as int));
    }
}


/// The state one prompt key leaves the search session in, for keys that do
/// not end it: the search runs with `search_last`/`search_dir`; on a match
/// the cursor jumps to the matched row and the first matched column, the
/// viewport is forced to re-anchor, the matched span is tagged Match and the
/// row's previous highlight saved; on no match only the restore of the saved
/// highlight remains visible.
pub open spec fn find_step_post(
    pre: EditorConfig,
    q: Seq<u8>,
    key: EditorKey,
    post: EditorConfig,
) -> bool {
    let last = search_last(key, pre.find);
    let dir = search_dir(key, pre.find);
    match full_scan(pre.rows@, q, last, dir) {
        Some(r) => {
            &&& (forall|j: int|
                #![trigger post.rows@[j]]
                0 <= j < pre.rows@.len() && j != r ==> post.rows@[j].hl@ == mid_hl(pre, j))
            &&& post.find.last_match == r
            &&& post.find.direction == dir
            &&& post.find.saved_hl_line == r
            &&& post.find.saved_hl is Some
            &&& post.find.saved_hl->0@ == mid_hl(pre, r)
            &&& post.cy == r
            &&& post.rowoff == pre.rows@.len()
            &&& post.cx <= pre.rows@[r].chars@.len()
            &&& exists|rx: int|
                {
                    &&& #[trigger] occurs_at(pre.rows@[r].render@, q, rx)
                    &&& (forall|j: int| 0 <= j < rx ==> !occurs_at(pre.rows@[r].render@, q, j))
                    &&& post.rows@[r].hl@ == splice_match(mid_hl(pre, r), rx, q.len() as int)
                    &&& rx_spec(pre.rows@[r].chars@, post.cx as int) <= rx
                    &&& (post.cx < pre.rows@[r].chars@.len() ==> rx < rx_spec(
                        pre.rows@[r].chars@,
                        post.cx + 1,
                    ))
                }
        },
        None => {
            &&& (forall|j: int|
                #![trigger post.rows@[j]]
                0 <= j < pre.rows@.len() ==> post.rows@[j].hl@ == mid_hl(pre, j))
            &&& post.find.last_match == last
            &&& post.find.direction == dir
            &&& post.find.saved_hl is None
            &&& post.cx == pre.cx && post.cy == pre.cy && post.rowoff == pre.rowoff
        },
    }
}

/// Assembles the post-state predicate of a successful search step from its
/// individual facts.
proof fn lemma_assemble_find_step(
    pre: EditorConfig,
    q: Seq<u8>,
    key: EditorKey,
    post: EditorConfig,
    row: int,
    rx: int,
)
    requires
        full_scan(pre.rows@, q, search_last(key, pre.find), search_dir(key, pre.find)) == Some(
            row,
        ),
        occurs_at(pre.rows@[row].render@, q, rx),
        forall|j: int| 0 <= j < rx ==> !occurs_at(pre.rows@[row].render@, q, j),
        forall|j: int|
            #![trigger post.rows@[j]]
            0 <= j < pre.rows@.len() && j != row ==> post.rows@[j].hl@ == mid_hl(pre, j),
        post.rows@[row].hl@ == splice_match(mid_hl(pre, row), rx, q.len() as int),
        post.find.last_match == row,
        post.find.direction == search_dir(key, pre.find),
        post.find.saved_hl_line == row,
        post.find.saved_hl is Some,
        post.find.saved_hl->0@ == mid_hl(pre, row),
        post.cy == row,
        post.rowoff == pre.rows@.len(),
        post.cx <= pre.rows@[row].chars@.len(),
        rx_spec(pre.rows@[row].chars@, post.cx as int) <= rx,
        post.cx < pre.rows@[row].chars@.len() ==> rx < rx_spec(pre.rows@[row].chars@, post.cx + 1),
    ensures
        find_step_post(pre, q, key, post),
{
}

/// One step of the incremental-search state machine, run after each prompt
/// key. Any saved highlight is restored first. Escape and Return end the
/// session; arrows pick the direction and continue from the last match; any
/// other key restarts a forward search from the top. On a match the cursor
/// jumps there, the viewport is forced to re-anchor, and Match tags are
/// spliced over the matched span after saving that row's highlight.
#[verifier::rlimit(100)]
pub fn editor_find_callback(e: &mut EditorConfig, query: &Vec<u8>, key: &EditorKey)
    requires
        old(e).wf(),
        find_wf(*old(e)),
        old(e).rows@.len() <= isize::MAX,
    ensures
        final(e).wf(),
        find_wf(*final(e)),
        final(e).rows@.len() == old(e).rows@.len(),
        forall|j: int|
            0 <= j < old(e).rows@.len() ==> (#[trigger] final(e).rows@[j]).chars == old(
                e,
            ).rows@[j].chars && final(e).rows@[j].render == old(e).rows@[j].render,
        final(e).dirty == old(e).dirty,
        final(e).filename == old(e).filename,
        final(e).statusmsg == old(e).statusmsg,
        final(e).statusmsg_time == old(e).statusmsg_time,
        final(e).quit_times == old(e).quit_times,
        final(e).rx == old(e).rx,
        final(e).coloff == old(e).coloff,
        is_end_key(*key) ==> {
            &&& (forall|j: int|
                0 <= j < old(e).rows@.len() ==> (#[trigger] final(e).rows@[j]).hl@ == mid_hl(
                    *old(e),
                    j,
                ))
            &&& final(e).find.last_match == -1
            &&& final(e).find.direction == 1
            &&& final(e).find.saved_hl is None
            &&& final(e).cx == old(e).cx && final(e).cy == old(e).cy && final(e).rowoff == old(
                e,
            ).rowoff
        },
        !is_end_key(*key) ==> find_step_post(*old(e), query@, *key, *final(e)),
        same_screen(*old(e), *final(e)),
{
    let mut restored: Option<Vec<Highlight>> = None;
    match &e.find.saved_hl {
        Some(h) => {
            restored = Some(slice_to_vec(h.as_slice()));
        },
        None => {},
    }
    match restored {
        Some(h) => {
            let line = e.find.saved_hl_line;
            e.rows[line].hl = h;
            e.find.saved_hl = None;
        },
        None => {},
    }
    let ghost mid = e.rows@;
    proof {
        assert(mid.len() == old(e).rows@.len());
        assert forall|j: int| 0 <= j < mid.len() implies (#[trigger] mid[j]).chars == old(
            e,
        ).rows@[j].chars && mid[j].render == old(e).rows@[j].render && mid[j].hl@ == mid_hl(
            *old(e),
            j,
        ) && mid[j].hl_clean() && mid[j].wf() by {
            if old(e).find.saved_hl is Some && old(e).find.saved_hl_line == j {
                assert(mid[j].hl@ == old(e).find.saved_hl->0@);
            } else {
                assert(mid[j] == old(e).rows@[j]);
            }
        }
    }
    match *key {
        EditorKey::Escape | EditorKey::Return => {
            e.find.last_match = -1;
            e.find.direction = 1;
            return ;
        },
        EditorKey::ArrowLeft | EditorKey::ArrowUp => {
            e.find.direction = -1;
        },
        EditorKey::ArrowDown | EditorKey::ArrowRight => {
            e.find.direction = 1;
        },
        _ => {
            e.find.last_match = -1;
            e.find.direction = 1;
        },
    }
    if e.find.last_match == -1 {
        e.find.direction = 1;
    }
    proof {
        assert(e.find.last_match == search_last(*key, old(e).find));
        assert(e.find.direction == search_dir(*key, old(e).find));
        if e.rows@.len() >= 1 {
            lemma_scan_same_renders(
                old(e).rows@,
                mid,
                query@,
                scan_start(e.find.last_match, mid.len() as int),
                e.find.direction as int,
                mid.len() as nat,
            );
        }
    }
    match find_next_match(&e.rows, query, e.find.last_match, e.find.direction) {
        None => {
            proof {
                let pre = *old(e);
                let last = search_last(*key, pre.find);
                let dir = search_dir(*key, pre.find);
                assert(full_scan(pre.rows@, query@, last, dir) is None);
                assert forall|j: int|
                    #![trigger e.rows@[j]]
                    0 <= j < pre.rows@.len() implies e.rows@[j].hl@ == mid_hl(pre, j) by {
                    assert(e.rows@[j] == mid[j]);
                }
                assert(find_step_post(pre, query@, *key, *e));
            }
        },
        Some((row, rx)) => {
            e.find.last_match = row as isize;
            e.cy = row;
            let cx = crate::row::editor_row_rx_to_cx(&e.rows[row], rx);
            e.cx = cx;
            e.rowoff = e.rows.len();
            e.find.saved_hl_line = row;
            e.find.saved_hl = Some(slice_to_vec(e.rows[row].hl.as_slice()));
            let qlen = query.len();
            proof {
                vstd::std_specs::vec::axiom_spec_len(&e.rows@[row as int].hl);
            }
            let ghost pre_splice = *e;
            splice_hl(e, row, rx, qlen);
            proof {
                let pre = *old(e);
                let last = search_last(*key, pre.find);
                let dir = search_dir(*key, pre.find);
                assert(full_scan(pre.rows@, query@, last, dir) == Some(row as int));
                assert(occurs_at(pre.rows@[row as int].render@, query@, rx as int));
                assert(forall|j: int|
                    0 <= j < rx ==> !occurs_at(pre.rows@[row as int].render@, query@, j));
                assert(e.rows@[row as int].hl@ == splice_match(
                    mid_hl(pre, row as int),
                    rx as int,
                    query@.len() as int,
                ));
                assert forall|j: int|
                    #![trigger e.rows@[j]]
                    0 <= j < pre.rows@.len() && j != row implies e.rows@[j].hl@ == mid_hl(
                    pre,
                    j,
                ) by {
                    assert(e.rows@[j] == pre_splice.rows@[j]);
                    assert(pre_splice.rows@[j] == mid[j]);
                }
                assert(e.find.last_match == row as isize);
                assert(e.find.direction == dir);
                assert(e.find.saved_hl_line == row);
                assert(e.find.saved_hl is Some);
                assert(e.find.saved_hl->0@ == mid_hl(pre, row as int));
                assert(e.cy == row);
                assert(e.rowoff == pre.rows@.len());
                assert(e.cx <= pre.rows@[row as int].chars@.len());
                assert(rx_spec(pre.rows@[row as int].chars@, e.cx as int) <= rx);
                assert(e.cx < pre.rows@[row as int].chars@.len() ==> rx < rx_spec(
                    pre.rows@[row as int].chars@,
                    e.cx + 1,
                ));
                lemma_assemble_find_step(pre, query@, *key, *e, row as int, rx as int);
            }
            proof {
                assert(e.rows@[row as int].hl@ == splice_match(
                    mid[row as int].hl@,
                    rx as int,
                    qlen as int,
                ));
                assert forall|j: int|
                    0 <= j < e.rows@.len() && j != row implies (#[trigger] e.rows@[j]) == mid[j] by {
                    assert(e.rows@[j] == pre_splice.rows@[j]);
                }
            }
        },
    }
}


/// The cursor and scroll positions captured when a search session opens,
/// restored if the session is cancelled.
pub struct FindSaved {
    pub cx: usize,
    pub cy: usize,
    pub rowoff: usize,
    pub coloff: usize,
}

/// Opens a search session: captures the cursor and scroll positions so a
/// cancelled search can put them back. With no search in flight and no stray
/// Match tags, the session invariant holds.
pub fn editor_find_begin(e: &EditorConfig) -> (s: FindSaved)
    requires
        e.wf(),
        e.find_at_rest(),
        crate::editor::rows_clean(*e),
    ensures
        s.cx == e.cx && s.cy == e.cy && s.rowoff == e.rowoff && s.coloff == e.coloff,
        find_wf(*e),
{
    FindSaved { cx: e.cx, cy: e.cy, rowoff: e.rowoff, coloff: e.coloff }
}

/// Feeds one key to an interactive search session: the prompt line collects
/// the query, the search callback runs after the key, and a cancelled
/// session puts the cursor and scroll positions back where `editor_find_begin`
/// captured them.
pub fn editor_find(
    e: &mut EditorConfig,
    saved: &FindSaved,
    buf: &mut Vec<u8>,
    key: &EditorKey,
    now: u64,
) -> (r: crate::input::PromptResult)
    requires
        old(e).wf(),
        find_wf(*old(e)),
        old(e).rows@.len() <= isize::MAX,
        saved.cy <= old(e).rows@.len(),
        saved.cy < old(e).rows@.len() ==> saved.cx <= old(e).rows@[saved.cy as int].chars@.len(),
        saved.cy == old(e).rows@.len() ==> saved.cx == 0,
    ensures
        final(e).wf(),
        find_wf(*final(e)),
        final(buf)@ == crate::input::prompt_buf_spec(*key, old(buf)@),
        r == crate::input::prompt_result_spec(*key, old(buf)@),
        final(e).statusmsg_time == now,
        r == crate::input::PromptResult::Pending ==> final(e).statusmsg@
            == "Search (Use ESC/Arrows/Enter): ".spec_bytes() + final(buf)@,
        r != crate::input::PromptResult::Pending ==> final(e).statusmsg@.len() == 0,
        final(e).dirty == old(e).dirty,
        final(e).filename == old(e).filename,
        final(e).quit_times == old(e).quit_times,
        final(e).rows@.len() == old(e).rows@.len(),
        forall|j: int|
            #![trigger final(e).rows@[j]]
            0 <= j < old(e).rows@.len() ==> final(e).rows@[j].chars == old(e).rows@[j].chars
                && final(e).rows@[j].render == old(e).rows@[j].render,
        same_screen(*old(e), *final(e)),
        r == crate::input::PromptResult::Cancelled ==> final(e).cx == saved.cx && final(e).cy
            == saved.cy && final(e).rowoff == saved.rowoff && final(e).coloff == saved.coloff
            && final(e).find_at_rest() && crate::editor::rows_clean(*final(e)),
        r != crate::input::PromptResult::Cancelled ==> {
            &&& final(e).rx == old(e).rx
            &&& final(e).coloff == old(e).coloff
            &&& (is_end_key(*key) ==> final(e).find_at_rest() && crate::editor::rows_clean(
                *final(e),
            ) && final(e).cx == old(e).cx && final(e).cy == old(e).cy && final(e).rowoff == old(
                e,
            ).rowoff)
            &&& (!is_end_key(*key) ==> find_step_post(*old(e), final(buf)@, *key, *final(e)))
        },
{
    let prompt = crate::text::lit_bytes("Search (Use ESC/Arrows/Enter): ");
    let r = crate::input::editor_prompt(
        e,
        &prompt,
        buf,
        key,
        crate::input::PromptCallback::FindCallback,
        now,
    );
    proof {
        if is_end_key(*key) {
            assert forall|j: int|
                0 <= j < e.rows@.len() implies (#[trigger] e.rows@[j]).hl_clean() by {
                assert(e.rows@[j].hl@ == mid_hl(*old(e), j));
                if old(e).find.saved_hl is Some && old(e).find.saved_hl_line == j {
                    assert(e.rows@[j].render == old(e).rows@[j].render);
                } else {
                    assert(old(e).rows@[j].hl_clean());
                }
            }
        }
    }
    if r == crate::input::PromptResult::Cancelled {
        e.cx = saved.cx;
        e.cy = saved.cy;
        e.rowoff = saved.rowoff;
        e.coloff = saved.coloff;
    }
    r
}

} // verus!
