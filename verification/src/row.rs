//! One row of the document: the raw text, its tab-expanded render cache, and
//! the per-render-byte highlight tags, together with the column conversions
//! between character space and rendered space.
use vstd::prelude::*;

verus! {

/// Tabs advance the rendered column to the next multiple of this stop.
pub const BYOTE_TAB_STOP: usize = 8;

/// The tab byte.
pub const TAB: u8 = 9;

/// A highlight tag for one byte of a row's render cache.
#[derive(Clone, Copy, PartialEq, Eq, Structural, Debug)]
pub enum Highlight {
    Normal,
    Number,
    Match,
}

/// One document row. `render` is always the tab expansion of `chars`, and
/// `hl` tags every byte of `render`.
pub struct ERow {
    pub chars: Vec<u8>,
    pub render: Vec<u8>,
    pub hl: Vec<Highlight>,
}

/// What one character contributes to the render: a tab at rendered column
/// `pos` becomes spaces up to the next multiple of the tab stop; anything
/// else stands for itself.
pub open spec fn expand_spec(c: u8, pos: int) -> Seq<u8> {
    if c == TAB {
        Seq::new((BYOTE_TAB_STOP - pos % (BYOTE_TAB_STOP as int)) as nat, |i: int| 32u8)
    } else {
        seq![c]
    }
}

/// The tab-expanded display form of a row's text.
pub open spec fn render_spec(s: Seq<u8>) -> Seq<u8>
    decreases s.len(),
{
    if s.len() == 0 {
        Seq::empty()
    } else {
        let prefix = render_spec(s.drop_last());
        prefix + expand_spec(s.last(), prefix.len() as int)
    }
}

/// The rendered column of character column `cx`: the rendered length of the
/// first `cx` characters.
pub open spec fn rx_spec(s: Seq<u8>, cx: int) -> int {
    render_spec(s.take(cx)).len() as int
}

pub open spec fn is_ascii_digit(c: u8) -> bool {
    48 <= c <= 57
}

/// The persistent highlight of one rendered byte: digits are tagged Number,
/// everything else Normal. Match tags are only ever applied transiently by
/// the search engine.
pub open spec fn syntax_spec(c: u8) -> Highlight {
    if is_ascii_digit(c) {
        Highlight::Number
    } else {
        Highlight::Normal
    }
}

/// The persistent highlight of a whole render cache.
pub open spec fn hl_spec(render: Seq<u8>) -> Seq<Highlight> {
    render.map_values(|c: u8| syntax_spec(c))
}

/// The colour code a highlight tag selects.
pub open spec fn syntax_color_spec(hl: Highlight) -> u8 {
    match hl {
        Highlight::Number => 31,
        Highlight::Match => 34,
        Highlight::Normal => 37,
    }
}

impl ERow {
    /// The caches are in step with the text: `render` is the tab expansion of
    /// `chars`, and `hl` tags each rendered byte either with its syntax tag
    /// or with a transient Match tag.
    pub open spec fn wf(self) -> bool {
        &&& self.render@ == render_spec(self.chars@)
        &&& self.hl@.len() == self.render@.len()
        &&& forall|i: int|
            0 <= i < self.hl@.len() ==> (#[trigger] self.hl@[i] == syntax_spec(self.render@[i])
                || self.hl@[i] == Highlight::Match)
    }

    /// No transient Match tags: the highlight is exactly the syntax tags.
    pub open spec fn hl_clean(self) -> bool {
        self.hl@ == hl_spec(self.render@)
    }
}

/// Length of a row's highlight always equals the length of its render cache.
pub proof fn lemma_hl_len_matches_render(r: ERow)
    requires
        r.wf(),
    ensures
        r.hl@.len() == r.render@.len(),
{
}

/// Taking a prefix commutes with dropping the last character.
proof fn lemma_take_drop_last(s: Seq<u8>, i: int)
    requires
        0 <= i < s.len(),
    ensures
        s.take(i + 1).drop_last() =~= s.take(i),
        s.take(i + 1).last() == s[i],
{
}

/// The render of a prefix never outgrows the render of the whole row.
pub proof fn lemma_render_prefix_len(s: Seq<u8>, i: int)
    requires
        0 <= i <= s.len(),
    ensures
        render_spec(s.take(i)).len() <= render_spec(s).len(),
    decreases s.len() - i,
{
    if i == s.len() {
        assert(s.take(i) =~= s);
    } else {
        lemma_take_drop_last(s, i);
        assert(render_spec(s.take(i + 1)) == render_spec(s.take(i)) + expand_spec(
            s[i],
            render_spec(s.take(i)).len() as int,
        ));
        lemma_render_prefix_len(s, i + 1);
    }
}

/// Rendered columns grow by at least one per character.
pub proof fn lemma_rx_step(s: Seq<u8>, i: int)
    requires
        0 <= i < s.len(),
    ensures
        rx_spec(s, i + 1) == rx_spec(s, i) + expand_spec(s[i], rx_spec(s, i)).len(),
        rx_spec(s, i) < rx_spec(s, i + 1),
{
    lemma_take_drop_last(s, i);
    assert(render_spec(s.take(i + 1)) == render_spec(s.take(i)) + expand_spec(
        s[i],
        render_spec(s.take(i)).len() as int,
    ));
}

/// Rendered columns are strictly increasing in the character column.
pub proof fn lemma_rx_mono(s: Seq<u8>, i: int, j: int)
    requires
        0 <= i <= j <= s.len(),
    ensures
        rx_spec(s, i) <= rx_spec(s, j),
        i < j ==> rx_spec(s, i) < rx_spec(s, j),
    decreases j - i,
{
    if i < j {
        lemma_rx_step(s, i);
        lemma_rx_mono(s, i + 1, j);
    }
}

/// Converts a character column to its rendered column, clamping the input to
/// the row length. A tab advances to the next multiple of the tab stop,
/// counted in rendered columns accumulated so far.
pub fn editor_row_cx_to_rx(r: &ERow, cx: usize) -> (rx: usize)
    requires
        r.wf(),
    ensures
        rx == rx_spec(r.chars@, if cx <= r.chars@.len() {
            cx as int
        } else {
            r.chars@.len() as int
        }),
{
    let end = if cx <= r.chars.len() {
        cx
    } else {
        r.chars.len()
    };
    let mut rx: usize = 0;
    let mut i: usize = 0;
    proof {
        assert(r.chars@.take(0) =~= Seq::<u8>::empty());
    }
    while i < end
        invariant
            r.wf(),
            i <= end <= r.chars@.len(),
            rx == rx_spec(r.chars@, i as int),
        decreases end - i,
    {
        proof {
            lemma_rx_step(r.chars@, i as int);
            lemma_render_prefix_len(r.chars@, i + 1);
            assert(r.chars@.take(r.chars@.len() as int) =~= r.chars@);
            vstd::std_specs::vec::axiom_spec_len(&r.render);
            assert(rx_spec(r.chars@, i + 1) <= r.render@.len());
        }
        if r.chars[i] == TAB {
            rx = rx + (BYOTE_TAB_STOP - rx % BYOTE_TAB_STOP);
        } else {
            rx = rx + 1;
        }
        i = i + 1;
    }
    rx
}

/// Converts a rendered column back to a character column: the greatest
/// character column whose rendered column does not exceed `rx`. A target at
/// or past the end of the render maps to the row length.
pub fn editor_row_rx_to_cx(r: &ERow, rx: usize) -> (cx: usize)
    requires
        r.wf(),
    ensures
        cx <= r.chars@.len(),
        rx_spec(r.chars@, cx as int) <= rx,
        cx < r.chars@.len() ==> rx < rx_spec(r.chars@, cx + 1),
{
    let mut cur_rx: usize = 0;
    let mut cx: usize = 0;
    proof {
        assert(r.chars@.take(0) =~= Seq::<u8>::empty());
    }
    while cx < r.chars.len()
        invariant
            r.wf(),
            cx <= r.chars@.len(),
            cur_rx == rx_spec(r.chars@, cx as int),
            cur_rx <= rx,
        decreases r.chars@.len() - cx,
    {
        proof {
            lemma_rx_step(r.chars@, cx as int);
            lemma_render_prefix_len(r.chars@, cx + 1);
            assert(r.chars@.take(r.chars@.len() as int) =~= r.chars@);
            vstd::std_specs::vec::axiom_spec_len(&r.render);
            assert(rx_spec(r.chars@, cx + 1) <= r.render@.len());
        }
        let delta = if r.chars[cx] == TAB {
            BYOTE_TAB_STOP - cur_rx % BYOTE_TAB_STOP
        } else {
            1
        };
        if cur_rx + delta > rx {
            return cx;
        }
        cur_rx = cur_rx + delta;
        cx = cx + 1;
    }
    cx
}

/// Round trip: converting a rendered column to a character column and back
/// never overshoots, and is exact whenever the target rendered column falls
/// on a character boundary. `cx` is constrained exactly as the result of
/// `editor_row_rx_to_cx` is.
pub proof fn lemma_rx_cx_round_trip(s: Seq<u8>, rx: int, cx: int)
    requires
        0 <= rx,
        0 <= cx <= s.len(),
        rx_spec(s, cx) <= rx,
        cx < s.len() ==> rx < rx_spec(s, cx + 1),
    ensures
        rx_spec(s, cx) <= rx,
        (exists|cx0: int| 0 <= cx0 <= s.len() && rx_spec(s, cx0) == rx) ==> rx_spec(s, cx) == rx,
{
    if exists|cx0: int| 0 <= cx0 <= s.len() && rx_spec(s, cx0) == rx {
        let cx0 = choose|cx0: int| 0 <= cx0 <= s.len() && rx_spec(s, cx0) == rx;
        if cx0 <= cx {
            lemma_rx_mono(s, cx0, cx);
        } else {
            lemma_rx_mono(s, cx + 1, cx0);
        }
    }
}

/// A render is never shorter than its row text.
pub proof fn lemma_render_at_least_chars(s: Seq<u8>)
    ensures
        render_spec(s).len() >= s.len(),
    decreases s.len(),
{
    if s.len() > 0 {
        lemma_render_at_least_chars(s.drop_last());
    }
}

/// A row without tabs renders as itself.
pub proof fn lemma_render_no_tabs(s: Seq<u8>)
    requires
        forall|i: int| 0 <= i < s.len() ==> s[i] != TAB,
    ensures
        render_spec(s) =~= s,
    decreases s.len(),
{
    if s.len() > 0 {
        lemma_render_no_tabs(s.drop_last());
        assert(render_spec(s) =~= s.drop_last() + seq![s.last()]);
        assert(s.drop_last() + seq![s.last()] =~= s);
    }
}

/// Render and text have equal length exactly when the row has no tabs,
/// provided no tab of the row sits one rendered column short of a tab stop
/// (such a tab expands to a single space and also keeps the lengths equal).
pub proof fn lemma_render_len_equal_iff_no_tabs(s: Seq<u8>)
    requires
        forall|i: int|
            0 <= i < s.len() && s[i] == TAB ==> #[trigger] rx_spec(s, i) % (BYOTE_TAB_STOP as int)
                != (BYOTE_TAB_STOP - 1) as int,
    ensures
        render_spec(s).len() == s.len() <==> (forall|i: int| 0 <= i < s.len() ==> s[i] != TAB),
    decreases s.len(),
{
    if s.len() == 0 {
    } else {
        let n = s.len() as int;
        let d = s.drop_last();
        assert forall|i: int|
            0 <= i < d.len() && d[i] == TAB implies #[trigger] rx_spec(d, i) % (
        BYOTE_TAB_STOP as int) != (BYOTE_TAB_STOP - 1) as int by {
            assert(d.take(i) =~= s.take(i));
            assert(rx_spec(d, i) == rx_spec(s, i));
            assert(d[i] == s[i]);
            assert(rx_spec(s, i) % (BYOTE_TAB_STOP as int) != (BYOTE_TAB_STOP - 1) as int);
        }
        lemma_render_len_equal_iff_no_tabs(d);
        lemma_render_at_least_chars(d);
        assert(s.take(n - 1) =~= d);
        if render_spec(s).len() == s.len() {
            assert(render_spec(d).len() == d.len());
            if s.last() == TAB {
                assert(rx_spec(s, n - 1) == render_spec(d).len());
                assert(expand_spec(s.last(), render_spec(d).len() as int).len() == 1);
                assert((BYOTE_TAB_STOP as int) - (render_spec(d).len() as int) % (
                BYOTE_TAB_STOP as int) == 1);
                assert(false);
            }
            assert forall|i: int| 0 <= i < s.len() implies s[i] != TAB by {
                if i < n - 1 {
                    assert(d[i] != TAB);
                }
            }
        }
        if forall|i: int| 0 <= i < s.len() ==> s[i] != TAB {
            lemma_render_no_tabs(s);
        }
    }
}

/// Rebuilds the persistent highlight of a row from its render cache: digits
/// are tagged Number, everything else Normal.
pub fn editor_update_syntax(row: &mut ERow)
    ensures
        final(row).chars == old(row).chars,
        final(row).render == old(row).render,
        final(row).hl@ == hl_spec(final(row).render@),
{
    let mut hl: Vec<Highlight> = Vec::new();
    let mut i: usize = 0;
    while i < row.render.len()
        invariant
            i <= row.render@.len(),
            hl@ =~= hl_spec(row.render@.take(i as int)),
            row.chars == old(row).chars,
            row.render == old(row).render,
        decreases row.render@.len() - i,
    {
        let c = row.render[i];
        if 48 <= c && c <= 57 {
            hl.push(Highlight::Number);
        } else {
            hl.push(Highlight::Normal);
        }
        proof {
            assert(hl@ =~= hl_spec(row.render@.take(i + 1)));
        }
        i = i + 1;
    }
    proof {
        assert(row.render@.take(row.render@.len() as int) =~= row.render@);
    }
    row.hl = hl;
}

/// Rebuilds a row's render cache (tabs expanded to the next multiple of the
/// tab stop, measured in rendered columns accumulated so far) and then its
/// highlight. Every row mutation ends here, so the caches are never stale.
pub fn editor_update_row(r: &mut ERow)
    ensures
        final(r).chars == old(r).chars,
        final(r).wf(),
        final(r).hl_clean(),
{
    let mut render: Vec<u8> = Vec::new();
    let mut i: usize = 0;
    proof {
        assert(r.chars@.take(0) =~= Seq::<u8>::empty());
    }
    while i < r.chars.len()
        invariant
            i <= r.chars@.len(),
            render@ == render_spec(r.chars@.take(i as int)),
            r.chars == old(r).chars,
        decreases r.chars@.len() - i,
    {
        proof {
            lemma_take_drop_last(r.chars@, i as int);
        }
        let c = r.chars[i];
        if c == TAB {
            let pad = BYOTE_TAB_STOP - render.len() % BYOTE_TAB_STOP;
            let ghost before = render@;
            let mut k: usize = 0;
            while k < pad
                invariant
                    k <= pad,
                    render@ =~= before + Seq::new(k as nat, |j: int| 32u8),
                decreases pad - k,
            {
                render.push(32);
                proof {
                    assert(render@ =~= before + Seq::new((k + 1) as nat, |j: int| 32u8));
                }
                k = k + 1;
            }
            proof {
                assert(render@ =~= render_spec(r.chars@.take(i as int)) + expand_spec(
                    c,
                    before.len() as int,
                ));
            }
        } else {
            render.push(c);
            proof {
                assert(render@ =~= render_spec(r.chars@.take(i as int)) + expand_spec(
                    c,
                    render_spec(r.chars@.take(i as int)).len() as int,
                ));
            }
        }
        i = i + 1;
    }
    proof {
        assert(r.chars@.take(r.chars@.len() as int) =~= r.chars@);
    }
    r.render = render;
    editor_update_syntax(r);
}

/// The colour code for a highlight tag: digits red, search matches blue,
/// plain text white.
pub fn editor_syntax_to_color(hl: &Highlight) -> (c: u8)
    ensures
        c == syntax_color_spec(*hl),
{
    match hl {
        Highlight::Number => 31,
        Highlight::Match => 34,
        Highlight::Normal => 37,
    }
}

} // verus!
