//! The interactive view state over a fixed diagnostic collection: an optional
//! focus, a per-record expansion flag, the navigation operations, and the
//! computation of the frame that a terminal front end draws.
//!
//! Expansion is a forced set: the expand operation sets the focused record
//! expanded, the collapse operation sets it collapsed, neither toggles, so
//! the outcome never depends on the call history.
use vstd::prelude::*;

use crate::diagnostics::{Level, Record, RecordModel};

verus! {

/// A display category for a severity: alerts are drawn in the error colour,
/// cautions in the warning colour, everything else neutrally.
#[derive(Clone, Copy, Debug, PartialEq, Eq, Structural)]
pub enum DisplayClass {
    Alert,
    Caution,
    Neutral,
}

/// The display class of a severity.
pub open spec fn spec_display_class(level: Level) -> DisplayClass {
    match level {
        Level::Error | Level::InternalCompilerError => DisplayClass::Alert,
        Level::Warning => DisplayClass::Caution,
        _ => DisplayClass::Neutral,
    }
}

/// Maps a severity to its display class: errors and internal compiler errors
/// to the alert class, warnings to the caution class, everything else to the
/// neutral class.
pub fn display_class(level: Level) -> (c: DisplayClass)
    ensures
        c == spec_display_class(level),
{
    match level {
        Level::Error | Level::InternalCompilerError => DisplayClass::Alert,
        Level::Warning => DisplayClass::Caution,
        _ => DisplayClass::Neutral,
    }
}

/// A discrete input event, as the terminal front end classifies it.
#[derive(Clone, Copy, Debug, PartialEq, Eq, Structural)]
pub enum InputEvent {
    Up,
    Down,
    Left,
    Right,
    Quit,
    Other,
}

/// One line of a rendered frame.
#[derive(Debug, PartialEq)]
pub enum FrameLine {
    /// The blank separator emitted before each record.
    Separator,
    /// A record's summary line, with its display class, always bold, and
    /// underlined exactly when the record is focused.
    Summary { text: String, class: DisplayClass, focused: bool },
    /// One detail line of an expanded record, indented, verbatim, un-styled.
    Detail { text: String },
}

/// The mathematical value of a frame line.
pub enum FrameLineModel {
    Separator,
    Summary { text: Seq<char>, class: DisplayClass, focused: bool },
    Detail { text: Seq<char> },
}

impl View for FrameLine {
    type V = FrameLineModel;

    open spec fn view(&self) -> FrameLineModel {
        match self {
            FrameLine::Separator => FrameLineModel::Separator,
            FrameLine::Summary { text, class, focused } => FrameLineModel::Summary {
                text: text@,
                class: *class,
                focused: *focused,
            },
            FrameLine::Detail { text } => FrameLineModel::Detail { text: text@ },
        }
    }
}

/// The focus after one step forward: the first record from no focus, else the
/// next one, wrapping from the last back to the first; unchanged when the
/// collection is empty.
pub open spec fn next_focus(f: Option<usize>, n: int) -> Option<usize> {
    if n == 0 {
        f
    } else {
        match f {
            None => Some(0usize),
            Some(i) => if i + 1 < n {
                Some((i + 1) as usize)
            } else {
                Some(0usize)
            },
        }
    }
}

/// The focus after one step backward: the last record from no focus, else the
/// previous one, wrapping from the first back to the last; unchanged when the
/// collection is empty.
pub open spec fn prev_focus(f: Option<usize>, n: int) -> Option<usize> {
    if n == 0 {
        f
    } else {
        match f {
            None => Some((n - 1) as usize),
            Some(i) => if i == 0 {
                Some((n - 1) as usize)
            } else {
                Some((i - 1) as usize)
            },
        }
    }
}

/// The expansion flags after setting the focused record to `value`: unchanged
/// without a focus, or with one out of range.
pub open spec fn set_expanded(e: Seq<bool>, f: Option<usize>, value: bool) -> Seq<bool> {
    match f {
        None => e,
        Some(i) => if i < e.len() {
            e.update(i as int, value)
        } else {
            e
        },
    }
}

/// The frame lines of one record: a separator, the styled summary, and, when
/// the record is expanded, its detail lines.
pub open spec fn record_frame(r: RecordModel, focused: bool, expanded: bool) -> Seq<
    FrameLineModel,
> {
    seq![
        FrameLineModel::Separator,
        FrameLineModel::Summary {
            text: r.summary,
            class: spec_display_class(r.level),
            focused,
        },
    ] + if expanded {
        r.detail_lines.map_values(|l: Seq<char>| FrameLineModel::Detail { text: l })
    } else {
        Seq::<FrameLineModel>::empty()
    }
}

/// The frame of the first `n` records.
pub open spec fn frame_upto(
    records: Seq<RecordModel>,
    focused: Option<usize>,
    expanded: Seq<bool>,
    n: int,
) -> Seq<FrameLineModel>
    decreases n,
{
    if n <= 0 {
        seq![]
    } else {
        frame_upto(records, focused, expanded, n - 1) + record_frame(
            records[n - 1],
            focused == Some((n - 1) as usize),
            expanded[n - 1],
        )
    }
}

/// The full frame: every record in order, rendered by `record_frame`.
pub open spec fn spec_frame(
    records: Seq<RecordModel>,
    focused: Option<usize>,
    expanded: Seq<bool>,
) -> Seq<FrameLineModel> {
    frame_upto(records, focused, expanded, records.len() as int)
}

/// The focus after `k` forward steps.
pub open spec fn iterate_next(f: Option<usize>, n: int, k: nat) -> Option<usize>
    decreases k,
{
    if k == 0 {
        f
    } else {
        next_focus(iterate_next(f, n, (k - 1) as nat), n)
    }
}

/// Law: starting with no focus, the forward steps visit every record in
/// order — after `k + 1` steps the focus is on record `k`, for each of the
/// `n` records, so each is visited exactly once over the first `n` steps.
pub proof fn lemma_focus_next_visits_all(n: int, k: int)
    requires
        0 < n <= usize::MAX,
        0 <= k < n,
    ensures
        iterate_next(None, n, (k + 1) as nat) == Some(k as usize),
    decreases k,
{
    if k == 0 {
        assert(iterate_next(None, n, 0nat) == None::<usize>);
        assert(iterate_next(None, n, 1nat) == next_focus(None, n));
    } else {
        lemma_focus_next_visits_all(n, k - 1);
        assert(iterate_next(None, n, (k + 1) as nat) == next_focus(
            iterate_next(None, n, k as nat),
            n,
        ));
    }
}

/// Law: one more forward step after visiting every record wraps the focus
/// back to the first record — the cycle closes.
pub proof fn lemma_focus_next_cycles(n: int)
    requires
        0 < n <= usize::MAX,
    ensures
        iterate_next(None, n, (n + 1) as nat) == Some(0usize),
{
    lemma_focus_next_visits_all(n, n - 1);
}

/// Law: a backward step undoes a forward step from any focused position, and
/// a forward step undoes a backward step. (From no focus the two do not
/// invert each other: both land on a record.)
pub proof fn lemma_prev_undoes_next(i: usize, n: int)
    requires
        0 < n <= usize::MAX,
        i < n,
    ensures
        prev_focus(next_focus(Some(i), n), n) == Some(i),
        next_focus(prev_focus(Some(i), n), n) == Some(i),
{
}

/// Law: with no records, neither navigation step changes the focus.
pub proof fn lemma_empty_navigation_is_noop(f: Option<usize>)
    ensures
        next_focus(f, 0) == f,
        prev_focus(f, 0) == f,
{
}

/// Law: collapsing a record right after expanding it restores the collapsed
/// state, and no other record's expansion is touched by either step.
pub proof fn lemma_collapse_undoes_expand(e: Seq<bool>, i: usize)
    requires
        i < e.len(),
    ensures
        set_expanded(set_expanded(e, Some(i), true), Some(i), false)[i as int] == false,
        forall|j: int|
            0 <= j < e.len() && j != i ==> set_expanded(set_expanded(e, Some(i), true), Some(i), false)[j]
                == e[j],
{
}

/// The view controller: the diagnostic collection, the optional focus, and
/// the per-record expansion flags. The collection is fixed for the whole
/// session; only the view state changes.
pub struct Renderer {
    diagnostics: Vec<Record>,
    focused: Option<usize>,
    expanded: Vec<bool>,
}

impl Renderer {
    /// The records of the collection.
    pub closed spec fn records(&self) -> Seq<RecordModel> {
        self.diagnostics@.map_values(|r: Record| r@)
    }

    /// The current focus.
    pub closed spec fn focus(&self) -> Option<usize> {
        self.focused
    }

    /// The expansion flag of each record.
    pub closed spec fn expansion(&self) -> Seq<bool> {
        self.expanded@
    }

    /// Well-formedness: one expansion flag per record, and the focus, when
    /// present, indexes a record.
    pub open spec fn wf(&self) -> bool {
        &&& self.expansion().len() == self.records().len()
        &&& match self.focus() {
            Some(i) => i < self.records().len(),
            None => true,
        }
    }

    /// Creates the view state over a collection: no focus, every record
    /// collapsed.
    pub fn new(diagnostics: Vec<Record>) -> (r: Renderer)
        ensures
            r.wf(),
            r.records() == diagnostics@.map_values(|rec: Record| rec@),
            r.focus() is None,
            r.expansion() == Seq::new(diagnostics@.len(), |i: int| false),
    {
        let n = diagnostics.len();
        let mut expanded: Vec<bool> = Vec::new();
        let mut i: usize = 0;
        while i < n
            invariant
                0 <= i <= n,
                expanded@.len() == i,
                forall|j: int| 0 <= j < i ==> !expanded@[j],
            decreases n - i,
        {
            expanded.push(false);
            i = i + 1;
        }
        proof {
            assert(expanded@ =~= Seq::new(diagnostics@.len(), |j: int| false));
        }
        Renderer { diagnostics, focused: None, expanded }
    }

    /// The number of records.
    pub fn len(&self) -> (n: usize)
        ensures
            n == self.records().len(),
    {
        self.diagnostics.len()
    }

    /// The record at `i`.
    pub fn get(&self, i: usize) -> (r: &Record)
        requires
            i < self.records().len(),
        ensures
            r@ == self.records()[i as int],
    {
        &self.diagnostics[i]
    }

    /// The current focus.
    pub fn focused(&self) -> (f: Option<usize>)
        ensures
            f == self.focus(),
    {
        self.focused
    }

    /// Whether the record at `i` is expanded; a record never touched is
    /// collapsed.
    pub fn is_expanded(&self, i: usize) -> (b: bool)
        requires
            i < self.expansion().len(),
        ensures
            b == self.expansion()[i as int],
    {
        self.expanded[i]
    }

    /// Moves the focus one record forward, wrapping from the last record to
    /// the first; with no records this is a no-op.
    pub fn focus_next(&mut self)
        ensures
            final(self).records() == old(self).records(),
            final(self).expansion() == old(self).expansion(),
            final(self).focus() == next_focus(old(self).focus(), old(self).records().len() as int),
            old(self).wf() ==> final(self).wf(),
    {
        let n = self.diagnostics.len();
        if n == 0 {
            return ;
        }
        self.focused = match self.focused {
            None => Some(0),
            Some(i) => if i < n - 1 {
                Some(i + 1)
            } else {
                Some(0)
            },
        };
    }

    /// Moves the focus one record backward, wrapping from the first record to
    /// the last; with no records this is a no-op.
    pub fn focus_prev(&mut self)
        ensures
            final(self).records() == old(self).records(),
            final(self).expansion() == old(self).expansion(),
            final(self).focus() == prev_focus(old(self).focus(), old(self).records().len() as int),
            old(self).wf() ==> final(self).wf(),
    {
        let n = self.diagnostics.len();
        if n == 0 {
            return ;
        }
        self.focused = match self.focused {
            None => Some(n - 1),
            Some(i) => if i == 0 {
                Some(n - 1)
            } else {
                Some(i - 1)
            },
        };
    }

    /// Expands the focused record; without a focus this is a no-op, and no
    /// other record is affected.
    pub fn expand_current(&mut self)
        ensures
            final(self).records() == old(self).records(),
            final(self).focus() == old(self).focus(),
            final(self).expansion() == set_expanded(
                old(self).expansion(),
                old(self).focus(),
                true,
            ),
            old(self).wf() ==> final(self).wf(),
    {
        if let Some(i) = self.focused {
            if i < self.expanded.len() {
                self.expanded[i] = true;
            }
        }
    }

    /// Collapses the focused record; without a focus this is a no-op, and no
    /// other record is affected.
    pub fn collapse_current(&mut self)
        ensures
            final(self).records() == old(self).records(),
            final(self).focus() == old(self).focus(),
            final(self).expansion() == set_expanded(
                old(self).expansion(),
                old(self).focus(),
                false,
            ),
            old(self).wf() ==> final(self).wf(),
    {
        if let Some(i) = self.focused {
            if i < self.expanded.len() {
                self.expanded[i] = false;
            }
        }
    }

    /// Applies one input event: arrows move the focus and set or clear the
    /// focused record's expansion, quit asks to end the session, anything
    /// else changes nothing. Returns whether the session should end.
    pub fn handle_event(&mut self, ev: InputEvent) -> (quit: bool)
        ensures
            quit == (ev == InputEvent::Quit),
            final(self).records() == old(self).records(),
            final(self).focus() == match ev {
                InputEvent::Down => next_focus(
                    old(self).focus(),
                    old(self).records().len() as int,
                ),
                InputEvent::Up => prev_focus(old(self).focus(), old(self).records().len() as int),
                _ => old(self).focus(),
            },
            final(self).expansion() == match ev {
                InputEvent::Right => set_expanded(old(self).expansion(), old(self).focus(), true),
                InputEvent::Left => set_expanded(old(self).expansion(), old(self).focus(), false),
                _ => old(self).expansion(),
            },
            old(self).wf() ==> final(self).wf(),
    {
        match ev {
            InputEvent::Up => {
                self.focus_prev();
                false
            },
            InputEvent::Down => {
                self.focus_next();
                false
            },
            InputEvent::Left => {
                self.collapse_current();
                false
            },
            InputEvent::Right => {
                self.expand_current();
                false
            },
            InputEvent::Quit => true,
            InputEvent::Other => false,
        }
    }

    /// Computes the frame to draw: for each record in order a separator and
    /// its styled summary, and, when the record is expanded, its detail
    /// lines, indented and verbatim.
    pub fn render_lines(&self) -> (r: Vec<FrameLine>)
        requires
            self.wf(),
        ensures
            r@.map_values(|l: FrameLine| l@) == spec_frame(
                self.records(),
                self.focus(),
                self.expansion(),
            ),
    {
        let n = self.diagnostics.len();
        let mut out: Vec<FrameLine> = Vec::new();
        let mut i: usize = 0;
        proof {
            assert(out@.map_values(|l: FrameLine| l@) =~= frame_upto(
                self.records(),
                self.focus(),
                self.expansion(),
                0,
            ));
        }
        while i < n
            invariant
                0 <= i <= n,
                self.wf(),
                n == self.records().len(),
                out@.map_values(|l: FrameLine| l@) == frame_upto(
                    self.records(),
                    self.focus(),
                    self.expansion(),
                    i as int,
                ),
            decreases n - i,
        {
            let ghost before = out@.map_values(|l: FrameLine| l@);
            let rec = &self.diagnostics[i];
            let is_focused = match self.focused {
                Some(x) => x == i,
                None => false,
            };
            let is_expanded = self.expanded[i];
            proof {
                assert(rec@ == self.records()[i as int]);
                assert(is_focused == (self.focus() == Some(i)));
            }
            let summary = FrameLine::Summary {
                text: rec.summary.clone(),
                class: display_class(rec.level),
                focused: is_focused,
            };
            proof {
                assert(out@.push(FrameLine::Separator).push(summary).map_values(
                    |l: FrameLine| l@,
                ) =~= before + seq![FrameLineModel::Separator, summary@]);
            }
            out.push(FrameLine::Separator);
            out.push(summary);
            let ghost dm = rec@.detail_lines;
            let ghost head = out@.map_values(|l: FrameLine| l@);
            if is_expanded {
                let details = &rec.detail_lines;
                let m = details.len();
                let mut k: usize = 0;
                proof {
                    assert(head + dm.subrange(0, 0).map_values(
                        |l: Seq<char>| FrameLineModel::Detail { text: l },
                    ) =~= head);
                }
                while k < m
                    invariant
                        0 <= k <= m,
                        m == details@.len(),
                        dm == details@.map_values(|l: String| l@),
                        out@.map_values(|l: FrameLine| l@) == head + dm.subrange(0, k as int)
                            .map_values(|l: Seq<char>| FrameLineModel::Detail { text: l }),
                    decreases m - k,
                {
                    let dl = FrameLine::Detail { text: details[k].clone() };
                    proof {
                        let f = |l: Seq<char>| FrameLineModel::Detail { text: l };
                        assert(out@.push(dl).map_values(|l: FrameLine| l@) =~= out@.map_values(
                            |l: FrameLine| l@,
                        ).push(dl@));
                        assert(dm.subrange(0, k as int).map_values(f).push(f(dm[k as int])) =~= dm
                            .subrange(0, k + 1).map_values(f));
                    }
                    out.push(dl);
                    k = k + 1;
                }
                proof {
                    assert(dm.subrange(0, m as int) =~= dm);
                    assert(record_frame(rec@, is_focused, true) =~= seq![
                        FrameLineModel::Separator,
                        summary@,
                    ] + dm.map_values(|l: Seq<char>| FrameLineModel::Detail { text: l }));
                    assert(out@.map_values(|l: FrameLine| l@) =~= before + record_frame(
                        rec@,
                        is_focused,
                        true,
                    ));
                }
            } else {
                proof {
                    assert(record_frame(rec@, is_focused, false) =~= seq![
                        FrameLineModel::Separator,
                        summary@,
                    ]);
                    assert(out@.map_values(|l: FrameLine| l@) =~= before + record_frame(
                        rec@,
                        is_focused,
                        false,
                    ));
                }
            }
            proof {
                assert(self.expansion()[i as int] == is_expanded);
                assert(frame_upto(self.records(), self.focus(), self.expansion(), i + 1)
                    == frame_upto(self.records(), self.focus(), self.expansion(), i as int)
                    + record_frame(
                    self.records()[i as int],
                    self.focus() == Some(i),
                    self.expansion()[i as int],
                ));
            }
            i = i + 1;
        }
        out
    }
}

} // verus!
