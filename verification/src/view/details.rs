//! The prompt box: the row that names what a launch will do, the header with
//! its toggle, the title and the hints along its border.

use crate::launcher::{
    aimed_project, elsewhere, is_background, name_of, project_name, project_of, BoxField,
};
use crate::layout::{less, min_usize, smaller};
use crate::model::{QuickLaunch, QuickTarget};
use crate::state::{find_worktree, the_project, the_worktree, App};
use crate::text::{char_count, cut, decimal, decimal_text, joined, truncate};
use crate::view::span::{
    bare, bold, columns, display_columns, display_width, inked, lemma_columns_push, line_width,
    narrow_spans, narrow_text, one_column, push_span, repeat, repeated, span, width_of_text, Ink,
    Span, SpanView, Style,
};
use crate::view::strip::capped;
use crate::views::views;
use vstd::prelude::*;

verus! {

/// Shortest a project name is cut to before a whole field is given up instead.
pub const MIN_PROJECT: usize = 8;
/// Shortest a branch is cut to before the project is.
pub const MIN_BRANCH: usize = 12;
/// The gap between two fields, and the one a narrow box falls back to.
pub const DETAIL_GAP: &'static str = "   ·   ";
pub const DETAIL_TIGHT: &'static str = " · ";

/// What the row names, before a tier decides how much of it fits.
#[derive(Debug)]
pub struct Details {
    pub project: String,
    pub branch: String,
    pub harness: String,
    pub model: String,
    /// The branch is the WORKTREE PICKER's button — anything but the head of a
    /// pull request's session.
    pub pickable: bool,
    /// Enter cuts the branch as a fresh worktree first.
    pub fresh: bool,
    /// The box is aimed away from the grid behind it.
    pub background: bool,
}

/// [`Details`] by their texts.
pub struct DetailsView {
    pub project: Seq<char>,
    pub branch: Seq<char>,
    pub harness: Seq<char>,
    pub model: Seq<char>,
    pub pickable: bool,
    pub fresh: bool,
    pub background: bool,
}

impl View for Details {
    type V = DetailsView;

    open spec fn view(&self) -> DetailsView {
        DetailsView {
            project: self.project@,
            branch: self.branch@,
            harness: self.harness@,
            model: self.model@,
            pickable: self.pickable,
            fresh: self.fresh,
            background: self.background,
        }
    }
}

// ---- what a launch is ----

/// The project a launch is aimed at, by name.
pub open spec fn launch_project_text(app: App, launch: QuickLaunch) -> Seq<char> {
    match aimed_project(app, launch.target) {
        Some(id) => match name_of(app, id@) {
            Some(name) => name@,
            None => "(project gone)"@,
        },
        None => "(project gone)"@,
    }
}

/// The PROJECT a launch is aimed at, by name.
pub fn launch_project(app: &App, launch: &QuickLaunch) -> (r: String)
    ensures
        r@ == launch_project_text(*app, *launch),
{
    match project_of(app, &launch.target) {
        Some(id) => match project_name(app, &id) {
            Some(name) => name,
            None => "(project gone)".to_owned(),
        },
        None => "(project gone)".to_owned(),
    }
}

/// The branch a launch runs on: the one it cuts, or its checkout's.
pub open spec fn launch_branch(app: App, launch: QuickLaunch) -> Seq<char> {
    match launch.pr {
        Some(pr) => pr.head@,
        None => match launch.target {
            QuickTarget::NewWorktree { project: _, branch } => branch@,
            QuickTarget::Worktree(id) => match the_worktree(app.tree.worktrees@, id@) {
                Some(w) => w.branch@,
                None => "(worktree gone)"@,
            },
        },
    }
}

fn branch_of(app: &App, launch: &QuickLaunch) -> (r: String)
    ensures
        r@ == launch_branch(*app, *launch),
{
    match &launch.pr {
        Some(pr) => pr.head.clone(),
        None => match &launch.target {
            QuickTarget::NewWorktree { project: _, branch } => branch.clone(),
            QuickTarget::Worktree(id) => match find_worktree(&app.tree.worktrees, id) {
                Some(i) => app.tree.worktrees[i].branch.clone(),
                None => "(worktree gone)".to_owned(),
            },
        },
    }
}

/// The harness, its own name before its kind's; a cloud box says so.
pub open spec fn launch_harness(launch: QuickLaunch) -> Seq<char> {
    let name = match launch.custom {
        Some(c) => c@,
        None => launch.kind@,
    };
    if launch.cloud {
        name + " · cloud"@
    } else {
        name
    }
}

/// The model and the effort behind it.
pub open spec fn launch_model(launch: QuickLaunch) -> Seq<char> {
    let model = match launch.model {
        Some(m) => m@,
        None => "default"@,
    };
    match launch.effort {
        Some(e) => if e@.len() > 0 {
            model + " "@ + e@
        } else {
            model
        },
        None => model,
    }
}

/// What the row names of a launch.
pub open spec fn details_of(app: App, launch: QuickLaunch) -> DetailsView {
    DetailsView {
        project: launch_project_text(app, launch),
        branch: launch_branch(app, launch),
        harness: launch_harness(launch),
        model: launch_model(launch),
        pickable: launch.pr is None,
        fresh: launch.fresh(),
        background: match aimed_project(app, launch.target) {
            Some(id) => elsewhere(app, id@),
            None => false,
        },
    }
}

/// The details with `over` characters taken off: from the branch while the
/// tier draws it, down to [`MIN_BRANCH`], then from the project, down to
/// [`MIN_PROJECT`]. Nothing when that is not enough.
pub open spec fn cut_details(d: DetailsView, over: int, fields: int) -> Option<DetailsView> {
    let from_branch = if fields >= 2 {
        smaller(less(d.branch.len() as int, MIN_BRANCH as int), over)
    } else {
        0
    };
    let from_project = over - from_branch;
    if from_project > 0 && less(d.project.len() as int, from_project) < MIN_PROJECT {
        None
    } else {
        Some(
            DetailsView {
                project: cut(d.project, (d.project.len() - from_project) as nat),
                branch: cut(d.branch, (d.branch.len() - from_branch) as nat),
                ..d
            },
        )
    }
}

impl Details {
    /// What the row names of `launch`.
    pub fn of(app: &App, launch: &QuickLaunch) -> (r: Self)
        ensures
            r@ == details_of(*app, *launch),
    {
        let mut harness: String = match &launch.custom {
            Some(c) => c.clone(),
            None => launch.kind.clone(),
        };
        if launch.cloud {
            harness.append(" · cloud");
        }
        let mut model: String = match &launch.model {
            Some(m) => m.clone(),
            None => "default".to_owned(),
        };
        if let Some(effort) = &launch.effort {
            if !effort.as_str().is_empty() {
                model.append(" ");
                model.append(effort);
            }
        }
        let background: bool = match project_of(app, &launch.target) {
            Some(project) => is_background(app, &project),
            None => false,
        };
        Details {
            project: launch_project(app, launch),
            branch: branch_of(app, launch),
            harness,
            model,
            pickable: launch.pr.is_none(),
            fresh: launch.is_new_worktree(),
            background,
        }
    }

    /// These details `over` columns narrower: taken from the branch while the
    /// tier draws it, down to [`MIN_BRANCH`], then from the project, down to
    /// [`MIN_PROJECT`]. None when that is not enough.
    pub fn cut(&self, over: usize, fields: usize) -> (r: Option<Self>)
        ensures
            match r {
                Some(d) => cut_details(self@, over as int, fields as int) == Some(d@),
                None => cut_details(self@, over as int, fields as int) is None,
            },
    {
        let branch: usize = char_count(&self.branch);
        let from_branch: usize = if fields >= 2 {
            min_usize(branch.saturating_sub(MIN_BRANCH), over)
        } else {
            0
        };
        let from_project: usize = over - from_branch;
        let project: usize = char_count(&self.project);
        if from_project > 0 && project.saturating_sub(from_project) < MIN_PROJECT {
            return None;
        }
        Some(
            Details {
                project: truncate(&self.project, project - from_project),
                branch: truncate(&self.branch, branch - from_branch),
                harness: self.harness.clone(),
                model: self.model.clone(),
                pickable: self.pickable,
                fresh: self.fresh,
                background: self.background,
            },
        )
    }

    /// The columns of each field's label, value and key.
    fn measured(&self) -> (r: Vec<FieldWidths>)
        ensures
            r@ == measures(self@),
            narrow_details(self@) ==> counted_details(self@),
    {
        let mut out: Vec<FieldWidths> = Vec::new();
        let mut i: usize = 0;
        while i < 4
            invariant
                i <= 4,
                out@.len() == i,
                forall|k: int| 0 <= k < i ==> #[trigger] out@[k] == measure(self@, k),
                narrow_details(self@) ==> forall|k: int|
                    0 <= k < i ==> #[trigger] counted_field(self@, k),
            decreases 4 - i,
        {
            let word = joined(label_of(i), " ");
            let value = self.value_of(i);
            let key: usize = match self.key_of(i) {
                Some(key) => width_of_text(&joined(" ", key)),
                None => 0,
            };
            proof {
                lemma_words_narrow(self@, i as int);
            }
            out.push(
                FieldWidths { label: width_of_text(&word), value: width_of_text(value), key },
            );
            i += 1;
        }
        assert(out@ =~= measures(self@));
        out
    }

    fn push_field(&self, spans: &mut Vec<Span>, i: usize, labels: bool, gap: &str)
        requires
            i < 4,
        ensures
            views(final(spans)@) == views(old(spans)@) + gap_spans(i as int, gap@) + field_spans(
                self@,
                i as int,
                labels,
            ),
    {
        let ghost before = views(spans@);
        if i > 0 {
            push_span(spans, Span::of(gap, Style::ink(Ink::Edge)));
        }
        let ghost apart = views(spans@);
        assert(apart =~= before + gap_spans(i as int, gap@));
        if labels {
            push_span(spans, Span::styled(joined(label_of(i), " "), Style::ink(Ink::Dim)));
        }
        push_span(spans, Span::of(self.value_of(i), Style::bold(self.ink_of(i))));
        if let Some(key) = self.key_of(i) {
            push_span(spans, Span::styled(joined(" ", key), Style::ink(Ink::Accent)));
        }
        assert(views(spans@) =~= apart + field_spans(self@, i as int, labels));
    }

    /// The row at one tier: `fields` of them, each a `value key` with the word
    /// for it ahead when `labels`, held apart by `gap`, the gap and the fields
    /// as wide as they were measured. Each field's columns are counted as its
    /// spans are pushed, so a name's own width is what the button is worth.
    #[verifier::spinoff_prover]
    #[verifier::rlimit(40)]
    pub fn laid_out(
        &self,
        fields: usize,
        labels: bool,
        gap: &str,
        gap_w: usize,
        widths: &Vec<FieldWidths>,
    ) -> (r: DetailLine)
        requires
            widths@.len() == 4,
        ensures
            r@ == line_in(self@, smaller(fields as int, 4), labels, gap@, gap_w as int, widths@),
    {
        let mut spans: Vec<Span> = Vec::new();
        let mut hits: Vec<FieldHit> = Vec::new();
        let mut branch: Option<(u16, u16)> = None;
        let mut x: usize = 0;
        let n: usize = min_usize(fields, 4);
        let mut i: usize = 0;
        assert(views(spans@) =~= Seq::empty());
        assert(hits@ =~= Seq::empty());
        while i < n
            invariant
                i <= n <= 4,
                widths@.len() == 4,
                ({
                    let done = drawn_fields(self@, i as int, labels, gap@, gap_w as int, widths@);
                    &&& views(spans@) == done.spans
                    &&& x == done.x
                    &&& hits@ == done.fields
                    &&& branch == done.branch
                }),
            decreases n - i,
        {
            let w: FieldWidths = widths[i];
            let ghost before = drawn_fields(
                self@,
                i as int,
                labels,
                gap@,
                gap_w as int,
                widths@,
            );
            assert(drawn_fields(self@, i + 1, labels, gap@, gap_w as int, widths@) == with_field(
                before,
                self@,
                i as int,
                labels,
                gap@,
                gap_w as int,
                w,
            ));
            self.push_field(&mut spans, i, labels, gap);
            let start: usize = if i > 0 {
                x.saturating_add(gap_w)
            } else {
                x
            };
            let value_at: usize = if labels {
                start.saturating_add(w.label)
            } else {
                start
            };
            x = value_at.saturating_add(w.value);
            if self.key_of(i).is_some() {
                x = x.saturating_add(w.key);
            }
            if i != 1 || self.pickable {
                if i == 1 {
                    branch = Some((low16(value_at), low16(x - value_at)));
                }
                hits.push(
                    FieldHit { field: kind_of(i), x: low16(start), width: low16(x - start) },
                );
            }
            i += 1;
        }
        proof {
            reveal(line_in);
        }
        DetailLine { line: spans, fields: hits, branch }
    }

    /// The row at one tier, measured.
    pub fn spans(&self, fields: usize, labels: bool, gap: &str) -> (r: DetailLine)
        ensures
            r@ == line_of(self@, smaller(fields as int, 4), labels, gap@),
            narrow_details(self@) && narrow_text(gap@) ==> narrow(r@),
    {
        let gap_w: usize = width_of_text(gap);
        let widths = self.measured();
        let r = self.laid_out(fields, labels, gap, gap_w, &widths);
        proof {
            if narrow_details(self@) && narrow_text(gap@) {
                lemma_narrow_line(self@, smaller(fields as int, 4), labels, gap@);
            }
        }
        r
    }

    fn value_of(&self, i: usize) -> (r: &str)
        requires
            i < 4,
        ensures
            r@ == field_value(self@, i as int),
    {
        match i {
            0 => self.project.as_str(),
            1 => self.branch.as_str(),
            2 => self.harness.as_str(),
            _ => self.model.as_str(),
        }
    }

    fn ink_of(&self, i: usize) -> (r: Ink)
        requires
            i < 4,
        ensures
            r == field_ink(self@, i as int),
    {
        if i == 0 && self.background {
            Ink::Accent
        } else if i == 1 && self.fresh {
            Ink::Good
        } else {
            Ink::Text
        }
    }

    fn key_of(&self, i: usize) -> (r: Option<&'static str>)
        requires
            i < 4,
        ensures
            match r {
                Some(k) => field_key(self@, i as int) == Some(k@),
                None => field_key(self@, i as int) is None,
            },
    {
        match i {
            0 => Some("^P"),
            1 => if self.pickable {
                Some("▾")
            } else {
                None
            },
            2 => Some("Tab"),
            _ => Some("^O"),
        }
    }
}

// ---- the row ----

/// Where a field of the row was drawn: its label, value and key together.
#[derive(Debug, Clone, Copy, PartialEq, Eq, Structural)]
pub struct FieldHit {
    pub field: BoxField,
    pub x: u16,
    pub width: u16,
}

/// The row, each drawn field's columns within it, and the branch's — the value
/// and its key, None when it was dropped for room or names a checkout nobody
/// picks.
#[derive(Debug)]
pub struct DetailLine {
    pub line: Vec<Span>,
    pub fields: Vec<FieldHit>,
    pub branch: Option<(u16, u16)>,
}

/// A [`DetailLine`] by what it holds.
pub struct LineView {
    pub spans: Seq<SpanView>,
    pub fields: Seq<FieldHit>,
    pub branch: Option<(u16, u16)>,
}

impl View for DetailLine {
    type V = LineView;

    open spec fn view(&self) -> LineView {
        LineView { spans: views(self.line@), fields: self.fields@, branch: self.branch }
    }
}

/// The field at place `i`.
pub open spec fn field_at(i: int) -> BoxField {
    if i == 0 {
        BoxField::Project
    } else if i == 1 {
        BoxField::Worktree
    } else if i == 2 {
        BoxField::Agent
    } else {
        BoxField::Model
    }
}

pub open spec fn field_label(i: int) -> Seq<char> {
    if i == 0 {
        "project"@
    } else if i == 1 {
        "worktree"@
    } else if i == 2 {
        "harness"@
    } else {
        "model"@
    }
}

pub open spec fn field_value(d: DetailsView, i: int) -> Seq<char> {
    if i == 0 {
        d.project
    } else if i == 1 {
        d.branch
    } else if i == 2 {
        d.harness
    } else {
        d.model
    }
}

/// The project is lit while the box is aimed away from the grid, the branch
/// green while Enter will cut it.
pub open spec fn field_ink(d: DetailsView, i: int) -> Ink {
    if i == 0 && d.background {
        Ink::Accent
    } else if i == 1 && d.fresh {
        Ink::Good
    } else {
        Ink::Text
    }
}

/// The chord that changes a field; a branch nobody picks has none.
pub open spec fn field_key(d: DetailsView, i: int) -> Option<Seq<char>> {
    if i == 0 {
        Some("^P"@)
    } else if i == 1 {
        if d.pickable {
            Some("▾"@)
        } else {
            None
        }
    } else if i == 2 {
        Some("Tab"@)
    } else {
        Some("^O"@)
    }
}

fn kind_of(i: usize) -> (r: BoxField)
    ensures
        r == field_at(i as int),
{
    match i {
        0 => BoxField::Project,
        1 => BoxField::Worktree,
        2 => BoxField::Agent,
        _ => BoxField::Model,
    }
}

fn label_of(i: usize) -> (r: &'static str)
    ensures
        r@ == field_label(i as int),
{
    match i {
        0 => "project",
        1 => "worktree",
        2 => "harness",
        _ => "model",
    }
}

/// The last sixteen bits of a column count.
pub open spec fn low_bits(n: int) -> u16 {
    (n % 65536) as u16
}

fn low16(n: usize) -> (r: u16)
    ensures
        r == low_bits(n as int),
{
    (n % 65536) as u16
}

/// A row half drawn: its spans, the column it has reached, and where its
/// fields are.
pub struct Drawing {
    pub spans: Seq<SpanView>,
    pub x: int,
    pub fields: Seq<FieldHit>,
    pub branch: Option<(u16, u16)>,
}

/// The gap before field `i`.
pub open spec fn gap_spans(i: int, gap: Seq<char>) -> Seq<SpanView> {
    if i > 0 {
        seq![span(gap, inked(Ink::Edge))]
    } else {
        Seq::empty()
    }
}

/// The spans of field `i` behind those before it.
pub open spec fn field_spans(d: DetailsView, i: int, labels: bool) -> Seq<SpanView> {
    let label = if labels {
        seq![span(field_label(i) + " "@, inked(Ink::Dim))]
    } else {
        Seq::empty()
    };
    let value = label.push(span(field_value(d, i), bold(field_ink(d, i))));
    match field_key(d, i) {
        Some(key) => value.push(span(" "@ + key, inked(Ink::Accent))),
        None => value,
    }
}

/// The columns of a field's label and the blank behind it, of its value, and of
/// the blank and its key.
#[derive(Debug, Clone, Copy, PartialEq, Eq, Structural)]
pub struct FieldWidths {
    pub label: usize,
    pub value: usize,
    pub key: usize,
}

/// The columns of field `i` as ratatui counts them.
pub open spec fn measure(d: DetailsView, i: int) -> FieldWidths {
    FieldWidths {
        label: display_width(field_label(i) + " "@) as usize,
        value: display_width(field_value(d, i)) as usize,
        key: match field_key(d, i) {
            Some(key) => display_width(" "@ + key) as usize,
            None => 0,
        },
    }
}

pub open spec fn measures(d: DetailsView) -> Seq<FieldWidths> {
    Seq::new(4, |i: int| measure(d, i))
}

/// The values take a column a character.
pub open spec fn narrow_details(d: DetailsView) -> bool {
    narrow_text(d.project) && narrow_text(d.branch) && narrow_text(d.harness) && narrow_text(
        d.model,
    )
}

/// Field `i` is as many columns wide as it has characters.
pub open spec fn counted_field(d: DetailsView, i: int) -> bool {
    &&& display_width(field_label(i) + " "@) == field_label(i).len() + 1
    &&& display_width(field_value(d, i)) == field_value(d, i).len()
    &&& match field_key(d, i) {
        Some(key) => display_width(" "@ + key) == key.len() + 1,
        None => true,
    }
}

pub open spec fn counted_details(d: DetailsView) -> bool {
    forall|i: int| 0 <= i < 4 ==> #[trigger] counted_field(d, i)
}

proof fn lemma_words_narrow(d: DetailsView, i: int)
    requires
        0 <= i < 4,
    ensures
        narrow_text(field_label(i) + " "@),
        (field_label(i) + " "@).len() == field_label(i).len() + 1,
        narrow_details(d) ==> narrow_text(field_value(d, i)),
        match field_key(d, i) {
            Some(key) => narrow_text(" "@ + key) && (" "@ + key).len() == key.len() + 1,
            None => true,
        },
{
    reveal_strlit(" ");
    reveal_strlit("project");
    reveal_strlit("worktree");
    reveal_strlit("harness");
    reveal_strlit("model");
    reveal_strlit("^P");
    reveal_strlit("▾");
    reveal_strlit("Tab");
    reveal_strlit("^O");
}

/// The row with one more field: the gap before it, its label, its value and
/// its key, its columns those of the three.
pub open spec fn with_field(
    before: Drawing,
    d: DetailsView,
    i: int,
    labels: bool,
    gap: Seq<char>,
    gap_w: int,
    w: FieldWidths,
) -> Drawing {
    let start = if i > 0 {
        capped(before.x + gap_w)
    } else {
        before.x
    };
    let value_at = if labels {
        capped(start + w.label)
    } else {
        start
    };
    let after = capped(value_at + w.value);
    let end = match field_key(d, i) {
        Some(key) => capped(after + w.key),
        None => after,
    };
    let button = i != 1 || d.pickable;
    Drawing {
        spans: before.spans + gap_spans(i, gap) + field_spans(d, i, labels),
        x: end,
        fields: if button {
            before.fields.push(
                FieldHit { field: field_at(i), x: low_bits(start), width: low_bits(end - start) },
            )
        } else {
            before.fields
        },
        branch: if i == 1 && d.pickable {
            Some((low_bits(value_at), low_bits(end - value_at)))
        } else {
            before.branch
        },
    }
}

/// The first `n` fields of the row, the gap and the fields as wide as measured.
pub open spec fn drawn_fields(
    d: DetailsView,
    n: int,
    labels: bool,
    gap: Seq<char>,
    gap_w: int,
    widths: Seq<FieldWidths>,
) -> Drawing
    decreases n,
{
    if n <= 0 {
        Drawing { spans: Seq::empty(), x: 0, fields: Seq::empty(), branch: None }
    } else {
        with_field(
            drawn_fields(d, n - 1, labels, gap, gap_w, widths),
            d,
            n - 1,
            labels,
            gap,
            gap_w,
            widths[n - 1],
        )
    }
}

/// The row at one tier, the gap and the fields as wide as measured.
#[verifier::opaque]
pub open spec fn line_in(
    d: DetailsView,
    fields: int,
    labels: bool,
    gap: Seq<char>,
    gap_w: int,
    widths: Seq<FieldWidths>,
) -> LineView {
    let done = drawn_fields(d, fields, labels, gap, gap_w, widths);
    LineView { spans: done.spans, fields: done.fields, branch: done.branch }
}

/// The row at one tier.
pub open spec fn line_of(d: DetailsView, fields: int, labels: bool, gap: Seq<char>) -> LineView {
    line_in(d, fields, labels, gap, display_width(gap) as int, measures(d))
}

/// One form of the row: with or without labels, the gap, how many fields, and
/// whether its names may be cut.
pub struct Tier {
    pub labels: bool,
    pub gap: Seq<char>,
    pub fields: int,
    pub cuts: bool,
}

/// The forms of the row, widest first: labelled and airy; labelled and tight;
/// the values and their chords alone; then without the model, without the
/// agent, and without the worktree. The airy form is drawn whole or not at
/// all.
pub open spec fn tier(t: int) -> Tier {
    Tier {
        labels: t <= 1,
        gap: if t == 0 {
            DETAIL_GAP@
        } else {
            DETAIL_TIGHT@
        },
        fields: if t <= 2 {
            4
        } else {
            6 - t
        },
        cuts: t > 0,
    }
}

/// What becomes of a form of the row that is `w` columns wide in a row of
/// `width`: it stays whole, its names are cut, or it is given up.
#[derive(Debug)]
pub enum Form {
    Whole,
    Cut(Details),
    Dropped,
}

/// A [`Form`] by its texts.
pub enum FormView {
    Whole,
    Cut(DetailsView),
    Dropped,
}

impl View for Form {
    type V = FormView;

    open spec fn view(&self) -> FormView {
        match self {
            Form::Whole => FormView::Whole,
            Form::Cut(d) => FormView::Cut(d@),
            Form::Dropped => FormView::Dropped,
        }
    }
}

/// What becomes of a form `w` columns wide in a row of `width`: whole where it
/// fits, else with the branch, then the project, cut to what is left over,
/// where its names may be cut and that is enough.
pub open spec fn form_of(d: DetailsView, w: int, width: int, fields: int, cuts: bool) -> FormView {
    if w <= width {
        FormView::Whole
    } else if cuts {
        match cut_details(d, w - width, fields) {
            Some(c) => FormView::Cut(c),
            None => FormView::Dropped,
        }
    } else {
        FormView::Dropped
    }
}

/// What becomes of a form of the row that was measured `w` columns wide.
pub fn form_in(details: &Details, w: usize, width: usize, fields: usize, cuts: bool) -> (r: Form)
    ensures
        r@ == form_of(details@, w as int, width as int, fields as int, cuts),
{
    if w <= width {
        Form::Whole
    } else if cuts {
        match details.cut(w - width, fields) {
            Some(cut) => Form::Cut(cut),
            None => Form::Dropped,
        }
    } else {
        Form::Dropped
    }
}

/// The columns form `t` of the row takes whole.
pub open spec fn form_width(d: DetailsView, t: int) -> int {
    let f = tier(t);
    capped(display_columns(line_of(d, f.fields, f.labels, f.gap).spans) as int)
}

/// The row in form `t`, where that fits `width` columns.
pub open spec fn in_form(d: DetailsView, width: int, t: int) -> Option<LineView> {
    let f = tier(t);
    match form_of(d, form_width(d, t), width, f.fields, f.cuts) {
        FormView::Whole => Some(line_of(d, f.fields, f.labels, f.gap)),
        FormView::Cut(c) => Some(line_of(c, f.fields, f.labels, f.gap)),
        FormView::Dropped => None,
    }
}

/// The project alone, cut to the row.
pub open spec fn bare_project(d: DetailsView, width: int) -> LineView {
    line_of(
        DetailsView { project: cut(d.project, less(width, 3) as nat), ..d },
        1,
        false,
        DETAIL_TIGHT@,
    )
}

/// The row in `width` columns, from form `t` on: the first form that fits; and
/// where none does, the project alone, cut to the row.
pub open spec fn row_in(d: DetailsView, width: int, t: int) -> LineView
    decreases 6 - t,
{
    if t >= 6 {
        bare_project(d, width)
    } else {
        match in_form(d, width, t) {
            Some(line) => line,
            None => row_in(d, width, t + 1),
        }
    }
}

/// The values are no longer together than a machine word counts, with room
/// for the words around them.
pub open spec fn short_details(d: DetailsView) -> bool {
    d.project.len() + d.branch.len() + d.harness.len() + d.model.len() + 80 <= usize::MAX
}

fn try_form(details: &Details, width: usize, t: usize) -> (r: Option<DetailLine>)
    requires
        t < 6,
    ensures
        match r {
            Some(line) => in_form(details@, width as int, t as int) == Some(line@),
            None => in_form(details@, width as int, t as int) is None,
        },
        r is Some && narrow_details(details@) && short_details(details@) && width < usize::MAX
            ==> display_columns(r->0@.spans) <= width,
{
    let labels: bool = t <= 1;
    let gap: &str = if t == 0 {
        DETAIL_GAP
    } else {
        DETAIL_TIGHT
    };
    let fields: usize = if t <= 2 {
        4
    } else {
        6 - t
    };
    let whole = details.spans(fields, labels, gap);
    let w: usize = line_width(&whole.line);
    proof {
        lemma_gaps_narrow();
        lemma_row_bound(details@, fields as int, labels, gap@);
    }
    match form_in(details, w, width, fields, t > 0) {
        Form::Whole => Some(whole),
        Form::Cut(cut) => {
            proof {
                law_cut_takes_what_was_asked(details@, w - width, fields as int);
                lemma_line_columns(details@, cut@, fields as int, labels, gap@);
                lemma_cut_narrow(details@, w - width, fields as int);
            }
            Some(cut.spans(fields, labels, gap))
        },
        Form::Dropped => None,
    }
}

/// The row of a box's details, in `width` columns. However narrow the box gets,
/// a row of values a column a character wide fits inside it.
pub fn detail_row(details: &Details, width: u16) -> (r: DetailLine)
    ensures
        r@ == row_in(details@, width as int, 0),
        width >= 3 && narrow_details(details@) && short_details(details@) ==> display_columns(
            r@.spans,
        ) <= width,
{
    let room: usize = width as usize;
    let mut t: usize = 0;
    while t < 6
        invariant
            t <= 6,
            room == width,
            row_in(details@, width as int, 0) == row_in(details@, width as int, t as int),
        decreases 6 - t,
    {
        if let Some(line) = try_form(details, room, t) {
            return line;
        }
        t += 1;
    }
    let cut = Details {
        project: truncate(&details.project, room.saturating_sub(3)),
        branch: details.branch.clone(),
        harness: details.harness.clone(),
        model: details.model.clone(),
        pickable: details.pickable,
        fresh: details.fresh,
        background: details.background,
    };
    proof {
        lemma_gaps_narrow();
        if narrow_details(details@) {
            lemma_text_cut_narrow(details@.project, less(width as int, 3) as nat);
        }
        if width >= 3 {
            lemma_bare_project_columns(details@, width as int);
        }
    }
    cut.spans(1, false, DETAIL_TIGHT)
}

/// The view's box, row 0: where the session runs — the project and the
/// checkout in it — what runs there and on which model, each named with the
/// chord that changes it. Widest form that fits; the project is never dropped,
/// only cut, and a long branch is cut before it is.
///
/// With the row, each field's own columns within it — the label, the value and
/// the chord together, never the air between two fields — and the branch's
/// own, for the picker to hang from. A form that drops a field hands back no
/// columns for it: what is not drawn is not a button.
pub fn detail_line(app: &App, launch: &QuickLaunch, width: u16) -> (r: DetailLine)
    ensures
        r@ == row_in(details_of(*app, *launch), width as int, 0),
        width >= 3 && narrow_details(details_of(*app, *launch)) && short_details(
            details_of(*app, *launch),
        ) ==> display_columns(r@.spans) <= width,
{
    let details = Details::of(app, launch);
    detail_row(&details, width)
}

// ---- the box's header ----

/// The line, and where its toggle landed in it — first column and width, None
/// when it was dropped for room or has nothing to do.
#[derive(Debug)]
pub struct TargetLine {
    pub line: Vec<Span>,
    pub toggle: Option<(u16, u16)>,
}

/// The right side of the box's header: the toggle and its state, or what will
/// be done with a pull request's head.
pub open spec fn target_right(launch: QuickLaunch) -> Seq<SpanView> {
    if launch.pr is Some {
        seq![span("reused or cut on Enter"@, inked(Ink::Dim))]
    } else if launch.fresh() {
        seq![span("[✓] new worktree"@, bold(Ink::Good)), span(" ^N"@, inked(Ink::Good))]
    } else {
        seq![span("[ ] new worktree"@, inked(Ink::Dim)), span(" ^N"@, inked(Ink::Dim))]
    }
}

/// What the left side says in what a right side `right_w` columns wide leaves.
pub open spec fn target_label(label: Seq<char>, width: int, right_w: int) -> Seq<char> {
    cut(label, less(width, right_w + 1) as nat)
}

/// The right half goes whole or not at all.
pub open spec fn right_fits(label: Seq<char>, width: int, right_w: int) -> bool {
    width > target_label(label, width, right_w).len() + right_w
}

/// The box's header row in `width` columns, its right side measured.
pub open spec fn target_spans(
    launch: QuickLaunch,
    label: Seq<char>,
    width: int,
    right_w: int,
) -> Seq<SpanView> {
    let left = target_label(label, width, right_w);
    let first = seq![span(left, inked(Ink::Dim))];
    if right_fits(label, width, right_w) {
        first.push(span(repeated(' ', (width - left.len() - right_w) as nat), bare()))
            + target_right(launch)
    } else {
        first
    }
}

/// Where the toggle is: at the right end of the row.
pub open spec fn toggle_at(
    launch: QuickLaunch,
    label: Seq<char>,
    width: int,
    right_w: int,
) -> Option<(u16, u16)> {
    if launch.pr is None && right_fits(label, width, right_w) {
        Some(((width - right_w) as u16, right_w as u16))
    } else {
        None
    }
}

fn right_side(launch: &QuickLaunch) -> (right: Vec<Span>)
    ensures
        views(right@) == target_right(*launch),
{
    let mut right: Vec<Span> = Vec::new();
    if launch.pr.is_some() {
        push_span(&mut right, Span::of("reused or cut on Enter", Style::ink(Ink::Dim)));
    } else if launch.is_new_worktree() {
        push_span(&mut right, Span::of("[✓] new worktree", Style::bold(Ink::Good)));
        push_span(&mut right, Span::of(" ^N", Style::ink(Ink::Good)));
    } else {
        push_span(&mut right, Span::of("[ ] new worktree", Style::ink(Ink::Dim)));
        push_span(&mut right, Span::of(" ^N", Style::ink(Ink::Dim)));
    }
    assert(views(right@) =~= target_right(*launch));
    right
}

/// The box's header row in `width` columns, its right side measured `right_w`
/// columns wide.
pub fn target_row(launch: &QuickLaunch, label: &str, width: u16, right_w: usize) -> (r: TargetLine)
    ensures
        views(r.line@) == target_spans(*launch, label@, width as int, right_w as int),
        r.toggle == toggle_at(*launch, label@, width as int, right_w as int),
{
    let room: usize = width as usize;
    let left = truncate(label, room.saturating_sub(right_w).saturating_sub(1));
    let used: usize = char_count(&left);
    assert(left@ == target_label(label@, width as int, right_w as int));
    let mut spans: Vec<Span> = Vec::new();
    push_span(&mut spans, Span::styled(left, Style::ink(Ink::Dim)));
    let mut toggle: Option<(u16, u16)> = None;
    if room > used && room - used > right_w {
        let pad: usize = room - used - right_w;
        push_span(&mut spans, Span::styled(repeat(' ', pad), Style::raw()));
        if launch.pr.is_none() {
            toggle = Some(((used + pad) as u16, right_w as u16));
        }
        let mut right = right_side(launch);
        let ghost before = views(spans@);
        let ghost tail = views(right@);
        spans.append(&mut right);
        assert(views(spans@) =~= before + tail);
    }
    assert(views(spans@) =~= target_spans(*launch, label@, width as int, right_w as int));
    TargetLine { line: spans, toggle }
}

/// The columns of the right side, a column a character.
pub open spec fn right_columns(launch: QuickLaunch) -> int {
    if launch.pr is Some {
        22
    } else {
        19
    }
}

proof fn lemma_right_columns(launch: QuickLaunch)
    ensures
        columns(target_right(launch)) == right_columns(launch),
        narrow_spans(target_right(launch)),
{
    reveal_strlit("reused or cut on Enter");
    reveal_strlit("[✓] new worktree");
    reveal_strlit("[ ] new worktree");
    reveal_strlit(" ^N");
    let none = Seq::<SpanView>::empty();
    let r = target_right(launch);
    lemma_columns_push(none, r[0]);
    if launch.pr is Some {
        assert(r =~= none.push(r[0]));
    } else {
        lemma_columns_push(none.push(r[0]), r[1]);
        assert(r =~= none.push(r[0]).push(r[1]));
    }
}

/// The view's box prompt header: what Enter sends on the left, and the toggle
/// that cuts a fresh worktree, right. A pull request's session says what will
/// be done with the head branch instead, its checkout not being ours to flip.
///
/// With the line, the toggle's columns within it, so a click there can be
/// given the same flip the chord has.
pub fn target_line(launch: &QuickLaunch, label: &str, width: u16) -> (r: TargetLine)
    ensures
        views(r.line@) == target_spans(*launch, label@, width as int, right_columns(*launch)),
        r.toggle == toggle_at(*launch, label@, width as int, right_columns(*launch)),
{
    let right = right_side(launch);
    proof {
        lemma_right_columns(*launch);
    }
    let right_w: usize = line_width(&right);
    target_row(launch, label, width, right_w)
}

// ---- the box's border ----

/// What a box is for, each behind a dot; `cloud_name` is what a launch into a cloud
/// sandbox is called.
pub open spec fn title_parts(launch: QuickLaunch, cloud_name: Seq<char>) -> Seq<char> {
    let issue = match launch.issue {
        Some(i) => " · issue #"@ + decimal(i.number as nat),
        None => Seq::empty(),
    };
    let pr = match launch.pr {
        Some(p) => " · PR #"@ + decimal(p.number as nat),
        None => Seq::empty(),
    };
    let preset = match launch.preset {
        Some(p) => " · "@ + p@,
        None => Seq::empty(),
    };
    let cloud = if launch.cloud {
        " · "@ + cloud_name
    } else {
        Seq::empty()
    };
    "New session"@ + issue + pr + preset + cloud
}

/// The view's box title: what Enter starts — an issue, a pull request, a
/// preset, `cloud_name` for one into a cloud sandbox. The harness, the model
/// and the effort are on the row under it.
pub fn box_title(launch: &QuickLaunch, cloud_name: &str) -> (r: String)
    ensures
        r@ == title_parts(*launch, cloud_name@),
{
    let mut head: String = "New session".to_owned();
    if let Some(issue) = &launch.issue {
        head.append(" · issue #");
        head.append(&decimal_text(issue.number));
    }
    if let Some(pr) = &launch.pr {
        head.append(" · PR #");
        head.append(&decimal_text(pr.number));
    }
    if let Some(preset) = &launch.preset {
        head.append(" · ");
        head.append(preset);
    }
    if launch.cloud {
        head.append(" · ");
        head.append(cloud_name);
    }
    assert(head@ =~= title_parts(*launch, cloud_name@));
    head
}

/// The hint for a border of `width` columns.
pub open spec fn hint(width: u16) -> Seq<char> {
    if width >= 60 {
        " Enter launch · ⇧Enter newline · ⇧Tab preset · Esc cancel "@
    } else if width >= 43 {
        " Enter launch · ⇧Tab preset · Esc cancel "@
    } else if width >= 29 {
        " Enter launch · Esc cancel "@
    } else if width >= 25 {
        " ↵ launch · Esc cancel "@
    } else {
        " ↵ · Esc "@
    }
}

/// The view's box hints, widest that fits in `width`.
pub fn box_hint(width: u16) -> (r: &'static str)
    ensures
        r@ == hint(width),
{
    if width >= 60 {
        " Enter launch · ⇧Enter newline · ⇧Tab preset · Esc cancel "
    } else if width >= 43 {
        " Enter launch · ⇧Tab preset · Esc cancel "
    } else if width >= 29 {
        " Enter launch · Esc cancel "
    } else if width >= 25 {
        " ↵ launch · Esc cancel "
    } else {
        " ↵ · Esc "
    }
}

// ---- what holds of it ----

/// Every hint fits the border it is drawn in, its two corners beside it.
pub proof fn law_hint_fits_its_border(width: u16)
    requires
        width >= 11,
    ensures
        hint(width).len() + 2 <= width,
{
    reveal_strlit(" Enter launch · ⇧Enter newline · ⇧Tab preset · Esc cancel ");
    reveal_strlit(" Enter launch · ⇧Tab preset · Esc cancel ");
    reveal_strlit(" Enter launch · Esc cancel ");
    reveal_strlit(" ↵ launch · Esc cancel ");
    reveal_strlit(" ↵ · Esc ");
}

/// The header never drops its toggle while there is a column more than it
/// takes, and the toggle ends at the right edge.
pub proof fn law_toggle_is_never_dropped(launch: QuickLaunch, label: Seq<char>, width: u16)
    requires
        width > right_columns(launch),
    ensures
        right_fits(label, width as int, right_columns(launch)),
        launch.pr is None ==> ({
            let toggle = toggle_at(launch, label, width as int, right_columns(launch));
            toggle is Some && (toggle->0).0 + (toggle->0).1 == width && (toggle->0).1
                == right_columns(launch)
        }),
{
}

/// Cutting takes exactly the characters asked for off the two names, and
/// leaves either enough to be told by.
pub proof fn law_cut_takes_what_was_asked(d: DetailsView, over: int, fields: int)
    requires
        over >= 0,
        cut_details(d, over, fields) is Some,
    ensures
        ({
            let c = cut_details(d, over, fields)->0;
            &&& c.project.len() + c.branch.len() == d.project.len() + d.branch.len() - over
            &&& c.project.len() < d.project.len() ==> c.project.len() >= MIN_PROJECT
            &&& c.branch.len() < d.branch.len() ==> c.branch.len() >= MIN_BRANCH
            &&& fields < 2 ==> c.branch == d.branch
            &&& c.harness == d.harness && c.model == d.model
        }),
{
}

proof fn lemma_field_columns(d: DetailsView, i: int, labels: bool)
    requires
        0 <= i < 4,
    ensures
        columns(field_spans(d, i, labels)) == field_value(d, i).len() + (if labels {
            field_label(i).len() + 1
        } else {
            0
        }) + match field_key(d, i) {
            Some(key) => key.len() + 1,
            None => 0,
        },
{
    reveal_strlit(" ");
    let none = Seq::<SpanView>::empty();
    let label = span(field_label(i) + " "@, inked(Ink::Dim));
    let value = span(field_value(d, i), bold(field_ink(d, i)));
    lemma_columns_push(none, label);
    lemma_columns_push(none.push(label), value);
    lemma_columns_push(none, value);
    if labels {
        assert(seq![label] =~= none.push(label));
    }
    let start = if labels {
        seq![label]
    } else {
        none
    };
    if let Some(key) = field_key(d, i) {
        lemma_columns_push(start.push(value), span(" "@ + key, inked(Ink::Accent)));
    }
}

/// The characters of the row's two names that are drawn.
spec fn names_len(d: DetailsView, fields: int) -> int {
    (if fields >= 1 {
        d.project.len() as int
    } else {
        0
    }) + if fields >= 2 {
        d.branch.len() as int
    } else {
        0
    }
}

/// The spans of the first `n` fields, whatever they were measured as.
spec fn row_spans(d: DetailsView, n: int, labels: bool, gap: Seq<char>) -> Seq<SpanView> {
    drawn_fields(d, n, labels, gap, display_width(gap) as int, measures(d)).spans
}

proof fn lemma_row_step(d: DetailsView, n: int, labels: bool, gap: Seq<char>)
    requires
        1 <= n <= 4,
    ensures
        columns(row_spans(d, n, labels, gap)) == columns(row_spans(d, n - 1, labels, gap)) + (if n
            > 1 {
            gap.len() as int
        } else {
            0
        }) + columns(field_spans(d, n - 1, labels)),
        display_columns(row_spans(d, n, labels, gap)) == display_columns(
            row_spans(d, n - 1, labels, gap),
        ) + (if n > 1 {
            display_width(gap) as int
        } else {
            0
        }) + display_columns(field_spans(d, n - 1, labels)),
{
    let before = row_spans(d, n - 1, labels, gap);
    let none = Seq::<SpanView>::empty();
    let g = span(gap, inked(Ink::Edge));
    let sep = if n > 1 {
        seq![g]
    } else {
        none
    };
    lemma_columns_push(none, g);
    assert(seq![g] =~= none.push(g));
    crate::view::span::lemma_columns_concat(before, sep);
    crate::view::span::lemma_columns_concat(before + sep, field_spans(d, n - 1, labels));
}

proof fn lemma_narrow_field(d: DetailsView, i: int, labels: bool)
    requires
        0 <= i < 4,
        counted_field(d, i),
    ensures
        display_columns(field_spans(d, i, labels)) == columns(field_spans(d, i, labels)),
{
    lemma_words_narrow(d, i);
    let none = Seq::<SpanView>::empty();
    let label = span(field_label(i) + " "@, inked(Ink::Dim));
    let value = span(field_value(d, i), bold(field_ink(d, i)));
    lemma_columns_push(none, label);
    let start = if labels {
        seq![label]
    } else {
        none
    };
    if labels {
        assert(seq![label] =~= none.push(label));
    }
    lemma_columns_push(start, value);
    if let Some(key) = field_key(d, i) {
        lemma_columns_push(start.push(value), span(" "@ + key, inked(Ink::Accent)));
    }
}

proof fn lemma_narrow_row(d: DetailsView, n: int, labels: bool, gap: Seq<char>)
    requires
        0 <= n <= 4,
        counted_details(d),
        display_width(gap) == gap.len(),
    ensures
        display_columns(row_spans(d, n, labels, gap)) == columns(row_spans(d, n, labels, gap)),
    decreases n,
{
    if n > 0 {
        lemma_narrow_row(d, n - 1, labels, gap);
        lemma_row_step(d, n, labels, gap);
        assert(counted_field(d, n - 1));
        lemma_narrow_field(d, n - 1, labels);
    }
}

proof fn lemma_narrow_line(d: DetailsView, n: int, labels: bool, gap: Seq<char>)
    requires
        0 <= n <= 4,
        counted_details(d),
        display_width(gap) == gap.len(),
    ensures
        narrow(line_of(d, n, labels, gap)),
{
    reveal(line_in);
    lemma_narrow_row(d, n, labels, gap);
}

/// Two rows that differ in their two names alone differ in length by what the
/// names do.
proof fn lemma_row_columns(a: DetailsView, b: DetailsView, n: int, labels: bool, gap: Seq<char>)
    requires
        0 <= n <= 4,
        a.harness == b.harness,
        a.model == b.model,
        a.pickable == b.pickable,
    ensures
        columns(row_spans(a, n, labels, gap)) - columns(row_spans(b, n, labels, gap)) == names_len(
            a,
            n,
        ) - names_len(b, n),
    decreases n,
{
    if n > 0 {
        lemma_row_columns(a, b, n - 1, labels, gap);
        lemma_row_step(a, n, labels, gap);
        lemma_row_step(b, n, labels, gap);
        lemma_field_columns(a, n - 1, labels);
        lemma_field_columns(b, n - 1, labels);
    }
}

proof fn lemma_line_columns(a: DetailsView, b: DetailsView, n: int, labels: bool, gap: Seq<char>)
    requires
        0 <= n <= 4,
        a.harness == b.harness,
        a.model == b.model,
        a.pickable == b.pickable,
    ensures
        columns(line_of(a, n, labels, gap).spans) - columns(line_of(b, n, labels, gap).spans)
            == names_len(a, n) - names_len(b, n),
{
    reveal(line_in);
    lemma_row_columns(a, b, n, labels, gap);
}

spec fn values_len(d: DetailsView, n: int) -> int
    decreases n,
{
    if n <= 0 {
        0
    } else {
        values_len(d, n - 1) + field_value(d, n - 1).len()
    }
}

proof fn lemma_row_spans_bound(d: DetailsView, n: int, labels: bool, gap: Seq<char>)
    requires
        0 <= n <= 4,
        gap.len() <= 7,
    ensures
        columns(row_spans(d, n, labels, gap)) <= values_len(d, n) + 20 * n,
    decreases n,
{
    if n > 0 {
        lemma_row_spans_bound(d, n - 1, labels, gap);
        lemma_row_step(d, n, labels, gap);
        lemma_field_columns(d, n - 1, labels);
        reveal_strlit("project");
        reveal_strlit("worktree");
        reveal_strlit("harness");
        reveal_strlit("model");
        reveal_strlit("^P");
        reveal_strlit("▾");
        reveal_strlit("Tab");
        reveal_strlit("^O");
    }
}

proof fn lemma_row_bound(d: DetailsView, n: int, labels: bool, gap: Seq<char>)
    requires
        0 <= n <= 4,
        gap.len() <= 7,
    ensures
        columns(line_of(d, n, labels, gap).spans) <= d.project.len() + d.branch.len()
            + d.harness.len() + d.model.len() + 80,
{
    reveal(line_in);
    lemma_row_spans_bound(d, n, labels, gap);
    reveal_with_fuel(values_len, 5);
}

proof fn lemma_gaps_narrow()
    ensures
        narrow_text(DETAIL_GAP@),
        narrow_text(DETAIL_TIGHT@),
        DETAIL_GAP@.len() <= 7,
        DETAIL_TIGHT@.len() <= 7,
{
    reveal_strlit("   ·   ");
    reveal_strlit(" · ");
}

proof fn lemma_text_cut_narrow(text: Seq<char>, max: nat)
    requires
        narrow_text(text),
    ensures
        narrow_text(cut(text, max)),
{
    let c = cut(text, max);
    assert forall|i: int| 0 <= i < c.len() implies one_column(#[trigger] c[i]) by {
        if text.len() <= max || i < max - 1 {
            assert(c[i] == text[i]);
        }
    }
}

proof fn lemma_cut_narrow(d: DetailsView, over: int, fields: int)
    requires
        over >= 0,
    ensures
        narrow_details(d) && cut_details(d, over, fields) is Some ==> narrow_details(
            cut_details(d, over, fields)->0,
        ),
{
    if narrow_details(d) && cut_details(d, over, fields) is Some {
        let from_branch = if fields >= 2 {
            smaller(less(d.branch.len() as int, MIN_BRANCH as int), over)
        } else {
            0
        };
        lemma_text_cut_narrow(d.project, (d.project.len() - (over - from_branch)) as nat);
        lemma_text_cut_narrow(d.branch, (d.branch.len() - from_branch) as nat);
    }
}

proof fn lemma_bare_project_columns(d: DetailsView, width: int)
    requires
        width >= 3,
    ensures
        columns(bare_project(d, width).spans) <= width,
{
    reveal(line_in);
    let p = DetailsView { project: cut(d.project, less(width, 3) as nat), ..d };
    lemma_row_step(p, 1, false, DETAIL_TIGHT@);
    lemma_field_columns(p, 0, false);
    reveal_strlit("^P");
    assert(columns(row_spans(p, 0, false, DETAIL_TIGHT@)) == 0);
}

/// Every character of the row takes one column.
pub open spec fn narrow(line: LineView) -> bool {
    display_columns(line.spans) == columns(line.spans)
}

/// Where the row drawn in `width` columns had to be cut, it is made of
/// characters one column wide, and so is what it was cut from, of no more of
/// them than a machine word counts. A row drawn whole is of any characters.
pub open spec fn narrow_if_cut(d: DetailsView, width: int, t: int) -> bool
    decreases 6 - t,
{
    if t >= 6 {
        narrow(bare_project(d, width))
    } else {
        let f = tier(t);
        let whole = line_of(d, f.fields, f.labels, f.gap);
        match form_of(d, form_width(d, t), width, f.fields, f.cuts) {
            FormView::Whole => true,
            FormView::Cut(c) => {
                &&& narrow(whole)
                &&& columns(whole.spans) <= usize::MAX
                &&& narrow(line_of(c, f.fields, f.labels, f.gap))
            },
            FormView::Dropped => narrow_if_cut(d, width, t + 1),
        }
    }
}

/// However narrow the box gets, the details row fits inside it: it gives up a
/// whole field before it runs past the edge.
pub proof fn law_details_row_fits(d: DetailsView, width: int, t: int)
    requires
        3 <= width < usize::MAX,
        0 <= t <= 6,
        narrow_if_cut(d, width, t),
    ensures
        display_columns(row_in(d, width, t).spans) <= width,
    decreases 6 - t,
{
    if t >= 6 {
        lemma_bare_project_columns(d, width);
    } else {
        let f = tier(t);
        let w = form_width(d, t);
        match form_of(d, w, width, f.fields, f.cuts) {
            FormView::Whole => {},
            FormView::Cut(c) => {
                law_cut_takes_what_was_asked(d, w - width, f.fields);
                lemma_line_columns(d, c, f.fields, f.labels, f.gap);
            },
            FormView::Dropped => law_details_row_fits(d, width, t + 1),
        }
    }
}

/// The project is never dropped: every form of the row hands back its columns,
/// first of all.
pub proof fn law_project_is_never_dropped(d: DetailsView, width: int, t: int)
    requires
        0 <= t <= 6,
    ensures
        row_in(d, width, t).fields.len() > 0,
        row_in(d, width, t).fields[0].field == BoxField::Project,
    decreases 6 - t,
{
    if t < 6 {
        law_project_is_never_dropped(d, width, t + 1);
        let f = tier(t);
        let whole = line_of(d, f.fields, f.labels, f.gap);
        let w = capped(display_columns(whole.spans) as int);
        lemma_project_first(d, f.fields, f.labels, f.gap);
        if f.cuts && cut_details(d, w - width, f.fields) is Some {
            lemma_project_first(
                cut_details(d, w - width, f.fields)->0,
                f.fields,
                f.labels,
                f.gap,
            );
        }
    } else {
        lemma_project_first(
            DetailsView { project: cut(d.project, less(width, 3) as nat), ..d },
            1,
            false,
            DETAIL_TIGHT@,
        );
    }
}

proof fn lemma_project_first(d: DetailsView, n: int, labels: bool, gap: Seq<char>)
    requires
        1 <= n <= 4,
    ensures
        line_of(d, n, labels, gap).fields.len() > 0,
        line_of(d, n, labels, gap).fields[0].field == BoxField::Project,
    decreases n,
{
    reveal(line_in);
    if n > 1 {
        lemma_project_first(d, n - 1, labels, gap);
    } else {
        assert(drawn_fields(
            d,
            0,
            labels,
            gap,
            display_width(gap) as int,
            measures(d),
        ).fields =~= Seq::empty());
    }
}

/// What the details row names of a launch: the project and the branch it would
/// run on — a pull request's own head, the branch it would cut, or its
/// checkout's —, the harness by its own name where it has one, and the model
/// with its effort.
pub proof fn law_details_name_the_launch(app: App, launch: QuickLaunch)
    ensures
        ({
            let d = details_of(app, launch);
            let w = the_worktree(app.tree.worktrees@, launch.target->Worktree_0@);
            let model = if launch.model is Some {
                launch.model->0@
            } else {
                "default"@
            };
            let name = if launch.custom is Some {
                launch.custom->0@
            } else {
                launch.kind@
            };
            let effort = launch.effort is Some && launch.effort->0@.len() > 0;
            &&& launch.pr is Some ==> d.branch == launch.pr->0.head@ && !d.pickable
            &&& launch.pr is None ==> d.pickable
            &&& launch.pr is None && launch.target is NewWorktree ==> d.branch
                == launch.target->branch@
            &&& launch.pr is None && launch.target is Worktree && w is Some ==> d.branch
                == w->0.branch@
            &&& launch.pr is None && launch.target is Worktree && w is None ==> d.branch
                == "(worktree gone)"@
            &&& launch.cloud ==> d.harness == name + " · cloud"@
            &&& !launch.cloud ==> d.harness == name
            &&& effort ==> d.model == model + " "@ + launch.effort->0@
            &&& !effort ==> d.model == model
            &&& d.fresh <==> launch.target is NewWorktree
            &&& launch.target is NewWorktree ==> (d.background <==> app.launcher_active
                && app.project_on() is Some && app.project_on()->0.id@ != launch.target->project@)
            &&& launch.target is Worktree && w is None ==> d.project == "(project gone)"@
                && !d.background
            &&& launch.target is NewWorktree && the_project(
                app.tree.projects@,
                launch.target->project@,
            ) is Some ==> d.project == the_project(
                app.tree.projects@,
                launch.target->project@,
            )->0.name@
        }),
{
}

/// The branch yields before the project: the project loses a letter only once
/// the branch is down to its least, or is not drawn; and a cut is given up only
/// where both together cannot yield enough.
pub proof fn law_branch_yields_before_the_project(d: DetailsView, over: int, fields: int)
    requires
        over > 0,
    ensures
        ({
            let c = cut_details(d, over, fields);
            let spare = if fields >= 2 && d.branch.len() > MIN_BRANCH {
                d.branch.len() - MIN_BRANCH
            } else {
                0
            };
            &&& over <= spare ==> c is Some && c->0.project == d.project && c->0.branch.len()
                == d.branch.len() - over
            &&& over > spare && d.project.len() - (over - spare) >= MIN_PROJECT ==> c is Some
                && c->0.project.len() == d.project.len() - (over - spare) && c->0.branch.len()
                == d.branch.len() - spare
            &&& over > spare && d.project.len() - (over - spare) < MIN_PROJECT ==> c is None
        }),
{
    crate::text::law_cut_keeps_the_beginning(d.project, d.project.len());
}

/// The widest form of the row that fits is the one drawn: labelled and airy
/// where that fits whole, and else the first of the tighter ones that fits
/// whole or cut.
pub proof fn law_widest_form_that_fits(d: DetailsView, width: int)
    ensures
        ({
            let airy = line_of(d, 4, true, DETAIL_GAP@);
            let tight = line_of(d, 4, true, DETAIL_TIGHT@);
            let bare = line_of(d, 4, false, DETAIL_TIGHT@);
            let cols = |l: LineView| capped(display_columns(l.spans) as int);
            let row = row_in(d, width, 0);
            &&& cols(airy) <= width ==> row == airy
            &&& cols(airy) > width && cols(tight) <= width ==> row == tight
            &&& cols(airy) > width && cols(tight) > width && cut_details(
                d,
                cols(tight) - width,
                4,
            ) is None && cols(bare) <= width ==> row == bare
        }),
{
    reveal_with_fuel(row_in, 4);
}

proof fn lemma_fields_in_order(d: DetailsView, n: int, labels: bool, gap: Seq<char>)
    requires
        1 <= n <= 4,
        d.pickable,
    ensures
        line_of(d, n, labels, gap).fields.len() == n,
        forall|i: int|
            0 <= i < n ==> (#[trigger] line_of(d, n, labels, gap).fields[i]).field == field_at(i),
    decreases n,
{
    reveal(line_in);
    if n > 1 {
        lemma_fields_in_order(d, n - 1, labels, gap);
    } else {
        assert(drawn_fields(
            d,
            0,
            labels,
            gap,
            display_width(gap) as int,
            measures(d),
        ).fields =~= Seq::empty());
    }
}

/// The row's fields are the project, the worktree, the harness and the model,
/// in that order, each a button of its own; only the branch of a pull request's
/// session is none.
pub proof fn law_fields_come_in_order(d: DetailsView, labels: bool, gap: Seq<char>)
    requires
        d.pickable,
    ensures
        ({
            let f = line_of(d, 4, labels, gap).fields;
            &&& f.len() == 4
            &&& f[0].field == BoxField::Project
            &&& f[1].field == BoxField::Worktree
            &&& f[2].field == BoxField::Agent
            &&& f[3].field == BoxField::Model
        }),
{
    lemma_fields_in_order(d, 4, labels, gap);
}

/// A field is its label where labels are drawn, its value and its chord: the
/// project in the accent while the box is aimed away from the grid, the branch
/// green while it is to be cut, and no chord on a branch nobody picks.
pub proof fn law_field_is_label_value_and_chord(d: DetailsView, labels: bool)
    ensures
        ({
            let at = if labels {
                1int
            } else {
                0
            };
            let (p, b, h, m) = (
                field_spans(d, 0, labels),
                field_spans(d, 1, labels),
                field_spans(d, 2, labels),
                field_spans(d, 3, labels),
            );
            &&& p[at].text == d.project && b[at].text == d.branch && h[at].text == d.harness
                && m[at].text == d.model
            &&& labels ==> p[0].text == "project"@ + " "@ && b[0].text == "worktree"@ + " "@
                && h[0].text == "harness"@ + " "@ && m[0].text == "model"@ + " "@
            &&& p[at + 1].text == " "@ + "^P"@ && h[at + 1].text == " "@ + "Tab"@
                && m[at + 1].text == " "@ + "^O"@
            &&& d.pickable ==> b.len() == at + 2
            &&& !d.pickable ==> b.len() == at + 1
            &&& d.background <==> p[at].style.fg == Some(Ink::Accent)
            &&& d.fresh <==> b[at].style.fg == Some(Ink::Good)
        }),
{
}

/// The box's title names what the box is for, in order: the issue, the pull
/// request, the preset and the sandbox; and one for nothing of these is just a
/// new session.
pub proof fn law_title_says_what_the_box_is_for(launch: QuickLaunch, cloud_name: Seq<char>)
    ensures
        ({
            let t = title_parts(launch, cloud_name);
            let plain = QuickLaunch { cloud: false, ..launch };
            &&& launch.issue is None && launch.pr is None && launch.preset is None
                && !launch.cloud ==> t == "New session"@
            &&& launch.issue is Some && launch.pr is None && launch.preset is None
                && !launch.cloud ==> t == "New session"@ + " · issue #"@ + decimal(
                launch.issue->0.number as nat,
            )
            &&& launch.pr is Some && launch.issue is None && launch.preset is None
                && !launch.cloud ==> t == "New session"@ + " · PR #"@ + decimal(
                launch.pr->0.number as nat,
            )
            &&& launch.preset is Some && launch.issue is None && launch.pr is None
                && !launch.cloud ==> t == "New session"@ + " · "@ + launch.preset->0@
            &&& launch.cloud ==> t == title_parts(plain, cloud_name) + " · "@ + cloud_name
        }),
{
    let t = title_parts(launch, cloud_name);
    let plain = QuickLaunch { cloud: false, ..launch };
    let none = Seq::<char>::empty();
    let head = "New session"@;
    if launch.issue is None && launch.pr is None && launch.preset is None && !launch.cloud {
        assert(t =~= head);
    }
    if launch.issue is Some && launch.pr is None && launch.preset is None && !launch.cloud {
        assert(t =~= head + " · issue #"@ + decimal(launch.issue->0.number as nat));
    }
    if launch.pr is Some && launch.issue is None && launch.preset is None && !launch.cloud {
        assert(t =~= head + " · PR #"@ + decimal(launch.pr->0.number as nat));
    }
    if launch.preset is Some && launch.issue is None && launch.pr is None && !launch.cloud {
        assert(t =~= head + " · "@ + launch.preset->0@);
    }
    if launch.cloud {
        let p = title_parts(plain, cloud_name);
        assert(t =~= p + " · "@ + cloud_name);
    }
}

/// The right of the box's header is the toggle with its state, and for a pull
/// request's session what becomes of its head instead.
pub proof fn law_toggle_shows_its_state(launch: QuickLaunch)
    ensures
        launch.pr is Some ==> target_right(launch)[0].text == "reused or cut on Enter"@
            && target_right(launch).len() == 1,
        launch.pr is None && launch.target is NewWorktree ==> target_right(launch)[0].text
            == "[✓] new worktree"@ && target_right(launch)[1].text == " ^N"@,
        launch.pr is None && launch.target is Worktree ==> target_right(launch)[0].text
            == "[ ] new worktree"@ && target_right(launch)[1].text == " ^N"@,
{
}

/// The box's header row fills its width: the label, cut to what the right side
/// leaves, blanks, and the right side up to the edge; where the right side does
/// not fit the label stands alone.
pub proof fn law_header_row_fills_its_width(
    launch: QuickLaunch,
    label: Seq<char>,
    width: int,
    right_w: int,
)
    requires
        0 <= right_w,
        0 <= width,
    ensures
        ({
            let row = target_spans(launch, label, width, right_w);
            let left = row[0].text;
            &&& left == cut(label, less(width, right_w + 1) as nat)
            &&& left.len() + right_w < width ==> row.len() == 2 + target_right(launch).len()
                && left.len() + row[1].text.len() + right_w == width
            &&& left.len() + right_w >= width ==> row.len() == 1
            &&& toggle_at(launch, label, width, right_w) is Some <==> launch.pr is None
                && left.len() + right_w < width
        }),
{
}

/// The hint is the fullest one that fits its border: none of the others that
/// fits says more.
pub proof fn law_hint_is_the_fullest_that_fits(width: u16)
    requires
        width >= 11,
    ensures
        ({
            let all = seq![
                " Enter launch · ⇧Enter newline · ⇧Tab preset · Esc cancel "@,
                " Enter launch · ⇧Tab preset · Esc cancel "@,
                " Enter launch · Esc cancel "@,
                " ↵ launch · Esc cancel "@,
                " ↵ · Esc "@,
            ];
            &&& hint(width).len() + 2 <= width
            &&& exists|i: int|
                0 <= i < 5 && hint(width) == #[trigger] all[i] && forall|k: int|
                    0 <= k < i ==> (#[trigger] all[k]).len() + 2 > width
        }),
{
    law_hint_fits_its_border(width);
    reveal_strlit(" Enter launch · ⇧Enter newline · ⇧Tab preset · Esc cancel ");
    reveal_strlit(" Enter launch · ⇧Tab preset · Esc cancel ");
    reveal_strlit(" Enter launch · Esc cancel ");
    reveal_strlit(" ↵ launch · Esc cancel ");
    reveal_strlit(" ↵ · Esc ");
    let all = seq![
        " Enter launch · ⇧Enter newline · ⇧Tab preset · Esc cancel "@,
        " Enter launch · ⇧Tab preset · Esc cancel "@,
        " Enter launch · Esc cancel "@,
        " ↵ launch · Esc cancel "@,
        " ↵ · Esc "@,
    ];
    let i: int = if width >= 60 {
        0
    } else if width >= 43 {
        1
    } else if width >= 29 {
        2
    } else if width >= 25 {
        3
    } else {
        4
    };
    assert(hint(width) == all[i]);
    assert(all[0].len() == 58 && all[1].len() == 41 && all[2].len() == 27 && all[3].len() == 23);
}

} // verus!
