//! The header over the grid: the PROJECT TABS on the left, how many cards the
//! grid holds on the right.

use crate::folders::{
    current_folder, folder, folder_text, folders, folders_of, last_part, last_part_text,
};
use crate::launcher::{project_tabs, tabs_of, ProjectTab, Tally};
use crate::layout::{larger, less, min_usize, smaller, Rect};
use crate::state::{hovers, App, Hit, HitTarget, HitView};
use crate::text::{cut, decimal, decimal_text, joined, truncate};
use crate::view::span::{
    bare, columns, inked, lemma_columns_push, push_span, span, Ink, Ramp, Span, SpanView, Style,
    Sweep,
};
use crate::view::strip::{
    capped, count_room, law_window_fits, law_window_holds_the_lit_tab, lay_out,
    lemma_strip_width_concat, lemma_strip_width_push, lemma_taken_grows, one_span, plain_tab,
    push_tab, room_for, strip_hits, strip_spans, strip_width, taken, width_of, window, window_of,
    PaneTab, TabView,
};
use crate::views::{group_views, opt, views};
use vstd::prelude::*;

verus! {

/// Longest a project's name is drawn on its PROJECT TAB before it is
/// clipped, so one long name cannot push every other tab off the row.
pub const PROJECT_TAB_MAX: usize = 20;
/// How much of a FOLDER's name the header chip shows before it is cut.
pub const FOLDER_NAME_MAX: usize = 18;
/// The characters around the digits of a count at the edge of the row.
pub const MARK_FRAME: usize = 2;
/// A name the row has to cut is never cut under this: at that point the
/// tab gives way whole, and the count at the edge of the row says so.
pub const TAB_NAME_MIN: usize = 3;
/// The button before the first PROJECT TAB, and what it says with no tab
/// beside it.
pub const ADD: &'static str = "+";
pub const ADD_EMPTY: &'static str = "+ open a project";

// ---- one tab ----

/// A status dot with its count, nothing for a count of nothing.
pub open spec fn dot(n: usize, ink: Ink) -> Seq<SpanView> {
    if n > 0 {
        seq![span(" ●"@ + decimal(n as nat), inked(ink))]
    } else {
        Seq::empty()
    }
}

/// The dots of a tally: waiting on you, finished unread, working.
pub open spec fn dots(tally: Tally) -> Seq<SpanView> {
    dot(tally.needs_you, Ink::Alarm) + dot(tally.done, Ink::Done) + dot(tally.running, Ink::Warn)
}

fn push_dot(out: &mut Vec<Span>, n: usize, ink: Ink)
    ensures
        views(final(out)@) == views(old(out)@) + dot(n, ink),
{
    broadcast use group_views;

    let ghost before = views(out@);
    if n > 0 {
        out.push(Span::styled(joined(" ●", &decimal_text(n as u64)), Style::ink(ink)));
        assert(views(out@) =~= before + dot(n, ink));
    } else {
        assert(before + dot(n, ink) =~= before);
    }
}

/// A PROJECT TAB's STATUS DOTS: one per state its sessions are in, each
/// carrying that state's count and no word at all. Waiting on you leads,
/// then finished unread, then working. A state with nothing in it is left
/// out, so a quiet project is its bare name.
pub fn tab_dots(tally: Tally) -> (r: Vec<Span>)
    ensures
        views(r@) == dots(tally),
{
    let mut out: Vec<Span> = Vec::new();
    assert(views(out@) =~= Seq::empty());
    push_dot(&mut out, tally.needs_you, Ink::Alarm);
    push_dot(&mut out, tally.done, Ink::Done);
    push_dot(&mut out, tally.running, Ink::Warn);
    assert(views(out@) =~= dots(tally));
    out
}

/// The loudest of what a tally counts: waiting on you whatever else is going
/// on, then mid-turn, then finished unread.
pub open spec fn loudest(tally: Tally) -> Option<Ramp> {
    if tally.needs_you > 0 {
        Some(Ramp::Alarm)
    } else if tally.running > 0 {
        Some(Ramp::Warn)
    } else if tally.done > 0 {
        Some(Ramp::Done)
    } else {
        None
    }
}

/// The ramp a PROJECT TAB's name sweeps on: red while any of its sessions
/// waits on you; yellow while any is mid-turn; and blue once none is, for as
/// long as a finish is left unread. A quiet project holds still.
pub fn tab_ramp(tally: Tally) -> (r: Option<Ramp>)
    ensures
        r == loudest(tally),
{
    if tally.needs_you > 0 {
        Some(Ramp::Alarm)
    } else if tally.running > 0 {
        Some(Ramp::Warn)
    } else if tally.done > 0 {
        Some(Ramp::Done)
    } else {
        None
    }
}

/// The style on the raised chip of the tab the grid is on.
pub open spec fn filled(style: Style, active: bool) -> Style {
    if active {
        Style { bg: Some(Ink::SelBg), ..style }
    } else {
        style
    }
}

pub open spec fn filled_spans(spans: Seq<SpanView>, active: bool) -> Seq<SpanView> {
    Seq::new(spans.len(), |i: int| SpanView { style: filled(spans[i].style, active), ..spans[i] })
}

/// A tab as two hits side by side: the tab, and the cross that closes it.
pub struct ChipView {
    pub label: TabView,
    pub close: TabView,
}

impl ChipView {
    /// The characters it draws.
    pub open spec fn width(self) -> nat {
        self.label.width() + self.close.width()
    }
}

/// The pad in front of a tab's name.
pub open spec fn pad_style(tab: ProjectTab) -> Style {
    if tab.focused {
        Style { fg: Some(Ink::OnAccent), bg: Some(Ink::Accent), ..bare() }
    } else {
        filled(bare(), tab.active)
    }
}

/// How a tab's name is drawn: as the header's own cursor, as the lit tab, or
/// flat; underlined under the pointer.
pub open spec fn name_style(tab: ProjectTab, hover: Option<HitView>) -> Style {
    if tab.focused {
        Style { fg: Some(Ink::OnAccent), bg: Some(Ink::Accent), bold: true, underlined: false }
    } else {
        filled(
            Style {
                fg: Some(
                    if tab.active {
                        Ink::Accent
                    } else {
                        Ink::Muted
                    },
                ),
                bg: None,
                bold: tab.active,
                underlined: hover == Some(HitView::LauncherTab(tab.id@)),
            },
            tab.active,
        )
    }
}

/// What keeps a tab's name in motion; the header's cursor holds still.
pub open spec fn name_sweep(tab: ProjectTab, phase: Option<usize>) -> Option<Sweep> {
    match (phase, loudest(tab.tally)) {
        (Some(phase), Some(ramp)) => if tab.focused {
            None
        } else {
            Some(Sweep::Tab { ramp, phase })
        },
        _ => None,
    }
}

/// The color of a tab's cross.
pub open spec fn cross_ink(tab: ProjectTab, hover: Option<HitView>) -> Ink {
    if hover == Some(HitView::LauncherTabClose(tab.id@)) {
        Ink::Alarm
    } else if tab.active {
        Ink::Muted
    } else {
        Ink::Dim
    }
}

/// The tab, its name cut to `name_max`.
pub open spec fn chip(
    tab: ProjectTab,
    name_max: nat,
    hover: Option<HitView>,
    closable: bool,
    phase: Option<usize>,
) -> ChipView {
    ChipView {
        label: TabView {
            spans: seq![
                span(" "@, pad_style(tab)),
                SpanView {
                    text: cut(tab.name@, name_max),
                    style: name_style(tab, hover),
                    sweep: name_sweep(tab, phase),
                },
            ] + filled_spans(dots(tab.tally), tab.active),
            hit: Some(HitView::LauncherTab(tab.id@)),
        },
        close: if closable {
            TabView {
                spans: seq![span(" × "@, filled(inked(cross_ink(tab, hover)), tab.active))],
                hit: Some(HitView::LauncherTabClose(tab.id@)),
            }
        } else {
            plain_tab(seq![span(" "@, filled(bare(), tab.active))])
        },
    }
}

fn fill(style: Style, active: bool) -> (r: Style)
    ensures
        r == filled(style, active),
{
    if active {
        Style { bg: Some(Ink::SelBg), ..style }
    } else {
        style
    }
}

/// One PROJECT TAB, as two hits side by side: the tab — its name and its
/// STATUS DOTS — and the `×` that closes it, a target of its own so a click on
/// the cross never reads as a click on the tab. The lit tab is a raised chip
/// with its name in the accent; the rest sit flat and muted. The name is cut
/// to `name_max`. A tab that cannot be closed ends on a plain pad instead of
/// the cross.
///
/// `sweep` is the frame's sweep phase, None with the animations off: with it,
/// the name sweeps on the loudest thing its sessions are doing.
pub fn project_chip(
    tab: &ProjectTab,
    name_max: usize,
    hover: &Option<HitTarget>,
    closable: bool,
    sweep: Option<usize>,
) -> (r: (PaneTab, PaneTab))
    ensures
        r.0@ == chip(*tab, name_max as nat, opt(*hover), closable, sweep).label,
        r.1@ == chip(*tab, name_max as nat, opt(*hover), closable, sweep).close,
{
    broadcast use group_views;

    let ghost hv = opt(*hover);
    let lit_hit = HitTarget::LauncherTab(tab.id.clone());
    let close_hit = HitTarget::LauncherTabClose(tab.id.clone());
    let (pad, name) = if tab.focused {
        let cursor = Style {
            fg: Some(Ink::OnAccent),
            bg: Some(Ink::Accent),
            bold: false,
            underlined: false,
        };
        (cursor, Style { bold: true, ..cursor })
    } else {
        let base = Style {
            fg: Some(
                if tab.active {
                    Ink::Accent
                } else {
                    Ink::Muted
                },
            ),
            bg: None,
            bold: tab.active,
            underlined: hovers(hover, &lit_hit),
        };
        (fill(Style::raw(), tab.active), fill(base, tab.active))
    };
    let motion: Option<Sweep> = match (sweep, tab_ramp(tab.tally)) {
        (Some(phase), Some(ramp)) => if tab.focused {
            None
        } else {
            Some(Sweep::Tab { ramp, phase })
        },
        _ => None,
    };
    let mut label: Vec<Span> = Vec::new();
    label.push(Span::of(" ", pad));
    label.push(Span { text: truncate(&tab.name, name_max), style: name, sweep: motion });
    let ghost head = views(label@);
    let ghost all = dots(tab.tally);
    let marks = tab_dots(tab.tally);
    let mut i: usize = 0;
    assert(filled_spans(all, tab.active).take(0) =~= Seq::empty());
    assert(views(label@) =~= head + filled_spans(all, tab.active).take(0));
    while i < marks.len()
        invariant
            i <= marks@.len(),
            views(marks@) == all,
            views(label@) == head + filled_spans(all, tab.active).take(i as int),
        decreases marks@.len() - i,
    {
        let mark = &marks[i];
        assert(all[i as int] == mark@);
        push_span(
            &mut label,
            Span {
                text: mark.text.clone(),
                style: fill(mark.style, tab.active),
                sweep: mark.sweep,
            },
        );
        i += 1;
        assert(views(label@) =~= head + filled_spans(all, tab.active).take(i as int));
    }
    proof {
        let c = chip(*tab, name_max as nat, hv, closable, sweep);
        assert(filled_spans(all, tab.active).take(i as int) =~= filled_spans(all, tab.active));
        assert(views(label@) =~= c.label.spans);
    }
    let cross: Ink = if hovers(hover, &close_hit) {
        Ink::Alarm
    } else if tab.active {
        Ink::Muted
    } else {
        Ink::Dim
    };
    let mut end: Vec<Span> = Vec::new();
    let close: PaneTab = if closable {
        end.push(Span::of(" × ", fill(Style::ink(cross), tab.active)));
        assert(views(end@) =~= seq![
            span(" × "@, filled(inked(cross_ink(*tab, hv)), tab.active)),
        ]);
        PaneTab { spans: end, hit: Some(close_hit) }
    } else {
        end.push(Span::of(" ", fill(Style::raw(), tab.active)));
        assert(views(end@) =~= seq![span(" "@, filled(bare(), tab.active))]);
        PaneTab::plain(end)
    };
    (PaneTab { spans: label, hit: Some(lit_hit) }, close)
}

// ---- the tabs of a row ----

/// The first place that is true.
pub open spec fn first_true(flags: Seq<bool>) -> Option<int>
    decreases flags.len(),
{
    if flags.len() == 0 {
        None
    } else if flags[0] {
        Some(0)
    } else {
        match first_true(flags.drop_first()) {
            Some(i) => Some(i + 1),
            None => None,
        }
    }
}

/// [`first_true`] is the first place that is true, and nothing where none is.
pub proof fn lemma_first_true(flags: Seq<bool>)
    ensures
        match first_true(flags) {
            Some(i) => 0 <= i < flags.len() && flags[i] && forall|k: int| 0 <= k < i ==> !flags[k],
            None => forall|k: int| 0 <= k < flags.len() ==> !flags[k],
        },
    decreases flags.len(),
{
    if flags.len() > 0 && !flags[0] {
        let rest = flags.drop_first();
        lemma_first_true(rest);
        assert forall|k: int| 0 < k < flags.len() implies flags[k] == rest[k - 1] by {}
    }
}

fn find_true(flags: &Vec<bool>) -> (r: Option<usize>)
    ensures
        match r {
            Some(i) => i < flags@.len() && first_true(flags@) == Some(i as int),
            None => first_true(flags@) is None,
        },
{
    proof {
        lemma_first_true(flags@);
    }
    let mut i: usize = 0;
    while i < flags.len()
        invariant
            i <= flags@.len(),
            forall|k: int| 0 <= k < i ==> !flags@[k],
        decreases flags@.len() - i,
    {
        if flags[i] {
            proof {
                lemma_first_true(flags@);
            }
            return Some(i);
        }
        i += 1;
    }
    None
}

/// The tab the window has to hold: the one under the header's cursor, else the
/// one the grid is on.
pub open spec fn lit_tab(tabs: Seq<ProjectTab>) -> Option<int> {
    match first_true(Seq::new(tabs.len(), |i: int| tabs[i].focused)) {
        Some(i) => Some(i),
        None => first_true(Seq::new(tabs.len(), |i: int| tabs[i].active)),
    }
}

fn find_lit(tabs: &Vec<ProjectTab>) -> (r: Option<usize>)
    ensures
        match r {
            Some(i) => i < tabs@.len() && lit_tab(tabs@) == Some(i as int),
            None => lit_tab(tabs@) is None,
        },
{
    let mut focused: Vec<bool> = Vec::new();
    let mut active: Vec<bool> = Vec::new();
    let mut i: usize = 0;
    while i < tabs.len()
        invariant
            i <= tabs@.len(),
            focused@ == Seq::new(i as nat, |k: int| tabs@[k].focused),
            active@ == Seq::new(i as nat, |k: int| tabs@[k].active),
        decreases tabs@.len() - i,
    {
        focused.push(tabs[i].focused);
        active.push(tabs[i].active);
        i += 1;
        assert(focused@ =~= Seq::new(i as nat, |k: int| tabs@[k].focused));
        assert(active@ =~= Seq::new(i as nat, |k: int| tabs@[k].active));
    }
    assert(focused@ =~= Seq::new(tabs@.len(), |k: int| tabs@[k].focused));
    assert(active@ =~= Seq::new(tabs@.len(), |k: int| tabs@[k].active));
    match find_true(&focused) {
        Some(i) => Some(i),
        None => find_true(&active),
    }
}

/// What a tab is drawn with, besides itself.
pub struct TabLook {
    pub hover: Option<HitView>,
    /// More than one tab is open.
    pub closable: bool,
    pub phase: Option<usize>,
}

/// How many columns each tab takes with its name at its longest.
pub open spec fn chip_widths(tabs: Seq<ProjectTab>, look: TabLook) -> Seq<usize> {
    Seq::new(
        tabs.len(),
        |i: int|
            capped(
                chip(
                    tabs[i],
                    PROJECT_TAB_MAX as nat,
                    look.hover,
                    look.closable,
                    look.phase,
                ).width() as int,
            ) as usize,
    )
}

/// The tabs of a row that are drawn: those from `start` to `end`, their names
/// at most `name_max` long.
pub struct Drawn {
    pub start: int,
    pub end: int,
    pub name_max: nat,
}

/// The tabs drawn in `budget` columns: the window of whole tabs that holds the
/// lit one; where not even one tab fits whole, the one the window starts on
/// with its name cut to what is left, as long as that leaves enough of it; and
/// none else.
pub open spec fn drawn(tabs: Seq<ProjectTab>, look: TabLook, budget: int) -> Drawn {
    let widths = chip_widths(tabs, look);
    let (start, end) = window(widths, 1, MARK_FRAME as nat, lit_tab(tabs), budget);
    let none = Drawn { start: 0, end: 0, name_max: PROJECT_TAB_MAX as nat };
    if start < end {
        Drawn { start, end, name_max: PROJECT_TAB_MAX as nat }
    } else if start < tabs.len() {
        let markers = count_room(MARK_FRAME as nat, start) + count_room(
            MARK_FRAME as nat,
            tabs.len() - start - 1,
        );
        let overhead = widths[start] - smaller(tabs[start].name@.len() as int, PROJECT_TAB_MAX as int);
        let name_room = less(budget, markers + overhead);
        if name_room >= TAB_NAME_MIN {
            Drawn { start, end: start + 1, name_max: name_room as nat }
        } else {
            none
        }
    } else {
        none
    }
}

/// A blank between two tabs.
pub open spec fn gap_tab() -> TabView {
    plain_tab(seq![span(" "@, bare())])
}

/// The tabs from `start` to `end`, a blank between two.
pub open spec fn shown_tabs(
    tabs: Seq<ProjectTab>,
    look: TabLook,
    name_max: nat,
    start: int,
    end: int,
) -> Seq<TabView>
    decreases end - start,
{
    if end <= start {
        Seq::empty()
    } else {
        let c = chip(tabs[end - 1], name_max, look.hover, look.closable, look.phase);
        shown_tabs(tabs, look, name_max, start, end - 1) + (if end - 1 > start {
            seq![gap_tab()]
        } else {
            Seq::empty()
        }) + seq![c.label, c.close]
    }
}

/// The count of the tabs past the left edge.
pub open spec fn left_mark(n: int) -> TabView {
    plain_tab(seq![span("‹"@ + decimal(n as nat) + " "@, inked(Ink::Dim))])
}

/// The count of the tabs past the right edge.
pub open spec fn right_mark(n: int) -> TabView {
    plain_tab(seq![span(" "@ + decimal(n as nat) + "›"@, inked(Ink::Dim))])
}

/// The strip of tabs in `budget` columns, the tabs that do not fit counted at
/// the edge they went past.
pub open spec fn tab_strip(tabs: Seq<ProjectTab>, look: TabLook, budget: int) -> Seq<TabView> {
    let d = drawn(tabs, look, budget);
    let left = if d.start > 0 {
        seq![left_mark(d.start)]
    } else {
        Seq::empty()
    };
    let strip = left + shown_tabs(tabs, look, d.name_max, d.start, d.end);
    let right = right_mark(tabs.len() - d.end);
    if d.end < tabs.len() && strip_width(strip) + right.width() <= budget {
        strip.push(right)
    } else {
        strip
    }
}

/// The folder named ahead of the tabs, where there is more than one to be in
/// and it has a name.
pub open spec fn folder_named(app: App) -> Option<Seq<char>> {
    match current_folder(app) {
        Some(f) => if folders_of(app).len() > 1 && last_part(f).len() > 0 {
            Some(last_part(f))
        } else {
            None
        },
        None => None,
    }
}

/// The columns the folder's name takes.
pub open spec fn folder_width(folder: Option<Seq<char>>) -> int {
    match folder {
        Some(name) => smaller(name.len() as int, FOLDER_NAME_MAX as int) + 3,
        None => 0,
    }
}

/// The button that opens a project.
pub open spec fn add_tab(text: Seq<char>, hover: Option<HitView>) -> TabView {
    let style = if hover == Some(HitView::LauncherTabAdd) {
        Style { fg: Some(Ink::Accent), underlined: true, ..bare() }
    } else {
        inked(Ink::Muted)
    };
    TabView {
        spans: seq![span(" "@, bare()), span(text, style), span(" "@, bare())],
        hit: Some(HitView::LauncherTabAdd),
    }
}

/// The folder's name and the divider behind it.
pub open spec fn folder_tab(name: Seq<char>) -> TabView {
    plain_tab(
        seq![
            span(
                " "@ + cut(name, FOLDER_NAME_MAX as nat),
                Style { fg: Some(Ink::Muted), bold: true, ..bare() },
            ),
            span(" │"@, inked(Ink::Dim)),
        ],
    )
}

/// What the button that opens a project says.
pub open spec fn add_text(tabs: Seq<ProjectTab>) -> Seq<char> {
    if tabs.len() == 0 {
        ADD_EMPTY@
    } else {
        ADD@
    }
}

/// What the tabs are drawn with.
pub open spec fn look_of(app: App, tabs: Seq<ProjectTab>) -> TabLook {
    TabLook {
        hover: opt(app.screen.hover_crumb),
        closable: tabs.len() > 1,
        phase: if app.screen.animations {
            Some(app.screen.sweep_phase)
        } else {
            None
        },
    }
}

/// The columns left for the folder, the button and the tabs.
pub open spec fn head_room(app: App, width: int, taken: int) -> int {
    less(width, taken + 2 + folder_width(folder_named(app)))
}

/// The columns left for the tabs.
pub open spec fn tab_budget(app: App, width: int, taken: int) -> int {
    less(head_room(app, width, taken), add_text(tabs_of(&app)).len() as int + 3)
}

/// What leads the row: the folder's name, and the button where it fits.
pub open spec fn head_lead(app: App, width: int, taken: int) -> Seq<TabView> {
    let text = add_text(tabs_of(&app));
    let folder = match folder_named(app) {
        Some(name) => seq![folder_tab(name)],
        None => Seq::empty(),
    };
    if text.len() + 2 <= head_room(app, width, taken) {
        folder.push(add_tab(text, opt(app.screen.hover_crumb)))
    } else {
        folder
    }
}

/// The header's row of tabs, `width` columns wide, `taken` of them spent.
#[verifier::opaque]
pub open spec fn head_row(app: App, width: int, taken: int) -> Seq<TabView> {
    let tabs = tabs_of(&app);
    let lead = head_lead(app, width, taken);
    let strip = tab_strip(tabs, look_of(app, tabs), tab_budget(app, width, taken));
    let gap = if lead.len() > 0 && strip.len() > 0 {
        seq![gap_tab()]
    } else {
        Seq::empty()
    };
    lead + gap + strip
}

proof fn lemma_filled_columns(spans: Seq<SpanView>, active: bool)
    ensures
        columns(filled_spans(spans, active)) == columns(spans),
    decreases spans.len(),
{
    if spans.len() > 0 {
        lemma_filled_columns(spans.drop_last(), active);
        assert(filled_spans(spans, active).drop_last() =~= filled_spans(
            spans.drop_last(),
            active,
        ));
    }
}

proof fn lemma_dot_columns(n: usize, ink: Ink)
    ensures
        columns(dot(n, ink)) <= 22,
{
    reveal_strlit(" ●");
    crate::text::lemma_decimal_len(n as nat);
    if n > 0 {
        lemma_columns_push(Seq::<SpanView>::empty(), dot(n, ink)[0]);
        assert(dot(n, ink) =~= Seq::<SpanView>::empty().push(dot(n, ink)[0]));
    }
}

/// What a tab takes besides its name.
pub open spec fn chip_frame(tab: ProjectTab, closable: bool) -> nat {
    (1 + columns(dots(tab.tally)) + if closable {
        3
    } else {
        1int
    }) as nat
}

/// A tab is its name, whole or cut, and a frame a few characters wide.
proof fn lemma_chip_width(
    tab: ProjectTab,
    name_max: nat,
    hover: Option<HitView>,
    closable: bool,
    phase: Option<usize>,
)
    ensures
        chip(tab, name_max, hover, closable, phase).width() == cut(tab.name@, name_max).len()
            + chip_frame(tab, closable),
        2 <= chip_frame(tab, closable) <= 70,
        cut(tab.name@, name_max).len() == smaller(tab.name@.len() as int, name_max as int),
{
    let c = chip(tab, name_max, hover, closable, phase);
    let head = seq![c.label.spans[0], c.label.spans[1]];
    let marks = dots(tab.tally);
    let rest = filled_spans(marks, tab.active);
    assert(c.label.spans =~= head + rest);
    crate::view::span::lemma_columns_concat(head, rest);
    lemma_filled_columns(marks, tab.active);
    lemma_columns_push(Seq::<SpanView>::empty(), head[0]);
    lemma_columns_push(Seq::<SpanView>::empty().push(head[0]), head[1]);
    assert(head =~= Seq::<SpanView>::empty().push(head[0]).push(head[1]));
    lemma_columns_push(Seq::<SpanView>::empty(), c.close.spans[0]);
    assert(c.close.spans =~= Seq::<SpanView>::empty().push(c.close.spans[0]));
    reveal_strlit(" ");
    reveal_strlit(" × ");
    let (x, y, z) = (
        dot(tab.tally.needs_you, Ink::Alarm),
        dot(tab.tally.done, Ink::Done),
        dot(tab.tally.running, Ink::Warn),
    );
    lemma_dot_columns(tab.tally.needs_you, Ink::Alarm);
    lemma_dot_columns(tab.tally.done, Ink::Done);
    lemma_dot_columns(tab.tally.running, Ink::Warn);
    crate::view::span::lemma_columns_concat(x, y);
    crate::view::span::lemma_columns_concat(x + y, z);
    assert(marks == x + y + z);
}

fn gap() -> (r: PaneTab)
    ensures
        r@ == gap_tab(),
{
    PaneTab::plain(one_span(Span::of(" ", Style::raw())))
}

fn count_mark(before: &str, n: usize, after: &str) -> (r: PaneTab)
    ensures
        r@ == plain_tab(seq![span(before@ + decimal(n as nat) + after@, inked(Ink::Dim))]),
{
    let text = joined(&joined(before, &decimal_text(n as u64)), after);
    PaneTab::plain(one_span(Span::styled(text, Style::ink(Ink::Dim))))
}

fn folder_label(app: &App) -> (r: Option<String>)
    ensures
        opt(r) == folder_named(*app),
{
    let here: String = match app.selected_project() {
        Some(p) => folder_text(&p.repo_path),
        None => return None,
    };
    let all = folders(app);
    assert(views(all@).len() == all@.len());
    if all.len() < 2 {
        return None;
    }
    let name = last_part_text(&here);
    if name.as_str().is_empty() {
        None
    } else {
        Some(name)
    }
}

fn widths_of(tabs: &Vec<ProjectTab>, hover: &Option<HitTarget>, closable: bool, phase: Option<usize>) -> (r:
    Vec<usize>)
    ensures
        r@ == chip_widths(tabs@, TabLook { hover: opt(*hover), closable, phase }),
{
    let ghost look = TabLook { hover: opt(*hover), closable, phase };
    let mut out: Vec<usize> = Vec::new();
    let mut i: usize = 0;
    while i < tabs.len()
        invariant
            i <= tabs@.len(),
            look == (TabLook { hover: opt(*hover), closable, phase }),
            out@ == chip_widths(tabs@.take(i as int), look),
        decreases tabs@.len() - i,
    {
        let (label, close) = project_chip(&tabs[i], PROJECT_TAB_MAX, hover, closable, phase);
        out.push(label.width().saturating_add(close.width()));
        i += 1;
        assert(out@ =~= chip_widths(tabs@.take(i as int), look));
    }
    assert(tabs@.take(i as int) =~= tabs@);
    out
}

/// Which tabs are drawn in `budget` columns, and how long their names are.
fn choose_drawn(
    tabs: &Vec<ProjectTab>,
    hover: &Option<HitTarget>,
    phase: Option<usize>,
    budget: usize,
) -> (r: (usize, usize, usize))
    ensures
        drawn(
            tabs@,
            TabLook { hover: opt(*hover), closable: tabs@.len() > 1, phase },
            budget as int,
        ) == (Drawn { start: r.0 as int, end: r.1 as int, name_max: r.2 as nat }),
        r.0 <= r.1 <= tabs@.len(),
{
    let closable: bool = tabs.len() > 1;
    let ghost look = TabLook { hover: opt(*hover), closable, phase };
    let widths = widths_of(tabs, hover, closable, phase);
    let lit = find_lit(tabs);
    let (start, end) = window_of(&widths, 1, MARK_FRAME, lit, budget);
    if start < end {
        return (start, end, PROJECT_TAB_MAX);
    }
    if start < tabs.len() {
        let before: usize = room_for(MARK_FRAME, start);
        let after: usize = room_for(MARK_FRAME, tabs.len() - start - 1);
        let name: usize = min_usize(crate::text::char_count(&tabs[start].name), PROJECT_TAB_MAX);
        proof {
            lemma_chip_width(
                tabs@[start as int],
                PROJECT_TAB_MAX as nat,
                look.hover,
                closable,
                phase,
            );
        }
        let overhead: usize = widths[start] - name;
        let name_room: usize = budget.saturating_sub(before + after).saturating_sub(overhead);
        if name_room >= TAB_NAME_MIN {
            return (start, start + 1, name_room);
        }
    }
    (0, 0, PROJECT_TAB_MAX)
}

/// The strip of PROJECT TABS in `budget` columns.
pub fn project_strip(
    tabs: &Vec<ProjectTab>,
    hover: &Option<HitTarget>,
    phase: Option<usize>,
    budget: usize,
) -> (r: Vec<PaneTab>)
    ensures
        views(r@) == tab_strip(
            tabs@,
            TabLook { hover: opt(*hover), closable: tabs@.len() > 1, phase },
            budget as int,
        ),
{
    let closable: bool = tabs.len() > 1;
    let ghost look = TabLook { hover: opt(*hover), closable, phase };
    let (start, end, name_max) = choose_drawn(tabs, hover, phase, budget);
    let ghost d = drawn(tabs@, look, budget as int);
    let mut row: Vec<PaneTab> = Vec::new();
    assert(views(row@) =~= Seq::empty());
    let ghost left = if start > 0 {
        seq![left_mark(start as int)]
    } else {
        Seq::empty()
    };
    if start > 0 {
        push_tab(&mut row, count_mark("‹", start, " "));
        assert(views(row@) =~= left);
    }
    let mut i: usize = start;
    assert(views(row@) =~= left + shown_tabs(
        tabs@,
        look,
        name_max as nat,
        start as int,
        i as int,
    ));
    while i < end
        invariant
            start <= i <= end <= tabs@.len(),
            look == (TabLook { hover: opt(*hover), closable, phase }),
            views(row@) == left + shown_tabs(
                tabs@,
                look,
                name_max as nat,
                start as int,
                i as int,
            ),
        decreases end - i,
    {
        if i > start {
            push_tab(&mut row, gap());
        }
        let (label, close) = project_chip(&tabs[i], name_max, hover, closable, phase);
        push_tab(&mut row, label);
        push_tab(&mut row, close);
        i += 1;
        assert(views(row@) =~= left + shown_tabs(
            tabs@,
            look,
            name_max as nat,
            start as int,
            i as int,
        ));
    }
    let ghost strip = left + shown_tabs(tabs@, look, d.name_max, d.start, d.end);
    assert(views(row@) == strip);
    if end < tabs.len() {
        let used: usize = width_of(&row);
        let mark = count_mark(" ", tabs.len() - end, "›");
        let own: usize = mark.width();
        proof {
            lemma_mark_width(tabs@.len() - d.end);
            assert(mark@ == right_mark(tabs@.len() - d.end));
        }
        if used <= budget && budget - used >= own {
            push_tab(&mut row, mark);
        }
    }
    row
}

/// A count at either edge is its digits and two characters.
proof fn lemma_mark_width(n: int)
    ensures
        right_mark(n).width() == decimal(n as nat).len() + MARK_FRAME,
        left_mark(n).width() == decimal(n as nat).len() + MARK_FRAME,
        3 <= right_mark(n).width(),
        0 <= n <= usize::MAX ==> right_mark(n).width() <= 22,
{
    reveal_strlit("›");
    reveal_strlit("‹");
    reveal_strlit(" ");
    if 0 <= n <= usize::MAX {
        crate::text::lemma_decimal_len(n as nat);
    }
    let right = right_mark(n).spans;
    let left = left_mark(n).spans;
    lemma_columns_push(Seq::<SpanView>::empty(), right[0]);
    assert(right =~= Seq::<SpanView>::empty().push(right[0]));
    lemma_columns_push(Seq::<SpanView>::empty(), left[0]);
    assert(left =~= Seq::<SpanView>::empty().push(left[0]));
}

/// What leads the row, and the columns it leaves for the tabs.
fn lead_tabs(app: &App, no_tabs: bool, width: usize, taken: usize) -> (r: (Vec<PaneTab>, usize))
    requires
        no_tabs == (tabs_of(app).len() == 0),
    ensures
        views(r.0@) == head_lead(*app, width as int, taken as int),
        r.1 == tab_budget(*app, width as int, taken as int),
{
    let mut row: Vec<PaneTab> = Vec::new();
    assert(views(row@) =~= Seq::empty());
    let mut room: usize = width.saturating_sub(taken).saturating_sub(2);
    if let Some(label) = folder_label(app) {
        let shown: usize = min_usize(crate::text::char_count(&label), FOLDER_NAME_MAX);
        room = room.saturating_sub(shown + 3);
        let name = truncate(&label, FOLDER_NAME_MAX);
        let mut spans: Vec<Span> = Vec::new();
        push_span(
            &mut spans,
            Span::styled(
                joined(" ", &name),
                Style { fg: Some(Ink::Muted), bg: None, bold: true, underlined: false },
            ),
        );
        push_span(&mut spans, Span::of(" │", Style::ink(Ink::Dim)));
        assert(views(spans@) =~= folder_tab(label@).spans);
        push_tab(&mut row, PaneTab::plain(spans));
    }
    assert(room == head_room(*app, width as int, taken as int));
    proof {
        reveal_strlit("+");
        reveal_strlit("+ open a project");
    }
    let add: &str = if no_tabs {
        ADD_EMPTY
    } else {
        ADD
    };
    let add_w: usize = crate::text::char_count(add) + 2;
    if add_w <= room {
        let style = if hovers(&app.screen.hover_crumb, &HitTarget::LauncherTabAdd) {
            Style { fg: Some(Ink::Accent), bg: None, bold: false, underlined: true }
        } else {
            Style::ink(Ink::Muted)
        };
        let mut spans: Vec<Span> = Vec::new();
        push_span(&mut spans, Span::of(" ", Style::raw()));
        push_span(&mut spans, Span::of(add, style));
        push_span(&mut spans, Span::of(" ", Style::raw()));
        assert(views(spans@) =~= add_tab(add@, opt(app.screen.hover_crumb)).spans);
        push_tab(&mut row, PaneTab { spans, hit: Some(HitTarget::LauncherTabAdd) });
    }
    assert(views(row@) =~= head_lead(*app, width as int, taken as int));
    (row, room.saturating_sub(add_w + 1))
}

/// The header's PROJECT TABS: one tab per project opened since its tab was
/// last closed, behind a `+` for the rest, the most recently opened next to
/// it. The tab the grid is on is lit and a click on any other opens it; the
/// `×` on a tab closes it.
///
/// The hit rects are laid down as the spans are measured, so a click lands on
/// the tab itself and never on the air between two.
///
/// `taken` is what the count on the right of the same row has already spent:
/// the tabs get the rest, less a column of air. Tabs that will not fit are
/// counted at the edge they went past (`‹2`, `3›`) rather than drawn half, and
/// the window always holds the header's cursor, or with none the lit tab.
pub fn head_tabs(app: &App, r: Rect, taken: usize, hits: &mut Vec<Hit>) -> (spans: Vec<Span>)
    ensures
        views(spans@) == strip_spans(head_row(*app, r.width as int, taken as int)),
        views(final(hits)@) == views(old(hits)@) + strip_hits(
            head_row(*app, r.width as int, taken as int),
            r,
            head_row(*app, r.width as int, taken as int).len() as int,
        ),
{
    broadcast use group_views;

    let tabs = project_tabs(app);
    let phase: Option<usize> = if app.screen.animations {
        Some(app.screen.sweep_phase)
    } else {
        None
    };
    let (mut row, budget) = lead_tabs(app, tabs.len() == 0, r.width as usize, taken);
    let mut strip = project_strip(&tabs, &app.screen.hover_crumb, phase, budget);
    if row.len() > 0 && strip.len() > 0 {
        push_tab(&mut row, gap());
    }
    row.append(&mut strip);
    assert(views(row@) =~= head_row(*app, r.width as int, taken as int)) by {
        reveal(head_row);
    }
    lay_out(row, r, hits)
}

// ---- what holds of it ----

proof fn lemma_shown_width(
    tabs: Seq<ProjectTab>,
    look: TabLook,
    start: int,
    end: int,
)
    requires
        0 <= start <= end <= tabs.len(),
    ensures
        strip_width(shown_tabs(tabs, look, PROJECT_TAB_MAX as nat, start, end)) == taken(
            chip_widths(tabs, look),
            1,
            start,
            end,
        ),
    decreases end - start,
{
    if start < end {
        let m = PROJECT_TAB_MAX as nat;
        lemma_shown_width(tabs, look, start, end - 1);
        let before = shown_tabs(tabs, look, m, start, end - 1);
        let c = chip(tabs[end - 1], m, look.hover, look.closable, look.phase);
        lemma_chip_width(tabs[end - 1], m, look.hover, look.closable, look.phase);
        let gap = if end - 1 > start {
            seq![gap_tab()]
        } else {
            Seq::<TabView>::empty()
        };
        lemma_gap_width();
        lemma_strip_width_concat(before, gap);
        lemma_pair_width(c.label, c.close);
        lemma_strip_width_concat(before + gap, seq![c.label, c.close]);
    }
}

proof fn lemma_gap_width()
    ensures
        strip_width(seq![gap_tab()]) == 1,
        gap_tab().width() == 1,
{
    reveal_strlit(" ");
    let g = gap_tab();
    lemma_columns_push(Seq::<SpanView>::empty(), g.spans[0]);
    assert(g.spans =~= Seq::<SpanView>::empty().push(g.spans[0]));
    lemma_strip_width_push(Seq::<TabView>::empty(), g);
    assert(seq![g] =~= Seq::<TabView>::empty().push(g));
}

proof fn lemma_pair_width(a: TabView, b: TabView)
    ensures
        strip_width(seq![a, b]) == a.width() + b.width(),
{
    lemma_strip_width_push(Seq::<TabView>::empty(), a);
    lemma_strip_width_push(Seq::<TabView>::empty().push(a), b);
    assert(seq![a, b] =~= Seq::<TabView>::empty().push(a).push(b));
}

/// The strip of tabs, its counts and all, fits the columns it was given,
/// however few they are.
pub proof fn law_strip_fits_its_budget(tabs: Seq<ProjectTab>, look: TabLook, budget: int)
    requires
        budget >= 0,
    ensures
        strip_width(tab_strip(tabs, look, budget)) <= budget,
{
    let widths = chip_widths(tabs, look);
    let m = PROJECT_TAB_MAX as nat;
    let lit = lit_tab(tabs);
    lemma_first_true(Seq::new(tabs.len(), |i: int| tabs[i].focused));
    lemma_first_true(Seq::new(tabs.len(), |i: int| tabs[i].active));
    assert forall|i: int| 0 <= i < widths.len() implies #[trigger] widths[i] > 0 by {
        lemma_chip_width(tabs[i], m, look.hover, look.closable, look.phase);
    }
    law_window_fits(widths, 1, MARK_FRAME as nat, lit, budget);
    let (ws, we) = window(widths, 1, MARK_FRAME as nat, lit, budget);
    let d = drawn(tabs, look, budget);
    let left = if d.start > 0 {
        seq![left_mark(d.start)]
    } else {
        Seq::<TabView>::empty()
    };
    let shown = shown_tabs(tabs, look, d.name_max, d.start, d.end);
    if d.start > 0 {
        lemma_mark_width(d.start);
        lemma_strip_width_push(Seq::<TabView>::empty(), left_mark(d.start));
        assert(left =~= Seq::<TabView>::empty().push(left_mark(d.start)));
    }
    lemma_strip_width_concat(left, shown);
    if ws < we {
        lemma_shown_width(tabs, look, ws, we);
    } else if d.start < d.end {
        let tab = tabs[d.start];
        lemma_chip_width(tab, m, look.hover, look.closable, look.phase);
        lemma_chip_width(tab, d.name_max, look.hover, look.closable, look.phase);
        let c = chip(tab, d.name_max, look.hover, look.closable, look.phase);
        lemma_pair_width(c.label, c.close);
        assert(shown_tabs(tabs, look, d.name_max, d.start, d.start) =~= Seq::empty());
        assert(shown =~= seq![c.label, c.close]);
    }
    let right = right_mark(tabs.len() - d.end);
    lemma_strip_width_push(left + shown, right);
}

/// The header never overprints its count: the tabs, the button and the folder
/// stay left of what is taken, with a column of air and more — unless the
/// folder's name alone is wider than what was left for it.
pub proof fn law_header_stays_off_its_count(app: App, width: int, taken: int)
    requires
        width >= 0,
        taken >= 0,
    ensures
        strip_width(head_row(app, width, taken)) <= larger(
            less(width, taken + 2),
            folder_width(folder_named(app)),
        ),
{
    let tabs = tabs_of(&app);
    let look = look_of(app, tabs);
    let budget = tab_budget(app, width, taken);
    let room = head_room(app, width, taken);
    let strip = tab_strip(tabs, look, budget);
    let lead = head_lead(app, width, taken);
    let text = add_text(tabs);
    reveal_strlit("+");
    reveal_strlit("+ open a project");
    reveal_strlit(" ");
    reveal_strlit(" │");
    law_strip_fits_its_budget(tabs, look, budget);
    let folder = match folder_named(app) {
        Some(name) => seq![folder_tab(name)],
        None => Seq::<TabView>::empty(),
    };
    if let Some(name) = folder_named(app) {
        let t = folder_tab(name);
        lemma_columns_push(Seq::<SpanView>::empty(), t.spans[0]);
        lemma_columns_push(Seq::<SpanView>::empty().push(t.spans[0]), t.spans[1]);
        assert(t.spans =~= Seq::<SpanView>::empty().push(t.spans[0]).push(t.spans[1]));
        lemma_strip_width_push(Seq::<TabView>::empty(), t);
        assert(folder =~= Seq::<TabView>::empty().push(t));
    }
    assert(strip_width(folder) == folder_width(folder_named(app)));
    let add = add_tab(text, opt(app.screen.hover_crumb));
    lemma_columns_push(Seq::<SpanView>::empty(), add.spans[0]);
    lemma_columns_push(Seq::<SpanView>::empty().push(add.spans[0]), add.spans[1]);
    lemma_columns_push(
        Seq::<SpanView>::empty().push(add.spans[0]).push(add.spans[1]),
        add.spans[2],
    );
    assert(add.spans =~= Seq::<SpanView>::empty().push(add.spans[0]).push(add.spans[1]).push(
        add.spans[2],
    ));
    lemma_strip_width_push(folder, add);
    lemma_gap_width();
    let gap = if lead.len() > 0 && strip.len() > 0 {
        seq![gap_tab()]
    } else {
        Seq::<TabView>::empty()
    };
    lemma_strip_width_concat(lead, gap);
    lemma_strip_width_concat(lead + gap, strip);
    assert(head_row(app, width, taken) == lead + gap + strip) by {
        reveal(head_row);
    }
    if text.len() + 2 > room {
        // No room for the button leaves none for a tab either.
        assert(budget == 0);
        lemma_nothing_in_no_room(tabs, look);
        assert(strip_width(strip) == 0);
        assert(strip_width(gap) == 0);
        assert(lead == folder);
    } else {
        assert(lead == folder.push(add));
        assert(add.width() == text.len() + 2);
        assert(strip_width(gap) <= 1);
        if budget == 0 {
            lemma_nothing_in_no_room(tabs, look);
        }
    }
}

proof fn lemma_nothing_in_no_room(tabs: Seq<ProjectTab>, look: TabLook)
    ensures
        tab_strip(tabs, look, 0).len() == 0,
{
    let widths = chip_widths(tabs, look);
    let m = PROJECT_TAB_MAX as nat;
    lemma_first_true(Seq::new(tabs.len(), |i: int| tabs[i].focused));
    lemma_first_true(Seq::new(tabs.len(), |i: int| tabs[i].active));
    assert forall|i: int| 0 <= i < widths.len() implies #[trigger] widths[i] > 0 by {
        lemma_chip_width(tabs[i], m, look.hover, look.closable, look.phase);
    }
    law_window_fits(widths, 1, MARK_FRAME as nat, lit_tab(tabs), 0);
    let (ws, we) = window(widths, 1, MARK_FRAME as nat, lit_tab(tabs), 0);
    if ws < we {
        lemma_taken_grows(widths, 1, ws, we);
    }
    if ws < tabs.len() {
        lemma_chip_width(tabs[ws], m, look.hover, look.closable, look.phase);
    }
    let d = drawn(tabs, look, 0);
    assert(d.start == 0 && d.end == 0);
    assert(shown_tabs(tabs, look, d.name_max, 0, 0) =~= Seq::empty());
    lemma_mark_width(tabs.len() as int);
}

/// The tab the grid is on — the header's own cursor before it — is one of
/// those drawn, unless the row has no room for a name at all.
pub proof fn law_lit_tab_is_drawn(tabs: Seq<ProjectTab>, look: TabLook, budget: int)
    requires
        budget >= 0,
        lit_tab(tabs) is Some,
    ensures
        ({
            let d = drawn(tabs, look, budget);
            d.start <= lit_tab(tabs)->0 < d.end || d.end == d.start
        }),
{
    lemma_first_true(Seq::new(tabs.len(), |i: int| tabs[i].focused));
    lemma_first_true(Seq::new(tabs.len(), |i: int| tabs[i].active));
    law_window_holds_the_lit_tab(
        chip_widths(tabs, look),
        1,
        MARK_FRAME as nat,
        lit_tab(tabs)->0,
        budget,
    );
}

/// A quiet project is its bare name, and a project that is not never is: the
/// dots are there exactly when something is counted.
pub proof fn law_quiet_tab_has_no_dots(tally: Tally)
    ensures
        dots(tally).len() == 0 <==> loudest(tally) is None,
{
}

/// The dots of a tab, in order: how many sessions wait on you, then how many
/// finished unread, then how many are working, each in its color, and none for
/// a count of nothing.
pub proof fn law_dots_say_what_the_tab_counts(t: Tally)
    ensures
        ({
            let d = dots(t);
            let one = |n: usize|
                if n > 0 {
                    1int
                } else {
                    0
                };
            let (waits, unread) = (one(t.needs_you), one(t.done));
            &&& d.len() == waits + unread + one(t.running)
            &&& t.needs_you > 0 ==> d[0].text == " ●"@ + decimal(t.needs_you as nat)
                && d[0].style.fg == Some(Ink::Alarm)
            &&& t.done > 0 ==> d[waits].text == " ●"@ + decimal(t.done as nat)
                && d[waits].style.fg == Some(Ink::Done)
            &&& t.running > 0 ==> d[waits + unread].text == " ●"@ + decimal(t.running as nat)
                && d[waits + unread].style.fg == Some(Ink::Warn)
        }),
{
}

/// The color a tab's name moves in: the one for waiting on you where any
/// session does, else the one for working where any is, else the one for an
/// unread finish; and none at rest.
pub proof fn law_tab_moves_in_its_loudest_color(t: Tally)
    ensures
        t.needs_you > 0 <==> loudest(t) == Some(Ramp::Alarm),
        t.needs_you == 0 && t.running > 0 <==> loudest(t) == Some(Ramp::Warn),
        t.needs_you == 0 && t.running == 0 && t.done > 0 <==> loudest(t) == Some(Ramp::Done),
        t.needs_you == 0 && t.running == 0 && t.done == 0 <==> loudest(t) is None,
{
}

/// A tab is its project's name and dots, pressed to open it, and beside it a
/// cross of its own, pressed to close it, where it can be closed. The tab under
/// the header's cursor is drawn on the accent, the one the grid is on raised
/// and bold, and any other flat; one under the pointer is underlined, and its
/// name moves where there is motion and something to move for.
pub proof fn law_tab_opens_and_its_cross_closes(
    tab: ProjectTab,
    name_max: nat,
    hover: Option<HitView>,
    closable: bool,
    phase: Option<usize>,
)
    ensures
        ({
            let c = chip(tab, name_max, hover, closable, phase);
            let name = c.label.spans[1];
            &&& c.label.hit == Some(HitView::LauncherTab(tab.id@))
            &&& closable ==> c.close.hit == Some(HitView::LauncherTabClose(tab.id@))
                && c.close.spans[0].text == " × "@
            &&& !closable ==> c.close.hit is None
            &&& c.label.spans.len() == 2 + dots(tab.tally).len()
            &&& name.text == cut(tab.name@, name_max)
            &&& tab.focused ==> name.style.bg == Some(Ink::Accent) && name.sweep is None
            &&& !tab.focused && tab.active ==> name.style.bg == Some(Ink::SelBg)
                && name.style.bold && name.style.fg == Some(Ink::Accent)
            &&& !tab.focused && !tab.active ==> name.style.bg is None && !name.style.bold
                && name.style.fg == Some(Ink::Muted)
            &&& !tab.focused ==> (name.style.underlined <==> hover == Some(
                HitView::LauncherTab(tab.id@),
            ))
            &&& !tab.focused && phase is Some && tab.tally.needs_you > 0 ==> name.sweep == Some(
                Sweep::Tab { ramp: Ramp::Alarm, phase: phase->0 },
            )
            &&& phase is None ==> name.sweep is None
            &&& closable ==> (c.close.spans[0].style.fg == Some(Ink::Alarm) <==> hover == Some(
                HitView::LauncherTabClose(tab.id@),
            ))
        }),
{
}

/// The tab the strip keeps in sight: the one under the header's cursor, and
/// with the keys on the cards the one the grid is on.
pub proof fn law_lit_tab_is_the_cursors(tabs: Seq<ProjectTab>, i: int)
    requires
        0 <= i < tabs.len(),
    ensures
        tabs[i].focused && (forall|k: int| 0 <= k < i ==> !(#[trigger] tabs[k]).focused)
            ==> lit_tab(tabs) == Some(i),
        (forall|k: int| 0 <= k < tabs.len() ==> !(#[trigger] tabs[k]).focused) && tabs[i].active
            && (forall|k: int| 0 <= k < i ==> !(#[trigger] tabs[k]).active) ==> lit_tab(tabs)
            == Some(i),
        (forall|k: int|
            0 <= k < tabs.len() ==> !(#[trigger] tabs[k]).focused && !tabs[k].active) ==> lit_tab(
            tabs,
        ) is None,
{
    let focused = Seq::new(tabs.len(), |k: int| tabs[k].focused);
    let active = Seq::new(tabs.len(), |k: int| tabs[k].active);
    lemma_first_true(focused);
    lemma_first_true(active);
    assert(focused[i] == tabs[i].focused && active[i] == tabs[i].active);
    if let Some(k) = first_true(focused) {
        assert(tabs[k].focused);
        if i < k {
            assert(!focused[i]);
        }
    }
    if let Some(k) = first_true(active) {
        assert(tabs[k].active);
        if i < k {
            assert(!active[i]);
        }
    }
}

/// The folder is named ahead of the tabs exactly where there is more than one
/// to be in and the one on screen has a name, which is the last part of it.
pub proof fn law_folder_is_named_where_there_are_two(app: App, i: int, j: int)
    requires
        app.project_on() is Some,
        0 <= i < app.tree.projects@.len(),
        0 <= j < app.tree.projects@.len(),
    ensures
        ({
            let f = folder(app.project_on()->0.repo_path@);
            let two = folder(app.tree.projects@[i].repo_path@) != folder(
                app.tree.projects@[j].repo_path@,
            );
            &&& two && last_part(f).len() > 0 ==> folder_named(app) == Some(last_part(f))
            &&& last_part(f).len() == 0 ==> folder_named(app) is None
            &&& folders_of(app).len() <= 1 ==> folder_named(app) is None
        }),
{
    crate::folders::law_folders_are_the_projects_own(app, i, 0, 0);
    crate::folders::law_folders_are_the_projects_own(app, j, 0, 0);
    let all = folders_of(app);
    let (a, b) = (
        folder(app.tree.projects@[i].repo_path@),
        folder(app.tree.projects@[j].repo_path@),
    );
    let x = choose|x: int| 0 <= x < all.len() && all[x] == a;
    let y = choose|y: int| 0 <= y < all.len() && all[y] == b;
    if a != b {
        assert(x != y);
    }
}

/// The tabs past an edge are counted at that edge: those before the first one
/// drawn ahead of it, and those after the last one behind it, wherever the
/// count fits.
pub proof fn law_tabs_past_an_edge_are_counted(
    tabs: Seq<ProjectTab>,
    look: TabLook,
    budget: int,
)
    ensures
        ({
            let d = drawn(tabs, look, budget);
            let strip = tab_strip(tabs, look, budget);
            let shown = shown_tabs(tabs, look, d.name_max, d.start, d.end);
            let after = tabs.len() - d.end;
            let left = "‹"@ + decimal(d.start as nat) + " "@;
            let right = " "@ + decimal(after as nat) + "›"@;
            let (ahead, used) = if d.start > 0 {
                (1int, left.len() + strip_width(shown))
            } else {
                (0int, strip_width(shown))
            };
            &&& d.start > 0 ==> strip[0].spans[0].text == left && strip[0].hit is None
            &&& forall|i: int| 0 <= i < shown.len() ==> strip[ahead + i] == #[trigger] shown[i]
            &&& after > 0 && used + right.len() <= budget ==> strip.len() == ahead + shown.len()
                + 1 && strip.last().spans[0].text == right && strip.last().hit is None
            &&& after <= 0 || used + right.len() > budget ==> strip.len() == ahead + shown.len()
        }),
{
    let d = drawn(tabs, look, budget);
    let shown = shown_tabs(tabs, look, d.name_max, d.start, d.end);
    let (left, right) = (left_mark(d.start), right_mark(tabs.len() - d.end));
    lemma_columns_push(Seq::<SpanView>::empty(), left.spans[0]);
    assert(left.spans =~= Seq::<SpanView>::empty().push(left.spans[0]));
    lemma_columns_push(Seq::<SpanView>::empty(), right.spans[0]);
    assert(right.spans =~= Seq::<SpanView>::empty().push(right.spans[0]));
    lemma_strip_width_push(Seq::<TabView>::empty(), left);
    assert(seq![left] =~= Seq::<TabView>::empty().push(left));
    lemma_strip_width_concat(seq![left], shown);
    assert(Seq::<TabView>::empty() + shown =~= shown);
}

/// The button that opens a project says so in words with no tab beside it, and
/// is lit under the pointer; a tab can be closed where there is another; names
/// move only with animations on.
pub proof fn law_button_says_more_alone(app: App, tabs: Seq<ProjectTab>, hover: Option<HitView>)
    ensures
        tabs.len() == 0 ==> add_text(tabs) == "+ open a project"@,
        tabs.len() > 0 ==> add_text(tabs) == "+"@,
        ({
            let b = add_tab(add_text(tabs), hover);
            &&& b.hit == Some(HitView::LauncherTabAdd)
            &&& b.spans[1].text == add_text(tabs)
            &&& b.spans[1].style.underlined <==> hover == Some(HitView::LauncherTabAdd)
        }),
        look_of(app, tabs).closable <==> tabs.len() > 1,
        app.screen.animations ==> look_of(app, tabs).phase == Some(app.screen.sweep_phase),
        !app.screen.animations ==> look_of(app, tabs).phase is None,
{
}

/// What leads the header's row: the folder's name, where it is named, in just
/// the columns kept for it, and then the button wherever it fits.
pub proof fn law_folder_and_button_lead_the_row(app: App, width: int, taken: int)
    ensures
        ({
            let lead = head_lead(app, width, taken);
            let named = folder_named(app);
            let text = add_text(tabs_of(&app));
            let kept = match named {
                Some(name) => smaller(name.len() as int, FOLDER_NAME_MAX as int) + 3,
                None => 0,
            };
            let fits = text.len() + 2 <= less(width, taken + 2 + kept);
            let at = if named is Some {
                1int
            } else {
                0
            };
            &&& named is Some ==> lead[0].hit is None && lead[0].width() == kept
            &&& fits ==> lead.len() == at + 1 && lead[at].hit == Some(HitView::LauncherTabAdd)
            &&& !fits ==> lead.len() == at
        }),
{
    if let Some(name) = folder_named(app) {
        let t = folder_tab(name);
        reveal_strlit(" ");
        reveal_strlit(" │");
        lemma_columns_push(Seq::<SpanView>::empty(), t.spans[0]);
        lemma_columns_push(Seq::<SpanView>::empty().push(t.spans[0]), t.spans[1]);
        assert(t.spans =~= Seq::<SpanView>::empty().push(t.spans[0]).push(t.spans[1]));
        crate::text::law_cut_keeps_the_beginning(name, FOLDER_NAME_MAX as nat);
    }
}

} // verus!
