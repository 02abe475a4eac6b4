//! The PROJECT PICKER: every project on this machine, filtered as you type
//! and picked with Enter.

use crate::grid::{first_shown, window_start};
use crate::launcher::{aimed_project, project_of};
use crate::layout::{held, Rect};
use crate::model::{lemma_place_of, place_of, ProjectId, QuickReturn, TextInput};
use crate::state::App;
use crate::text::{joined, without_slashes};
use vstd::prelude::*;

verus! {

/// One project the PROJECT PICKER offers.
#[derive(Debug, Clone, PartialEq, Eq)]
pub struct PickerProject {
    pub id: ProjectId,
    pub name: String,
    /// The repo path, `~/…` under the home directory, drawn dim to tell
    /// two same-named projects apart.
    pub path: String,
}

/// One row of the picker: which project it is, and which characters of its
/// name the query matched.
#[derive(Debug, Clone, PartialEq, Eq)]
pub struct Match {
    pub project: usize,
    pub lit: Vec<usize>,
}

/// Every project on this machine, filtered as you type and picked with
/// Enter, which puts the box back on that project with the typed text kept.
/// The projects come in the projects panel's order, the most recently worked
/// in on top.
///
/// A pick only aims the box. The grid behind it goes on showing the project
/// being worked in.
#[derive(Debug, Clone)]
pub struct ProjectPicker {
    /// The box to put back — with its text — on a pick or on Esc.
    pub back: QuickReturn,
    pub query: TextInput,
    pub projects: Vec<PickerProject>,
    /// The rows, best match first.
    pub matches: Vec<Match>,
    /// Cursor, into `matches`.
    pub selected: usize,
    /// Drawn rects, for the mouse.
    pub area: Rect,
    pub list_area: Rect,
}

// ---- paths ----

/// A path from the root with nothing in it that is read over: no empty and no
/// `.` component, no slash at the end, no backslash.
pub open spec fn plain_path(p: Seq<char>) -> bool {
    &&& p.len() >= 2
    &&& p[0] == '/'
    &&& !p.contains('\\')
    &&& forall|i: int|
        0 <= i < p.len() && p[i] == '/' ==> {
            &&& i + 1 < p.len()
            &&& #[trigger] p[i + 1] != '/'
            &&& p[i + 1] == '.' ==> i + 2 < p.len() && p[i + 2] != '/'
        }
}

/// `path` below `base`, for plain paths: the part behind `base/`.
pub open spec fn below(path: Seq<char>, base: Seq<char>) -> Option<Seq<char>> {
    if path == base {
        Some(Seq::empty())
    } else if base.push('/').is_prefix_of(path) {
        Some(path.skip(base.len() as int + 1))
    } else {
        None
    }
}

/// `p` between its slashes.
pub open spec fn pieces(p: Seq<char>) -> Seq<Seq<char>>
    decreases p.len(),
{
    if p.len() == 0 {
        seq![Seq::empty()]
    } else {
        let before = pieces(p.drop_last());
        if p.last() == '/' {
            before.push(Seq::empty())
        } else {
            before.drop_last().push(before.last().push(p.last()))
        }
    }
}

/// The names a path goes through: repeated slashes, a slash at the end and `.`
/// parts are none.
pub open spec fn names(p: Seq<char>) -> Seq<Seq<char>> {
    pieces(p).filter(|s: Seq<char>| s.len() > 0 && s != seq!['.'])
}

/// The components of a path: the root it starts at, or the `.` it starts with,
/// and the names.
pub open spec fn components(p: Seq<char>) -> Seq<Seq<char>> {
    (if p.len() > 0 && p[0] == '/' {
        seq![seq!['/']]
    } else if pieces(p)[0] == seq!['.'] {
        seq![seq!['.']]
    } else {
        Seq::empty()
    }) + names(p)
}

/// A path every system reads the same: no backslash, no colon, no two slashes
/// at the start.
pub open spec fn portable(p: Seq<char>) -> bool {
    &&& !p.contains('\\')
    &&& !p.contains(':')
    &&& !(p.len() >= 2 && p[0] == '/' && p[1] == '/')
}

/// `rest` is what is left of `path` behind `base`, by their names.
pub open spec fn rest_of(path: Seq<char>, base: Seq<char>, rest: Seq<char>) -> bool {
    names(path) == names(base) + names(rest)
}

/// Both are plain paths, the slashes `base` ends with aside.
pub open spec fn plain_paths(path: Seq<char>, base: Seq<char>) -> bool {
    plain_path(path) && plain_path(without_slashes(base))
}

/// `std::path::Path::strip_prefix`, as text. Of two portable paths there is
/// something left of `path` behind `base` exactly where the components of
/// `base` are the first of those of `path`, and what is left goes through the
/// names behind them. Of two plain paths, slashes at the end of `base` aside,
/// it is the text behind `base`. How the rest of other paths is spelled — its
/// repeated slashes, `.` parts and the slash at its end — is left unsaid, and
/// so is what becomes of paths that are not portable.
#[verifier::external_body]
fn strip_prefix(path: &str, base: &str) -> (r: Option<String>)
    ensures
        portable(path@) && portable(base@) ==> {
            &&& r is Some <==> components(base@).is_prefix_of(components(path@))
            &&& r is Some ==> rest_of(path@, base@, r->0@)
        },
        plain_paths(path@, base@) ==> match r {
            Some(rest) => below(path@, without_slashes(base@)) == Some(rest@),
            None => below(path@, without_slashes(base@)) is None,
        },
{
    match std::path::Path::new(path).strip_prefix(base) {
        Ok(rest) => Some(rest.display().to_string()),
        Err(_) => None,
    }
}

/// A path spelled from what is left of it below the home directory.
pub open spec fn spelled(path: Seq<char>, rest: Option<Seq<char>>) -> Seq<char> {
    match rest {
        Some(rest) => if rest.len() == 0 {
            "~"@
        } else {
            "~/"@ + rest
        },
        None => path,
    }
}

/// `path` with the home directory spelled `~`, `rest` being what is left of it
/// below that directory.
pub fn from_home(path: &str, rest: Option<&str>) -> (r: String)
    ensures
        r@ == spelled(
            path@,
            match rest {
                Some(t) => Some(t@),
                None => None,
            },
        ),
{
    match rest {
        Some(rest) => {
            if rest.is_empty() {
                "~".to_owned()
            } else {
                joined("~/", rest)
            }
        },
        None => path.to_owned(),
    }
}

/// `path` with the home directory spelled `~`, as a shell prompt spells it.
pub fn home_relative(path: &str, home: Option<&str>) -> (r: String)
    ensures
        home is None ==> r@ == path@,
        home is Some && plain_paths(path@, home->0@) ==> r@ == spelled(
            path@,
            below(path@, without_slashes(home->0@)),
        ),
        home is Some && portable(path@) && portable(home->0@) ==> if components(
            home->0@,
        ).is_prefix_of(components(path@)) {
            exists|rest: Seq<char>|
                rest_of(path@, home->0@, rest) && r@ == #[trigger] spelled(path@, Some(rest))
        } else {
            r@ == path@
        },
        home is Some ==> exists|rest: Option<Seq<char>>| r@ == #[trigger] spelled(path@, rest),
{
    match home {
        Some(home) => match strip_prefix(path, home) {
            Some(rest) => {
                assert(Some(rest@) == Some::<Seq<char>>(rest@));
                from_home(path, Some(rest.as_str()))
            },
            None => {
                assert(spelled(path@, None) == path@);
                from_home(path, None)
            },
        },
        None => path.to_owned(),
    }
}

// ---- the picker ----

/// The places of the rows of the projects panel that the tree has, the first
/// `n` of them.
pub open spec fn offered(app: App, n: int) -> Seq<int>
    decreases n,
{
    if n <= 0 {
        Seq::empty()
    } else {
        let before = offered(app, n - 1);
        let at = app.records.project_rows@[n - 1] as int;
        if at < app.tree.projects@.len() {
            before.push(at)
        } else {
            before
        }
    }
}

pub open spec fn picker_ids(s: Seq<PickerProject>) -> Seq<Seq<char>> {
    Seq::new(s.len(), |i: int| s[i].id@)
}

/// The rows list every project, in order, with nothing lit.
pub open spec fn lists_all(matches: Seq<Match>, n: int) -> bool {
    &&& matches.len() == n
    &&& forall|i: int|
        0 <= i < n ==> (#[trigger] matches[i]).project == i && matches[i].lit@.len() == 0
}

impl ProjectPicker {
    /// Every row is a project of the list.
    pub open spec fn wf(self) -> bool {
        forall|i: int|
            0 <= i < self.matches@.len() ==> (#[trigger] self.matches@[i]).project
                < self.projects@.len()
    }

    /// The project on row `i`.
    pub open spec fn on_row(self, i: int) -> PickerProject {
        self.projects@[self.matches@[i].project as int]
    }

    /// The picker over every project in `app`'s tree, the cursor on the
    /// project the box is aimed at.
    pub fn new(app: &App, back: QuickReturn, home: Option<&str>) -> (r: Self)
        ensures
            r.wf(),
            r.back == back,
            r.query.text@.len() == 0,
            ({
                let places = offered(*app, app.records.project_rows@.len() as int);
                &&& r.projects@.len() == places.len()
                &&& forall|i: int|
                    0 <= i < places.len() ==> {
                        let p = app.tree.projects@[places[i]];
                        let row = #[trigger] r.projects@[i];
                        &&& row.id == p.id
                        &&& row.name == p.name
                        &&& home is None ==> row.path@ == p.repo_path@
                        &&& home is Some && portable(p.repo_path@) && portable(home->0@) ==> (
                        if components(home->0@).is_prefix_of(components(p.repo_path@)) {
                            exists|rest: Seq<char>|
                                rest_of(p.repo_path@, home->0@, rest) && row.path@
                                    == #[trigger] spelled(p.repo_path@, Some(rest))
                        } else {
                            row.path@ == p.repo_path@
                        })
                        &&& home is Some && plain_paths(p.repo_path@, home->0@) ==> row.path@
                            == spelled(
                            p.repo_path@,
                            below(p.repo_path@, without_slashes(home->0@)),
                        )
                    }
            }),
            lists_all(r.matches@, r.projects@.len() as int),
            r.selected == match aimed_project(*app, back.launch.target) {
                Some(id) => match place_of(picker_ids(r.projects@), id@) {
                    Some(i) => i,
                    None => 0,
                },
                None => 0,
            },
    {
        let current = project_of(app, &back.launch.target);
        let mut projects: Vec<PickerProject> = Vec::new();
        let mut i: usize = 0;
        while i < app.records.project_rows.len()
            invariant
                i <= app.records.project_rows@.len(),
                projects@.len() == offered(*app, i as int).len(),
                forall|k: int|
                    0 <= k < projects@.len() ==> 0 <= #[trigger] offered(*app, i as int)[k]
                        < app.tree.projects@.len(),
                forall|k: int|
                    0 <= k < projects@.len() ==> {
                        let p = app.tree.projects@[offered(*app, i as int)[k]];
                        let row = #[trigger] projects@[k];
                        &&& row.id == p.id
                        &&& row.name == p.name
                        &&& home is None ==> row.path@ == p.repo_path@
                        &&& home is Some && portable(p.repo_path@) && portable(home->0@) ==> (
                        if components(home->0@).is_prefix_of(components(p.repo_path@)) {
                            exists|rest: Seq<char>|
                                rest_of(p.repo_path@, home->0@, rest) && row.path@
                                    == #[trigger] spelled(p.repo_path@, Some(rest))
                        } else {
                            row.path@ == p.repo_path@
                        })
                        &&& home is Some && plain_paths(p.repo_path@, home->0@) ==> row.path@
                            == spelled(
                            p.repo_path@,
                            below(p.repo_path@, without_slashes(home->0@)),
                        )
                    },
            decreases app.records.project_rows@.len() - i,
        {
            let at: usize = app.records.project_rows[i];
            let ghost before = offered(*app, i as int);
            if at < app.tree.projects.len() {
                let p = &app.tree.projects[at];
                projects.push(
                    PickerProject {
                        id: p.id.clone(),
                        name: p.name.clone(),
                        path: home_relative(&p.repo_path, home),
                    },
                );
                assert(offered(*app, i + 1) == before.push(at as int));
            } else {
                assert(offered(*app, i + 1) == before);
            }
            i += 1;
        }
        let mut picker = ProjectPicker {
            back,
            query: TextInput { text: String::new(), caret: 0 },
            projects,
            matches: Vec::new(),
            selected: 0,
            area: Rect::default(),
            list_area: Rect::default(),
        };
        picker.show_all();
        if let Some(id) = current {
            if let Some(at) = picker.find(&id) {
                picker.selected = at;
            }
        }
        picker
    }

    fn find(&self, id: &ProjectId) -> (r: Option<usize>)
        ensures
            match r {
                Some(i) => i < self.projects@.len() && place_of(
                    picker_ids(self.projects@),
                    id@,
                ) == Some(i as int),
                None => place_of(picker_ids(self.projects@), id@) is None,
            },
    {
        let ghost ids = picker_ids(self.projects@);
        proof {
            lemma_place_of(ids, id@);
        }
        let mut i: usize = 0;
        while i < self.projects.len()
            invariant
                i <= self.projects@.len(),
                ids == picker_ids(self.projects@),
                forall|k: int| 0 <= k < i ==> #[trigger] ids[k] != id@,
            decreases self.projects@.len() - i,
        {
            if self.projects[i].id.same(id) {
                proof {
                    lemma_place_of(ids, id@);
                    assert(ids[i as int] == id@);
                }
                return Some(i);
            }
            i += 1;
        }
        None
    }

    /// What an empty query lists: every project in its own order, the cursor
    /// on the first.
    pub fn show_all(&mut self)
        ensures
            *final(self) == (ProjectPicker {
                matches: final(self).matches,
                selected: 0,
                ..*old(self)
            }),
            lists_all(final(self).matches@, old(self).projects@.len() as int),
            final(self).wf(),
    {
        let mut matches: Vec<Match> = Vec::new();
        let mut i: usize = 0;
        while i < self.projects.len()
            invariant
                *self == *old(self),
                i <= self.projects@.len(),
                lists_all(matches@, i as int),
            decreases self.projects@.len() - i,
        {
            matches.push(Match { project: i, lit: Vec::new() });
            i += 1;
        }
        self.matches = matches;
        self.selected = 0;
    }

    /// Re-rank against the query; the cursor goes back to the best match.
    /// An empty query lists every project in its own order; any other lists
    /// `ranked`, the projects it fuzzy-matches, best first.
    pub fn apply_filter(&mut self, ranked: Vec<Match>)
        requires
            forall|i: int|
                0 <= i < ranked@.len() ==> (#[trigger] ranked@[i]).project < old(
                    self,
                ).projects@.len(),
        ensures
            *final(self) == (ProjectPicker {
                matches: final(self).matches,
                selected: 0,
                ..*old(self)
            }),
            old(self).query.text@.len() == 0 ==> lists_all(
                final(self).matches@,
                old(self).projects@.len() as int,
            ),
            old(self).query.text@.len() > 0 ==> final(self).matches == ranked,
            final(self).wf(),
    {
        if self.query.text.as_str().is_empty() {
            self.show_all();
        } else {
            self.matches = ranked;
            self.selected = 0;
        }
    }

    /// Move the cursor by `delta`, clamped.
    pub fn select(&mut self, delta: i64)
        ensures
            *final(self) == (ProjectPicker { selected: final(self).selected, ..*old(self) }),
            final(self).selected == clamped_to(
                old(self).selected + delta,
                old(self).matches@.len() as int,
            ),
    {
        self.selected = clamp_selection(self.selected, delta, self.matches.len());
    }

    /// The project under the cursor.
    pub fn selected_project(&self) -> (r: Option<&PickerProject>)
        ensures
            r is Some <==> self.selected < self.matches@.len()
                && self.matches@[self.selected as int].project < self.projects@.len(),
            r is Some ==> *r->0 == self.on_row(self.selected as int),
    {
        if self.selected < self.matches.len() {
            let at: usize = self.matches[self.selected].project;
            if at < self.projects.len() {
                return Some(&self.projects[at]);
            }
        }
        None
    }

    /// First visible row of a list `height` rows tall.
    pub fn window_start(&self, height: usize) -> (r: usize)
        requires
            self.selected < usize::MAX,
        ensures
            r == first_shown(self.selected as int, height as int),
    {
        window_start(self.selected, height)
    }
}

/// `n` held to the places of a list `len` long; the first of an empty one.
pub open spec fn clamped_to(n: int, len: int) -> int {
    if len <= 0 {
        0
    } else {
        held(n, 0, len - 1)
    }
}

/// The cursor `delta` rows on in a list `len` long, stopping at either end.
pub fn clamp_selection(at: usize, delta: i64, len: usize) -> (r: usize)
    ensures
        r == clamped_to(at + delta, len as int),
        0 <= at + delta < len ==> r == at + delta,
        at + delta < 0 ==> r == 0,
        at + delta >= len > 0 ==> r == len - 1,
{
    if len == 0 {
        return 0;
    }
    let to: i128 = at as i128 + delta as i128;
    if to < 0 {
        0
    } else if to >= len as i128 {
        len - 1
    } else {
        to as usize
    }
}

// ---- what holds of it ----

/// However far the cursor is moved it stays on a row, while there is one: on
/// the row that far along where there is such a row, else on the end it was
/// moved towards.
pub proof fn law_cursor_stays_on_a_row(at: int, delta: int, len: int)
    requires
        len > 0,
    ensures
        0 <= clamped_to(at + delta, len) < len,
        0 <= at + delta < len ==> clamped_to(at + delta, len) == at + delta,
        at + delta < 0 ==> clamped_to(at + delta, len) == 0,
        at + delta >= len ==> clamped_to(at + delta, len) == len - 1,
{
}

/// Of a plain path below the home directory, the `~` spelling gives the path
/// back.
pub proof fn law_tilde_spelling_reads_back(path: Seq<char>, home: Seq<char>)
    requires
        below(path, home) is Some,
    ensures
        path == if below(path, home)->0.len() == 0 && path == home {
            home
        } else {
            home.push('/') + below(path, home)->0
        },
{
    if path != home {
        assert(path =~= home.push('/') + path.skip(home.len() as int + 1));
    }
}

/// The home directory itself is `~`, what is in it is `~/` and the rest of its
/// path, and any other path is spelled out — one that only begins with the same
/// letters too.
pub proof fn law_home_is_a_tilde(path: Seq<char>, home: Seq<char>, rest: Seq<char>)
    requires
        rest.len() > 0,
    ensures
        spelled(home, below(home, home)) == "~"@,
        spelled(home + seq!['/'] + rest, below(home + seq!['/'] + rest, home)) == "~/"@ + rest,
        path != home && !(path.len() > home.len() && path.take(home.len() as int + 1) == home
            + seq!['/']) ==> spelled(path, below(path, home)) == path,
{
    let in_home = home + seq!['/'] + rest;
    assert(home.push('/') =~= home + seq!['/']);
    assert(in_home.take(home.len() as int + 1) =~= home.push('/'));
    assert(home.push('/').is_prefix_of(in_home));
    assert(in_home.skip(home.len() as int + 1) =~= rest);
    assert(in_home != home) by {
        assert(in_home.len() > home.len());
    }
    if home.push('/').is_prefix_of(path) {
        assert(path.take(home.len() as int + 1) =~= home.push('/'));
    }
}

/// Where each row of the picker comes from in the projects panel.
proof fn lemma_offered(app: App, n: int) -> (from: Seq<int>)
    requires
        0 <= n <= app.records.project_rows@.len(),
    ensures
        from.len() == offered(app, n).len(),
        forall|i: int|
            0 <= i < from.len() ==> 0 <= #[trigger] from[i] < n
                && app.records.project_rows@[from[i]] == offered(app, n)[i] && 0 <= offered(
                app,
                n,
            )[i] < app.tree.projects@.len(),
        forall|i: int, j: int| 0 <= i < j < from.len() ==> #[trigger] from[i] < #[trigger] from[j],
        forall|k: int|
            0 <= k < n && #[trigger] app.records.project_rows@[k] < app.tree.projects@.len()
                ==> from.contains(k),
    decreases n,
{
    if n <= 0 {
        Seq::empty()
    } else {
        let before = lemma_offered(app, n - 1);
        if app.records.project_rows@[n - 1] < app.tree.projects@.len() {
            let from = before.push(n - 1);
            assert(from[before.len() as int] == n - 1);
            assert(offered(app, n) == offered(app, n - 1).push(
                app.records.project_rows@[n - 1] as int,
            ));
            assert forall|i: int| 0 <= i < from.len() implies 0 <= #[trigger] from[i] < n
                && app.records.project_rows@[from[i]] == offered(app, n)[i] && 0 <= offered(
                app,
                n,
            )[i] < app.tree.projects@.len() by {
                if i < before.len() {
                    assert(from[i] == before[i]);
                }
            }
            assert forall|k: int|
                0 <= k < n && #[trigger] app.records.project_rows@[k]
                    < app.tree.projects@.len() implies from.contains(k) by {
                if k < n - 1 {
                    let i = choose|i: int| 0 <= i < before.len() && before[i] == k;
                    assert(from[i] == k);
                }
            }
            from
        } else {
            before
        }
    }
}

/// The picker offers the projects the panel lists, in the panel's order, and
/// none the tree has no more.
pub proof fn law_picker_offers_the_panels_projects(app: App, k: int, i: int, j: int)
    ensures
        ({
            let rows = app.records.project_rows@;
            let places = offered(app, rows.len() as int);
            &&& 0 <= k < rows.len() && rows[k] < app.tree.projects@.len() ==> places.contains(
                rows[k] as int,
            )
            &&& 0 <= i < places.len() ==> 0 <= places[i] < app.tree.projects@.len()
            &&& 0 <= i < j < places.len() ==> exists|a: int, b: int|
                0 <= a < b < rows.len() && #[trigger] rows[a] == places[i] && #[trigger] rows[b]
                    == places[j]
        }),
{
    let rows = app.records.project_rows@;
    let n = rows.len() as int;
    let places = offered(app, n);
    let from = lemma_offered(app, n);
    if 0 <= k < n && rows[k] < app.tree.projects@.len() {
        assert(from.contains(k));
        let m = choose|m: int| 0 <= m < from.len() && from[m] == k;
        assert(places[m] == rows[k]);
    }
    if 0 <= i < places.len() {
        assert(0 <= from[i] < n);
    }
    if 0 <= i < j < places.len() {
        assert(from[i] < from[j]);
        assert(rows[from[i]] == places[i] && rows[from[j]] == places[j]);
    }
}

} // verus!
