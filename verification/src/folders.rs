//! The FOLDERS projects sit in: the directory of a repo, derived and never
//! stored, and the step from one folder of repos to the next.

use crate::model::{lemma_place_of, place_of, Project, ProjectId};
use crate::state::App;
use crate::text::{chars_of, same_text, text_between};
use crate::views::{group_views, views};
use vstd::prelude::*;

verus! {

/// Where the last slash of a path stands; -1 where there is none.
pub open spec fn last_slash(path: Seq<char>) -> int
    decreases path.len(),
{
    if path.len() == 0 {
        -1
    } else if path.last() == '/' {
        path.len() - 1
    } else {
        last_slash(path.drop_last())
    }
}

/// The directory a path stands in.
pub open spec fn folder(path: Seq<char>) -> Seq<char> {
    let at = last_slash(path);
    if at < 0 {
        Seq::empty()
    } else if at == 0 {
        path.take(1)
    } else {
        path.take(at)
    }
}

/// What the last part of a path is called.
pub open spec fn last_part(path: Seq<char>) -> Seq<char> {
    path.skip(last_slash(path) + 1)
}

proof fn lemma_last_slash(path: Seq<char>)
    ensures
        -1 <= last_slash(path) < path.len(),
        last_slash(path) >= 0 ==> path[last_slash(path)] == '/',
        forall|i: int| last_slash(path) < i < path.len() ==> path[i] != '/',
    decreases path.len(),
{
    if path.len() > 0 && path.last() != '/' {
        lemma_last_slash(path.drop_last());
        assert forall|i: int| last_slash(path) < i < path.len() implies path[i] != '/' by {
            if i < path.len() - 1 {
                assert(path.drop_last()[i] == path[i]);
            }
        }
    }
}

/// Where the last slash stands, plus one.
fn after_last_slash(chars: &Vec<char>) -> (r: usize)
    ensures
        r == last_slash(chars@) + 1,
{
    let mut n: usize = chars.len();
    assert(chars@.take(n as int) =~= chars@);
    while n > 0 && chars[n - 1] != '/'
        invariant
            n <= chars@.len(),
            last_slash(chars@) == last_slash(chars@.take(n as int)),
        decreases n,
    {
        assert(chars@.take(n as int).drop_last() =~= chars@.take(n - 1));
        n -= 1;
    }
    n
}

/// The directory a path stands in.
pub fn folder_text(path: &str) -> (r: String)
    ensures
        r@ == folder(path@),
{
    let chars = chars_of(path);
    proof {
        lemma_last_slash(chars@);
    }
    let n: usize = after_last_slash(&chars);
    let end: usize = if n == 0 {
        0
    } else if n == 1 {
        1
    } else {
        n - 1
    };
    proof {
        assert(chars@.subrange(0, end as int) =~= folder(path@));
    }
    text_between(&chars, 0, end)
}

/// What the last part of a path is called.
pub fn last_part_text(path: &str) -> (r: String)
    ensures
        r@ == last_part(path@),
{
    let chars = chars_of(path);
    proof {
        lemma_last_slash(chars@);
    }
    let n: usize = after_last_slash(&chars);
    proof {
        assert(chars@.subrange(n as int, chars@.len() as int) =~= last_part(path@));
    }
    text_between(&chars, n, chars.len())
}

/// The folder of the project the grid is on.
pub open spec fn current_folder(app: App) -> Option<Seq<char>> {
    match app.project_on() {
        Some(p) => Some(folder(p.repo_path@)),
        None => None,
    }
}

/// The folders of the first `n` projects of the tree, each once, in the tree's
/// order.
pub open spec fn folders_first(projects: Seq<Project>, n: int) -> Seq<Seq<char>>
    decreases n,
{
    if n <= 0 {
        Seq::empty()
    } else {
        let before = folders_first(projects, n - 1);
        let f = folder(projects[n - 1].repo_path@);
        if place_of(before, f) is Some {
            before
        } else {
            before.push(f)
        }
    }
}

/// The folders of the projects on this machine.
pub open spec fn folders_of(app: App) -> Seq<Seq<char>> {
    folders_first(app.tree.projects@, app.tree.projects@.len() as int)
}

fn find_text(list: &Vec<String>, text: &str) -> (r: Option<usize>)
    ensures
        match r {
            Some(i) => i < list@.len() && place_of(views(list@), text@) == Some(i as int),
            None => place_of(views(list@), text@) is None,
        },
{
    let ghost all = views(list@);
    proof {
        lemma_place_of(all, text@);
    }
    let mut i: usize = 0;
    while i < list.len()
        invariant
            i <= list@.len(),
            all == views(list@),
            forall|k: int| 0 <= k < i ==> #[trigger] all[k] != text@,
        decreases list@.len() - i,
    {
        if same_text(&list[i], text) {
            proof {
                lemma_place_of(all, text@);
                assert(all[i as int] == text@);
            }
            return Some(i);
        }
        i += 1;
    }
    None
}

/// The folders of the projects on this machine, each once.
pub fn folders(app: &App) -> (r: Vec<String>)
    ensures
        views(r@) == folders_of(*app),
{
    broadcast use group_views;

    let mut out: Vec<String> = Vec::new();
    let mut i: usize = 0;
    assert(views(out@) =~= Seq::empty());
    while i < app.tree.projects.len()
        invariant
            i <= app.tree.projects@.len(),
            views(out@) == folders_first(app.tree.projects@, i as int),
        decreases app.tree.projects@.len() - i,
    {
        let f = folder_text(&app.tree.projects[i].repo_path);
        if find_text(&out, &f).is_none() {
            push_text(&mut out, f);
        }
        i += 1;
    }
    out
}

fn push_text(list: &mut Vec<String>, text: String)
    ensures
        views(final(list)@) == views(old(list)@).push(text@),
{
    broadcast use group_views;

    list.push(text);
}

/// The first project of the tree from place `from` on that is in the folder.
pub open spec fn first_in_folder(projects: Seq<Project>, f: Seq<char>, from: int) -> Option<
    ProjectId,
>
    decreases projects.len() - from,
{
    if from < 0 || from >= projects.len() {
        None
    } else if folder(projects[from].repo_path@) == f {
        Some(projects[from].id)
    } else {
        first_in_folder(projects, f, from + 1)
    }
}

/// The place of the folder after place `at`, or of the one before, wrapping.
pub open spec fn folder_step(at: int, forward: bool, n: int) -> int {
    if forward {
        if at + 1 < n {
            at + 1
        } else {
            0
        }
    } else {
        if at > 0 {
            at - 1
        } else {
            n - 1
        }
    }
}

/// The project a step to the next folder, or to the one before, lands on: the
/// first of that folder. None with no project on screen, and where every
/// project is in one folder.
pub open spec fn stepped_folder(app: App, forward: bool) -> Option<ProjectId> {
    let all = folders_of(app);
    match current_folder(app) {
        None => None,
        Some(f) => if all.len() < 2 {
            None
        } else {
            match place_of(all, f) {
                Some(at) => first_in_folder(
                    app.tree.projects@,
                    all[folder_step(at, forward, all.len() as int)],
                    0,
                ),
                None => None,
            }
        },
    }
}

/// The project a step to the next folder lands on, or to the one before.
pub fn project_in_folder_step(app: &App, forward: bool) -> (r: Option<ProjectId>)
    ensures
        r == stepped_folder(*app, forward),
{
    let here: String = match app.selected_project() {
        Some(p) => folder_text(&p.repo_path),
        None => return None,
    };
    let all = folders(app);
    let n: usize = all.len();
    if n < 2 {
        return None;
    }
    let at: usize = match find_text(&all, &here) {
        Some(at) => at,
        None => return None,
    };
    let to: usize = if forward {
        if at + 1 < n {
            at + 1
        } else {
            0
        }
    } else {
        if at > 0 {
            at - 1
        } else {
            n - 1
        }
    };
    let target = &all[to];
    assert(views(all@)[to as int] == target@);
    let mut i: usize = 0;
    while i < app.tree.projects.len()
        invariant
            i <= app.tree.projects@.len(),
            stepped_folder(*app, forward) == first_in_folder(
                app.tree.projects@,
                target@,
                i as int,
            ),
        decreases app.tree.projects@.len() - i,
    {
        if same_text(&folder_text(&app.tree.projects[i].repo_path), target) {
            return Some(app.tree.projects[i].id.clone());
        }
        i += 1;
    }
    None
}

// ---- what holds of it ----

/// Two folders are one step apart in either direction.
pub proof fn law_folder_steps_wrap(at: int, n: int)
    requires
        n >= 2,
        0 <= at < n,
    ensures
        0 <= folder_step(at, true, n) < n,
        folder_step(at, true, n) != at,
        folder_step(folder_step(at, true, n), false, n) == at,
        folder_step(folder_step(at, false, n), true, n) == at,
        n == 2 ==> folder_step(at, true, n) == folder_step(at, false, n),
{
}

/// A path is its folder, a slash and its last part, which has no slash in it;
/// with no slash at all, the last part alone; and the slash itself is the folder
/// of what stands at the root.
pub proof fn law_folder_and_name_make_the_path(path: Seq<char>)
    ensures
        forall|i: int| 0 <= i < last_part(path).len() ==> #[trigger] last_part(path)[i] != '/',
        !path.contains('/') ==> folder(path).len() == 0 && last_part(path) == path,
        path.contains('/') ==> path == if folder(path) == seq!['/'] && path[0] == '/'
            && !path.skip(1).contains('/') {
            folder(path) + last_part(path)
        } else {
            folder(path) + seq!['/'] + last_part(path)
        },
        path.contains('/') ==> folder(path).len() > 0,
{
    lemma_last_slash(path);
    let at = last_slash(path);
    if path.contains('/') {
        let k = choose|k: int| 0 <= k < path.len() && path[k] == '/';
        assert(at >= k);
        if at == 0 {
            assert(folder(path) =~= seq!['/']);
            assert forall|i: int| 0 <= i < path.skip(1).len() implies path.skip(1)[i] != '/' by {
                assert(path.skip(1)[i] == path[i + 1]);
            }
            assert(path =~= folder(path) + last_part(path));
        } else {
            assert(path.skip(1)[at - 1] == '/');
            assert(path.skip(1).contains('/'));
            assert(path =~= folder(path) + seq!['/'] + last_part(path));
        }
    } else {
        if at >= 0 {
            assert(path.contains(path[at]));
        }
        assert(last_part(path) =~= path);
    }
}

/// Where each of the folders comes from: the first project of the tree that is
/// in it, each folder from a later project than the one before.
proof fn lemma_folders(projects: Seq<Project>, n: int) -> (from: Seq<int>)
    requires
        0 <= n <= projects.len(),
    ensures
        from.len() == folders_first(projects, n).len(),
        forall|i: int|
            0 <= i < from.len() ==> 0 <= #[trigger] from[i] < n && folder(
                projects[from[i]].repo_path@,
            ) == folders_first(projects, n)[i],
        forall|i: int, k: int|
            0 <= i < from.len() && 0 <= k < from[i] ==> folder(
                (#[trigger] projects[k]).repo_path@,
            ) != #[trigger] folders_first(projects, n)[i],
        forall|i: int, j: int| 0 <= i < j < from.len() ==> #[trigger] from[i] < #[trigger] from[j],
        forall|k: int|
            0 <= k < n ==> folders_first(projects, n).contains(
                folder((#[trigger] projects[k]).repo_path@),
            ),
    decreases n,
{
    if n <= 0 {
        Seq::empty()
    } else {
        let before = lemma_folders(projects, n - 1);
        let had = folders_first(projects, n - 1);
        let f = folder(projects[n - 1].repo_path@);
        lemma_place_of(had, f);
        let now = folders_first(projects, n);
        if place_of(had, f) is Some {
            assert(had[place_of(had, f)->0] == f);
            before
        } else {
            let from = before.push(n - 1);
            assert(now.last() == f);
            assert forall|k: int| 0 <= k < n implies now.contains(
                folder((#[trigger] projects[k]).repo_path@),
            ) by {
                if k < n - 1 {
                    let g = folder(projects[k].repo_path@);
                    let i = choose|i: int| 0 <= i < had.len() && had[i] == g;
                    assert(now[i] == g);
                } else {
                    assert(now[now.len() - 1] == f);
                }
            }
            assert forall|i: int, k: int| 0 <= i < from.len() && 0 <= k < from[i] implies folder(
                (#[trigger] projects[k]).repo_path@,
            ) != #[trigger] now[i] by {
                if i < before.len() {
                    assert(now[i] == had[i]);
                } else {
                    let g = folder(projects[k].repo_path@);
                    let m = choose|m: int| 0 <= m < had.len() && had[m] == g;
                    assert(had[m] != f);
                }
            }
            from
        }
    }
}

/// The folders are those the projects stand in, each once, a folder before
/// another where the tree reaches it first.
pub proof fn law_folders_are_the_projects_own(app: App, k: int, i: int, j: int)
    ensures
        0 <= k < app.tree.projects@.len() ==> folders_of(app).contains(
            folder(app.tree.projects@[k].repo_path@),
        ),
        0 <= i < folders_of(app).len() ==> exists|m: int|
            0 <= m < app.tree.projects@.len() && folder(
                (#[trigger] app.tree.projects@[m]).repo_path@,
            ) == folders_of(app)[i],
        0 <= i < j < folders_of(app).len() ==> folders_of(app)[i] != folders_of(app)[j] && exists|
            m: int,
        |
            0 <= m < app.tree.projects@.len() && folder(
                (#[trigger] app.tree.projects@[m]).repo_path@,
            ) == folders_of(app)[i] && forall|x: int|
                0 <= x <= m ==> folder((#[trigger] app.tree.projects@[x]).repo_path@)
                    != folders_of(app)[j],
{
    let ps = app.tree.projects@;
    let from = lemma_folders(ps, ps.len() as int);
    if 0 <= i < folders_of(app).len() {
        assert(folder(ps[from[i]].repo_path@) == folders_of(app)[i]);
    }
    if 0 <= i < j < folders_of(app).len() {
        assert(from[i] < from[j]);
        assert(folder(ps[from[i]].repo_path@) != folders_of(app)[j]);
        assert forall|x: int| 0 <= x <= from[i] implies folder((#[trigger] ps[x]).repo_path@)
            != folders_of(app)[j] by {
            assert(0 <= x < from[j]);
        }
    }
}

proof fn lemma_first_in_folder(ps: Seq<Project>, f: Seq<char>, from: int, m: int)
    requires
        0 <= from <= m < ps.len(),
        folder(ps[m].repo_path@) == f,
        forall|x: int| from <= x < m ==> folder((#[trigger] ps[x]).repo_path@) != f,
    ensures
        first_in_folder(ps, f, from) == Some(ps[m].id),
    decreases m - from,
{
    if from < m {
        assert(folder(ps[from].repo_path@) != f);
        lemma_first_in_folder(ps, f, from + 1, m);
    }
}

/// A step forward from a folder lands in the next one of the list, and back in
/// the one before, round the ends: on the first project there is in it.
pub proof fn law_folder_step_lands_in_the_next(app: App, at: int, m: int, forward: bool)
    requires
        app.project_on() is Some,
        folders_of(app).len() >= 2,
        0 <= at < folders_of(app).len(),
        folders_of(app)[at] == folder(app.project_on()->0.repo_path@),
        ({
            let n = folders_of(app).len() as int;
            let to = if forward {
                (at + 1) % n
            } else {
                (at + n - 1) % n
            };
            &&& 0 <= m < app.tree.projects@.len()
            &&& folder(app.tree.projects@[m].repo_path@) == folders_of(app)[to]
            &&& forall|x: int|
                0 <= x < m ==> folder((#[trigger] app.tree.projects@[x]).repo_path@)
                    != folders_of(app)[to]
        }),
    ensures
        stepped_folder(app, forward) == Some(app.tree.projects@[m].id),
{
    let all = folders_of(app);
    let n = all.len() as int;
    let ps = app.tree.projects@;
    let here = folder(app.project_on()->0.repo_path@);
    lemma_place_of(all, here);
    let p = place_of(all, here)->0;
    if p < at {
        law_folders_are_the_projects_own(app, 0, p, at);
    }
    let to = if forward {
        (at + 1) % n
    } else {
        (at + n - 1) % n
    };
    if forward {
        if at + 1 == n {
            assert((at + 1) % n == 0) by (nonlinear_arith)
                requires
                    at + 1 == n,
                    n >= 2,
            ;
        } else {
            vstd::arithmetic::div_mod::lemma_small_mod((at + 1) as nat, n as nat);
        }
    } else if at == 0 {
        vstd::arithmetic::div_mod::lemma_small_mod((n - 1) as nat, n as nat);
    } else {
        vstd::arithmetic::div_mod::lemma_mod_add_multiples_vanish(at - 1, n);
        vstd::arithmetic::div_mod::lemma_small_mod((at - 1) as nat, n as nat);
        assert(at + n - 1 == n + (at - 1));
    }
    assert(to == folder_step(at, forward, n));
    lemma_first_in_folder(ps, all[to], 0, m);
}

/// With no project on screen, or every project in one folder, a folder step
/// goes nowhere.
pub proof fn law_one_folder_is_stayed_in(app: App, forward: bool)
    requires
        app.project_on() is None || forall|i: int, j: int|
            0 <= i < app.tree.projects@.len() && 0 <= j < app.tree.projects@.len() ==> folder(
                (#[trigger] app.tree.projects@[i]).repo_path@,
            ) == folder((#[trigger] app.tree.projects@[j]).repo_path@),
    ensures
        stepped_folder(app, forward) is None,
{
    if app.project_on() is Some && folders_of(app).len() >= 2 {
        let ps = app.tree.projects@;
        let from = lemma_folders(ps, ps.len() as int);
        law_folders_are_the_projects_own(app, 0, 0, 1);
        assert(folder(ps[from[0]].repo_path@) == folder(ps[from[1]].repo_path@));
    }
}

} // verus!
