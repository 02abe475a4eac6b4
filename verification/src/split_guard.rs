//! The SPLIT GUARD — paths a project says must travel in a change of their
//! own, and whether a checkout is currently mixing them with anything else.
//!
//! Some files carry a deploy step the code around them does not: a database
//! migration ships, and is deployed, on its own, before or after the code
//! that uses it. A project names the paths that must stand alone, and a
//! checkout whose change touches both those and anything else is badged.

use crate::text::{
    chars_of, in_order, insert_in_order, lines, lines_of, lossy_text, text_lt, trim, trimmed,
    utf8_lossy, without_slashes,
};
use crate::views::{group_views, lemma_views_push, views};
use vstd::prelude::*;
use vstd::utf8::encode_utf8;

verus! {

// ---- globs ----

/// The byte of `*`.
pub const STAR: u8 = 0x2a;
/// The byte of `?`.
pub const MARK: u8 = 0x3f;
/// The byte of `/`.
pub const SLASH: u8 = 0x2f;

/// `p` opens with `**/`.
pub open spec fn whole_segments(p: Seq<u8>) -> bool {
    p.len() > 2 && p[0] == STAR && p[1] == STAR && p[2] == SLASH
}

/// What is left of a pattern behind a leading `**` or `**/`.
pub open spec fn after_double_star(p: Seq<u8>) -> Seq<u8> {
    if whole_segments(p) {
        p.skip(3)
    } else {
        p.skip(2)
    }
}

/// A segment of `s` starts at `j`.
pub open spec fn segment_starts(s: Seq<u8>, j: int) -> bool {
    j == 0 || s[j - 1] == SLASH
}

/// `p` opens with `**`.
pub open spec fn double_star(p: Seq<u8>) -> bool {
    p.len() >= 2 && p[0] == STAR && p[1] == STAR
}

/// The glob `p` matches the whole of `s`: `**/` spans any number of whole
/// segments, none among them, any other `**` any bytes, `*` any bytes but `/`,
/// `?` one byte but `/`, every other byte itself.
pub open spec fn glob(p: Seq<u8>, s: Seq<u8>) -> bool
    decreases p.len(),
{
    if p.len() == 0 {
        s.len() == 0
    } else if double_star(p) {
        exists|j: int|
            0 <= j <= s.len() && (whole_segments(p) ==> segment_starts(s, j)) && glob(
                after_double_star(p),
                #[trigger] s.skip(j),
            )
    } else if p[0] == STAR {
        exists|j: int|
            0 <= j <= s.len() && !s.take(j).contains(SLASH) && glob(p.skip(1), #[trigger] s.skip(j))
    } else {
        &&& s.len() > 0
        &&& (p[0] == s[0] || (p[0] == MARK && s[0] != SLASH))
        &&& glob(p.skip(1), s.skip(1))
    }
}

/// Backtracking matcher: `**` crosses `/`, `*` does not, `?` is one non-`/`
/// byte. `**/x` also matches a bare `x` at the root.
pub fn match_here(p: &[u8], s: &[u8]) -> (r: bool)
    ensures
        r == glob(p@, s@),
    decreases p@.len(),
{
    if p.is_empty() {
        return s.is_empty();
    }
    if p.len() >= 2 && p[0] == STAR && p[1] == STAR {
        let whole: bool = p.len() > 2 && p[2] == SLASH;
        let from: usize = if whole {
            3
        } else {
            2
        };
        let rest = &p[from..p.len()];
        assert(rest@ =~= after_double_star(p@));
        let mut i: usize = 0;
        while i <= s.len()
            invariant
                i <= s@.len() + 1,
                double_star(p@),
                whole == whole_segments(p@),
                rest@ == after_double_star(p@),
                rest@.len() < p@.len(),
                forall|j: int|
                    0 <= j < i && (whole ==> segment_starts(s@, j)) ==> !glob(
                        rest@,
                        #[trigger] s@.skip(j),
                    ),
            decreases s@.len() + 1 - i,
        {
            let tail = &s[i..s.len()];
            assert(tail@ =~= s@.skip(i as int));
            if (!whole || i == 0 || s[i - 1] == SLASH) && match_here(rest, tail) {
                assert(glob(after_double_star(p@), s@.skip(i as int)));
                return true;
            }
            if i == s.len() {
                return false;
            }
            i += 1;
        }
        return false;
    }
    let rest = &p[1..p.len()];
    assert(rest@ =~= p@.skip(1));
    if p[0] == STAR {
        let mut i: usize = 0;
        while i <= s.len()
            invariant
                i <= s@.len() + 1,
                p@.len() > 0,
                p@[0] == STAR,
                !double_star(p@),
                rest@ == p@.skip(1),
                rest@.len() < p@.len(),
                forall|k: int| 0 <= k < i && k < s@.len() ==> s@[k] != SLASH,
                forall|j: int| 0 <= j < i ==> !glob(rest@, #[trigger] s@.skip(j)),
            decreases s@.len() + 1 - i,
        {
            let tail = &s[i..s.len()];
            assert(tail@ =~= s@.skip(i as int));
            if match_here(rest, tail) {
                assert(!s@.take(i as int).contains(SLASH));
                assert(glob(p@.skip(1), s@.skip(i as int)));
                return true;
            }
            if i == s.len() {
                return false;
            }
            if s[i] == SLASH {
                assert forall|j: int| 0 <= j <= s@.len() && !s@.take(j).contains(SLASH) implies !glob(
                    p@.skip(1),
                    #[trigger] s@.skip(j),
                ) by {
                    if j > i {
                        assert(s@.take(j)[i as int] == SLASH);
                    }
                }
                return false;
            }
            i += 1;
        }
        return false;
    }
    if !s.is_empty() && ((p[0] == MARK && s[0] != SLASH) || p[0] == s[0]) {
        let tail = &s[1..s.len()];
        assert(tail@ =~= s@.skip(1));
        return match_here(rest, tail);
    }
    false
}

// ---- patterns ----

/// `path` is `dir` or stands under it.
pub open spec fn under(dir: Seq<char>, path: Seq<char>) -> bool {
    path == dir || dir.push('/').is_prefix_of(path)
}

/// The pattern matches the path: white space round the pattern is nothing, an
/// empty pattern matches no path, one without a wildcard matches that path and
/// everything under it, any other is a glob.
pub open spec fn path_matches(pattern: Seq<char>, path: Seq<char>) -> bool {
    let p = trim(pattern);
    if p.len() == 0 {
        false
    } else if !p.contains('*') && !p.contains('?') {
        under(without_slashes(p), path)
    } else {
        glob(encode_utf8(p), encode_utf8(path))
    }
}

fn is_under(dir: &Vec<char>, path: &Vec<char>) -> (r: bool)
    ensures
        r == under(dir@, path@),
{
    let mut i: usize = 0;
    while i < dir.len()
        invariant
            i <= dir@.len(),
            i <= path@.len(),
            forall|k: int| 0 <= k < i ==> dir@[k] == path@[k],
        decreases dir@.len() - i,
    {
        if i >= path.len() || dir[i] != path[i] {
            assert(i < path@.len() ==> dir@.push('/')[i as int] != path@[i as int]);
            return false;
        }
        i += 1;
    }
    assert forall|k: int| 0 <= k < dir@.len() implies dir@.push('/')[k] == path@[k] by {}
    if path.len() == dir.len() {
        assert(path@ =~= dir@);
        return true;
    }
    if path[i] == '/' {
        assert(path@.subrange(0, dir@.push('/').len() as int) =~= dir@.push('/'));
        true
    } else {
        assert(dir@.push('/')[i as int] == '/');
        false
    }
}

fn has_char(chars: &Vec<char>, c: char) -> (r: bool)
    ensures
        r == chars@.contains(c),
{
    let mut i: usize = 0;
    while i < chars.len()
        invariant
            i <= chars@.len(),
            forall|k: int| 0 <= k < i ==> chars@[k] != c,
        decreases chars@.len() - i,
    {
        if chars[i] == c {
            return true;
        }
        i += 1;
    }
    false
}

/// Glob match over a repo-relative path. `*` spans one segment, `**` spans
/// any number, and a pattern with no wildcard at all matches that path or
/// anything under it — so `prisma/migrations` needs no `/**` to mean the
/// directory.
pub fn matches(pattern: &str, path: &str) -> (r: bool)
    ensures
        r == path_matches(pattern@, path@),
{
    let pattern = trimmed(pattern);
    let mut p = chars_of(&pattern);
    if p.len() == 0 {
        return false;
    }
    if !has_char(&p, '*') && !has_char(&p, '?') {
        let ghost whole = p@;
        while p.len() > 0 && p[p.len() - 1] == '/'
            invariant
                without_slashes(p@) == without_slashes(whole),
            decreases p@.len(),
        {
            p.pop();
        }
        return is_under(&p, &chars_of(path));
    }
    match_here(pattern.as_str().as_bytes(), path.as_bytes())
}

// ---- verdicts ----

/// What the guard found in one checkout.
#[derive(Debug, Clone, PartialEq)]
pub struct Verdict {
    /// Changed paths matching the project's patterns.
    pub isolated: Vec<String>,
    /// Everything else that changed.
    pub other: Vec<String>,
    /// Whether the base ref resolved. False means only the working tree was
    /// read, so a clean verdict is "nothing seen yet", not "nothing there".
    pub base_known: bool,
}

impl Default for Verdict {
    fn default() -> (r: Self)
        ensures
            r.isolated@.len() == 0,
            r.other@.len() == 0,
            !r.base_known,
    {
        Verdict { isolated: Vec::new(), other: Vec::new(), base_known: false }
    }
}

impl Verdict {
    /// The badge condition: the change carries isolated paths *and*
    /// something else, so it cannot ship as one pull request.
    pub fn is_split(&self) -> (r: bool)
        ensures
            r == (self.isolated@.len() > 0 && self.other@.len() > 0),
    {
        !self.isolated.is_empty() && !self.other.is_empty()
    }
}

/// Some pattern of the list matches the path.
pub open spec fn isolates(patterns: Seq<Seq<char>>, path: Seq<char>) -> bool {
    exists|i: int| 0 <= i < patterns.len() && path_matches(#[trigger] patterns[i], path)
}

/// The verdict splits `paths` by the patterns: the paths some pattern matches
/// on one side, the rest on the other, each side in order and without
/// repeats.
pub open spec fn splits(v: Verdict, paths: Seq<Seq<char>>, patterns: Seq<Seq<char>>) -> bool {
    &&& in_order(views(v.isolated@))
    &&& in_order(views(v.other@))
    &&& views(v.isolated@).to_set() == paths.to_set().filter(|p: Seq<char>| isolates(patterns, p))
    &&& views(v.other@).to_set() == paths.to_set().filter(|p: Seq<char>| !isolates(patterns, p))
}

fn any_matches(patterns: &[String], path: &str) -> (r: bool)
    ensures
        r == isolates(views(patterns@), path@),
{
    let mut i: usize = 0;
    while i < patterns.len()
        invariant
            i <= patterns@.len(),
            forall|k: int| 0 <= k < i ==> !path_matches(#[trigger] views(patterns@)[k], path@),
        decreases patterns@.len() - i,
    {
        if matches(&patterns[i], path) {
            assert(path_matches(views(patterns@)[i as int], path@));
            return true;
        }
        i += 1;
    }
    false
}

/// Classify `paths` against the project's isolate patterns.
pub fn classify(paths: Vec<String>, patterns: &[String]) -> (v: Verdict)
    ensures
        splits(v, views(paths@), views(patterns@)),
        !v.base_known,
{
    broadcast use group_views;

    let ghost pats = views(patterns@);
    let ghost all = views(paths@);
    let mut v = Verdict::default();
    assert(views(v.isolated@) =~= Seq::empty() && views(v.other@) =~= Seq::empty());
    let mut i: usize = 0;
    assert(all.take(0).to_set() =~= Set::empty());
    assert(Seq::<Seq<char>>::empty().to_set() =~= Set::empty());
    assert(splits(v, all.take(0), pats)) by {
        assert(all.take(0).to_set().filter(|p: Seq<char>| isolates(pats, p)) =~= Set::empty());
        assert(all.take(0).to_set().filter(|p: Seq<char>| !isolates(pats, p)) =~= Set::empty());
    }
    while i < paths.len()
        invariant
            i <= paths@.len(),
            all == views(paths@),
            pats == views(patterns@),
            splits(v, all.take(i as int), pats),
            !v.base_known,
        decreases paths@.len() - i,
    {
        let path = paths[i].clone();
        let ghost seen = all.take(i as int).to_set();
        let ghost now = all.take(i + 1).to_set();
        proof {
            assert(all.take(i + 1) =~= all.take(i as int).push(path@));
            assert(now =~= seen.insert(path@)) by {
                lemma_push_to_set(all.take(i as int), path@);
            }
        }
        if any_matches(patterns, &path) {
            insert_in_order(&mut v.isolated, path);
        } else {
            insert_in_order(&mut v.other, path);
        }
        proof {
            assert(views(v.isolated@).to_set() =~= now.filter(
                |p: Seq<char>| isolates(pats, p),
            ));
            assert(views(v.other@).to_set() =~= now.filter(|p: Seq<char>| !isolates(pats, p)));
        }
        i += 1;
    }
    assert(all.take(i as int) =~= all);
    v
}

proof fn lemma_push_to_set<T>(s: Seq<T>, t: T)
    ensures
        s.push(t).to_set() == s.to_set().insert(t),
{
    assert forall|x: T| s.push(t).to_set().contains(x) <==> s.to_set().insert(t).contains(x) by {
        if s.contains(x) {
            let i = choose|i: int| 0 <= i < s.len() && s[i] == x;
            assert(s.push(t)[i] == x);
        }
        if x == t {
            assert(s.push(t)[s.len() as int] == x);
        }
    }
    assert(s.push(t).to_set() =~= s.to_set().insert(t));
}

// ---- reading a checkout ----

/// How one run of git ended.
#[derive(Debug)]
pub struct GitOutput {
    pub success: bool,
    pub stdout: Vec<u8>,
}

/// The lines of `text` that hold anything but white space.
pub open spec fn paths_in(text: Seq<char>) -> Seq<Seq<char>> {
    lines(text).filter(|l: Seq<char>| trim(l).len() > 0)
}

/// The paths a name-only diff lists, one per line that is not blank.
pub fn listed_paths(text: &str) -> (r: Vec<String>)
    ensures
        views(r@) == paths_in(text@),
{
    broadcast use lemma_views_push;

    let all = lines_of(text);
    let ghost keep = |l: Seq<char>| trim(l).len() > 0;
    let ghost seen = views(all@);
    let mut out: Vec<String> = Vec::new();
    let mut i: usize = 0;
    assert(views(out@) =~= seen.take(0).filter(keep)) by {
        reveal(Seq::filter);
    }
    while i < all.len()
        invariant
            i <= all@.len(),
            seen == views(all@),
            keep == (|l: Seq<char>| trim(l).len() > 0),
            views(out@) == seen.take(i as int).filter(keep),
        decreases all@.len() - i,
    {
        proof {
            assert(seen.take(i + 1) =~= seen.take(i as int).push(all@[i as int]@));
            seen.take(i as int).lemma_filter_push(all@[i as int]@, keep);
        }
        if trimmed(&all[i]).as_str().is_empty() {
        } else {
            out.push(all[i].clone());
        }
        i += 1;
    }
    assert(seen.take(i as int) =~= seen);
    out
}

/// The paths a change touches, from what git said: the committed ones where
/// the base resolved, then the uncommitted ones.
pub open spec fn touched(committed: GitOutput, dirty: Seq<Seq<char>>) -> Seq<Seq<char>> {
    if committed.success {
        paths_in(utf8_lossy(committed.stdout@)) + dirty
    } else {
        dirty
    }
}

/// Every path this checkout's change touches: what the branch committed
/// since it left its base, plus what is uncommitted on top. The two together
/// are what a pull request from here would carry. `committed` is the
/// name-only diff from the merge base to the head, `dirty` the files changed
/// in the working tree; a failure of the first is told before one of the
/// second.
pub fn changed_paths(
    committed: Result<GitOutput, String>,
    dirty: Result<Vec<String>, String>,
) -> (r: Result<(Vec<String>, bool), String>)
    ensures
        committed is Err ==> r == Err::<(Vec<String>, bool), String>(committed->Err_0),
        committed is Ok && dirty is Err ==> r == Err::<(Vec<String>, bool), String>(dirty->Err_0),
        committed is Ok && dirty is Ok ==> {
            &&& r is Ok
            &&& views(r->Ok_0.0@) == touched(committed->Ok_0, views(dirty->Ok_0@))
            &&& r->Ok_0.1 == committed->Ok_0.success
        },
{
    broadcast use group_views;

    let committed = match committed {
        Ok(out) => out,
        Err(e) => return Err(e),
    };
    let mut dirty = match dirty {
        Ok(paths) => paths,
        Err(e) => return Err(e),
    };
    let mut paths: Vec<String> = if committed.success {
        listed_paths(&lossy_text(&committed.stdout))
    } else {
        Vec::new()
    };
    assert(views(paths@) + views(dirty@) =~= touched(committed, views(dirty@)));
    paths.append(&mut dirty);
    Ok((paths, committed.success))
}

/// The guard's answer for one checkout. No patterns means the project never
/// asked for the guard, and what git said goes unread.
pub fn verdict(
    committed: Result<GitOutput, String>,
    dirty: Result<Vec<String>, String>,
    patterns: &[String],
) -> (r: Result<Verdict, String>)
    ensures
        patterns@.len() == 0 ==> {
            &&& r is Ok
            &&& r->Ok_0.isolated@.len() == 0
            &&& r->Ok_0.other@.len() == 0
            &&& !r->Ok_0.base_known
        },
        patterns@.len() > 0 && committed is Err ==> r == Err::<Verdict, String>(committed->Err_0),
        patterns@.len() > 0 && committed is Ok && dirty is Err ==> r == Err::<Verdict, String>(
            dirty->Err_0,
        ),
        patterns@.len() > 0 && committed is Ok && dirty is Ok ==> {
            &&& r is Ok
            &&& splits(
                r->Ok_0,
                touched(committed->Ok_0, views(dirty->Ok_0@)),
                views(patterns@),
            )
            &&& r->Ok_0.base_known == committed->Ok_0.success
        },
{
    if patterns.len() == 0 {
        return Ok(Verdict::default());
    }
    match changed_paths(committed, dirty) {
        Ok((paths, base_known)) => {
            let mut v = classify(paths, patterns);
            v.base_known = base_known;
            Ok(v)
        },
        Err(e) => Err(e),
    }
}

// ---- what holds of it ----

/// A path with no wildcard in it matches itself, white space aside.
pub proof fn law_plain_path_matches_itself(path: Seq<char>)
    requires
        trim(path) == path,
        path.len() > 0,
        path.last() != '/',
        !path.contains('*'),
        !path.contains('?'),
    ensures
        path_matches(path, path),
{
}

/// `**` at the front of a glob matches whatever the rest of it matches, behind
/// any bytes at all.
pub proof fn law_double_star_spans_anything(rest: Seq<u8>, front: Seq<u8>, s: Seq<u8>)
    requires
        glob(rest, s),
        rest.len() > 0 ==> rest[0] != SLASH,
    ensures
        glob(seq![STAR, STAR] + rest, front + s),
{
    let n = front.len() as int;
    assert((front + s).skip(n) =~= s);
    let p = seq![STAR, STAR] + rest;
    assert(after_double_star(p) =~= rest);
    assert(glob(after_double_star(p), (front + s).skip(n)));
}

/// `**/` at the front of a glob matches whatever the rest of it matches, alone
/// or behind whole segments.
pub proof fn law_double_star_spans_segments(rest: Seq<u8>, front: Seq<u8>, s: Seq<u8>)
    requires
        glob(rest, s),
        front.len() == 0 || front.last() == SLASH,
    ensures
        glob(seq![STAR, STAR, SLASH] + rest, front + s),
{
    let n = front.len() as int;
    assert((front + s).skip(n) =~= s);
    let p = seq![STAR, STAR, SLASH] + rest;
    assert(after_double_star(p) =~= rest);
    assert(segment_starts(front + s, n));
    assert(glob(after_double_star(p), (front + s).skip(n)));
}

/// `lit` has no wildcard in it.
pub open spec fn literal(lit: Seq<u8>) -> bool {
    !lit.contains(STAR) && !lit.contains(MARK)
}

proof fn lemma_literal_is_itself(lit: Seq<u8>, s: Seq<u8>)
    requires
        literal(lit),
    ensures
        glob(lit, s) <==> s == lit,
    decreases lit.len(),
{
    if lit.len() == 0 {
        assert(s.len() == 0 ==> s =~= lit);
    } else {
        assert(lit.contains(lit[0]));
        let rest = lit.skip(1);
        assert forall|b: u8| rest.contains(b) implies lit.contains(b) by {
            let i = choose|i: int| 0 <= i < rest.len() && rest[i] == b;
            assert(lit[i + 1] == b);
        }
        if s.len() > 0 {
            lemma_literal_is_itself(rest, s.skip(1));
            if s[0] == lit[0] && s.skip(1) == rest {
                assert(s =~= seq![s[0]] + s.skip(1));
                assert(lit =~= seq![lit[0]] + rest);
            }
        }
    }
}

/// `**/` before a name matches that name at the root or behind a `/`, and
/// nothing whose last segment merely ends in it.
pub proof fn law_double_star_names_a_path(lit: Seq<u8>, s: Seq<u8>)
    requires
        literal(lit),
        lit.len() > 0,
    ensures
        glob(seq![STAR, STAR, SLASH] + lit, s) <==> s == lit || (seq![SLASH] + lit).is_suffix_of(s),
{
    let p = seq![STAR, STAR, SLASH] + lit;
    assert(after_double_star(p) =~= lit);
    let tail = seq![SLASH] + lit;
    if glob(p, s) {
        let j = choose|j: int|
            0 <= j <= s.len() && segment_starts(s, j) && glob(lit, #[trigger] s.skip(j));
        lemma_literal_is_itself(lit, s.skip(j));
        if j == 0 {
            assert(s.skip(0) =~= s);
        } else {
            assert(s.skip(j - 1) =~= tail);
            assert(s.subrange(s.len() - tail.len(), s.len() as int) =~= tail);
        }
    }
    if s == lit {
        assert(s.skip(0) =~= s);
        lemma_literal_is_itself(lit, s.skip(0));
        assert(glob(after_double_star(p), s.skip(0)));
    }
    if tail.is_suffix_of(s) {
        let j = s.len() - lit.len();
        let end = s.subrange(s.len() - tail.len(), s.len() as int);
        assert(end == tail);
        assert(s[j - 1] == end[0]);
        assert forall|k: int| 0 <= k < lit.len() implies s[j + k] == lit[k] by {
            assert(s[j + k] == end[k + 1]);
            assert(tail[k + 1] == lit[k]);
        }
        assert(s.skip(j) =~= lit);
        lemma_literal_is_itself(lit, s.skip(j));
        assert(segment_starts(s, j));
        assert(glob(after_double_star(p), s.skip(j)));
    }
}

/// `*` at the front of a glob never spans a `/`: what it matches either has no
/// `/` before the part the rest of the glob takes, or is not matched.
pub proof fn law_star_stops_at_a_slash(rest: Seq<u8>, s: Seq<u8>)
    requires
        rest.len() == 0 || rest[0] != STAR,
    ensures
        glob(seq![STAR] + rest, s) <==> exists|j: int|
            0 <= j <= s.len() && !s.take(j).contains(SLASH) && glob(rest, #[trigger] s.skip(j)),
{
    let p = seq![STAR] + rest;
    assert(p.skip(1) =~= rest);
}

/// Classifying loses no path and puts none on both sides.
pub proof fn law_classify_partitions(
    v: Verdict,
    paths: Seq<Seq<char>>,
    patterns: Seq<Seq<char>>,
)
    requires
        splits(v, paths, patterns),
    ensures
        views(v.isolated@).to_set().union(views(v.other@).to_set()) == paths.to_set(),
        views(v.isolated@).to_set().disjoint(views(v.other@).to_set()),
{
    assert(views(v.isolated@).to_set().union(views(v.other@).to_set()) =~= paths.to_set());
}

/// A change is badged exactly when it holds a path some pattern names and a
/// path none does.
pub proof fn law_split_is_a_mix(v: Verdict, paths: Seq<Seq<char>>, patterns: Seq<Seq<char>>)
    requires
        splits(v, paths, patterns),
    ensures
        (v.isolated@.len() > 0 && v.other@.len() > 0) <==> {
            &&& exists|p: Seq<char>| paths.contains(p) && isolates(patterns, p)
            &&& exists|p: Seq<char>| paths.contains(p) && !isolates(patterns, p)
        },
{
    let inside = views(v.isolated@);
    let outside = views(v.other@);
    if inside.len() > 0 {
        assert(inside.to_set().contains(inside[0]));
        assert(paths.contains(inside[0]) && isolates(patterns, inside[0]));
    }
    if outside.len() > 0 {
        assert(outside.to_set().contains(outside[0]));
        assert(paths.contains(outside[0]) && !isolates(patterns, outside[0]));
    }
    if exists|p: Seq<char>| paths.contains(p) && isolates(patterns, p) {
        let p = choose|p: Seq<char>| paths.contains(p) && isolates(patterns, p);
        assert(paths.to_set().contains(p));
        assert(inside.to_set().contains(p));
        assert(inside.contains(p));
    }
    if exists|p: Seq<char>| paths.contains(p) && !isolates(patterns, p) {
        let p = choose|p: Seq<char>| paths.contains(p) && !isolates(patterns, p);
        assert(paths.to_set().contains(p));
        assert(outside.to_set().contains(p));
        assert(outside.contains(p));
    }
}

/// The verdict hangs on which paths changed, not on the order they were read
/// in nor on how often.
pub proof fn law_classify_ignores_order(
    v: Verdict,
    w: Verdict,
    paths: Seq<Seq<char>>,
    again: Seq<Seq<char>>,
    patterns: Seq<Seq<char>>,
)
    requires
        splits(v, paths, patterns),
        splits(w, again, patterns),
        paths.to_set() == again.to_set(),
    ensures
        views(v.isolated@) == views(w.isolated@),
        views(v.other@) == views(w.other@),
{
    crate::text::lemma_in_order_unique(views(v.isolated@), views(w.isolated@));
    crate::text::lemma_in_order_unique(views(v.other@), views(w.other@));
}

/// What each byte of a glob is worth. A byte that is no wildcard matches itself
/// and nothing else, `?` any one byte but `/`; the rest of the glob matches the
/// rest of the text. A glob with nothing left matches nothing left.
pub proof fn law_glob_byte_by_byte(c: u8, rest: Seq<u8>, s: Seq<u8>)
    requires
        c != STAR,
    ensures
        glob(Seq::empty(), s) <==> s.len() == 0,
        c != MARK ==> (glob(seq![c] + rest, s) <==> s.len() > 0 && s[0] == c && glob(
            rest,
            s.skip(1),
        )),
        c == MARK ==> (glob(seq![c] + rest, s) <==> s.len() > 0 && s[0] != SLASH && glob(
            rest,
            s.skip(1),
        )),
{
    let p = seq![c] + rest;
    assert(p.skip(1) =~= rest);
    assert(p[0] == c);
}

/// `**` at the front of a glob matches just what the rest of it matches at the
/// end of; `**/` just what the rest matches at the end of, from the front of a
/// segment on.
pub proof fn law_double_star_matches_an_end(rest: Seq<u8>, s: Seq<u8>)
    ensures
        rest.len() == 0 || rest[0] != SLASH ==> (glob(seq![STAR, STAR] + rest, s) <==> exists|j: int|
            0 <= j <= s.len() && glob(rest, #[trigger] s.skip(j))),
        glob(seq![STAR, STAR, SLASH] + rest, s) <==> exists|j: int|
            0 <= j <= s.len() && (j == 0 || s[j - 1] == SLASH) && glob(
                rest,
                #[trigger] s.skip(j),
            ),
{
    let p = seq![STAR, STAR] + rest;
    let q = seq![STAR, STAR, SLASH] + rest;
    assert(q.skip(3) =~= rest);
    assert(p.skip(2) =~= rest);
    if rest.len() > 0 {
        assert(p[2] == rest[0]);
    }
    assert(q[2] == SLASH);
    if glob(q, s) {
        let j = choose|j: int|
            0 <= j <= s.len() && segment_starts(s, j) && glob(rest, #[trigger] s.skip(j));
        assert(j == 0 || s[j - 1] == SLASH);
    }
    if exists|j: int|
        0 <= j <= s.len() && (j == 0 || s[j - 1] == SLASH) && glob(rest, #[trigger] s.skip(j)) {
        let j = choose|j: int|
            0 <= j <= s.len() && (j == 0 || s[j - 1] == SLASH) && glob(rest, #[trigger] s.skip(j));
        assert(segment_starts(s, j));
        assert(glob(after_double_star(q), s.skip(j)));
    }
}

/// A pattern without a wildcard is a directory or a file: it matches its own
/// path and every path behind it and a `/`, and no other. White space around it
/// and slashes behind it make no difference.
pub proof fn law_plain_pattern_is_a_directory(pattern: Seq<char>, dir: Seq<char>, path: Seq<char>)
    requires
        trim(pattern) == dir || trim(pattern) == dir.push('/'),
        trim(pattern).len() > 0,
        dir.len() > 0,
        dir.last() != '/',
        !dir.contains('*'),
        !dir.contains('?'),
    ensures
        path_matches(pattern, path) <==> path == dir || (path.len() > dir.len() && path.take(
            dir.len() as int,
        ) == dir && path[dir.len() as int] == '/'),
{
    let p = trim(pattern);
    assert(crate::text::without_slashes(dir) == dir);
    if p == dir.push('/') {
        assert(p.drop_last() =~= dir);
        assert forall|c: char| p.contains(c) implies c == '/' || dir.contains(c) by {
            let i = choose|i: int| 0 <= i < p.len() && p[i] == c;
            if i < dir.len() {
                assert(dir[i] == c);
            }
        }
    }
    let stem = dir.push('/');
    if stem.is_prefix_of(path) {
        assert(path.take(dir.len() as int) =~= dir) by {
            assert forall|i: int| 0 <= i < dir.len() implies path[i] == dir[i] by {
                assert(path.subrange(0, stem.len() as int)[i] == stem[i]);
            }
        }
        assert(path.subrange(0, stem.len() as int)[dir.len() as int] == '/');
    }
    if path.len() > dir.len() && path.take(dir.len() as int) == dir && path[dir.len() as int]
        == '/' {
        assert(path.subrange(0, stem.len() as int) =~= stem) by {
            assert forall|i: int| 0 <= i < stem.len() implies path[i] == stem[i] by {
                if i < dir.len() {
                    assert(path.take(dir.len() as int)[i] == path[i]);
                }
            }
        }
    }
}

/// A pattern with a wildcard is a glob over the bytes of the path, and one of
/// nothing but white space matches no path.
pub proof fn law_wildcards_make_a_glob(pattern: Seq<char>, path: Seq<char>)
    ensures
        trim(pattern).contains('*') || trim(pattern).contains('?') ==> (path_matches(pattern, path)
            <==> glob(encode_utf8(trim(pattern)), encode_utf8(path))),
        trim(pattern).len() == 0 ==> !path_matches(pattern, path),
{
}

/// Which side a changed path is on: with the isolated ones where a pattern of
/// the list, any of them, matches it, and with the rest where none does.
pub proof fn law_any_pattern_isolates(
    v: Verdict,
    paths: Seq<Seq<char>>,
    patterns: Seq<Seq<char>>,
    path: Seq<char>,
)
    requires
        splits(v, paths, patterns),
    ensures
        views(v.isolated@).contains(path) <==> paths.contains(path) && exists|i: int|
            0 <= i < patterns.len() && path_matches(#[trigger] patterns[i], path),
        views(v.other@).contains(path) <==> paths.contains(path) && forall|i: int|
            0 <= i < patterns.len() ==> !path_matches(#[trigger] patterns[i], path),
        forall|i: int|
            0 <= i < patterns.len() && paths.contains(path) && path_matches(
                #[trigger] patterns[i],
                path,
            ) ==> views(v.isolated@).contains(path),
{
    assert(views(v.isolated@).to_set().contains(path) <==> views(v.isolated@).contains(path));
    assert(views(v.other@).to_set().contains(path) <==> views(v.other@).contains(path));
    assert(paths.to_set().contains(path) <==> paths.contains(path));
}

/// More patterns isolate more: the isolated side for two lists of patterns
/// together is what either isolates on its own, in whichever order they come.
pub proof fn law_patterns_add_up(
    both: Verdict,
    first: Verdict,
    second: Verdict,
    paths: Seq<Seq<char>>,
    p: Seq<Seq<char>>,
    q: Seq<Seq<char>>,
)
    requires
        splits(both, paths, p + q) || splits(both, paths, q + p),
        splits(first, paths, p),
        splits(second, paths, q),
    ensures
        views(both.isolated@).to_set() == views(first.isolated@).to_set().union(
            views(second.isolated@).to_set(),
        ),
        views(both.other@).to_set() == views(first.other@).to_set().intersect(
            views(second.other@).to_set(),
        ),
{
    let pq = if splits(both, paths, p + q) {
        p + q
    } else {
        q + p
    };
    assert forall|x: Seq<char>| isolates(pq, x) <==> isolates(p, x) || isolates(q, x) by {
        if isolates(p, x) {
            let i = choose|i: int| 0 <= i < p.len() && path_matches(#[trigger] p[i], x);
            let at = if pq == p + q {
                i
            } else {
                q.len() + i
            };
            assert(pq[at] == p[i]);
        }
        if isolates(q, x) {
            let i = choose|i: int| 0 <= i < q.len() && path_matches(#[trigger] q[i], x);
            let at = if pq == p + q {
                p.len() + i
            } else {
                i
            };
            assert(pq[at] == q[i]);
        }
        if isolates(pq, x) {
            let i = choose|i: int| 0 <= i < pq.len() && path_matches(#[trigger] pq[i], x);
            if pq == p + q {
                if i < p.len() {
                    assert(p[i] == pq[i]);
                } else {
                    assert(q[i - p.len()] == pq[i]);
                }
            } else {
                if i < q.len() {
                    assert(q[i] == pq[i]);
                } else {
                    assert(p[i - q.len()] == pq[i]);
                }
            }
        }
    }
    assert(views(both.isolated@).to_set() =~= views(first.isolated@).to_set().union(
        views(second.isolated@).to_set(),
    ));
    assert(views(both.other@).to_set() =~= views(first.other@).to_set().intersect(
        views(second.other@).to_set(),
    ));
}

/// Either side of a verdict comes in the order of its texts, and names no path
/// twice.
pub proof fn law_verdict_is_sorted(
    v: Verdict,
    paths: Seq<Seq<char>>,
    patterns: Seq<Seq<char>>,
    i: int,
    j: int,
)
    requires
        splits(v, paths, patterns),
        0 <= i < j,
    ensures
        j < v.isolated@.len() ==> text_lt(v.isolated@[i]@, v.isolated@[j]@) && v.isolated@[i]@
            != v.isolated@[j]@,
        j < v.other@.len() ==> text_lt(v.other@[i]@, v.other@[j]@) && v.other@[i]@
            != v.other@[j]@,
{
    let a = views(v.isolated@);
    let b = views(v.other@);
    if j < a.len() {
        assert(text_lt(a[i], a[j]));
        crate::text::lemma_text_lt_irreflexive(a[i]);
    }
    if j < b.len() {
        assert(text_lt(b[i], b[j]));
        crate::text::lemma_text_lt_irreflexive(b[i]);
    }
}

/// A change touches every path that is dirty, and every line the diff lists
/// that is not blank where the base resolved; and no other.
pub proof fn law_change_is_committed_and_dirty(
    committed: GitOutput,
    dirty: Seq<Seq<char>>,
    path: Seq<char>,
)
    ensures
        touched(committed, dirty).contains(path) <==> dirty.contains(path) || (committed.success
            && trim(path).len() > 0 && lines(utf8_lossy(committed.stdout@)).contains(path)),
{
    let all = lines(utf8_lossy(committed.stdout@));
    let keep = |l: Seq<char>| trim(l).len() > 0;
    let listed = all.filter(keep);
    if all.contains(path) && trim(path).len() > 0 {
        let i = choose|i: int| 0 <= i < all.len() && all[i] == path;
        all.lemma_filter_contains(keep, i);
    }
    if listed.contains(path) {
        all.lemma_filter_contains_rev(keep, path);
        let i = choose|i: int| 0 <= i < listed.len() && listed[i] == path;
        all.lemma_filter_pred(keep, i);
    }
    if committed.success {
        let both = listed + dirty;
        if dirty.contains(path) {
            let i = choose|i: int| 0 <= i < dirty.len() && dirty[i] == path;
            assert(both[listed.len() + i] == path);
        }
        if listed.contains(path) {
            let i = choose|i: int| 0 <= i < listed.len() && listed[i] == path;
            assert(both[i] == path);
        }
        if both.contains(path) {
            let i = choose|i: int| 0 <= i < both.len() && both[i] == path;
            if i < listed.len() {
                assert(listed[i] == path);
            } else {
                assert(dirty[i - listed.len()] == path);
            }
        }
    }
}

/// A pattern with nothing but white space in it isolates no path.
pub proof fn law_blank_pattern_matches_nothing(pattern: Seq<char>, path: Seq<char>)
    requires
        forall|i: int| 0 <= i < pattern.len() ==> crate::text::is_white_space(#[trigger] pattern[i]),
    ensures
        !path_matches(pattern, path),
{
    let (lo, hi) = crate::text::law_trim_takes_the_ends_alone(pattern);
    if trim(pattern).len() > 0 {
        assert(trim(pattern)[0] == pattern[lo]);
    }
}

} // verus!
