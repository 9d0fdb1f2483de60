//! Locating a settings file: the path as given; else, by its file name, the
//! grandparent of its directory, that directory's grandparent, and so on up
//! (every second ancestor, nearest first); else the home directory.
//!
//! Paths are modelled as their components. The search itself reads only
//! whether given paths exist; the caller probes the file system for the
//! paths that `probes` lists and hands the answers to `resolve`.

use vstd::prelude::*;

verus! {

/// A path as a sequence of components, rooted (absolute) or not.
pub struct PathModel {
    pub rooted: bool,
    pub parts: Seq<Seq<char>>,
}

/// A path by components: `rooted` for a leading `/`, then each component
/// (`.` and `..` included as they stand).
pub struct PathParts {
    pub rooted: bool,
    pub parts: Vec<String>,
}

impl View for PathParts {
    type V = PathModel;

    open spec fn view(&self) -> PathModel {
        PathModel { rooted: self.rooted, parts: texts(self.parts@) }
    }
}

/// The text of each string.
pub open spec fn texts(v: Seq<String>) -> Seq<Seq<char>> {
    v.map_values(|s: String| s@)
}

/// The model of each path.
pub open spec fn models(v: Seq<PathParts>) -> Seq<PathModel> {
    v.map_values(|q: PathParts| q@)
}

pub open spec fn opt_model(o: Option<PathParts>) -> Option<PathModel> {
    match o {
        Some(p) => Some(p@),
        None => None,
    }
}

/// The first `m` components of `d`: its ancestor with `m` components.
pub open spec fn prefix(d: PathModel, m: int) -> PathModel {
    PathModel { rooted: d.rooted, parts: d.parts.take(m) }
}

/// `d` with one more component, `name`.
pub open spec fn join(d: PathModel, name: Seq<char>) -> PathModel {
    PathModel { rooted: d.rooted, parts: d.parts.push(name) }
}

/// The path without its last component; none for an empty path or the root.
pub open spec fn parent(p: PathModel) -> Option<PathModel> {
    if p.parts.len() == 0 {
        None
    } else {
        Some(prefix(p, p.parts.len() - 1))
    }
}

/// The last component, unless there is none or it is `.` or `..`.
pub open spec fn file_name(p: PathModel) -> Option<Seq<char>> {
    if p.parts.len() > 0 && p.parts.last() != seq!['.'] && p.parts.last() != seq!['.', '.'] {
        Some(p.parts.last())
    } else {
        None
    }
}

/// A relative path of a single component: a file name alone.
pub open spec fn is_bare(p: PathModel) -> bool {
    !p.rooted && p.parts.len() == 1
}

/// The directory whose ancestors the search walks: the current directory
/// for a bare file name, the path's own directory otherwise.
pub open spec fn start_dir(p: PathModel, cwd: Option<PathModel>) -> Option<PathModel> {
    if is_bare(p) {
        cwd
    } else {
        parent(p)
    }
}

/// The walk from `d`'s ancestor with `m` components, two components up at a
/// time: from a directory it moves to that directory's grandparent. It stops
/// with nothing where there is no grandparent or it does not exist, and stops
/// with `g/f` at the first grandparent `g` where that file exists.
pub open spec fn walk(d: PathModel, f: Seq<char>, present: spec_fn(PathModel) -> bool, m: nat) -> Option<
    PathModel,
>
    decreases m,
{
    if m < 2 || m > d.parts.len() {
        None
    } else {
        let g = prefix(d, m - 2);
        if !present(g) {
            None
        } else if present(join(g, f)) {
            Some(join(g, f))
        } else {
            walk(d, f, present, (m - 2) as nat)
        }
    }
}

/// The file the search settles on, in a file system where `present` tells
/// which paths exist: the path itself if it exists; else, by its file name,
/// the nearest existing file in the walk over the start directory's
/// ancestors; else that name in the home directory; else none.
pub open spec fn resolution(
    p: PathModel,
    cwd: Option<PathModel>,
    home: Option<PathModel>,
    present: spec_fn(PathModel) -> bool,
) -> Option<PathModel> {
    if present(p) {
        Some(p)
    } else {
        match file_name(p) {
            None => None,
            Some(f) => {
                let found = match start_dir(p, cwd) {
                    Some(d) => walk(d, f, present, d.parts.len()),
                    None => None,
                };
                if found is Some {
                    found
                } else {
                    match home {
                        Some(h) => if present(join(h, f)) {
                            Some(join(h, f))
                        } else {
                            None
                        },
                        None => None,
                    }
                }
            },
        }
    }
}

/// The paths that the walk from `d` may probe, in order: each grandparent
/// it reaches, then the file `f` in it.
pub open spec fn walk_probes(d: PathModel, f: Seq<char>) -> Seq<PathModel> {
    Seq::new(
        (2 * (d.parts.len() / 2)) as nat,
        |i: int|
            if i % 2 == 0 {
                prefix(d, d.parts.len() - 2 * (i / 2 + 1))
            } else {
                join(prefix(d, d.parts.len() - 2 * (i / 2 + 1)), f)
            },
    )
}

/// Every path whose existence the search may read, in the order it reads them.
pub open spec fn probe_list(p: PathModel, cwd: Option<PathModel>, home: Option<PathModel>) -> Seq<
    PathModel,
> {
    match file_name(p) {
        None => seq![p],
        Some(f) => seq![p] + match start_dir(p, cwd) {
            Some(d) => walk_probes(d, f),
            None => Seq::empty(),
        } + match home {
            Some(h) => seq![join(h, f)],
            None => Seq::empty(),
        },
    }
}

/// The answers say, probe by probe, what `present` says.
pub open spec fn consistent(
    probes: Seq<PathModel>,
    answers: Seq<bool>,
    present: spec_fn(PathModel) -> bool,
) -> bool {
    probes.len() == answers.len() && forall|i: int|
        0 <= i < probes.len() ==> present(#[trigger] probes[i]) == answers[i]
}


impl PathParts {
    /// The first `m` components of this path.
    pub fn prefix(&self, m: usize) -> (r: PathParts)
        requires
            m <= self.parts.len(),
        ensures
            r@ == prefix(self@, m as int),
    {
        let mut parts: Vec<String> = Vec::new();
        let mut i: usize = 0;
        while i < m
            invariant
                m <= self.parts.len(),
                i <= m,
                texts(parts@) =~= self@.parts.take(i as int),
            decreases m - i,
        {
            let ghost before = parts@;
            parts.push(self.parts[i].clone());
            assert(parts@ == before.push(self.parts@[i as int]));
            assert(texts(parts@) =~= texts(before).push(self@.parts[i as int]));
            assert(self@.parts.take(i + 1) =~= self@.parts.take(i as int).push(self@.parts[i as int]));
            i = i + 1;
        }
        assert(texts(parts@) =~= self@.parts.take(m as int));
        PathParts { rooted: self.rooted, parts }
    }

    /// A copy of this path.
    pub fn duplicate(&self) -> (r: PathParts)
        ensures
            r@ == self@,
    {
        let r = self.prefix(self.parts.len());
        assert(r@.parts =~= self@.parts);
        r
    }

    /// This path with `name` appended as its last component.
    pub fn join(&self, name: &String) -> (r: PathParts)
        ensures
            r@ == join(self@, name@),
    {
        let mut r = self.duplicate();
        let ghost before = r.parts@;
        r.parts.push(name.clone());
        assert(r.parts@ == before.push(*name));
        assert(r@.parts =~= self@.parts.push(name@));
        r
    }

    /// The last component, unless there is none or it is `.` or `..`.
    pub fn file_name(&self) -> (r: Option<String>)
        ensures
            opt_text(r) == file_name(self@),
    {
        let n = self.parts.len();
        if n == 0 {
            return None;
        }
        proof {
            reveal_strlit(".");
            reveal_strlit("..");
        }
        let last = self.parts[n - 1].clone();
        let dot = String::from_str(".");
        let dots = String::from_str("..");
        assert(self@.parts.last() == last@);
        assert(dot@ =~= seq!['.']);
        assert(dots@ =~= seq!['.', '.']);
        if last == dot || last == dots {
            None
        } else {
            Some(last)
        }
    }

    /// A relative path of one component.
    pub fn is_bare(&self) -> (r: bool)
        ensures
            r == is_bare(self@),
    {
        !self.rooted && self.parts.len() == 1
    }
}

pub open spec fn opt_text(o: Option<String>) -> Option<Seq<char>> {
    match o {
        Some(s) => Some(s@),
        None => None,
    }
}

fn copy_opt(o: &Option<PathParts>) -> (r: Option<PathParts>)
    ensures
        opt_model(r) == opt_model(*o),
{
    match o {
        Some(p) => Some(p.duplicate()),
        None => None,
    }
}

fn start_dir_of(p: &PathParts, cwd: &Option<PathParts>) -> (r: Option<PathParts>)
    requires
        p.parts.len() > 0,
    ensures
        opt_model(r) == start_dir(p@, opt_model(*cwd)),
{
    if p.is_bare() {
        copy_opt(cwd)
    } else {
        Some(p.prefix(p.parts.len() - 1))
    }
}

/// The paths whose existence `resolve` reads, in order (see `probe_list`).
pub fn probes(path: &PathParts, cwd: &Option<PathParts>, home: &Option<PathParts>) -> (r: Vec<PathParts>)
    ensures
        models(r@) == probe_list(path@, opt_model(*cwd), opt_model(*home)),
{
    let ghost pl = probe_list(path@, opt_model(*cwd), opt_model(*home));
    let mut out: Vec<PathParts> = Vec::new();
    out.push(path.duplicate());
    let f = match path.file_name() {
        None => {
            assert(models(out@) =~= pl);
            return out;
        },
        Some(f) => f,
    };
    match start_dir_of(path, cwd) {
        Some(d) => {
            let n = d.parts.len() / 2;
            let mut k: usize = 0;
            while k < n
                invariant
                    n == d.parts.len() / 2,
                    k <= n,
                    models(out@) =~= seq![path@] + walk_probes(d@, f@).take(2 * k),
                decreases n - k,
            {
                let g = d.prefix(d.parts.len() - 2 * (k + 1));
                let gf = g.join(&f);
                let ghost before = out@;
                let ghost gm = g@;
                let ghost gfm = gf@;
                out.push(g);
                out.push(gf);
                assert(models(out@) =~= models(before).push(gm).push(gfm));
                assert((2 * k) / 2 == k && (2 * k) % 2 == 0);
                assert((2 * k + 1) / 2 == k && (2 * k + 1) % 2 == 1);
                assert(walk_probes(d@, f@).take(2 * k + 2) =~= walk_probes(d@, f@).take(2 * k).push(
                    prefix(d@, d.parts.len() - 2 * (k + 1)),
                ).push(join(prefix(d@, d.parts.len() - 2 * (k + 1)), f@)));
                k = k + 1;
            }
            assert(walk_probes(d@, f@).take(2 * n) =~= walk_probes(d@, f@));
        },
        None => {},
    }
    match home {
        Some(h) => {
            out.push(h.join(&f));
        },
        None => {},
    }
    assert(models(out@) =~= pl);
    out
}


/// The file the search settles on. `answers[i]` tells whether the `i`-th path
/// that `probes` lists exists; where the answers are those of a file system,
/// the result is that file system's `resolution`.
pub fn resolve(
    path: &PathParts,
    cwd: &Option<PathParts>,
    home: &Option<PathParts>,
    answers: &Vec<bool>,
) -> (r: Option<PathParts>)
    requires
        answers.len() == probe_list(path@, opt_model(*cwd), opt_model(*home)).len(),
    ensures
        forall|present: spec_fn(PathModel) -> bool|
            #[trigger] consistent(probe_list(path@, opt_model(*cwd), opt_model(*home)), answers@, present)
                ==> opt_model(r) == resolution(path@, opt_model(*cwd), opt_model(*home), present),
        r matches Some(q) ==> exists|i: int|
            0 <= i < answers.len() && answers@[i] && #[trigger] probe_list(
                path@,
                opt_model(*cwd),
                opt_model(*home),
            )[i] == q@,
{
    let ghost pl = probe_list(path@, opt_model(*cwd), opt_model(*home));
    let ghost c = opt_model(*cwd);
    let ghost hm = opt_model(*home);
    assert(pl[0] == path@);
    if answers[0] {
        let r = path.duplicate();
        assert forall|present: spec_fn(PathModel) -> bool| #[trigger] consistent(pl, answers@, present) implies opt_model(
            Some(r),
        ) == resolution(path@, c, hm, present) by {
            assert(present(pl[0]) == answers@[0]);
        }
        assert(pl[0] == r@);
        return Some(r);
    }
    let f = match path.file_name() {
        None => {
            assert forall|present: spec_fn(PathModel) -> bool| #[trigger] consistent(pl, answers@, present) implies opt_model(
                None,
            ) == resolution(path@, c, hm, present) by {
                assert(present(pl[0]) == answers@[0]);
            }
            return None;
        },
        Some(f) => f,
    };
    let start = start_dir_of(path, cwd);
    let mut next: usize = 1;
    match start {
        Some(d) => {
            let n = d.parts.len();
            let ghost wp = walk_probes(d@, f@);
            assert(pl =~= seq![path@] + wp + match hm {
                Some(h) => seq![join(h, f@)],
                None => Seq::<PathModel>::empty(),
            });
            assert(forall|j: int| 0 <= j < 2 * (n / 2) ==> pl[1 + j] == wp[j]);
            let mut m = n;
            let mut stopped = false;
            while m >= 2 && !stopped
                invariant
                    m <= n,
                    (n - m) % 2 == 0,
                    n == d.parts.len(),
                    answers.len() == pl.len(),
                    1 + 2 * (n / 2) <= pl.len(),
                    wp == walk_probes(d@, f@),
                    file_name(path@) == Some(f@),
                    start_dir(path@, c) == Some(d@),
                    pl[0] == path@,
                    !answers@[0],
                    pl == probe_list(path@, opt_model(*cwd), opt_model(*home)),
                    c == opt_model(*cwd),
                    hm == opt_model(*home),
                    forall|j: int| 0 <= j < 2 * (n / 2) ==> pl[1 + j] == wp[j],
                    forall|present: spec_fn(PathModel) -> bool| #[trigger] consistent(pl, answers@, present)
                        ==> walk(d@, f@, present, n as nat) == if stopped {
                            None
                        } else {
                            walk(d@, f@, present, m as nat)
                        },
                decreases m + if stopped { 0int } else { 1int },
            {
                let i = 1 + (n - m);
                assert(n - m + 1 < 2 * (n / 2));
                assert(pl[i as int] == prefix(d@, m - 2)) by {
                    assert(pl[i as int] == wp[n - m]);
                    assert((n - m) % 2 == 0);
                    assert((n - m) / 2 * 2 == n - m);
                }
                assert(pl[i + 1] == join(prefix(d@, m - 2), f@)) by {
                    assert(pl[i + 1] == wp[n - m + 1]);
                    assert((n - m + 1) % 2 == 1);
                    assert((n - m + 1) / 2 * 2 == n - m);
                }
                if !answers[i] {
                    assert forall|present: spec_fn(PathModel) -> bool| #[trigger] consistent(pl, answers@, present)
                        implies walk(d@, f@, present, n as nat) == None::<PathModel> by {
                        assert(present(pl[i as int]) == answers@[i as int]);
                    }
                    stopped = true;
                } else if answers[i + 1] {
                    let g = d.prefix(m - 2);
                    let r = g.join(&f);
                    assert forall|present: spec_fn(PathModel) -> bool| #[trigger] consistent(pl, answers@, present)
                        implies opt_model(Some(r)) == resolution(path@, c, hm, present) by {
                        assert(present(pl[0]) == answers@[0]);
                        assert(present(pl[i as int]) == answers@[i as int]);
                        assert(present(pl[i + 1]) == answers@[i + 1]);
                        assert(walk(d@, f@, present, n as nat) == walk(d@, f@, present, m as nat));
                        assert(walk(d@, f@, present, m as nat) == Some(join(prefix(d@, m - 2), f@)));
                    }
                    assert(pl[i + 1] == r@);
                    return Some(r);
                } else {
                    assert forall|present: spec_fn(PathModel) -> bool| #[trigger] consistent(pl, answers@, present)
                        implies walk(d@, f@, present, n as nat) == walk(d@, f@, present, (m - 2) as nat) by {
                        assert(present(pl[i as int]) == answers@[i as int]);
                        assert(present(pl[i + 1]) == answers@[i + 1]);
                    }
                    m = m - 2;
                }
            }
            next = 1 + 2 * (n / 2);
        },
        None => {
            assert(pl =~= seq![path@] + match hm {
                Some(h) => seq![join(h, f@)],
                None => Seq::<PathModel>::empty(),
            });
        },
    }
    match home {
        Some(h) => {
            assert(pl[next as int] == join(h@, f@));
            if answers[next] {
                let r = h.join(&f);
                assert forall|present: spec_fn(PathModel) -> bool| #[trigger] consistent(pl, answers@, present)
                    implies opt_model(Some(r)) == resolution(path@, c, hm, present) by {
                    assert(present(pl[0]) == answers@[0]);
                    assert(present(pl[next as int]) == answers@[next as int]);
                }
                assert(pl[next as int] == r@);
                return Some(r);
            }
        },
        None => {},
    }
    assert forall|present: spec_fn(PathModel) -> bool| #[trigger] consistent(pl, answers@, present) implies opt_model(
        None,
    ) == resolution(path@, c, hm, present) by {
        assert(present(pl[0]) == answers@[0]);
        if hm is Some {
            assert(present(pl[next as int]) == answers@[next as int]);
        }
    }
    None
}


/// Every file the walk can settle on is `f` in an ancestor of `d` whose
/// number of components differs from `m` by a positive even number.
proof fn lemma_walk_result(d: PathModel, f: Seq<char>, present: spec_fn(PathModel) -> bool, m: nat)
    ensures
        walk(d, f, present, m) matches Some(q) ==> exists|j: int|
            0 <= j <= m - 2 && (m - j) % 2 == 0 && q == #[trigger] join(prefix(d, j), f),
    decreases m,
{
    if m >= 2 && m <= d.parts.len() {
        lemma_walk_result(d, f, present, (m - 2) as nat);
        let g = prefix(d, m - 2);
        if present(g) && present(join(g, f)) {
            assert(join(prefix(d, m - 2), f) == join(g, f));
        }
    }
}

/// The walk finds nothing when no directory holds a file named `f`.
proof fn lemma_walk_none(d: PathModel, f: Seq<char>, present: spec_fn(PathModel) -> bool, m: nat)
    requires
        forall|g: PathModel| !present(#[trigger] join(g, f)),
    ensures
        walk(d, f, present, m) is None,
    decreases m,
{
    if m >= 2 && m <= d.parts.len() {
        lemma_walk_none(d, f, present, (m - 2) as nat);
        assert(!present(join(prefix(d, m - 2), f)));
    }
}

/// A path that exists as given is what the search returns: a file in the
/// current directory, named by its bare name, is found.
pub proof fn lemma_found_as_given(
    p: PathModel,
    cwd: Option<PathModel>,
    home: Option<PathModel>,
    present: spec_fn(PathModel) -> bool,
)
    requires
        present(p),
    ensures
        resolution(p, cwd, home, present) == Some(p),
{
}

/// From a bare file name that is not in the current directory `c`, the file
/// of that name in the grandparent of `c` is found, when that grandparent
/// exists and holds it.
pub proof fn lemma_grandparent_found(
    p: PathModel,
    c: PathModel,
    home: Option<PathModel>,
    present: spec_fn(PathModel) -> bool,
)
    requires
        is_bare(p),
        file_name(p) is Some,
        c.parts.len() >= 2,
        !present(p),
        present(prefix(c, c.parts.len() - 2)),
        present(join(prefix(c, c.parts.len() - 2), p.parts[0])),
    ensures
        resolution(p, Some(c), home, present) == Some(join(prefix(c, c.parts.len() - 2), p.parts[0])),
{
}

/// From a bare file name that is not in the current directory `c`, the file
/// of that name in the direct parent of `c` is never the result: the walk
/// moves two directories at a time and so steps over it. Only the home
/// directory could yield it, when it is that very parent.
pub proof fn lemma_parent_skipped(
    p: PathModel,
    c: PathModel,
    home: Option<PathModel>,
    present: spec_fn(PathModel) -> bool,
)
    requires
        is_bare(p),
        file_name(p) is Some,
        c.parts.len() >= 1,
        !present(p),
        home != Some(prefix(c, c.parts.len() - 1)),
    ensures
        resolution(p, Some(c), home, present) != Some(join(prefix(c, c.parts.len() - 1), p.parts[0])),
{
    let f = p.parts[0];
    let n = c.parts.len();
    let target = join(prefix(c, n - 1), f);
    lemma_walk_result(c, f, present, n);
    if let Some(q) = walk(c, f, present, n) {
        let j = choose|j: int| 0 <= j <= n - 2 && (n - j) % 2 == 0 && q == #[trigger] join(prefix(c, j), f);
        assert(q.parts.len() == j + 1);
        assert(target.parts.len() == n);
    }
    if let Some(h) = home {
        if join(h, f) == target {
            assert(h.parts =~= join(h, f).parts.drop_last());
            assert(prefix(c, n - 1).parts =~= target.parts.drop_last());
            assert(h == prefix(c, n - 1));
        }
    }
}

/// Where a file of the searched name exists nowhere, neither as given nor
/// in any directory, the search finds nothing (and the settings fall back to
/// their defaults).
pub proof fn lemma_nothing_found(
    p: PathModel,
    cwd: Option<PathModel>,
    home: Option<PathModel>,
    present: spec_fn(PathModel) -> bool,
)
    requires
        !present(p),
        file_name(p) matches Some(f) ==> forall|g: PathModel| !present(#[trigger] join(g, f)),
    ensures
        resolution(p, cwd, home, present) is None,
{
    if let Some(f) = file_name(p) {
        if let Some(d) = start_dir(p, cwd) {
            lemma_walk_none(d, f, present, d.parts.len());
        }
        if let Some(h) = home {
            assert(!present(join(h, f)));
        }
    }
}

} // verus!
