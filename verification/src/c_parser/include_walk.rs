//! The decisions of loading a header with its `#include`s, depth first:
//! which file is loaded next, where an include is searched for, what a
//! file already seen or an include that is nowhere to be found does. The
//! caller performs each action (canonicalizing a path, loading a file,
//! asking whether a path exists) and hands the outcome back as an event.
use vstd::prelude::*;
use crate::c_parser::includes::CInclude;
use crate::error::{ErrorKind, UxieError};
use crate::path::{join, path_join};
use crate::text::push_str;

verus! {

/// A file whose includes are being followed: its directory, its includes
/// and how many of them have been taken.
pub struct WalkFrame {
    pub dir: String,
    pub includes: Vec<CInclude>,
    pub next: usize,
}

/// An include being searched for: the places it may be, in order, and
/// which of them is being asked about.
pub struct Probe {
    pub wanted: String,
    pub dir: String,
    pub candidates: Vec<String>,
    pub at: usize,
}

/// Where a walk stands.
pub struct IncludeWalk {
    /// An include found nowhere is an error (otherwise it is skipped).
    pub strict: bool,
    pub include_dirs: Vec<String>,
    /// The canonical paths of the files loaded so far.
    pub visited: Vec<String>,
    pub frames: Vec<WalkFrame>,
    /// The path being opened, until its canonical form comes back.
    pub opening: Option<String>,
    pub probe: Option<Probe>,
}

/// What the caller reports back.
pub enum WalkEvent {
    /// The canonical form of the path being opened.
    Canonical(String),
    /// The file was loaded: its directory and its `#include`s, in order.
    Loaded(String, Vec<CInclude>),
    /// Whether the path asked about exists.
    Exists(bool),
}

/// What the caller is to do next.
pub enum WalkAction {
    /// Canonicalize this path and report [`WalkEvent::Canonical`].
    Canonicalize(String),
    /// Load the file at this path (canonical form second) and report
    /// [`WalkEvent::Loaded`].
    Load(String, String),
    /// Report [`WalkEvent::Exists`] for this path.
    Probe(String),
    /// Stop with this error.
    Fail(UxieError),
    /// The walk is over.
    Done,
}

/// A frame as a value: directory, includes (path and whether it is a
/// system include), how many were taken.
pub type FrameView = (Seq<char>, Seq<(Seq<char>, bool)>, int);

pub open spec fn includes_view(incs: Seq<CInclude>) -> Seq<(Seq<char>, bool)> {
    incs.map_values(|c: CInclude| (c.path@, c.is_system))
}

pub open spec fn frames_view(fs: Seq<WalkFrame>) -> Seq<FrameView> {
    fs.map_values(|f: WalkFrame| (f.dir@, includes_view(f.includes@), f.next as int))
}

pub open spec fn strings_view(s: Seq<String>) -> Seq<Seq<char>> {
    s.map_values(|x: String| x@)
}

/// How many includes the top frame has left.
pub open spec fn top_left(fs: Seq<FrameView>) -> nat {
    if fs.len() == 0 {
        0
    } else if fs.last().2 < fs.last().1.len() {
        (fs.last().1.len() - fs.last().2) as nat
    } else {
        0
    }
}

/// The next include to follow, depth first: the frames after taking it
/// (finished frames dropped, system includes passed over), and the
/// include's path with the directory of the file that names it.
pub open spec fn next_include(fs: Seq<FrameView>) -> (Seq<FrameView>, Option<(Seq<char>, Seq<char>)>)
    decreases fs.len(), top_left(fs),
{
    if fs.len() == 0 {
        (fs, None)
    } else {
        let top = fs.last();
        if top.2 < 0 || top.2 >= top.1.len() {
            next_include(fs.drop_last())
        } else {
            let taken = fs.update(fs.len() - 1, (top.0, top.1, top.2 + 1));
            let inc = top.1[top.2];
            if inc.1 {
                next_include(taken)
            } else {
                (taken, Some((inc.0, top.0)))
            }
        }
    }
}

/// Where an include is searched for: beside the file that names it, then
/// in each include directory, in order.
pub open spec fn candidates(dir: Seq<char>, include_dirs: Seq<Seq<char>>, name: Seq<char>) -> Seq<Seq<char>> {
    seq![path_join(dir, name)] + include_dirs.map_values(|d: Seq<char>| path_join(d, name))
}

/// The message of an include found nowhere.
pub open spec fn unresolved_include_msg(name: Seq<char>, dir: Seq<char>) -> Seq<char> {
    "Unresolved include '"@ + name + "' (searched from "@ + dir + ")"@
}

impl IncludeWalk {
    /// The walk is consistent: a probe asks about one of its candidates.
    pub open spec fn well_formed(&self) -> bool {
        self.probe matches Some(p) ==> p.at < p.candidates@.len()
    }

    /// Start loading `path` and the files it includes; the first action is
    /// to canonicalize `path`.
    pub fn new(path: String, include_dirs: Vec<String>, strict: bool) -> (r: (IncludeWalk, WalkAction))
        ensures
            r.0.well_formed(),
            r.0.strict == strict,
            r.0.include_dirs@ == include_dirs@,
            r.0.visited@.len() == 0,
            r.0.frames@.len() == 0,
            r.0.opening == Some(path),
            r.0.probe is None,
            r.1 matches WalkAction::Canonicalize(p) && p@ == path@,
    {
        let first = path.clone();
        (
            IncludeWalk {
                strict,
                include_dirs,
                visited: Vec::new(),
                frames: Vec::new(),
                opening: Some(path),
                probe: None,
            },
            WalkAction::Canonicalize(first),
        )
    }
}

/// A walk as a value.
pub ghost struct WalkView {
    pub strict: bool,
    pub include_dirs: Seq<Seq<char>>,
    pub visited: Seq<Seq<char>>,
    pub frames: Seq<FrameView>,
    pub opening: Option<Seq<char>>,
    /// The include searched for, the directory of the file naming it, the
    /// candidates and which one is being asked about.
    pub probe: Option<(Seq<char>, Seq<char>, Seq<Seq<char>>, int)>,
}

/// An event as a value.
pub ghost enum EventView {
    Canonical(Seq<char>),
    Loaded(Seq<char>, Seq<(Seq<char>, bool)>),
    Exists(bool),
}

/// An action as a value; a failure by its message.
pub ghost enum ActionView {
    Canonicalize(Seq<char>),
    Load(Seq<char>, Seq<char>),
    Probe(Seq<char>),
    Fail(Seq<char>),
    Done,
}

impl View for IncludeWalk {
    type V = WalkView;

    open spec fn view(&self) -> WalkView {
        WalkView {
            strict: self.strict,
            include_dirs: strings_view(self.include_dirs@),
            visited: strings_view(self.visited@),
            frames: frames_view(self.frames@),
            opening: match self.opening {
                Some(p) => Some(p@),
                None => None,
            },
            probe: match self.probe {
                Some(p) => Some((p.wanted@, p.dir@, strings_view(p.candidates@), p.at as int)),
                None => None,
            },
        }
    }
}

pub open spec fn event_view(e: WalkEvent) -> EventView {
    match e {
        WalkEvent::Canonical(c) => EventView::Canonical(c@),
        WalkEvent::Loaded(d, incs) => EventView::Loaded(d@, includes_view(incs@)),
        WalkEvent::Exists(b) => EventView::Exists(b),
    }
}

pub open spec fn action_view(a: WalkAction) -> ActionView {
    match a {
        WalkAction::Canonicalize(p) => ActionView::Canonicalize(p@),
        WalkAction::Load(p, c) => ActionView::Load(p@, c@),
        WalkAction::Probe(p) => ActionView::Probe(p@),
        WalkAction::Fail(e) => match e {
            UxieError::Io { kind: ErrorKind::NotFound, message } => ActionView::Fail(message@),
            _ => ActionView::Fail(Seq::empty()),
        },
        WalkAction::Done => ActionView::Done,
    }
}

/// Go on to the next include to follow, or finish.
pub open spec fn walk_on(s: WalkView) -> (WalkView, ActionView) {
    let (fs, found) = next_include(s.frames);
    match found {
        None => (WalkView { frames: fs, ..s }, ActionView::Done),
        Some((name, dir)) => {
            let cands = candidates(dir, s.include_dirs, name);
            (WalkView { frames: fs, probe: Some((name, dir, cands, 0)), ..s }, ActionView::Probe(cands[0]))
        },
    }
}

/// One step of a walk: a file already loaded is passed over, a new one is
/// loaded and its includes followed in order after it; an include is
/// looked for beside its file, then in each include directory, and the
/// first place it exists is opened; one found nowhere is an error when the
/// walk is strict and is passed over otherwise. An event the walk is not
/// waiting for changes nothing and ends it.
pub open spec fn walk_step(s: WalkView, e: EventView) -> (WalkView, ActionView) {
    match e {
        EventView::Canonical(c) => match s.opening {
            Some(p) => if s.visited.contains(c) {
                walk_on(WalkView { opening: None, ..s })
            } else {
                (WalkView { visited: s.visited.push(c), opening: None, ..s }, ActionView::Load(p, c))
            },
            None => (s, ActionView::Done),
        },
        EventView::Loaded(dir, incs) => walk_on(WalkView { frames: s.frames.push((dir, incs, 0)), ..s }),
        EventView::Exists(b) => match s.probe {
            Some((name, dir, cands, at)) => if b {
                (WalkView { probe: None, opening: Some(cands[at]), ..s }, ActionView::Canonicalize(cands[at]))
            } else if at + 1 < cands.len() {
                (WalkView { probe: Some((name, dir, cands, at + 1)), ..s }, ActionView::Probe(cands[at + 1]))
            } else if s.strict {
                (WalkView { probe: None, ..s }, ActionView::Fail(unresolved_include_msg(name, dir)))
            } else {
                walk_on(WalkView { probe: None, ..s })
            },
            None => (s, ActionView::Done),
        },
    }
}

fn strings_clone(v: &Vec<String>) -> (r: Vec<String>)
    ensures
        strings_view(r@) == strings_view(v@),
{
    let mut r: Vec<String> = Vec::new();
    let mut i: usize = 0;
    while i < v.len()
        invariant
            i <= v@.len(),
            strings_view(r@) == strings_view(v@.take(i as int)),
        decreases v@.len() - i,
    {
        r.push(v[i].clone());
        assert(strings_view(v@.take(i + 1)) =~= strings_view(v@.take(i as int)).push(v@[i as int]@));
        i = i + 1;
        assert(strings_view(r@) =~= strings_view(v@.take(i as int)));
    }
    assert(v@.take(v@.len() as int) =~= v@);
    r
}

/// Where the include `name` of a file in `dir` is looked for.
fn candidate_paths(dir: &str, include_dirs: &Vec<String>, name: &str) -> (r: Vec<String>)
    ensures
        strings_view(r@) == candidates(dir@, strings_view(include_dirs@), name@),
        r@.len() >= 1,
{
    let mut r: Vec<String> = Vec::new();
    r.push(join(dir, name));
    let mut i: usize = 0;
    while i < include_dirs.len()
        invariant
            i <= include_dirs@.len(),
            r@.len() == i + 1,
            strings_view(r@) == seq![path_join(dir@, name@)] + strings_view(include_dirs@.take(i as int)).map_values(
                |d: Seq<char>| path_join(d, name@),
            ),
        decreases include_dirs@.len() - i,
    {
        let ghost r0 = strings_view(r@);
        let ghost pre = strings_view(include_dirs@.take(i as int));
        r.push(join(include_dirs[i].as_str(), name));
        assert(strings_view(r@) =~= r0.push(path_join(include_dirs@[i as int]@, name@)));
        assert(strings_view(include_dirs@.take(i + 1)) =~= pre.push(include_dirs@[i as int]@));
        assert(strings_view(include_dirs@.take(i + 1)).map_values(|d: Seq<char>| path_join(d, name@)) =~= pre.map_values(
            |d: Seq<char>| path_join(d, name@),
        ).push(path_join(include_dirs@[i as int]@, name@)));
        i = i + 1;
        assert(strings_view(r@) =~= seq![path_join(dir@, name@)] + strings_view(include_dirs@.take(i as int)).map_values(
            |d: Seq<char>| path_join(d, name@),
        ));
    }
    assert(include_dirs@.take(include_dirs@.len() as int) =~= include_dirs@);
    r
}

impl IncludeWalk {
    /// Take the next include to follow, depth first.
    fn take_next(&mut self) -> (found: Option<(String, String)>)
        ensures
            frames_view(final(self).frames@) == next_include(frames_view(old(self).frames@)).0,
            match next_include(frames_view(old(self).frames@)).1 {
                None => found is None,
                Some((n, d)) => found matches Some((fn_, fd)) && fn_@ == n && fd@ == d,
            },
            final(self).strict == old(self).strict,
            final(self).include_dirs == old(self).include_dirs,
            final(self).visited == old(self).visited,
            final(self).opening == old(self).opening,
            final(self).probe == old(self).probe,
    {
        let ghost target = next_include(frames_view(self.frames@));
        loop
            invariant
                next_include(frames_view(self.frames@)) == target,
                target == next_include(frames_view(old(self).frames@)),
                self.strict == old(self).strict,
                self.include_dirs == old(self).include_dirs,
                self.visited == old(self).visited,
                self.opening == old(self).opening,
                self.probe == old(self).probe,
            decreases frames_view(self.frames@).len(), top_left(frames_view(self.frames@)),
        {
            let ghost fv = frames_view(self.frames@);
            if self.frames.len() == 0 {
                return None;
            }
            let top = match self.frames.pop() {
                Some(f) => f,
                None => {
                    return None;
                },
            };
            assert(frames_view(self.frames@) =~= fv.drop_last());
            if top.next >= top.includes.len() {
                continue;
            }
            let k = top.next;
            let inc_path = top.includes[k].path.clone();
            let system = top.includes[k].is_system;
            let dir = top.dir.clone();
            let ghost tv = fv.last();
            let f = WalkFrame { dir: top.dir, includes: top.includes, next: k + 1 };
            self.frames.push(f);
            assert(frames_view(self.frames@) =~= fv.update(fv.len() - 1, (tv.0, tv.1, tv.2 + 1)));
            if !system {
                return Some((inc_path, dir));
            }
        }
    }

    /// Go on to the next include to follow, or finish.
    fn walk_on_exec(&mut self) -> (a: WalkAction)
        requires
            old(self).well_formed(),
        ensures
            final(self).well_formed(),
            (final(self)@, action_view(a)) == walk_on(old(self)@),
    {
        match self.take_next() {
            None => WalkAction::Done,
            Some((name, dir)) => {
                let cands = candidate_paths(dir.as_str(), &self.include_dirs, name.as_str());
                let first = cands[0].clone();
                self.probe = Some(Probe { wanted: name, dir, candidates: cands, at: 0 });
                WalkAction::Probe(first)
            },
        }
    }

    /// Take in what the caller reports and say what to do next.
    pub fn step(&mut self, event: WalkEvent) -> (a: WalkAction)
        requires
            old(self).well_formed(),
        ensures
            final(self).well_formed(),
            (final(self)@, action_view(a)) == walk_step(old(self)@, event_view(event)),
    {
        match event {
            WalkEvent::Canonical(c) => {
                let p = match self.opening.take() {
                    Some(p) => p,
                    None => {
                        return WalkAction::Done;
                    },
                };
                let mut seen = false;
                let mut i: usize = 0;
                while i < self.visited.len()
                    invariant
                        i <= self.visited@.len(),
                        seen == exists|k: int| 0 <= k < i && (#[trigger] self.visited@[k])@ == c@,
                    decreases self.visited@.len() - i,
                {
                    if crate::text::str_eq(self.visited[i].as_str(), c.as_str()) {
                        seen = true;
                    }
                    i = i + 1;
                }
                proof {
                    let sv = strings_view(self.visited@);
                    if seen {
                        let k = choose|k: int| 0 <= k < self.visited@.len() && (#[trigger] self.visited@[k])@ == c@;
                        assert(sv[k] == c@);
                    }
                    if sv.contains(c@) {
                        let k = choose|k: int| 0 <= k < sv.len() && sv[k] == c@;
                        assert(self.visited@[k]@ == c@);
                    }
                }
                if seen {
                    self.walk_on_exec()
                } else {
                    let cc = c.clone();
                    let ghost v0 = self.visited@;
                    self.visited.push(c);
                    assert(strings_view(self.visited@) =~= strings_view(v0).push(cc@));
                    WalkAction::Load(p, cc)
                }
            },
            WalkEvent::Loaded(dir, incs) => {
                let ghost f0 = self.frames@;
                let ghost d = dir@;
                let ghost iv = includes_view(incs@);
                self.frames.push(WalkFrame { dir, includes: incs, next: 0 });
                assert(frames_view(self.frames@) =~= frames_view(f0).push((d, iv, 0)));
                self.walk_on_exec()
            },
            WalkEvent::Exists(b) => {
                let pr = match self.probe.take() {
                    Some(pr) => pr,
                    None => {
                        return WalkAction::Done;
                    },
                };
                let n = pr.candidates.len();
                assert(pr.at < n);
                if b {
                    let next = pr.candidates[pr.at].clone();
                    let back = next.clone();
                    self.opening = Some(next);
                    WalkAction::Canonicalize(back)
                } else if pr.at + 1 < n {
                    let at = pr.at + 1;
                    let ask = pr.candidates[at].clone();
                    self.probe = Some(Probe { wanted: pr.wanted, dir: pr.dir, candidates: pr.candidates, at });
                    WalkAction::Probe(ask)
                } else if self.strict {
                    let mut m = String::from_str("Unresolved include '");
                    push_str(&mut m, pr.wanted.as_str());
                    push_str(&mut m, "' (searched from ");
                    push_str(&mut m, pr.dir.as_str());
                    push_str(&mut m, ")");
                    WalkAction::Fail(UxieError::Io { kind: ErrorKind::NotFound, message: m })
                } else {
                    self.walk_on_exec()
                }
            },
        }
    }
}

/// No path occurs twice.
pub open spec fn distinct(v: Seq<Seq<char>>) -> bool {
    forall|i: int, j: int| 0 <= i < j < v.len() ==> v[i] != v[j]
}

/// A file is loaded only when its canonical path was not loaded before,
/// and it is then recorded; nothing else is recorded. So no file is loaded
/// twice, however its includes loop back to it.
pub proof fn lemma_walk_loads_each_file_once(s: WalkView, e: EventView)
    requires
        distinct(s.visited),
    ensures
        distinct(walk_step(s, e).0.visited),
        walk_step(s, e).1 matches ActionView::Load(_, c) ==> !s.visited.contains(c) && walk_step(s, e).0.visited
            == s.visited.push(c),
        !(walk_step(s, e).1 is Load) ==> walk_step(s, e).0.visited == s.visited,
{
    if let EventView::Canonical(c) = e {
        if s.opening is Some && !s.visited.contains(c) {
            let v = s.visited.push(c);
            assert forall|i: int, j: int| 0 <= i < j < v.len() implies v[i] != v[j] by {
                if j == v.len() - 1 {
                    assert(s.visited[i] == v[i]);
                    if v[i] == c {
                        assert(s.visited.contains(c));
                    }
                }
            }
        }
    }
}

} // verus!
