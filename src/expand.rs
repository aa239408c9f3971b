//! Path expansion as a state machine: the expander says which path to look
//! at next, the caller reports what the filesystem holds there, and the
//! expander decides what follows.
use vstd::prelude::*;

verus! {

/// A regular file found by the expansion, with the depth at which it was met.
pub struct ExpandedPath {
    pub path: String,
    pub depth: usize,
}

/// Why a path was passed over without being an error.
#[derive(Clone, Copy, PartialEq, Eq, Structural, Debug)]
pub enum SkipReason {
    /// A directory met at the maximum depth, whose entries are not listed.
    DepthLimit,
    /// An entry that is neither a readable directory nor a regular file.
    Unreadable,
}

/// A path that was passed over, with the reason.
pub struct Skipped {
    pub path: String,
    pub reason: SkipReason,
}

/// A fatal failure of the expansion.
pub enum ExpandError {
    /// A path that was to be expanded does not exist.
    NotFound { path: String },
    /// One more file would have gone over the capacity `limit`; `root` is
    /// the root whose walk found it.
    CapacityExceeded { limit: usize, root: String },
}

/// What the filesystem holds at the path that is to be expanded next.
pub enum Probe {
    /// A regular file.
    File,
    /// A directory, with the paths of its entries in enumeration order.
    Dir(Vec<String>),
    /// Something that is neither a regular file nor a readable directory.
    Unreadable,
    /// Nothing.
    Missing,
}

/// A path waiting to be expanded.
struct Pending {
    path: String,
    depth: usize,
    root: String,
}

/// The state of an expansion of one or more root paths.
pub struct PathExpander {
    max_depth: usize,
    max_capacity: usize,
    pending: Vec<Pending>,
    found: Vec<ExpandedPath>,
    skipped: Vec<Skipped>,
}

/// A path waiting to be expanded, in the model.
pub struct Work {
    pub path: Seq<char>,
    pub depth: nat,
    pub root: Seq<char>,
}

/// The model of an expander: its limits, the paths still to be looked at
/// (the next one first), the files found and the paths skipped, in order.
pub struct ExpanderModel {
    pub max_depth: nat,
    pub max_capacity: nat,
    pub pending: Seq<Work>,
    pub found: Seq<(Seq<char>, nat)>,
    pub skipped: Seq<(Seq<char>, SkipReason)>,
}

/// A probe in the model.
pub enum ProbeModel {
    File,
    Dir(Seq<Seq<char>>),
    Unreadable,
    Missing,
}

/// A fatal failure in the model.
pub enum Failure {
    NotFound(Seq<char>),
    CapacityExceeded(nat, Seq<char>),
}

impl View for Pending {
    type V = Work;

    closed spec fn view(&self) -> Work {
        Work { path: self.path@, depth: self.depth as nat, root: self.root@ }
    }
}

spec fn pending_view(v: Seq<Pending>) -> Seq<Work> {
    v.map_values(|w: Pending| w@)
}

impl View for ExpandedPath {
    type V = (Seq<char>, nat);

    open spec fn view(&self) -> (Seq<char>, nat) {
        (self.path@, self.depth as nat)
    }
}

impl View for Skipped {
    type V = (Seq<char>, SkipReason);

    open spec fn view(&self) -> (Seq<char>, SkipReason) {
        (self.path@, self.reason)
    }
}

pub open spec fn strings_view(v: Seq<String>) -> Seq<Seq<char>> {
    v.map_values(|s: String| s@)
}

impl View for Probe {
    type V = ProbeModel;

    open spec fn view(&self) -> ProbeModel {
        match self {
            Probe::File => ProbeModel::File,
            Probe::Dir(entries) => ProbeModel::Dir(strings_view(entries@)),
            Probe::Unreadable => ProbeModel::Unreadable,
            Probe::Missing => ProbeModel::Missing,
        }
    }
}

impl View for ExpandError {
    type V = Failure;

    open spec fn view(&self) -> Failure {
        match self {
            ExpandError::NotFound { path } => Failure::NotFound(path@),
            ExpandError::CapacityExceeded { limit, root } => Failure::CapacityExceeded(
                *limit as nat,
                root@,
            ),
        }
    }
}

impl View for PathExpander {
    type V = ExpanderModel;

    closed spec fn view(&self) -> ExpanderModel {
        ExpanderModel {
            max_depth: self.max_depth as nat,
            max_capacity: self.max_capacity as nat,
            pending: pending_view(self.pending@),
            found: self.found@.map_values(|f: ExpandedPath| f@),
            skipped: self.skipped@.map_values(|s: Skipped| s@),
        }
    }
}

/// The outcome of a step as the model sees it: `None` for success.
pub open spec fn outcome(r: Result<(), ExpandError>) -> Option<Failure> {
    match r {
        Ok(()) => None,
        Err(e) => Some(e@),
    }
}

/// A well-formed model never holds more files than its capacity.
pub open spec fn model_wf(m: ExpanderModel) -> bool {
    m.found.len() <= m.max_capacity
}

/// The model of a fresh expander whose roots are `roots`, in order, at depth 0.
pub open spec fn initial_model(roots: Seq<Seq<char>>, max_depth: nat, max_capacity: nat) -> ExpanderModel {
    ExpanderModel {
        max_depth,
        max_capacity,
        pending: roots.map_values(|r: Seq<char>| Work { path: r, depth: 0, root: r }),
        found: Seq::empty(),
        skipped: Seq::empty(),
    }
}

/// The entries of directory `w`, to be looked at one level deeper.
pub open spec fn children(entries: Seq<Seq<char>>, w: Work) -> Seq<Work> {
    entries.map_values(|e: Seq<char>| Work { path: e, depth: w.depth + 1, root: w.root })
}

/// After a fatal failure nothing is left to look at and nothing is returned.
pub open spec fn failed(m: ExpanderModel) -> ExpanderModel {
    ExpanderModel { pending: Seq::empty(), found: Seq::empty(), ..m }
}

/// One step: what becomes of the next pending path given what the
/// filesystem holds there, and whether the expansion fails on it.
pub open spec fn step_model(m: ExpanderModel, p: ProbeModel) -> (ExpanderModel, Option<Failure>) {
    let w = m.pending[0];
    let rest = m.pending.drop_first();
    match p {
        ProbeModel::File => if m.found.len() < m.max_capacity {
            (ExpanderModel { pending: rest, found: m.found.push((w.path, w.depth)), ..m }, None)
        } else {
            (failed(m), Some(Failure::CapacityExceeded(m.max_capacity, w.root)))
        },
        ProbeModel::Dir(entries) => if w.depth < m.max_depth {
            (ExpanderModel { pending: children(entries, w) + rest, ..m }, None)
        } else {
            (
                ExpanderModel {
                    pending: rest,
                    skipped: m.skipped.push((w.path, SkipReason::DepthLimit)),
                    ..m
                },
                None,
            )
        },
        ProbeModel::Unreadable => (
            ExpanderModel {
                pending: rest,
                skipped: m.skipped.push((w.path, SkipReason::Unreadable)),
                ..m
            },
            None,
        ),
        ProbeModel::Missing => (failed(m), Some(Failure::NotFound(w.path))),
    }
}

impl PathExpander {
    pub open spec fn wf(&self) -> bool {
        model_wf(self@)
    }

    /// An expander with no roots yet. `initial_capacity` only sizes the
    /// buffer of files found; `max_capacity` bounds how many may be found.
    pub fn new(max_depth: usize, initial_capacity: usize, max_capacity: usize) -> (r: Self)
        requires
            0 < initial_capacity <= max_capacity,
        ensures
            r.wf(),
            r@ == initial_model(Seq::empty(), max_depth as nat, max_capacity as nat),
    {
        let r = PathExpander {
            max_depth,
            max_capacity,
            pending: Vec::new(),
            found: Vec::with_capacity(initial_capacity),
            skipped: Vec::new(),
        };
        assert(r@.pending =~= Seq::empty());
        assert(initial_model(Seq::empty(), max_depth as nat, max_capacity as nat).pending =~= Seq::empty());
        assert(r@.found =~= Seq::empty());
        assert(r@.skipped =~= Seq::empty());
        r
    }

    /// Queues `root` for expansion at depth 0, after every path already queued.
    pub fn expand(&mut self, root: String)
        requires
            old(self).wf(),
        ensures
            final(self).wf(),
            final(self)@ == (ExpanderModel {
                pending: old(self)@.pending.push(Work { path: root@, depth: 0, root: root@ }),
                ..old(self)@
            }),
    {
        let path = root.clone();
        self.pending.push(Pending { path, depth: 0, root });
        assert(self@.pending =~= old(self)@.pending.push(Work { path: root@, depth: 0, root: root@ }));
    }

    /// The path to look at next, and whether a directory there would be
    /// descended into (so that its entries are wanted); `None` once the
    /// expansion is over.
    pub fn next_probe(&self) -> (r: Option<(String, bool)>)
        ensures
            self@.pending.len() == 0 ==> r is None,
            self@.pending.len() > 0 ==> (r matches Some((p, d)) && p@ == self@.pending[0].path
                && d == (self@.pending[0].depth < self@.max_depth)),
    {
        if self.pending.len() == 0 {
            None
        } else {
            let w = &self.pending[0];
            Some((w.path.clone(), w.depth < self.max_depth))
        }
    }

    fn fail(&mut self)
        ensures
            final(self)@ == failed(old(self)@),
    {
        self.pending = Vec::new();
        self.found = Vec::new();
        assert(self@.pending =~= Seq::empty());
        assert(self@.found =~= Seq::empty());
    }

    /// Takes in what the filesystem holds at the next pending path. A regular
    /// file is added to the files found, or fails the whole expansion once
    /// the capacity is reached; a directory has its entries queued first, one
    /// level deeper, unless it stands at the maximum depth; anything else is
    /// skipped; a missing path fails the whole expansion. After a failure
    /// nothing is pending and no file is kept.
    pub fn step(&mut self, probe: Probe) -> (r: Result<(), ExpandError>)
        requires
            old(self).wf(),
            old(self)@.pending.len() > 0,
        ensures
            final(self).wf(),
            (final(self)@, outcome(r)) == step_model(old(self)@, probe@),
    {
        let ghost m = self@;
        let w = self.pending.remove(0);
        assert(self@.pending =~= m.pending.drop_first());
        match probe {
            Probe::File => {
                if self.found.len() < self.max_capacity {
                    self.found.push(ExpandedPath { path: w.path, depth: w.depth });
                    assert(self@.found =~= m.found.push((w@.path, w@.depth)));
                    Ok(())
                } else {
                    self.fail();
                    Err(ExpandError::CapacityExceeded { limit: self.max_capacity, root: w.root })
                }
            },
            Probe::Dir(entries) => {
                if w.depth < self.max_depth {
                    let mut next: Vec<Pending> = Vec::new();
                    let mut i: usize = 0;
                    while i < entries.len()
                        invariant
                            i <= entries.len(),
                            w.depth < self.max_depth,
                            pending_view(next@) =~= children(
                                strings_view(entries@),
                                w@,
                            ).take(i as int),
                        decreases entries.len() - i,
                    {
                        let item = Pending {
                            path: entries[i].clone(),
                            depth: w.depth + 1,
                            root: w.root.clone(),
                        };
                        assert(item@ == children(strings_view(entries@), w@)[i as int]);
                        let ghost prev = next@;
                        next.push(item);
                        assert(next@ == prev.push(item));
                        assert(pending_view(next@) =~= pending_view(prev).push(item@));
                        assert(children(strings_view(entries@), w@).take(i + 1) =~= children(
                            strings_view(entries@),
                            w@,
                        ).take(i as int).push(item@));
                        i = i + 1;
                        assert(pending_view(next@) =~= children(
                            strings_view(entries@),
                            w@,
                        ).take(i as int));
                    }
                    assert(children(strings_view(entries@), w@).take(entries.len() as int) =~= children(strings_view(entries@), w@));
                    let ghost before = next@;
                    let ghost rest = self.pending@;
                    next.append(&mut self.pending);
                    assert(next@ == before + rest);
                    assert(pending_view(next@) =~= pending_view(before) + pending_view(rest));
                    self.pending = next;
                    assert(self@.pending =~= children(strings_view(entries@), w@) + m.pending.drop_first());
                    Ok(())
                } else {
                    self.skipped.push(Skipped { path: w.path, reason: SkipReason::DepthLimit });
                    assert(self@.skipped =~= m.skipped.push((w@.path, SkipReason::DepthLimit)));
                    Ok(())
                }
            },
            Probe::Unreadable => {
                self.skipped.push(Skipped { path: w.path, reason: SkipReason::Unreadable });
                assert(self@.skipped =~= m.skipped.push((w@.path, SkipReason::Unreadable)));
                Ok(())
            },
            Probe::Missing => {
                self.fail();
                Err(ExpandError::NotFound { path: w.path })
            },
        }
    }
}

impl PathExpander {
    /// The files found so far, in the order in which they were found.
    pub fn found(&self) -> (r: &Vec<ExpandedPath>)
        ensures
            r@.map_values(|f: ExpandedPath| f@) == self@.found,
    {
        &self.found
    }

    /// The paths skipped so far, in the order in which they were met.
    pub fn skipped(&self) -> (r: &Vec<Skipped>)
        ensures
            r@.map_values(|k: Skipped| k@) == self@.skipped,
    {
        &self.skipped
    }

    /// Whether no path is left to look at.
    pub fn is_done(&self) -> (r: bool)
        ensures
            r == (self@.pending.len() == 0),
    {
        self.pending.len() == 0
    }
}

/// An expander whose roots are `paths`, in order, each at depth 0.
pub fn expand_paths(
    paths: &Vec<String>,
    max_depth: usize,
    initial_capacity: usize,
    max_capacity: usize,
) -> (r: PathExpander)
    requires
        0 < initial_capacity <= max_capacity,
    ensures
        r.wf(),
        r@ == initial_model(strings_view(paths@), max_depth as nat, max_capacity as nat),
{
    let mut r = PathExpander::new(max_depth, initial_capacity, max_capacity);
    let mut i: usize = 0;
    assert(strings_view(paths@.take(0)) =~= Seq::<Seq<char>>::empty());
    while i < paths.len()
        invariant
            i <= paths.len(),
            r.wf(),
            r@ == initial_model(strings_view(paths@.take(i as int)), max_depth as nat, max_capacity as nat),
        decreases paths.len() - i,
    {
        let ghost prev = r@;
        r.expand(paths[i].clone());
        assert(paths@.take(i + 1) =~= paths@.take(i as int).push(paths@[i as int]));
        assert(r@.pending =~= initial_model(strings_view(paths@.take(i + 1)), max_depth as nat, max_capacity as nat).pending);
        i = i + 1;
    }
    assert(paths@.take(paths.len() as int) =~= paths@);
    r
}

/// The files found never outnumber the capacity. A file met when the
/// capacity is already reached fails the expansion with `CapacityExceeded`,
/// and any failure leaves no file behind.
pub proof fn lemma_capacity_bound(m: ExpanderModel, p: ProbeModel)
    requires
        model_wf(m),
        m.pending.len() > 0,
    ensures
        model_wf(step_model(m, p).0),
        step_model(m, p).0.found.len() <= m.max_capacity,
        (p is File && m.found.len() == m.max_capacity) ==> step_model(m, p).1 == Some(
            Failure::CapacityExceeded(m.max_capacity, m.pending[0].root),
        ),
        step_model(m, p).1 is Some ==> step_model(m, p).0.found.len() == 0,
{
}

/// A directory met at the maximum depth yields no entries: nothing of it is
/// queued, nothing is found, and the expansion goes on without failing.
pub proof fn lemma_depth_limit_skips(m: ExpanderModel, entries: Seq<Seq<char>>)
    requires
        m.pending.len() > 0,
        m.pending[0].depth == m.max_depth,
    ensures
        step_model(m, ProbeModel::Dir(entries)).1 is None,
        step_model(m, ProbeModel::Dir(entries)).0.found == m.found,
        step_model(m, ProbeModel::Dir(entries)).0.pending == m.pending.drop_first(),
{
}

/// Two roots that are both regular files come out in the order given.
pub proof fn lemma_roots_keep_order(a: Seq<char>, b: Seq<char>, max_depth: nat, max_capacity: nat)
    requires
        max_capacity >= 2,
    ensures
        ({
            let m0 = initial_model(seq![a, b], max_depth, max_capacity);
            let s1 = step_model(m0, ProbeModel::File);
            let s2 = step_model(s1.0, ProbeModel::File);
            s1.1 is None && s2.1 is None && s2.0.pending.len() == 0 && s2.0.found == seq![
                (a, 0nat),
                (b, 0nat),
            ]
        }),
{
    let m0 = initial_model(seq![a, b], max_depth, max_capacity);
    let s1 = step_model(m0, ProbeModel::File);
    let s2 = step_model(s1.0, ProbeModel::File);
    assert(s2.0.found =~= seq![(a, 0nat), (b, 0nat)]);
}

/// A root that is a regular file yields exactly that file, whatever the
/// maximum depth.
pub proof fn lemma_single_file_root(a: Seq<char>, max_depth: nat, max_capacity: nat)
    requires
        max_capacity >= 1,
    ensures
        ({
            let s1 = step_model(initial_model(seq![a], max_depth, max_capacity), ProbeModel::File);
            s1.1 is None && s1.0.pending.len() == 0 && s1.0.found == seq![(a, 0nat)]
        }),
{
    let s1 = step_model(initial_model(seq![a], max_depth, max_capacity), ProbeModel::File);
    assert(s1.0.found =~= seq![(a, 0nat)]);
}

} // verus!
