//! The VR processes the app watches: their names, a cache of the process ids
//! last seen for them, and how SteamVR is asked to quit.
use vstd::prelude::*;

verus! {

/// A process whose presence the app tracks.
#[derive(Clone, Copy, Debug, PartialEq, Eq, Structural)]
pub enum TrackedProcess {
    Steamvr,
    Vrchat,
    MonadoService,
    Wivrn,
}

/// The executable name under which a tracked process runs.
pub open spec fn process_name(p: TrackedProcess) -> Seq<char> {
    match p {
        TrackedProcess::Steamvr => "vrmonitor"@,
        TrackedProcess::Vrchat => "VRChat.exe"@,
        TrackedProcess::MonadoService => "monado-service"@,
        TrackedProcess::Wivrn => "wivrn-server"@,
    }
}

impl TrackedProcess {
    /// The executable name under which this process runs.
    pub fn name(&self) -> (r: &'static str)
        ensures
            r@ == process_name(*self),
    {
        match self {
            TrackedProcess::Steamvr => "vrmonitor",
            TrackedProcess::Vrchat => "VRChat.exe",
            TrackedProcess::MonadoService => "monado-service",
            TrackedProcess::Wivrn => "wivrn-server",
        }
    }
}

/// For each tracked process, the id of the process that was last found running
/// under its name.
pub struct ProcessCache {
    entries: Vec<(TrackedProcess, u32)>,
}

impl View for ProcessCache {
    type V = Map<TrackedProcess, u32>;

    /// The recorded process id of each process that has one.
    closed spec fn view(&self) -> Map<TrackedProcess, u32> {
        Map::new(
            |p: TrackedProcess| exists|i: int| 0 <= i < self.entries@.len() && self.entries@[i].0 == p,
            |p: TrackedProcess|
                self.entries@[choose|i: int| 0 <= i < self.entries@.len() && self.entries@[i].0 == p].1,
        )
    }
}

impl ProcessCache {
    /// No two entries are for the same process.
    pub closed spec fn well_formed(&self) -> bool {
        forall|i: int, j: int|
            0 <= i < j < self.entries@.len() ==> #[trigger] self.entries@[i].0
                != #[trigger] self.entries@[j].0
    }

    /// An empty cache.
    pub fn new() -> (c: Self)
        ensures
            c.well_formed(),
            c.view() == Map::<TrackedProcess, u32>::empty(),
    {
        let c = ProcessCache { entries: Vec::new() };
        assert(c.view() == Map::<TrackedProcess, u32>::empty());
        c
    }

    /// The position of `p`'s entry, if it has one.
    fn position(&self, p: TrackedProcess) -> (r: Option<usize>)
        requires
            self.well_formed(),
        ensures
            match r {
                Some(i) => i < self.entries@.len() && self.entries@[i as int].0 == p,
                None => forall|i: int| 0 <= i < self.entries@.len() ==> self.entries@[i].0 != p,
            },
    {
        let mut i: usize = 0;
        while i < self.entries.len()
            invariant
                i <= self.entries@.len(),
                forall|j: int| 0 <= j < i ==> self.entries@[j].0 != p,
            decreases self.entries.len() - i,
        {
            if self.entries[i].0 == p {
                return Some(i);
            }
            i = i + 1;
        }
        None
    }

    /// The process id recorded for `p`.
    pub fn cached_pid(&self, p: TrackedProcess) -> (r: Option<u32>)
        requires
            self.well_formed(),
        ensures
            r == (if self.view().dom().contains(p) {
                Some(self.view()[p])
            } else {
                None
            }),
    {
        match self.position(p) {
            Some(i) => {
                proof {
                    self.lemma_view_at(i as int);
                }
                Some(self.entries[i].1)
            },
            None => None,
        }
    }

    /// The entry at `i` gives its process's recorded id.
    proof fn lemma_view_at(&self, i: int)
        requires
            self.well_formed(),
            0 <= i < self.entries@.len(),
        ensures
            self.view().dom().contains(self.entries@[i].0),
            self.view()[self.entries@[i].0] == self.entries@[i].1,
    {
        let p = self.entries@[i].0;
        assert(exists|k: int| 0 <= k < self.entries@.len() && self.entries@[k].0 == p);
        let k: int = choose|k: int| 0 <= k < self.entries@.len() && self.entries@[k].0 == p;
        if k != i {
            if k < i {
                assert(self.entries@[k].0 != self.entries@[i].0);
            } else {
                assert(self.entries@[i].0 != self.entries@[k].0);
            }
        }
    }

    /// Drops the entry at `i` by moving the last entry into its place.
    fn swap_remove_at(&mut self, i: usize)
        requires
            old(self).well_formed(),
            i < old(self).entries@.len(),
        ensures
            final(self).well_formed(),
            final(self).view() == old(self).view().remove(old(self).entries@[i as int].0),
    {
        let ghost old_entries = self.entries@;
        let ghost gone = self.entries@[i as int].0;
        proof {
            self.lemma_view_at(i as int);
        }
        self.entries.swap_remove(i);
        let ghost new_entries = self.entries@;
        assert forall|a: int, b: int|
            0 <= a < b < new_entries.len() implies #[trigger] new_entries[a].0
            != #[trigger] new_entries[b].0 by {
            let oa: int = if a == i { old_entries.len() - 1 } else { a };
            let ob: int = if b == i { old_entries.len() - 1 } else { b };
            assert(new_entries[a] == old_entries[oa]);
            assert(new_entries[b] == old_entries[ob]);
            if oa < ob {
                assert(old_entries[oa].0 != old_entries[ob].0);
            } else {
                assert(old_entries[ob].0 != old_entries[oa].0);
            }
        }
        let ghost old_view = Map::new(
            |p: TrackedProcess| exists|k: int| 0 <= k < old_entries.len() && old_entries[k].0 == p,
            |p: TrackedProcess|
                old_entries[choose|k: int| 0 <= k < old_entries.len() && old_entries[k].0 == p].1,
        );
        assert forall|p: TrackedProcess| #[trigger] self.view().dom().contains(p) <==> old_view.remove(
            gone,
        ).dom().contains(p) by {
            if self.view().dom().contains(p) {
                let k: int = choose|k: int| 0 <= k < new_entries.len() && new_entries[k].0 == p;
                let ok: int = if k == i { old_entries.len() - 1 } else { k };
                assert(new_entries[k] == old_entries[ok]);
                assert(ok != i);
                if ok < i {
                    assert(old_entries[ok].0 != old_entries[i as int].0);
                } else {
                    assert(old_entries[i as int].0 != old_entries[ok].0);
                }
            }
            if old_view.remove(gone).dom().contains(p) {
                let k: int = choose|k: int| 0 <= k < old_entries.len() && old_entries[k].0 == p;
                assert(k != i);
                let nk: int = if k == old_entries.len() - 1 { i as int } else { k };
                assert(new_entries[nk] == old_entries[k]);
            }
        }
        assert forall|p: TrackedProcess| #[trigger] self.view().dom().contains(p) implies self.view()[p]
            == old_view.remove(gone)[p] by {
            let k: int = choose|k: int| 0 <= k < new_entries.len() && new_entries[k].0 == p;
            self.lemma_view_at(k);
            let ok: int = if k == i { old_entries.len() - 1 } else { k };
            assert(new_entries[k] == old_entries[ok]);
            assert(old_view[p] == old_entries[ok].1) by {
                let c: int = choose|c: int| 0 <= c < old_entries.len() && old_entries[c].0 == p;
                if c != ok {
                    if c < ok {
                        assert(old_entries[c].0 != old_entries[ok].0);
                    } else {
                        assert(old_entries[ok].0 != old_entries[c].0);
                    }
                }
            }
        }
        assert(self.view() == old_view.remove(gone));
    }

    /// Records `pid` for `p`, in place of any id recorded before.
    fn record(&mut self, p: TrackedProcess, pid: u32)
        requires
            old(self).well_formed(),
        ensures
            final(self).well_formed(),
            final(self).view() == old(self).view().insert(p, pid),
    {
        match self.position(p) {
            Some(i) => {
                self.swap_remove_at(i);
            },
            None => {},
        }
        let ghost mid = self.entries@;
        proof {
            assert(forall|k: int| 0 <= k < mid.len() ==> mid[k].0 != p) by {
                assert forall|k: int| 0 <= k < mid.len() implies mid[k].0 != p by {
                    if mid[k].0 == p {
                        self.lemma_view_at(k);
                    }
                }
            }
        }
        let ghost mid_view = self.view();
        self.entries.push((p, pid));
        let ghost new_entries = self.entries@;
        assert(self.well_formed()) by {
            assert forall|a: int, b: int|
                0 <= a < b < new_entries.len() implies #[trigger] new_entries[a].0
                != #[trigger] new_entries[b].0 by {
                if b == mid.len() {
                    assert(new_entries[a] == mid[a]);
                } else {
                    assert(new_entries[a] == mid[a]);
                    assert(new_entries[b] == mid[b]);
                }
            }
        }
        assert(self.view().dom() == mid_view.insert(p, pid).dom()) by {
            assert forall|q: TrackedProcess| #[trigger] self.view().dom().contains(q) implies mid_view.insert(
                p,
                pid,
            ).dom().contains(q) by {
                let k: int = choose|k: int| 0 <= k < new_entries.len() && new_entries[k].0 == q;
                if k < mid.len() {
                    assert(new_entries[k] == mid[k]);
                }
            }
            assert forall|q: TrackedProcess| #[trigger] mid_view.insert(p, pid).dom().contains(q) implies self.view().dom().contains(q) by {
                if q == p {
                    assert(new_entries[mid.len() as int].0 == p);
                } else {
                    let k: int = choose|k: int| 0 <= k < mid.len() && mid[k].0 == q;
                    assert(new_entries[k] == mid[k]);
                }
            }
        }
        assert forall|q: TrackedProcess| #[trigger] self.view().dom().contains(q) implies self.view()[q]
            == mid_view.insert(p, pid)[q] by {
            let k: int = choose|k: int| 0 <= k < new_entries.len() && new_entries[k].0 == q;
            self.lemma_view_at(k);
            if q == p {
                self.lemma_view_at(mid.len() as int);
            } else {
                assert(k < mid.len());
                assert(new_entries[k] == mid[k]);
                let c: int = choose|c: int| 0 <= c < mid.len() && mid[c].0 == q;
                assert(mid_view[q] == mid[c].1);
                if c != k {
                    assert(new_entries[c] == mid[c]);
                    if c < k {
                        assert(new_entries[c].0 != new_entries[k].0);
                    } else {
                        assert(new_entries[k].0 != new_entries[c].0);
                    }
                }
            }
        }
        assert(self.view() == mid_view.insert(p, pid));
    }
}

/// Whether `process` is running. Where an id is cached for it, `still_running`
/// is asked about that id: a yes keeps the entry, a no drops it. Otherwise
/// `scan` lists the ids running under its name: the first is cached, and the
/// answer is whether there was one.
pub fn is_process_active<C, S>(
    cache: &mut ProcessCache,
    process: TrackedProcess,
    still_running: C,
    scan: S,
) -> (r: bool) where C: FnOnce(u32) -> bool, S: FnOnce() -> Vec<u32>
    requires
        old(cache).well_formed(),
        forall|pid: u32| still_running.requires((pid,)),
        scan.requires(()),
    ensures
        final(cache).well_formed(),
        old(cache).view().dom().contains(process) ==> {
            let pid: u32 = old(cache).view()[process];
            &&& still_running.ensures((pid,), r)
            &&& final(cache).view() == if r {
                old(cache).view()
            } else {
                old(cache).view().remove(process)
            }
        },
        !old(cache).view().dom().contains(process) ==> exists|found: Vec<u32>|
            {
                &&& #[trigger] scan.ensures((), found)
                &&& r == (found.len() > 0)
                &&& final(cache).view() == if found.len() > 0 {
                    old(cache).view().insert(process, found@[0])
                } else {
                    old(cache).view()
                }
            },
{
    match cache.position(process) {
        Some(i) => {
            proof {
                cache.lemma_view_at(i as int);
            }
            let pid: u32 = cache.entries[i].1;
            if still_running(pid) {
                true
            } else {
                cache.swap_remove_at(i);
                false
            }
        },
        None => {
            proof {
                assert(!cache.view().dom().contains(process));
            }
            let found = scan();
            if found.len() == 0 {
                false
            } else {
                cache.record(process, found[0]);
                true
            }
        },
    }
}

/// A process found running by a scan is asked about by its cached id the next
/// time; one found gone is looked for by a fresh scan the next time; a check
/// or scan for one process leaves the ids cached for the others alone.
pub proof fn lemma_cache_round_trip(
    cached: Map<TrackedProcess, u32>,
    p: TrackedProcess,
    q: TrackedProcess,
    pid: u32,
)
    requires
        p != q,
    ensures
        cached.insert(p, pid).dom().contains(p) && cached.insert(p, pid)[p] == pid,
        !cached.remove(p).dom().contains(p),
        cached.dom().contains(q) ==> cached.insert(p, pid).dom().contains(q) && cached.insert(
            p,
            pid,
        )[q] == cached[q] && cached.remove(p).dom().contains(q) && cached.remove(p)[q]
            == cached[q],
{
}

/// The signals with which a process is asked to end, mildest first.
#[derive(Clone, Copy, Debug, PartialEq, Eq, Structural)]
pub enum QuitSignal {
    Term,
    Quit,
    Kill,
}

/// The processes whose presence makes quitting SteamVR send signals, in the
/// order they are checked.
pub fn quit_targets() -> (r: Vec<TrackedProcess>)
    ensures
        r@ == seq![TrackedProcess::Steamvr, TrackedProcess::Wivrn, TrackedProcess::MonadoService],
{
    let mut r = Vec::new();
    r.push(TrackedProcess::Steamvr);
    r.push(TrackedProcess::Wivrn);
    r.push(TrackedProcess::MonadoService);
    r
}

/// The process that receives the signals when SteamVR is quit.
pub fn quit_victim() -> (r: TrackedProcess)
    ensures
        r == TrackedProcess::Steamvr,
{
    TrackedProcess::Steamvr
}

/// The first signal sent: `Kill` where the quit is forced, `Term` otherwise.
pub open spec fn first_signal_spec(kill: bool) -> QuitSignal {
    if kill {
        QuitSignal::Kill
    } else {
        QuitSignal::Term
    }
}

/// The signal sent after `sent`, given whether the platform knew `sent`: a
/// known signal ends the sequence; an unknown `Term` is followed by `Quit`, an
/// unknown `Quit` by `Kill`; nothing follows `Kill`.
pub open spec fn next_signal_spec(sent: QuitSignal, supported: bool) -> Option<QuitSignal> {
    if supported {
        None
    } else {
        match sent {
            QuitSignal::Term => Some(QuitSignal::Quit),
            QuitSignal::Quit => Some(QuitSignal::Kill),
            QuitSignal::Kill => None,
        }
    }
}

/// The first signal sent when SteamVR is quit.
pub fn first_signal(kill: bool) -> (r: QuitSignal)
    ensures
        r == first_signal_spec(kill),
{
    if kill {
        QuitSignal::Kill
    } else {
        QuitSignal::Term
    }
}

/// The signal to send after `sent`, given whether the platform knew `sent`.
pub fn next_signal(sent: QuitSignal, supported: bool) -> (r: Option<QuitSignal>)
    ensures
        r == next_signal_spec(sent, supported),
{
    if supported {
        return None;
    }
    match sent {
        QuitSignal::Term => Some(QuitSignal::Quit),
        QuitSignal::Quit => Some(QuitSignal::Kill),
        QuitSignal::Kill => None,
    }
}

/// A forced quit sends `Kill` alone; an unforced one reaches `Kill` exactly when
/// the platform knows neither `Term` nor `Quit`, and never sends more than
/// three signals.
pub proof fn lemma_kill_is_last_resort(kill: bool, term_known: bool, quit_known: bool, kill_known: bool)
    ensures
        kill ==> first_signal_spec(kill) == QuitSignal::Kill && next_signal_spec(
            QuitSignal::Kill,
            kill_known,
        ) is None,
        !kill ==> first_signal_spec(kill) == QuitSignal::Term,
        (next_signal_spec(QuitSignal::Term, term_known) == Some(QuitSignal::Quit)
            && next_signal_spec(QuitSignal::Quit, quit_known) == Some(QuitSignal::Kill)) <==> (
        !term_known && !quit_known),
        next_signal_spec(QuitSignal::Kill, kill_known) is None,
{
}

} // verus!
