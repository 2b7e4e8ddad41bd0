//! The unmount guard: before anything destructive happens, every mounted descendant
//! partition of the target and then the target itself are unmounted, each first
//! normally and then by force, the system is given time to settle, and a final query
//! must find no mount target left.
//!
//! The guard decides; its caller performs each action and reports how it went.

use vstd::prelude::*;

verus! {

/// A path under the target and whether the system reports a mount target for it.
pub struct MountEntry {
    pub path: String,
    pub mounted: bool,
}

/// Why the target could not be freed.
#[derive(Debug, Clone)]
pub struct UnmountError {
    pub device: String,
    pub cause: String,
}

/// What the guard asks its caller to do next.
pub enum UnmountAction {
    /// Unmount this path normally.
    Unmount(String),
    /// Unmount this path by force, after a normal attempt failed.
    ForceUnmount(String),
    /// Wait for the system to release the device.
    Settle,
    /// Report which of these paths, the target's descendants and then the target, still
    /// have a mount target.
    QueryMounts(Vec<String>),
    /// The target and its descendants are free.
    Succeeded,
    /// The target could not be freed; the session must not proceed.
    Failed(UnmountError),
}

/// What the caller reports back.
pub enum UnmountEvent {
    /// The guard is to begin.
    Start,
    /// The last action succeeded.
    Done,
    /// The last action failed, with the system's diagnostic.
    Failed(String),
    /// The paths that still have a mount target.
    MountsReported(Vec<String>),
}

/// Where the guard stands.
#[derive(Clone, Copy, PartialEq, Eq, Structural)]
pub enum UnmountPhase {
    Fresh,
    Unmounting { index: usize, forced: bool },
    Settling,
    Checking,
    Succeeded,
    Failed,
}

/// The mounted paths among `entries`, in order.
pub open spec fn mounted_paths(entries: Seq<(Seq<char>, bool)>) -> Seq<Seq<char>>
    decreases entries.len(),
{
    if entries.len() == 0 {
        Seq::empty()
    } else {
        let rest = mounted_paths(entries.drop_last());
        if entries.last().1 {
            rest.push(entries.last().0)
        } else {
            rest
        }
    }
}

/// The paths to unmount, in order: for a whole disk its mounted descendants, then the
/// target itself if it is mounted.
pub open spec fn unmount_plan(
    device: Seq<char>,
    is_partition: bool,
    device_mounted: bool,
    descendants: Seq<(Seq<char>, bool)>,
) -> Seq<Seq<char>> {
    let parts = if is_partition {
        Seq::empty()
    } else {
        mounted_paths(descendants)
    };
    if device_mounted {
        parts.push(device)
    } else {
        parts
    }
}

/// The paths whose mount targets the final query covers: for a whole disk every descendant,
/// mounted or not, then the target itself.
pub open spec fn watch_list(device: Seq<char>, is_partition: bool, descendants: Seq<(Seq<char>, bool)>) -> Seq<
    Seq<char>,
> {
    if is_partition {
        seq![device]
    } else {
        descendants.map_values(|e: (Seq<char>, bool)| e.0).push(device)
    }
}

pub open spec fn entry_views(entries: Seq<MountEntry>) -> Seq<(Seq<char>, bool)> {
    entries.map_values(|e: MountEntry| (e.path@, e.mounted))
}

/// The mathematical value of an [`UnmountAction`].
pub enum UnmountActionView {
    Unmount(Seq<char>),
    ForceUnmount(Seq<char>),
    Settle,
    QueryMounts(Seq<Seq<char>>),
    Succeeded,
    Failed(Seq<char>, Seq<char>),
}

impl View for UnmountAction {
    type V = UnmountActionView;

    open spec fn view(&self) -> UnmountActionView {
        match self {
            UnmountAction::Unmount(p) => UnmountActionView::Unmount(p@),
            UnmountAction::ForceUnmount(p) => UnmountActionView::ForceUnmount(p@),
            UnmountAction::Settle => UnmountActionView::Settle,
            UnmountAction::QueryMounts(w) => UnmountActionView::QueryMounts(w.deep_view()),
            UnmountAction::Succeeded => UnmountActionView::Succeeded,
            UnmountAction::Failed(e) => UnmountActionView::Failed(e.device@, e.cause@),
        }
    }
}

/// The mathematical value of an [`UnmountEvent`].
pub enum UnmountEventView {
    Start,
    Done,
    Failed(Seq<char>),
    MountsReported(Seq<Seq<char>>),
}

impl View for UnmountEvent {
    type V = UnmountEventView;

    open spec fn view(&self) -> UnmountEventView {
        match self {
            UnmountEvent::Start => UnmountEventView::Start,
            UnmountEvent::Done => UnmountEventView::Done,
            UnmountEvent::Failed(c) => UnmountEventView::Failed(c@),
            UnmountEvent::MountsReported(m) => UnmountEventView::MountsReported(m.deep_view()),
        }
    }
}

/// After the planned path at `index` is freed: the next one is unmounted, or, after the
/// last, the system is given time to settle.
pub open spec fn after_target_step(plan: Seq<Seq<char>>, index: nat) -> (UnmountPhase, UnmountActionView) {
    if index + 1 < plan.len() {
        (UnmountPhase::Unmounting { index: (index + 1) as usize, forced: false }, UnmountActionView::Unmount(plan[index + 1 as int]))
    } else {
        (UnmountPhase::Settling, UnmountActionView::Settle)
    }
}

/// One decision of the guard: from its phase, its plan and the outcome of the last action
/// to its next phase and action. A normal unmount that fails is retried by force; a forced
/// one that fails ends the guard; success comes only from a mount query that found nothing.
pub open spec fn guard_step(
    phase: UnmountPhase,
    plan: Seq<Seq<char>>,
    watched: Seq<Seq<char>>,
    device: Seq<char>,
    event: UnmountEventView,
) -> (UnmountPhase, UnmountActionView) {
    match phase {
        UnmountPhase::Fresh => match event {
            UnmountEventView::Start => if plan.len() > 0 {
                (UnmountPhase::Unmounting { index: 0, forced: false }, UnmountActionView::Unmount(plan[0]))
            } else {
                (UnmountPhase::Checking, UnmountActionView::QueryMounts(watched))
            },
            _ => (UnmountPhase::Failed, UnmountActionView::Failed(device, "the guard was not started"@)),
        },
        UnmountPhase::Unmounting { index, forced } => match event {
            UnmountEventView::Done => after_target_step(plan, index as nat),
            UnmountEventView::Failed(cause) => if forced {
                (UnmountPhase::Failed, UnmountActionView::Failed(plan[index as int], cause))
            } else {
                (UnmountPhase::Unmounting { index, forced: true }, UnmountActionView::ForceUnmount(plan[index as int]))
            },
            _ => (UnmountPhase::Failed, UnmountActionView::Failed(plan[index as int], "no outcome reported for the unmount"@)),
        },
        UnmountPhase::Settling => (UnmountPhase::Checking, UnmountActionView::QueryMounts(watched)),
        UnmountPhase::Checking => match event {
            UnmountEventView::MountsReported(still) => if still.len() == 0 {
                (UnmountPhase::Succeeded, UnmountActionView::Succeeded)
            } else {
                (UnmountPhase::Failed, UnmountActionView::Failed(still[0], "a mount target remains after unmounting"@))
            },
            UnmountEventView::Failed(cause) => (UnmountPhase::Failed, UnmountActionView::Failed(device, cause)),
            _ => (UnmountPhase::Failed, UnmountActionView::Failed(device, "the mount query gave no answer"@)),
        },
        UnmountPhase::Succeeded => (UnmountPhase::Succeeded, UnmountActionView::Succeeded),
        UnmountPhase::Failed => (UnmountPhase::Failed, UnmountActionView::Failed(device, "the guard already failed"@)),
    }
}

pub struct UnmountGuard {
    device: String,
    targets: Vec<String>,
    watched: Vec<String>,
    phase: UnmountPhase,
    attempted: Ghost<Seq<Seq<char>>>,
    confirmed_clear: Ghost<bool>,
}

impl UnmountGuard {
    /// The paths the guard unmounts, in order.
    pub closed spec fn plan(&self) -> Seq<Seq<char>> {
        self.targets.deep_view()
    }

    /// The paths that the final mount query covers.
    pub closed spec fn watched(&self) -> Seq<Seq<char>> {
        self.watched.deep_view()
    }

    pub closed spec fn spec_device(&self) -> Seq<char> {
        self.device@
    }

    pub closed spec fn spec_phase(&self) -> UnmountPhase {
        self.phase
    }

    /// The paths for which a normal unmount was asked, in order.
    pub closed spec fn attempted(&self) -> Seq<Seq<char>> {
        self.attempted@
    }

    /// Whether a mount query reported no mount target left.
    pub closed spec fn confirmed_clear(&self) -> bool {
        self.confirmed_clear@
    }

    pub closed spec fn wf(&self) -> bool {
        &&& self.targets@.len() < usize::MAX
        &&& match self.phase {
            UnmountPhase::Fresh => self.attempted@.len() == 0,
            UnmountPhase::Unmounting { index, forced } => {
                &&& index < self.targets@.len()
                &&& self.attempted@ == self.plan().subrange(0, index + 1)
            },
            UnmountPhase::Settling | UnmountPhase::Checking => self.attempted@ == self.plan(),
            UnmountPhase::Succeeded => self.attempted@ == self.plan() && self.confirmed_clear@,
            UnmountPhase::Failed => true,
        }
    }

    /// A guard for `device`. A whole disk (`is_partition` false) is freed together with
    /// its descendants, as `lsblk` lists them; a partition alone.
    pub fn new(device: &str, is_partition: bool, device_mounted: bool, descendants: &Vec<MountEntry>) -> (r:
        UnmountGuard)
        requires
            descendants@.len() < usize::MAX - 1,
        ensures
            r.wf(),
            r.spec_device() == device@,
            r.spec_phase() == UnmountPhase::Fresh,
            r.plan() == unmount_plan(device@, is_partition, device_mounted, entry_views(descendants@)),
            r.watched() == watch_list(device@, is_partition, entry_views(descendants@)),
    {
        let mut targets: Vec<String> = Vec::new();
        let ghost ev = entry_views(descendants@);
        if !is_partition {
            let mut i: usize = 0;
            assert(ev.subrange(0, 0) =~= Seq::<(Seq<char>, bool)>::empty());
            while i < descendants.len()
                invariant
                    ev == entry_views(descendants@),
                    i <= descendants@.len(),
                    targets@.len() <= i,
                    targets.deep_view() == mounted_paths(ev.subrange(0, i as int)),
                decreases descendants@.len() - i,
            {
                assert(ev.subrange(0, i + 1).drop_last() =~= ev.subrange(0, i as int));
                if descendants[i].mounted {
                    let ghost prev = targets.deep_view();
                    targets.push(descendants[i].path.clone());
                    assert(targets.deep_view() =~= prev.push(descendants@[i as int].path@));
                }
                i = i + 1;
            }
            assert(ev.subrange(0, descendants@.len() as int) =~= ev);
        } else {
            assert(targets.deep_view() =~= Seq::<Seq<char>>::empty());
        }
        if device_mounted {
            let ghost prev = targets.deep_view();
            targets.push(String::from_str(device));
            assert(targets.deep_view() =~= prev.push(device@));
        }
        let mut watched: Vec<String> = Vec::new();
        if !is_partition {
            let mut i: usize = 0;
            while i < descendants.len()
                invariant
                    ev == entry_views(descendants@),
                    i <= descendants@.len(),
                    watched.deep_view() == ev.subrange(0, i as int).map_values(|e: (Seq<char>, bool)| e.0),
                decreases descendants@.len() - i,
            {
                let ghost prev = watched.deep_view();
                watched.push(descendants[i].path.clone());
                assert(watched.deep_view() =~= prev.push(descendants@[i as int].path@));
                assert(ev[i as int].0 == descendants@[i as int].path@);
                assert(ev.subrange(0, i + 1).map_values(|e: (Seq<char>, bool)| e.0) =~= ev.subrange(0, i as int).map_values(
                    |e: (Seq<char>, bool)| e.0,
                ).push(ev[i as int].0));
                i = i + 1;
            }
            assert(ev.subrange(0, descendants@.len() as int) =~= ev);
        }
        let ghost prev = watched.deep_view();
        watched.push(String::from_str(device));
        assert(watched.deep_view() =~= prev.push(device@));
        assert(watched.deep_view() =~= watch_list(device@, is_partition, ev));
        UnmountGuard {
            device: String::from_str(device),
            targets,
            watched,
            phase: UnmountPhase::Fresh,
            attempted: Ghost(Seq::empty()),
            confirmed_clear: Ghost(false),
        }
    }

    pub fn phase(&self) -> (r: UnmountPhase)
        ensures
            r == self.spec_phase(),
    {
        self.phase
    }

    /// The action after the target at `index` was freed.
    fn after_target(&mut self, index: usize) -> (r: UnmountAction)
        requires
            old(self).wf(),
            old(self).spec_phase() matches UnmountPhase::Unmounting { index: i, .. } && i == index,
        ensures
            final(self).wf(),
            final(self).plan() == old(self).plan(),
            final(self).watched() == old(self).watched(),
            final(self).spec_device() == old(self).spec_device(),
            (final(self).spec_phase(), r@) == after_target_step(old(self).plan(), index as nat),
    {
        if index + 1 < self.targets.len() {
            let ghost plan = self.targets.deep_view();
            self.phase = UnmountPhase::Unmounting { index: index + 1, forced: false };
            self.attempted = Ghost(self.attempted@.push(plan[index + 1]));
            assert(self.attempted@ =~= plan.subrange(0, index + 2));
            assert(plan[index + 1] == self.targets@[index + 1]@);
            UnmountAction::Unmount(self.targets[index + 1].clone())
        } else {
            assert(self.attempted@ =~= self.targets.deep_view());
            self.phase = UnmountPhase::Settling;
            UnmountAction::Settle
        }
    }

    /// Takes the outcome of the last action and returns the next one.
    pub fn next_action(&mut self, event: UnmountEvent) -> (r: UnmountAction)
        requires
            old(self).wf(),
        ensures
            final(self).wf(),
            final(self).plan() == old(self).plan(),
            final(self).watched() == old(self).watched(),
            final(self).spec_device() == old(self).spec_device(),
            (final(self).spec_phase(), r@) == guard_step(
                old(self).spec_phase(),
                old(self).plan(),
                old(self).watched(),
                old(self).spec_device(),
                event@,
            ),
    {
        match self.phase {
            UnmountPhase::Fresh => {
                match event {
                    UnmountEvent::Start => {
                        if self.targets.len() > 0 {
                            let ghost plan = self.targets.deep_view();
                            self.phase = UnmountPhase::Unmounting { index: 0, forced: false };
                            self.attempted = Ghost(Seq::empty().push(plan[0]));
                            assert(self.attempted@ =~= plan.subrange(0, 1));
                            UnmountAction::Unmount(self.targets[0].clone())
                        } else {
                            assert(self.attempted@ =~= self.targets.deep_view());
                            self.phase = UnmountPhase::Checking;
                            UnmountAction::QueryMounts(self.watched.clone())
                        }
                    },
                    _ => self.fail(self.device.clone(), String::from_str("the guard was not started")),
                }
            },
            UnmountPhase::Unmounting { index, forced } => {
                match event {
                    UnmountEvent::Done => self.after_target(index),
                    UnmountEvent::Failed(cause) => {
                        if forced {
                            let d = self.targets[index].clone();
                            self.fail(d, cause)
                        } else {
                            self.phase = UnmountPhase::Unmounting { index, forced: true };
                            UnmountAction::ForceUnmount(self.targets[index].clone())
                        }
                    },
                    _ => {
                        let d = self.targets[index].clone();
                        self.fail(d, String::from_str("no outcome reported for the unmount"))
                    },
                }
            },
            UnmountPhase::Settling => {
                self.phase = UnmountPhase::Checking;
                UnmountAction::QueryMounts(self.watched.clone())
            },
            UnmountPhase::Checking => {
                match event {
                    UnmountEvent::MountsReported(still) => {
                        if still.len() == 0 {
                            self.phase = UnmountPhase::Succeeded;
                            self.confirmed_clear = Ghost(true);
                            UnmountAction::Succeeded
                        } else {
                            let d = still[0].clone();
                            self.fail(d, String::from_str("a mount target remains after unmounting"))
                        }
                    },
                    UnmountEvent::Failed(cause) => {
                        let d = self.device.clone();
                        self.fail(d, cause)
                    },
                    _ => self.fail(self.device.clone(), String::from_str("the mount query gave no answer")),
                }
            },
            UnmountPhase::Succeeded => UnmountAction::Succeeded,
            UnmountPhase::Failed => {
                let d = self.device.clone();
                self.fail(d, String::from_str("the guard already failed"))
            },
        }
    }

    fn fail(&mut self, device: String, cause: String) -> (r: UnmountAction)
        requires
            old(self).wf(),
        ensures
            final(self).wf(),
            final(self).plan() == old(self).plan(),
            final(self).watched() == old(self).watched(),
            final(self).spec_device() == old(self).spec_device(),
            final(self).spec_phase() is Failed,
            r@ == UnmountActionView::Failed(device@, cause@),
    {
        self.phase = UnmountPhase::Failed;
        UnmountAction::Failed(UnmountError { device, cause })
    }
}

/// A guard that reports success has asked for a normal unmount of every planned path —
/// each mounted descendant of a whole disk, then the disk itself if it was mounted — and
/// has seen a mount query come back empty; that query (see [`guard_step`]) names every
/// watched path, the target and all its descendants.
pub proof fn lemma_success_covers_plan(g: UnmountGuard)
    requires
        g.wf(),
        g.spec_phase() is Succeeded,
    ensures
        g.attempted() == g.plan(),
        g.confirmed_clear(),
{
}

/// Every mounted entry is among the mounted paths.
proof fn lemma_mounted_entry_listed(entries: Seq<(Seq<char>, bool)>, i: int)
    requires
        0 <= i < entries.len(),
        entries[i].1,
    ensures
        mounted_paths(entries).contains(entries[i].0),
    decreases entries.len(),
{
    let rest = entries.drop_last();
    if i < entries.len() - 1 {
        assert(rest[i] == entries[i]);
        lemma_mounted_entry_listed(rest, i);
        let k = choose|k: int| 0 <= k < mounted_paths(rest).len() && mounted_paths(rest)[k] == entries[i].0;
        assert(mounted_paths(entries)[k] == entries[i].0);
    } else {
        assert(mounted_paths(entries).last() == entries[i].0);
    }
}

/// Every mounted path comes from a mounted entry.
proof fn lemma_listed_path_mounted(entries: Seq<(Seq<char>, bool)>, k: int)
    requires
        0 <= k < mounted_paths(entries).len(),
    ensures
        exists|i: int| 0 <= i < entries.len() && entries[i].1 && #[trigger] entries[i].0 == mounted_paths(entries)[k],
    decreases entries.len(),
{
    let rest = entries.drop_last();
    let m = mounted_paths(rest);
    if k < m.len() {
        lemma_listed_path_mounted(rest, k);
        let i = choose|i: int| 0 <= i < rest.len() && rest[i].1 && #[trigger] rest[i].0 == m[k];
        assert(entries[i] == rest[i]);
        assert(mounted_paths(entries)[k] == m[k]);
    } else {
        assert(entries[entries.len() - 1].0 == mounted_paths(entries)[k]);
    }
}

/// A guard that succeeded on a whole disk asked for a normal unmount of every mounted
/// descendant, and of the disk itself if and only if it was mounted (when no descendant bears
/// its path), and of nothing else.
pub proof fn lemma_guard_unmounts_exactly_the_mounted(
    g: UnmountGuard,
    device: Seq<char>,
    is_partition: bool,
    device_mounted: bool,
    descendants: Seq<(Seq<char>, bool)>,
)
    requires
        g.wf(),
        g.spec_phase() is Succeeded,
        g.plan() == unmount_plan(device, is_partition, device_mounted, descendants),
    ensures
        forall|i: int|
            0 <= i < descendants.len() && !is_partition && #[trigger] descendants[i].1 ==> g.attempted().contains(
                descendants[i].0,
            ),
        device_mounted ==> g.attempted().contains(device),
        forall|k: int|
            0 <= k < g.attempted().len() ==> #[trigger] g.attempted()[k] == device || (!is_partition && exists|i: int|
                0 <= i < descendants.len() && descendants[i].1 && #[trigger] descendants[i].0 == g.attempted()[k]),
        !device_mounted && (forall|i: int| 0 <= i < descendants.len() ==> #[trigger] descendants[i].0 != device)
            ==> !g.attempted().contains(device),
{
    let a = g.attempted();
    let m = mounted_paths(descendants);
    assert(a == g.plan());
    assert forall|i: int| 0 <= i < descendants.len() && !is_partition && #[trigger] descendants[i].1 implies a.contains(
        descendants[i].0,
    ) by {
        lemma_mounted_entry_listed(descendants, i);
        let k = choose|k: int| 0 <= k < m.len() && m[k] == descendants[i].0;
        assert(a[k] == descendants[i].0);
    }
    if device_mounted {
        assert(a[a.len() - 1] == device);
    }
    assert forall|k: int| 0 <= k < a.len() implies #[trigger] a[k] == device || (!is_partition && exists|i: int|
        0 <= i < descendants.len() && descendants[i].1 && #[trigger] descendants[i].0 == a[k]) by {
        if !is_partition && k < m.len() {
            assert(a[k] == m[k]);
            lemma_listed_path_mounted(descendants, k);
        }
    }
    if !device_mounted && (forall|i: int| 0 <= i < descendants.len() ==> #[trigger] descendants[i].0 != device) {
        if a.contains(device) {
            let k = choose|k: int| 0 <= k < a.len() && a[k] == device;
            assert(!is_partition);
            assert(a[k] == m[k]);
            lemma_listed_path_mounted(descendants, k);
        }
    }
}

} // verus!
