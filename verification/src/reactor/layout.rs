//! Placing the windows of a screen, and what follows from a layout: raising and focusing windows,
//! and switching workspaces after the application that was activated.

use vstd::prelude::*;

use crate::collections::{contains, VecMap, VecSet};
use crate::model::{Frame, Pid, Screen, SpaceId, WindowServerId, WindowServerInfo};
use crate::reactor::animation::{
    own_targets, AnimatedWindow, DirectFrame, FrameTarget, InstantBatch, LayoutTarget,
};
#[allow(unused_imports)]
use crate::reactor::animation::{
    batch_views, frames_of, one_target_each, owners, targets_of, Batch,
};
use crate::reactor::actor::Reactor;
#[allow(unused_imports)]
use crate::reactor::actor::Parts;
use crate::reactor::event::LayoutEvent;
use crate::reactor::managers::{
    AutoWorkspaceSwitch, DragManager, RefocusManager, RefocusState, WindowManager,
    WorkspaceSwitchManager, WorkspaceSwitchState,
};
#[allow(unused_imports)]
use crate::reactor::managers::{ascending, WindowState, Windows};
use crate::reactor::space::first_space_on;
#[allow(unused_imports)]
use crate::reactor::space::first_screen_space;
use crate::reactor::transaction_manager::{TransactionId, TxEntry};
#[allow(unused_imports)]
use crate::reactor::transaction_manager::{stored, Transactions, TxRecord};
use crate::text::same_text;
use crate::window_id::WindowId;
use crate::window_notify::CGSEventType;

verus! {

/// How an animation is run.
#[derive(Clone, Copy, Debug, PartialEq, Eq, Structural)]
pub enum AnimationRun {
    /// No window is animated.
    Nothing,
    Run,
    SkipToEnd,
}

/// What is to be done to place the windows of a screen.
pub struct ScreenPlacement {
    /// Frames that are asked for at once. Once an application was told, its windows have them.
    pub batches: Vec<InstantBatch>,
    /// Frames that are asked for one by one. Once an application was told, its window has it.
    pub direct: Vec<DirectFrame>,
    pub animated: Vec<AnimatedWindow>,
    /// The transactions to store.
    pub entries: Vec<TxEntry>,
    pub run: AnimationRun,
    /// Whether windows were placed at once.
    pub changed: bool,
}

/// What the placement of a screen depends on.
#[derive(Clone, Copy, Debug, PartialEq, Eq, Structural)]
pub struct LayoutPass {
    /// The window that stays where it is.
    pub skip: Option<WindowId>,
    /// Whether windows are placed without animation.
    pub instant: bool,
    /// Whether the space has a workspace that shows.
    pub has_workspace: bool,
    pub is_resize: bool,
    pub animate: bool,
    pub low_power: bool,
}

/// Whether a target gives its window another frame.
pub open spec fn moves_window(windows: Windows, skip: Option<WindowId>, t: LayoutTarget) -> bool {
    skip != Some(t.wid) && windows.windows.dom().contains(t.wid) && !t.unchanged
}

/// The targets that give their window another frame, in order.
pub open spec fn moving(windows: Windows, skip: Option<WindowId>, layout: Seq<LayoutTarget>) -> Seq<
    LayoutTarget,
>
    decreases layout.len(),
{
    if layout.len() == 0 {
        Seq::empty()
    } else {
        let head = moving(windows, skip, layout.drop_last());
        if moves_window(windows, skip, layout.last()) {
            head.push(layout.last())
        } else {
            head
        }
    }
}

impl Windows {
    /// A window has its next transaction.
    pub open spec fn next_txid(self, wid: WindowId) -> TransactionId {
        self.windows[wid].last_sent_txid.spec_next()
    }

    pub open spec fn with_txid(self, wid: WindowId, txid: TransactionId) -> Windows {
        Windows {
            windows: self.windows.insert(
                wid,
                WindowState { last_sent_txid: txid, ..self.windows[wid] },
            ),
            ..self
        }
    }

    /// The windows of one batch share a transaction.
    pub open spec fn with_batch(self, own: Seq<LayoutTarget>, txid: TransactionId) -> Windows
        decreases own.len(),
    {
        if own.len() == 0 {
            self
        } else {
            self.with_batch(own.drop_last(), txid).with_txid(own.last().wid, txid)
        }
    }

    /// The transaction entry of a window, if the window server knows it.
    pub open spec fn entry(self, t: LayoutTarget, txid: TransactionId) -> Seq<TxEntry> {
        match self.windows[t.wid].window_server_id {
            Some(wsid) => seq![TxEntry { wsid, txid, target: t.frame }],
            None => Seq::empty(),
        }
    }

    pub open spec fn entries(self, own: Seq<LayoutTarget>, txid: TransactionId) -> Seq<TxEntry>
        decreases own.len(),
    {
        if own.len() == 0 {
            Seq::empty()
        } else {
            self.entries(own.drop_last(), txid) + self.entry(own.last(), txid)
        }
    }
}

/// The windows, the batches and the transactions while a screen is placed.
#[verifier::ext_equal]
pub struct Placed {
    pub windows: Windows,
    pub batches: Seq<Batch>,
    pub direct: Seq<DirectFrame>,
    pub animated: Seq<AnimatedWindow>,
    pub entries: Seq<TxEntry>,
}

impl Placed {
    pub open spec fn start(windows: Windows) -> Placed {
        Placed {
            windows,
            batches: Seq::empty(),
            direct: Seq::empty(),
            animated: Seq::empty(),
            entries: Seq::empty(),
        }
    }

    /// The batch of one application is planned.
    pub open spec fn batched(self, own: Seq<LayoutTarget>, pid: Pid) -> Placed {
        let txid = self.windows.next_txid(own[0].wid);
        Placed {
            windows: self.windows.with_batch(own, txid),
            batches: self.batches.push(
                Batch { pid, txid, positions: Seq::empty(), frames: frames_of(own, false) },
            ),
            entries: self.entries + self.windows.entries(own, txid),
            ..self
        }
    }

    /// One window of an animated layout.
    pub open spec fn stepped(
        self,
        t: LayoutTarget,
        skip: Option<WindowId>,
        apps: Set<Pid>,
    ) -> Placed {
        if !moves_window(self.windows, skip, t) {
            self
        } else {
            let w = self.windows.windows[t.wid];
            let txid = self.windows.next_txid(t.wid);
            let begun = Placed { windows: self.windows.with_txid(t.wid, txid), ..self };
            if !apps.contains(t.wid.pid) {
                begun
            } else if t.shown {
                Placed {
                    windows: begun.windows.with_frame(t.wid, t.frame),
                    animated: self.animated.push(
                        AnimatedWindow {
                            wid: t.wid,
                            start: w.frame_monotonic,
                            finish: t.frame,
                            is_focus: false,
                            txid,
                        },
                    ),
                    entries: self.entries + self.windows.entry(t, txid),
                    ..begun
                }
            } else {
                Placed {
                    direct: self.direct.push(DirectFrame { wid: t.wid, frame: t.frame, txid }),
                    entries: self.entries + self.windows.entry(t, txid),
                    ..begun
                }
            }
        }
    }
}

/// The batches of `pids`, one after the other.
pub open spec fn all_batched(
    start: Placed,
    targets: Seq<LayoutTarget>,
    pids: Seq<Pid>,
    apps: Set<Pid>,
) -> Placed
    decreases pids.len(),
{
    if pids.len() == 0 {
        start
    } else {
        let head = all_batched(start, targets, pids.drop_last(), apps);
        if apps.contains(pids.last()) {
            head.batched(targets_of(targets, pids.last()), pids.last())
        } else {
            head
        }
    }
}

/// All windows of an animated layout, one after the other.
pub open spec fn all_stepped(
    start: Placed,
    layout: Seq<LayoutTarget>,
    skip: Option<WindowId>,
    apps: Set<Pid>,
) -> Placed
    decreases layout.len(),
{
    if layout.len() == 0 {
        start
    } else {
        all_stepped(start, layout.drop_last(), skip, apps).stepped(layout.last(), skip, apps)
    }
}

/// What placing a screen comes to.
pub open spec fn screen_placed(
    windows: Windows,
    layout: Seq<LayoutTarget>,
    apps: Set<Pid>,
    pass: LayoutPass,
) -> Placed {
    if pass.instant {
        let targets = moving(windows, pass.skip, layout);
        all_batched(Placed::start(windows), targets, owners(targets), apps)
    } else if pass.has_workspace {
        all_stepped(Placed::start(windows), layout, pass.skip, apps)
    } else {
        Placed::start(windows)
    }
}

proof fn lemma_moving(windows: Windows, skip: Option<WindowId>, layout: Seq<LayoutTarget>, pid: Pid)
    ensures
        ({
            let all = moving(windows, skip, layout);
            let own = targets_of(all, pid);
            &&& forall|i: int|
                0 <= i < own.len() ==> windows.windows.dom().contains((#[trigger] own[i]).wid)
                    && own[i].wid.pid == pid
            &&& owners(all).contains(pid) ==> own.len() > 0
        }),
    decreases layout.len(),
{
    if layout.len() > 0 {
        lemma_moving(windows, skip, layout.drop_last(), pid);
        let head = moving(windows, skip, layout.drop_last());
        let all = moving(windows, skip, layout);
        if moves_window(windows, skip, layout.last()) {
            assert(all.drop_last() =~= head);
            crate::collections::lemma_push_contains(owners(head), layout.last().wid.pid);
            let own = targets_of(all, pid);
            let own_head = targets_of(head, pid);
            assert forall|i: int| 0 <= i < own.len() implies windows.windows.dom().contains(
                (#[trigger] own[i]).wid,
            ) && own[i].wid.pid == pid by {
                if i < own_head.len() {
                    assert(own[i] == own_head[i]);
                }
            }
        }
    }
}

proof fn lemma_owners_unique(targets: Seq<LayoutTarget>)
    ensures
        owners(targets).no_duplicates(),
    decreases targets.len(),
{
    if targets.len() > 0 {
        lemma_owners_unique(targets.drop_last());
        let head = owners(targets.drop_last());
        if !head.contains(targets.last().wid.pid) {
            crate::collections::lemma_push_new(head, targets.last().wid.pid);
        }
    }
}

proof fn lemma_with_batch(windows: Windows, own: Seq<LayoutTarget>, txid: TransactionId)
    requires
        forall|i: int|
            0 <= i < own.len() ==> windows.windows.dom().contains((#[trigger] own[i]).wid),
    ensures
        windows.with_batch(own, txid).windows.dom() == windows.windows.dom(),
        forall|w: WindowId| #[trigger]
            windows.windows.dom().contains(w) ==> {
                &&& windows.with_batch(own, txid).windows[w].window_server_id
                    == windows.windows[w].window_server_id
                &&& windows.with_batch(own, txid).windows[w].last_sent_txid == txid
                    || windows.with_batch(own, txid).windows[w] == windows.windows[w]
            },
        forall|w: WindowId| #[trigger]
            windows.windows.dom().contains(w) && (forall|i: int|
                0 <= i < own.len() ==> (#[trigger] own[i]).wid != w) ==> windows.with_batch(
                own,
                txid,
            ).windows[w] == windows.windows[w],
    decreases own.len(),
{
    if own.len() > 0 {
        let head = own.drop_last();
        assert forall|i: int| 0 <= i < head.len() implies windows.windows.dom().contains(
            (#[trigger] head[i]).wid,
        ) by {
            assert(head[i] == own[i]);
        }
        lemma_with_batch(windows, head, txid);
        assert(windows.windows.dom().contains(own[own.len() - 1].wid));
        assert(windows.with_batch(own, txid).windows.dom() =~= windows.windows.dom());
        assert forall|w: WindowId| #[trigger]
            windows.windows.dom().contains(w) && (forall|i: int|
                0 <= i < own.len() ==> (#[trigger] own[i]).wid != w) implies windows.with_batch(
            own,
            txid,
        ).windows[w] == windows.windows[w] by {
            assert forall|i: int| 0 <= i < head.len() implies (#[trigger] head[i]).wid != w by {
                assert(head[i] == own[i]);
            }
            assert(own[own.len() - 1].wid != w);
        }
    }
}

impl WindowManager {
    /// A window has a transaction.
    fn set_txid(&mut self, wid: WindowId, txid: TransactionId)
        requires
            old(self)@.windows.dom().contains(wid),
        ensures
            final(self)@ == old(self)@.with_txid(wid, txid),
    {
        let ghost before = self@;
        match self.windows.remove(&wid) {
            Some(state) => {
                let mut state = state;
                state.last_sent_txid = txid;
                let _ = self.windows.insert(wid, state);
                assert(self@.windows =~= before.with_txid(wid, txid).windows);
            },
            None => {},
        }
    }

    /// Plans the batch of one application.
    fn plan_app_batch(
        &mut self,
        own: &Vec<LayoutTarget>,
        pid: Pid,
        entries: &mut Vec<TxEntry>,
    ) -> (r: InstantBatch)
        requires
            own@.len() > 0,
            forall|i: int|
                0 <= i < own@.len() ==> old(self)@.windows.dom().contains((#[trigger] own@[i]).wid),
        ensures
            ({
                let txid = old(self)@.next_txid(own@[0].wid);
                &&& final(self)@ == old(self)@.with_batch(own@, txid)
                &&& final(entries)@ == old(entries)@ + old(self)@.entries(own@, txid)
                &&& r@ == (Batch {
                    pid,
                    txid,
                    positions: Seq::empty(),
                    frames: frames_of(own@, false),
                })
            }),
    {
        let ghost before = self@;
        let ghost entries0 = entries@;
        assert(before.windows.dom().contains(own@[0].wid));
        let txid = match self.windows.get(&own[0].wid) {
            Some(w) => w.last_sent_txid.next(),
            None => TransactionId(0),
        };
        let mut frames: Vec<FrameTarget> = Vec::new();
        let mut i: usize = 0;
        assert(entries@ =~= entries0 + before.entries(own@.take(0), txid));
        while i < own.len()
            invariant
                i <= own@.len(),
                forall|k: int|
                    0 <= k < own@.len() ==> before.windows.dom().contains((#[trigger] own@[k]).wid),
                self@ == before.with_batch(own@.take(i as int), txid),
                entries@ == entries0 + before.entries(own@.take(i as int), txid),
                frames@ == frames_of(own@.take(i as int), false),
            decreases own@.len() - i,
        {
            let ghost head = own@.take(i as int);
            assert(own@.take(i + 1).drop_last() =~= head);
            let t = own[i];
            assert(before.windows.dom().contains(own@[i as int].wid));
            proof {
                assert forall|k: int| 0 <= k < head.len() implies before.windows.dom().contains(
                    (#[trigger] head[k]).wid,
                ) by {
                    assert(head[k] == own@[k]);
                }
                lemma_with_batch(before, head, txid);
            }
            match self.windows.get(&t.wid) {
                Some(w) => match w.window_server_id {
                    Some(wsid) => {
                        entries.push(TxEntry { wsid, txid, target: t.frame });
                    },
                    None => {},
                },
                None => {},
            }
            assert(entries@ =~= entries0 + before.entries(own@.take(i + 1), txid));
            self.set_txid(t.wid, txid);
            frames.push(FrameTarget { wid: t.wid, frame: t.frame });
            i = i + 1;
        }
        assert(own@.take(i as int) =~= own@);
        InstantBatch { pid, txid, positions: Vec::new(), frames }
    }

    fn place_at_once(
        &mut self,
        layout: &Vec<LayoutTarget>,
        apps: &VecSet<Pid>,
        skip: Option<WindowId>,
    ) -> (r: ScreenPlacement)
        ensures
            ({
                let targets = moving(old(self)@, skip, layout@);
                let end = all_batched(
                    Placed::start(old(self)@),
                    targets,
                    owners(targets),
                    apps@,
                );
                &&& (Placed {
                    windows: final(self)@,
                    batches: batch_views(r.batches@),
                    direct: r.direct@,
                    animated: r.animated@,
                    entries: r.entries@,
                }) == end
                &&& r.run == AnimationRun::Nothing
                &&& r.changed == (targets.len() != 0)
            }),
    {
        let ghost w0 = self@;
        let mut targets: Vec<LayoutTarget> = Vec::new();
        let mut pids: Vec<Pid> = Vec::new();
        let mut i: usize = 0;
        while i < layout.len()
            invariant
                i <= layout@.len(),
                self@ == w0,
                targets@ == moving(w0, skip, layout@.take(i as int)),
                pids@ == owners(targets@),
            decreases layout@.len() - i,
        {
            assert(layout@.take(i + 1).drop_last() =~= layout@.take(i as int));
            let t = layout[i];
            if skip != Some(t.wid) && self.windows.contains_key(&t.wid) && !t.unchanged {
                let ghost targets0 = targets@;
                targets.push(t);
                assert(targets@.drop_last() =~= targets0);
                if !contains(&pids, &t.wid.pid) {
                    pids.push(t.wid.pid);
                }
            }
            i = i + 1;
        }
        assert(layout@.take(i as int) =~= layout@);
        let ghost all = targets@;
        proof {
            lemma_owners_unique(all);
        }
        let mut batches: Vec<InstantBatch> = Vec::new();
        let mut entries: Vec<TxEntry> = Vec::new();
        let ghost start = Placed::start(w0);
        assert(batch_views(batches@) =~= Seq::empty());
        let mut k: usize = 0;
        while k < pids.len()
            invariant
                k <= pids@.len(),
                all == targets@,
                all == moving(w0, skip, layout@),
                pids@ == owners(all),
                pids@.no_duplicates(),
                self@.windows.dom() == w0.windows.dom(),
                forall|w: WindowId| #[trigger]
                    w0.windows.dom().contains(w) && !pids@.take(k as int).contains(w.pid)
                        ==> self@.windows[w] == w0.windows[w],
                (Placed {
                    windows: self@,
                    batches: batch_views(batches@),
                    direct: Seq::empty(),
                    animated: Seq::empty(),
                    entries: entries@,
                }) == all_batched(start, all, pids@.take(k as int), apps@),
                start == Placed::start(w0),
            decreases pids@.len() - k,
        {
            assert(pids@.take(k + 1).drop_last() =~= pids@.take(k as int));
            let pid: Pid = pids[k];
            proof {
                crate::collections::lemma_take_next(pids@, k as int);
            }
            if apps.contains(&pid) {
                let own = own_targets(&targets, pid);
                proof {
                    assert(owners(all).contains(pid)) by {
                        assert(pids@[k as int] == pid);
                    }
                    lemma_moving(w0, skip, layout@, pid);
                    assert(w0.windows.dom().contains(own@[0].wid));
                    lemma_with_batch(self@, own@, self@.next_txid(own@[0].wid));
                }
                let ghost w1 = self@;
                let ghost txid = w1.next_txid(own@[0].wid);
                let batch = self.plan_app_batch(&own, pid, &mut entries);
                let ghost before = batches@;
                batches.push(batch);
                proof {
                    assert(batch_views(batches@) =~= batch_views(before).push(batch@));
                    assert forall|w: WindowId| #[trigger]
                        w0.windows.dom().contains(w) && !pids@.take(k + 1).contains(
                            w.pid,
                        ) implies self@.windows[w] == w0.windows[w] by {
                        assert(w1.windows.dom().contains(w));
                        assert forall|i: int| 0 <= i < own@.len() implies (#[trigger] own@[i]).wid
                            != w by {}
                        assert(w1.windows[w] == w0.windows[w]);
                    }
                }
            }
            k = k + 1;
        }
        assert(pids@.take(k as int) =~= pids@);
        ScreenPlacement {
            batches,
            direct: Vec::new(),
            animated: Vec::new(),
            entries,
            run: AnimationRun::Nothing,
            changed: targets.len() != 0,
        }
    }

    fn place_animated(
        &mut self,
        layout: &Vec<LayoutTarget>,
        apps: &VecSet<Pid>,
        pass: LayoutPass,
    ) -> (r: ScreenPlacement)
        ensures
            ({
                let end = all_stepped(Placed::start(old(self)@), layout@, pass.skip, apps@);
                &&& (Placed {
                    windows: final(self)@,
                    batches: batch_views(r.batches@),
                    direct: r.direct@,
                    animated: r.animated@,
                    entries: r.entries@,
                }) == end
                &&& r.run == run_of(pass, end.animated.len() != 0)
                &&& !r.changed
            }),
    {
        let ghost start = Placed::start(self@);
        let mut direct: Vec<DirectFrame> = Vec::new();
        let mut animated: Vec<AnimatedWindow> = Vec::new();
        let mut entries: Vec<TxEntry> = Vec::new();
        let mut i: usize = 0;
        while i < layout.len()
            invariant
                i <= layout@.len(),
                (Placed {
                    windows: self@,
                    batches: Seq::empty(),
                    direct: direct@,
                    animated: animated@,
                    entries: entries@,
                }) == all_stepped(start, layout@.take(i as int), pass.skip, apps@),
            decreases layout@.len() - i,
        {
            assert(layout@.take(i + 1).drop_last() =~= layout@.take(i as int));
            let ghost before = self@;
            let t = layout[i];
            assert(layout@.take(i + 1).last() == t);
            i = i + 1;
            if pass.skip == Some(t.wid) || t.unchanged {
                continue;
            }
            let (from, wsid, last) = match self.windows.get(&t.wid) {
                Some(w) => (w.frame_monotonic, w.window_server_id, w.last_sent_txid),
                None => {
                    continue;
                },
            };
            assert(before.windows.dom().contains(t.wid));
            let txid = last.next();
            self.set_txid(t.wid, txid);
            if !apps.contains(&t.wid.pid) {
                continue;
            }
            let ghost entries0 = entries@;
            match wsid {
                Some(id) => {
                    entries.push(TxEntry { wsid: id, txid, target: t.frame });
                },
                None => {},
            }
            assert(entries@ =~= entries0 + before.entry(t, txid));
            if t.shown {
                animated.push(
                    AnimatedWindow { wid: t.wid, start: from, finish: t.frame, is_focus: false, txid },
                );
                let ghost mid = self@;
                self.record_frame(t.wid, t.frame);
                assert(self@ == mid.with_frame(t.wid, t.frame));
            } else {
                direct.push(DirectFrame { wid: t.wid, frame: t.frame, txid });
            }
        }
        assert(layout@.take(i as int) =~= layout@);
        let run = if animated.len() == 0 {
            AnimationRun::Nothing
        } else if pass.is_resize || !pass.animate || pass.low_power {
            AnimationRun::SkipToEnd
        } else {
            AnimationRun::Run
        };
        let batches: Vec<InstantBatch> = Vec::new();
        assert(batch_views(batches@) =~= Seq::empty());
        ScreenPlacement { batches, direct, animated, entries, run, changed: false }
    }

    /// Places the windows of a screen.
    pub fn update_layout(
        &mut self,
        layout: &Vec<LayoutTarget>,
        apps: &VecSet<Pid>,
        pass: LayoutPass,
    ) -> (r: ScreenPlacement)
        ensures
            ({
                let end = screen_placed(old(self)@, layout@, apps@, pass);
                &&& (Placed {
                    windows: final(self)@,
                    batches: batch_views(r.batches@),
                    direct: r.direct@,
                    animated: r.animated@,
                    entries: r.entries@,
                }) == end
                &&& r.run == run_of(pass, end.animated.len() != 0)
                &&& r.changed == (pass.instant && moving(
                    old(self)@,
                    pass.skip,
                    layout@,
                ).len() != 0)
            }),
    {
        if pass.instant {
            proof {
                let targets = moving(self@, pass.skip, layout@);
                lemma_batches_animate_nothing(
                    Placed::start(self@),
                    targets,
                    owners(targets),
                    apps@,
                );
            }
            self.place_at_once(layout, apps, pass.skip)
        } else if pass.has_workspace {
            self.place_animated(layout, apps, pass)
        } else {
            let batches: Vec<InstantBatch> = Vec::new();
            assert(batch_views(batches@) =~= Seq::empty());
            ScreenPlacement {
                batches,
                direct: Vec::new(),
                animated: Vec::new(),
                entries: Vec::new(),
                run: AnimationRun::Nothing,
                changed: false,
            }
        }
    }
}

pub open spec fn run_of(pass: LayoutPass, animated: bool) -> AnimationRun {
    if !animated {
        AnimationRun::Nothing
    } else if pass.is_resize || !pass.animate || pass.low_power {
        AnimationRun::SkipToEnd
    } else {
        AnimationRun::Run
    }
}

proof fn lemma_batches_animate_nothing(
    start: Placed,
    targets: Seq<LayoutTarget>,
    pids: Seq<Pid>,
    apps: Set<Pid>,
)
    ensures
        all_batched(start, targets, pids, apps).animated == start.animated,
    decreases pids.len(),
{
    if pids.len() > 0 {
        lemma_batches_animate_nothing(start, targets, pids.drop_last(), apps);
    }
}

/// A notice to the one who reports window events. While an animation runs, moves and sizes of its
/// windows are not reported.
#[derive(Clone, Copy, Debug, PartialEq, Eq)]
pub enum EventNotice {
    Ignore(CGSEventType, u32),
    Unignore(CGSEventType, u32),
}

/// The notices before and after an animation runs.
#[derive(Debug, PartialEq, Eq)]
pub struct AnimationNotices {
    pub before: Vec<EventNotice>,
    pub after: Vec<EventNotice>,
}

/// For each window in turn: its moves are ignored, then its sizes.
pub open spec fn ignore_notices(windows: Seq<AnimatedWindow>) -> Seq<EventNotice>
    decreases windows.len(),
{
    if windows.len() == 0 {
        Seq::empty()
    } else {
        let idx = windows.last().wid.idx;
        ignore_notices(windows.drop_last()).push(
            EventNotice::Ignore(CGSEventType::WindowMoved, idx),
        ).push(EventNotice::Ignore(CGSEventType::WindowResized, idx))
    }
}

/// For each window in turn: its moves are reported again, then its sizes.
pub open spec fn unignore_notices(windows: Seq<AnimatedWindow>) -> Seq<EventNotice>
    decreases windows.len(),
{
    if windows.len() == 0 {
        Seq::empty()
    } else {
        let idx = windows.last().wid.idx;
        unignore_notices(windows.drop_last()).push(
            EventNotice::Unignore(CGSEventType::WindowMoved, idx),
        ).push(EventNotice::Unignore(CGSEventType::WindowResized, idx))
    }
}

/// The notices around the animation of a screen. There are none where nobody reports window
/// events.
pub fn animation_notices(animated: &Vec<AnimatedWindow>, has_reporter: bool) -> (r:
    AnimationNotices)
    ensures
        r.before@ == (if has_reporter {
            ignore_notices(animated@)
        } else {
            Seq::empty()
        }),
        r.after@ == (if has_reporter {
            unignore_notices(animated@)
        } else {
            Seq::empty()
        }),
{
    let mut before: Vec<EventNotice> = Vec::new();
    let mut after: Vec<EventNotice> = Vec::new();
    if !has_reporter {
        return AnimationNotices { before, after };
    }
    let mut i: usize = 0;
    while i < animated.len()
        invariant
            i <= animated@.len(),
            before@ == ignore_notices(animated@.take(i as int)),
            after@ == unignore_notices(animated@.take(i as int)),
        decreases animated@.len() - i,
    {
        assert(animated@.take(i + 1).drop_last() =~= animated@.take(i as int));
        let idx: u32 = animated[i].wid.idx;
        before.push(EventNotice::Ignore(CGSEventType::WindowMoved, idx));
        before.push(EventNotice::Ignore(CGSEventType::WindowResized, idx));
        after.push(EventNotice::Unignore(CGSEventType::WindowMoved, idx));
        after.push(EventNotice::Unignore(CGSEventType::WindowResized, idx));
        i = i + 1;
    }
    assert(animated@.take(i as int) =~= animated@);
    AnimationNotices { before, after }
}

/// What is ignored while an animation runs is reported again after it: each notice before it has
/// its counterpart at the same place.
pub proof fn ignored_events_are_reported_again(windows: Seq<AnimatedWindow>)
    ensures
        ignore_notices(windows).len() == unignore_notices(windows).len(),
        forall|i: int|
            0 <= i < ignore_notices(windows).len() ==> {
                &&& #[trigger] ignore_notices(windows)[i] is Ignore
                &&& unignore_notices(windows)[i] == EventNotice::Unignore(
                    ignore_notices(windows)[i]->Ignore_0,
                    ignore_notices(windows)[i]->Ignore_1,
                )
            },
    decreases windows.len(),
{
    if windows.len() > 0 {
        let head = windows.drop_last();
        ignored_events_are_reported_again(head);
        assert forall|i: int| 0 <= i < ignore_notices(windows).len() implies {
            &&& #[trigger] ignore_notices(windows)[i] is Ignore
            &&& unignore_notices(windows)[i] == EventNotice::Unignore(
                ignore_notices(windows)[i]->Ignore_0,
                ignore_notices(windows)[i]->Ignore_1,
            )
        } by {
            if i < ignore_notices(head).len() {
                assert(ignore_notices(windows)[i] == ignore_notices(head)[i]);
                assert(unignore_notices(windows)[i] == unignore_notices(head)[i]);
            }
        }
    }
}

impl ScreenPlacement {
    pub open spec fn view(self) -> ScreenOutcome {
        ScreenOutcome {
            batches: batch_views(self.batches@),
            direct: self.direct@,
            animated: self.animated@,
            entries: self.entries@,
            run: self.run,
            changed: self.changed,
        }
    }
}

/// What placing a screen asks for.
#[verifier::ext_equal]
pub struct ScreenOutcome {
    pub batches: Seq<Batch>,
    pub direct: Seq<DirectFrame>,
    pub animated: Seq<AnimatedWindow>,
    pub entries: Seq<TxEntry>,
    pub run: AnimationRun,
    pub changed: bool,
}

/// What placing a screen asks for.
pub open spec fn screen_outcome(
    windows: Windows,
    layout: Seq<LayoutTarget>,
    apps: Set<Pid>,
    pass: LayoutPass,
) -> ScreenOutcome {
    let end = screen_placed(windows, layout, apps, pass);
    ScreenOutcome {
        batches: end.batches,
        direct: end.direct,
        animated: end.animated,
        entries: end.entries,
        run: run_of(pass, end.animated.len() != 0),
        changed: pass.instant && moving(windows, pass.skip, layout).len() != 0,
    }
}

/// A screen and the layout that was computed for it.
pub struct ScreenLayout {
    pub space: Option<SpaceId>,
    /// Whether the space has a workspace that shows.
    pub has_workspace: bool,
    pub layout: Vec<LayoutTarget>,
}

/// What a pass over all screens depends on beyond the reactor.
#[derive(Clone, Copy, Debug, PartialEq, Eq, Structural)]
pub struct PassFacts {
    pub animate: bool,
    pub low_power: bool,
    /// Whether there is a stack line and it is enabled.
    pub stack_line: bool,
    /// Whether there is one who reports window events.
    pub has_reporter: bool,
}

/// What a pass over all screens leads to.
pub struct PassResult {
    /// The steps of the pass; each `Place` stands for the next of `placed`.
    pub steps: Vec<LayoutStep>,
    pub placed: Vec<ScreenPlacement>,
    /// The notices around the animation of each.
    pub notices: Vec<AnimationNotices>,
    /// Whether a window was given another frame at once.
    pub changed: bool,
}

/// The windows once every screen with a space was placed, each with the windows as the one before
/// left them, and what that asks for.
pub open spec fn screens_placed(
    windows: Windows,
    screens: Seq<ScreenLayout>,
    apps: Set<Pid>,
    pass: LayoutPass,
) -> (Windows, Seq<ScreenOutcome>)
    decreases screens.len(),
{
    if screens.len() == 0 {
        (windows, Seq::empty())
    } else {
        let (before, outcomes) = screens_placed(windows, screens.drop_last(), apps, pass);
        let screen = screens.last();
        let own = LayoutPass { has_workspace: screen.has_workspace, ..pass };
        if screen.space is None {
            (before, outcomes)
        } else {
            (
                screen_placed(before, screen.layout@, apps, own).windows,
                outcomes.push(screen_outcome(before, screen.layout@, apps, own)),
            )
        }
    }
}

/// The transactions of several screens, in order.
pub open spec fn entries_of_screens(outcomes: Seq<ScreenOutcome>) -> Seq<TxEntry>
    decreases outcomes.len(),
{
    if outcomes.len() == 0 {
        Seq::empty()
    } else {
        entries_of_screens(outcomes.drop_last()) + outcomes.last().entries
    }
}

pub open spec fn placement_views(placed: Seq<ScreenPlacement>) -> Seq<ScreenOutcome> {
    placed.map_values(|p: ScreenPlacement| p@)
}

pub open spec fn spaces_of(screens: Seq<ScreenLayout>) -> Seq<Option<SpaceId>> {
    screens.map_values(|s: ScreenLayout| s.space)
}

impl Reactor {
    /// The pass that lays out all screens now: the window that was asked to be left alone is, or
    /// the one that is dragged, and windows are placed at once while a workspace is switched.
    pub open spec fn layout_pass(
        self,
        is_resize: bool,
        is_workspace_switch: bool,
        facts: PassFacts,
    ) -> LayoutPass {
        LayoutPass {
            skip: match self.drag_manager.skip_layout_for_window {
                Some(wid) => Some(wid),
                None => self.drag_manager.spec_dragged(),
            },
            instant: is_workspace_switch || self.workspace_switch_manager.active_workspace_switch
                is Some,
            has_workspace: false,
            is_resize,
            animate: facts.animate,
            low_power: facts.low_power,
        }
    }

    /// Lays out all screens in one pass. The window that the pass leaves alone is the same on
    /// every screen, and the pass uses it up.
    pub fn update_layout(
        &mut self,
        screens: &Vec<ScreenLayout>,
        apps: &VecSet<Pid>,
        is_resize: bool,
        is_workspace_switch: bool,
        facts: PassFacts,
    ) -> (r: PassResult)
        ensures
            final(self).drag_manager == (DragManager {
                skip_layout_for_window: None,
                ..old(self).drag_manager
            }),
            (final(self).window_manager@, placement_views(r.placed@)) == screens_placed(
                old(self).window_manager@,
                screens@,
                apps@,
                old(self).layout_pass(is_resize, is_workspace_switch, facts),
            ),
            final(self).transaction_manager@ == (Transactions {
                records: stored(
                    old(self).transaction_manager@.records,
                    entries_of_screens(placement_views(r.placed@)),
                ),
                ..old(self).transaction_manager@
            }),
            r.changed == exists|i: int| 0 <= i < r.placed@.len() && (#[trigger] r.placed@[i]).changed,
            r.steps@ == screen_steps(spaces_of(screens@), facts.stack_line).push(LayoutStep::Menu),
            r.notices@.len() == r.placed@.len(),
            forall|i: int|
                0 <= i < r.notices@.len() ==> {
                    &&& (#[trigger] r.notices@[i]).before@ == (if facts.has_reporter {
                        ignore_notices(r.placed@[i].animated@)
                    } else {
                        Seq::empty()
                    })
                    &&& r.notices@[i].after@ == (if facts.has_reporter {
                        unignore_notices(r.placed@[i].animated@)
                    } else {
                        Seq::empty()
                    })
                },
            old(self).same_but(
                *final(self),
                (Parts { windows: true, transactions: true, drag: true, ..Parts::nothing() }),
            ),
    {
        let ghost before = *self;
        let ghost pass = before.layout_pass(is_resize, is_workspace_switch, facts);
        let skip = self.drag_manager.take_skipped_window();
        let instant: bool = suppresses_animation(
            is_workspace_switch,
            &self.workspace_switch_manager,
        );
        let mut spaces: Vec<Option<SpaceId>> = Vec::new();
        let mut placed: Vec<ScreenPlacement> = Vec::new();
        let mut notices: Vec<AnimationNotices> = Vec::new();
        let mut i: usize = 0;
        assert(placement_views(placed@) =~= Seq::empty());
        assert(spaces@ =~= spaces_of(screens@.take(0)));
        while i < screens.len()
            invariant
                i <= screens@.len(),
                pass == before.layout_pass(is_resize, is_workspace_switch, facts),
                skip == pass.skip,
                instant == pass.instant,
                spaces@ == spaces_of(screens@.take(i as int)),
                (self.window_manager@, placement_views(placed@)) == screens_placed(
                    before.window_manager@,
                    screens@.take(i as int),
                    apps@,
                    pass,
                ),
                self.transaction_manager@ == (Transactions {
                    records: stored(
                        before.transaction_manager@.records,
                        entries_of_screens(placement_views(placed@)),
                    ),
                    ..before.transaction_manager@
                }),
                notices@.len() == placed@.len(),
                forall|k: int|
                    0 <= k < notices@.len() ==> {
                        &&& (#[trigger] notices@[k]).before@ == (if facts.has_reporter {
                            ignore_notices(placed@[k].animated@)
                        } else {
                            Seq::empty()
                        })
                        &&& notices@[k].after@ == (if facts.has_reporter {
                            unignore_notices(placed@[k].animated@)
                        } else {
                            Seq::empty()
                        })
                    },
                self.drag_manager == (DragManager {
                    skip_layout_for_window: None,
                    ..before.drag_manager
                }),
                before.same_but(
                    *self,
                    (Parts { windows: true, transactions: true, drag: true, ..Parts::nothing() }),
                ),
            decreases screens@.len() - i,
        {
            assert(screens@.take(i + 1).drop_last() =~= screens@.take(i as int));
            let screen = &screens[i];
            spaces.push(screen.space);
            assert(spaces@ =~= spaces_of(screens@.take(i + 1)));
            if screen.space.is_some() {
                let own = LayoutPass {
                    skip,
                    instant,
                    has_workspace: screen.has_workspace,
                    is_resize,
                    animate: facts.animate,
                    low_power: facts.low_power,
                };
                let ghost windows0 = self.window_manager@;
                let ghost placed0 = placed@;
                let p = self.window_manager.update_layout(&screen.layout, apps, own);
                self.transaction_manager.update_txid_entries(&p.entries);
                assert(p@ =~= screen_outcome(windows0, screen.layout@, apps@, own));
                notices.push(animation_notices(&p.animated, facts.has_reporter));
                placed.push(p);
                proof {
                    assert(placement_views(placed@) =~= placement_views(placed0).push(p@));
                    assert(placement_views(placed@).drop_last() =~= placement_views(placed0));
                    lemma_stored_in_turn(
                        before.transaction_manager@.records,
                        entries_of_screens(placement_views(placed0)),
                        p.entries@,
                    );
                }
            }
            i = i + 1;
        }
        assert(screens@.take(i as int) =~= screens@);
        let changed: bool = any_frame_changed(&placed);
        let steps = layout_steps(&spaces, facts.stack_line);
        PassResult { steps, placed, notices, changed }
    }

    /// Ends the handling of an event: windows are laid out, unless one is dragged and none is gone,
    /// and a workspace switch that no longer changes anything is over.
    pub fn complete_event(
        &mut self,
        plan: PassPlan,
        screens: &Vec<ScreenLayout>,
        apps: &VecSet<Pid>,
        facts: PassFacts,
    ) -> (r: Completion)
        ensures
            r.pass is Some == (!old(self).drag_manager.in_drag() || plan.window_was_destroyed),
            match r.pass {
                Some(pass) => {
                    &&& final(self).drag_manager == (DragManager {
                        skip_layout_for_window: None,
                        ..old(self).drag_manager
                    })
                    &&& (final(self).window_manager@, placement_views(pass.placed@))
                        == screens_placed(
                        old(self).window_manager@,
                        screens@,
                        apps@,
                        old(self).layout_pass(
                            plan.is_resize,
                            old(self).workspace_switch_manager.workspace_switch_state
                                == WorkspaceSwitchState::Active,
                            facts,
                        ),
                    )
                    &&& final(self).transaction_manager@ == (Transactions {
                        records: stored(
                            old(self).transaction_manager@.records,
                            entries_of_screens(placement_views(pass.placed@)),
                        ),
                        ..old(self).transaction_manager@
                    })
                    &&& pass.changed == exists|i: int|
                        0 <= i < pass.placed@.len() && (#[trigger] pass.placed@[i]).changed
                    &&& pass.steps@ == screen_steps(
                        spaces_of(screens@),
                        facts.stack_line,
                    ).push(LayoutStep::Menu)
                },
                None => old(self).same_but(
                    *final(self),
                    (Parts { workspace_switch: true, notifications: true, ..Parts::nothing() }),
                ),
            },
            final(self).workspace_switch_manager == (WorkspaceSwitchManager {
                workspace_switch_state: WorkspaceSwitchState::Inactive,
                active_workspace_switch: if r.pass is Some && r.pass->0.changed {
                    old(self).workspace_switch_manager.active_workspace_switch
                } else {
                    None
                },
                ..old(self).workspace_switch_manager
            }),
            !plan.update_notifications ==> !r.watch && final(self).notification_manager
                == old(self).notification_manager,
            plan.update_notifications ==> {
                let ids = final(self).notification_manager.last_sls_notification_ids@;
                &&& ascending(ids)
                &&& ids.to_multiset() == final(self).window_manager.window_ids.order().to_multiset()
                &&& r.watch == (ids != old(self).notification_manager.last_sls_notification_ids@)
            },
            old(self).same_but(
                *final(self),
                (Parts {
                    windows: true,
                    transactions: true,
                    drag: true,
                    workspace_switch: true,
                    notifications: true,
                    ..Parts::nothing()
                }),
            ),
    {
        let mut pass: Option<PassResult> = None;
        let mut changed: bool = false;
        if self.lays_out(plan.window_was_destroyed) {
            let is_switch: bool = self.workspace_switch_manager.workspace_switch_state
                == WorkspaceSwitchState::Active;
            let laid_out = self.update_layout(screens, apps, plan.is_resize, is_switch, facts);
            changed = laid_out.changed;
            pass = Some(laid_out);
        }
        let watch: bool = self.finish_event(changed, plan.update_notifications);
        Completion { pass, watch }
    }
}

impl Windows {
    /// The windows once an application took these frames over.
    pub open spec fn with_frames(self, frames: Seq<FrameTarget>) -> Windows
        decreases frames.len(),
    {
        if frames.len() == 0 {
            self
        } else {
            let head = self.with_frames(frames.drop_last());
            let t = frames.last();
            if head.windows.dom().contains(t.wid) {
                head.with_frame(t.wid, t.frame)
            } else {
                head
            }
        }
    }
}

impl WindowManager {
    /// An application was told to give its windows these frames: they have them from now on.
    pub fn record_frames(&mut self, frames: &Vec<FrameTarget>)
        ensures
            final(self)@ == old(self)@.with_frames(frames@),
    {
        let ghost before = self@;
        let mut i: usize = 0;
        while i < frames.len()
            invariant
                i <= frames@.len(),
                self@ == before.with_frames(frames@.take(i as int)),
            decreases frames@.len() - i,
        {
            assert(frames@.take(i + 1).drop_last() =~= frames@.take(i as int));
            let t = frames[i];
            self.record_frame(t.wid, t.frame);
            i = i + 1;
        }
        assert(frames@.take(i as int) =~= frames@);
    }
}

/// What the end of an event depends on.
#[derive(Clone, Copy, Debug, PartialEq, Eq, Structural)]
pub struct PassPlan {
    pub is_resize: bool,
    pub window_was_destroyed: bool,
    /// Whether the set of watched windows may have changed.
    pub update_notifications: bool,
}

/// How an event ended.
pub struct Completion {
    pub pass: Option<PassResult>,
    /// Whether other windows are to be watched.
    pub watch: bool,
}

/// Storing one list of entries after another is storing both.
proof fn lemma_stored_in_turn(
    records: Map<WindowServerId, TxRecord>,
    first: Seq<TxEntry>,
    second: Seq<TxEntry>,
)
    ensures
        stored(stored(records, first), second) == stored(records, first + second),
    decreases second.len(),
{
    if second.len() == 0 {
        assert(first + second =~= first);
    } else {
        lemma_stored_in_turn(records, first, second.drop_last());
        assert((first + second).drop_last() =~= first + second.drop_last());
    }
}

/// One pass uses up the window that it leaves alone, and that window keeps its frame on every
/// screen.
pub proof fn a_skipped_window_keeps_its_frame(
    windows: Windows,
    screens: Seq<ScreenLayout>,
    apps: Set<Pid>,
    pass: LayoutPass,
    wid: WindowId,
)
    requires
        pass.skip == Some(wid),
        windows.windows.dom().contains(wid),
    ensures
        screens_placed(windows, screens, apps, pass).0.windows.dom().contains(wid),
        screens_placed(windows, screens, apps, pass).0.windows[wid].frame_monotonic
            == windows.windows[wid].frame_monotonic,
    decreases screens.len(),
{
    if screens.len() > 0 {
        a_skipped_window_keeps_its_frame(windows, screens.drop_last(), apps, pass, wid);
        let before = screens_placed(windows, screens.drop_last(), apps, pass).0;
        let screen = screens.last();
        let own = LayoutPass { has_workspace: screen.has_workspace, ..pass };
        if own.instant {
            let targets = moving(before, own.skip, screen.layout@);
            lemma_batches_keep_frames(
                Placed::start(before),
                targets,
                owners(targets),
                apps,
                wid,
            );
        } else {
            lemma_steps_keep_frames(Placed::start(before), screen.layout@, own.skip, apps, wid);
        }
    }
}

proof fn lemma_batch_keeps_frames(
    windows: Windows,
    own: Seq<LayoutTarget>,
    txid: TransactionId,
    wid: WindowId,
)
    requires
        windows.windows.dom().contains(wid),
    ensures
        windows.with_batch(own, txid).windows.dom().contains(wid),
        windows.with_batch(own, txid).windows[wid].frame_monotonic
            == windows.windows[wid].frame_monotonic,
    decreases own.len(),
{
    if own.len() > 0 {
        lemma_batch_keeps_frames(windows, own.drop_last(), txid, wid);
    }
}

proof fn lemma_batches_keep_frames(
    start: Placed,
    targets: Seq<LayoutTarget>,
    pids: Seq<Pid>,
    apps: Set<Pid>,
    wid: WindowId,
)
    requires
        start.windows.windows.dom().contains(wid),
    ensures
        all_batched(start, targets, pids, apps).windows.windows.dom().contains(wid),
        all_batched(start, targets, pids, apps).windows.windows[wid].frame_monotonic
            == start.windows.windows[wid].frame_monotonic,
    decreases pids.len(),
{
    if pids.len() > 0 {
        lemma_batches_keep_frames(start, targets, pids.drop_last(), apps, wid);
        let head = all_batched(start, targets, pids.drop_last(), apps);
        let own = targets_of(targets, pids.last());
        lemma_batch_keeps_frames(head.windows, own, head.windows.next_txid(own[0].wid), wid);
    }
}

proof fn lemma_steps_keep_frames(
    start: Placed,
    layout: Seq<LayoutTarget>,
    skip: Option<WindowId>,
    apps: Set<Pid>,
    wid: WindowId,
)
    requires
        skip == Some(wid),
        start.windows.windows.dom().contains(wid),
    ensures
        all_stepped(start, layout, skip, apps).windows.windows.dom().contains(wid),
        all_stepped(start, layout, skip, apps).windows.windows[wid].frame_monotonic
            == start.windows.windows[wid].frame_monotonic,
    decreases layout.len(),
{
    if layout.len() > 0 {
        lemma_steps_keep_frames(start, layout.drop_last(), skip, apps, wid);
    }
}

/// One step of laying out all screens.
#[derive(Clone, Copy, Debug, PartialEq, Eq, Structural)]
pub enum LayoutStep {
    /// The stack line is told the groups of a space.
    Groups(SpaceId),
    /// The windows of a space are placed.
    Place(SpaceId),
    /// The menu is told.
    Menu,
}

/// The steps for screens that show `spaces`: a screen without a space is left out.
pub open spec fn screen_steps(spaces: Seq<Option<SpaceId>>, stack_line: bool) -> Seq<LayoutStep>
    decreases spaces.len(),
{
    if spaces.len() == 0 {
        Seq::empty()
    } else {
        let head = screen_steps(spaces.drop_last(), stack_line);
        match spaces.last() {
            None => head,
            Some(space) => if stack_line {
                head.push(LayoutStep::Groups(space)).push(LayoutStep::Place(space))
            } else {
                head.push(LayoutStep::Place(space))
            },
        }
    }
}

/// The steps that lay out all screens. `stack_line` says whether there is a stack line and it is
/// enabled.
pub fn layout_steps(spaces: &Vec<Option<SpaceId>>, stack_line: bool) -> (r: Vec<LayoutStep>)
    ensures
        r@ == screen_steps(spaces@, stack_line).push(LayoutStep::Menu),
{
    let mut r: Vec<LayoutStep> = Vec::new();
    let mut i: usize = 0;
    while i < spaces.len()
        invariant
            i <= spaces@.len(),
            r@ == screen_steps(spaces@.take(i as int), stack_line),
        decreases spaces@.len() - i,
    {
        assert(spaces@.take(i + 1).drop_last() =~= spaces@.take(i as int));
        match spaces[i] {
            Some(space) => {
                if stack_line {
                    r.push(LayoutStep::Groups(space));
                }
                r.push(LayoutStep::Place(space));
            },
            None => {},
        }
        i = i + 1;
    }
    assert(spaces@.take(i as int) =~= spaces@);
    r.push(LayoutStep::Menu);
    r
}

/// Whether laying out all screens gave a window another frame at once.
pub fn any_frame_changed(placed: &Vec<ScreenPlacement>) -> (r: bool)
    ensures
        r == exists|i: int| 0 <= i < placed@.len() && (#[trigger] placed@[i]).changed,
{
    let mut i: usize = 0;
    while i < placed.len()
        invariant
            i <= placed@.len(),
            forall|k: int| 0 <= k < i ==> !(#[trigger] placed@[k]).changed,
        decreases placed@.len() - i,
    {
        if placed[i].changed {
            assert(placed@[i as int].changed);
            return true;
        }
        i = i + 1;
    }
    false
}

/// Whether windows are placed without animation: for a workspace switch, and while one is under
/// way.
pub fn suppresses_animation(is_workspace_switch: bool, switch: &WorkspaceSwitchManager) -> (r: bool)
    ensures
        r == (is_workspace_switch || switch.active_workspace_switch is Some),
{
    is_workspace_switch || switch.active_workspace_switch.is_some()
}

impl DragManager {
    /// The window that the next layout leaves alone: one that was asked to be, else the one that
    /// is being dragged.
    pub fn take_skipped_window(&mut self) -> (r: Option<WindowId>)
        ensures
            r == (match old(self).skip_layout_for_window {
                Some(wid) => Some(wid),
                None => old(self).spec_dragged(),
            }),
            *final(self) == (DragManager { skip_layout_for_window: None, ..*old(self) }),
    {
        match self.skip_layout_for_window.take() {
            Some(wid) => Some(wid),
            None => self.dragged(),
        }
    }
}

/// Windows of one application on one space that are raised together.
pub struct RaiseGroup {
    pub pid: Pid,
    pub space: Option<SpaceId>,
    pub windows: Vec<WindowId>,
}

/// What is to be raised and focused.
pub struct RaiseRequest {
    pub raise_windows: Vec<RaiseGroup>,
    pub focus_window: Option<WindowId>,
    /// The frame whose middle the pointer is moved to.
    pub warp: Option<Frame>,
    /// The applications that have to be asked.
    pub apps: Vec<Pid>,
}

/// What the layout engine asks for.
pub struct EventResponse {
    pub raise_windows: Vec<WindowId>,
    pub focus_window: Option<WindowId>,
}

/// What is known of the windows when a layout response is followed.
pub struct ResponseFacts {
    /// The space that each window lies in.
    pub spaces: VecMap<WindowId, SpaceId>,
    /// The window under the cursor, if it is known.
    pub under_cursor: Option<WindowId>,
    /// The window of the space to be refocused that had the focus last.
    pub last_focused: Option<WindowId>,
    pub changing_screens: VecSet<WindowServerId>,
    /// The first space that shows.
    pub first_space: Option<SpaceId>,
}

pub open spec fn place_of(spaces: Map<WindowId, SpaceId>, wid: WindowId) -> Option<SpaceId> {
    if spaces.dom().contains(wid) {
        Some(spaces[wid])
    } else {
        None
    }
}

fn get_place(spaces: &VecMap<WindowId, SpaceId>, wid: WindowId) -> (r: Option<SpaceId>)
    ensures
        r == place_of(spaces@, wid),
{
    match spaces.get(&wid) {
        Some(space) => Some(*space),
        None => None,
    }
}

/// Whether the window that had the focus last can have it again.
pub open spec fn can_refocus(
    windows: Windows,
    wid: WindowId,
    space: SpaceId,
    spaces: Map<WindowId, SpaceId>,
    changing: Set<WindowServerId>,
) -> bool {
    &&& windows.windows.dom().contains(wid)
    &&& place_of(spaces, wid) == Some(space)
    &&& windows.windows[wid].window_server_id matches Some(wsid) ==> !changing.contains(wsid)
        && windows.visible.contains(wsid)
}

/// Whether a window keeps the focus that a layout gives it: one that the window server knows must
/// show, and lie in the first space.
pub open spec fn keeps_focus(
    windows: Windows,
    wid: WindowId,
    facts: ResponseFacts,
) -> bool {
    windows.windows.dom().contains(wid) && windows.windows[wid].window_server_id is Some ==> {
        let wsid = windows.windows[wid].window_server_id->0;
        &&& !facts.changing_screens@.contains(wsid)
        &&& windows.visible.contains(wsid)
        &&& place_of(facts.spaces@, wid) is Some
        &&& facts.first_space is Some ==> place_of(facts.spaces@, wid) == facts.first_space
    }
}

impl WindowManager {
    /// The window under the cursor that is to be made the key window, with its owner: one that is
    /// not known, but that the window server knows. `server_info` is what it says when it is asked
    /// for the window.
    pub fn focus_untracked_window_under_cursor(
        &self,
        under_cursor: Option<WindowServerId>,
        server_info: Option<WindowServerInfo>,
    ) -> (r: Option<(Pid, WindowServerId)>)
        ensures
            r == (match under_cursor {
                Some(wsid) => if self@.window_ids.dom().contains(wsid) {
                    None
                } else if self@.server_info.dom().contains(wsid) {
                    Some((self@.server_info[wsid].pid, wsid))
                } else {
                    match server_info {
                        Some(info) => Some((info.pid, wsid)),
                        None => None,
                    }
                },
                None => None,
            }),
    {
        let wsid = match under_cursor {
            Some(wsid) => wsid,
            None => {
                return None;
            },
        };
        if self.window_ids.contains_key(&wsid) {
            return None;
        }
        match self.window_server_info.get(&wsid) {
            Some(info) => Some((info.pid, wsid)),
            None => match server_info {
                Some(info) => Some((info.pid, wsid)),
                None => None,
            },
        }
    }

    /// The window of `space` that had the focus last, if it can have it again.
    pub fn last_focused_window_in_space(
        &self,
        space: SpaceId,
        facts: &ResponseFacts,
    ) -> (r: Option<WindowId>)
        ensures
            r == (if facts.last_focused is Some && can_refocus(
                self@,
                facts.last_focused->0,
                space,
                facts.spaces@,
                facts.changing_screens@,
            ) {
                facts.last_focused
            } else {
                None
            }),
    {
        let wid = match facts.last_focused {
            Some(wid) => wid,
            None => {
                return None;
            },
        };
        let wsid = match self.windows.get(&wid) {
            Some(w) => w.window_server_id,
            None => {
                return None;
            },
        };
        if get_place(&facts.spaces, wid) != Some(space) {
            return None;
        }
        match wsid {
            Some(id) => {
                if facts.changing_screens.contains(&id) || !self.visible_windows.contains(&id) {
                    return None;
                }
            },
            None => {},
        }
        Some(wid)
    }

    fn window_keeps_focus(&self, wid: WindowId, facts: &ResponseFacts) -> (r: bool)
        ensures
            r == keeps_focus(self@, wid, *facts),
    {
        let wsid = match self.windows.get(&wid) {
            Some(w) => match w.window_server_id {
                Some(id) => id,
                None => {
                    return true;
                },
            },
            None => {
                return true;
            },
        };
        if facts.changing_screens.contains(&wsid) || !self.visible_windows.contains(&wsid) {
            return false;
        }
        match get_place(&facts.spaces, wid) {
            Some(space) => match facts.first_space {
                Some(first) => space == first,
                None => true,
            },
            None => false,
        }
    }
}

/// How the focus is found where the layout engine names no window.
#[derive(Clone, Copy, Debug, PartialEq, Eq, Structural)]
pub struct FocusPlan {
    pub focus: Option<WindowId>,
    /// Whether a window under the cursor that is not known is to be focused, if there is one.
    pub try_untracked: bool,
    /// The space that still has to be refocused.
    pub pending: Option<SpaceId>,
}

/// The plan for a response.
pub open spec fn focus_plan(
    windows: Windows,
    switching: bool,
    pending: Option<SpaceId>,
    raises: bool,
    focus: Option<WindowId>,
    facts: ResponseFacts,
) -> FocusPlan {
    if raises || focus is Some {
        FocusPlan { focus, try_untracked: false, pending }
    } else if switching {
        FocusPlan {
            focus: facts.under_cursor,
            try_untracked: facts.under_cursor is None,
            pending,
        }
    } else if pending is Some {
        let last = if facts.last_focused is Some && can_refocus(
            windows,
            facts.last_focused->0,
            pending->0,
            facts.spaces@,
            facts.changing_screens@,
        ) {
            facts.last_focused
        } else {
            None
        };
        if last is Some {
            FocusPlan { focus: last, try_untracked: false, pending: None }
        } else {
            FocusPlan {
                focus: facts.under_cursor,
                try_untracked: facts.under_cursor is None,
                pending: None,
            }
        }
    } else {
        FocusPlan { focus: None, try_untracked: false, pending: None }
    }
}

/// The groups in which windows are raised.
pub open spec fn group_keys(windows: Windows, raise: Seq<WindowId>, spaces: Map<WindowId, SpaceId>)
    -> Seq<(Pid, Option<SpaceId>)>
    decreases raise.len(),
{
    if raise.len() == 0 {
        Seq::empty()
    } else {
        let head = group_keys(windows, raise.drop_last(), spaces);
        let wid = raise.last();
        let key = (wid.pid, place_of(spaces, wid));
        if windows.windows.dom().contains(wid) && !head.contains(key) {
            head.push(key)
        } else {
            head
        }
    }
}

/// The windows of one group.
pub open spec fn group_members(
    windows: Windows,
    raise: Seq<WindowId>,
    spaces: Map<WindowId, SpaceId>,
    key: (Pid, Option<SpaceId>),
) -> Seq<WindowId>
    decreases raise.len(),
{
    if raise.len() == 0 {
        Seq::empty()
    } else {
        let head = group_members(windows, raise.drop_last(), spaces, key);
        let wid = raise.last();
        if windows.windows.dom().contains(wid) && key == (wid.pid, place_of(spaces, wid)) {
            head.push(wid)
        } else {
            head
        }
    }
}

/// Whether `groups` are the groups in which `raise` is raised.
pub open spec fn is_grouping(
    groups: Seq<RaiseGroup>,
    windows: Windows,
    raise: Seq<WindowId>,
    spaces: Map<WindowId, SpaceId>,
) -> bool {
    let keys = group_keys(windows, raise, spaces);
    &&& groups.len() == keys.len()
    &&& forall|i: int|
        0 <= i < groups.len() ==> (#[trigger] groups[i]).pid == keys[i].0 && groups[i].space
            == keys[i].1 && groups[i].windows@ == group_members(windows, raise, spaces, keys[i])
}

/// The applications that own `raise`, each once, that can be asked, and then that of `focus`.
pub open spec fn asked_apps(
    raise: Seq<WindowId>,
    focus: Option<WindowId>,
    apps: Set<Pid>,
) -> Set<Pid> {
    Set::new(
        |p: Pid|
            apps.contains(p) && ((exists|i: int| 0 <= i < raise.len() && (#[trigger] raise[i]).pid
                == p) || (focus is Some && focus->0.pid == p)),
    )
}

fn group_windows(
    windows: &WindowManager,
    raise: &Vec<WindowId>,
    spaces: &VecMap<WindowId, SpaceId>,
) -> (r: Vec<RaiseGroup>)
    ensures
        is_grouping(r@, windows@, raise@, spaces@),
{
    let mut keys: Vec<(Pid, Option<SpaceId>)> = Vec::new();
    let mut i: usize = 0;
    while i < raise.len()
        invariant
            i <= raise@.len(),
            keys@ == group_keys(windows@, raise@.take(i as int), spaces@),
        decreases raise@.len() - i,
    {
        assert(raise@.take(i + 1).drop_last() =~= raise@.take(i as int));
        let wid = raise[i];
        if windows.windows.contains_key(&wid) {
            let space = get_place(spaces, wid);
            if !has_key(&keys, wid.pid, space) {
                keys.push((wid.pid, space));
            }
        }
        i = i + 1;
    }
    assert(raise@.take(i as int) =~= raise@);
    let mut r: Vec<RaiseGroup> = Vec::new();
    let mut k: usize = 0;
    while k < keys.len()
        invariant
            k <= keys@.len(),
            keys@ == group_keys(windows@, raise@, spaces@),
            r@.len() == k,
            forall|j: int|
                0 <= j < k ==> (#[trigger] r@[j]).pid == keys@[j].0 && r@[j].space == keys@[j].1
                    && r@[j].windows@ == group_members(windows@, raise@, spaces@, keys@[j]),
        decreases keys@.len() - k,
    {
        let pid: Pid = keys[k].0;
        let space: Option<SpaceId> = keys[k].1;
        let mut members: Vec<WindowId> = Vec::new();
        let mut m: usize = 0;
        while m < raise.len()
            invariant
                m <= raise@.len(),
                k < keys@.len(),
                keys@[k as int] == (pid, space),
                members@ == group_members(
                    windows@,
                    raise@.take(m as int),
                    spaces@,
                    keys@[k as int],
                ),
            decreases raise@.len() - m,
        {
            assert(raise@.take(m + 1).drop_last() =~= raise@.take(m as int));
            let wid = raise[m];
            if windows.windows.contains_key(&wid) && wid.pid == pid && get_place(spaces, wid)
                == space {
                members.push(wid);
            }
            m = m + 1;
        }
        assert(raise@.take(m as int) =~= raise@);
        r.push(RaiseGroup { pid, space, windows: members });
        k = k + 1;
    }
    r
}

fn has_key(keys: &Vec<(Pid, Option<SpaceId>)>, pid: Pid, space: Option<SpaceId>) -> (r: bool)
    ensures
        r == keys@.contains((pid, space)),
{
    let mut i: usize = 0;
    while i < keys.len()
        invariant
            i <= keys@.len(),
            forall|j: int| 0 <= j < i ==> keys@[j] != (pid, space),
        decreases keys@.len() - i,
    {
        if keys[i].0 == pid && keys[i].1 == space {
            assert(keys@[i as int] == (pid, space));
            return true;
        }
        i = i + 1;
    }
    false
}

fn apps_to_ask(raise: &Vec<WindowId>, focus: Option<WindowId>, apps: &VecSet<Pid>) -> (r: Vec<Pid>)
    ensures
        r@.no_duplicates(),
        forall|p: Pid| #[trigger] r@.contains(p) <==> asked_apps(raise@, focus, apps@).contains(p),
{
    let mut r: Vec<Pid> = Vec::new();
    let mut i: usize = 0;
    while i < raise.len()
        invariant
            i <= raise@.len(),
            r@.no_duplicates(),
            forall|p: Pid| #[trigger]
                r@.contains(p) <==> apps@.contains(p) && exists|j: int|
                    0 <= j < i && (#[trigger] raise@[j]).pid == p,
        decreases raise@.len() - i,
    {
        let pid: Pid = raise[i].pid;
        assert(raise@[i as int].pid == pid);
        if apps.contains(&pid) && !contains(&r, &pid) {
            proof {
                crate::collections::lemma_push_new(r@, pid);
                crate::collections::lemma_push_contains(r@, pid);
            }
            r.push(pid);
        }
        i = i + 1;
    }
    match focus {
        Some(wid) => {
            if apps.contains(&wid.pid) && !contains(&r, &wid.pid) {
                proof {
                    crate::collections::lemma_push_new(r@, wid.pid);
                    crate::collections::lemma_push_contains(r@, wid.pid);
                }
                r.push(wid.pid);
            }
        },
        None => {},
    }
    r
}

/// The focus and refocus state while a response is followed.
#[derive(Clone, Copy, Debug, PartialEq, Eq, Structural)]
pub enum ResponseStep {
    /// Nothing is left to do.
    Done,
    /// Find the focus as planned.
    Plan(FocusPlan),
}

/// Begins to follow a layout response. While a window is dragged it is not followed at all.
pub fn begin_layout_response(
    windows: &WindowManager,
    refocus: &mut RefocusManager,
    switch: &mut WorkspaceSwitchManager,
    in_drag: bool,
    response: &EventResponse,
    facts: &ResponseFacts,
) -> (r: ResponseStep)
    ensures
        if in_drag {
            &&& r == ResponseStep::Done
            &&& *final(refocus) == *old(refocus)
            &&& *final(switch) == (WorkspaceSwitchManager {
                workspace_switch_state: WorkspaceSwitchState::Inactive,
                ..*old(switch)
            })
        } else {
            &&& *final(switch) == *old(switch)
            &&& *final(refocus) == (RefocusManager {
                refocus_state: RefocusState::Idle,
                ..*old(refocus)
            })
            &&& r == ResponseStep::Plan(
                focus_plan(
                    windows@,
                    old(switch).workspace_switch_state == WorkspaceSwitchState::Active,
                    match old(refocus).refocus_state {
                        RefocusState::Pending(space) => Some(space),
                        RefocusState::Idle => None,
                    },
                    response.raise_windows@.len() != 0,
                    response.focus_window,
                    *facts,
                ),
            )
        },
{
    if in_drag {
        switch.workspace_switch_state = WorkspaceSwitchState::Inactive;
        return ResponseStep::Done;
    }
    let pending = refocus.take_pending();
    if response.raise_windows.len() != 0 || response.focus_window.is_some() {
        return ResponseStep::Plan(
            FocusPlan { focus: response.focus_window, try_untracked: false, pending },
        );
    }
    if switch.workspace_switch_state == WorkspaceSwitchState::Active {
        return ResponseStep::Plan(
            FocusPlan {
                focus: facts.under_cursor,
                try_untracked: facts.under_cursor.is_none(),
                pending,
            },
        );
    }
    match pending {
        Some(space) => {
            let last = windows.last_focused_window_in_space(space, facts);
            if last.is_some() {
                ResponseStep::Plan(FocusPlan { focus: last, try_untracked: false, pending: None })
            } else {
                ResponseStep::Plan(
                    FocusPlan {
                        focus: facts.under_cursor,
                        try_untracked: facts.under_cursor.is_none(),
                        pending: None,
                    },
                )
            }
        },
        None => ResponseStep::Plan(FocusPlan { focus: None, try_untracked: false, pending: None }),
    }
}

/// The window that is focused in the end.
pub open spec fn focused_in_end(
    windows: Windows,
    plan: FocusPlan,
    facts: ResponseFacts,
) -> Option<WindowId> {
    if plan.focus is Some && keeps_focus(windows, plan.focus->0, facts) {
        plan.focus
    } else {
        None
    }
}

/// Follows a layout response to its end; `untracked_focused` says whether a window that is not
/// known was focused as planned.
pub fn handle_layout_response(
    windows: &WindowManager,
    refocus: &mut RefocusManager,
    switch: &mut WorkspaceSwitchManager,
    response: &EventResponse,
    plan: FocusPlan,
    untracked_focused: bool,
    apps: &VecSet<Pid>,
    mouse_follows_focus: bool,
    facts: &ResponseFacts,
) -> (r: Option<RaiseRequest>)
    ensures
        ({
            let raises = response.raise_windows@.len() != 0;
            let focus = focused_in_end(windows@, plan, *facts);
            let handled = plan.try_untracked && untracked_focused;
            if handled && !raises && focus is None {
                &&& r is None
                &&& *final(refocus) == *old(refocus)
                &&& *final(switch) == (WorkspaceSwitchManager {
                    workspace_switch_state: WorkspaceSwitchState::Inactive,
                    ..*old(switch)
                })
            } else {
                &&& *final(switch) == *old(switch)
                &&& *final(refocus) == (if plan.pending is Some && old(refocus).refocus_state
                    == RefocusState::Idle {
                    RefocusManager {
                        refocus_state: RefocusState::Pending(plan.pending->0),
                        ..*old(refocus)
                    }
                } else {
                    *old(refocus)
                })
                &&& r is None <==> !raises && focus is None && old(switch).workspace_switch_state
                    == WorkspaceSwitchState::Inactive
                &&& r is Some ==> {
                    &&& is_grouping(
                        r->0.raise_windows@,
                        windows@,
                        response.raise_windows@,
                        facts.spaces@,
                    )
                    &&& r->0.focus_window == focus
                    &&& r->0.warp == (if mouse_follows_focus && focus is Some
                        && windows@.windows.dom().contains(focus->0) {
                        Some(windows@.windows[focus->0].frame_monotonic)
                    } else {
                        None
                    })
                    &&& r->0.apps@.no_duplicates()
                    &&& forall|p: Pid| #[trigger]
                        r->0.apps@.contains(p) <==> asked_apps(
                            response.raise_windows@,
                            response.focus_window,
                            apps@,
                        ).contains(p)
                }
            }
        }),
{
    let focus: Option<WindowId> = match plan.focus {
        Some(wid) => if windows.window_keeps_focus(wid, facts) {
            Some(wid)
        } else {
            None
        },
        None => None,
    };
    if plan.try_untracked && untracked_focused && response.raise_windows.len() == 0
        && focus.is_none() {
        switch.workspace_switch_state = WorkspaceSwitchState::Inactive;
        return None;
    }
    match plan.pending {
        Some(space) => {
            if refocus.refocus_state == RefocusState::Idle {
                refocus.refocus_state = RefocusState::Pending(space);
            }
        },
        None => {},
    }
    if response.raise_windows.len() == 0 && focus.is_none() && switch.workspace_switch_state
        == WorkspaceSwitchState::Inactive {
        return None;
    }
    let warp: Option<Frame> = if mouse_follows_focus {
        match focus {
            Some(wid) => match windows.windows.get(&wid) {
                Some(w) => Some(w.frame_monotonic),
                None => None,
            },
            None => None,
        }
    } else {
        None
    };
    let groups = group_windows(windows, &response.raise_windows, &facts.spaces);
    let asked = apps_to_ask(&response.raise_windows, response.focus_window, apps);
    Some(RaiseRequest { raise_windows: groups, focus_window: focus, warp, apps: asked })
}

/// Raises one window and gives it the focus.
pub fn raise_window(wid: WindowId, warp: Option<Frame>, apps: &VecSet<Pid>) -> (r: RaiseRequest)
    ensures
        r.focus_window == Some(wid),
        r.warp == warp,
        r.raise_windows@.len() == 1,
        r.raise_windows@[0].pid == wid.pid,
        r.raise_windows@[0].windows@ == seq![wid],
        r.apps@ == (if apps@.contains(wid.pid) {
            seq![wid.pid]
        } else {
            Seq::empty()
        }),
{
    let mut windows: Vec<WindowId> = Vec::new();
    windows.push(wid);
    assert(windows@ =~= seq![wid]);
    let mut raise_windows: Vec<RaiseGroup> = Vec::new();
    raise_windows.push(RaiseGroup { pid: wid.pid, space: None, windows });
    let mut asked: Vec<Pid> = Vec::new();
    if apps.contains(&wid.pid) {
        asked.push(wid.pid);
    }
    assert(asked@ =~= (if apps@.contains(wid.pid) {
        seq![wid.pid]
    } else {
        Seq::empty()
    }));
    RaiseRequest { raise_windows, focus_window: Some(wid), warp, apps: asked }
}

/// Whether a refocus is due after the layout engine was told of `event`. `active_workspace` is
/// the workspace that shows on the space of the event, `workspaces` those of its windows.
pub fn prepare_refocus_after_layout_event(
    refocus: &mut RefocusManager,
    event: &LayoutEvent,
    active_workspace: Option<u64>,
    workspaces: &Vec<Option<u64>>,
)
    ensures
        *final(refocus) == (match *event {
            LayoutEvent::WindowAdded(space, _) => if hides_one(
                active_workspace,
                workspaces@.take(if workspaces@.len() == 0 { 0 } else { 1 }),
            ) {
                RefocusManager { refocus_state: RefocusState::Pending(space), ..*old(refocus) }
            } else {
                *old(refocus)
            },
            LayoutEvent::WindowsOnScreenUpdated(space, _, _, _) => if hides_one(
                active_workspace,
                workspaces@,
            ) {
                RefocusManager { refocus_state: RefocusState::Pending(space), ..*old(refocus) }
            } else {
                *old(refocus)
            },
            _ => *old(refocus),
        }),
{
    match event {
        LayoutEvent::WindowAdded(space, _) => {
            if workspaces.len() > 0 {
                refocus.request_refocus_if_hidden(*space, active_workspace, workspaces[0]);
                proof {
                    let one = workspaces@.take(1);
                    assert(one[0] == workspaces@[0]);
                }
            }
        },
        LayoutEvent::WindowsOnScreenUpdated(space, _, _, _) => {
            refocus.request_refocus_if_any_hidden(*space, active_workspace, workspaces);
        },
        _ => {},
    }
}

/// Whether one of `workspaces` is not the one that shows.
pub open spec fn hides_one(active: Option<u64>, workspaces: Seq<Option<u64>>) -> bool {
    active is Some && exists|i: int|
        0 <= i < workspaces.len() && (#[trigger] workspaces[i]) is Some && workspaces[i] != active
}

/// How long, in milliseconds, a workspace switch that an activated application caused is not
/// undone by another.
pub const AUTO_SWITCH_BOUNCE_MS: u64 = 300;

/// What is known when an application was activated.
pub struct ActivationFacts {
    /// The space that each window lies in.
    pub spaces: VecMap<WindowId, SpaceId>,
    /// The workspace of each window, in its space.
    pub window_workspaces: VecMap<WindowId, u64>,
    /// The workspace that shows on each space.
    pub active_workspaces: VecMap<SpaceId, u64>,
    /// The spaces that show.
    pub visible_spaces: VecSet<SpaceId>,
    pub bundle_id: Option<String>,
    /// The applications, by bundle, that never switch the workspace.
    pub blacklist: Vec<String>,
    pub now: u64,
}

impl ActivationFacts {
    /// Whether a window is in the workspace that shows on its space.
    pub open spec fn shows(self, wid: WindowId) -> bool {
        &&& self.spaces@.dom().contains(wid)
        &&& self.visible_spaces@.contains(self.spaces@[wid])
        &&& self.active_workspaces@.dom().contains(self.spaces@[wid])
        &&& self.window_workspaces@.dom().contains(wid)
        &&& self.active_workspaces@[self.spaces@[wid]] == self.window_workspaces@[wid]
    }

    fn window_shows(&self, wid: WindowId) -> (r: bool)
        ensures
            r == self.shows(wid),
    {
        match self.spaces.get(&wid) {
            Some(space) => {
                if !self.visible_spaces.contains(space) {
                    return false;
                }
                match (self.active_workspaces.get(space), self.window_workspaces.get(&wid)) {
                    (Some(active), Some(own)) => *active == *own,
                    _ => false,
                }
            },
            None => false,
        }
    }

    pub open spec fn is_blacklisted(self) -> bool {
        self.bundle_id is Some && exists|i: int|
            0 <= i < self.blacklist@.len() && (#[trigger] self.blacklist@[i])@
                == self.bundle_id->0@
    }

    fn blacklisted(&self) -> (r: bool)
        ensures
            r == self.is_blacklisted(),
    {
        match &self.bundle_id {
            Some(bundle) => {
                let mut i: usize = 0;
                while i < self.blacklist.len()
                    invariant
                        i <= self.blacklist@.len(),
                        self.bundle_id == Some(*bundle),
                        forall|j: int|
                            0 <= j < i ==> (#[trigger] self.blacklist@[j])@ != bundle@,
                    decreases self.blacklist@.len() - i,
                {
                    if same_text(self.blacklist[i].as_str(), bundle.as_str()) {
                        assert(self.blacklist@[i as int]@ == bundle@);
                        return true;
                    }
                    i = i + 1;
                }
                false
            },
            None => false,
        }
    }
}

/// Whether a switch would undo the last automatic one too soon.
pub open spec fn bounces(
    last: Option<AutoWorkspaceSwitch>,
    space: SpaceId,
    current: u64,
    wanted: u64,
    now: u64,
) -> bool {
    last matches Some(l) && l.space == space && l.to_workspace == current && l.from_workspace
        == Some(wanted) && now - l.occurred_at < AUTO_SWITCH_BOUNCE_MS
}

/// A workspace switch that follows an activated application.
#[derive(Clone, Copy, Debug, PartialEq, Eq, Structural)]
pub struct AutoSwitch {
    pub space: SpaceId,
    pub from: u64,
    pub to: u64,
}

impl WindowManager {
    /// Whether the windows of an application make no switch necessary: one of them shows.
    fn app_shows(&self, pid: Pid, facts: &ActivationFacts) -> (r: bool)
        ensures
            r == exists|w: WindowId| #[trigger]
                self@.windows.dom().contains(w) && w.pid == pid && facts.shows(w),
    {
        let keys = self.windows.keys();
        let mut i: usize = 0;
        while i < keys.len()
            invariant
                i <= keys@.len(),
                forall|w: WindowId| keys@.contains(w) <==> self@.windows.dom().contains(w),
                forall|j: int|
                    0 <= j < i ==> !((#[trigger] keys@[j]).pid == pid && facts.shows(keys@[j])),
            decreases keys@.len() - i,
        {
            if keys[i].pid == pid && facts.window_shows(keys[i]) {
                assert(keys@.contains(keys@[i as int]));
                assert(self@.windows.dom().contains(keys@[i as int]));
                return true;
            }
            i = i + 1;
        }
        assert forall|w: WindowId| #[trigger] self@.windows.dom().contains(w) implies !(w.pid == pid
            && facts.shows(w)) by {
            assert(keys@.contains(w));
            let j = keys@.index_of(w);
            assert(keys@[j] == w);
        }
        false
    }

    /// A window of an application that can be managed, if it has one.
    fn standard_window_of(&self, pid: Pid) -> (r: Option<WindowId>)
        ensures
            match r {
                Some(w) => self@.windows.dom().contains(w) && w.pid == pid && self@.is_standard(w),
                None => forall|w: WindowId| #[trigger]
                    self@.windows.dom().contains(w) && w.pid == pid ==> !self@.is_standard(w),
            },
    {
        let keys = self.windows.keys();
        let mut i: usize = 0;
        while i < keys.len()
            invariant
                i <= keys@.len(),
                forall|w: WindowId| keys@.contains(w) <==> self@.windows.dom().contains(w),
                forall|j: int|
                    0 <= j < i ==> !((#[trigger] keys@[j]).pid == pid && self@.is_standard(
                        keys@[j],
                    )),
            decreases keys@.len() - i,
        {
            if keys[i].pid == pid && self.window_is_standard(keys[i]) {
                assert(keys@.contains(keys@[i as int]));
                return Some(keys[i]);
            }
            i = i + 1;
        }
        assert forall|w: WindowId| #[trigger]
            self@.windows.dom().contains(w) && w.pid == pid implies !self@.is_standard(w) by {
            assert(keys@.contains(w));
            let j = keys@.index_of(w);
            assert(keys@[j] == w);
        }
        None
    }
}

/// Whether `r` is what an activated application leads to.
pub open spec fn is_auto_switch(
    windows: Windows,
    pid: Pid,
    switch: WorkspaceSwitchManager,
    facts: ActivationFacts,
    r: Option<AutoSwitch>,
) -> bool {
    let busy = switch.active_workspace_switch is Some;
    let shown = exists|w: WindowId| #[trigger]
        windows.windows.dom().contains(w) && w.pid == pid && facts.shows(w);
    if busy || shown || facts.bundle_id is None || facts.is_blacklisted() {
        r is None
    } else if forall|w: WindowId| #[trigger]
        windows.windows.dom().contains(w) && w.pid == pid ==> !windows.is_standard(w) {
        r is None
    } else {
        exists|w: WindowId| #[trigger]
            windows.windows.dom().contains(w) && w.pid == pid && windows.is_standard(w)
                && r == switch_for(w, switch, facts)
    }
}

/// The switch that brings a window into view.
pub open spec fn switch_for(
    wid: WindowId,
    switch: WorkspaceSwitchManager,
    facts: ActivationFacts,
) -> Option<AutoSwitch> {
    if facts.spaces@.dom().contains(wid) && facts.window_workspaces@.dom().contains(wid)
        && facts.active_workspaces@.dom().contains(facts.spaces@[wid]) {
        let space = facts.spaces@[wid];
        let wanted = facts.window_workspaces@[wid];
        let current = facts.active_workspaces@[space];
        if wanted == current || bounces(
            switch.last_auto_workspace_switch,
            space,
            current,
            wanted,
            facts.now,
        ) {
            None
        } else {
            Some(AutoSwitch { space, from: current, to: wanted })
        }
    } else {
        None
    }
}

/// Whether the workspace is switched because an application was activated, and to which.
pub fn handle_app_activation_workspace_switch(
    windows: &WindowManager,
    pid: Pid,
    switch: &WorkspaceSwitchManager,
    facts: &ActivationFacts,
) -> (r: Option<AutoSwitch>)
    ensures
        is_auto_switch(windows@, pid, *switch, *facts, r),
{
    if switch.active_workspace_switch.is_some() {
        return None;
    }
    if windows.app_shows(pid, facts) {
        return None;
    }
    if facts.bundle_id.is_none() || facts.blacklisted() {
        return None;
    }
    let wid = match windows.standard_window_of(pid) {
        Some(wid) => wid,
        None => {
            return None;
        },
    };
    assert(windows@.windows.dom().contains(wid));
    let space: SpaceId = match facts.spaces.get(&wid) {
        Some(space) => *space,
        None => {
            return None;
        },
    };
    let wanted: u64 = match facts.window_workspaces.get(&wid) {
        Some(workspace) => *workspace,
        None => {
            return None;
        },
    };
    let current: u64 = match facts.active_workspaces.get(&space) {
        Some(workspace) => *workspace,
        None => {
            return None;
        },
    };
    if wanted == current {
        return None;
    }
    match switch.last_auto_workspace_switch {
        Some(last) => {
            let soon: bool = facts.now < last.occurred_at || facts.now - last.occurred_at
                < AUTO_SWITCH_BOUNCE_MS;
            if last.space == space && last.to_workspace == current && last.from_workspace == Some(
                wanted,
            ) && soon {
                return None;
            }
        },
        None => {},
    }
    Some(AutoSwitch { space, from: current, to: wanted })
}

impl WorkspaceSwitchManager {
    /// A workspace is switched because an application was activated.
    pub fn begin_auto_switch(&mut self, auto: AutoSwitch, now: u64)
        ensures
            *final(self) == (WorkspaceSwitchManager {
                workspace_switch_state: WorkspaceSwitchState::Active,
                workspace_switch_generation: old(self).next_generation(),
                active_workspace_switch: Some(old(self).next_generation()),
                last_auto_workspace_switch: Some(
                    AutoWorkspaceSwitch {
                        occurred_at: now,
                        space: auto.space,
                        from_workspace: Some(auto.from),
                        to_workspace: auto.to,
                    },
                ),
            }),
    {
        self.last_auto_workspace_switch = Some(
            AutoWorkspaceSwitch {
                occurred_at: now,
                space: auto.space,
                from_workspace: Some(auto.from),
                to_workspace: auto.to,
            },
        );
        self.begin_switch();
        self.workspace_switch_state = WorkspaceSwitchState::Active;
    }
}

/// The position of `workspace` among those of its space.
pub fn workspace_index(workspaces: &Vec<u64>, workspace: u64) -> (r: Option<usize>)
    ensures
        match r {
            Some(i) => i < workspaces@.len() && workspaces@[i as int] == workspace && forall|j: int|
                0 <= j < i ==> workspaces@[j] != workspace,
            None => !workspaces@.contains(workspace),
        },
{
    let mut i: usize = 0;
    while i < workspaces.len()
        invariant
            i <= workspaces@.len(),
            forall|j: int| 0 <= j < i ==> workspaces@[j] != workspace,
        decreases workspaces@.len() - i,
    {
        if workspaces[i] == workspace {
            return Some(i);
        }
        i = i + 1;
    }
    None
}

/// The space that workspace commands go to: that of the main window, else the active one, else
/// the first that shows.
pub fn workspace_command_space(
    main_window_space: Option<SpaceId>,
    active_space: Option<SpaceId>,
    screens: &Vec<Screen>,
) -> (r: Option<SpaceId>)
    ensures
        r == (if main_window_space is Some {
            main_window_space
        } else if active_space is Some {
            active_space
        } else {
            first_screen_space(screens@)
        }),
{
    if main_window_space.is_some() {
        main_window_space
    } else if active_space.is_some() {
        active_space
    } else {
        first_space_on(screens)
    }
}

/// The floating windows among `members`, with their frames.
pub open spec fn floating_frames(
    windows: Windows,
    members: Seq<WindowId>,
    floating: Set<WindowId>,
) -> Seq<FrameTarget>
    decreases members.len(),
{
    if members.len() == 0 {
        Seq::empty()
    } else {
        let head = floating_frames(windows, members.drop_last(), floating);
        let wid = members.last();
        if floating.contains(wid) && windows.windows.dom().contains(wid) {
            head.push(FrameTarget { wid, frame: windows.windows[wid].frame_monotonic })
        } else {
            head
        }
    }
}

/// The positions of floating windows that are kept when their workspace is left.
pub fn store_current_floating_positions(
    windows: &WindowManager,
    members: &Vec<WindowId>,
    floating: &VecSet<WindowId>,
) -> (r: Vec<FrameTarget>)
    ensures
        r@ == floating_frames(windows@, members@, floating@),
{
    let mut r: Vec<FrameTarget> = Vec::new();
    let mut i: usize = 0;
    while i < members.len()
        invariant
            i <= members@.len(),
            r@ == floating_frames(windows@, members@.take(i as int), floating@),
        decreases members@.len() - i,
    {
        assert(members@.take(i + 1).drop_last() =~= members@.take(i as int));
        let wid = members[i];
        if floating.contains(&wid) {
            match windows.windows.get(&wid) {
                Some(w) => {
                    r.push(FrameTarget { wid, frame: w.frame_monotonic });
                },
                None => {},
            }
        }
        i = i + 1;
    }
    assert(members@.take(i as int) =~= members@);
    r
}

/// The window that a layout leaves alone has no transaction begun and keeps its frame.
pub proof fn a_skipped_window_is_left_alone(
    start: Placed,
    layout: Seq<LayoutTarget>,
    wid: WindowId,
    apps: Set<Pid>,
)
    ensures
        all_stepped(start, layout, Some(wid), apps).windows.windows.dom().contains(wid)
            == start.windows.windows.dom().contains(wid),
        start.windows.windows.dom().contains(wid) ==> all_stepped(
            start,
            layout,
            Some(wid),
            apps,
        ).windows.windows[wid] == start.windows.windows[wid],
    decreases layout.len(),
{
    if layout.len() > 0 {
        a_skipped_window_is_left_alone(start, layout.drop_last(), wid, apps);
    }
}

/// All windows that an application is asked to place at once share one transaction.
pub proof fn windows_placed_together_share_a_transaction(
    windows: Windows,
    own: Seq<LayoutTarget>,
    txid: TransactionId,
    i: int,
)
    requires
        0 <= i < own.len(),
        forall|k: int|
            0 <= k < own.len() ==> windows.windows.dom().contains((#[trigger] own[k]).wid),
    ensures
        windows.with_batch(own, txid).windows[own[i].wid].last_sent_txid == txid,
    decreases own.len(),
{
    let head = own.drop_last();
    if i < own.len() - 1 {
        assert forall|k: int| 0 <= k < head.len() implies windows.windows.dom().contains(
            (#[trigger] head[k]).wid,
        ) by {
            assert(head[k] == own[k]);
        }
        assert(head[i] == own[i]);
        windows_placed_together_share_a_transaction(windows, head, txid, i);
    }
}

/// A switch back that would come too soon after an automatic one is not made.
pub proof fn automatic_switches_do_not_oscillate(
    auto: AutoSwitch,
    switch: WorkspaceSwitchManager,
    facts: ActivationFacts,
    wid: WindowId,
    at: u64,
)
    requires
        switch.last_auto_workspace_switch == Some(
            AutoWorkspaceSwitch {
                occurred_at: at,
                space: auto.space,
                from_workspace: Some(auto.from),
                to_workspace: auto.to,
            },
        ),
        facts.spaces@.dom().contains(wid),
        facts.spaces@[wid] == auto.space,
        facts.window_workspaces@.dom().contains(wid),
        facts.window_workspaces@[wid] == auto.from,
        facts.active_workspaces@.dom().contains(auto.space),
        facts.active_workspaces@[auto.space] == auto.to,
        facts.now - at < AUTO_SWITCH_BOUNCE_MS,
    ensures
        switch_for(wid, switch, facts) is None,
{
}

/// Once a workspace switch is under way, an activated application starts no other.
pub proof fn one_switch_at_a_time(
    windows: Windows,
    pid: Pid,
    switch: WorkspaceSwitchManager,
    facts: ActivationFacts,
    r: Option<AutoSwitch>,
)
    requires
        switch.active_workspace_switch is Some,
        is_auto_switch(windows, pid, switch, facts, r),
    ensures
        r is None,
{
}

/// A layout moves exactly the known windows that it gives another frame, but the one to leave
/// alone; each of them as often as it is listed.
pub proof fn windows_with_another_frame_are_moved(
    windows: Windows,
    skip: Option<WindowId>,
    layout: Seq<LayoutTarget>,
    t: LayoutTarget,
)
    ensures
        moving(windows, skip, layout).contains(t) <==> layout.contains(t) && skip != Some(t.wid)
            && windows.windows.dom().contains(t.wid) && !t.unchanged,
    decreases layout.len(),
{
    if layout.len() > 0 {
        let head = layout.drop_last();
        windows_with_another_frame_are_moved(windows, skip, head, t);
        assert(layout =~= head.push(layout.last()));
        crate::collections::lemma_push_contains(head, layout.last());
        crate::collections::lemma_push_contains(moving(windows, skip, head), layout.last());
    }
}

/// Whether `b` is the only batch of its application and asks each of `own` for its own frame, in
/// order.
pub open spec fn asks_each_for_its_frame(
    batches: Seq<Batch>,
    b: int,
    pid: Pid,
    own: Seq<LayoutTarget>,
) -> bool {
    &&& 0 <= b < batches.len()
    &&& batches[b].pid == pid
    &&& batches[b].positions.len() == 0
    &&& batches[b].frames.len() == own.len()
    &&& forall|i: int|
        0 <= i < own.len() ==> (#[trigger] batches[b].frames[i]).wid == own[i].wid
            && batches[b].frames[i].frame == own[i].frame
    &&& forall|c: int| 0 <= c < batches.len() && c != b ==> (#[trigger] batches[c]).pid != pid
}

proof fn lemma_batches_of_pids(
    start: Placed,
    targets: Seq<LayoutTarget>,
    pids: Seq<Pid>,
    apps: Set<Pid>,
    pid: Pid,
)
    requires
        pids.no_duplicates(),
        start.batches.len() == 0,
    ensures
        pids.contains(pid) && apps.contains(pid) ==> exists|b: int| #[trigger]
            asks_each_for_its_frame(
                all_batched(start, targets, pids, apps).batches,
                b,
                pid,
                targets_of(targets, pid),
            ),
        !(pids.contains(pid) && apps.contains(pid)) ==> forall|c: int|
            0 <= c < all_batched(start, targets, pids, apps).batches.len() ==> (
            #[trigger] all_batched(start, targets, pids, apps).batches[c]).pid != pid,
        all_batched(start, targets, pids, apps).direct == start.direct,
        all_batched(start, targets, pids, apps).animated == start.animated,
    decreases pids.len(),
{
    if pids.len() > 0 {
        let head = pids.drop_last();
        let last = pids.last();
        let n = pids.len() - 1;
        assert(forall|k: int| 0 <= k < n ==> head[k] == pids[k]);
        assert(head.no_duplicates()) by {
            assert forall|i: int, j: int|
                0 <= i < head.len() && 0 <= j < head.len() && i != j implies head[i] != head[j] by {
                assert(pids[i] != pids[j]);
            }
        }
        lemma_batches_of_pids(start, targets, head, apps, pid);
        lemma_batches_of_pids(start, targets, head, apps, last);
        assert(pids =~= head.push(last));
        crate::collections::lemma_push_contains(head, last);
        let before = all_batched(start, targets, head, apps).batches;
        let batches = all_batched(start, targets, pids, apps).batches;
        assert(!head.contains(last)) by {
            if head.contains(last) {
                let i = head.index_of(last);
                assert(pids[i] != pids[n]);
            }
        }
        assert forall|c: int| 0 <= c < before.len() implies before[c] == batches[c] by {}
        if pids.contains(pid) && apps.contains(pid) {
            let own = targets_of(targets, pid);
            if pid == last {
                let b = before.len() as int;
                crate::reactor::animation::each_window_is_asked_for_its_own_frame(own);
                assert forall|c: int| 0 <= c < batches.len() && c != b implies (
                #[trigger] batches[c]).pid != pid by {
                    assert(batches[c] == before[c]);
                }
                assert(asks_each_for_its_frame(batches, b, pid, own));
            } else {
                let b = choose|b: int| #[trigger] asks_each_for_its_frame(before, b, pid, own);
                assert(batches[b] == before[b]);
                assert forall|c: int| 0 <= c < batches.len() && c != b implies (
                #[trigger] batches[c]).pid != pid by {
                    if c < before.len() {
                        assert(batches[c] == before[c]);
                    }
                }
                assert(asks_each_for_its_frame(batches, b, pid, own));
            }
        } else {
            assert forall|c: int| 0 <= c < batches.len() implies (
            #[trigger] batches[c]).pid != pid by {
                if c < before.len() {
                    assert(batches[c] == before[c]);
                }
            }
        }
    }
}

/// Where a screen is placed at once, each known application with a window to move gets one batch,
/// which asks each of its windows for the frame that the layout gives that window; nothing else is
/// asked of anyone.
pub proof fn screens_placed_at_once_ask_each_window_for_its_frame(
    windows: Windows,
    layout: Seq<LayoutTarget>,
    apps: Set<Pid>,
    pass: LayoutPass,
    pid: Pid,
)
    requires
        pass.instant,
    ensures
        ({
            let end = screen_placed(windows, layout, apps, pass);
            let own = targets_of(moving(windows, pass.skip, layout), pid);
            let moves = exists|i: int|
                0 <= i < layout.len() && (#[trigger] layout[i]).wid.pid == pid
                    && !layout[i].unchanged && pass.skip != Some(layout[i].wid)
                    && windows.windows.dom().contains(layout[i].wid);
            &&& end.direct.len() == 0 && end.animated.len() == 0
            &&& moves && apps.contains(pid) ==> exists|b: int| #[trigger]
                asks_each_for_its_frame(end.batches, b, pid, own)
            &&& !(moves && apps.contains(pid)) ==> forall|c: int|
                0 <= c < end.batches.len() ==> (#[trigger] end.batches[c]).pid != pid
        }),
{
    let targets = moving(windows, pass.skip, layout);
    crate::reactor::animation::applications_own_the_targets_of_their_windows(
        targets,
        pid,
        targets[0],
    );
    lemma_batches_of_pids(Placed::start(windows), targets, owners(targets), apps, pid);
    if owners(targets).contains(pid) {
        let k = choose|k: int| 0 <= k < targets.len() && (#[trigger] targets[k]).wid.pid == pid;
        windows_with_another_frame_are_moved(windows, pass.skip, layout, targets[k]);
        assert(targets.contains(targets[k]));
        let i = layout.index_of(targets[k]);
        assert(layout[i].wid.pid == pid);
    }
    if exists|i: int|
        0 <= i < layout.len() && (#[trigger] layout[i]).wid.pid == pid && !layout[i].unchanged
            && pass.skip != Some(layout[i].wid) && windows.windows.dom().contains(layout[i].wid) {
        let i = choose|i: int|
            0 <= i < layout.len() && (#[trigger] layout[i]).wid.pid == pid && !layout[i].unchanged
                && pass.skip != Some(layout[i].wid) && windows.windows.dom().contains(
                layout[i].wid,
            );
        windows_with_another_frame_are_moved(windows, pass.skip, layout, layout[i]);
        let k = targets.index_of(layout[i]);
        assert(targets[k].wid.pid == pid);
    }
}

/// One window of an animated screen: one that shows is moved from where it is to the frame that
/// the layout gives it and has it from then on; one that does not show is asked for that frame.
/// The transaction that is stored asks for that frame, too.
pub proof fn a_screen_moves_a_window_to_its_frame(
    start: Placed,
    t: LayoutTarget,
    skip: Option<WindowId>,
    apps: Set<Pid>,
    other: WindowId,
)
    ensures
        ({
            let end = start.stepped(t, skip, apps);
            let moves = skip != Some(t.wid) && start.windows.windows.dom().contains(t.wid)
                && !t.unchanged;
            let known = moves && apps.contains(t.wid.pid);
            let w = start.windows.windows[t.wid];
            &&& known && t.shown ==> {
                let moved = end.animated.last();
                &&& end.animated.len() == start.animated.len() + 1
                &&& end.animated.drop_last() =~= start.animated
                &&& moved.wid == t.wid && moved.start == w.frame_monotonic
                &&& moved.finish == t.frame && !moved.is_focus
                &&& moved.txid == w.last_sent_txid.spec_next()
                &&& end.windows.windows[t.wid].frame_monotonic == t.frame
                &&& end.windows.windows[t.wid].last_sent_txid == moved.txid
                &&& end.direct == start.direct
            }
            &&& known && !t.shown ==> {
                let asked = end.direct.last();
                &&& end.direct.len() == start.direct.len() + 1
                &&& end.direct.drop_last() =~= start.direct
                &&& asked.wid == t.wid && asked.frame == t.frame
                &&& asked.txid == w.last_sent_txid.spec_next()
                &&& end.windows.windows[t.wid].frame_monotonic == w.frame_monotonic
                &&& end.animated == start.animated
            }
            &&& known && w.window_server_id is Some ==> {
                let entry = end.entries.last();
                &&& end.entries.len() == start.entries.len() + 1
                &&& entry.wsid == w.window_server_id->0 && entry.target == t.frame
                &&& entry.txid == w.last_sent_txid.spec_next()
            }
            &&& !known ==> end.animated == start.animated && end.direct == start.direct
                && end.entries == start.entries
            &&& !moves ==> end.windows == start.windows
            &&& end.windows.windows.dom() =~= start.windows.windows.dom()
            &&& other != t.wid ==> end.windows.windows[other] == start.windows.windows[other]
            &&& end.batches == start.batches
        }),
{
}

/// An animated screen as a whole moves every window that shows, is elsewhere and whose application
/// is known, from where it was to the frame that the layout gives it.
pub proof fn screens_move_windows_to_their_frames(
    start: Placed,
    layout: Seq<LayoutTarget>,
    skip: Option<WindowId>,
    apps: Set<Pid>,
    i: int,
)
    requires
        one_target_each(layout),
        0 <= i < layout.len(),
        skip != Some(layout[i].wid),
        start.windows.windows.dom().contains(layout[i].wid),
        !layout[i].unchanged,
        apps.contains(layout[i].wid.pid),
    ensures
        ({
            let end = all_stepped(start, layout, skip, apps);
            let t = layout[i];
            let w = start.windows.windows[t.wid];
            &&& t.shown ==> end.windows.windows[t.wid].frame_monotonic == t.frame && exists|k: int|
                0 <= k < end.animated.len() && (#[trigger] end.animated[k]).wid == t.wid
                    && end.animated[k].start == w.frame_monotonic && end.animated[k].finish
                    == t.frame
            &&& !t.shown ==> end.windows.windows[t.wid].frame_monotonic == w.frame_monotonic
                && exists|k: int|
                0 <= k < end.direct.len() && (#[trigger] end.direct[k]).wid == t.wid
                    && end.direct[k].frame == t.frame
        }),
    decreases layout.len(),
{
    let head = layout.drop_last();
    let n = layout.len() - 1;
    let t = layout[i];
    let last = layout.last();
    assert(forall|k: int| 0 <= k < n ==> head[k] == layout[k]);
    assert(layout[n] == last);
    assert forall|a: int, b: int| 0 <= a < b < head.len() implies (#[trigger] head[a]).wid != (
    #[trigger] head[b]).wid by {
        assert(layout[a].wid != layout[b].wid);
    }
    let mid = all_stepped(start, head, skip, apps);
    let end = all_stepped(start, layout, skip, apps);
    a_screen_moves_a_window_to_its_frame(mid, last, skip, apps, t.wid);
    if i < n {
        screens_move_windows_to_their_frames(start, head, skip, apps, i);
        assert(layout[i].wid != layout[n].wid);
        if t.shown {
            let k = choose|k: int|
                0 <= k < mid.animated.len() && (#[trigger] mid.animated[k]).wid == t.wid
                    && mid.animated[k].start == start.windows.windows[t.wid].frame_monotonic
                    && mid.animated[k].finish == t.frame;
            assert(end.animated[k] == mid.animated[k]) by {
                if end.animated.len() > mid.animated.len() {
                    assert(end.animated.drop_last()[k] == mid.animated[k]);
                }
            }
        } else {
            let k = choose|k: int|
                0 <= k < mid.direct.len() && (#[trigger] mid.direct[k]).wid == t.wid
                    && mid.direct[k].frame == t.frame;
            assert(end.direct[k] == mid.direct[k]) by {
                if end.direct.len() > mid.direct.len() {
                    assert(end.direct.drop_last()[k] == mid.direct[k]);
                }
            }
        }
    } else {
        assert forall|k: int| 0 <= k < head.len() implies (#[trigger] head[k]).wid != t.wid by {
            assert(layout[k].wid != layout[n].wid);
        }
        lemma_not_stepped(start, head, skip, apps, t.wid);
        if t.shown {
            assert(end.animated[end.animated.len() - 1] == end.animated.last());
        } else {
            assert(end.direct[end.direct.len() - 1] == end.direct.last());
        }
    }
}

proof fn lemma_not_stepped(
    start: Placed,
    layout: Seq<LayoutTarget>,
    skip: Option<WindowId>,
    apps: Set<Pid>,
    wid: WindowId,
)
    requires
        forall|k: int| 0 <= k < layout.len() ==> (#[trigger] layout[k]).wid != wid,
    ensures
        ({
            let end = all_stepped(start, layout, skip, apps);
            &&& end.windows.windows[wid] == start.windows.windows[wid]
            &&& end.windows.windows.dom().contains(wid) == start.windows.windows.dom().contains(
                wid,
            )
        }),
    decreases layout.len(),
{
    if layout.len() > 0 {
        let head = layout.drop_last();
        assert(forall|k: int| 0 <= k < head.len() ==> head[k] == layout[k]);
        lemma_not_stepped(start, head, skip, apps, wid);
        assert(layout[layout.len() - 1].wid != wid);
        a_screen_moves_a_window_to_its_frame(
            all_stepped(start, head, skip, apps),
            layout.last(),
            skip,
            apps,
            wid,
        );
    }
}

/// A screen without a workspace that shows is only placed at once. An animation runs if there is
/// one, unless it is a resize, animations are off, or power is low.
pub proof fn animations_run_unless_there_is_a_reason(
    windows: Windows,
    layout: Seq<LayoutTarget>,
    apps: Set<Pid>,
    pass: LayoutPass,
    animated: bool,
)
    ensures
        run_of(pass, animated) == AnimationRun::Run <==> animated && !pass.is_resize && pass.animate
            && !pass.low_power,
        run_of(pass, animated) == AnimationRun::Nothing <==> !animated,
        !pass.instant && !pass.has_workspace ==> {
            let end = screen_placed(windows, layout, apps, pass);
            &&& end.windows == windows && end.batches.len() == 0 && end.direct.len() == 0
            &&& end.animated.len() == 0 && end.entries.len() == 0
        },
        !pass.instant && pass.has_workspace ==> screen_placed(windows, layout, apps, pass)
            == all_stepped(Placed::start(windows), layout, pass.skip, apps),
        ({
            let o = screen_outcome(windows, layout, apps, pass);
            let end = screen_placed(windows, layout, apps, pass);
            &&& o.batches == end.batches && o.direct == end.direct && o.animated == end.animated
            &&& o.entries == end.entries
            &&& o.run == run_of(pass, end.animated.len() != 0)
            &&& o.changed ==> pass.instant
        }),
{
}

/// What is asked for on each screen comes from the layout of a screen that shows a space.
pub proof fn each_outcome_is_that_of_a_screen(
    windows: Windows,
    screens: Seq<ScreenLayout>,
    apps: Set<Pid>,
    pass: LayoutPass,
    k: int,
) -> (r: (int, Windows))
    requires
        0 <= k < screens_placed(windows, screens, apps, pass).1.len(),
    ensures
        0 <= r.0 < screens.len(),
        screens[r.0].space is Some,
        screens_placed(windows, screens, apps, pass).1[k] == screen_outcome(
            r.1,
            screens[r.0].layout@,
            apps,
            (LayoutPass { has_workspace: screens[r.0].has_workspace, ..pass }),
        ),
    decreases screens.len(),
{
    let head = screens.drop_last();
    let (before, outcomes) = screens_placed(windows, head, apps, pass);
    if k < outcomes.len() {
        let r = each_outcome_is_that_of_a_screen(windows, head, apps, pass, k);
        assert(head[r.0] == screens[r.0]);
        r
    } else {
        (screens.len() - 1, before)
    }
}

/// A screen is placed with the windows as the screens before it left them; one without a space is
/// left out.
pub proof fn screens_are_placed_in_turn(
    windows: Windows,
    screens: Seq<ScreenLayout>,
    s: ScreenLayout,
    apps: Set<Pid>,
    pass: LayoutPass,
)
    ensures
        ({
            let (before, first) = screens_placed(windows, screens, apps, pass);
            let (after, all) = screens_placed(windows, screens.push(s), apps, pass);
            let own = LayoutPass { has_workspace: s.has_workspace, ..pass };
            &&& s.space is None ==> after == before && all == first
            &&& s.space is Some ==> after == screen_placed(before, s.layout@, apps, own).windows
                && all.len() == first.len() + 1 && all.drop_last() =~= first
        }),
        screens_placed(windows, Seq::empty(), apps, pass).0 == windows,
{
    assert(screens.push(s).drop_last() =~= screens);
}

/// The transactions of all screens are stored, and no others.
pub proof fn all_transactions_are_stored(outcomes: Seq<ScreenOutcome>, e: TxEntry)
    ensures
        entries_of_screens(outcomes).contains(e) <==> exists|i: int|
            0 <= i < outcomes.len() && (#[trigger] outcomes[i]).entries.contains(e),
    decreases outcomes.len(),
{
    if outcomes.len() > 0 {
        let head = outcomes.drop_last();
        let n = outcomes.len() - 1;
        all_transactions_are_stored(head, e);
        assert(forall|k: int| 0 <= k < n ==> head[k] == outcomes[k]);
        assert(outcomes[n] == outcomes.last());
        let a = entries_of_screens(head);
        let b = outcomes.last().entries;
        assert((a + b).contains(e) == (a.contains(e) || b.contains(e))) by {
            if a.contains(e) {
                let i = a.index_of(e);
                assert((a + b)[i] == e);
            }
            if b.contains(e) {
                let i = b.index_of(e);
                assert((a + b)[a.len() + i] == e);
            }
        }
        if exists|i: int| 0 <= i < head.len() && (#[trigger] head[i]).entries.contains(e) {
            let i = choose|i: int| 0 <= i < head.len() && (#[trigger] head[i]).entries.contains(e);
            assert(outcomes[i].entries.contains(e));
        }
        if exists|i: int| 0 <= i < outcomes.len() && (#[trigger] outcomes[i]).entries.contains(e) {
            let i = choose|i: int|
                0 <= i < outcomes.len() && (#[trigger] outcomes[i]).entries.contains(e);
            if i < n {
                assert(head[i].entries.contains(e));
            }
        }
    }
}

/// What a transaction stores for a window is the frame that the window is asked for.
pub proof fn transactions_ask_for_the_frames_of_the_layout(
    windows: Windows,
    own: Seq<LayoutTarget>,
    txid: TransactionId,
    e: TxEntry,
)
    ensures
        windows.entries(own, txid).contains(e) <==> e.txid == txid && exists|i: int|
            0 <= i < own.len() && windows.windows[(#[trigger] own[i]).wid].window_server_id == Some(
                e.wsid,
            ) && own[i].frame == e.target,
    decreases own.len(),
{
    if own.len() > 0 {
        let head = own.drop_last();
        let n = own.len() - 1;
        let t = own.last();
        transactions_ask_for_the_frames_of_the_layout(windows, head, txid, e);
        assert(forall|k: int| 0 <= k < n ==> head[k] == own[k]);
        assert(own[n] == t);
        let a = windows.entries(head, txid);
        let b = windows.entry(t, txid);
        assert((a + b).contains(e) == (a.contains(e) || b.contains(e))) by {
            if a.contains(e) {
                let i = a.index_of(e);
                assert((a + b)[i] == e);
            }
            if b.contains(e) {
                let i = b.index_of(e);
                assert((a + b)[a.len() + i] == e);
            }
        }
        if windows.windows[t.wid].window_server_id is Some {
            assert(b[0] == (TxEntry {
                wsid: windows.windows[t.wid].window_server_id->0,
                txid,
                target: t.frame,
            }));
            assert(b.contains(e) == (b[0] == e));
        }
        if exists|i: int|
            0 <= i < head.len() && windows.windows[(#[trigger] head[i]).wid].window_server_id
                == Some(e.wsid) && head[i].frame == e.target {
            let i = choose|i: int|
                0 <= i < head.len() && windows.windows[(#[trigger] head[i]).wid].window_server_id
                    == Some(e.wsid) && head[i].frame == e.target;
            assert(windows.windows[own[i].wid].window_server_id == Some(e.wsid));
        }
        if exists|i: int|
            0 <= i < own.len() && windows.windows[(#[trigger] own[i]).wid].window_server_id == Some(
                e.wsid,
            ) && own[i].frame == e.target {
            let i = choose|i: int|
                0 <= i < own.len() && windows.windows[(#[trigger] own[i]).wid].window_server_id
                    == Some(e.wsid) && own[i].frame == e.target;
            if i < n {
                assert(windows.windows[head[i].wid].window_server_id == Some(e.wsid));
            }
        }
    }
}

/// A batch begins the next transaction of its first window, and changes nothing about its windows
/// but their transaction.
pub proof fn a_batch_changes_only_transactions(
    windows: Windows,
    own: Seq<LayoutTarget>,
    txid: TransactionId,
    wid: WindowId,
)
    ensures
        ({
            let after = windows.with_batch(own, txid);
            &&& after.window_ids == windows.window_ids && after.visible == windows.visible
            &&& after.server_info == windows.server_info
            &&& after.windows[wid] == (WindowState {
                last_sent_txid: after.windows[wid].last_sent_txid,
                ..windows.windows[wid]
            })
            &&& (forall|i: int| 0 <= i < own.len() ==> (#[trigger] own[i]).wid != wid)
                ==> after.windows[wid] == windows.windows[wid]
        }),
        windows.next_txid(wid) == windows.windows[wid].last_sent_txid.spec_next(),
    decreases own.len(),
{
    if own.len() > 0 {
        let head = own.drop_last();
        a_batch_changes_only_transactions(windows, head, txid, wid);
        if forall|i: int| 0 <= i < own.len() ==> (#[trigger] own[i]).wid != wid {
            assert(own[own.len() - 1].wid != wid);
            assert forall|i: int| 0 <= i < head.len() implies (#[trigger] head[i]).wid != wid by {
                assert(own[i].wid != wid);
            }
        }
    }
}

/// A space is placed exactly if a screen shows it, and its groups are told exactly if there is a
/// stack line.
pub proof fn every_space_that_shows_is_placed(
    spaces: Seq<Option<SpaceId>>,
    stack_line: bool,
    space: SpaceId,
)
    ensures
        screen_steps(spaces, stack_line).contains(LayoutStep::Place(space)) <==> spaces.contains(
            Some(space),
        ),
        screen_steps(spaces, stack_line).contains(LayoutStep::Groups(space)) <==> stack_line
            && spaces.contains(Some(space)),
        !screen_steps(spaces, stack_line).contains(LayoutStep::Menu),
        !stack_line ==> screen_steps(spaces, stack_line).len() <= spaces.len(),
        stack_line ==> forall|i: int|
            0 <= i < screen_steps(spaces, stack_line).len() && (#[trigger] screen_steps(
                spaces,
                stack_line,
            )[i] == LayoutStep::Place(space)) ==> i > 0 && screen_steps(spaces, stack_line)[i - 1]
                == LayoutStep::Groups(space),
    decreases spaces.len(),
{
    if spaces.len() > 0 {
        let head = spaces.drop_last();
        every_space_that_shows_is_placed(head, stack_line, space);
        assert(spaces =~= head.push(spaces.last()));
        crate::collections::lemma_push_contains(head, spaces.last());
        let before = screen_steps(head, stack_line);
        if spaces.last() is Some {
            let s = spaces.last()->0;
            crate::collections::lemma_push_contains(before, LayoutStep::Groups(s));
            crate::collections::lemma_push_contains(before, LayoutStep::Place(s));
            crate::collections::lemma_push_contains(
                before.push(LayoutStep::Groups(s)),
                LayoutStep::Place(s),
            );
        }
        let all = screen_steps(spaces, stack_line);
        if stack_line {
            assert forall|i: int|
                0 <= i < all.len() && (#[trigger] all[i] == LayoutStep::Place(space)) implies i > 0
                && all[i - 1] == LayoutStep::Groups(space) by {
                if i < before.len() {
                    assert(all[i] == before[i]);
                    assert(before[i] == LayoutStep::Place(space));
                    assert(all[i - 1] == before[i - 1]);
                }
            }
        }
    }
}

/// The focus goes to the window that the layout engine names. Where it names and raises none, it
/// goes to the window under the cursor while a workspace is switched; and where a space is to be
/// refocused, to the window that had it last there, if that can have it again.
pub proof fn the_focus_goes_where_it_is_wanted(
    windows: Windows,
    switching: bool,
    pending: Option<SpaceId>,
    raises: bool,
    focus: Option<WindowId>,
    facts: ResponseFacts,
)
    ensures
        ({
            let plan = focus_plan(windows, switching, pending, raises, focus, facts);
            let named = raises || focus is Some;
            &&& named ==> plan.focus == focus && !plan.try_untracked && plan.pending == pending
            &&& !named && switching ==> plan.focus == facts.under_cursor && plan.try_untracked == (
            facts.under_cursor is None) && plan.pending == pending
            &&& !named && !switching && pending is None ==> plan.focus is None
                && !plan.try_untracked && plan.pending is None
            &&& !named && !switching && pending is Some ==> {
                let last = facts.last_focused;
                let again = last is Some && windows.windows.dom().contains(last->0)
                    && facts.spaces@.dom().contains(last->0) && facts.spaces@[last->0]
                    == pending->0 && (windows.windows[last->0].window_server_id is None || (
                !facts.changing_screens@.contains(windows.windows[last->0].window_server_id->0)
                    && windows.visible.contains(windows.windows[last->0].window_server_id->0)));
                &&& plan.pending is None
                &&& again ==> plan.focus == last && !plan.try_untracked
                &&& !again ==> plan.focus == facts.under_cursor && plan.try_untracked == (
                facts.under_cursor is None)
            }
        }),
{
}

/// A window that the window server knows keeps the focus only if it shows, does not change screens
/// and lies in the first space; any other window keeps it.
pub proof fn only_windows_that_show_keep_the_focus(
    windows: Windows,
    plan: FocusPlan,
    facts: ResponseFacts,
    wid: WindowId,
)
    requires
        plan.focus == Some(wid),
    ensures
        windows.windows.dom().contains(wid) && windows.windows[wid].window_server_id is Some ==> {
            let wsid = windows.windows[wid].window_server_id->0;
            focused_in_end(windows, plan, facts) == (if windows.visible.contains(wsid)
                && !facts.changing_screens@.contains(wsid) && facts.spaces@.dom().contains(wid) && (
            facts.first_space is None || facts.first_space == Some(facts.spaces@[wid])) {
                Some(wid)
            } else {
                None
            })
        },
        !(windows.windows.dom().contains(wid) && windows.windows[wid].window_server_id is Some)
            ==> focused_in_end(windows, plan, facts) == Some(wid),
{
}

/// Windows are raised together exactly if they are known and belong to one application on one
/// space; every known window is in a group, and the groups are all different.
pub proof fn windows_are_raised_with_their_own(
    windows: Windows,
    raise: Seq<WindowId>,
    spaces: Map<WindowId, SpaceId>,
    key: (Pid, Option<SpaceId>),
    wid: WindowId,
)
    ensures
        group_members(windows, raise, spaces, key).contains(wid) <==> raise.contains(wid)
            && windows.windows.dom().contains(wid) && wid.pid == key.0 && (
        if spaces.dom().contains(wid) {
            key.1 == Some(spaces[wid])
        } else {
            key.1 is None
        }),
        group_keys(windows, raise, spaces).contains(key) <==> group_members(
            windows,
            raise,
            spaces,
            key,
        ).len() > 0,
        group_keys(windows, raise, spaces).no_duplicates(),
    decreases raise.len(),
{
    if raise.len() > 0 {
        let head = raise.drop_last();
        let last = raise.last();
        windows_are_raised_with_their_own(windows, head, spaces, key, wid);
        assert(raise =~= head.push(last));
        crate::collections::lemma_push_contains(head, last);
        crate::collections::lemma_push_contains(group_members(windows, head, spaces, key), last);
        let own = (last.pid, place_of(spaces, last));
        crate::collections::lemma_push_contains(group_keys(windows, head, spaces), own);
        if !group_keys(windows, head, spaces).contains(own) {
            crate::collections::lemma_push_new(group_keys(windows, head, spaces), own);
        }
    }
}

/// An activated application whose windows are all out of sight brings one of them into view: the
/// space of that window goes from the workspace that shows to the one that the window is in. It is
/// not brought back within three tenths of a second.
pub proof fn a_switch_brings_a_window_into_view(
    wid: WindowId,
    switch: WorkspaceSwitchManager,
    facts: ActivationFacts,
)
    ensures
        switch_for(wid, switch, facts) matches Some(s) ==> {
            &&& facts.spaces@.dom().contains(wid) && s.space == facts.spaces@[wid]
            &&& facts.window_workspaces@.dom().contains(wid) && s.to
                == facts.window_workspaces@[wid]
            &&& facts.active_workspaces@.dom().contains(s.space) && s.from
                == facts.active_workspaces@[s.space]
            &&& s.from != s.to
        },
        facts.spaces@.dom().contains(wid) && facts.window_workspaces@.dom().contains(wid)
            && facts.active_workspaces@.dom().contains(facts.spaces@[wid])
            && facts.active_workspaces@[facts.spaces@[wid]] != facts.window_workspaces@[wid] && (
        switch.last_auto_workspace_switch is None || facts.now
            - switch.last_auto_workspace_switch->0.occurred_at >= 300
            || switch.last_auto_workspace_switch->0.space != facts.spaces@[wid]
            || switch.last_auto_workspace_switch->0.from_workspace != Some(
            facts.window_workspaces@[wid],
        )) ==> switch_for(wid, switch, facts) is Some,
{
}

/// An application switches nothing while a switch is under way, one of its windows shows, it has
/// no bundle, or its bundle is on the list of those that never do. A switch that it makes is to
/// one of its own managed windows.
pub proof fn applications_switch_only_to_their_own_windows(
    windows: Windows,
    pid: Pid,
    switch: WorkspaceSwitchManager,
    facts: ActivationFacts,
    r: Option<AutoSwitch>,
    w: WindowId,
    i: int,
)
    requires
        is_auto_switch(windows, pid, switch, facts, r),
    ensures
        switch.active_workspace_switch is Some ==> r is None,
        facts.bundle_id is None ==> r is None,
        facts.bundle_id is Some && 0 <= i < facts.blacklist@.len() && facts.blacklist@[i]@
            == facts.bundle_id->0@ ==> r is None,
        windows.windows.dom().contains(w) && w.pid == pid && facts.spaces@.dom().contains(w)
            && facts.visible_spaces@.contains(facts.spaces@[w])
            && facts.active_workspaces@.dom().contains(facts.spaces@[w])
            && facts.window_workspaces@.dom().contains(w)
            && facts.active_workspaces@[facts.spaces@[w]] == facts.window_workspaces@[w]
            ==> r is None,
        r matches Some(s) ==> exists|v: WindowId| #[trigger]
            windows.windows.dom().contains(v) && v.pid == pid && windows.windows[v].is_manageable
                && facts.window_workspaces@.dom().contains(v) && facts.window_workspaces@[v]
                == s.to && facts.spaces@[v] == s.space,
{
    if r is Some {
        let v = choose|v: WindowId| #[trigger]
            windows.windows.dom().contains(v) && v.pid == pid && windows.is_standard(v) && r
                == switch_for(v, switch, facts);
        assert(windows.windows.dom().contains(v));
    }
}

/// The frame that is kept of a floating window is its own, and only those of known floating
/// windows of the workspace are kept.
pub proof fn floating_windows_keep_their_own_frames(
    windows: Windows,
    members: Seq<WindowId>,
    floating: Set<WindowId>,
    wid: WindowId,
    frame: Frame,
)
    ensures
        floating_frames(windows, members, floating).contains(FrameTarget { wid, frame })
            <==> members.contains(wid) && floating.contains(wid) && windows.windows.dom().contains(
            wid,
        ) && windows.windows[wid].frame_monotonic == frame,
    decreases members.len(),
{
    if members.len() > 0 {
        let head = members.drop_last();
        let last = members.last();
        floating_windows_keep_their_own_frames(windows, head, floating, wid, frame);
        assert(members =~= head.push(last));
        crate::collections::lemma_push_contains(head, last);
        crate::collections::lemma_push_contains(
            floating_frames(windows, head, floating),
            FrameTarget { wid: last, frame: windows.windows[last].frame_monotonic },
        );
    }
}

/// Both the moves and the sizes of every animated window are ignored before, and reported again
/// after.
pub proof fn notices_come_back_as_they_went(windows: Seq<AnimatedWindow>, i: int)
    requires
        0 <= i < windows.len(),
    ensures
        ignore_notices(windows).len() == 2 * windows.len(),
        unignore_notices(windows).len() == 2 * windows.len(),
        ignore_notices(windows)[2 * i] == EventNotice::Ignore(
            CGSEventType::WindowMoved,
            windows[i].wid.idx,
        ),
        ignore_notices(windows)[2 * i + 1] == EventNotice::Ignore(
            CGSEventType::WindowResized,
            windows[i].wid.idx,
        ),
        unignore_notices(windows)[2 * i] == EventNotice::Unignore(
            CGSEventType::WindowMoved,
            windows[i].wid.idx,
        ),
        unignore_notices(windows)[2 * i + 1] == EventNotice::Unignore(
            CGSEventType::WindowResized,
            windows[i].wid.idx,
        ),
    decreases windows.len(),
{
    let head = windows.drop_last();
    if i < head.len() {
        notices_come_back_as_they_went(head, i);
        assert(head[i] == windows[i]);
    } else {
        lemma_notices_len(head);
    }
}

proof fn lemma_notices_len(windows: Seq<AnimatedWindow>)
    ensures
        ignore_notices(windows).len() == 2 * windows.len(),
        unignore_notices(windows).len() == 2 * windows.len(),
    decreases windows.len(),
{
    if windows.len() > 0 {
        lemma_notices_len(windows.drop_last());
    }
}

/// A window that an application was told of has the last frame that it was told, and all others
/// keep theirs.
pub proof fn windows_have_the_frames_that_were_sent(
    windows: Windows,
    frames: Seq<FrameTarget>,
    wid: WindowId,
    i: int,
)
    requires
        windows.windows.dom().contains(wid),
        -1 <= i < frames.len(),
        i >= 0 ==> frames[i].wid == wid,
        forall|j: int| i < j < frames.len() ==> (#[trigger] frames[j]).wid != wid,
    ensures
        ({
            let after = windows.with_frames(frames);
            &&& after.windows.dom().contains(wid)
            &&& after.windows[wid] == (WindowState {
                frame_monotonic: if i >= 0 {
                    frames[i].frame
                } else {
                    windows.windows[wid].frame_monotonic
                },
                ..windows.windows[wid]
            })
            &&& after.window_ids == windows.window_ids && after.visible == windows.visible
        }),
    decreases frames.len(),
{
    if frames.len() > 0 {
        let head = frames.drop_last();
        let n = frames.len() - 1;
        assert(forall|j: int| 0 <= j < n ==> head[j] == frames[j]);
        if i == n {
            lemma_sent_frames_change_frames(windows, head, wid);
        } else {
            assert(frames[n].wid != wid);
            windows_have_the_frames_that_were_sent(windows, head, wid, i);
        }
    }
}

proof fn lemma_sent_frames_change_frames(
    windows: Windows,
    frames: Seq<FrameTarget>,
    wid: WindowId,
)
    requires
        windows.windows.dom().contains(wid),
    ensures
        ({
            let after = windows.with_frames(frames);
            &&& after.windows.dom().contains(wid)
            &&& after.windows[wid] == (WindowState {
                frame_monotonic: after.windows[wid].frame_monotonic,
                ..windows.windows[wid]
            })
            &&& after.window_ids == windows.window_ids && after.visible == windows.visible
        }),
    decreases frames.len(),
{
    if frames.len() > 0 {
        lemma_sent_frames_change_frames(windows, frames.drop_last(), wid);
    }
}

/// The window that a pass leaves alone is the one that was asked to be, else the one that is
/// dragged; windows are placed at once for a switch and while one is under way.
pub proof fn a_pass_leaves_one_window_alone(
    reactor: Reactor,
    is_resize: bool,
    is_workspace_switch: bool,
    facts: PassFacts,
    wid: WindowId,
)
    ensures
        ({
            let pass = reactor.layout_pass(is_resize, is_workspace_switch, facts);
            let drag = reactor.drag_manager;
            &&& drag.skip_layout_for_window == Some(wid) ==> pass.skip == Some(wid)
            &&& drag.skip_layout_for_window is None && drag.session() is Some ==> pass.skip == Some(
                drag.session()->0.window,
            )
            &&& is_workspace_switch ==> pass.instant
            &&& reactor.workspace_switch_manager.active_workspace_switch is Some ==> pass.instant
            &&& !is_workspace_switch
                && reactor.workspace_switch_manager.active_workspace_switch is None
                ==> !pass.instant
            &&& pass.is_resize == is_resize && pass.animate == facts.animate && pass.low_power
                == facts.low_power
        }),
{
}

/// A window is out of sight exactly if it is in another workspace than the one that shows.
pub proof fn windows_elsewhere_are_out_of_sight(active: u64, workspaces: Seq<Option<u64>>, i: int)
    requires
        0 <= i < workspaces.len(),
    ensures
        workspaces[i] is Some && workspaces[i] != Some(active) ==> hides_one(
            Some(active),
            workspaces,
        ),
        (forall|k: int|
            0 <= k < workspaces.len() ==> (#[trigger] workspaces[k]) is None || workspaces[k]
                == Some(active)) ==> !hides_one(Some(active), workspaces),
        !hides_one(None, workspaces),
{
}

} // verus!
