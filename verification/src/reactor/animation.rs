//! Animated and instant placement of windows.
//!
//! An animation moves windows in a fixed number of steps. What a frame looks like at a step is
//! described by a [`Tween`]; whoever draws it does the easing.

use vstd::prelude::*;

use crate::collections::{contains, VecSet};
use crate::model::{Frame, Pid, Point};
use crate::reactor::managers::WindowManager;
#[allow(unused_imports)]
use crate::reactor::managers::{WindowState, Windows};
use crate::reactor::transaction_manager::{TransactionId, TransactionManager, TxEntry};
#[allow(unused_imports)]
use crate::reactor::transaction_manager::{
    last_txid_of, stored, target_of, Transactions, TxRecord,
};
use crate::window_id::WindowId;

verus! {

/// The size of a frame on its way.
#[derive(Clone, Copy, Debug, PartialEq, Eq, Structural)]
pub enum TweenSize {
    Start,
    Finish,
    /// Eased like the origin.
    Eased,
}

/// A frame on its way from `start` to `finish`: its origin is eased by `step` out of `steps`, and
/// is that of `start` at step zero.
#[derive(Clone, Copy, Debug, PartialEq, Eq, Structural)]
pub struct Tween {
    pub start: Frame,
    pub finish: Frame,
    pub step: u32,
    pub steps: u32,
    pub size: TweenSize,
}

impl Tween {
    /// A frame that does not move.
    pub open spec fn still(frame: Frame) -> Tween {
        Tween { start: frame, finish: frame, step: 0, steps: 0, size: TweenSize::Finish }
    }
}

/// A window that is being moved.
#[derive(Clone, Copy, Debug, PartialEq, Eq, Structural)]
pub struct AnimatedWindow {
    pub wid: WindowId,
    pub start: Frame,
    pub finish: Frame,
    pub is_focus: bool,
    pub txid: TransactionId,
}

/// What an application is told about its window.
#[derive(Clone, Copy, Debug, PartialEq, Eq, Structural)]
pub enum Order {
    Begin(WindowId),
    Step { wid: WindowId, tween: Tween, set_size: bool, txid: TransactionId },
    End(WindowId),
    Place { wid: WindowId, frame: Frame, txid: TransactionId },
}

impl AnimatedWindow {
    /// The frame once step `frame` was drawn.
    pub open spec fn tween_after(self, frame: u32, total_frames: u32) -> Tween {
        Tween {
            start: self.start,
            finish: self.finish,
            step: frame,
            steps: total_frames,
            size: if self.is_focus || (frame != 0 && frame * 2 >= total_frames) {
                TweenSize::Finish
            } else {
                TweenSize::Start
            },
        }
    }

    pub fn frame_after(&self, frame: u32, total_frames: u32) -> (r: Tween)
        ensures
            r == self.tween_after(frame, total_frames),
    {
        let size = if self.is_focus || (frame != 0 && frame as u64 * 2 >= total_frames as u64) {
            TweenSize::Finish
        } else {
            TweenSize::Start
        };
        Tween { start: self.start, finish: self.finish, step: frame, steps: total_frames, size }
    }
}

/// A window and a frame for it.
#[derive(Clone, Copy, Debug, PartialEq, Eq, Structural)]
pub struct FrameTarget {
    pub wid: WindowId,
    pub frame: Frame,
}

/// A window and a position for it.
#[derive(Clone, Copy, Debug, PartialEq, Eq, Structural)]
pub struct PositionTarget {
    pub wid: WindowId,
    pub origin: Point,
}

/// Windows on their way.
pub struct Animation {
    /// The time between two steps, in nanoseconds.
    pub interval_ns: u64,
    pub frames: u32,
    pub windows: Vec<AnimatedWindow>,
    /// The windows that this animation speaks for, moved or not.
    pub handled_windows: Vec<WindowId>,
}

#[verifier::ext_equal]
pub struct Anim {
    pub interval_ns: u64,
    pub frames: u32,
    pub windows: Seq<AnimatedWindow>,
    pub handled: Seq<WindowId>,
}

/// Whether one of `windows` is `wid`.
pub open spec fn moves(windows: Seq<AnimatedWindow>, wid: WindowId) -> bool {
    exists|i: int| 0 <= i < windows.len() && (#[trigger] windows[i]).wid == wid
}

/// The orders that begin moving the windows that are not in `skip`.
pub open spec fn begin_orders(windows: Seq<AnimatedWindow>, skip: Seq<WindowId>) -> Seq<Order>
    decreases windows.len(),
{
    if windows.len() == 0 {
        Seq::empty()
    } else {
        let head = begin_orders(windows.drop_last(), skip);
        let w = windows.last();
        if skip.contains(w.wid) {
            head
        } else if w.is_focus {
            head.push(Order::Begin(w.wid)).push(
                Order::Step {
                    wid: w.wid,
                    tween: Tween {
                        start: w.start,
                        finish: w.finish,
                        step: 0,
                        steps: 0,
                        size: TweenSize::Finish,
                    },
                    set_size: true,
                    txid: w.txid,
                },
            )
        } else {
            head.push(Order::Begin(w.wid))
        }
    }
}

/// The orders that put every window where it was going.
pub open spec fn finish_orders(windows: Seq<AnimatedWindow>) -> Seq<Order>
    decreases windows.len(),
{
    if windows.len() == 0 {
        Seq::empty()
    } else {
        let w = windows.last();
        finish_orders(windows.drop_last()).push(
            Order::Step {
                wid: w.wid,
                tween: Tween::still(w.finish),
                set_size: true,
                txid: w.txid,
            },
        ).push(Order::End(w.wid))
    }
}

/// The orders that draw one step.
pub open spec fn step_orders(windows: Seq<AnimatedWindow>, frame: u32, frames: u32) -> Seq<Order> {
    windows.map_values(
        |w: AnimatedWindow|
            {
                let set_size = frame * 2 == frames || frame == frames;
                Order::Step {
                    wid: w.wid,
                    tween: Tween {
                        start: w.start,
                        finish: w.finish,
                        step: frame,
                        steps: frames,
                        size: if set_size {
                            TweenSize::Finish
                        } else {
                            TweenSize::Eased
                        },
                    },
                    set_size,
                    txid: w.txid,
                }
            },
    )
}

pub open spec fn end_orders(windows: Seq<AnimatedWindow>) -> Seq<Order> {
    windows.map_values(|w: AnimatedWindow| Order::End(w.wid))
}

pub open spec fn place_orders(windows: Seq<AnimatedWindow>) -> Seq<Order> {
    windows.map_values(
        |w: AnimatedWindow| Order::Place { wid: w.wid, frame: w.finish, txid: w.txid },
    )
}

/// The position of the first of `windows` that is `wid`, or their number.
pub open spec fn first_of(windows: Seq<AnimatedWindow>, wid: WindowId) -> int
    decreases windows.len(),
{
    if windows.len() == 0 {
        0
    } else {
        let i = first_of(windows.drop_last(), wid);
        if i < windows.len() - 1 {
            i
        } else if windows.last().wid == wid {
            windows.len() - 1
        } else {
            windows.len() as int
        }
    }
}

/// The frame of the first entry for `wid`.
pub open spec fn frame_of(current: Seq<FrameTarget>, wid: WindowId) -> Option<Frame>
    decreases current.len(),
{
    if current.len() == 0 {
        None
    } else {
        match frame_of(current.drop_last(), wid) {
            Some(f) => Some(f),
            None => if current.last().wid == wid {
                Some(current.last().frame)
            } else {
                None
            },
        }
    }
}

/// The windows, starting from where they are now.
pub open spec fn patched(windows: Seq<AnimatedWindow>, current: Seq<FrameTarget>) -> Seq<
    AnimatedWindow,
>
    decreases current.len(),
{
    if current.len() == 0 {
        windows
    } else {
        let head = patched(windows, current.drop_last());
        let c = current.last();
        let i = first_of(head, c.wid);
        if i < head.len() {
            head.update(i, AnimatedWindow { start: c.frame, ..head[i] })
        } else {
            head
        }
    }
}

/// The windows that were moving already.
pub open spec fn continuing(windows: Seq<AnimatedWindow>, current: Seq<FrameTarget>) -> Seq<
    WindowId,
>
    decreases current.len(),
{
    if current.len() == 0 {
        Seq::empty()
    } else {
        let head = continuing(windows, current.drop_last());
        if moves(windows, current.last().wid) {
            head.push(current.last().wid)
        } else {
            head
        }
    }
}

/// `windows`, and after them those of `previous` that the new animation does not speak for.
pub open spec fn carried(
    windows: Seq<AnimatedWindow>,
    handled: Seq<WindowId>,
    previous: Seq<AnimatedWindow>,
    current: Seq<FrameTarget>,
) -> Seq<AnimatedWindow>
    decreases previous.len(),
{
    if previous.len() == 0 {
        windows
    } else {
        let head = carried(windows, handled, previous.drop_last(), current);
        let w = previous.last();
        if handled.contains(w.wid) || moves(head, w.wid) {
            head
        } else {
            head.push(
                match frame_of(current, w.wid) {
                    Some(frame) => AnimatedWindow { start: frame, ..w },
                    None => w,
                },
            )
        }
    }
}

/// Where the windows are, given the frames that their tweens came to.
pub open spec fn located(windows: Seq<AnimatedWindow>, frames: Seq<Frame>) -> Seq<FrameTarget> {
    Seq::new(windows.len(), |i: int| FrameTarget { wid: windows[i].wid, frame: frames[i] })
}

impl Animation {
    pub open spec fn view(self) -> Anim {
        Anim {
            interval_ns: self.interval_ns,
            frames: self.frames,
            windows: self.windows@,
            handled: self.handled_windows@,
        }
    }

    pub fn new(interval_ns: u64, frames: u32) -> (r: Animation)
        ensures
            r@ == (Anim { interval_ns, frames, windows: Seq::empty(), handled: Seq::empty() }),
    {
        Animation { interval_ns, frames, windows: Vec::new(), handled_windows: Vec::new() }
    }

    pub fn mark_handled(&mut self, wid: WindowId)
        ensures
            final(self)@ == old(self)@.marked(wid),
    {
        if !contains(&self.handled_windows, &wid) {
            self.handled_windows.push(wid);
        }
    }

    pub fn add_window(
        &mut self,
        wid: WindowId,
        start: Frame,
        finish: Frame,
        is_focus: bool,
        txid: TransactionId,
    )
        ensures
            final(self)@ == old(self)@.with(AnimatedWindow { wid, start, finish, is_focus, txid }),
    {
        self.windows.push(AnimatedWindow { wid, start, finish, is_focus, txid });
        self.mark_handled(wid);
    }

    pub fn is_empty(&self) -> (r: bool)
        ensures
            r == (self@.windows.len() == 0),
    {
        self.windows.len() == 0
    }

    /// Places every window where it is going at once.
    pub fn skip_to_end(&self, out: &mut Vec<Order>)
        ensures
            final(out)@ == old(out)@ + place_orders(self@.windows),
    {
        let ghost before = out@;
        let mut i: usize = 0;
        assert(out@ =~= before + place_orders(self.windows@.take(0)));
        while i < self.windows.len()
            invariant
                i <= self.windows@.len(),
                out@ == before + place_orders(self.windows@.take(i as int)),
            decreases self.windows@.len() - i,
        {
            let w = self.windows[i];
            out.push(Order::Place { wid: w.wid, frame: w.finish, txid: w.txid });
            assert(out@ =~= before + place_orders(self.windows@.take(i + 1)));
            i = i + 1;
        }
        assert(self.windows@.take(i as int) =~= self.windows@);
    }

    fn begin_windows_not_in(&self, skip: &Vec<WindowId>, out: &mut Vec<Order>)
        ensures
            final(out)@ == old(out)@ + begin_orders(self@.windows, skip@),
    {
        let ghost before = out@;
        let mut i: usize = 0;
        assert(out@ =~= before + begin_orders(self.windows@.take(0), skip@));
        while i < self.windows.len()
            invariant
                i <= self.windows@.len(),
                out@ == before + begin_orders(self.windows@.take(i as int), skip@),
            decreases self.windows@.len() - i,
        {
            assert(self.windows@.take(i + 1).drop_last() =~= self.windows@.take(i as int));
            let w = self.windows[i];
            if !contains(skip, &w.wid) {
                out.push(Order::Begin(w.wid));
                if w.is_focus {
                    out.push(
                        Order::Step {
                            wid: w.wid,
                            tween: Tween {
                                start: w.start,
                                finish: w.finish,
                                step: 0,
                                steps: 0,
                                size: TweenSize::Finish,
                            },
                            set_size: true,
                            txid: w.txid,
                        },
                    );
                }
            }
            assert(out@ =~= before + begin_orders(self.windows@.take(i + 1), skip@));
            i = i + 1;
        }
        assert(self.windows@.take(i as int) =~= self.windows@);
    }

    fn finish_all(&self, out: &mut Vec<Order>)
        ensures
            final(out)@ == old(out)@ + finish_orders(self@.windows),
    {
        let ghost before = out@;
        let mut i: usize = 0;
        assert(out@ =~= before + finish_orders(self.windows@.take(0)));
        while i < self.windows.len()
            invariant
                i <= self.windows@.len(),
                out@ == before + finish_orders(self.windows@.take(i as int)),
            decreases self.windows@.len() - i,
        {
            assert(self.windows@.take(i + 1).drop_last() =~= self.windows@.take(i as int));
            let w = self.windows[i];
            out.push(
                Order::Step {
                    wid: w.wid,
                    tween: Tween {
                        start: w.finish,
                        finish: w.finish,
                        step: 0,
                        steps: 0,
                        size: TweenSize::Finish,
                    },
                    set_size: true,
                    txid: w.txid,
                },
            );
            out.push(Order::End(w.wid));
            assert(out@ =~= before + finish_orders(self.windows@.take(i + 1)));
            i = i + 1;
        }
        assert(self.windows@.take(i as int) =~= self.windows@);
    }

    fn send_frame(&self, frame: u32, out: &mut Vec<Order>)
        ensures
            final(out)@ == old(out)@ + step_orders(self@.windows, frame, self.frames),
    {
        let ghost before = out@;
        let set_size: bool = frame as u64 * 2 == self.frames as u64 || frame == self.frames;
        let mut i: usize = 0;
        assert(out@ =~= before + step_orders(self.windows@.take(0), frame, self.frames));
        while i < self.windows.len()
            invariant
                i <= self.windows@.len(),
                set_size == (frame * 2 == self.frames || frame == self.frames),
                out@ == before + step_orders(self.windows@.take(i as int), frame, self.frames),
            decreases self.windows@.len() - i,
        {
            let w = self.windows[i];
            out.push(
                Order::Step {
                    wid: w.wid,
                    tween: Tween {
                        start: w.start,
                        finish: w.finish,
                        step: frame,
                        steps: self.frames,
                        size: if set_size {
                            TweenSize::Finish
                        } else {
                            TweenSize::Eased
                        },
                    },
                    set_size,
                    txid: w.txid,
                },
            );
            assert(out@ =~= before + step_orders(self.windows@.take(i + 1), frame, self.frames));
            i = i + 1;
        }
        assert(self.windows@.take(i as int) =~= self.windows@);
    }

    fn end(&self, out: &mut Vec<Order>)
        ensures
            final(out)@ == old(out)@ + end_orders(self@.windows),
    {
        let ghost before = out@;
        let mut i: usize = 0;
        assert(out@ =~= before + end_orders(self.windows@.take(0)));
        while i < self.windows.len()
            invariant
                i <= self.windows@.len(),
                out@ == before + end_orders(self.windows@.take(i as int)),
            decreases self.windows@.len() - i,
        {
            out.push(Order::End(self.windows[i].wid));
            assert(out@ =~= before + end_orders(self.windows@.take(i + 1)));
            i = i + 1;
        }
        assert(self.windows@.take(i as int) =~= self.windows@);
    }

    fn find_window(&self, wid: WindowId) -> (r: Option<usize>)
        ensures
            match r {
                Some(i) => i < self.windows@.len() && i == first_of(self.windows@, wid) && moves(
                    self.windows@,
                    wid,
                ),
                None => first_of(self.windows@, wid) == self.windows@.len() && !moves(
                    self.windows@,
                    wid,
                ),
            },
    {
        let mut r: Option<usize> = None;
        let mut i: usize = 0;
        while i < self.windows.len()
            invariant
                i <= self.windows@.len(),
                match r {
                    Some(k) => k < i && first_of(self.windows@.take(i as int), wid) == k
                        && self.windows@[k as int].wid == wid,
                    None => first_of(self.windows@.take(i as int), wid) == i && forall|j: int|
                        0 <= j < i ==> (#[trigger] self.windows@[j]).wid != wid,
                },
            decreases self.windows@.len() - i,
        {
            assert(self.windows@.take(i + 1).drop_last() =~= self.windows@.take(i as int));
            if r.is_none() && self.windows[i].wid == wid {
                r = Some(i);
            }
            i = i + 1;
        }
        assert(self.windows@.take(i as int) =~= self.windows@);
        r
    }

    /// Lets windows that move already start from where they are; the result names them.
    fn patch_starts_from(&mut self, current: &Vec<FrameTarget>) -> (r: Vec<WindowId>)
        ensures
            final(self)@ == (Anim {
                windows: patched(old(self)@.windows, current@),
                ..old(self)@
            }),
            r@ == continuing(old(self)@.windows, current@),
    {
        let ghost before = self@;
        let mut r: Vec<WindowId> = Vec::new();
        let mut i: usize = 0;
        while i < current.len()
            invariant
                i <= current@.len(),
                self@ == (Anim {
                    windows: patched(before.windows, current@.take(i as int)),
                    ..before
                }),
                r@ == continuing(before.windows, current@.take(i as int)),
            decreases current@.len() - i,
        {
            assert(current@.take(i + 1).drop_last() =~= current@.take(i as int));
            let c = current[i];
            proof {
                lemma_patched_moves(before.windows, current@.take(i as int), c.wid);
            }
            match self.find_window(c.wid) {
                Some(k) => {
                    let w = self.windows[k];
                    self.windows.set(
                        k,
                        AnimatedWindow {
                            wid: w.wid,
                            start: c.frame,
                            finish: w.finish,
                            is_focus: w.is_focus,
                            txid: w.txid,
                        },
                    );
                    r.push(c.wid);
                },
                None => {},
            }
            i = i + 1;
        }
        assert(current@.take(i as int) =~= current@);
        r
    }

    /// Keeps moving what moved before and is not spoken for.
    fn carry_over(&mut self, previous: &Vec<AnimatedWindow>, current: &Vec<FrameTarget>)
        ensures
            final(self)@ == (Anim {
                windows: carried(old(self)@.windows, old(self)@.handled, previous@, current@),
                ..old(self)@
            }),
    {
        let ghost before = self@;
        let mut i: usize = 0;
        while i < previous.len()
            invariant
                i <= previous@.len(),
                self@ == (Anim {
                    windows: carried(
                        before.windows,
                        before.handled,
                        previous@.take(i as int),
                        current@,
                    ),
                    ..before
                }),
            decreases previous@.len() - i,
        {
            assert(previous@.take(i + 1).drop_last() =~= previous@.take(i as int));
            let w = previous[i];
            if !contains(&self.handled_windows, &w.wid) && self.find_window(w.wid).is_none() {
                let start = match find_frame(current, w.wid) {
                    Some(frame) => frame,
                    None => w.start,
                };
                self.windows.push(
                    AnimatedWindow {
                        wid: w.wid,
                        start,
                        finish: w.finish,
                        is_focus: w.is_focus,
                        txid: w.txid,
                    },
                );
            }
            i = i + 1;
        }
        assert(previous@.take(i as int) =~= previous@);
    }
}

fn find_frame(current: &Vec<FrameTarget>, wid: WindowId) -> (r: Option<Frame>)
    ensures
        r == frame_of(current@, wid),
{
    let mut r: Option<Frame> = None;
    let mut i: usize = 0;
    while i < current.len()
        invariant
            i <= current@.len(),
            r == frame_of(current@.take(i as int), wid),
        decreases current@.len() - i,
    {
        assert(current@.take(i + 1).drop_last() =~= current@.take(i as int));
        if r.is_none() && current[i].wid == wid {
            r = Some(current[i].frame);
        }
        i = i + 1;
    }
    assert(current@.take(i as int) =~= current@);
    r
}

proof fn lemma_patched_moves(
    windows: Seq<AnimatedWindow>,
    current: Seq<FrameTarget>,
    wid: WindowId,
)
    ensures
        patched(windows, current).len() == windows.len(),
        forall|i: int|
            0 <= i < windows.len() ==> (#[trigger] patched(windows, current)[i]).wid
                == windows[i].wid && patched(windows, current)[i].finish == windows[i].finish,
        moves(patched(windows, current), wid) == moves(windows, wid),
    decreases current.len(),
{
    if current.len() > 0 {
        lemma_patched_moves(windows, current.drop_last(), wid);
        let head = patched(windows, current.drop_last());
        lemma_first_of(head, current.last().wid);
    }
    let p = patched(windows, current);
    if moves(windows, wid) {
        let i = choose|i: int| 0 <= i < windows.len() && (#[trigger] windows[i]).wid == wid;
        assert(p[i].wid == wid);
    }
    if moves(p, wid) {
        let i = choose|i: int| 0 <= i < p.len() && (#[trigger] p[i]).wid == wid;
        assert(windows[i].wid == wid);
    }
}

proof fn lemma_first_of(windows: Seq<AnimatedWindow>, wid: WindowId)
    ensures
        0 <= first_of(windows, wid) <= windows.len(),
        first_of(windows, wid) < windows.len() ==> windows[first_of(windows, wid)].wid == wid,
        moves(windows, wid) == (first_of(windows, wid) < windows.len()),
        moves(windows, wid) == (entries(windows, wid) > 0),
    decreases windows.len(),
{
    if windows.len() > 0 {
        let head = windows.drop_last();
        lemma_first_of(head, wid);
        if windows.last().wid == wid {
            assert(windows[windows.len() - 1].wid == wid);
        } else if moves(windows, wid) {
            let i = choose|i: int| 0 <= i < windows.len() && (#[trigger] windows[i]).wid == wid;
            assert(head[i].wid == wid);
        }
        if moves(head, wid) {
            let i = choose|i: int| 0 <= i < head.len() && (#[trigger] head[i]).wid == wid;
            assert(windows[i].wid == wid);
        }
    }
}

impl Anim {
    pub open spec fn marked(self, wid: WindowId) -> Anim {
        if self.handled.contains(wid) {
            self
        } else {
            Anim { handled: self.handled.push(wid), ..self }
        }
    }

    pub open spec fn with(self, w: AnimatedWindow) -> Anim {
        Anim { windows: self.windows.push(w), ..self }.marked(w.wid)
    }

    /// The animation that takes the place of one whose windows are at `current`.
    pub open spec fn taking_over(
        self,
        previous: Seq<AnimatedWindow>,
        current: Seq<FrameTarget>,
    ) -> Anim {
        Anim {
            windows: carried(patched(self.windows, current), self.handled, previous, current),
            ..self
        }
    }
}

/// An animation and the step that is drawn next.
pub struct ActiveAnimation {
    pub animation: Animation,
    pub next_frame: u32,
}

#[verifier::ext_equal]
pub struct Active {
    pub anim: Anim,
    pub next_frame: u32,
}

impl ActiveAnimation {
    pub open spec fn view(self) -> Active {
        Active { anim: self.animation@, next_frame: self.next_frame }
    }

    /// Where every window is now, as tweens.
    pub fn current_frames(&self) -> (r: Vec<Tween>)
        ensures
            r@ == self@.tweens(),
    {
        let frame: u32 = if self.next_frame == 0 {
            0
        } else {
            self.next_frame - 1
        };
        let mut r: Vec<Tween> = Vec::new();
        let mut i: usize = 0;
        while i < self.animation.windows.len()
            invariant
                i <= self.animation.windows@.len(),
                r@.len() == i,
                forall|j: int|
                    0 <= j < i ==> r@[j] == self.animation.windows@[j].tween_after(
                        frame,
                        self.animation.frames,
                    ),
            decreases self.animation.windows@.len() - i,
        {
            r.push(self.animation.windows[i].frame_after(frame, self.animation.frames));
            i = i + 1;
        }
        assert(r@ =~= self@.tweens());
        r
    }
}

impl Active {
    pub open spec fn tweens(self) -> Seq<Tween> {
        let frame: u32 = if self.next_frame == 0 {
            0
        } else {
            (self.next_frame - 1) as u32
        };
        self.anim.windows.map_values(|w: AnimatedWindow| w.tween_after(frame, self.anim.frames))
    }
}

/// What the animation actor is told.
pub enum Message {
    Replace(Animation),
    SkipToEnd(Animation),
}

/// Runs one animation at a time.
pub struct AnimationManager {
    pub active: Option<ActiveAnimation>,
}

/// What runs, and what applications were told.
#[verifier::ext_equal]
pub struct Stage {
    pub active: Option<Active>,
    pub orders: Seq<Order>,
}

impl AnimationManager {
    pub open spec fn view(self) -> Option<Active> {
        match self.active {
            Some(a) => Some(a@),
            None => None,
        }
    }
}

impl Default for AnimationManager {
    fn default() -> (r: AnimationManager)
        ensures
            r@ is None,
    {
        AnimationManager { active: None }
    }
}

/// What starting, replacing or ending an animation leads to; `frames` holds where the windows of
/// the running one are.
pub open spec fn handled(
    active: Option<Active>,
    message: Message,
    frames: Seq<Frame>,
) -> Stage {
    match message {
        Message::Replace(animation) => match active {
            Some(a) => {
                let current = located(a.anim.windows, frames);
                let next = animation@.taking_over(a.anim.windows, current);
                Stage {
                    active: Some(Active { anim: next, next_frame: 1 }),
                    orders: begin_orders(
                        patched(animation@.windows, current),
                        continuing(animation@.windows, current),
                    ),
                }
            },
            None => if animation@.windows.len() == 0 {
                Stage { active: None, orders: Seq::empty() }
            } else {
                Stage {
                    active: Some(Active { anim: animation@, next_frame: 1 }),
                    orders: begin_orders(animation@.windows, Seq::empty()),
                }
            },
        },
        Message::SkipToEnd(animation) => Stage {
            active: None,
            orders: match active {
                Some(a) => finish_orders(a.anim.windows) + place_orders(animation@.windows),
                None => place_orders(animation@.windows),
            },
        },
    }
}

/// What drawing the next step leads to.
pub open spec fn ticked(a: Active) -> Stage {
    let drawn = step_orders(a.anim.windows, a.next_frame, a.anim.frames);
    if a.next_frame + 1 > a.anim.frames {
        Stage { active: None, orders: drawn + end_orders(a.anim.windows) }
    } else {
        Stage {
            active: Some(Active { next_frame: (a.next_frame + 1) as u32, ..a }),
            orders: drawn,
        }
    }
}

impl AnimationManager {
    pub fn new() -> (r: AnimationManager)
        ensures
            r@ is None,
    {
        AnimationManager { active: None }
    }

    /// Starts, replaces or ends an animation; what applications are told is added to `out`.
    /// `frames` holds where the windows of the running one are. The result is the time until the
    /// next step, if one is due.
    pub fn handle_message(
        &mut self,
        message: Message,
        frames: &Vec<Frame>,
        out: &mut Vec<Order>,
    ) -> (r: Option<u64>)
        requires
            old(self)@ is Some && message is Replace ==> frames@.len() == old(self)@->0.anim.windows.len(),
        ensures
            final(self)@ == handled(old(self)@, message, frames@).active,
            final(out)@ == old(out)@ + handled(old(self)@, message, frames@).orders,
            r == (match final(self)@ {
                Some(a) => Some(a.anim.interval_ns),
                None => None,
            }),
    {
        let ghost told = out@;
        match message {
            Message::Replace(animation) => {
                let interval: u64 = animation.interval_ns;
                match self.active.take() {
                    Some(active) => {
                        let mut current: Vec<FrameTarget> = Vec::new();
                        let mut i: usize = 0;
                        while i < active.animation.windows.len()
                            invariant
                                i <= active.animation.windows@.len(),
                                frames@.len() == active.animation.windows@.len(),
                                current@.len() == i,
                                forall|j: int|
                                    0 <= j < i ==> current@[j] == located(
                                        active.animation.windows@,
                                        frames@,
                                    )[j],
                            decreases active.animation.windows@.len() - i,
                        {
                            current.push(
                                FrameTarget {
                                    wid: active.animation.windows[i].wid,
                                    frame: frames[i],
                                },
                            );
                            i = i + 1;
                        }
                        assert(current@ =~= located(active.animation.windows@, frames@));
                        let mut next = animation;
                        let skip = next.patch_starts_from(&current);
                        next.begin_windows_not_in(&skip, out);
                        next.carry_over(&active.animation.windows, &current);
                        self.active = Some(ActiveAnimation { animation: next, next_frame: 1 });
                        Some(interval)
                    },
                    None => {
                        if animation.is_empty() {
                            self.active = None;
                            assert(out@ =~= told + Seq::<Order>::empty());
                            return None;
                        }
                        let skip: Vec<WindowId> = Vec::new();
                        animation.begin_windows_not_in(&skip, out);
                        assert(skip@ =~= Seq::empty());
                        self.active = Some(ActiveAnimation { animation, next_frame: 1 });
                        Some(interval)
                    },
                }
            },
            Message::SkipToEnd(animation) => {
                self.finish_active(out);
                animation.skip_to_end(out);
                assert(out@ =~= told + handled(old(self)@, message, frames@).orders);
                None
            },
        }
    }

    /// Draws the next step; what applications are told is added to `out`. The result is the time
    /// until the step after it, if it is due.
    pub fn tick(&mut self, out: &mut Vec<Order>) -> (r: Option<u64>)
        ensures
            match old(self)@ {
                Some(a) => final(self)@ == ticked(a).active && final(out)@ == old(out)@ + ticked(
                    a,
                ).orders,
                None => final(self)@ is None && final(out)@ == old(out)@,
            },
            r == (match final(self)@ {
                Some(a) => Some(a.anim.interval_ns),
                None => None,
            }),
    {
        let ghost told = out@;
        match self.active.take() {
            Some(active) => {
                active.animation.send_frame(active.next_frame, out);
                if active.next_frame >= active.animation.frames {
                    active.animation.end(out);
                    assert(out@ =~= told + ticked(active@).orders);
                    None
                } else {
                    let interval: u64 = active.animation.interval_ns;
                    self.active = Some(
                        ActiveAnimation {
                            animation: active.animation,
                            next_frame: active.next_frame + 1,
                        },
                    );
                    Some(interval)
                }
            },
            None => None,
        }
    }

    /// Puts the windows of the running animation where they were going.
    pub fn finish_active(&mut self, out: &mut Vec<Order>)
        ensures
            final(self)@ is None,
            final(out)@ == old(out)@ + (match old(self)@ {
                Some(a) => finish_orders(a.anim.windows),
                None => Seq::empty(),
            }),
    {
        let ghost before = out@;
        match self.active.take() {
            Some(active) => {
                active.animation.finish_all(out);
            },
            None => {
                assert(out@ =~= before + Seq::<Order>::empty());
            },
        }
    }
}

/// Why a window or a layout was not animated.
#[derive(Clone, Copy, Debug, PartialEq, Eq, Structural)]
pub enum Gate {
    SameAs,
    TxDuplicate,
    HiddenWindow,
    IsResize,
    LowPower,
    AnimateOff,
    TransitionNone,
    ZeroDuration,
    NoWindows,
}

/// How often each gate declined. Nothing reads these to decide anything.
#[derive(Clone, Copy, Debug, PartialEq, Eq, Structural)]
pub struct DeclineSnapshot {
    pub same_as: u64,
    pub tx_duplicate: u64,
    pub hidden_window: u64,
    pub is_resize: u64,
    pub low_power: u64,
    pub animate_off: u64,
    pub transition_none: u64,
    pub zero_duration: u64,
    pub no_windows: u64,
}

impl Default for DeclineSnapshot {
    fn default() -> (r: DeclineSnapshot)
        ensures
            r == DeclineSnapshot::zero(),
    {
        DeclineSnapshot {
            same_as: 0,
            tx_duplicate: 0,
            hidden_window: 0,
            is_resize: 0,
            low_power: 0,
            animate_off: 0,
            transition_none: 0,
            zero_duration: 0,
            no_windows: 0,
        }
    }
}

/// A counter after one more; it wraps around.
pub open spec fn counted_on(n: u64) -> u64 {
    if n == u64::MAX {
        0
    } else {
        (n + 1) as u64
    }
}

impl DeclineSnapshot {
    pub open spec fn zero() -> DeclineSnapshot {
        DeclineSnapshot {
            same_as: 0,
            tx_duplicate: 0,
            hidden_window: 0,
            is_resize: 0,
            low_power: 0,
            animate_off: 0,
            transition_none: 0,
            zero_duration: 0,
            no_windows: 0,
        }
    }

    /// The counts once `gate` declined once more.
    pub open spec fn counted(self, gate: Gate) -> DeclineSnapshot {
        match gate {
            Gate::SameAs => DeclineSnapshot { same_as: counted_on(self.same_as), ..self },
            Gate::TxDuplicate => DeclineSnapshot {
                tx_duplicate: counted_on(self.tx_duplicate),
                ..self
            },
            Gate::HiddenWindow => DeclineSnapshot {
                hidden_window: counted_on(self.hidden_window),
                ..self
            },
            Gate::IsResize => DeclineSnapshot { is_resize: counted_on(self.is_resize), ..self },
            Gate::LowPower => DeclineSnapshot { low_power: counted_on(self.low_power), ..self },
            Gate::AnimateOff => DeclineSnapshot {
                animate_off: counted_on(self.animate_off),
                ..self
            },
            Gate::TransitionNone => DeclineSnapshot {
                transition_none: counted_on(self.transition_none),
                ..self
            },
            Gate::ZeroDuration => DeclineSnapshot {
                zero_duration: counted_on(self.zero_duration),
                ..self
            },
            Gate::NoWindows => DeclineSnapshot { no_windows: counted_on(self.no_windows), ..self },
        }
    }
}

/// Counts the gates that declined.
pub struct DeclineCounters {
    pub counts: DeclineSnapshot,
}

impl DeclineCounters {
    pub fn count(&mut self, gate: Gate)
        ensures
            final(self).counts == old(self).counts.counted(gate),
    {
        match gate {
            Gate::SameAs => {
                self.counts.same_as = self.counts.same_as.wrapping_add(1);
            },
            Gate::TxDuplicate => {
                self.counts.tx_duplicate = self.counts.tx_duplicate.wrapping_add(1);
            },
            Gate::HiddenWindow => {
                self.counts.hidden_window = self.counts.hidden_window.wrapping_add(1);
            },
            Gate::IsResize => {
                self.counts.is_resize = self.counts.is_resize.wrapping_add(1);
            },
            Gate::LowPower => {
                self.counts.low_power = self.counts.low_power.wrapping_add(1);
            },
            Gate::AnimateOff => {
                self.counts.animate_off = self.counts.animate_off.wrapping_add(1);
            },
            Gate::TransitionNone => {
                self.counts.transition_none = self.counts.transition_none.wrapping_add(1);
            },
            Gate::ZeroDuration => {
                self.counts.zero_duration = self.counts.zero_duration.wrapping_add(1);
            },
            Gate::NoWindows => {
                self.counts.no_windows = self.counts.no_windows.wrapping_add(1);
            },
        }
    }
}

/// The totals of the gates.
pub fn decline_counts(counters: &DeclineCounters) -> (r: DeclineSnapshot)
    ensures
        r == counters.counts,
{
    counters.counts
}

/// A window and the frame, rounded to whole points, that a layout gives it.
#[derive(Clone, Copy, Debug, PartialEq, Eq, Structural)]
pub struct LayoutTarget {
    pub wid: WindowId,
    pub frame: Frame,
    /// Whether the window has that frame already.
    pub unchanged: bool,
    /// Whether it has that size already.
    pub size_unchanged: bool,
    /// Whether that frame was asked for and is still pending.
    pub duplicate: bool,
    /// Whether the window is in the workspace that shows.
    pub shown: bool,
}

/// A frame that is asked for without animation. Once the application was told, the window has it.
#[derive(Clone, Copy, Debug, PartialEq, Eq, Structural)]
pub struct DirectFrame {
    pub wid: WindowId,
    pub frame: Frame,
    pub txid: TransactionId,
}

/// The windows, the transactions and the counts while a layout is placed.
#[verifier::ext_equal]
pub struct Placing {
    pub windows: Windows,
    pub tx: Transactions,
    pub counts: DeclineSnapshot,
    pub anim: Anim,
    pub direct: Seq<DirectFrame>,
    pub changed: bool,
}

impl Placing {
    pub open spec fn counted(self, gate: Gate) -> Placing {
        Placing { counts: self.counts.counted(gate), ..self }
    }

    pub open spec fn marked(self, wid: WindowId) -> Placing {
        Placing { anim: self.anim.marked(wid), ..self }
    }

    /// The transaction that the next request for a window gets.
    pub open spec fn next_txid(self, wid: WindowId) -> TransactionId {
        match self.windows.windows[wid].window_server_id {
            Some(wsid) => last_txid_of(self.tx.records, wsid).spec_next(),
            None => TransactionId(0),
        }
    }

    /// A transaction begins for a window.
    pub open spec fn begun(self, wid: WindowId) -> Placing {
        match self.windows.windows[wid].window_server_id {
            Some(wsid) => Placing {
                tx: self.tx.with_record(
                    wsid,
                    TxRecord {
                        txid: self.next_txid(wid),
                        target: target_of(self.tx.records, wsid),
                    },
                ),
                ..self
            },
            None => self,
        }
    }

    /// The transaction of a window asks for `frame`.
    pub open spec fn asked(self, wid: WindowId, frame: Frame, txid: TransactionId) -> Placing {
        match self.windows.windows[wid].window_server_id {
            Some(wsid) => Placing {
                tx: self.tx.with_record(wsid, TxRecord { txid, target: Some(frame) }),
                ..self
            },
            None => self,
        }
    }

    /// A window has `frame`.
    pub open spec fn has(self, wid: WindowId, frame: Frame) -> Placing {
        Placing {
            windows: Windows {
                windows: self.windows.windows.insert(
                    wid,
                    WindowState { frame_monotonic: frame, ..self.windows.windows[wid] },
                ),
                ..self.windows
            },
            ..self
        }
    }

    /// One window of an animated layout.
    pub open spec fn place(
        self,
        t: LayoutTarget,
        skip: Option<WindowId>,
        suppress: bool,
        apps: Set<Pid>,
    ) -> Placing {
        if skip == Some(t.wid) {
            self.marked(t.wid)
        } else if !self.windows.windows.dom().contains(t.wid) {
            self
        } else if !suppress && t.unchanged {
            self.counted(Gate::SameAs)
        } else if !suppress && t.duplicate && self.windows.windows[t.wid].window_server_id
            is Some {
            self.counted(Gate::TxDuplicate)
        } else {
            let w = self.windows.windows[t.wid];
            let txid = self.next_txid(t.wid);
            let begun = Placing { changed: true, ..self.begun(t.wid) };
            if !apps.contains(t.wid.pid) {
                begun
            } else if t.shown {
                Placing {
                    anim: begun.anim.with(
                        AnimatedWindow {
                            wid: t.wid,
                            start: w.frame_monotonic,
                            finish: t.frame,
                            is_focus: false,
                            txid,
                        },
                    ),
                    ..begun
                }.asked(t.wid, t.frame, txid).has(t.wid, t.frame)
            } else {
                Placing {
                    direct: begun.direct.push(DirectFrame { wid: t.wid, frame: t.frame, txid }),
                    ..begun
                }.marked(t.wid).counted(Gate::HiddenWindow).asked(t.wid, t.frame, txid)
            }
        }
    }

    /// One window of an animated workspace switch.
    pub open spec fn slide(
        self,
        t: LayoutTarget,
        skip: Option<WindowId>,
        start: Frame,
        apps: Set<Pid>,
    ) -> Placing {
        if skip == Some(t.wid) {
            self.marked(t.wid)
        } else if !self.windows.windows.dom().contains(t.wid) {
            self
        } else {
            let txid = self.next_txid(t.wid);
            let begun = self.begun(t.wid);
            if !apps.contains(t.wid.pid) {
                begun
            } else {
                let there = begun.has(t.wid, t.frame).asked(t.wid, t.frame, txid);
                Placing {
                    anim: there.anim.with(
                        AnimatedWindow {
                            wid: t.wid,
                            start,
                            finish: t.frame,
                            is_focus: false,
                            txid,
                        },
                    ),
                    ..there
                }
            }
        }
    }
}

/// All windows of an animated layout, one after the other.
pub open spec fn placed(
    start: Placing,
    layout: Seq<LayoutTarget>,
    skip: Option<WindowId>,
    suppress: bool,
    apps: Set<Pid>,
) -> Placing
    decreases layout.len(),
{
    if layout.len() == 0 {
        start
    } else {
        placed(start, layout.drop_last(), skip, suppress, apps).place(
            layout.last(),
            skip,
            suppress,
            apps,
        )
    }
}

/// Where the window of a workspace switch starts.
pub open spec fn slide_start(transition: Transition, t: LayoutTarget, offscreen_x: u64) -> Frame {
    if transition == Transition::Slide {
        Frame { x: offscreen_x, ..t.frame }
    } else {
        t.frame
    }
}

/// All windows of an animated workspace switch, one after the other.
pub open spec fn slid(
    start: Placing,
    layout: Seq<LayoutTarget>,
    skip: Option<WindowId>,
    transition: Transition,
    offscreen_x: u64,
    apps: Set<Pid>,
) -> Placing
    decreases layout.len(),
{
    if layout.len() == 0 {
        start
    } else {
        slid(start, layout.drop_last(), skip, transition, offscreen_x, apps).slide(
            layout.last(),
            skip,
            slide_start(transition, layout.last(), offscreen_x),
            apps,
        )
    }
}

/// How a workspace switch is shown.
#[derive(Clone, Copy, Debug, PartialEq, Eq, Structural)]
pub enum Transition {
    Instant,
    Slide,
    Fade,
}

/// How an animation is handed to the actor that runs it.
#[derive(Clone, Copy, Debug, PartialEq, Eq, Structural)]
pub enum Dispatch {
    /// There is nothing to run.
    Nothing,
    Replace,
    SkipToEnd,
}

/// The settings that animations depend on.
#[derive(Clone, Copy, Debug, PartialEq, Eq, Structural)]
pub struct AnimationSettings {
    pub interval_ns: u64,
    pub frames: u32,
    pub animate: bool,
    /// Whether the layout at hand is animated; this overrides `animate`.
    pub layout_animate: Option<bool>,
    pub transition: Transition,
    /// Whether duration and steps per second are more than zero.
    pub has_duration: bool,
    pub low_power: bool,
}

impl AnimationSettings {
    pub open spec fn animates_layout(self) -> bool {
        match self.layout_animate {
            Some(animate) => animate,
            None => self.animate,
        }
    }

    fn layout_animates(&self) -> (r: bool)
        ensures
            r == self.animates_layout(),
    {
        match self.layout_animate {
            Some(animate) => animate,
            None => self.animate,
        }
    }

    pub open spec fn anim(self) -> Anim {
        Anim {
            interval_ns: self.interval_ns,
            frames: self.frames,
            windows: Seq::empty(),
            handled: Seq::empty(),
        }
    }
}

/// A layout that was placed.
pub struct Placement {
    pub animation: Animation,
    pub dispatch: Dispatch,
    pub direct: Vec<DirectFrame>,
    /// For a layout, whether a window was to be placed; for a workspace switch, whether an
    /// animation was started, so that nothing is left to place at once.
    pub changed: bool,
}

/// Why an animation skips to its end, if it does.
pub open spec fn skip_gate(is_resize: bool, settings: AnimationSettings) -> Option<Gate> {
    if is_resize {
        Some(Gate::IsResize)
    } else if settings.low_power {
        Some(Gate::LowPower)
    } else if !settings.animates_layout() {
        Some(Gate::AnimateOff)
    } else {
        None
    }
}

/// Why a workspace switch is not animated at all, if it is not.
pub open spec fn switch_gate(settings: AnimationSettings) -> Option<Gate> {
    if settings.transition == Transition::Instant {
        Some(Gate::TransitionNone)
    } else if !settings.has_duration {
        Some(Gate::ZeroDuration)
    } else if settings.low_power {
        Some(Gate::LowPower)
    } else if !settings.animates_layout() {
        Some(Gate::AnimateOff)
    } else {
        None
    }
}

/// Why animating a switch is declined before it is tried, if it is.
pub open spec fn wish_gate(settings: AnimationSettings) -> Option<Gate> {
    if !settings.animate {
        Some(Gate::AnimateOff)
    } else if settings.transition == Transition::Instant {
        Some(Gate::TransitionNone)
    } else if settings.low_power {
        Some(Gate::LowPower)
    } else {
        None
    }
}

pub open spec fn counts_after(counts: DeclineSnapshot, gate: Option<Gate>) -> DeclineSnapshot {
    match gate {
        Some(gate) => counts.counted(gate),
        None => counts,
    }
}

/// The state at the start of a layout.
pub open spec fn placing(
    windows: Windows,
    tx: Transactions,
    counts: DeclineSnapshot,
    settings: AnimationSettings,
) -> Placing {
    Placing {
        windows,
        tx,
        counts,
        anim: settings.anim(),
        direct: Seq::empty(),
        changed: false,
    }
}

impl WindowManager {
    /// A window has `frame`.
    pub fn record_frame(&mut self, wid: WindowId, frame: Frame)
        ensures
            final(self)@ == (if old(self)@.windows.dom().contains(wid) {
                Windows {
                    windows: old(self)@.windows.insert(
                        wid,
                        WindowState { frame_monotonic: frame, ..old(self)@.windows[wid] },
                    ),
                    ..old(self)@
                }
            } else {
                old(self)@
            }),
    {
        match self.windows.remove(&wid) {
            Some(mut state) => {
                state.frame_monotonic = frame;
                let _ = self.windows.insert(wid, state);
                assert(self@.windows =~= old(self)@.windows.insert(
                    wid,
                    WindowState { frame_monotonic: frame, ..old(self)@.windows[wid] },
                ));
            },
            None => {
                assert(self@.windows =~= old(self)@.windows);
            },
        }
    }
}

/// Begins a transaction for a window, if the window server knows it.
fn begin_transaction(tx: &mut TransactionManager, wsid: Option<u32>) -> (r: TransactionId)
    ensures
        match wsid {
            Some(id) => r == last_txid_of(old(tx)@.records, id).spec_next() && final(tx)@ == old(tx)@.with_record(
                id,
                (TxRecord { txid: r, target: target_of(old(tx)@.records, id) }),
            ),
            None => r == TransactionId(0) && final(tx)@ == old(tx)@,
        },
{
    match wsid {
        Some(id) => tx.generate_next_txid(id),
        None => TransactionId(0),
    }
}

impl AnimationManager {
    /// Places the layout of a space, moving the windows that show; `suppress` lets even windows
    /// that have their frame already be told of it. Where the space has no workspace that shows,
    /// nothing is placed.
    pub fn animate_layout(
        windows: &mut WindowManager,
        tx: &mut TransactionManager,
        counters: &mut DeclineCounters,
        apps: &VecSet<Pid>,
        has_workspace: bool,
        layout: &Vec<LayoutTarget>,
        skip: Option<WindowId>,
        is_resize: bool,
        suppress: bool,
        settings: &AnimationSettings,
    ) -> (r: Placement)
        ensures
            ({
                let start = placing(old(windows)@, old(tx)@, old(counters).counts, *settings);
                let end = if has_workspace {
                    placed(start, layout@, skip, suppress, apps@)
                } else {
                    start
                };
                let moved = end.anim.windows.len() != 0;
                &&& final(windows)@ == end.windows
                &&& final(tx)@ == end.tx
                &&& r.animation@ == end.anim
                &&& r.direct@ == end.direct
                &&& r.changed == end.changed
                &&& final(counters).counts == (if moved {
                    counts_after(end.counts, skip_gate(is_resize, *settings))
                } else {
                    end.counts
                })
                &&& r.dispatch == (if !moved {
                    Dispatch::Nothing
                } else if skip_gate(is_resize, *settings) is Some {
                    Dispatch::SkipToEnd
                } else {
                    Dispatch::Replace
                })
            }),
    {
        let ghost start = placing(windows@, tx@, counters.counts, *settings);
        let mut animation = Animation::new(settings.interval_ns, settings.frames);
        let mut direct: Vec<DirectFrame> = Vec::new();
        let mut changed: bool = false;
        if !has_workspace {
            assert(animation@ =~= start.anim);
            return Placement { animation, dispatch: Dispatch::Nothing, direct, changed };
        }
        let mut i: usize = 0;
        while i < layout.len()
            invariant
                i <= layout@.len(),
                (Placing {
                    windows: windows@,
                    tx: tx@,
                    counts: counters.counts,
                    anim: animation@,
                    direct: direct@,
                    changed,
                }) == placed(start, layout@.take(i as int), skip, suppress, apps@),
            decreases layout@.len() - i,
        {
            let t = layout[i];
            assert(layout@.take(i + 1).drop_last() =~= layout@.take(i as int));
            assert(layout@.take(i + 1).last() == t);
            i = i + 1;
            if skip == Some(t.wid) {
                animation.mark_handled(t.wid);
                continue;
            }
            let (start_frame, wsid) = match windows.windows.get(&t.wid) {
                Some(w) => (w.frame_monotonic, w.window_server_id),
                None => {
                    continue;
                },
            };
            if !suppress {
                if t.unchanged {
                    counters.count(Gate::SameAs);
                    continue;
                }
                if t.duplicate && wsid.is_some() {
                    counters.count(Gate::TxDuplicate);
                    continue;
                }
            }
            changed = true;
            let txid = begin_transaction(tx, wsid);
            if !apps.contains(&t.wid.pid) {
                continue;
            }
            match wsid {
                Some(id) => {
                    tx.store_txid(id, txid, t.frame);
                },
                None => {},
            }
            if t.shown {
                animation.add_window(t.wid, start_frame, t.frame, false, txid);
                windows.record_frame(t.wid, t.frame);
            } else {
                animation.mark_handled(t.wid);
                counters.count(Gate::HiddenWindow);
                direct.push(DirectFrame { wid: t.wid, frame: t.frame, txid });
            }
        }
        assert(layout@.take(i as int) =~= layout@);
        let mut dispatch = Dispatch::Nothing;
        if !animation.is_empty() {
            if is_resize {
                counters.count(Gate::IsResize);
                dispatch = Dispatch::SkipToEnd;
            } else if settings.low_power {
                counters.count(Gate::LowPower);
                dispatch = Dispatch::SkipToEnd;
            } else if !settings.layout_animates() {
                counters.count(Gate::AnimateOff);
                dispatch = Dispatch::SkipToEnd;
            } else {
                dispatch = Dispatch::Replace;
            }
        }
        Placement { animation, dispatch, direct, changed }
    }

    /// Whether a workspace switch is to be animated at all.
    pub fn workspace_switch_wants_animation(
        counters: &mut DeclineCounters,
        settings: &AnimationSettings,
    ) -> (r: bool)
        ensures
            r == (wish_gate(*settings) is None),
            final(counters).counts == counts_after(old(counters).counts, wish_gate(*settings)),
    {
        if !settings.animate {
            counters.count(Gate::AnimateOff);
            false
        } else if settings.transition == Transition::Instant {
            counters.count(Gate::TransitionNone);
            false
        } else if settings.low_power {
            counters.count(Gate::LowPower);
            false
        } else {
            true
        }
    }

    /// Slides or fades the windows of a workspace in; windows slide in from `offscreen_x`. The
    /// result is `None` where the switch is declined before any window was touched.
    pub fn workspace_switch_animated(
        windows: &mut WindowManager,
        tx: &mut TransactionManager,
        counters: &mut DeclineCounters,
        apps: &VecSet<Pid>,
        layout: &Vec<LayoutTarget>,
        offscreen_x: u64,
        skip: Option<WindowId>,
        settings: &AnimationSettings,
    ) -> (r: Option<Placement>)
        ensures
            match switch_gate(*settings) {
                Some(gate) => {
                    &&& r is None
                    &&& final(windows)@ == old(windows)@
                    &&& final(tx)@ == old(tx)@
                    &&& final(counters).counts == old(counters).counts.counted(gate)
                },
                None => {
                    let end = slid(
                        placing(old(windows)@, old(tx)@, old(counters).counts, *settings),
                        layout@,
                        skip,
                        settings.transition,
                        offscreen_x,
                        apps@,
                    );
                    let moved = end.anim.windows.len() != 0;
                    &&& r is Some
                    &&& final(windows)@ == end.windows
                    &&& final(tx)@ == end.tx
                    &&& r->0.animation@ == end.anim
                    &&& r->0.direct@.len() == 0
                    &&& r->0.changed == moved
                    &&& r->0.dispatch == (if moved {
                        Dispatch::Replace
                    } else {
                        Dispatch::Nothing
                    })
                    &&& final(counters).counts == (if moved {
                        end.counts
                    } else {
                        end.counts.counted(Gate::NoWindows)
                    })
                },
            },
    {
        if settings.transition == Transition::Instant {
            counters.count(Gate::TransitionNone);
            return None;
        }
        if !settings.has_duration {
            counters.count(Gate::ZeroDuration);
            return None;
        }
        if settings.low_power {
            counters.count(Gate::LowPower);
            return None;
        }
        if !settings.layout_animates() {
            counters.count(Gate::AnimateOff);
            return None;
        }
        let ghost start = placing(windows@, tx@, counters.counts, *settings);
        let mut animation = Animation::new(settings.interval_ns, settings.frames);
        let mut i: usize = 0;
        while i < layout.len()
            invariant
                i <= layout@.len(),
                (Placing {
                    windows: windows@,
                    tx: tx@,
                    counts: counters.counts,
                    anim: animation@,
                    direct: Seq::empty(),
                    changed: false,
                }) == slid(
                    start,
                    layout@.take(i as int),
                    skip,
                    settings.transition,
                    offscreen_x,
                    apps@,
                ),
            decreases layout@.len() - i,
        {
            let t = layout[i];
            assert(layout@.take(i + 1).drop_last() =~= layout@.take(i as int));
            assert(layout@.take(i + 1).last() == t);
            i = i + 1;
            if skip == Some(t.wid) {
                animation.mark_handled(t.wid);
                continue;
            }
            let wsid = match windows.windows.get(&t.wid) {
                Some(w) => w.window_server_id,
                None => {
                    continue;
                },
            };
            let txid = begin_transaction(tx, wsid);
            if !apps.contains(&t.wid.pid) {
                continue;
            }
            let from = if settings.transition == Transition::Slide {
                Frame {
                    x: offscreen_x,
                    y: t.frame.y,
                    width: t.frame.width,
                    height: t.frame.height,
                }
            } else {
                t.frame
            };
            windows.record_frame(t.wid, t.frame);
            match wsid {
                Some(id) => {
                    tx.store_txid(id, txid, t.frame);
                },
                None => {},
            }
            animation.add_window(t.wid, from, t.frame, false, txid);
        }
        assert(layout@.take(i as int) =~= layout@);
        let started: bool = !animation.is_empty();
        let mut dispatch = Dispatch::Replace;
        if !started {
            counters.count(Gate::NoWindows);
            dispatch = Dispatch::Nothing;
        }
        Some(Placement { animation, dispatch, direct: Vec::new(), changed: started })
    }
}

/// The frames that an application is asked for at once.
pub struct InstantBatch {
    pub pid: Pid,
    pub txid: TransactionId,
    /// Windows that only move.
    pub positions: Vec<PositionTarget>,
    /// Windows that get a whole frame.
    pub frames: Vec<FrameTarget>,
}

/// Whether an instant layout gives a window a new frame.
pub open spec fn is_new(windows: Windows, skip: Option<WindowId>, t: LayoutTarget) -> bool {
    &&& skip != Some(t.wid)
    &&& windows.windows.dom().contains(t.wid)
    &&& !t.unchanged
    &&& !(t.duplicate && windows.windows[t.wid].window_server_id is Some)
}

/// The targets that give a window a new frame, in order.
pub open spec fn new_targets(
    windows: Windows,
    skip: Option<WindowId>,
    layout: Seq<LayoutTarget>,
) -> Seq<LayoutTarget>
    decreases layout.len(),
{
    if layout.len() == 0 {
        Seq::empty()
    } else {
        let head = new_targets(windows, skip, layout.drop_last());
        if is_new(windows, skip, layout.last()) {
            head.push(layout.last())
        } else {
            head
        }
    }
}

/// The counts once the targets that are not new were declined.
pub open spec fn declined(
    counts: DeclineSnapshot,
    windows: Windows,
    skip: Option<WindowId>,
    layout: Seq<LayoutTarget>,
) -> DeclineSnapshot
    decreases layout.len(),
{
    if layout.len() == 0 {
        counts
    } else {
        let head = declined(counts, windows, skip, layout.drop_last());
        let t = layout.last();
        if skip == Some(t.wid) || !windows.windows.dom().contains(t.wid) {
            head
        } else if t.unchanged {
            head.counted(Gate::SameAs)
        } else if t.duplicate && windows.windows[t.wid].window_server_id is Some {
            head.counted(Gate::TxDuplicate)
        } else {
            head
        }
    }
}

/// The windows once they have their new frames.
pub open spec fn reframed(windows: Windows, targets: Seq<LayoutTarget>) -> Windows
    decreases targets.len(),
{
    if targets.len() == 0 {
        windows
    } else {
        let head = reframed(windows, targets.drop_last());
        let t = targets.last();
        Windows {
            windows: head.windows.insert(
                t.wid,
                WindowState { frame_monotonic: t.frame, ..head.windows[t.wid] },
            ),
            ..head
        }
    }
}

/// The applications that own `targets`, each at its first one.
pub open spec fn owners(targets: Seq<LayoutTarget>) -> Seq<Pid>
    decreases targets.len(),
{
    if targets.len() == 0 {
        Seq::empty()
    } else {
        let head = owners(targets.drop_last());
        if head.contains(targets.last().wid.pid) {
            head
        } else {
            head.push(targets.last().wid.pid)
        }
    }
}

/// The targets of one application.
pub open spec fn targets_of(targets: Seq<LayoutTarget>, pid: Pid) -> Seq<LayoutTarget>
    decreases targets.len(),
{
    if targets.len() == 0 {
        Seq::empty()
    } else {
        let head = targets_of(targets.drop_last(), pid);
        if targets.last().wid.pid == pid {
            head.push(targets.last())
        } else {
            head
        }
    }
}

/// The positions that are asked for, where windows only move.
pub open spec fn positions_of(targets: Seq<LayoutTarget>, position_only: bool) -> Seq<
    PositionTarget,
>
    decreases targets.len(),
{
    if targets.len() == 0 {
        Seq::empty()
    } else {
        let head = positions_of(targets.drop_last(), position_only);
        let t = targets.last();
        if position_only && t.size_unchanged {
            head.push(PositionTarget { wid: t.wid, origin: t.frame.spec_origin() })
        } else {
            head
        }
    }
}

/// The whole frames that are asked for.
pub open spec fn frames_of(targets: Seq<LayoutTarget>, position_only: bool) -> Seq<FrameTarget>
    decreases targets.len(),
{
    if targets.len() == 0 {
        Seq::empty()
    } else {
        let head = frames_of(targets.drop_last(), position_only);
        let t = targets.last();
        if position_only && t.size_unchanged {
            head
        } else {
            head.push(FrameTarget { wid: t.wid, frame: t.frame })
        }
    }
}

/// The transaction entries of one application: all its windows share the transaction.
pub open spec fn entries_of(
    windows: Windows,
    targets: Seq<LayoutTarget>,
    txid: TransactionId,
) -> Seq<TxEntry>
    decreases targets.len(),
{
    if targets.len() == 0 {
        Seq::empty()
    } else {
        let head = entries_of(windows, targets.drop_last(), txid);
        match windows.windows[targets.last().wid].window_server_id {
            Some(wsid) => head.push(TxEntry { wsid, txid, target: targets.last().frame }),
            None => head,
        }
    }
}

/// The transaction of one application's batch: that of its first window, if the window server
/// knows it.
pub open spec fn batch_txid(windows: Windows, tx: Transactions, targets: Seq<LayoutTarget>) -> Option<
    TransactionId,
> {
    match windows.windows[targets[0].wid].window_server_id {
        Some(wsid) => Some(last_txid_of(tx.records, wsid).spec_next()),
        None => None,
    }
}

/// The transactions once one application's batch was planned.
pub open spec fn batch_tx(windows: Windows, tx: Transactions, targets: Seq<LayoutTarget>) -> Transactions {
    match batch_txid(windows, tx, targets) {
        Some(txid) => Transactions {
            records: stored(tx.records, entries_of(windows, targets, txid)),
            ..tx
        },
        None => tx,
    }
}

/// The transactions once the batches of `pids` were planned one after the other.
pub open spec fn batches_tx(
    windows: Windows,
    tx: Transactions,
    targets: Seq<LayoutTarget>,
    pids: Seq<Pid>,
    apps: Set<Pid>,
) -> Transactions
    decreases pids.len(),
{
    if pids.len() == 0 {
        tx
    } else {
        let head = batches_tx(windows, tx, targets, pids.drop_last(), apps);
        if apps.contains(pids.last()) {
            batch_tx(windows, head, targets_of(targets, pids.last()))
        } else {
            head
        }
    }
}

/// The batches of `pids`, one after the other.
pub open spec fn batches_of(
    windows: Windows,
    tx: Transactions,
    targets: Seq<LayoutTarget>,
    pids: Seq<Pid>,
    apps: Set<Pid>,
    position_only: bool,
) -> Seq<Batch>
    decreases pids.len(),
{
    if pids.len() == 0 {
        Seq::empty()
    } else {
        let head = batches_of(windows, tx, targets, pids.drop_last(), apps, position_only);
        if apps.contains(pids.last()) {
            let own = targets_of(targets, pids.last());
            let before = batches_tx(windows, tx, targets, pids.drop_last(), apps);
            head.push(
                Batch {
                    pid: pids.last(),
                    txid: match batch_txid(windows, before, own) {
                        Some(txid) => txid,
                        None => TransactionId(0),
                    },
                    positions: positions_of(own, position_only),
                    frames: frames_of(own, position_only),
                },
            )
        } else {
            head
        }
    }
}

#[verifier::ext_equal]
pub struct Batch {
    pub pid: Pid,
    pub txid: TransactionId,
    pub positions: Seq<PositionTarget>,
    pub frames: Seq<FrameTarget>,
}

impl InstantBatch {
    pub open spec fn view(self) -> Batch {
        Batch {
            pid: self.pid,
            txid: self.txid,
            positions: self.positions@,
            frames: self.frames@,
        }
    }
}

pub open spec fn batch_views(batches: Seq<InstantBatch>) -> Seq<Batch> {
    batches.map_values(|b: InstantBatch| b@)
}

/// The targets for the windows of one application.
pub(crate) fn own_targets(targets: &Vec<LayoutTarget>, pid: Pid) -> (r: Vec<LayoutTarget>)
    ensures
        r@ == targets_of(targets@, pid),
{
    let mut r: Vec<LayoutTarget> = Vec::new();
    let mut i: usize = 0;
    while i < targets.len()
        invariant
            i <= targets@.len(),
            r@ == targets_of(targets@.take(i as int), pid),
        decreases targets@.len() - i,
    {
        assert(targets@.take(i + 1).drop_last() =~= targets@.take(i as int));
        if targets[i].wid.pid == pid {
            r.push(targets[i]);
        }
        i = i + 1;
    }
    assert(targets@.take(i as int) =~= targets@);
    r
}

proof fn lemma_targets_of(windows: Windows, skip: Option<WindowId>, layout: Seq<LayoutTarget>, pid: Pid)
    ensures
        ({
            let all = new_targets(windows, skip, layout);
            let own = targets_of(all, pid);
            &&& forall|i: int|
                0 <= i < own.len() ==> windows.windows.dom().contains((#[trigger] own[i]).wid)
            &&& owners(all).contains(pid) ==> own.len() > 0
        }),
    decreases layout.len(),
{
    if layout.len() > 0 {
        lemma_targets_of(windows, skip, layout.drop_last(), pid);
        let head = new_targets(windows, skip, layout.drop_last());
        let all = new_targets(windows, skip, layout);
        if is_new(windows, skip, layout.last()) {
            assert(all.drop_last() =~= head);
            crate::collections::lemma_push_contains(owners(head), layout.last().wid.pid);
            let own = targets_of(all, pid);
            let own_head = targets_of(head, pid);
            assert forall|i: int| 0 <= i < own.len() implies windows.windows.dom().contains(
                (#[trigger] own[i]).wid,
            ) by {
                if i < own_head.len() {
                    assert(own[i] == own_head[i]);
                }
            }
        }
    }
}

proof fn lemma_reframed(windows: Windows, targets: Seq<LayoutTarget>)
    requires
        forall|i: int|
            0 <= i < targets.len() ==> windows.windows.dom().contains((#[trigger] targets[i]).wid),
    ensures
        reframed(windows, targets).windows.dom() == windows.windows.dom(),
        forall|w: WindowId| #[trigger]
            windows.windows.dom().contains(w) ==> reframed(
                windows,
                targets,
            ).windows[w].window_server_id == windows.windows[w].window_server_id,
    decreases targets.len(),
{
    if targets.len() > 0 {
        let head = targets.drop_last();
        assert forall|i: int| 0 <= i < head.len() implies windows.windows.dom().contains(
            (#[trigger] head[i]).wid,
        ) by {
            assert(head[i] == targets[i]);
        }
        lemma_reframed(windows, head);
        assert(windows.windows.dom().contains(targets[targets.len() - 1].wid));
        assert(reframed(windows, targets).windows.dom() =~= windows.windows.dom());
    }
}

proof fn lemma_new_targets_known(windows: Windows, skip: Option<WindowId>, layout: Seq<LayoutTarget>)
    ensures
        forall|i: int|
            0 <= i < new_targets(windows, skip, layout).len() ==> windows.windows.dom().contains(
                (#[trigger] new_targets(windows, skip, layout)[i]).wid,
            ),
    decreases layout.len(),
{
    if layout.len() > 0 {
        lemma_new_targets_known(windows, skip, layout.drop_last());
        let head = new_targets(windows, skip, layout.drop_last());
        let all = new_targets(windows, skip, layout);
        assert forall|i: int| 0 <= i < all.len() implies windows.windows.dom().contains(
            (#[trigger] all[i]).wid,
        ) by {
            if i < head.len() {
                assert(all[i] == head[i]);
            }
        }
    }
}

/// The parts of one application's batch.
fn plan_batch(
    windows: &WindowManager,
    tx: &mut TransactionManager,
    own: &Vec<LayoutTarget>,
    pid: Pid,
    position_only: bool,
) -> (r: InstantBatch)
    requires
        own@.len() > 0,
        forall|i: int|
            0 <= i < own@.len() ==> windows@.windows.dom().contains((#[trigger] own@[i]).wid),
    ensures
        final(tx)@ == batch_tx(windows@, old(tx)@, own@),
        r@ == (Batch {
            pid,
            txid: match batch_txid(windows@, old(tx)@, own@) {
                Some(txid) => txid,
                None => TransactionId(0),
            },
            positions: positions_of(own@, position_only),
            frames: frames_of(own@, position_only),
        }),
{
    let ghost tx0 = tx@;
    let first_wsid = match windows.windows.get(&own[0].wid) {
        Some(w) => w.window_server_id,
        None => None,
    };
    assert(windows@.windows.dom().contains(own@[0].wid));
    let txid = match first_wsid {
        Some(wsid) => tx.get_last_sent_txid(wsid).next(),
        None => TransactionId(0),
    };
    let mut entries: Vec<TxEntry> = Vec::new();
    let mut positions: Vec<PositionTarget> = Vec::new();
    let mut frames: Vec<FrameTarget> = Vec::new();
    let mut i: usize = 0;
    while i < own.len()
        invariant
            i <= own@.len(),
            forall|k: int|
                0 <= k < own@.len() ==> windows@.windows.dom().contains((#[trigger] own@[k]).wid),
            entries@ == entries_of(windows@, own@.take(i as int), txid),
            positions@ == positions_of(own@.take(i as int), position_only),
            frames@ == frames_of(own@.take(i as int), position_only),
        decreases own@.len() - i,
    {
        assert(own@.take(i + 1).drop_last() =~= own@.take(i as int));
        let t = own[i];
        assert(windows@.windows.dom().contains(own@[i as int].wid));
        match windows.windows.get(&t.wid) {
            Some(w) => match w.window_server_id {
                Some(wsid) => {
                    entries.push(TxEntry { wsid, txid, target: t.frame });
                },
                None => {},
            },
            None => {},
        }
        if position_only && t.size_unchanged {
            positions.push(PositionTarget { wid: t.wid, origin: t.frame.origin() });
        } else {
            frames.push(FrameTarget { wid: t.wid, frame: t.frame });
        }
        i = i + 1;
    }
    assert(own@.take(i as int) =~= own@);
    if first_wsid.is_some() {
        tx.update_txid_entries(&entries);
    }
    InstantBatch { pid, txid, positions, frames }
}

/// A layout that was placed at once.
pub struct InstantPlacement {
    pub batches: Vec<InstantBatch>,
    pub changed: bool,
}

impl AnimationManager {
    /// Places a layout at once. While switching workspaces, windows that keep their size are
    /// only moved.
    pub fn instant_layout_inner(
        windows: &mut WindowManager,
        tx: &mut TransactionManager,
        counters: &mut DeclineCounters,
        apps: &VecSet<Pid>,
        layout: &Vec<LayoutTarget>,
        skip: Option<WindowId>,
        position_only: bool,
    ) -> (r: InstantPlacement)
        ensures
            ({
                let targets = new_targets(old(windows)@, skip, layout@);
                &&& final(windows)@ == reframed(old(windows)@, targets)
                &&& final(counters).counts == declined(
                    old(counters).counts,
                    old(windows)@,
                    skip,
                    layout@,
                )
                &&& final(tx)@ == batches_tx(
                    final(windows)@,
                    old(tx)@,
                    targets,
                    owners(targets),
                    apps@,
                )
                &&& batch_views(r.batches@) == batches_of(
                    final(windows)@,
                    old(tx)@,
                    targets,
                    owners(targets),
                    apps@,
                    position_only,
                )
                &&& r.changed == (targets.len() != 0)
            }),
    {
        let ghost w0 = windows@;
        let ghost tx0 = tx@;
        let ghost c0 = counters.counts;
        let mut targets: Vec<LayoutTarget> = Vec::new();
        let mut pids: Vec<Pid> = Vec::new();
        let mut i: usize = 0;
        while i < layout.len()
            invariant
                i <= layout@.len(),
                targets@ == new_targets(w0, skip, layout@.take(i as int)),
                pids@ == owners(targets@),
                counters.counts == declined(c0, w0, skip, layout@.take(i as int)),
                windows@ == reframed(w0, targets@),
            decreases layout@.len() - i,
        {
            assert(layout@.take(i + 1).drop_last() =~= layout@.take(i as int));
            let t = layout[i];
            assert(layout@[i as int] == t);
            let ghost targets0 = targets@;
            proof {
                lemma_new_targets_known(w0, skip, layout@.take(i as int));
                lemma_reframed(w0, targets@);
            }
            i = i + 1;
            if skip == Some(t.wid) {
                continue;
            }
            let wsid = match windows.windows.get(&t.wid) {
                Some(w) => w.window_server_id,
                None => {
                    continue;
                },
            };
            if t.unchanged {
                counters.count(Gate::SameAs);
                continue;
            }
            if t.duplicate && wsid.is_some() {
                counters.count(Gate::TxDuplicate);
                continue;
            }
            targets.push(t);
            assert(targets@.drop_last() =~= targets0);
            if !contains(&pids, &t.wid.pid) {
                pids.push(t.wid.pid);
            }
            windows.record_frame(t.wid, t.frame);
        }
        assert(layout@.take(i as int) =~= layout@);
        let ghost all = targets@;
        proof {
            lemma_new_targets_known(w0, skip, layout@);
            lemma_reframed(w0, all);
        }
        let mut batches: Vec<InstantBatch> = Vec::new();
        let mut k: usize = 0;
        assert(batch_views(batches@) =~= Seq::empty());
        while k < pids.len()
            invariant
                k <= pids@.len(),
                all == targets@,
                all == new_targets(w0, skip, layout@),
                pids@ == owners(all),
                windows@.windows.dom() == w0.windows.dom(),
                tx@ == batches_tx(windows@, tx0, all, pids@.take(k as int), apps@),
                batch_views(batches@) == batches_of(
                    windows@,
                    tx0,
                    all,
                    pids@.take(k as int),
                    apps@,
                    position_only,
                ),
            decreases pids@.len() - k,
        {
            assert(pids@.take(k + 1).drop_last() =~= pids@.take(k as int));
            let pid: Pid = pids[k];
            if apps.contains(&pid) {
                let own = own_targets(&targets, pid);
                proof {
                    assert(owners(all).contains(pid)) by {
                        assert(pids@[k as int] == pid);
                    }
                    lemma_targets_of(w0, skip, layout@, pid);
                }
                let batch = plan_batch(windows, tx, &own, pid, position_only);
                let ghost before = batches@;
                batches.push(batch);
                assert(batch_views(batches@) =~= batch_views(before).push(batch@));
            }
            k = k + 1;
        }
        assert(pids@.take(k as int) =~= pids@);
        InstantPlacement { batches, changed: targets.len() != 0 }
    }

    /// Places a layout at once.
    pub fn instant_layout(
        windows: &mut WindowManager,
        tx: &mut TransactionManager,
        counters: &mut DeclineCounters,
        apps: &VecSet<Pid>,
        layout: &Vec<LayoutTarget>,
        skip: Option<WindowId>,
    ) -> (r: InstantPlacement)
        ensures
            ({
                let targets = new_targets(old(windows)@, skip, layout@);
                &&& final(windows)@ == reframed(old(windows)@, targets)
                &&& batch_views(r.batches@) == batches_of(
                    final(windows)@,
                    old(tx)@,
                    targets,
                    owners(targets),
                    apps@,
                    false,
                )
                &&& final(tx)@ == batches_tx(
                    final(windows)@,
                    old(tx)@,
                    targets,
                    owners(targets),
                    apps@,
                )
                &&& final(counters).counts == declined(
                    old(counters).counts,
                    old(windows)@,
                    skip,
                    layout@,
                )
                &&& r.changed == (targets.len() != 0)
            }),
    {
        AnimationManager::instant_layout_inner(windows, tx, counters, apps, layout, skip, false)
    }

    /// Places the layout of a workspace that is switched to: windows that keep their size are
    /// only moved.
    pub fn workspace_switch_layout(
        windows: &mut WindowManager,
        tx: &mut TransactionManager,
        counters: &mut DeclineCounters,
        apps: &VecSet<Pid>,
        layout: &Vec<LayoutTarget>,
        skip: Option<WindowId>,
    ) -> (r: InstantPlacement)
        ensures
            ({
                let targets = new_targets(old(windows)@, skip, layout@);
                &&& final(windows)@ == reframed(old(windows)@, targets)
                &&& batch_views(r.batches@) == batches_of(
                    final(windows)@,
                    old(tx)@,
                    targets,
                    owners(targets),
                    apps@,
                    true,
                )
                &&& final(tx)@ == batches_tx(
                    final(windows)@,
                    old(tx)@,
                    targets,
                    owners(targets),
                    apps@,
                )
                &&& final(counters).counts == declined(
                    old(counters).counts,
                    old(windows)@,
                    skip,
                    layout@,
                )
                &&& r.changed == (targets.len() != 0)
            }),
    {
        AnimationManager::instant_layout_inner(windows, tx, counters, apps, layout, skip, true)
    }
}

/// How often `wid` is among `windows`.
pub open spec fn entries(windows: Seq<AnimatedWindow>, wid: WindowId) -> nat
    decreases windows.len(),
{
    if windows.len() == 0 {
        0
    } else {
        entries(windows.drop_last(), wid) + if windows.last().wid == wid {
            1nat
        } else {
            0nat
        }
    }
}

/// Whether the one at `i`, and no other, of `windows` is `wid`.
pub open spec fn is_only(windows: Seq<AnimatedWindow>, wid: WindowId, i: int) -> bool {
    &&& 0 <= i < windows.len()
    &&& windows[i].wid == wid
    &&& forall|k: int| 0 <= k < windows.len() && k != i ==> (#[trigger] windows[k]).wid != wid
}

/// The position of the last of `windows` that is `wid`, or -1.
pub open spec fn last_of(windows: Seq<AnimatedWindow>, wid: WindowId) -> int
    decreases windows.len(),
{
    if windows.len() == 0 {
        -1
    } else if windows.last().wid == wid {
        windows.len() - 1
    } else {
        last_of(windows.drop_last(), wid)
    }
}

/// How often the application of `wid` is told that the window begins to move.
pub open spec fn begins(orders: Seq<Order>, wid: WindowId) -> nat
    decreases orders.len(),
{
    if orders.len() == 0 {
        0
    } else {
        begins(orders.drop_last(), wid) + if orders.last() == Order::Begin(wid) {
            1nat
        } else {
            0nat
        }
    }
}

/// An animation that takes the place of another goes on from where the windows are. A window of
/// both starts where it was shown last, and its application is not told again that it begins to
/// move. A window of the new one alone starts where the new one has it, and its application is
/// told once, or once for each time that it is listed. A window of the old one alone goes on from where it
/// is to where it was going, unless the new one has marked it as handled, and its application is
/// told nothing. The interval is that of the new one.
pub proof fn a_replaced_animation_goes_on_from_where_windows_are(
    a: Active,
    next: Animation,
    frames: Seq<Frame>,
    wid: WindowId,
)
    requires
        frames.len() == a.anim.windows.len(),
    ensures
        ({
            let from = a.anim.windows;
            let stage = handled(Some(a), Message::Replace(next), frames);
            let to = stage.active->0.anim;
            let listed = next@.windows;
            &&& stage.active is Some
            &&& to.interval_ns == next@.interval_ns
            &&& to.frames == next@.frames
            &&& stage.active->0.next_frame == 1
            &&& begins(stage.orders, wid) == if moves(from, wid) {
                0
            } else {
                entries(listed, wid)
            }
            &&& !moves(from, wid) && (exists|i: int| #[trigger] is_only(listed, wid, i))
                ==> begins(stage.orders, wid) == 1
            &&& to.windows.len() >= listed.len()
            &&& moves(listed, wid) ==> {
                &&& entries(to.windows, wid) == entries(listed, wid)
                &&& 0 <= first_of(listed, wid) < listed.len()
                &&& to.windows[first_of(listed, wid)] == if moves(from, wid) {
                    AnimatedWindow {
                        start: frames[last_of(from, wid)],
                        ..listed[first_of(listed, wid)]
                    }
                } else {
                    listed[first_of(listed, wid)]
                }
            }
            &&& moves(from, wid) && !moves(listed, wid) && !next@.handled.contains(wid) ==> {
                let i = first_of(to.windows, wid);
                &&& entries(to.windows, wid) == 1
                &&& 0 <= i < to.windows.len()
                &&& to.windows[i] == AnimatedWindow {
                    start: frames[first_of(from, wid)],
                    ..from[first_of(from, wid)]
                }
            }
            &&& !moves(listed, wid) && (!moves(from, wid) || next@.handled.contains(wid))
                ==> !moves(to.windows, wid)
        }),
{
    let from = a.anim.windows;
    let listed = next@.windows;
    let current = located(from, frames);
    let started = patched(listed, current);
    lemma_first_of(listed, wid);
    lemma_patched(listed, from, frames, wid);
    lemma_same_windows(started, listed, wid);
    lemma_continuing(listed, from, frames, wid);
    lemma_begins(started, continuing(listed, current), wid);
    lemma_carried(started, next@.handled, from, current, wid);
    lemma_frame_of(from, frames, wid);
    lemma_first_of(from, wid);
    lemma_first_of(started, wid);
    lemma_first_of(next@.taking_over(from, current).windows, wid);
    if exists|i: int| #[trigger] is_only(listed, wid, i) {
        lemma_only(listed, wid, choose|i: int| #[trigger] is_only(listed, wid, i));
    }
}

proof fn lemma_only(windows: Seq<AnimatedWindow>, wid: WindowId, i: int)
    requires
        is_only(windows, wid, i),
    ensures
        entries(windows, wid) == 1,
    decreases windows.len(),
{
    let head = windows.drop_last();
    lemma_first_of(head, wid);
    if i < head.len() {
        assert(windows[windows.len() - 1].wid != wid);
        assert(forall|k: int| 0 <= k < head.len() ==> head[k] == windows[k]);
        lemma_only(head, wid, i);
    } else if moves(head, wid) {
        let k = choose|k: int| 0 <= k < head.len() && (#[trigger] head[k]).wid == wid;
        assert(windows[k].wid == wid);
    }
}

/// A replaced animation moves every window that the new one does, and keeps moving each of the
/// old one's that the new one does not speak for.
pub proof fn no_window_is_dropped_on_its_way(
    anim: Anim,
    previous: Seq<AnimatedWindow>,
    current: Seq<FrameTarget>,
    wid: WindowId,
)
    ensures
        moves(anim.windows, wid) ==> moves(anim.taking_over(previous, current).windows, wid),
        moves(previous, wid) && !anim.handled.contains(wid) ==> moves(
            anim.taking_over(previous, current).windows,
            wid,
        ),
        moves(previous, wid) && anim.handled.contains(wid) && !moves(anim.windows, wid) ==> !moves(
            anim.taking_over(previous, current).windows,
            wid,
        ),
{
    lemma_patched_moves(anim.windows, current, wid);
    lemma_carried(patched(anim.windows, current), anim.handled, previous, current, wid);
    lemma_first_of(anim.taking_over(previous, current).windows, wid);
    lemma_first_of(patched(anim.windows, current), wid);
}

/// Sequences that list the same windows list each of them at the same places.
proof fn lemma_same_windows(a: Seq<AnimatedWindow>, b: Seq<AnimatedWindow>, wid: WindowId)
    requires
        a.len() == b.len(),
        forall|i: int| 0 <= i < a.len() ==> (#[trigger] a[i]).wid == b[i].wid,
    ensures
        first_of(a, wid) == first_of(b, wid),
        entries(a, wid) == entries(b, wid),
        moves(a, wid) == moves(b, wid),
    decreases a.len(),
{
    lemma_first_of(a, wid);
    lemma_first_of(b, wid);
    if a.len() > 0 {
        assert forall|i: int| 0 <= i < a.drop_last().len() implies (#[trigger] a.drop_last()[i]).wid
            == b.drop_last()[i].wid by {
            assert(a[i].wid == b[i].wid);
        }
        lemma_same_windows(a.drop_last(), b.drop_last(), wid);
        assert(a[a.len() - 1].wid == b[b.len() - 1].wid);
    }
}

/// The first entry of a window that moved before starts where the last one of the old is.
proof fn lemma_patched(
    windows: Seq<AnimatedWindow>,
    from: Seq<AnimatedWindow>,
    frames: Seq<Frame>,
    wid: WindowId,
)
    requires
        from.len() <= frames.len(),
    ensures
        ({
            let all = patched(windows, located(from, frames));
            let i = first_of(windows, wid);
            &&& all.len() == windows.len()
            &&& forall|k: int|
                0 <= k < windows.len() ==> (#[trigger] all[k]).wid == windows[k].wid
            &&& moves(windows, wid) ==> 0 <= i < windows.len() && all[i] == if moves(from, wid) {
                AnimatedWindow { start: frames[last_of(from, wid)], ..windows[i] }
            } else {
                windows[i]
            }
        }),
    decreases from.len(),
{
    let current = located(from, frames);
    lemma_first_of(windows, wid);
    if from.len() > 0 {
        let head = from.drop_last();
        assert(current.drop_last() =~= located(head, frames));
        lemma_patched(windows, head, frames, wid);
        let before = patched(windows, current.drop_last());
        let w = from.last();
        lemma_same_windows(before, windows, w.wid);
        lemma_first_of(before, w.wid);
        assert(current.last() == (FrameTarget { wid: w.wid, frame: frames[from.len() - 1] }));
        if w.wid == wid {
            assert(from[from.len() - 1].wid == wid);
        } else {
            if moves(from, wid) {
                let k = choose|k: int| 0 <= k < from.len() && (#[trigger] from[k]).wid == wid;
                assert(head[k].wid == wid);
            }
            if moves(head, wid) {
                let k = choose|k: int| 0 <= k < head.len() && (#[trigger] head[k]).wid == wid;
                assert(from[k].wid == wid);
            }
            if first_of(before, w.wid) < before.len() {
                assert(before[first_of(before, w.wid)].wid == w.wid);
            }
        }
    }
}

/// The windows that were moving already are those of both animations.
proof fn lemma_continuing(
    windows: Seq<AnimatedWindow>,
    from: Seq<AnimatedWindow>,
    frames: Seq<Frame>,
    wid: WindowId,
)
    ensures
        continuing(windows, located(from, frames)).contains(wid) == (moves(windows, wid) && moves(
            from,
            wid,
        )),
    decreases from.len(),
{
    let current = located(from, frames);
    if from.len() > 0 {
        let head = from.drop_last();
        assert(current.drop_last() =~= located(head, frames));
        lemma_continuing(windows, head, frames, wid);
        let before = continuing(windows, current.drop_last());
        crate::collections::lemma_push_contains(before, from.last().wid);
        assert(current.last().wid == from.last().wid);
        if from.last().wid == wid {
            assert(from[from.len() - 1].wid == wid);
        } else if moves(from, wid) {
            let k = choose|k: int| 0 <= k < from.len() && (#[trigger] from[k]).wid == wid;
            assert(head[k].wid == wid);
        }
        if moves(head, wid) {
            let k = choose|k: int| 0 <= k < head.len() && (#[trigger] head[k]).wid == wid;
            assert(from[k].wid == wid);
        }
    }
}

proof fn lemma_begins(windows: Seq<AnimatedWindow>, skip: Seq<WindowId>, wid: WindowId)
    ensures
        begins(begin_orders(windows, skip), wid) == if skip.contains(wid) {
            0
        } else {
            entries(windows, wid)
        },
    decreases windows.len(),
{
    if windows.len() > 0 {
        lemma_begins(windows.drop_last(), skip, wid);
        let head = begin_orders(windows.drop_last(), skip);
        let w = windows.last();
        let begun = head.push(Order::Begin(w.wid));
        assert(begun.drop_last() =~= head);
        assert(begins(begun, wid) == begins(head, wid) + if w.wid == wid {
            1nat
        } else {
            0nat
        });
        let all = begin_orders(windows, skip);
        if !skip.contains(w.wid) && w.is_focus {
            assert(all.drop_last() =~= begun);
        }
    }
}

/// The first frame of a window that moves is that of its first entry.
proof fn lemma_frame_of(from: Seq<AnimatedWindow>, frames: Seq<Frame>, wid: WindowId)
    requires
        from.len() <= frames.len(),
    ensures
        frame_of(located(from, frames), wid) == if moves(from, wid) {
            Some(frames[first_of(from, wid)])
        } else {
            None
        },
    decreases from.len(),
{
    let current = located(from, frames);
    lemma_first_of(from, wid);
    if from.len() > 0 {
        assert(current.drop_last() =~= located(from.drop_last(), frames));
        lemma_frame_of(from.drop_last(), frames, wid);
        lemma_first_of(from.drop_last(), wid);
    }
}

/// What is carried over: the windows stay as they are, and each of the others that the new
/// animation does not speak for is added once.
proof fn lemma_carried(
    windows: Seq<AnimatedWindow>,
    handled: Seq<WindowId>,
    previous: Seq<AnimatedWindow>,
    current: Seq<FrameTarget>,
    wid: WindowId,
)
    ensures
        ({
            let all = carried(windows, handled, previous, current);
            let i = first_of(all, wid);
            &&& all.len() >= windows.len()
            &&& forall|k: int| 0 <= k < windows.len() ==> #[trigger] all[k] == windows[k]
            &&& moves(windows, wid) ==> entries(all, wid) == entries(windows, wid)
            &&& !moves(windows, wid) && (handled.contains(wid) || !moves(previous, wid))
                ==> entries(all, wid) == 0
            &&& !moves(windows, wid) && !handled.contains(wid) && moves(previous, wid) ==> {
                let w = previous[first_of(previous, wid)];
                &&& entries(all, wid) == 1
                &&& 0 <= i < all.len()
                &&& all[i] == match frame_of(current, wid) {
                    Some(frame) => AnimatedWindow { start: frame, ..w },
                    None => w,
                }
            }
        }),
    decreases previous.len(),
{
    lemma_first_of(windows, wid);
    if previous.len() > 0 {
        let head = carried(windows, handled, previous.drop_last(), current);
        let all = carried(windows, handled, previous, current);
        let w = previous.last();
        lemma_carried(windows, handled, previous.drop_last(), current, wid);
        lemma_first_of(previous, wid);
        lemma_first_of(previous.drop_last(), wid);
        lemma_first_of(head, wid);
        lemma_first_of(head, w.wid);
        lemma_first_of(all, wid);
        if !handled.contains(w.wid) && !moves(head, w.wid) {
            assert(all.drop_last() =~= head);
        }
    }
}

/// An animation is drawn to its end: as long as a step is left, drawing one brings the end nearer.
pub proof fn an_animation_comes_to_its_end(a: Active)
    ensures
        match ticked(a).active {
            Some(next) => next.anim == a.anim && next.anim.frames - next.next_frame
                < a.anim.frames - a.next_frame,
            None => a.next_frame >= a.anim.frames,
        },
{
}

/// The window that is being dragged is never placed.
pub proof fn a_dragged_window_is_never_placed(
    start: Placing,
    layout: Seq<LayoutTarget>,
    wid: WindowId,
    suppress: bool,
    apps: Set<Pid>,
)
    ensures
        placed(start, layout, Some(wid), suppress, apps).windows.windows.dom().contains(wid)
            == start.windows.windows.dom().contains(wid),
        start.windows.windows.dom().contains(wid) ==> placed(
            start,
            layout,
            Some(wid),
            suppress,
            apps,
        ).windows.windows[wid] == start.windows.windows[wid],
    decreases layout.len(),
{
    if layout.len() > 0 {
        a_dragged_window_is_never_placed(start, layout.drop_last(), wid, suppress, apps);
    }
}

/// A layout that every window has already asks for nothing.
pub proof fn a_layout_that_holds_asks_for_nothing(
    start: Placing,
    layout: Seq<LayoutTarget>,
    apps: Set<Pid>,
)
    requires
        forall|i: int| 0 <= i < layout.len() ==> (#[trigger] layout[i]).unchanged,
    ensures
        ({
            let end = placed(start, layout, None, false, apps);
            end.anim == start.anim && end.direct == start.direct && end.tx == start.tx
                && end.windows == start.windows && end.changed == start.changed
        }),
    decreases layout.len(),
{
    if layout.len() > 0 {
        let head = layout.drop_last();
        assert forall|i: int| 0 <= i < head.len() implies (#[trigger] head[i]).unchanged by {
            assert(head[i] == layout[i]);
        }
        a_layout_that_holds_asks_for_nothing(start, head, apps);
        assert(layout[layout.len() - 1].unchanged);
    }
}

/// Whether no window has two targets.
pub open spec fn one_target_each(layout: Seq<LayoutTarget>) -> bool {
    forall|i: int, j: int|
        0 <= i < j < layout.len() ==> (#[trigger] layout[i]).wid != (#[trigger] layout[j]).wid
}

/// Where whole frames are asked for, each window is asked for the frame that the layout gives that
/// very window, once and in the order of the layout.
pub proof fn each_window_is_asked_for_its_own_frame(targets: Seq<LayoutTarget>)
    ensures
        frames_of(targets, false).len() == targets.len(),
        positions_of(targets, false).len() == 0,
        forall|i: int|
            0 <= i < targets.len() ==> (#[trigger] frames_of(targets, false)[i]).wid
                == targets[i].wid && frames_of(targets, false)[i].frame == targets[i].frame,
    decreases targets.len(),
{
    if targets.len() > 0 {
        let head = targets.drop_last();
        each_window_is_asked_for_its_own_frame(head);
        assert forall|i: int| 0 <= i < targets.len() implies (#[trigger] frames_of(
            targets,
            false,
        )[i]).wid == targets[i].wid && frames_of(targets, false)[i].frame == targets[i].frame by {
            if i < head.len() {
                assert(frames_of(targets, false)[i] == frames_of(head, false)[i]);
                assert(head[i] == targets[i]);
            }
        }
    }
}

/// Where windows that keep their size are only moved, each of them is asked for the origin of the
/// frame that the layout gives it, and each other window for its whole frame.
pub proof fn windows_that_keep_their_size_are_only_moved(
    targets: Seq<LayoutTarget>,
    wid: WindowId,
    frame: Frame,
)
    ensures
        frames_of(targets, true).len() + positions_of(targets, true).len() == targets.len(),
        frames_of(targets, true).contains(FrameTarget { wid, frame }) <==> exists|i: int|
            0 <= i < targets.len() && (#[trigger] targets[i]).wid == wid && targets[i].frame
                == frame && !targets[i].size_unchanged,
        positions_of(targets, true).contains(
            PositionTarget { wid, origin: Point { x: frame.x, y: frame.y } },
        ) <==> exists|i: int|
            0 <= i < targets.len() && (#[trigger] targets[i]).wid == wid && targets[i].frame.x
                == frame.x && targets[i].frame.y == frame.y && targets[i].size_unchanged,
    decreases targets.len(),
{
    if targets.len() > 0 {
        let head = targets.drop_last();
        let t = targets.last();
        let n = targets.len() - 1;
        windows_that_keep_their_size_are_only_moved(head, wid, frame);
        assert(forall|k: int| 0 <= k < n ==> head[k] == targets[k]);
        assert(targets[n] == t);
        crate::collections::lemma_push_contains(
            frames_of(head, true),
            FrameTarget { wid: t.wid, frame: t.frame },
        );
        crate::collections::lemma_push_contains(
            positions_of(head, true),
            PositionTarget { wid: t.wid, origin: Point { x: t.frame.x, y: t.frame.y } },
        );
        if exists|i: int|
            0 <= i < head.len() && (#[trigger] head[i]).wid == wid && head[i].frame == frame
                && !head[i].size_unchanged {
            let i = choose|i: int|
                0 <= i < head.len() && (#[trigger] head[i]).wid == wid && head[i].frame == frame
                    && !head[i].size_unchanged;
            assert(targets[i].wid == wid);
        }
        if exists|i: int|
            0 <= i < targets.len() && (#[trigger] targets[i]).wid == wid && targets[i].frame
                == frame && !targets[i].size_unchanged {
            let i = choose|i: int|
                0 <= i < targets.len() && (#[trigger] targets[i]).wid == wid && targets[i].frame
                    == frame && !targets[i].size_unchanged;
            if i < n {
                assert(head[i].wid == wid);
            }
        }
        if exists|i: int|
            0 <= i < head.len() && (#[trigger] head[i]).wid == wid && head[i].frame.x == frame.x
                && head[i].frame.y == frame.y && head[i].size_unchanged {
            let i = choose|i: int|
                0 <= i < head.len() && (#[trigger] head[i]).wid == wid && head[i].frame.x == frame.x
                    && head[i].frame.y == frame.y && head[i].size_unchanged;
            assert(targets[i].wid == wid);
        }
        if exists|i: int|
            0 <= i < targets.len() && (#[trigger] targets[i]).wid == wid && targets[i].frame.x
                == frame.x && targets[i].frame.y == frame.y && targets[i].size_unchanged {
            let i = choose|i: int|
                0 <= i < targets.len() && (#[trigger] targets[i]).wid == wid && targets[i].frame.x
                    == frame.x && targets[i].frame.y == frame.y && targets[i].size_unchanged;
            if i < n {
                assert(head[i].wid == wid);
            }
        }
    }
}

/// The targets of an application are exactly those of its windows, and an application owns targets
/// exactly if it has one; it is named once.
pub proof fn applications_own_the_targets_of_their_windows(
    targets: Seq<LayoutTarget>,
    pid: Pid,
    t: LayoutTarget,
)
    ensures
        targets_of(targets, pid).contains(t) <==> targets.contains(t) && t.wid.pid == pid,
        owners(targets).contains(pid) <==> exists|i: int|
            0 <= i < targets.len() && (#[trigger] targets[i]).wid.pid == pid,
        owners(targets).no_duplicates(),
        one_target_each(targets) ==> one_target_each(targets_of(targets, pid)),
    decreases targets.len(),
{
    if targets.len() > 0 {
        let head = targets.drop_last();
        let last = targets.last();
        let n = targets.len() - 1;
        applications_own_the_targets_of_their_windows(head, pid, t);
        assert(targets =~= head.push(last));
        crate::collections::lemma_push_contains(head, last);
        crate::collections::lemma_push_contains(targets_of(head, pid), last);
        crate::collections::lemma_push_contains(owners(head), last.wid.pid);
        if !owners(head).contains(last.wid.pid) {
            crate::collections::lemma_push_new(owners(head), last.wid.pid);
        }
        assert(forall|k: int| 0 <= k < n ==> head[k] == targets[k]);
        assert(targets[n] == last);
        if exists|i: int| 0 <= i < head.len() && (#[trigger] head[i]).wid.pid == pid {
            let i = choose|i: int| 0 <= i < head.len() && (#[trigger] head[i]).wid.pid == pid;
            assert(targets[i].wid.pid == pid);
        }
        if exists|i: int| 0 <= i < targets.len() && (#[trigger] targets[i]).wid.pid == pid {
            let i = choose|i: int| 0 <= i < targets.len() && (#[trigger] targets[i]).wid.pid == pid;
            if i < n {
                assert(head[i].wid.pid == pid);
            }
        }
        if one_target_each(targets) {
            assert forall|i: int, j: int| 0 <= i < j < head.len() implies (
            #[trigger] head[i]).wid != (#[trigger] head[j]).wid by {
                assert(targets[i].wid != targets[j].wid);
            }
            let own = targets_of(targets, pid);
            let before = targets_of(head, pid);
            assert forall|i: int, j: int| 0 <= i < j < own.len() implies (
            #[trigger] own[i]).wid != (#[trigger] own[j]).wid by {
                assert(own[i] == before[i]);
                if j < before.len() {
                    assert(own[j] == before[j]);
                    assert(before[i].wid != before[j].wid);
                } else {
                    applications_own_the_targets_of_their_windows(head, pid, before[i]);
                    assert(before.contains(before[i]));
                    let k = head.index_of(before[i]);
                    assert(targets[k].wid != targets[n].wid);
                }
            }
        }
    }
}

/// A layout gives a window a new frame exactly if the window is known and not the one to leave
/// alone, has another frame, and was not already asked for that one.
pub proof fn windows_that_are_elsewhere_get_new_frames(
    windows: Windows,
    skip: Option<WindowId>,
    layout: Seq<LayoutTarget>,
    t: LayoutTarget,
)
    ensures
        new_targets(windows, skip, layout).contains(t) <==> layout.contains(t) && skip != Some(
            t.wid,
        ) && windows.windows.dom().contains(t.wid) && !t.unchanged && (t.duplicate
            ==> windows.windows[t.wid].window_server_id is None),
        one_target_each(layout) ==> one_target_each(new_targets(windows, skip, layout)),
    decreases layout.len(),
{
    if layout.len() > 0 {
        let head = layout.drop_last();
        let last = layout.last();
        let n = layout.len() - 1;
        windows_that_are_elsewhere_get_new_frames(windows, skip, head, t);
        assert(layout =~= head.push(last));
        crate::collections::lemma_push_contains(head, last);
        crate::collections::lemma_push_contains(new_targets(windows, skip, head), last);
        if one_target_each(layout) {
            assert(forall|k: int| 0 <= k < n ==> head[k] == layout[k]);
            assert forall|i: int, j: int| 0 <= i < j < head.len() implies (
            #[trigger] head[i]).wid != (#[trigger] head[j]).wid by {
                assert(layout[i].wid != layout[j].wid);
            }
            let own = new_targets(windows, skip, layout);
            let before = new_targets(windows, skip, head);
            assert forall|i: int, j: int| 0 <= i < j < own.len() implies (
            #[trigger] own[i]).wid != (#[trigger] own[j]).wid by {
                assert(own[i] == before[i]);
                if j < before.len() {
                    assert(own[j] == before[j]);
                    assert(before[i].wid != before[j].wid);
                } else {
                    windows_that_are_elsewhere_get_new_frames(windows, skip, head, before[i]);
                    assert(before.contains(before[i]));
                    let k = head.index_of(before[i]);
                    assert(layout[k].wid != layout[n].wid);
                }
            }
        }
    }
}

/// Whether batch `b` is the only one of an application and asks for this.
pub open spec fn is_only_batch(
    batches: Seq<Batch>,
    b: int,
    pid: Pid,
    frames: Seq<FrameTarget>,
    positions: Seq<PositionTarget>,
) -> bool {
    &&& 0 <= b < batches.len()
    &&& batches[b].pid == pid
    &&& batches[b].frames == frames
    &&& batches[b].positions == positions
    &&& forall|c: int| 0 <= c < batches.len() && c != b ==> (#[trigger] batches[c]).pid != pid
}

/// The application of every window that gets a new frame at once gets exactly one batch, and what
/// that batch asks of the window is the frame that the layout gives it.
pub proof fn instant_layouts_ask_each_window_for_its_frame(
    windows: Windows,
    tx: Transactions,
    targets: Seq<LayoutTarget>,
    pids: Seq<Pid>,
    apps: Set<Pid>,
    position_only: bool,
    k: int,
)
    requires
        0 <= k < pids.len(),
        apps.contains(pids[k]),
        pids.no_duplicates(),
    ensures
        exists|b: int| #[trigger]
            is_only_batch(
                batches_of(windows, tx, targets, pids, apps, position_only),
                b,
                pids[k],
                frames_of(targets_of(targets, pids[k]), position_only),
                positions_of(targets_of(targets, pids[k]), position_only),
            ),
    decreases pids.len(),
{
    let batches = batches_of(windows, tx, targets, pids, apps, position_only);
    let head = pids.drop_last();
    let before = batches_of(windows, tx, targets, head, apps, position_only);
    let own = targets_of(targets, pids[k]);
    let n = pids.len() - 1;
    assert(forall|i: int| 0 <= i < n ==> head[i] == pids[i]);
    if k < n {
        assert(head.no_duplicates()) by {
            assert forall|i: int, j: int|
                0 <= i < head.len() && 0 <= j < head.len() && i != j implies head[i] != head[j] by {
                assert(pids[i] != pids[j]);
            }
        }
        instant_layouts_ask_each_window_for_its_frame(
            windows,
            tx,
            targets,
            head,
            apps,
            position_only,
            k,
        );
        let b = choose|b: int| #[trigger]
            is_only_batch(
                before,
                b,
                pids[k],
                frames_of(own, position_only),
                positions_of(own, position_only),
            );
        assert(batches[b] == before[b]);
        assert(pids[k] != pids[n]);
        assert forall|c: int| 0 <= c < batches.len() && c != b implies (
        #[trigger] batches[c]).pid != pids[k] by {
            if c < before.len() {
                assert(batches[c] == before[c]);
                assert(before[c].pid != pids[k]);
            }
        }
        assert(is_only_batch(
            batches,
            b,
            pids[k],
            frames_of(own, position_only),
            positions_of(own, position_only),
        ));
    } else {
        let b = before.len() as int;
        assert(batches[b].pid == pids[k]);
        assert forall|c: int| 0 <= c < batches.len() && c != b implies (
        #[trigger] batches[c]).pid != pids[k] by {
            assert(batches[c] == before[c]);
            lemma_batches_are_of_pids(windows, tx, targets, head, apps, position_only, c);
            let i = head.index_of(before[c].pid);
            assert(pids[i] != pids[n]);
        }
        assert(is_only_batch(
            batches,
            b,
            pids[k],
            frames_of(own, position_only),
            positions_of(own, position_only),
        ));
    }
}

proof fn lemma_batches_are_of_pids(
    windows: Windows,
    tx: Transactions,
    targets: Seq<LayoutTarget>,
    pids: Seq<Pid>,
    apps: Set<Pid>,
    position_only: bool,
    c: int,
)
    requires
        0 <= c < batches_of(windows, tx, targets, pids, apps, position_only).len(),
    ensures
        pids.contains(batches_of(windows, tx, targets, pids, apps, position_only)[c].pid),
        apps.contains(batches_of(windows, tx, targets, pids, apps, position_only)[c].pid),
    decreases pids.len(),
{
    if pids.len() > 0 {
        let head = pids.drop_last();
        let before = batches_of(windows, tx, targets, head, apps, position_only);
        if c < before.len() {
            lemma_batches_are_of_pids(windows, tx, targets, head, apps, position_only, c);
            let i = head.index_of(before[c].pid);
            assert(pids[i] == before[c].pid);
        } else {
            assert(pids[pids.len() - 1] == pids.last());
        }
    }
}

/// Windows that are given new frames have them; every other window, and everything else about a
/// window, is as it was.
pub proof fn windows_have_the_frames_they_were_given(
    windows: Windows,
    targets: Seq<LayoutTarget>,
    wid: WindowId,
)
    requires
        one_target_each(targets),
        windows.windows.dom().contains(wid),
    ensures
        ({
            let after = reframed(windows, targets);
            let before = windows.windows[wid];
            &&& after.windows.dom().contains(wid)
            &&& after.window_ids == windows.window_ids && after.visible == windows.visible
            &&& after.windows[wid] == (WindowState {
                frame_monotonic: after.windows[wid].frame_monotonic,
                ..before
            })
            &&& forall|i: int|
                0 <= i < targets.len() && (#[trigger] targets[i]).wid == wid
                    ==> after.windows[wid].frame_monotonic == targets[i].frame
            &&& (forall|i: int| 0 <= i < targets.len() ==> (#[trigger] targets[i]).wid != wid)
                ==> after.windows[wid].frame_monotonic == before.frame_monotonic
        }),
    decreases targets.len(),
{
    if targets.len() > 0 {
        let head = targets.drop_last();
        let n = targets.len() - 1;
        assert(forall|k: int| 0 <= k < n ==> head[k] == targets[k]);
        assert(targets[n] == targets.last());
        assert forall|i: int, j: int| 0 <= i < j < head.len() implies (#[trigger] head[i]).wid != (
        #[trigger] head[j]).wid by {
            assert(targets[i].wid != targets[j].wid);
        }
        windows_have_the_frames_they_were_given(windows, head, wid);
        assert forall|i: int| 0 <= i < targets.len() && (#[trigger] targets[i]).wid
            == wid implies reframed(windows, targets).windows[wid].frame_monotonic
            == targets[i].frame by {
            if i < n {
                assert(head[i].wid == wid);
                assert(targets[i].wid != targets[n].wid);
            }
        }
        if forall|i: int| 0 <= i < targets.len() ==> (#[trigger] targets[i]).wid != wid {
            assert(targets[n].wid != wid);
            assert forall|i: int| 0 <= i < head.len() implies (#[trigger] head[i]).wid != wid by {
                assert(targets[i].wid != wid);
            }
        }
    }
}

/// The windows of a batch share a transaction, which is the next one of the first window, and what
/// is stored for each window is the frame that it is asked for.
pub proof fn the_windows_of_a_batch_share_a_transaction(
    windows: Windows,
    tx: Transactions,
    targets: Seq<LayoutTarget>,
    txid: TransactionId,
    e: TxEntry,
)
    ensures
        entries_of(windows, targets, txid).contains(e) <==> e.txid == txid && exists|i: int|
            0 <= i < targets.len() && windows.windows[(#[trigger] targets[i]).wid].window_server_id
                == Some(e.wsid) && targets[i].frame == e.target,
        targets.len() > 0 ==> match windows.windows[targets[0].wid].window_server_id {
            Some(wsid) => batch_txid(windows, tx, targets) == Some(
                last_txid_of(tx.records, wsid).spec_next(),
            ),
            None => batch_txid(windows, tx, targets) is None && batch_tx(windows, tx, targets)
                == tx,
        },
        batch_tx(windows, tx, targets).cleared_at == tx.cleared_at,
    decreases targets.len(),
{
    if targets.len() > 0 {
        let head = targets.drop_last();
        let n = targets.len() - 1;
        let t = targets.last();
        the_windows_of_a_batch_share_a_transaction(windows, tx, head, txid, e);
        assert(forall|k: int| 0 <= k < n ==> head[k] == targets[k]);
        assert(targets[n] == t);
        if windows.windows[t.wid].window_server_id is Some {
            crate::collections::lemma_push_contains(
                entries_of(windows, head, txid),
                TxEntry {
                    wsid: windows.windows[t.wid].window_server_id->0,
                    txid,
                    target: t.frame,
                },
            );
        }
        if exists|i: int|
            0 <= i < head.len() && windows.windows[(#[trigger] head[i]).wid].window_server_id
                == Some(e.wsid) && head[i].frame == e.target {
            let i = choose|i: int|
                0 <= i < head.len() && windows.windows[(#[trigger] head[i]).wid].window_server_id
                    == Some(e.wsid) && head[i].frame == e.target;
            assert(windows.windows[targets[i].wid].window_server_id == Some(e.wsid));
        }
        if exists|i: int|
            0 <= i < targets.len() && windows.windows[(#[trigger] targets[i]).wid].window_server_id
                == Some(e.wsid) && targets[i].frame == e.target {
            let i = choose|i: int|
                0 <= i < targets.len()
                    && windows.windows[(#[trigger] targets[i]).wid].window_server_id == Some(e.wsid)
                    && targets[i].frame == e.target;
            if i < n {
                assert(windows.windows[head[i].wid].window_server_id == Some(e.wsid));
            }
        }
    }
}

/// Each tick draws the step whose turn it is, of each window on its own way. The step in the
/// middle and the last one set the size as well. After the last step, which is as many as there
/// are, each window is told that its animation ended; before it, the next step is due.
pub proof fn each_tick_draws_the_step_whose_turn_it_is(a: Active, i: int)
    requires
        0 <= i < a.anim.windows.len(),
    ensures
        ({
            let n = a.anim.windows.len() as int;
            let w = a.anim.windows[i];
            let orders = ticked(a).orders;
            let sized = a.next_frame == a.anim.frames || a.next_frame + a.next_frame
                == a.anim.frames;
            &&& orders[i] is Step
            &&& orders[i]->Step_wid == w.wid && orders[i]->Step_txid == w.txid
            &&& orders[i]->tween.start == w.start && orders[i]->tween.finish == w.finish
            &&& orders[i]->tween.step == a.next_frame && orders[i]->tween.steps == a.anim.frames
            &&& orders[i]->set_size == sized
            &&& (orders[i]->tween.size == TweenSize::Finish) == sized
            &&& orders[i]->tween.size == TweenSize::Finish || orders[i]->tween.size
                == TweenSize::Eased
            &&& a.next_frame < a.anim.frames ==> orders.len() == n && (ticked(a).active matches Some(
                next,
            ) && next.anim == a.anim && next.next_frame == a.next_frame + 1)
            &&& a.next_frame >= a.anim.frames ==> orders.len() == 2 * n && orders[n + i]
                == Order::End(w.wid) && ticked(a).active is None
        }),
{
}

/// An animation that ends by itself leaves every window at its finish, with the size of its
/// finish: the last thing that is drawn of it is the last of its steps.
pub proof fn an_animation_ends_at_the_finish(a: Active, i: int)
    requires
        0 <= i < a.anim.windows.len(),
        a.next_frame == a.anim.frames,
    ensures
        ({
            let n = a.anim.windows.len() as int;
            let orders = ticked(a).orders;
            &&& orders[i] is Step && orders[i]->Step_wid == a.anim.windows[i].wid
            &&& orders[i]->tween.step == orders[i]->tween.steps
            &&& orders[i]->tween.finish == a.anim.windows[i].finish
            &&& orders[i]->tween.size == TweenSize::Finish && orders[i]->set_size
            &&& forall|k: int| n <= k < orders.len() ==> (#[trigger] orders[k]) is End
        }),
{
}

/// A running animation that is cut short puts each of its windows at its finish and ends it, and
/// the windows that are placed instead are each placed where they are going.
pub proof fn cut_short_animations_end_at_the_finish(windows: Seq<AnimatedWindow>, i: int)
    requires
        0 <= i < windows.len(),
    ensures
        finish_orders(windows).len() == 2 * windows.len(),
        ({
            let order = finish_orders(windows)[2 * i];
            &&& order is Step && order->Step_wid == windows[i].wid
            &&& order->tween.start == windows[i].finish && order->tween.finish == windows[i].finish
            &&& order->tween.size == TweenSize::Finish && order->set_size
            &&& order->Step_txid == windows[i].txid
        }),
        finish_orders(windows)[2 * i + 1] == Order::End(windows[i].wid),
        place_orders(windows).len() == windows.len(),
        place_orders(windows)[i] == (Order::Place {
            wid: windows[i].wid,
            frame: windows[i].finish,
            txid: windows[i].txid,
        }),
    decreases windows.len(),
{
    let head = windows.drop_last();
    if i < head.len() {
        cut_short_animations_end_at_the_finish(head, i);
        assert(head[i] == windows[i]);
    } else {
        lemma_finish_orders_len(head);
    }
}

proof fn lemma_finish_orders_len(windows: Seq<AnimatedWindow>)
    ensures
        finish_orders(windows).len() == 2 * windows.len(),
    decreases windows.len(),
{
    if windows.len() > 0 {
        lemma_finish_orders_len(windows.drop_last());
    }
}

/// Skipping to the end finishes what runs, then places what comes, and nothing runs after that. An
/// animation that starts where none runs begins with its first step, for each of its windows.
pub proof fn animations_start_and_skip_as_told(
    active: Option<Active>,
    next: Animation,
    frames: Seq<Frame>,
)
    ensures
        ({
            let stage = handled(active, Message::SkipToEnd(next), frames);
            &&& stage.active is None
            &&& active matches Some(a) ==> stage.orders == finish_orders(a.anim.windows)
                + place_orders(next@.windows)
            &&& active is None ==> stage.orders == place_orders(next@.windows)
        }),
        active is None && next@.windows.len() > 0 ==> {
            let stage = handled(active, Message::Replace(next), frames);
            &&& stage.active matches Some(a) && a.anim == next@ && a.next_frame == 1
            &&& stage.orders == begin_orders(next@.windows, Seq::empty())
        },
        active is None && next@.windows.len() == 0 ==> {
            let stage = handled(active, Message::Replace(next), frames);
            stage.active is None && stage.orders.len() == 0
        },
{
}

/// Only windows that were not moving already are told that they begin; a focused one is given its
/// new size at its start.
pub proof fn only_windows_at_rest_begin(
    windows: Seq<AnimatedWindow>,
    skip: Seq<WindowId>,
    order: Order,
)
    ensures
        begin_orders(windows, skip).contains(order) <==> exists|i: int|
            {
                let w = #[trigger] windows[i];
                &&& 0 <= i < windows.len() && !skip.contains(w.wid)
                &&& order == Order::Begin(w.wid) || (w.is_focus && order is Step
                    && order->Step_wid == w.wid && order->tween.start == w.start
                    && order->tween.finish == w.finish && order->tween.step == 0
                    && order->tween.steps == 0 && order->tween.size == TweenSize::Finish
                    && order->set_size && order->Step_txid == w.txid)
            },
    decreases windows.len(),
{
    if windows.len() > 0 {
        let head = windows.drop_last();
        let n = windows.len() - 1;
        let w = windows.last();
        only_windows_at_rest_begin(head, skip, order);
        assert(forall|k: int| 0 <= k < n ==> head[k] == windows[k]);
        assert(windows[n] == w);
        let before = begin_orders(head, skip);
        let size = Order::Step {
            wid: w.wid,
            tween: Tween {
                start: w.start,
                finish: w.finish,
                step: 0,
                steps: 0,
                size: TweenSize::Finish,
            },
            set_size: true,
            txid: w.txid,
        };
        crate::collections::lemma_push_contains(before, Order::Begin(w.wid));
        crate::collections::lemma_push_contains(before.push(Order::Begin(w.wid)), size);
        if before.contains(order) {
            let i = choose|i: int|
                {
                    let w = #[trigger] head[i];
                    &&& 0 <= i < head.len() && !skip.contains(w.wid)
                    &&& order == Order::Begin(w.wid) || (w.is_focus && order is Step
                        && order->Step_wid == w.wid && order->tween.start == w.start
                        && order->tween.finish == w.finish && order->tween.step == 0
                        && order->tween.steps == 0 && order->tween.size == TweenSize::Finish
                        && order->set_size && order->Step_txid == w.txid)
                };
            assert(windows[i] == head[i]);
        }
        if exists|i: int|
            {
                let w = #[trigger] windows[i];
                &&& 0 <= i < windows.len() && !skip.contains(w.wid)
                &&& order == Order::Begin(w.wid) || (w.is_focus && order is Step
                    && order->Step_wid == w.wid && order->tween.start == w.start
                    && order->tween.finish == w.finish && order->tween.step == 0
                    && order->tween.steps == 0 && order->tween.size == TweenSize::Finish
                    && order->set_size && order->Step_txid == w.txid)
            } {
            let i = choose|i: int|
                {
                    let w = #[trigger] windows[i];
                    &&& 0 <= i < windows.len() && !skip.contains(w.wid)
                    &&& order == Order::Begin(w.wid) || (w.is_focus && order is Step
                        && order->Step_wid == w.wid && order->tween.start == w.start
                        && order->tween.finish == w.finish && order->tween.step == 0
                        && order->tween.steps == 0 && order->tween.size == TweenSize::Finish
                        && order->set_size && order->Step_txid == w.txid)
                };
            if i < n {
                assert(head[i] == windows[i]);
            }
        }
    }
}

/// Where a window is while it moves follows from the last step that was drawn of it: none before
/// the first. It has the size of its finish from the middle on, and a focused one from the start.
pub proof fn windows_are_where_they_were_drawn_last(a: Active, i: int)
    requires
        0 <= i < a.anim.windows.len(),
    ensures
        a.tweens().len() == a.anim.windows.len(),
        ({
            let t = a.tweens()[i];
            let w = a.anim.windows[i];
            &&& t.start == w.start && t.finish == w.finish && t.steps == a.anim.frames
            &&& a.next_frame > 0 ==> t.step == a.next_frame - 1
            &&& a.next_frame == 0 ==> t.step == 0
            &&& w.is_focus ==> t.size == TweenSize::Finish
            &&& !w.is_focus && t.step > 0 && t.step + t.step >= a.anim.frames ==> t.size
                == TweenSize::Finish
            &&& !w.is_focus && (t.step == 0 || t.step + t.step < a.anim.frames) ==> t.size
                == TweenSize::Start
        }),
        located(a.anim.windows, seq![]).len() == a.anim.windows.len(),
{
}

/// What a replaced animation goes on from is each window with the frame that it is at.
pub proof fn windows_are_located_with_their_own_frames(
    windows: Seq<AnimatedWindow>,
    frames: Seq<Frame>,
    i: int,
)
    requires
        0 <= i < windows.len(),
    ensures
        located(windows, frames)[i].wid == windows[i].wid,
        located(windows, frames)[i].frame == frames[i],
        Tween::still(frames[i]).start == frames[i] && Tween::still(frames[i]).finish == frames[i],
        Tween::still(frames[i]).size == TweenSize::Finish,
{
}

/// Whether a target is one that an animated layout acts on.
pub open spec fn acts_on(
    windows: Windows,
    t: LayoutTarget,
    skip: Option<WindowId>,
    suppress: bool,
) -> bool {
    &&& skip != Some(t.wid)
    &&& windows.windows.dom().contains(t.wid)
    &&& suppress || (!t.unchanged && !(t.duplicate && windows.windows[t.wid].window_server_id
        is Some))
}

/// One target of an animated layout: a window that shows is moved from where it is to the frame
/// that the layout gives it, and has that frame; one that does not show is asked for the frame
/// without being moved. The transaction that is stored asks for that frame. Windows of unknown
/// applications, and all others, stay as they are.
pub proof fn a_target_moves_its_window_to_its_frame(
    start: Placing,
    t: LayoutTarget,
    skip: Option<WindowId>,
    suppress: bool,
    apps: Set<Pid>,
    other: WindowId,
)
    ensures
        ({
            let end = start.place(t, skip, suppress, apps);
            let acts = acts_on(start.windows, t, skip, suppress);
            let known = acts && apps.contains(t.wid.pid);
            let w = start.windows.windows[t.wid];
            &&& end.changed == (start.changed || acts)
            &&& known && t.shown ==> {
                let moved = end.anim.windows.last();
                &&& end.anim.windows.len() == start.anim.windows.len() + 1
                &&& end.anim.windows.drop_last() =~= start.anim.windows
                &&& moved.wid == t.wid && moved.finish == t.frame
                &&& moved.start == w.frame_monotonic && !moved.is_focus
                &&& end.windows.windows[t.wid].frame_monotonic == t.frame
                &&& end.direct == start.direct
                &&& w.window_server_id matches Some(wsid) ==> end.tx.records[wsid].target == Some(
                    t.frame,
                ) && end.tx.records[wsid].txid == moved.txid && moved.txid == last_txid_of(
                    start.tx.records,
                    wsid,
                ).spec_next()
            }
            &&& known && !t.shown ==> {
                let asked = end.direct.last();
                &&& end.direct.len() == start.direct.len() + 1
                &&& end.direct.drop_last() =~= start.direct
                &&& asked.wid == t.wid && asked.frame == t.frame
                &&& end.anim.windows == start.anim.windows && end.windows == start.windows
                &&& w.window_server_id matches Some(wsid) ==> end.tx.records[wsid].target == Some(
                    t.frame,
                ) && end.tx.records[wsid].txid == asked.txid
            }
            &&& !known ==> end.anim.windows == start.anim.windows && end.direct == start.direct
                && end.windows == start.windows
            &&& !acts ==> end.tx == start.tx
            &&& end.windows.windows.dom() =~= (if known && t.shown {
                start.windows.windows.dom().insert(t.wid)
            } else {
                start.windows.windows.dom()
            })
            &&& other != t.wid ==> end.windows.windows[other] == start.windows.windows[other]
            &&& end.windows.windows[t.wid].window_server_id == w.window_server_id
            &&& skip == Some(t.wid) || (known && (t.shown || !t.shown)) ==> end.anim.handled.contains(
                t.wid,
            )
        }),
{
    let end = start.place(t, skip, suppress, apps);
    crate::collections::lemma_push_contains(start.anim.handled, t.wid);
}

/// An animated layout as a whole moves every window that shows, is elsewhere and whose application
/// is known, from where it was to the frame that the layout gives it.
pub proof fn layouts_move_windows_to_their_frames(
    start: Placing,
    layout: Seq<LayoutTarget>,
    skip: Option<WindowId>,
    suppress: bool,
    apps: Set<Pid>,
    i: int,
)
    requires
        one_target_each(layout),
        0 <= i < layout.len(),
        acts_on(start.windows, layout[i], skip, suppress),
        apps.contains(layout[i].wid.pid),
    ensures
        ({
            let end = placed(start, layout, skip, suppress, apps);
            let t = layout[i];
            let w = start.windows.windows[t.wid];
            &&& end.changed
            &&& t.shown ==> end.windows.windows[t.wid].frame_monotonic == t.frame && exists|k: int|
                0 <= k < end.anim.windows.len() && (#[trigger] end.anim.windows[k]).wid == t.wid
                    && end.anim.windows[k].start == w.frame_monotonic
                    && end.anim.windows[k].finish == t.frame
            &&& !t.shown ==> end.windows.windows[t.wid] == w && exists|k: int|
                0 <= k < end.direct.len() && (#[trigger] end.direct[k]).wid == t.wid
                    && end.direct[k].frame == t.frame
        }),
    decreases layout.len(),
{
    let head = layout.drop_last();
    let n = layout.len() - 1;
    let t = layout[i];
    let last = layout.last();
    assert(forall|k: int| 0 <= k < n ==> head[k] == layout[k]);
    assert(layout[n] == last);
    assert forall|a: int, b: int| 0 <= a < b < head.len() implies (#[trigger] head[a]).wid != (
    #[trigger] head[b]).wid by {
        assert(layout[a].wid != layout[b].wid);
    }
    let mid = placed(start, head, skip, suppress, apps);
    let end = placed(start, layout, skip, suppress, apps);
    a_target_moves_its_window_to_its_frame(mid, last, skip, suppress, apps, t.wid);
    if i < n {
        layouts_move_windows_to_their_frames(start, head, skip, suppress, apps, i);
        assert(layout[i].wid != layout[n].wid);
        if t.shown {
            let k = choose|k: int|
                0 <= k < mid.anim.windows.len() && (#[trigger] mid.anim.windows[k]).wid == t.wid
                    && mid.anim.windows[k].start == start.windows.windows[t.wid].frame_monotonic
                    && mid.anim.windows[k].finish == t.frame;
            assert(end.anim.windows[k] == mid.anim.windows[k]) by {
                if end.anim.windows.len() > mid.anim.windows.len() {
                    assert(end.anim.windows.drop_last()[k] == mid.anim.windows[k]);
                }
            }
        } else {
            let k = choose|k: int|
                0 <= k < mid.direct.len() && (#[trigger] mid.direct[k]).wid == t.wid
                    && mid.direct[k].frame == t.frame;
            assert(end.direct[k] == mid.direct[k]) by {
                if end.direct.len() > mid.direct.len() {
                    assert(end.direct.drop_last()[k] == mid.direct[k]);
                }
            }
        }
    } else {
        assert forall|k: int| 0 <= k < head.len() implies (#[trigger] head[k]).wid != t.wid by {
            assert(layout[k].wid != layout[n].wid);
        }
        lemma_untouched(start, head, skip, suppress, apps, t.wid);
        if t.shown {
            let k = end.anim.windows.len() - 1;
            assert(end.anim.windows[k] == end.anim.windows.last());
        } else {
            let k = end.direct.len() - 1;
            assert(end.direct[k] == end.direct.last());
        }
    }
}

proof fn lemma_untouched(
    start: Placing,
    layout: Seq<LayoutTarget>,
    skip: Option<WindowId>,
    suppress: bool,
    apps: Set<Pid>,
    wid: WindowId,
)
    requires
        forall|k: int| 0 <= k < layout.len() ==> (#[trigger] layout[k]).wid != wid,
    ensures
        ({
            let end = placed(start, layout, skip, suppress, apps);
            &&& end.windows.windows[wid] == start.windows.windows[wid]
            &&& end.windows.windows.dom().contains(wid) == start.windows.windows.dom().contains(
                wid,
            )
        }),
    decreases layout.len(),
{
    if layout.len() > 0 {
        let head = layout.drop_last();
        assert(forall|k: int| 0 <= k < head.len() ==> head[k] == layout[k]);
        lemma_untouched(start, head, skip, suppress, apps, wid);
        assert(layout[layout.len() - 1].wid != wid);
        a_target_moves_its_window_to_its_frame(
            placed(start, head, skip, suppress, apps),
            layout.last(),
            skip,
            suppress,
            apps,
            wid,
        );
    }
}

/// A workspace slides in from the side: every window starts beyond the edge at the height and with
/// the size of the frame it goes to. Without sliding it starts where it goes to.
pub proof fn windows_slide_in_from_the_side(transition: Transition, t: LayoutTarget, x: u64)
    ensures
        ({
            let start = slide_start(transition, t, x);
            &&& start.y == t.frame.y && start.width == t.frame.width
            &&& start.height == t.frame.height
            &&& transition == Transition::Slide ==> start.x == x
            &&& transition != Transition::Slide ==> start.x == t.frame.x
        }),
{
}

/// One window of an animated workspace switch goes to the frame that the layout gives it, whether
/// it is there already or not.
pub proof fn a_switch_moves_its_window_to_its_frame(
    start: Placing,
    t: LayoutTarget,
    skip: Option<WindowId>,
    from: Frame,
    apps: Set<Pid>,
    other: WindowId,
)
    ensures
        ({
            let end = start.slide(t, skip, from, apps);
            let known = skip != Some(t.wid) && start.windows.windows.dom().contains(t.wid)
                && apps.contains(t.wid.pid);
            &&& known ==> {
                let moved = end.anim.windows.last();
                &&& end.anim.windows.len() == start.anim.windows.len() + 1
                &&& end.anim.windows.drop_last() =~= start.anim.windows
                &&& moved.wid == t.wid && moved.start == from && moved.finish == t.frame
                &&& !moved.is_focus
                &&& end.windows.windows[t.wid].frame_monotonic == t.frame
                &&& end.anim.handled.contains(t.wid)
                &&& start.windows.windows[t.wid].window_server_id matches Some(wsid)
                    ==> end.tx.records[wsid].target == Some(t.frame) && end.tx.records[wsid].txid
                    == moved.txid
            }
            &&& !known ==> end.anim.windows == start.anim.windows && end.windows == start.windows
            &&& other != t.wid ==> end.windows.windows[other] == start.windows.windows[other]
            &&& end.direct == start.direct
        }),
{
    crate::collections::lemma_push_contains(start.anim.handled, t.wid);
}

/// An animated layout skips to its end for a resize, to save power, or if it is not to be
/// animated; what is set for the layout at hand goes before the general setting.
pub proof fn animations_are_skipped_for_a_reason(is_resize: bool, s: AnimationSettings)
    ensures
        skip_gate(is_resize, s) is None <==> !is_resize && !s.low_power && (s.layout_animate
            == Some(true) || (s.layout_animate is None && s.animate)),
        is_resize ==> skip_gate(is_resize, s) == Some(Gate::IsResize),
        !is_resize && s.low_power ==> skip_gate(is_resize, s) == Some(Gate::LowPower),
        switch_gate(s) is None <==> s.transition != Transition::Instant && s.has_duration
            && !s.low_power && (s.layout_animate == Some(true) || (s.layout_animate is None
            && s.animate)),
        s.transition == Transition::Instant ==> switch_gate(s) == Some(Gate::TransitionNone),
        s.transition != Transition::Instant && !s.has_duration ==> switch_gate(s) == Some(
            Gate::ZeroDuration,
        ),
        wish_gate(s) is None <==> s.animate && s.transition != Transition::Instant && !s.low_power,
        !s.animate ==> wish_gate(s) == Some(Gate::AnimateOff),
{
}

/// A gate that declines is counted by itself, and no other is.
pub proof fn each_gate_has_a_count_of_its_own(c: DeclineSnapshot, gate: Gate)
    ensures
        ({
            let n = c.counted(gate);
            &&& n.same_as == (if gate == Gate::SameAs { counted_on(c.same_as) } else { c.same_as })
            &&& n.tx_duplicate == (if gate == Gate::TxDuplicate {
                counted_on(c.tx_duplicate)
            } else {
                c.tx_duplicate
            })
            &&& n.hidden_window == (if gate == Gate::HiddenWindow {
                counted_on(c.hidden_window)
            } else {
                c.hidden_window
            })
            &&& n.is_resize == (if gate == Gate::IsResize {
                counted_on(c.is_resize)
            } else {
                c.is_resize
            })
            &&& n.low_power == (if gate == Gate::LowPower {
                counted_on(c.low_power)
            } else {
                c.low_power
            })
            &&& n.animate_off == (if gate == Gate::AnimateOff {
                counted_on(c.animate_off)
            } else {
                c.animate_off
            })
            &&& n.transition_none == (if gate == Gate::TransitionNone {
                counted_on(c.transition_none)
            } else {
                c.transition_none
            })
            &&& n.zero_duration == (if gate == Gate::ZeroDuration {
                counted_on(c.zero_duration)
            } else {
                c.zero_duration
            })
            &&& n.no_windows == (if gate == Gate::NoWindows {
                counted_on(c.no_windows)
            } else {
                c.no_windows
            })
        }),
        c.same_as < u64::MAX ==> counted_on(c.same_as) == c.same_as + 1,
        counts_after(c, None) == c,
        counts_after(c, Some(gate)) == c.counted(gate),
{
}

/// One more target that is declined is counted once: as the same if the window is there already,
/// else as a duplicate if the server was asked for it already. Others are not counted.
pub proof fn declined_targets_are_counted_once(
    counts: DeclineSnapshot,
    windows: Windows,
    skip: Option<WindowId>,
    layout: Seq<LayoutTarget>,
    t: LayoutTarget,
)
    ensures
        declined(counts, windows, skip, Seq::empty()) == counts,
        ({
            let before = declined(counts, windows, skip, layout);
            let after = declined(counts, windows, skip, layout.push(t));
            let known = skip != Some(t.wid) && windows.windows.dom().contains(t.wid);
            let again = t.duplicate && windows.windows[t.wid].window_server_id is Some;
            &&& known && t.unchanged && before.same_as < u64::MAX ==> after == (DeclineSnapshot {
                same_as: (before.same_as + 1) as u64,
                ..before
            })
            &&& known && !t.unchanged && again && before.tx_duplicate < u64::MAX ==> after == (
            DeclineSnapshot { tx_duplicate: (before.tx_duplicate + 1) as u64, ..before })
            &&& !known || (!t.unchanged && !again) ==> after == before
        }),
{
    assert(layout.push(t).drop_last() =~= layout);
}

/// A transaction that begins for a window keeps the frame that was asked for last and touches no
/// other window.
pub proof fn beginning_a_transaction_keeps_the_target(p: Placing, wid: WindowId)
    ensures
        p.begun(wid).windows == p.windows,
        p.begun(wid).anim == p.anim,
        p.begun(wid).counts == p.counts,
        p.begun(wid).direct == p.direct,
        p.begun(wid).changed == p.changed,
        p.windows.windows[wid].window_server_id is None ==> p.begun(wid).tx == p.tx,
        p.windows.windows[wid].window_server_id matches Some(wsid) ==> {
            let records = p.begun(wid).tx.records;
            &&& records.dom() == p.tx.records.dom().insert(wsid)
            &&& records[wsid].txid == p.next_txid(wid)
            &&& p.tx.records.dom().contains(wsid) ==> records[wsid].target
                == p.tx.records[wsid].target
            &&& !p.tx.records.dom().contains(wsid) ==> records[wsid].target is None
            &&& forall|other: crate::model::WindowServerId|
                other != wsid && p.tx.records.dom().contains(other) ==> (#[trigger] records[other])
                    == p.tx.records[other]
            &&& p.begun(wid).tx.cleared_at == p.tx.cleared_at
        },
{
}

/// The windows of an animated switch slide one after the other, each from its own start.
pub proof fn windows_slide_in_turn(
    start: Placing,
    layout: Seq<LayoutTarget>,
    t: LayoutTarget,
    skip: Option<WindowId>,
    transition: Transition,
    offscreen_x: u64,
    apps: Set<Pid>,
)
    ensures
        slid(start, Seq::empty(), skip, transition, offscreen_x, apps) == start,
        slid(start, layout.push(t), skip, transition, offscreen_x, apps) == slid(
            start,
            layout,
            skip,
            transition,
            offscreen_x,
            apps,
        ).slide(t, skip, slide_start(transition, t, offscreen_x), apps),
{
    assert(layout.push(t).drop_last() =~= layout);
}

/// A layout begins with nothing animated, nothing moved and nothing changed, at the pace that is
/// set.
pub proof fn layouts_begin_with_nothing_moved(
    windows: Windows,
    tx: Transactions,
    counts: DeclineSnapshot,
    settings: AnimationSettings,
)
    ensures
        placing(windows, tx, counts, settings).windows == windows,
        placing(windows, tx, counts, settings).tx == tx,
        placing(windows, tx, counts, settings).counts == counts,
        placing(windows, tx, counts, settings).direct.len() == 0,
        !placing(windows, tx, counts, settings).changed,
        placing(windows, tx, counts, settings).anim.windows.len() == 0,
        placing(windows, tx, counts, settings).anim.handled.len() == 0,
        placing(windows, tx, counts, settings).anim.frames == settings.frames,
        placing(windows, tx, counts, settings).anim.interval_ns == settings.interval_ns,
{
}

/// A window moves if and only if it is among those that are animated.
pub proof fn windows_move_if_they_are_animated(windows: Seq<AnimatedWindow>, wid: WindowId)
    ensures
        moves(windows, wid) <==> windows.map_values(|w: AnimatedWindow| w.wid).contains(wid),
{
    let ids = windows.map_values(|w: AnimatedWindow| w.wid);
    if moves(windows, wid) {
        let i = choose|i: int| 0 <= i < windows.len() && (#[trigger] windows[i]).wid == wid;
        assert(ids[i] == wid);
    }
    if ids.contains(wid) {
        let i = choose|i: int| 0 <= i < ids.len() && ids[i] == wid;
        assert(windows[i].wid == wid);
    }
}

} // verus!
