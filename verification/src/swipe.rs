//! Swipes recognized from the gesture events of the system, each of which lists its touches.

use vstd::prelude::*;

use crate::gesture_tap::{
    GesturePhase, GestureStep, HapticPattern, Motion, SwipeSettings, SwipeState,
};
#[allow(unused_imports)]
use crate::gesture_tap::at_least_one;

verus! {

#[derive(Clone, Copy, Debug, PartialEq, Eq, Structural)]
pub struct SwipeConfig {
    pub enabled: bool,
    pub invert_horizontal: bool,
    pub vertical_tolerance: u64,
    pub skip_empty_workspaces: Option<bool>,
    pub fingers: usize,
    pub distance_pct: u64,
    pub haptics_enabled: bool,
    pub haptic_pattern: HapticPattern,
}

impl SwipeConfig {
    pub open spec fn of(s: SwipeSettings) -> SwipeConfig {
        SwipeConfig {
            enabled: s.enabled,
            invert_horizontal: s.invert_horizontal,
            vertical_tolerance: s.vertical_tolerance,
            skip_empty_workspaces: if s.skip_empty {
                Some(true)
            } else {
                None
            },
            fingers: at_least_one(s.fingers),
            distance_pct: s.distance_pct,
            haptics_enabled: s.haptics_enabled,
            haptic_pattern: s.haptic_pattern,
        }
    }

    pub fn from_config(s: SwipeSettings) -> (r: SwipeConfig)
        ensures
            r == SwipeConfig::of(s),
    {
        SwipeConfig {
            enabled: s.enabled,
            invert_horizontal: s.invert_horizontal,
            vertical_tolerance: s.vertical_tolerance,
            skip_empty_workspaces: if s.skip_empty {
                Some(true)
            } else {
                None
            },
            fingers: if s.fingers == 0 {
                1
            } else {
                s.fingers
            },
            distance_pct: s.distance_pct,
            haptics_enabled: s.haptics_enabled,
            haptic_pattern: s.haptic_pattern,
        }
    }
}

#[derive(Clone, Copy, Debug, PartialEq, Eq, Structural)]
pub enum Request {
    Stop,
}

/// What a finger does.
#[derive(Clone, Copy, Debug, PartialEq, Eq, Structural)]
pub struct Touch {
    pub stationary: bool,
    /// It was lifted, or the system lost it.
    pub ended: bool,
}

/// The number of fingers that do not rest.
pub open spec fn moving(touches: Seq<Touch>) -> nat
    decreases touches.len(),
{
    if touches.len() == 0 {
        0
    } else {
        moving(touches.drop_last()) + if touches.last().stationary {
            0nat
        } else {
            1nat
        }
    }
}

/// The number of fingers that move and stay down.
pub open spec fn active(touches: Seq<Touch>) -> nat
    decreases touches.len(),
{
    if touches.len() == 0 {
        0
    } else {
        active(touches.drop_last()) + if touches.last().stationary || touches.last().ended {
            0nat
        } else {
            1nat
        }
    }
}

proof fn lemma_counts(touches: Seq<Touch>, n: int)
    requires
        0 <= n <= touches.len(),
    ensures
        active(touches) <= moving(touches),
        moving(touches) <= touches.len(),
        moving(touches.take(n)) <= moving(touches),
        active(touches) < moving(touches) <==> exists|i: int|
            0 <= i < touches.len() && (#[trigger] touches[i]).ended && !touches[i].stationary,
    decreases touches.len(),
{
    if touches.len() == 0 {
        assert(touches.take(n) =~= touches);
    } else {
        let head = touches.drop_last();
        if n == touches.len() {
            lemma_counts(head, n - 1);
            assert(touches.take(n) =~= touches);
        } else {
            lemma_counts(head, n);
            assert(head.take(n) =~= touches.take(n));
        }
        if exists|i: int| 0 <= i < touches.len() && (#[trigger] touches[i]).ended
            && !touches[i].stationary {
            let i = choose|i: int|
                0 <= i < touches.len() && (#[trigger] touches[i]).ended && !touches[i].stationary;
            if i < head.len() {
                assert(head[i].ended && !head[i].stationary);
            }
        }
        if exists|i: int| 0 <= i < head.len() && (#[trigger] head[i]).ended && !head[i].stationary {
            let i = choose|i: int|
                0 <= i < head.len() && (#[trigger] head[i]).ended && !head[i].stationary;
            assert(touches[i].ended && !touches[i].stationary);
        }
        assert(touches.last() == touches[touches.len() - 1]);
    }
}

pub struct Swipe {
    pub cfg: SwipeConfig,
    pub state: SwipeState,
}

/// Whether the touches are those of a swipe.
pub open spec fn is_swipe(cfg: SwipeConfig, touches: Seq<Touch>) -> bool {
    moving(touches) == cfg.fingers && active(touches) > 0
}

/// What an event leads to. `x` and `y` are the middle of the fingers that are down.
pub open spec fn swipe_step(
    cfg: SwipeConfig,
    state: SwipeState,
    touches: Seq<Touch>,
    x: u64,
    y: u64,
    m: Motion,
) -> (SwipeState, Seq<GestureStep>) {
    if !is_swipe(cfg, touches) {
        (SwipeState::idle(), Seq::empty())
    } else {
        match state.phase {
            GesturePhase::Idle => (
                SwipeState { phase: GesturePhase::Armed, start_x: x, start_y: y },
                Seq::empty(),
            ),
            GesturePhase::Armed => if m.swiped {
                (
                    SwipeState { phase: GesturePhase::Committed, ..state },
                    (if cfg.haptics_enabled {
                        seq![GestureStep::Haptic(cfg.haptic_pattern)]
                    } else {
                        Seq::empty()
                    }).push(
                        if m.leftward != cfg.invert_horizontal {
                            GestureStep::NextWorkspace(cfg.skip_empty_workspaces)
                        } else {
                            GestureStep::PrevWorkspace(cfg.skip_empty_workspaces)
                        },
                    ),
                )
            } else {
                (state, Seq::empty())
            },
            GesturePhase::Committed => (
                if active(touches) < moving(touches) {
                    SwipeState::idle()
                } else {
                    state
                },
                Seq::empty(),
            ),
        }
    }
}

impl Swipe {
    pub fn new(settings: SwipeSettings) -> (r: Option<Swipe>)
        ensures
            r == (if settings.enabled {
                Some(Swipe { cfg: SwipeConfig::of(settings), state: SwipeState::idle() })
            } else {
                None
            }),
    {
        let cfg = SwipeConfig::from_config(settings);
        if !cfg.enabled {
            return None;
        }
        Some(
            Swipe { cfg, state: SwipeState { phase: GesturePhase::Idle, start_x: 0, start_y: 0 } },
        )
    }

    /// Handles an event. `x` and `y` are the middle of the fingers that are down.
    pub fn handle_gesture(&mut self, touches: &Vec<Touch>, x: u64, y: u64, m: Motion) -> (r: Vec<
        GestureStep,
    >)
        ensures
            final(self).cfg == old(self).cfg,
            (final(self).state, r@) == swipe_step(
                old(self).cfg,
                old(self).state,
                touches@,
                x,
                y,
                m,
            ),
    {
        let mut out: Vec<GestureStep> = Vec::new();
        let mut touch_count: usize = 0;
        let mut active_count: usize = 0;
        let mut i: usize = 0;
        while i < touches.len()
            invariant
                i <= touches@.len(),
                touch_count == moving(touches@.take(i as int)),
                active_count == active(touches@.take(i as int)),
                active_count <= touch_count <= i,
                touch_count <= self.cfg.fingers,
                out@.len() == 0,
                self.cfg == old(self).cfg,
                self.state == old(self).state,
            decreases touches@.len() - i,
        {
            assert(touches@.take(i + 1).drop_last() =~= touches@.take(i as int));
            assert(touches@.take(i + 1).last() == touches@[i as int]);
            if !touches[i].stationary {
                touch_count = touch_count + 1;
                if touch_count > self.cfg.fingers {
                    proof {
                        lemma_counts(touches@, i + 1);
                    }
                    self.state.reset();
                    return out;
                }
                if !touches[i].ended {
                    active_count = active_count + 1;
                }
            }
            i = i + 1;
        }
        assert(touches@.take(i as int) =~= touches@);
        if touch_count != self.cfg.fingers || active_count == 0 {
            self.state.reset();
            return out;
        }
        match self.state.phase {
            GesturePhase::Idle => {
                self.state.start_x = x;
                self.state.start_y = y;
                self.state.phase = GesturePhase::Armed;
            },
            GesturePhase::Armed => {
                if m.swiped {
                    if self.cfg.haptics_enabled {
                        out.push(GestureStep::Haptic(self.cfg.haptic_pattern));
                    }
                    let left: bool = if self.cfg.invert_horizontal {
                        !m.leftward
                    } else {
                        m.leftward
                    };
                    if left {
                        out.push(GestureStep::NextWorkspace(self.cfg.skip_empty_workspaces));
                    } else {
                        out.push(GestureStep::PrevWorkspace(self.cfg.skip_empty_workspaces));
                    }
                    self.state.phase = GesturePhase::Committed;
                }
            },
            GesturePhase::Committed => {
                if active_count < touch_count {
                    self.state.reset();
                }
            },
        }
        assert(out@ =~= swipe_step(old(self).cfg, old(self).state, touches@, x, y, m).1);
        out
    }
}

/// A swipe that had its effect is over as soon as one of its fingers is lifted, and not before.
pub proof fn lifting_one_finger_ends_a_swipe(
    cfg: SwipeConfig,
    state: SwipeState,
    touches: Seq<Touch>,
    x: u64,
    y: u64,
    m: Motion,
)
    requires
        state.phase is Committed,
        is_swipe(cfg, touches),
    ensures
        swipe_step(cfg, state, touches, x, y, m).0.phase is Idle <==> exists|i: int|
            0 <= i < touches.len() && (#[trigger] touches[i]).ended && !touches[i].stationary,
        swipe_step(cfg, state, touches, x, y, m).1.len() == 0,
{
    lemma_counts(touches, 0);
}

/// Resting fingers count for nothing.
pub proof fn resting_fingers_do_not_count(touches: Seq<Touch>, rest: Touch)
    requires
        rest.stationary,
    ensures
        moving(touches.push(rest)) == moving(touches),
        active(touches.push(rest)) == active(touches),
{
    assert(touches.push(rest).drop_last() =~= touches);
}

/// The settings of a swipe are taken over as they are, for at least one finger.
pub proof fn swipes_are_configured_as_set(s: SwipeSettings)
    ensures
        ({
            let cfg = SwipeConfig::of(s);
            &&& cfg.enabled == s.enabled && cfg.invert_horizontal == s.invert_horizontal
            &&& cfg.vertical_tolerance == s.vertical_tolerance
            &&& cfg.distance_pct == s.distance_pct
            &&& cfg.haptics_enabled == s.haptics_enabled && cfg.haptic_pattern == s.haptic_pattern
            &&& cfg.skip_empty_workspaces == (if s.skip_empty { Some(true) } else { None })
            &&& cfg.fingers >= 1 && (s.fingers >= 1 ==> cfg.fingers == s.fingers)
        }),
{
}

/// The fingers that move are counted, and of those the ones that stay down.
pub proof fn moving_fingers_are_counted(touches: Seq<Touch>, t: Touch)
    ensures
        moving(Seq::<Touch>::empty()) == 0 && active(Seq::<Touch>::empty()) == 0,
        !t.stationary ==> moving(touches.push(t)) == moving(touches) + 1,
        !t.stationary && !t.ended ==> active(touches.push(t)) == active(touches) + 1,
        t.ended ==> active(touches.push(t)) == active(touches),
{
    assert(touches.push(t).drop_last() =~= touches);
}

/// A swipe begins where the fingers are. To the left it goes to the next workspace and to the right
/// to the one before, the other way round if directions are inverted; other numbers of fingers end
/// it.
pub proof fn swipes_go_their_way_once(
    cfg: SwipeConfig,
    state: SwipeState,
    touches: Seq<Touch>,
    x: u64,
    y: u64,
    m: Motion,
)
    ensures
        ({
            let (n, steps) = swipe_step(cfg, state, touches, x, y, m);
            let fits = moving(touches) == cfg.fingers && active(touches) > 0;
            let next = GestureStep::NextWorkspace(cfg.skip_empty_workspaces);
            let prev = GestureStep::PrevWorkspace(cfg.skip_empty_workspaces);
            &&& !fits ==> n.phase is Idle && steps.len() == 0
            &&& fits && state.phase is Idle ==> n.phase is Armed && n.start_x == x && n.start_y == y
                && steps.len() == 0
            &&& fits && state.phase is Armed && !m.swiped ==> n == state && steps.len() == 0
            &&& fits && state.phase is Armed && m.swiped ==> {
                &&& n.phase is Committed
                &&& m.leftward && !cfg.invert_horizontal ==> steps.last() == next
                &&& !m.leftward && !cfg.invert_horizontal ==> steps.last() == prev
                &&& m.leftward && cfg.invert_horizontal ==> steps.last() == prev
                &&& !m.leftward && cfg.invert_horizontal ==> steps.last() == next
                &&& cfg.haptics_enabled ==> steps.len() == 2 && steps[0] == GestureStep::Haptic(
                    cfg.haptic_pattern,
                )
                &&& !cfg.haptics_enabled ==> steps.len() == 1
            }
            &&& fits && state.phase is Committed ==> steps.len() == 0
        }),
{
}

} // verus!
