//! Trackpad gestures, recognized from raw contact frames: swipes that switch workspaces, and
//! scrolling of a strip of windows. A separate tap keeps the Dock from acting on swipes.
//!
//! Positions are floating-point numbers, carried as their bits; what depends on how far and where
//! the fingers moved comes with each frame as a [`Motion`].

use vstd::prelude::*;

use crate::collections::VecMap;
use crate::model::{Frame, SpaceId};
use crate::reactor::event::LayoutMode;
use crate::spaces::authority::ForwardedSpaceState;
use crate::spaces::topology::ScreenInfo;

verus! {

#[derive(Clone, Copy, Debug, PartialEq, Eq, Structural)]
pub enum HapticPattern {
    Generic,
    Alignment,
    LevelChange,
}

/// The settings of swipes. The tolerance and the distance are parts of the trackpad, brought into
/// range.
#[derive(Clone, Copy, Debug, PartialEq, Eq, Structural)]
pub struct SwipeSettings {
    pub enabled: bool,
    pub invert_horizontal: bool,
    pub vertical_tolerance: u64,
    pub skip_empty: bool,
    pub fingers: usize,
    pub distance_pct: u64,
    pub haptics_enabled: bool,
    pub haptic_pattern: HapticPattern,
    pub consume_dock_swipe: bool,
}

#[derive(Clone, Copy, Debug, PartialEq, Eq, Structural)]
pub struct ScrollSettings {
    pub enabled: bool,
    pub invert_horizontal: bool,
    pub vertical_tolerance: u64,
    pub fingers: usize,
    pub distance_pct: u64,
}

#[derive(Clone, Copy, Debug, PartialEq, Eq, Structural)]
pub struct GestureSettings {
    pub swipe: SwipeSettings,
    pub scroll: ScrollSettings,
    pub layout_mode: LayoutMode,
}

#[derive(Clone, Copy, Debug, PartialEq, Eq, Structural)]
pub struct SwipeConfig {
    pub invert_horizontal: bool,
    pub vertical_tolerance: u64,
    pub skip_empty_workspaces: Option<bool>,
    pub fingers: usize,
    pub distance_pct: u64,
    pub haptics_enabled: bool,
    pub haptic_pattern: HapticPattern,
}

#[derive(Clone, Copy, Debug, PartialEq, Eq, Structural)]
pub struct ScrollConfig {
    pub invert_horizontal: bool,
    pub vertical_tolerance: u64,
    pub fingers: usize,
    pub distance_pct: u64,
}

/// A gesture takes at least one finger.
pub open spec fn at_least_one(fingers: usize) -> usize {
    if fingers == 0 {
        1
    } else {
        fingers
    }
}

impl SwipeConfig {
    pub open spec fn of(s: SwipeSettings) -> Option<SwipeConfig> {
        if s.enabled {
            Some(
                SwipeConfig {
                    invert_horizontal: s.invert_horizontal,
                    vertical_tolerance: s.vertical_tolerance,
                    skip_empty_workspaces: if s.skip_empty {
                        Some(true)
                    } else {
                        None
                    },
                    fingers: at_least_one(s.fingers),
                    distance_pct: s.distance_pct,
                    haptics_enabled: s.haptics_enabled,
                    haptic_pattern: s.haptic_pattern,
                },
            )
        } else {
            None
        }
    }

    pub fn from_config(s: SwipeSettings) -> (r: Option<SwipeConfig>)
        ensures
            r == SwipeConfig::of(s),
    {
        if !s.enabled {
            return None;
        }
        Some(
            SwipeConfig {
                invert_horizontal: s.invert_horizontal,
                vertical_tolerance: s.vertical_tolerance,
                skip_empty_workspaces: if s.skip_empty {
                    Some(true)
                } else {
                    None
                },
                fingers: if s.fingers == 0 {
                    1
                } else {
                    s.fingers
                },
                distance_pct: s.distance_pct,
                haptics_enabled: s.haptics_enabled,
                haptic_pattern: s.haptic_pattern,
            },
        )
    }
}

impl ScrollConfig {
    pub open spec fn of(s: ScrollSettings) -> Option<ScrollConfig> {
        if s.enabled {
            Some(
                ScrollConfig {
                    invert_horizontal: s.invert_horizontal,
                    vertical_tolerance: s.vertical_tolerance,
                    fingers: at_least_one(s.fingers),
                    distance_pct: s.distance_pct,
                },
            )
        } else {
            None
        }
    }

    pub fn from_config(s: ScrollSettings) -> (r: Option<ScrollConfig>)
        ensures
            r == ScrollConfig::of(s),
    {
        if !s.enabled {
            return None;
        }
        Some(
            ScrollConfig {
                invert_horizontal: s.invert_horizontal,
                vertical_tolerance: s.vertical_tolerance,
                fingers: if s.fingers == 0 {
                    1
                } else {
                    s.fingers
                },
                distance_pct: s.distance_pct,
            },
        )
    }
}

#[derive(Clone, Copy, Debug, PartialEq, Eq, Structural)]
pub enum GesturePhase {
    /// No finger is down.
    Idle,
    /// The fingers are down, but have not moved far enough.
    Armed,
    /// The gesture had its effect.
    Committed,
}

#[derive(Clone, Copy, Debug, PartialEq, Eq, Structural)]
pub enum GestureRoute {
    Swipe,
    Scroll,
}

#[derive(Clone, Copy, Debug, PartialEq, Eq, Structural)]
pub struct SwipeState {
    pub phase: GesturePhase,
    pub start_x: u64,
    pub start_y: u64,
}

#[derive(Clone, Copy, Debug, PartialEq, Eq, Structural)]
pub struct ScrollState {
    pub phase: GesturePhase,
    pub last_x: u64,
    pub last_y: u64,
    pub accum_dx: u64,
}

/// The fingers on the trackpad and the middle of them.
#[derive(Clone, Copy, Debug, PartialEq, Eq, Structural)]
pub struct TouchSnapshot {
    pub contacts: usize,
    pub centroid_x: u64,
    pub centroid_y: u64,
    pub all_moved: bool,
}

/// How the fingers moved, as against what is recorded.
#[derive(Clone, Copy, Debug, PartialEq, Eq, Structural)]
pub struct Motion {
    /// They are far enough from where they went down, and not too far up or down.
    pub swiped: bool,
    /// They are left of where they went down.
    pub leftward: bool,
    /// Since the last frame they moved more sideways than up or down, and not too far up or down.
    pub level: bool,
    /// The way sideways that was recorded and that since the last frame, together.
    pub sum: u64,
    /// That way is far enough.
    pub far: bool,
}

#[derive(Clone, Copy, Debug, PartialEq, Eq, Structural)]
pub enum GestureStep {
    Haptic(HapticPattern),
    NextWorkspace(Option<bool>),
    PrevWorkspace(Option<bool>),
    /// Scroll the strip by the number with these bits.
    ScrollStrip(u64),
}

impl SwipeState {
    pub open spec fn idle() -> SwipeState {
        SwipeState { phase: GesturePhase::Idle, start_x: 0, start_y: 0 }
    }

    /// What a frame of the right number of fingers leads to.
    pub open spec fn swiped(self, cfg: SwipeConfig, t: TouchSnapshot, m: Motion) -> (
        SwipeState,
        Seq<GestureStep>,
    ) {
        match self.phase {
            GesturePhase::Idle => (
                SwipeState {
                    phase: GesturePhase::Armed,
                    start_x: t.centroid_x,
                    start_y: t.centroid_y,
                },
                Seq::empty(),
            ),
            GesturePhase::Armed => if m.swiped {
                (
                    SwipeState { phase: GesturePhase::Committed, ..self },
                    (if cfg.haptics_enabled {
                        seq![GestureStep::Haptic(cfg.haptic_pattern)]
                    } else {
                        Seq::empty()
                    }).push(
                        if m.leftward != cfg.invert_horizontal {
                            GestureStep::NextWorkspace(cfg.skip_empty_workspaces)
                        } else {
                            GestureStep::PrevWorkspace(cfg.skip_empty_workspaces)
                        },
                    ),
                )
            } else {
                (self, Seq::empty())
            },
            GesturePhase::Committed => (self, Seq::empty()),
        }
    }

    pub fn reset(&mut self)
        ensures
            *final(self) == SwipeState::idle(),
    {
        *self = SwipeState { phase: GesturePhase::Idle, start_x: 0, start_y: 0 };
    }
}

/// The number with the opposite sign: the sign is the highest bit.
pub open spec fn negated(bits: u64) -> u64 {
    bits ^ 0x8000_0000_0000_0000
}

impl ScrollState {
    pub open spec fn idle() -> ScrollState {
        ScrollState { phase: GesturePhase::Idle, last_x: 0, last_y: 0, accum_dx: 0 }
    }

    /// The fingers are here.
    pub open spec fn at(self, t: TouchSnapshot) -> ScrollState {
        ScrollState { last_x: t.centroid_x, last_y: t.centroid_y, ..self }
    }

    pub open spec fn scrolled(self, cfg: ScrollConfig, t: TouchSnapshot, m: Motion) -> (
        ScrollState,
        Seq<GestureStep>,
    ) {
        if self.phase is Idle {
            (ScrollState { phase: GesturePhase::Armed, ..self.at(t) }, Seq::empty())
        } else if !t.all_moved {
            (
                if self.phase is Armed {
                    self.at(t)
                } else {
                    self
                },
                Seq::empty(),
            )
        } else if !m.level {
            (self.at(t), Seq::empty())
        } else if m.far {
            (
                ScrollState { phase: GesturePhase::Committed, accum_dx: 0, ..self.at(t) },
                seq![
                    GestureStep::ScrollStrip(
                        if cfg.invert_horizontal {
                            negated(m.sum)
                        } else {
                            m.sum
                        },
                    ),
                ],
            )
        } else {
            (ScrollState { accum_dx: m.sum, ..self.at(t) }, Seq::empty())
        }
    }

    pub fn reset(&mut self)
        ensures
            *final(self) == ScrollState::idle(),
    {
        *self = ScrollState { phase: GesturePhase::Idle, last_x: 0, last_y: 0, accum_dx: 0 };
    }
}

#[derive(Clone, Copy, Debug, PartialEq, Eq, Structural)]
pub struct SwipeHandler {
    pub cfg: SwipeConfig,
    pub state: SwipeState,
}

#[derive(Clone, Copy, Debug, PartialEq, Eq, Structural)]
pub struct ScrollHandler {
    pub cfg: ScrollConfig,
    pub state: ScrollState,
}

impl SwipeHandler {
    /// What a frame leads to, and whether the gesture goes on.
    pub open spec fn after(self, t: TouchSnapshot, m: Motion) -> (
        SwipeHandler,
        Seq<GestureStep>,
        bool,
    ) {
        if t.contacts != self.cfg.fingers || t.contacts == 0 {
            (SwipeHandler { state: SwipeState::idle(), ..self }, Seq::empty(), false)
        } else {
            let r = self.state.swiped(self.cfg, t, m);
            (SwipeHandler { state: r.0, ..self }, r.1, true)
        }
    }

    pub fn handle_swipe(&mut self, t: TouchSnapshot, m: Motion, out: &mut Vec<GestureStep>) -> (r:
        bool)
        ensures
            (*final(self), final(out)@, r) == ({
                let n = old(self).after(t, m);
                (n.0, old(out)@ + n.1, n.2)
            }),
    {
        let ghost before = out@;
        if t.contacts != self.cfg.fingers || t.contacts == 0 {
            self.state.reset();
            assert(out@ =~= before + Seq::<GestureStep>::empty());
            return false;
        }
        match self.state.phase {
            GesturePhase::Idle => {
                self.state.start_x = t.centroid_x;
                self.state.start_y = t.centroid_y;
                self.state.phase = GesturePhase::Armed;
            },
            GesturePhase::Armed => {
                if m.swiped {
                    if self.cfg.haptics_enabled {
                        out.push(GestureStep::Haptic(self.cfg.haptic_pattern));
                    }
                    let left: bool = if self.cfg.invert_horizontal {
                        !m.leftward
                    } else {
                        m.leftward
                    };
                    if left {
                        out.push(GestureStep::NextWorkspace(self.cfg.skip_empty_workspaces));
                    } else {
                        out.push(GestureStep::PrevWorkspace(self.cfg.skip_empty_workspaces));
                    }
                    self.state.phase = GesturePhase::Committed;
                }
            },
            GesturePhase::Committed => {},
        }
        assert(out@ =~= before + old(self).after(t, m).1);
        true
    }
}

impl ScrollHandler {
    pub open spec fn after(self, t: TouchSnapshot, m: Motion) -> (
        ScrollHandler,
        Seq<GestureStep>,
        bool,
    ) {
        if t.contacts != self.cfg.fingers || t.contacts == 0 {
            (ScrollHandler { state: ScrollState::idle(), ..self }, Seq::empty(), false)
        } else {
            let r = self.state.scrolled(self.cfg, t, m);
            (ScrollHandler { state: r.0, ..self }, r.1, true)
        }
    }

    pub fn handle_scroll(&mut self, t: TouchSnapshot, m: Motion, out: &mut Vec<GestureStep>) -> (r:
        bool)
        ensures
            (*final(self), final(out)@, r) == ({
                let n = old(self).after(t, m);
                (n.0, old(out)@ + n.1, n.2)
            }),
    {
        let ghost before = out@;
        assert(before + Seq::<GestureStep>::empty() =~= before);
        if t.contacts != self.cfg.fingers || t.contacts == 0 {
            self.state.reset();
            return false;
        }
        if self.state.phase == GesturePhase::Idle {
            self.state.last_x = t.centroid_x;
            self.state.last_y = t.centroid_y;
            self.state.phase = GesturePhase::Armed;
            return true;
        }
        if !t.all_moved {
            if self.state.phase == GesturePhase::Armed {
                self.state.last_x = t.centroid_x;
                self.state.last_y = t.centroid_y;
            }
            return true;
        }
        self.state.last_x = t.centroid_x;
        self.state.last_y = t.centroid_y;
        if !m.level {
            return true;
        }
        self.state.accum_dx = m.sum;
        if m.far {
            let delta: u64 = if self.cfg.invert_horizontal {
                m.sum ^ 0x8000_0000_0000_0000
            } else {
                m.sum
            };
            out.push(GestureStep::ScrollStrip(delta));
            self.state.accum_dx = 0;
            self.state.phase = GesturePhase::Committed;
            assert(out@ =~= before + seq![GestureStep::ScrollStrip(delta)]);
        }
        true
    }
}

pub enum GestureRequest {
    ConfigUpdated(GestureSettings),
    LayoutModesChanged(Vec<(SpaceId, LayoutMode)>),
    SpaceStateUpdated(ForwardedSpaceState),
}

/// What becomes of the tap that keeps swipes from the Dock.
#[derive(Clone, Copy, Debug, PartialEq, Eq, Structural)]
pub enum DockTap {
    Keep,
    /// Make one with this generation, and report with [`GestureTap::dock_tap_created`].
    Create(u64),
    Remove,
}

/// What the input devices are told.
#[derive(Clone, Copy, Debug, PartialEq, Eq, Structural)]
pub struct InputOrder {
    /// Whether contact frames are wanted, where there is a trackpad.
    pub recognition: bool,
    pub dock_tap: DockTap,
}

pub struct GestureTap {
    pub settings: GestureSettings,
    pub swipe: Option<SwipeHandler>,
    pub scroll: Option<ScrollHandler>,
    /// Whether there is a trackpad.
    pub multitouch: bool,
    pub route: Option<GestureRoute>,
    pub dock_tap: bool,
    pub dock_tap_generation: u64,
    pub screen_spaces: Vec<(Frame, SpaceId)>,
    pub layout_mode_by_space: VecMap<SpaceId, LayoutMode>,
    pub default_layout_mode: LayoutMode,
}

#[verifier::ext_equal]
pub struct Gestures {
    pub settings: GestureSettings,
    pub swipe: Option<SwipeHandler>,
    pub scroll: Option<ScrollHandler>,
    pub multitouch: bool,
    pub route: Option<GestureRoute>,
    pub dock_tap: bool,
    pub generation: u64,
    pub screens: Seq<(Frame, SpaceId)>,
    pub modes: Map<SpaceId, LayoutMode>,
    pub default_mode: LayoutMode,
}

/// The screens that show a space.
pub open spec fn placed_spaces(screens: Seq<ScreenInfo>) -> Seq<(Frame, SpaceId)>
    decreases screens.len(),
{
    if screens.len() == 0 {
        Seq::empty()
    } else {
        let head = placed_spaces(screens.drop_last());
        match screens.last().space {
            Some(space) => head.push((screens.last().frame, space)),
            None => head,
        }
    }
}

/// The layout modes of the spaces; of two for one space the later counts.
pub open spec fn mode_map(modes: Seq<(SpaceId, LayoutMode)>) -> Map<SpaceId, LayoutMode>
    decreases modes.len(),
{
    if modes.len() == 0 {
        Map::empty()
    } else {
        mode_map(modes.drop_last()).insert(modes.last().0, modes.last().1)
    }
}

pub open spec fn next_generation(generation: u64) -> u64 {
    if generation == u64::MAX {
        0
    } else {
        (generation + 1) as u64
    }
}

pub open spec fn swipe_handler(s: GestureSettings) -> Option<SwipeHandler> {
    match SwipeConfig::of(s.swipe) {
        Some(cfg) => Some(SwipeHandler { cfg, state: SwipeState::idle() }),
        None => None,
    }
}

pub open spec fn scroll_handler(s: GestureSettings) -> Option<ScrollHandler> {
    match ScrollConfig::of(s.scroll) {
        Some(cfg) => Some(ScrollHandler { cfg, state: ScrollState::idle() }),
        None => None,
    }
}

impl Gestures {
    pub open spec fn handlers_enabled(self) -> bool {
        self.swipe is Some || self.scroll is Some
    }

    pub open spec fn recognizes(self) -> bool {
        self.multitouch && self.handlers_enabled()
    }

    pub open spec fn suppresses(self) -> bool {
        self.recognizes() && self.settings.swipe.consume_dock_swipe
    }

    /// No gesture is under way.
    pub open spec fn at_rest(self) -> Gestures {
        Gestures {
            route: None,
            swipe: match self.swipe {
                Some(h) => Some(SwipeHandler { state: SwipeState::idle(), ..h }),
                None => None,
            },
            scroll: match self.scroll {
                Some(h) => Some(ScrollHandler { state: ScrollState::idle(), ..h }),
                None => None,
            },
            ..self
        }
    }

    pub open spec fn synced(self) -> (Gestures, InputOrder) {
        let rested = if self.recognizes() {
            self
        } else {
            self.at_rest()
        };
        let order = if self.suppresses() && !self.dock_tap {
            DockTap::Create(next_generation(self.generation))
        } else if !self.suppresses() {
            DockTap::Remove
        } else {
            DockTap::Keep
        };
        (
            Gestures { dock_tap: self.dock_tap && self.suppresses(), ..rested },
            InputOrder { recognition: self.recognizes(), dock_tap: order },
        )
    }

    pub open spec fn configured(self, settings: GestureSettings) -> Gestures {
        Gestures {
            settings,
            default_mode: settings.layout_mode,
            swipe: swipe_handler(settings),
            scroll: scroll_handler(settings),
            route: None,
            ..self
        }
    }

    pub open spec fn requested(self, request: GestureRequest) -> (Gestures, Option<InputOrder>) {
        match request {
            GestureRequest::ConfigUpdated(settings) => {
                let r = self.configured(settings).synced();
                (r.0, Some(r.1))
            },
            GestureRequest::LayoutModesChanged(modes) => (
                Gestures { modes: mode_map(modes@), ..self },
                None,
            ),
            GestureRequest::SpaceStateUpdated(state) => (
                Gestures { screens: placed_spaces(state.screens@), ..self },
                None,
            ),
        }
    }

    /// The layout mode below the pointer, which is on the screen `hit`.
    pub open spec fn mode_at(self, hit: Option<usize>) -> LayoutMode {
        match hit {
            Some(i) => if i < self.screens.len() && self.modes.dom().contains(
                self.screens[i as int].1,
            ) {
                self.modes[self.screens[i as int].1]
            } else {
                self.default_mode
            },
            None => self.default_mode,
        }
    }

    /// The gesture that a first frame begins.
    pub open spec fn chosen(self, contacts: usize, hit: Option<usize>) -> Option<GestureRoute> {
        if contacts == 0 {
            None
        } else if self.mode_at(hit) is Scrolling && self.scroll is Some {
            if self.scroll->0.cfg.fingers == contacts {
                Some(GestureRoute::Scroll)
            } else {
                None
            }
        } else if self.swipe is Some && self.swipe->0.cfg.fingers == contacts {
            Some(GestureRoute::Swipe)
        } else {
            None
        }
    }

    /// A frame of a gesture that is under way. Whether it goes on is the last part.
    pub open spec fn routed(self, route: GestureRoute, t: TouchSnapshot, m: Motion) -> (
        Gestures,
        Seq<GestureStep>,
        bool,
    ) {
        match route {
            GestureRoute::Swipe => match self.swipe {
                Some(h) => {
                    let n = h.after(t, m);
                    (Gestures { swipe: Some(n.0), ..self }, n.1, n.2)
                },
                None => (self, Seq::empty(), false),
            },
            GestureRoute::Scroll => match self.scroll {
                Some(h) => {
                    let n = h.after(t, m);
                    (Gestures { scroll: Some(n.0), ..self }, n.1, n.2)
                },
                None => (self, Seq::empty(), false),
            },
        }
    }

    pub open spec fn framed(self, t: TouchSnapshot, hit: Option<usize>, m: Motion) -> (
        Gestures,
        Seq<GestureStep>,
    ) {
        if !self.recognizes() {
            (self, Seq::empty())
        } else {
            match self.route {
                Some(route) => {
                    let n = self.routed(route, t, m);
                    (
                        Gestures {
                            route: if n.2 {
                                Some(route)
                            } else {
                                None
                            },
                            ..n.0
                        },
                        n.1,
                    )
                },
                None => match self.chosen(t.contacts, hit) {
                    Some(route) => {
                        let n = self.routed(route, t, m);
                        (Gestures { route: Some(route), ..n.0 }, n.1)
                    },
                    None => (self, Seq::empty()),
                },
            }
        }
    }
}

impl GestureTap {
    pub open spec fn view(self) -> Gestures {
        Gestures {
            settings: self.settings,
            swipe: self.swipe,
            scroll: self.scroll,
            multitouch: self.multitouch,
            route: self.route,
            dock_tap: self.dock_tap,
            generation: self.dock_tap_generation,
            screens: self.screen_spaces@,
            modes: self.layout_mode_by_space@,
            default_mode: self.default_layout_mode,
        }
    }

    pub fn new(settings: GestureSettings) -> (r: GestureTap)
        ensures
            r@ == (Gestures {
                settings,
                swipe: swipe_handler(settings),
                scroll: scroll_handler(settings),
                multitouch: false,
                route: None,
                dock_tap: false,
                generation: 0,
                screens: Seq::empty(),
                modes: Map::empty(),
                default_mode: settings.layout_mode,
            }),
    {
        let (swipe, scroll) = build_gesture_handlers(settings);
        GestureTap {
            settings,
            swipe,
            scroll,
            multitouch: false,
            route: None,
            dock_tap: false,
            dock_tap_generation: 0,
            screen_spaces: Vec::new(),
            layout_mode_by_space: VecMap::new(),
            default_layout_mode: settings.layout_mode,
        }
    }

    pub fn gesture_handlers_enabled(&self) -> (r: bool)
        ensures
            r == self@.handlers_enabled(),
    {
        self.swipe.is_some() || self.scroll.is_some()
    }

    fn reset_gesture_state(&mut self)
        ensures
            final(self)@ == old(self)@.at_rest(),
    {
        self.route = None;
        match self.swipe {
            Some(mut h) => {
                h.state.reset();
                self.swipe = Some(h);
            },
            None => {},
        }
        match self.scroll {
            Some(mut h) => {
                h.state.reset();
                self.scroll = Some(h);
            },
            None => {},
        }
    }

    /// What the input devices are told after the trackpad or the settings changed.
    pub fn sync_input_state(&mut self) -> (r: InputOrder)
        ensures
            (final(self)@, r) == old(self)@.synced(),
    {
        let recognition: bool = self.multitouch && self.gesture_handlers_enabled();
        if !recognition {
            self.reset_gesture_state();
        }
        let suppress: bool = recognition && self.settings.swipe.consume_dock_swipe;
        let dock_tap: DockTap = if suppress && !self.dock_tap {
            DockTap::Create(self.dock_tap_generation.wrapping_add(1))
        } else if !suppress {
            self.dock_tap = false;
            DockTap::Remove
        } else {
            DockTap::Keep
        };
        InputOrder { recognition, dock_tap }
    }

    /// Whether a tap of this generation could be made.
    pub fn dock_tap_created(&mut self, generation: u64, made: bool)
        ensures
            final(self)@ == (if made {
                Gestures { dock_tap: true, generation, ..old(self)@ }
            } else {
                old(self)@
            }),
    {
        if made {
            self.dock_tap_generation = generation;
            self.dock_tap = true;
        }
    }

    /// The system shut the tap of this generation down. The result is the generation of the tap
    /// that is to be made in its place.
    pub fn rebuild_dock_tap(&mut self, generation: u64) -> (r: Option<u64>)
        ensures
            (final(self)@, r) == (if generation == old(self)@.generation
                && old(self)@.handlers_enabled()
                && old(self)@.settings.swipe.consume_dock_swipe {
                (
                    Gestures { dock_tap: false, ..old(self)@ },
                    Some(next_generation(generation)),
                )
            } else {
                (old(self)@, None)
            }),
    {
        if generation != self.dock_tap_generation || !self.gesture_handlers_enabled()
            || !self.settings.swipe.consume_dock_swipe {
            return None;
        }
        self.dock_tap = false;
        Some(generation.wrapping_add(1))
    }

    pub fn on_request(&mut self, request: GestureRequest) -> (r: Option<InputOrder>)
        ensures
            (final(self)@, r) == old(self)@.requested(request),
    {
        match request {
            GestureRequest::ConfigUpdated(settings) => {
                self.default_layout_mode = settings.layout_mode;
                self.settings = settings;
                let (swipe, scroll) = build_gesture_handlers(settings);
                self.swipe = swipe;
                self.scroll = scroll;
                self.route = None;
                Some(self.sync_input_state())
            },
            GestureRequest::LayoutModesChanged(modes) => {
                let mut map: VecMap<SpaceId, LayoutMode> = VecMap::new();
                let mut i: usize = 0;
                while i < modes.len()
                    invariant
                        i <= modes@.len(),
                        map@ == mode_map(modes@.take(i as int)),
                    decreases modes@.len() - i,
                {
                    assert(modes@.take(i + 1).drop_last() =~= modes@.take(i as int));
                    let _ = map.insert(modes[i].0, modes[i].1);
                    i = i + 1;
                }
                assert(modes@.take(i as int) =~= modes@);
                self.layout_mode_by_space = map;
                None
            },
            GestureRequest::SpaceStateUpdated(state) => {
                let mut spaces: Vec<(Frame, SpaceId)> = Vec::new();
                let mut i: usize = 0;
                while i < state.screens.len()
                    invariant
                        i <= state.screens@.len(),
                        spaces@ == placed_spaces(state.screens@.take(i as int)),
                    decreases state.screens@.len() - i,
                {
                    assert(state.screens@.take(i + 1).drop_last() =~= state.screens@.take(
                        i as int,
                    ));
                    match state.screens[i].space {
                        Some(space) => {
                            spaces.push((state.screens[i].frame, space));
                        },
                        None => {},
                    }
                    i = i + 1;
                }
                assert(state.screens@.take(i as int) =~= state.screens@);
                self.screen_spaces = spaces;
                None
            },
        }
    }

    pub fn layout_mode_at(&self, hit: Option<usize>) -> (r: LayoutMode)
        ensures
            r == self@.mode_at(hit),
    {
        match hit {
            Some(i) => {
                if i < self.screen_spaces.len() {
                    match self.layout_mode_by_space.get(&self.screen_spaces[i].1) {
                        Some(mode) => *mode,
                        None => self.default_layout_mode,
                    }
                } else {
                    self.default_layout_mode
                }
            },
            None => self.default_layout_mode,
        }
    }

    fn choose_route(&self, contacts: usize, hit: Option<usize>) -> (r: Option<GestureRoute>)
        ensures
            r == self@.chosen(contacts, hit),
    {
        if contacts == 0 {
            return None;
        }
        let scrolling: bool = match self.layout_mode_at(hit) {
            LayoutMode::Scrolling => true,
            _ => false,
        };
        match self.scroll {
            Some(h) => {
                if scrolling {
                    return if h.cfg.fingers == contacts {
                        Some(GestureRoute::Scroll)
                    } else {
                        None
                    };
                }
            },
            None => {},
        }
        match self.swipe {
            Some(h) => if h.cfg.fingers == contacts {
                Some(GestureRoute::Swipe)
            } else {
                None
            },
            None => None,
        }
    }

    fn follow_route(
        &mut self,
        route: GestureRoute,
        t: TouchSnapshot,
        m: Motion,
        out: &mut Vec<GestureStep>,
    ) -> (r: bool)
        ensures
            (final(self)@, final(out)@, r) == ({
                let n = old(self)@.routed(route, t, m);
                (n.0, old(out)@ + n.1, n.2)
            }),
    {
        assert(out@ + Seq::<GestureStep>::empty() =~= out@);
        match route {
            GestureRoute::Swipe => match self.swipe {
                Some(mut h) => {
                    let r = h.handle_swipe(t, m, out);
                    self.swipe = Some(h);
                    r
                },
                None => false,
            },
            GestureRoute::Scroll => match self.scroll {
                Some(mut h) => {
                    let r = h.handle_scroll(t, m, out);
                    self.scroll = Some(h);
                    r
                },
                None => false,
            },
        }
    }

    /// Handles a contact frame. `hit`: the first of the screens that shows a space and holds the
    /// pointer.
    pub fn on_touch_frame(&mut self, t: TouchSnapshot, hit: Option<usize>, m: Motion) -> (r: Vec<
        GestureStep,
    >)
        ensures
            (final(self)@, r@) == old(self)@.framed(t, hit, m),
    {
        let mut out: Vec<GestureStep> = Vec::new();
        if !self.multitouch || !self.gesture_handlers_enabled() {
            return out;
        }
        match self.route {
            Some(route) => {
                let active = self.follow_route(route, t, m, &mut out);
                if !active {
                    self.route = None;
                }
                assert(out@ =~= old(self)@.routed(route, t, m).1);
            },
            None => {
                match self.choose_route(t.contacts, hit) {
                    Some(route) => {
                        self.route = Some(route);
                        let _ = self.follow_route(route, t, m, &mut out);
                        assert(out@ =~= old(self)@.routed(route, t, m).1);
                    },
                    None => {},
                }
            },
        }
        out
    }
}

fn build_gesture_handlers(settings: GestureSettings) -> (r: (
    Option<SwipeHandler>,
    Option<ScrollHandler>,
))
    ensures
        r.0 == swipe_handler(settings),
        r.1 == scroll_handler(settings),
{
    let swipe: Option<SwipeHandler> = match SwipeConfig::from_config(settings.swipe) {
        Some(cfg) => Some(
            SwipeHandler {
                cfg,
                state: SwipeState { phase: GesturePhase::Idle, start_x: 0, start_y: 0 },
            },
        ),
        None => None,
    };
    let scroll: Option<ScrollHandler> = match ScrollConfig::from_config(settings.scroll) {
        Some(cfg) => Some(
            ScrollHandler {
                cfg,
                state: ScrollState {
                    phase: GesturePhase::Idle,
                    last_x: 0,
                    last_y: 0,
                    accum_dx: 0,
                },
            },
        ),
        None => None,
    };
    (swipe, scroll)
}

/// A swipe switches the workspace once: until the fingers are lifted nothing more happens.
pub proof fn a_swipe_has_one_effect(h: SwipeHandler, t: TouchSnapshot, m: Motion)
    requires
        h.state.phase is Committed,
    ensures
        h.after(t, m).1.len() == 0,
        h.after(t, m).2 ==> h.after(t, m).0 == h,
{
}

/// A swipe in the opposite direction, or with inverted directions, goes the other way.
pub proof fn inverting_turns_a_swipe_around(
    h: SwipeHandler,
    t: TouchSnapshot,
    m: Motion,
)
    requires
        h.state.phase is Armed,
        m.swiped,
        t.contacts == h.cfg.fingers,
        t.contacts != 0,
    ensures
        h.after(t, m).1.last() is NextWorkspace <==> h.after(
            t,
            Motion { leftward: !m.leftward, ..m },
        ).1.last() is PrevWorkspace,
        h.after(t, m).1.last() is NextWorkspace <==> (SwipeHandler {
            cfg: SwipeConfig { invert_horizontal: !h.cfg.invert_horizontal, ..h.cfg },
            ..h
        }).after(t, m).1.last() is PrevWorkspace,
{
}

/// While the fingers stay down a gesture remains what it began as.
pub proof fn a_gesture_keeps_its_route(
    g: Gestures,
    t: TouchSnapshot,
    hit: Option<usize>,
    m: Motion,
)
    requires
        g.route is Some,
    ensures
        g.framed(t, hit, m).0.route is None || g.framed(t, hit, m).0.route == g.route,
{
}

/// Lifting the fingers ends a gesture without an effect.
pub proof fn lifting_the_fingers_ends_a_gesture(g: Gestures, t: TouchSnapshot, hit: Option<usize>, m: Motion)
    requires
        t.contacts == 0,
        g.recognizes(),
    ensures
        g.framed(t, hit, m).0.route is None,
        g.framed(t, hit, m).1.len() == 0,
{
}

/// Swipes are kept from the Dock only while gestures are recognized and it is wanted.
pub proof fn the_dock_tap_goes_with_recognition(g: Gestures)
    ensures
        g.synced().0.dock_tap ==> g.suppresses(),
        !g.synced().1.recognition ==> g.synced().1.dock_tap is Remove && g.synced().0.route is None,
{
}

/// Gestures are configured as set, for at least one finger; one that is off is not configured.
pub proof fn gestures_are_configured_as_set(s: SwipeSettings, c: ScrollSettings)
    ensures
        SwipeConfig::of(s) is Some <==> s.enabled,
        ScrollConfig::of(c) is Some <==> c.enabled,
        SwipeConfig::of(s) matches Some(cfg) ==> {
            &&& cfg.invert_horizontal == s.invert_horizontal
            &&& cfg.vertical_tolerance == s.vertical_tolerance
            &&& cfg.distance_pct == s.distance_pct
            &&& cfg.haptics_enabled == s.haptics_enabled && cfg.haptic_pattern == s.haptic_pattern
            &&& cfg.skip_empty_workspaces == (if s.skip_empty { Some(true) } else { None })
            &&& cfg.fingers >= 1 && (s.fingers >= 1 ==> cfg.fingers == s.fingers)
        },
        ScrollConfig::of(c) matches Some(cfg) ==> {
            &&& cfg.invert_horizontal == c.invert_horizontal
            &&& cfg.vertical_tolerance == c.vertical_tolerance
            &&& cfg.distance_pct == c.distance_pct
            &&& cfg.fingers >= 1 && (c.fingers >= 1 ==> cfg.fingers == c.fingers)
        },
{
}

/// Fingers that come down are noted where they are. A swipe to the left then goes to the next
/// workspace and one to the right to the one before, the other way round if directions are
/// inverted; with haptics it is felt first.
pub proof fn swiping_left_goes_to_the_next_workspace(
    h: SwipeHandler,
    t: TouchSnapshot,
    m: Motion,
)
    requires
        t.contacts == h.cfg.fingers,
        t.contacts != 0,
    ensures
        h.state.phase is Idle ==> {
            let (n, steps, goes_on) = h.after(t, m);
            &&& n.state.phase is Armed && n.state.start_x == t.centroid_x && n.state.start_y
                == t.centroid_y
            &&& steps.len() == 0 && goes_on && n.cfg == h.cfg
        },
        h.state.phase is Armed && !m.swiped ==> h.after(t, m) == (h, Seq::<GestureStep>::empty(), true),
        h.state.phase is Armed && m.swiped ==> {
            let (n, steps, goes_on) = h.after(t, m);
            let next = GestureStep::NextWorkspace(h.cfg.skip_empty_workspaces);
            let prev = GestureStep::PrevWorkspace(h.cfg.skip_empty_workspaces);
            &&& n.state.phase is Committed && goes_on && n.cfg == h.cfg
            &&& m.leftward && !h.cfg.invert_horizontal ==> steps.last() == next
            &&& !m.leftward && !h.cfg.invert_horizontal ==> steps.last() == prev
            &&& m.leftward && h.cfg.invert_horizontal ==> steps.last() == prev
            &&& !m.leftward && h.cfg.invert_horizontal ==> steps.last() == next
            &&& h.cfg.haptics_enabled ==> steps.len() == 2 && steps[0] == GestureStep::Haptic(
                h.cfg.haptic_pattern,
            )
            &&& !h.cfg.haptics_enabled ==> steps.len() == 1
        },
{
}

/// Another number of fingers than the gesture takes ends it.
pub proof fn other_numbers_of_fingers_end_a_gesture(
    h: SwipeHandler,
    s: ScrollHandler,
    t: TouchSnapshot,
    m: Motion,
)
    ensures
        t.contacts != h.cfg.fingers ==> h.after(t, m).0.state.phase is Idle && h.after(t, m).1.len()
            == 0 && !h.after(t, m).2,
        t.contacts != s.cfg.fingers ==> s.after(t, m).0.state.phase is Idle && s.after(t, m).1.len()
            == 0 && !s.after(t, m).2,
{
}

/// Scrolling adds up the way sideways until it is far enough; then the strip is scrolled by all of
/// it, the other way round if directions are inverted, and counting begins anew. Ways up or down,
/// and fingers that rest, add nothing.
pub proof fn the_strip_is_scrolled_by_the_whole_way(
    h: ScrollHandler,
    t: TouchSnapshot,
    m: Motion,
)
    requires
        t.contacts == h.cfg.fingers,
        t.contacts != 0,
        !(h.state.phase is Idle),
    ensures
        ({
            let (n, steps, goes_on) = h.after(t, m);
            &&& goes_on && n.cfg == h.cfg
            &&& t.all_moved && m.level && m.far ==> n.state.accum_dx == 0 && n.state.phase
                is Committed && steps.len() == 1 && steps[0] == GestureStep::ScrollStrip(
                if h.cfg.invert_horizontal {
                    m.sum ^ 0x8000_0000_0000_0000u64
                } else {
                    m.sum
                },
            )
            &&& t.all_moved && m.level && !m.far ==> n.state.accum_dx == m.sum && steps.len() == 0
            &&& !t.all_moved || !m.level ==> n.state.accum_dx == h.state.accum_dx && steps.len()
                == 0
            &&& t.all_moved ==> n.state.last_x == t.centroid_x && n.state.last_y == t.centroid_y
        }),
{
}

/// The first frame of a scroll notes where the fingers are and does nothing yet.
pub proof fn a_scroll_begins_where_the_fingers_are(h: ScrollHandler, t: TouchSnapshot, m: Motion)
    requires
        t.contacts == h.cfg.fingers,
        t.contacts != 0,
        h.state.phase is Idle,
    ensures
        h.after(t, m).0.state.phase is Armed,
        h.after(t, m).0.state.last_x == t.centroid_x,
        h.after(t, m).0.state.last_y == t.centroid_y,
        h.after(t, m).1.len() == 0,
{
}

/// Each screen that shows a space is placed with its frame; of two modes for one space the later
/// one counts.
pub proof fn screens_and_modes_are_kept_by_space(
    screens: Seq<ScreenInfo>,
    modes: Seq<(SpaceId, LayoutMode)>,
    space: SpaceId,
    frame: Frame,
    i: int,
)
    ensures
        placed_spaces(screens).contains((frame, space)) <==> exists|k: int|
            0 <= k < screens.len() && (#[trigger] screens[k]).space == Some(space)
                && screens[k].frame == frame,
        0 <= i < modes.len() && modes[i].0 == space && (forall|j: int|
            i < j < modes.len() ==> (#[trigger] modes[j]).0 != space) ==> mode_map(
            modes,
        ).dom().contains(space) && mode_map(modes)[space] == modes[i].1,
        (forall|j: int| 0 <= j < modes.len() ==> (#[trigger] modes[j]).0 != space) ==> !mode_map(
            modes,
        ).dom().contains(space),
    decreases screens.len(), modes.len(),
{
    if screens.len() > 0 {
        let head = screens.drop_last();
        let n = screens.len() - 1;
        screens_and_modes_are_kept_by_space(head, modes, space, frame, i);
        assert(forall|k: int| 0 <= k < n ==> head[k] == screens[k]);
        assert(screens[n] == screens.last());
        if screens.last().space is Some {
            crate::collections::lemma_push_contains(
                placed_spaces(head),
                (screens.last().frame, screens.last().space->0),
            );
        }
        if exists|k: int|
            0 <= k < head.len() && (#[trigger] head[k]).space == Some(space) && head[k].frame
                == frame {
            let k = choose|k: int|
                0 <= k < head.len() && (#[trigger] head[k]).space == Some(space) && head[k].frame
                    == frame;
            assert(screens[k].space == Some(space));
        }
        if exists|k: int|
            0 <= k < screens.len() && (#[trigger] screens[k]).space == Some(space)
                && screens[k].frame == frame {
            let k = choose|k: int|
                0 <= k < screens.len() && (#[trigger] screens[k]).space == Some(space)
                    && screens[k].frame == frame;
            if k < n {
                assert(head[k].space == Some(space));
            }
        }
    } else if modes.len() > 0 {
        let head = modes.drop_last();
        let n = modes.len() - 1;
        assert(forall|k: int| 0 <= k < n ==> head[k] == modes[k]);
        screens_and_modes_are_kept_by_space(screens, head, space, frame, i);
        assert(modes[n] == modes.last());
        if 0 <= i < modes.len() && modes[i].0 == space && (forall|j: int|
            i < j < modes.len() ==> (#[trigger] modes[j]).0 != space) {
            if i < n {
                assert(modes[n].0 != space);
            }
        }
        if forall|j: int| 0 <= j < modes.len() ==> (#[trigger] modes[j]).0 != space {
            assert(modes[n].0 != space);
            assert forall|j: int| 0 <= j < head.len() implies (#[trigger] head[j]).0 != space by {
                assert(modes[j].0 != space);
            }
        }
    }
}

/// On a scrolling space a gesture scrolls, if that is configured and the fingers are as many as it
/// takes; elsewhere it swipes.
pub proof fn gestures_are_chosen_by_the_layout_below(g: Gestures, contacts: usize, hit: Option<usize>)
    requires
        contacts != 0,
    ensures
        g.mode_at(hit) is Scrolling && g.scroll is Some ==> g.chosen(contacts, hit) == (
        if g.scroll->0.cfg.fingers == contacts {
            Some(GestureRoute::Scroll)
        } else {
            None
        }),
        !(g.mode_at(hit) is Scrolling) || g.scroll is None ==> g.chosen(contacts, hit) == (
        if g.swipe is Some && g.swipe->0.cfg.fingers == contacts {
            Some(GestureRoute::Swipe)
        } else {
            None
        }),
        g.chosen(0, hit) is None,
        hit is None ==> g.mode_at(hit) == g.default_mode,
        hit matches Some(i) ==> (i < g.screens.len() && g.modes.dom().contains(
            g.screens[i as int].1,
        ) ==> g.mode_at(hit) == g.modes[g.screens[i as int].1]),
{
}

/// A frame goes to the gesture that is under way or that it begins, and to no other.
pub proof fn frames_go_to_their_gesture(g: Gestures, t: TouchSnapshot, hit: Option<usize>, m: Motion)
    ensures
        !g.multitouch || (g.swipe is None && g.scroll is None) ==> g.framed(t, hit, m) == (
            g,
            Seq::<GestureStep>::empty(),
        ),
        g.multitouch && g.route == Some(GestureRoute::Swipe) && g.swipe is Some ==> {
            let (n, steps) = g.framed(t, hit, m);
            &&& steps == g.swipe->0.after(t, m).1
            &&& n.swipe == Some(g.swipe->0.after(t, m).0) && n.scroll == g.scroll
            &&& (n.route is Some) == g.swipe->0.after(t, m).2
        },
        g.multitouch && g.route == Some(GestureRoute::Scroll) && g.scroll is Some ==> {
            let (n, steps) = g.framed(t, hit, m);
            &&& steps == g.scroll->0.after(t, m).1
            &&& n.scroll == Some(g.scroll->0.after(t, m).0) && n.swipe == g.swipe
            &&& (n.route is Some) == g.scroll->0.after(t, m).2
        },
        g.recognizes() && g.route is None ==> g.framed(t, hit, m).0.route == g.chosen(
            t.contacts,
            hit,
        ),
{
}

/// Contact frames are wanted exactly if there is a trackpad and a gesture; swipes are kept from the
/// Dock by one tap, which is made with a new generation and taken away when it is not wanted.
pub proof fn input_is_wanted_for_gestures(g: Gestures)
    ensures
        ({
            let (n, order) = g.synced();
            let recognized = g.multitouch && (g.swipe is Some || g.scroll is Some);
            let wanted = recognized && g.settings.swipe.consume_dock_swipe;
            &&& order.recognition == recognized
            &&& wanted && g.dock_tap ==> order.dock_tap is Keep
            &&& wanted && !g.dock_tap ==> order.dock_tap is Create
                && order.dock_tap->Create_0 != g.generation
            &&& !wanted ==> order.dock_tap is Remove && !n.dock_tap
            &&& !recognized ==> n.route is None
            &&& n.settings == g.settings && n.screens == g.screens && n.modes == g.modes
        }),
{
}

/// New settings build the gestures anew and end the one under way; modes and screens are replaced
/// by what was said.
pub proof fn requests_replace_what_they_name(
    g: Gestures,
    settings: GestureSettings,
    modes: Vec<(SpaceId, LayoutMode)>,
    state: ForwardedSpaceState,
)
    ensures
        ({
            let (n, order) = g.requested(GestureRequest::ConfigUpdated(settings));
            &&& n.settings == settings && n.default_mode == settings.layout_mode
            &&& n.route is None && order is Some
            &&& n.swipe is Some <==> settings.swipe.enabled
            &&& n.scroll is Some <==> settings.scroll.enabled
            &&& n.swipe matches Some(h) ==> h.state.phase is Idle
        }),
        ({
            let (n, order) = g.requested(GestureRequest::LayoutModesChanged(modes));
            &&& n.modes == mode_map(modes@) && order is None
            &&& n.swipe == g.swipe && n.screens == g.screens && n.route == g.route
        }),
        ({
            let (n, order) = g.requested(GestureRequest::SpaceStateUpdated(state));
            &&& n.screens == placed_spaces(state.screens@) && order is None
            &&& n.swipe == g.swipe && n.modes == g.modes && n.route == g.route
        }),
{
}

/// A gesture takes at least one finger, and otherwise as many as are set.
pub proof fn gestures_take_at_least_one_finger(swipe: SwipeSettings, scroll: ScrollSettings)
    ensures
        swipe.enabled && swipe.fingers > 0 ==> SwipeConfig::of(swipe)->0.fingers == swipe.fingers,
        swipe.enabled && swipe.fingers == 0 ==> SwipeConfig::of(swipe)->0.fingers == 1,
        scroll.enabled && scroll.fingers > 0 ==> ScrollConfig::of(scroll)->0.fingers
            == scroll.fingers,
        scroll.enabled && scroll.fingers == 0 ==> ScrollConfig::of(scroll)->0.fingers == 1,
{
}

/// At rest no gesture is on its way, and nothing else changes.
pub proof fn gestures_come_to_rest(g: Gestures)
    ensures
        g.at_rest().route is None,
        g.at_rest().swipe is Some <==> g.swipe is Some,
        g.at_rest().scroll is Some <==> g.scroll is Some,
        g.swipe is Some ==> g.at_rest().swipe->0.cfg == g.swipe->0.cfg
            && g.at_rest().swipe->0.state.phase is Idle && g.at_rest().swipe->0.state.start_x == 0
            && g.at_rest().swipe->0.state.start_y == 0,
        g.scroll is Some ==> g.at_rest().scroll->0.cfg == g.scroll->0.cfg
            && g.at_rest().scroll->0.state.phase is Idle && g.at_rest().scroll->0.state.last_x == 0
            && g.at_rest().scroll->0.state.last_y == 0 && g.at_rest().scroll->0.state.accum_dx == 0,
        g.at_rest().settings == g.settings,
        g.at_rest().multitouch == g.multitouch,
        g.at_rest().dock_tap == g.dock_tap,
        g.at_rest().generation == g.generation,
        g.at_rest().screens == g.screens,
        g.at_rest().modes == g.modes,
        g.at_rest().default_mode == g.default_mode,
{
}

} // verus!
