//! The authority on spaces: it decides when what the system says about displays and spaces is
//! certain, and hands on only that.
//!
//! While the machine sleeps or displays are being attached or rearranged, updates are held back.
//! Once two looks at the displays agree and the window server is quiet, the new arrangement is
//! committed together with the windows that changed their space meanwhile.

use vstd::prelude::*;

use crate::collections::{contains, copied, VecMap, VecSet};
use crate::model::{Frame, SpaceId, WindowServerId};
use crate::spaces::topology::{
    changed_entries, compute_space_remaps, display_set_changed, find_resized_spaces,
    has_distinct_spaces, has_topology_changed, is_complete, null_fullscreen_spaces,
    preserve_user_spaces_during_fullscreen_transition, resolve_command_space, screen_spaces,
    screen_snapshot_is_valid_for_commit, visible_window_spaces_for_screens, DisplayId,
    DisplaySpace, ResizedSpace, ScreenInfo, SpaceRemap, TopologyWindowDelta, VisibleWindow,
};

verus! {

pub const REFRESH_DEFAULT_DELAY_NS: i64 = 100_000_000;

pub const REFRESH_SPACE_SWITCH_DELAY_NS: i64 = 50_000_000;

pub const REFRESH_RETRY_DELAY_NS: i64 = 100_000_000;

pub const REFRESH_MAX_RETRIES: u8 = 10;

pub const DISPLAY_CHURN_QUIET_NS: i64 = 100_000_000;

pub const DISPLAY_STABILIZE_RETRY_NS: i64 = 100_000_000;

pub const DISPLAY_STABILIZE_MAX_ATTEMPTS: u8 = 10;

pub const DISPLAY_STABLE_REQUIRED_HITS: u8 = 2;

/// A space that windows are managed in, or one that holds a fullscreen window.
#[derive(Clone, Copy, Debug, PartialEq, Eq, Structural)]
pub enum SpaceEventKind {
    User,
    Fullscreen,
}

/// The screens, and the number that converts between their coordinate systems.
pub struct Snapshot {
    pub screens: Vec<ScreenInfo>,
    pub converter: u64,
}

#[verifier::ext_equal]
pub struct Shot {
    pub screens: Seq<ScreenInfo>,
    pub converter: u64,
}

impl Snapshot {
    pub open spec fn view(self) -> Shot {
        Shot { screens: self.screens@, converter: self.converter }
    }
}

pub enum Event {
    SystemWillSleep,
    SystemDidWake,
    ActiveDisplayChanged,
    ActiveSpaceChanged,
    ScreenRefreshRequested,
    DisplayReconfigured { display_id: u32, flags: u32 },
    DisplayChurnBegin,
    DisplayChurnEnd,
    ScreenParametersChanged(Snapshot),
    SpaceChanged(Vec<Option<SpaceId>>),
    SpaceInventoryChanged,
    SpaceCreated(SpaceId),
    SpaceDestroyed(SpaceId),
    WindowServerAppeared(WindowServerId, SpaceId),
    WindowServerDestroyed(WindowServerId, SpaceId),
    ProcessScreenRefresh { attempt: u8 },
    CheckDisplayStabilization { expected_epoch: u64, attempt: u8 },
}

/// What the system says while an event is handled.
pub struct Surroundings {
    /// The spaces that hold a fullscreen window.
    pub fullscreen: VecSet<SpaceId>,
    /// The spaces that windows are managed in.
    pub user: VecSet<SpaceId>,
    /// The screens as they are now, if they can be told.
    pub snapshot: Option<Snapshot>,
    /// The spaces of each display.
    pub display_spaces: Vec<DisplaySpace>,
    /// The windows that show.
    pub windows: Vec<VisibleWindow>,
    /// The frames that hold the cursor.
    pub under_cursor: Vec<Frame>,
    pub active_space: Option<SpaceId>,
    /// Where the window server puts the window that the event is about.
    pub window_space: Option<SpaceId>,
    /// Whether the window server has been quiet for long enough.
    pub quiet: bool,
}

impl Surroundings {
    pub open spec fn kind(self, space: SpaceId) -> Option<SpaceEventKind> {
        if self.fullscreen@.contains(space) {
            Some(SpaceEventKind::Fullscreen)
        } else if self.user@.contains(space) {
            Some(SpaceEventKind::User)
        } else {
            None
        }
    }

    /// Which kind of space `space` is, if it is one that windows are managed around.
    pub fn classify_space(&self, space: SpaceId) -> (r: Option<SpaceEventKind>)
        ensures
            r == self.kind(space),
    {
        if self.fullscreen.contains(&space) {
            Some(SpaceEventKind::Fullscreen)
        } else if self.user.contains(&space) {
            Some(SpaceEventKind::User)
        } else {
            None
        }
    }
}

/// How many window events were held back while displays were unstable.
#[derive(Clone, Copy, Debug, PartialEq, Eq, Structural)]
pub struct QuarantineStats {
    pub appeared_dropped: u64,
    pub destroyed_dropped: u64,
}

impl Default for QuarantineStats {
    fn default() -> (r: QuarantineStats)
        ensures
            r == (QuarantineStats { appeared_dropped: 0, destroyed_dropped: 0 }),
    {
        QuarantineStats { appeared_dropped: 0, destroyed_dropped: 0 }
    }
}

/// What tells two arrangements of displays apart.
#[derive(Clone, Copy, Debug, PartialEq, Eq, Structural)]
pub struct Fingerprint {
    pub display_uuid: DisplayId,
    pub frame: Frame,
    pub space: Option<SpaceId>,
}

pub open spec fn fingerprint_of(screens: Seq<ScreenInfo>) -> Seq<Fingerprint> {
    screens.map_values(
        |s: ScreenInfo|
            Fingerprint { display_uuid: s.display_uuid, frame: s.frame, space: s.space },
    )
}

/// An arrangement of displays, and how often in a row it was seen.
pub struct DisplayTopologyState {
    pub fingerprint: Vec<Fingerprint>,
    pub hits: u8,
}

#[verifier::ext_equal]
pub struct Sighting {
    pub fingerprint: Seq<Fingerprint>,
    pub hits: u8,
}

impl DisplayTopologyState {
    pub open spec fn view(self) -> Sighting {
        Sighting { fingerprint: self.fingerprint@, hits: self.hits }
    }
}

/// A certain state of screens and spaces, as it is handed on.
pub struct ForwardedSpaceState {
    pub screens: Vec<ScreenInfo>,
    pub fullscreen_spaces: VecSet<SpaceId>,
    pub has_seen_display_set: bool,
    pub active_spaces: VecSet<SpaceId>,
    pub command_space: Option<SpaceId>,
    pub display_space_ids: Vec<DisplaySpace>,
    pub last_user_space_by_display: VecMap<DisplayId, SpaceId>,
    pub space_remaps: Vec<SpaceRemap>,
    pub display_set_changed: bool,
    pub topology_changed: bool,
    pub allow_space_remap: bool,
    pub should_force_refresh_layout: bool,
    pub resized_spaces: Vec<ResizedSpace>,
    pub topology_window_delta: Option<TopologyWindowDelta>,
}

#[verifier::ext_equal]
pub struct Forwarded {
    pub screens: Seq<ScreenInfo>,
    pub fullscreen_spaces: Set<SpaceId>,
    pub has_seen_display_set: bool,
    pub active_spaces: Set<SpaceId>,
    pub command_space: Option<SpaceId>,
    pub display_space_ids: Seq<DisplaySpace>,
    pub last_user_space_by_display: Map<DisplayId, SpaceId>,
    pub space_remaps: Seq<SpaceRemap>,
    pub display_set_changed: bool,
    pub topology_changed: bool,
    pub allow_space_remap: bool,
    pub should_force_refresh_layout: bool,
    pub resized_spaces: Seq<ResizedSpace>,
    pub topology_window_delta: Option<super::topology::Delta>,
}

pub open spec fn delta_view(d: Option<TopologyWindowDelta>) -> Option<super::topology::Delta> {
    match d {
        Some(d) => Some(d@),
        None => None,
    }
}

impl ForwardedSpaceState {
    pub open spec fn view(self) -> Forwarded {
        Forwarded {
            screens: self.screens@,
            fullscreen_spaces: self.fullscreen_spaces@,
            has_seen_display_set: self.has_seen_display_set,
            active_spaces: self.active_spaces@,
            command_space: self.command_space,
            display_space_ids: self.display_space_ids@,
            last_user_space_by_display: self.last_user_space_by_display@,
            space_remaps: self.space_remaps@,
            display_set_changed: self.display_set_changed,
            topology_changed: self.topology_changed,
            allow_space_remap: self.allow_space_remap,
            should_force_refresh_layout: self.should_force_refresh_layout,
            resized_spaces: self.resized_spaces@,
            topology_window_delta: delta_view(self.topology_window_delta),
        }
    }

    /// The first screen that shows `space`.
    pub fn screen_by_space(&self, space: SpaceId) -> (r: Option<&ScreenInfo>)
        ensures
            match r {
                Some(s) => exists|i: int|
                    0 <= i < self.screens@.len() && #[trigger] self.screens@[i] == *s && s.space
                        == Some(space) && forall|j: int|
                        0 <= j < i ==> (#[trigger] self.screens@[j]).space != Some(space),
                None => !super::topology::shows_space(self.screens@, space),
            },
    {
        let mut i: usize = 0;
        while i < self.screens.len()
            invariant
                i <= self.screens@.len(),
                forall|j: int| 0 <= j < i ==> (#[trigger] self.screens@[j]).space != Some(space),
            decreases self.screens@.len() - i,
        {
            if self.screens[i].space == Some(space) {
                assert(self.screens@[i as int].space == Some(space));
                return Some(&self.screens[i]);
            }
            i = i + 1;
        }
        None
    }

    /// The spaces that show, in the order of the screens.
    pub fn iter_known_spaces(&self) -> (r: Vec<SpaceId>)
        ensures
            r@ == known_spaces(self.screens@),
    {
        let mut r: Vec<SpaceId> = Vec::new();
        let mut i: usize = 0;
        while i < self.screens.len()
            invariant
                i <= self.screens@.len(),
                r@ == known_spaces(self.screens@.take(i as int)),
            decreases self.screens@.len() - i,
        {
            assert(self.screens@.take(i + 1).drop_last() =~= self.screens@.take(i as int));
            match self.screens[i].space {
                Some(space) => r.push(space),
                None => {},
            }
            i = i + 1;
        }
        assert(self.screens@.take(i as int) =~= self.screens@);
        r
    }

    /// The first space that shows.
    pub fn first_known_space(&self) -> (r: Option<SpaceId>)
        ensures
            r == super::topology::first_space_of(self.screens@),
    {
        super::topology::first_space(&self.screens)
    }
}

/// The spaces that show, in the order of the screens.
pub open spec fn known_spaces(screens: Seq<ScreenInfo>) -> Seq<SpaceId>
    decreases screens.len(),
{
    if screens.len() == 0 {
        Seq::empty()
    } else {
        let head = known_spaces(screens.drop_last());
        match screens.last().space {
            Some(space) => head.push(space),
            None => head,
        }
    }
}

/// What is to be done, in this order, after an event.
pub enum Action {
    /// Tell the screen cache whether the machine sleeps.
    MarkSleeping(bool),
    /// Tell the screen cache that it is out of date.
    MarkDirty,
    /// Record that displays are unstable.
    RecordChurn(u32),
    /// Record that displays are stable again.
    EndChurn,
    /// Hand on a certain state.
    Forward(ForwardedSpaceState, u64),
    ChurnBegan,
    ChurnEnded,
    SpaceCreated(SpaceId),
    SpaceDestroyed(SpaceId),
    WindowAppeared(WindowServerId, SpaceId, SpaceEventKind),
    WindowDestroyed(WindowServerId, SpaceId, SpaceEventKind),
    /// Send a refresh event after a while.
    Refresh { delay_ns: i64, attempt: u8 },
    /// Send a stabilization event after a while.
    Stabilize { epoch: u64, attempt: u8, delay_ns: i64 },
}

#[verifier::ext_equal]
pub enum Effect {
    MarkSleeping(bool),
    MarkDirty,
    RecordChurn(u32),
    EndChurn,
    Forward(Forwarded, u64),
    ChurnBegan,
    ChurnEnded,
    SpaceCreated(SpaceId),
    SpaceDestroyed(SpaceId),
    WindowAppeared(WindowServerId, SpaceId, SpaceEventKind),
    WindowDestroyed(WindowServerId, SpaceId, SpaceEventKind),
    Refresh { delay_ns: i64, attempt: u8 },
    Stabilize { epoch: u64, attempt: u8, delay_ns: i64 },
}

impl Action {
    pub open spec fn view(self) -> Effect {
        match self {
            Action::MarkSleeping(b) => Effect::MarkSleeping(b),
            Action::MarkDirty => Effect::MarkDirty,
            Action::RecordChurn(flags) => Effect::RecordChurn(flags),
            Action::EndChurn => Effect::EndChurn,
            Action::Forward(f, converter) => Effect::Forward(f@, converter),
            Action::ChurnBegan => Effect::ChurnBegan,
            Action::ChurnEnded => Effect::ChurnEnded,
            Action::SpaceCreated(s) => Effect::SpaceCreated(s),
            Action::SpaceDestroyed(s) => Effect::SpaceDestroyed(s),
            Action::WindowAppeared(w, s, k) => Effect::WindowAppeared(w, s, k),
            Action::WindowDestroyed(w, s, k) => Effect::WindowDestroyed(w, s, k),
            Action::Refresh { delay_ns, attempt } => Effect::Refresh { delay_ns, attempt },
            Action::Stabilize { epoch, attempt, delay_ns } => Effect::Stabilize {
                epoch,
                attempt,
                delay_ns,
            },
        }
    }
}

pub open spec fn effects(actions: Seq<Action>) -> Seq<Effect> {
    actions.map_values(|a: Action| a.view())
}

fn emit(out: &mut Vec<Action>, a: Action)
    ensures
        effects(final(out)@) == effects(old(out)@).push(a.view()),
{
    let ghost before = out@;
    out.push(a);
    assert(effects(before.push(a)) =~= effects(before).push(a.view()));
}

pub struct AuthorityState {
    pub sleeping: bool,
    pub display_churn_active: bool,
    pub screens: Vec<ScreenInfo>,
    pub has_seen_display_set: bool,
    pub last_sent_spaces: Option<Vec<Option<SpaceId>>>,
    pub quarantine_stats: QuarantineStats,
    pub last_converter: u64,
    pub refresh_pending: bool,
    pub display_churn_epoch: u64,
    pub display_churn_flags: u32,
    pub display_topology_state: Option<DisplayTopologyState>,
    pub last_user_space_by_display: VecMap<DisplayId, SpaceId>,
    pub display_space_ids: Vec<DisplaySpace>,
    pub awaiting_space_switch_confirmation: bool,
    pub refresh_deferred_until_stable: bool,
    pub pending_screen_parameters: Option<Snapshot>,
    pub pending_spaces: Option<Vec<Option<SpaceId>>>,
    pub visible_window_spaces: VecMap<WindowServerId, SpaceId>,
    pub pre_churn_visible_window_spaces: VecMap<WindowServerId, SpaceId>,
    pub pending_topology_window_delta: Option<TopologyWindowDelta>,
    pub timers_enabled: bool,
}

#[verifier::ext_equal]
pub struct Authority {
    pub sleeping: bool,
    pub churn: bool,
    pub screens: Seq<ScreenInfo>,
    pub has_seen: bool,
    pub last_sent: Option<Seq<Option<SpaceId>>>,
    pub stats: QuarantineStats,
    pub converter: u64,
    pub refresh_pending: bool,
    pub epoch: u64,
    pub flags: u32,
    pub sighting: Option<Sighting>,
    pub last_user: Map<DisplayId, SpaceId>,
    pub display_spaces: Seq<DisplaySpace>,
    pub awaiting: bool,
    pub deferred: bool,
    pub pending_screens: Option<Shot>,
    pub pending_spaces: Option<Seq<Option<SpaceId>>>,
    pub visible: Map<WindowServerId, SpaceId>,
    pub pre_churn: Map<WindowServerId, SpaceId>,
    pub pending_delta: Option<super::topology::Delta>,
    pub timers: bool,
}

pub open spec fn spaces_view(v: Option<Vec<Option<SpaceId>>>) -> Option<Seq<Option<SpaceId>>> {
    match v {
        Some(v) => Some(v@),
        None => None,
    }
}

impl AuthorityState {
    pub open spec fn view(self) -> Authority {
        Authority {
            sleeping: self.sleeping,
            churn: self.display_churn_active,
            screens: self.screens@,
            has_seen: self.has_seen_display_set,
            last_sent: spaces_view(self.last_sent_spaces),
            stats: self.quarantine_stats,
            converter: self.last_converter,
            refresh_pending: self.refresh_pending,
            epoch: self.display_churn_epoch,
            flags: self.display_churn_flags,
            sighting: match self.display_topology_state {
                Some(s) => Some(s@),
                None => None,
            },
            last_user: self.last_user_space_by_display@,
            display_spaces: self.display_space_ids@,
            awaiting: self.awaiting_space_switch_confirmation,
            deferred: self.refresh_deferred_until_stable,
            pending_screens: match self.pending_screen_parameters {
                Some(p) => Some(p@),
                None => None,
            },
            pending_spaces: spaces_view(self.pending_spaces),
            visible: self.visible_window_spaces@,
            pre_churn: self.pre_churn_visible_window_spaces@,
            pending_delta: delta_view(self.pending_topology_window_delta),
            timers: self.timers_enabled,
        }
    }
}

pub open spec fn epoch_after(epoch: u64) -> u64 {
    if epoch == u64::MAX {
        0
    } else {
        (epoch + 1) as u64
    }
}

impl Authority {
    pub open spec fn initial() -> Authority {
        Authority {
            sleeping: false,
            churn: false,
            screens: Seq::empty(),
            has_seen: false,
            last_sent: None,
            stats: QuarantineStats { appeared_dropped: 0, destroyed_dropped: 0 },
            converter: 0,
            refresh_pending: false,
            epoch: 0,
            flags: 0,
            sighting: None,
            last_user: Map::empty(),
            display_spaces: Seq::empty(),
            awaiting: false,
            deferred: false,
            pending_screens: None,
            pending_spaces: None,
            visible: Map::empty(),
            pre_churn: Map::empty(),
            pending_delta: None,
            timers: true,
        }
    }

    /// Whether updates are held back.
    pub open spec fn buffering(self) -> bool {
        self.sleeping || self.churn
    }

    /// The screens as they are kept and handed on, if the system shows `screens`.
    pub open spec fn adopted(self, screens: Seq<ScreenInfo>, env: Surroundings) -> Seq<ScreenInfo> {
        super::topology::without_fullscreen(
            super::topology::preserved(self.screens, screens, env.fullscreen@),
            env.fullscreen@,
        )
    }

    /// Whether a change of displays is one that layouts have to follow.
    pub open spec fn forces_layout(self, screens: Seq<ScreenInfo>) -> bool {
        super::topology::topology_changed(self.screens, screens) && (self.has_seen
            || self.screens.len() != 0)
    }

    pub open spec fn allows_remap(self, screens: Seq<ScreenInfo>) -> bool {
        self.forces_layout(screens) && super::topology::distinct_spaces(screens)
            && super::topology::complete(screens)
    }

    /// What is handed on, if the system shows `raw`.
    pub open spec fn forwarded(self, raw: Seq<ScreenInfo>, env: Surroundings) -> Forwarded {
        let screens = self.adopted(raw, env);
        Forwarded {
            screens,
            fullscreen_spaces: Set::new(
                |s: SpaceId|
                    super::topology::shows_space(raw, s) && env.fullscreen@.contains(s),
            ),
            has_seen_display_set: self.has_seen || screens.len() != 0,
            active_spaces: Set::new(|s: SpaceId| super::topology::shows_space(screens, s)),
            command_space: super::topology::command_space(
                screens,
                env.under_cursor@,
                env.active_space,
            ),
            display_space_ids: env.display_spaces@,
            last_user_space_by_display: super::topology::last_user_spaces(self.last_user, screens),
            space_remaps: if self.allows_remap(screens) {
                super::topology::remaps(self.last_user, screens)
            } else {
                Seq::empty()
            },
            display_set_changed: super::topology::displays_changed(self.screens, screens),
            topology_changed: super::topology::topology_changed(self.screens, screens),
            allow_space_remap: self.allows_remap(screens),
            should_force_refresh_layout: self.forces_layout(screens),
            resized_spaces: super::topology::resized_spaces(self.screens, screens),
            topology_window_delta: self.pending_delta,
        }
    }

    /// The state once what the system shows was handed on.
    pub open spec fn after_build(self, raw: Seq<ScreenInfo>, env: Surroundings) -> Authority {
        let screens = self.adopted(raw, env);
        Authority {
            screens,
            has_seen: self.has_seen || screens.len() != 0,
            last_user: super::topology::last_user_spaces(self.last_user, screens),
            display_spaces: env.display_spaces@,
            visible: super::topology::window_spaces(screens, env.windows@),
            pending_delta: None,
            ..self
        }
    }

    pub open spec fn delta(self, epoch: u64, screens: Seq<ScreenInfo>, env: Surroundings) -> Authority {
        let current = super::topology::window_spaces(screens, env.windows@);
        Authority {
            pending_delta: Some(
                super::topology::Delta {
                    epoch,
                    flags: self.flags,
                    appeared: super::topology::changes(current, self.pre_churn),
                    disappeared: super::topology::changes(self.pre_churn, current),
                },
            ),
            pre_churn: Map::empty(),
            visible: current,
            ..self
        }
    }
}

/// A state, and what was done on the way to it.
#[verifier::ext_equal]
pub struct Run {
    pub state: Authority,
    pub log: Seq<Effect>,
}

impl Run {
    pub open spec fn emit(self, e: Effect) -> Run {
        Run { log: self.log.push(e), ..self }
    }

    pub open spec fn with(self, state: Authority) -> Run {
        Run { state, ..self }
    }

    /// A refresh is asked for, unless one is on its way; while displays are unstable it waits.
    pub open spec fn scheduled(self, delay_ns: i64, attempt: u8) -> Run {
        if !self.state.timers {
            self
        } else if attempt == 0 && self.state.churn {
            self.with(Authority { deferred: true, ..self.state })
        } else if attempt == 0 && self.state.refresh_pending {
            self
        } else {
            self.with(Authority { refresh_pending: true, ..self.state }).emit(
                Effect::Refresh { delay_ns, attempt },
            )
        }
    }

    pub open spec fn stabilizing(self, epoch: u64, attempt: u8, delay_ns: i64) -> Run {
        if self.state.timers {
            self.emit(Effect::Stabilize { epoch, attempt, delay_ns })
        } else {
            self
        }
    }

    pub open spec fn forward_parameters(self, shot: Shot, env: Surroundings) -> Run {
        let s0 = Authority { converter: shot.converter, ..self.state };
        let f = s0.forwarded(shot.screens, env);
        let s1 = s0.after_build(shot.screens, env);
        self.with(
            Authority {
                last_sent: Some(super::topology::spaces_of(f.screens)),
                awaiting: false,
                ..s1
            },
        ).emit(Effect::Forward(f, shot.converter))
    }

    /// Whether the screens can be handed on as they are now.
    pub open spec fn authoritative(self, force: bool, env: Surroundings) -> bool {
        &&& !self.state.refresh_pending
        &&& !self.state.churn
        &&& env.snapshot is Some
        &&& env.snapshot->0@.screens.len() != 0
        &&& super::topology::complete(env.snapshot->0@.screens)
        &&& force || self.state.last_sent != Some(
            super::topology::spaces_of(env.snapshot->0@.screens),
        )
    }

    /// Hands the screens on as they are now, or asks for a refresh.
    pub open spec fn forward_now(self, force: bool, delay_ns: i64, env: Surroundings) -> Run {
        if self.authoritative(force, env) {
            self.forward_parameters(env.snapshot->0@, env)
        } else {
            self.scheduled(delay_ns, 0)
        }
    }

    pub open spec fn forward_spaces(self, spaces: Seq<Option<SpaceId>>, env: Surroundings) -> Run {
        if self.state.last_sent == Some(spaces) {
            self
        } else if spaces.len() != self.state.screens.len() {
            self.forward_now(true, 0, env)
        } else {
            let screens = with_spaces(self.state.screens, spaces);
            let f = self.state.forwarded(screens, env);
            let s1 = self.state.after_build(screens, env);
            self.with(Authority { last_sent: Some(spaces), awaiting: false, ..s1 }).emit(
                Effect::Forward(f, self.state.converter),
            )
        }
    }

    pub open spec fn flushed(self, env: Surroundings) -> Run {
        if self.state.buffering() {
            self
        } else {
            let r1 = match self.state.pending_screens {
                Some(shot) => self.with(
                    Authority { pending_screens: None, ..self.state },
                ).forward_parameters(shot, env),
                None => self,
            };
            match r1.state.pending_spaces {
                Some(spaces) => r1.with(
                    Authority { pending_spaces: None, ..r1.state },
                ).forward_spaces(spaces, env),
                None => r1,
            }
        }
    }

    /// Looks once more if that may help, else gives up.
    pub open spec fn refresh_again(self, attempt: u8, delay_ns: i64) -> Run {
        self.scheduled(delay_ns, (attempt + 1) as u8)
    }

    pub open spec fn refreshed(self, attempt: u8, env: Surroundings) -> Run {
        let again = attempt < REFRESH_MAX_RETRIES;
        if self.state.churn {
            self.with(Authority { deferred: true, refresh_pending: false, ..self.state })
        } else if env.snapshot is None || env.snapshot->0@.screens.len() == 0 {
            if again {
                self.refresh_again(attempt, REFRESH_RETRY_DELAY_NS)
            } else {
                self.with(Authority { refresh_pending: false, ..self.state })
            }
        } else if !super::topology::complete(env.snapshot->0@.screens) && again {
            self.refresh_again(attempt, REFRESH_RETRY_DELAY_NS)
        } else if self.state.awaiting && self.state.last_sent == Some(
            super::topology::spaces_of(env.snapshot->0@.screens),
        ) && again {
            self.refresh_again(attempt, REFRESH_SPACE_SWITCH_DELAY_NS)
        } else {
            let r = self.forward_parameters(env.snapshot->0@, env);
            r.with(Authority { refresh_pending: false, ..r.state })
        }
    }

    /// Displays became unstable, or still are.
    pub open spec fn churned(self, flags: u32) -> Run {
        let s = self.state;
        let next = Authority {
            churn: true,
            flags: s.flags | flags,
            epoch: epoch_after(s.epoch),
            sighting: None,
            last_sent: None,
            pre_churn: if s.churn {
                s.pre_churn
            } else {
                s.visible
            },
            ..s
        };
        let r = self.with(next).emit(Effect::RecordChurn(flags));
        if s.churn {
            r
        } else {
            r.emit(Effect::ChurnBegan)
        }
    }

    /// Displays are stable again.
    pub open spec fn settled(self, refresh: bool) -> Run {
        let s = self.state;
        let next = Authority {
            churn: false,
            epoch: epoch_after(s.epoch),
            flags: 0,
            sighting: None,
            deferred: false,
            ..s
        };
        let r = self.with(next).emit(Effect::EndChurn).emit(Effect::ChurnEnded);
        if refresh {
            r.scheduled(0, 0)
        } else {
            r
        }
    }

    /// Looks at the displays once more, or takes them as they are.
    pub open spec fn look_again(self, attempt: u8) -> Run {
        if attempt < DISPLAY_STABILIZE_MAX_ATTEMPTS {
            self.stabilizing(self.state.epoch, (attempt + 1) as u8, DISPLAY_STABILIZE_RETRY_NS)
        } else {
            self.settled(true)
        }
    }

    pub open spec fn committed(self, env: Surroundings) -> Run {
        let shot = env.snapshot->0@;
        let s = self.state.delta(self.state.epoch, shot.screens, env);
        self.with(
            Authority { pending_screens: None, pending_spaces: None, ..s },
        ).forward_parameters(shot, env).settled(false)
    }

    pub open spec fn stabilization_checked(
        self,
        expected_epoch: u64,
        attempt: u8,
        env: Surroundings,
    ) -> Run {
        let s = self.state;
        if expected_epoch != s.epoch || !s.churn {
            self
        } else if env.snapshot is None || env.snapshot->0@.screens.len() == 0 {
            self.look_again(attempt)
        } else {
            let shot = env.snapshot->0@;
            let fingerprint = fingerprint_of(shot.screens);
            if s.sighting is None || s.sighting->0.fingerprint != fingerprint {
                self.with(
                    Authority { sighting: Some(Sighting { fingerprint, hits: 1 }), ..s },
                ).stabilizing(s.epoch, (attempt + 1) as u8, DISPLAY_STABILIZE_RETRY_NS)
            } else {
                let hits = if s.sighting->0.hits == u8::MAX {
                    u8::MAX
                } else {
                    (s.sighting->0.hits + 1) as u8
                };
                let seen = self.with(
                    Authority { sighting: Some(Sighting { fingerprint, hits }), ..s },
                );
                if hits < DISPLAY_STABLE_REQUIRED_HITS {
                    seen.look_again(attempt)
                } else if !super::topology::valid_for_commit(shot.screens, env.fullscreen@) {
                    self.with(Authority { sighting: None, ..s }).look_again(attempt)
                } else if !env.quiet {
                    seen.look_again(attempt)
                } else {
                    seen.committed(env)
                }
            }
        }
    }

    pub open spec fn inventory_changed(self, env: Surroundings) -> Run {
        if self.state.buffering() {
            self.scheduled(0, 0)
        } else {
            self.forward_now(true, REFRESH_RETRY_DELAY_NS, env)
        }
    }

    /// What an event leads to.
    pub open spec fn step(self, event: Event, env: Surroundings) -> Run {
        let s = self.state;
        match event {
            Event::SystemWillSleep => self.with(Authority { sleeping: true, ..s }).emit(
                Effect::MarkSleeping(true),
            ),
            Event::SystemDidWake => {
                let awake = self.with(Authority { sleeping: false, ..s }).emit(
                    Effect::MarkSleeping(false),
                );
                let checking = if s.churn {
                    awake.stabilizing(s.epoch, 0, DISPLAY_CHURN_QUIET_NS)
                } else {
                    awake
                };
                checking.scheduled(REFRESH_DEFAULT_DELAY_NS, 0).flushed(env)
            },
            Event::ActiveDisplayChanged => if s.buffering() {
                self.scheduled(0, 0)
            } else {
                self.forward_now(true, 0, env)
            },
            Event::ActiveSpaceChanged => {
                let r = self.with(Authority { awaiting: true, ..s });
                if s.buffering() {
                    r.scheduled(REFRESH_SPACE_SWITCH_DELAY_NS, 0)
                } else {
                    r.forward_now(false, REFRESH_SPACE_SWITCH_DELAY_NS, env)
                }
            },
            Event::ScreenRefreshRequested => self.scheduled(REFRESH_DEFAULT_DELAY_NS, 0),
            Event::DisplayReconfigured { display_id, flags } => {
                let r = self.churned(flags).emit(Effect::MarkDirty);
                r.stabilizing(r.state.epoch, 0, DISPLAY_CHURN_QUIET_NS)
            },
            Event::DisplayChurnBegin => self.with(Authority { churn: true, ..s }).emit(
                Effect::ChurnBegan,
            ),
            Event::DisplayChurnEnd => self.with(Authority { churn: false, ..s }).emit(
                Effect::ChurnEnded,
            ).flushed(env),
            Event::ScreenParametersChanged(snapshot) => if s.buffering() {
                self.with(Authority { pending_screens: Some(snapshot@), ..s })
            } else {
                self.forward_parameters(snapshot@, env)
            },
            Event::SpaceChanged(spaces) => if s.buffering() {
                self.with(Authority { pending_spaces: Some(spaces@), ..s })
            } else {
                self.forward_spaces(spaces@, env)
            },
            Event::SpaceInventoryChanged => self.inventory_changed(env),
            Event::SpaceCreated(space) => if env.kind(space) is Some {
                self.emit(Effect::SpaceCreated(space)).inventory_changed(env)
            } else {
                self.inventory_changed(env)
            },
            Event::SpaceDestroyed(space) => if env.kind(space) is Some {
                self.emit(Effect::SpaceDestroyed(space)).inventory_changed(env)
            } else {
                self.inventory_changed(env)
            },
            Event::WindowServerAppeared(wsid, sid) => {
                let visible = s.visible.insert(wsid, sid);
                if s.buffering() {
                    self.with(
                        Authority {
                            visible,
                            stats: QuarantineStats {
                                appeared_dropped: (s.stats.appeared_dropped + 1) as u64,
                                ..s.stats
                            },
                            ..s
                        },
                    )
                } else {
                    let r = self.with(Authority { visible, ..s });
                    match env.kind(sid) {
                        Some(kind) => r.emit(Effect::WindowAppeared(wsid, sid, kind)),
                        None => r,
                    }
                }
            },
            Event::WindowServerDestroyed(wsid, sid) => {
                let visible = s.visible.remove(wsid);
                if s.buffering() {
                    self.with(
                        Authority {
                            visible,
                            stats: QuarantineStats {
                                destroyed_dropped: (s.stats.destroyed_dropped + 1) as u64,
                                ..s.stats
                            },
                            ..s
                        },
                    )
                } else {
                    let r = self.with(Authority { visible, ..s });
                    match env.kind(sid) {
                        Some(kind) => if kind == SpaceEventKind::User && env.window_space is Some
                            && env.window_space != Some(sid) {
                            r
                        } else {
                            r.emit(Effect::WindowDestroyed(wsid, sid, kind))
                        },
                        None => r,
                    }
                }
            },
            Event::ProcessScreenRefresh { attempt } => self.refreshed(attempt, env),
            Event::CheckDisplayStabilization { expected_epoch, attempt } =>
                self.stabilization_checked(expected_epoch, attempt, env),
        }
    }
}

/// The screens, showing other spaces.
pub open spec fn with_spaces(
    screens: Seq<ScreenInfo>,
    spaces: Seq<Option<SpaceId>>,
) -> Seq<ScreenInfo> {
    Seq::new(screens.len(), |i: int| ScreenInfo { space: spaces[i], ..screens[i] })
}

fn same_spaces(a: &Vec<Option<SpaceId>>, b: &Vec<Option<SpaceId>>) -> (r: bool)
    ensures
        r == (a@ == b@),
{
    if a.len() != b.len() {
        return false;
    }
    let mut i: usize = 0;
    while i < a.len()
        invariant
            i <= a@.len(),
            a@.len() == b@.len(),
            forall|j: int| 0 <= j < i ==> a@[j] == b@[j],
        decreases a@.len() - i,
    {
        if a[i] != b[i] {
            return false;
        }
        i = i + 1;
    }
    assert(a@ =~= b@);
    true
}

fn same_fingerprint(a: &Vec<Fingerprint>, b: &Vec<Fingerprint>) -> (r: bool)
    ensures
        r == (a@ == b@),
{
    if a.len() != b.len() {
        return false;
    }
    let mut i: usize = 0;
    while i < a.len()
        invariant
            i <= a@.len(),
            a@.len() == b@.len(),
            forall|j: int| 0 <= j < i ==> a@[j] == b@[j],
        decreases a@.len() - i,
    {
        if a[i] != b[i] {
            return false;
        }
        i = i + 1;
    }
    assert(a@ =~= b@);
    true
}

fn take_fingerprint(screens: &Vec<ScreenInfo>) -> (r: Vec<Fingerprint>)
    ensures
        r@ == fingerprint_of(screens@),
{
    let mut r: Vec<Fingerprint> = Vec::new();
    let mut i: usize = 0;
    while i < screens.len()
        invariant
            i <= screens@.len(),
            r@ == fingerprint_of(screens@.take(i as int)),
        decreases screens@.len() - i,
    {
        let s = screens[i];
        let f = Fingerprint { display_uuid: s.display_uuid, frame: s.frame, space: s.space };
        r.push(f);
        assert(fingerprint_of(screens@.take(i + 1)) =~= fingerprint_of(
            screens@.take(i as int),
        ).push(f));
        i = i + 1;
    }
    assert(screens@.take(i as int) =~= screens@);
    r
}

fn next_epoch(epoch: u64) -> (r: u64)
    ensures
        r == epoch_after(epoch),
{
    if epoch == u64::MAX {
        0
    } else {
        epoch + 1
    }
}

/// The fullscreen spaces among those that show.
fn shown_fullscreen_spaces(screens: &Vec<ScreenInfo>, fullscreen: &VecSet<SpaceId>) -> (r: VecSet<
    SpaceId,
>)
    ensures
        r@ == Set::new(
            |s: SpaceId|
                super::topology::shows_space(screens@, s) && fullscreen@.contains(s),
        ),
{
    let mut r: VecSet<SpaceId> = VecSet::new();
    let mut i: usize = 0;
    while i < screens.len()
        invariant
            i <= screens@.len(),
            forall|s: SpaceId|
                #[trigger] r@.contains(s) <==> fullscreen@.contains(s) && exists|j: int|
                    0 <= j < i && (#[trigger] screens@[j]).space == Some(s),
        decreases screens@.len() - i,
    {
        match screens[i].space {
            Some(space) => {
                if fullscreen.contains(&space) {
                    let _ = r.insert(space);
                }
            },
            None => {},
        }
        assert(screens@[i as int] == screens@[i as int]);
        i = i + 1;
    }
    assert(r@ =~= Set::new(
        |s: SpaceId|
            super::topology::shows_space(screens@, s) && fullscreen@.contains(s),
    ));
    r
}

/// The spaces that show.
fn shown_spaces(screens: &Vec<ScreenInfo>) -> (r: VecSet<SpaceId>)
    ensures
        r@ == Set::new(|s: SpaceId| super::topology::shows_space(screens@, s)),
{
    let mut r: VecSet<SpaceId> = VecSet::new();
    let mut i: usize = 0;
    while i < screens.len()
        invariant
            i <= screens@.len(),
            forall|s: SpaceId|
                #[trigger] r@.contains(s) <==> exists|j: int|
                    0 <= j < i && (#[trigger] screens@[j]).space == Some(s),
        decreases screens@.len() - i,
    {
        match screens[i].space {
            Some(space) => {
                let _ = r.insert(space);
            },
            None => {},
        }
        assert(screens@[i as int] == screens@[i as int]);
        i = i + 1;
    }
    assert(r@ =~= Set::new(|s: SpaceId| super::topology::shows_space(screens@, s)));
    r
}

impl Default for AuthorityState {
    fn default() -> (r: AuthorityState)
        ensures
            r@ == Authority::initial(),
    {
        AuthorityState {
            sleeping: false,
            display_churn_active: false,
            screens: Vec::new(),
            has_seen_display_set: false,
            last_sent_spaces: None,
            quarantine_stats: QuarantineStats { appeared_dropped: 0, destroyed_dropped: 0 },
            last_converter: 0,
            refresh_pending: false,
            display_churn_epoch: 0,
            display_churn_flags: 0,
            display_topology_state: None,
            last_user_space_by_display: VecMap::new(),
            display_space_ids: Vec::new(),
            awaiting_space_switch_confirmation: false,
            refresh_deferred_until_stable: false,
            pending_screen_parameters: None,
            pending_spaces: None,
            visible_window_spaces: VecMap::new(),
            pre_churn_visible_window_spaces: VecMap::new(),
            pending_topology_window_delta: None,
            timers_enabled: true,
        }
    }
}

/// The state and the log of an authority and its actions.
pub open spec fn run_of(state: Authority, out: Seq<Action>) -> Run {
    Run { state, log: effects(out) }
}

impl AuthorityState {
    pub fn should_buffer_topology_updates(&self) -> (r: bool)
        ensures
            r == self@.buffering(),
    {
        self.sleeping || self.display_churn_active
    }

    fn last_sent_is(&self, spaces: &Vec<Option<SpaceId>>) -> (r: bool)
        ensures
            r == (self@.last_sent == Some(spaces@)),
    {
        match &self.last_sent_spaces {
            Some(sent) => same_spaces(sent, spaces),
            None => false,
        }
    }

    pub fn schedule_screen_refresh_after(
        &mut self,
        delay_ns: i64,
        attempt: u8,
        out: &mut Vec<Action>,
    )
        ensures
            run_of(final(self)@, final(out)@) == run_of(old(self)@, old(out)@).scheduled(
                delay_ns,
                attempt,
            ),
    {
        if !self.timers_enabled {
            return;
        }
        if attempt == 0 && self.display_churn_active {
            self.refresh_deferred_until_stable = true;
            return;
        }
        if attempt == 0 && self.refresh_pending {
            return;
        }
        self.refresh_pending = true;
        emit(out, Action::Refresh { delay_ns, attempt });
    }

    fn schedule_display_stabilization(
        &self,
        epoch: u64,
        attempt: u8,
        delay_ns: i64,
        out: &mut Vec<Action>,
    )
        ensures
            run_of(self@, final(out)@) == run_of(self@, old(out)@).stabilizing(
                epoch,
                attempt,
                delay_ns,
            ),
    {
        if self.timers_enabled {
            emit(out, Action::Stabilize { epoch, attempt, delay_ns });
        }
    }

    /// What is handed on if the system shows `raw`; the state follows.
    pub fn build_forwarded_state(&mut self, raw: &Vec<ScreenInfo>, env: &Surroundings) -> (r:
        ForwardedSpaceState)
        ensures
            r@ == old(self)@.forwarded(raw@, *env),
            final(self)@ == old(self)@.after_build(raw@, *env),
    {
        let fullscreen_spaces = shown_fullscreen_spaces(raw, &env.fullscreen);
        let kept = preserve_user_spaces_during_fullscreen_transition(
            &self.screens,
            raw,
            &env.fullscreen,
        );
        let screens = null_fullscreen_spaces(&kept, &env.fullscreen);
        let set_changed = display_set_changed(&self.screens, &screens);
        let topology_changed = has_topology_changed(&self.screens, &screens);
        let should_force_refresh_layout = topology_changed && (self.has_seen_display_set
            || self.screens.len() != 0);
        let resized_spaces = find_resized_spaces(&self.screens, &screens);
        let allow_space_remap = should_force_refresh_layout && has_distinct_spaces(&screens)
            && is_complete(&screens);
        let space_remaps = compute_space_remaps(
            &mut self.last_user_space_by_display,
            &screens,
            allow_space_remap,
        );
        let command_space = resolve_command_space(&screens, &env.under_cursor, env.active_space);
        self.display_space_ids = copied(&env.display_spaces);
        if screens.len() != 0 {
            self.has_seen_display_set = true;
        }
        self.visible_window_spaces = visible_window_spaces_for_screens(&screens, &env.windows);
        let active_spaces = shown_spaces(&screens);
        self.screens = copied(&screens);
        let topology_window_delta = self.pending_topology_window_delta.take();
        ForwardedSpaceState {
            screens,
            fullscreen_spaces,
            has_seen_display_set: self.has_seen_display_set,
            active_spaces,
            command_space,
            display_space_ids: copied(&env.display_spaces),
            last_user_space_by_display: self.last_user_space_by_display.duplicate(),
            space_remaps,
            display_set_changed: set_changed,
            topology_changed,
            allow_space_remap,
            should_force_refresh_layout,
            resized_spaces,
            topology_window_delta,
        }
    }

    pub fn forward_screen_parameters(
        &mut self,
        snapshot: &Snapshot,
        env: &Surroundings,
        out: &mut Vec<Action>,
    )
        ensures
            run_of(final(self)@, final(out)@) == run_of(old(self)@, old(out)@).forward_parameters(
                snapshot@,
                *env,
            ),
    {
        self.last_converter = snapshot.converter;
        let forwarded = self.build_forwarded_state(&snapshot.screens, env);
        self.last_sent_spaces = Some(screen_spaces(&forwarded.screens));
        self.awaiting_space_switch_confirmation = false;
        emit(out, Action::Forward(forwarded, self.last_converter));
    }

    /// Whether the screens can be handed on as they are now.
    fn is_authoritative(&self, force: bool, env: &Surroundings) -> (r: bool)
        ensures
            forall|log: Seq<Effect>|
                r == (#[trigger] (Run { state: self@, log }).authoritative(force, *env)),
    {
        if self.refresh_pending || self.display_churn_active {
            return false;
        }
        match &env.snapshot {
            Some(snapshot) => {
                if snapshot.screens.len() == 0 || !is_complete(&snapshot.screens) {
                    return false;
                }
                force || !self.last_sent_is(&screen_spaces(&snapshot.screens))
            },
            None => false,
        }
    }

    /// Hands the screens on as they are now, or asks for a refresh.
    fn try_forward_authoritative_snapshot(
        &mut self,
        force: bool,
        delay_ns: i64,
        env: &Surroundings,
        out: &mut Vec<Action>,
    )
        ensures
            run_of(final(self)@, final(out)@) == run_of(old(self)@, old(out)@).forward_now(
                force,
                delay_ns,
                *env,
            ),
    {
        let ghost log = effects(out@);
        assert(run_of(self@, out@) == (Run { state: self@, log }));
        let can = self.is_authoritative(force, env);
        assert(can == (Run { state: self@, log }).authoritative(force, *env));
        if can {
            match &env.snapshot {
                Some(snapshot) => {
                    self.forward_screen_parameters(snapshot, env, out);
                },
                None => {},
            }
        } else {
            self.schedule_screen_refresh_after(delay_ns, 0, out);
        }
    }

    pub fn forward_space_snapshot(
        &mut self,
        spaces: Vec<Option<SpaceId>>,
        env: &Surroundings,
        out: &mut Vec<Action>,
    )
        ensures
            run_of(final(self)@, final(out)@) == run_of(old(self)@, old(out)@).forward_spaces(
                spaces@,
                *env,
            ),
    {
        if self.last_sent_is(&spaces) {
            return;
        }
        if spaces.len() != self.screens.len() {
            self.try_forward_authoritative_snapshot(true, 0, env, out);
            return;
        }
        let mut screens: Vec<ScreenInfo> = Vec::new();
        let mut i: usize = 0;
        while i < self.screens.len()
            invariant
                i <= self.screens@.len(),
                self.screens@.len() == spaces@.len(),
                screens@ == with_spaces(self.screens@, spaces@).take(i as int),
            decreases self.screens@.len() - i,
        {
            let s = self.screens[i];
            screens.push(
                ScreenInfo {
                    id: s.id,
                    display_uuid: s.display_uuid,
                    frame: s.frame,
                    width: s.width,
                    height: s.height,
                    space: spaces[i],
                },
            );
            assert(with_spaces(self.screens@, spaces@).take(i + 1) =~= with_spaces(
                self.screens@,
                spaces@,
            ).take(i as int).push(with_spaces(self.screens@, spaces@)[i as int]));
            i = i + 1;
        }
        assert(screens@ =~= with_spaces(self.screens@, spaces@));
        self.last_sent_spaces = Some(spaces);
        let forwarded = self.build_forwarded_state(&screens, env);
        self.awaiting_space_switch_confirmation = false;
        emit(out, Action::Forward(forwarded, self.last_converter));
    }

    pub fn flush_pending_if_stable(&mut self, env: &Surroundings, out: &mut Vec<Action>)
        ensures
            run_of(final(self)@, final(out)@) == run_of(old(self)@, old(out)@).flushed(*env),
    {
        if self.should_buffer_topology_updates() {
            return;
        }
        match self.pending_screen_parameters.take() {
            Some(pending) => {
                self.forward_screen_parameters(&pending, env, out);
            },
            None => {},
        }
        match self.pending_spaces.take() {
            Some(pending) => {
                self.forward_space_snapshot(pending, env, out);
            },
            None => {},
        }
    }

    pub fn process_screen_refresh(
        &mut self,
        attempt: u8,
        env: &Surroundings,
        out: &mut Vec<Action>,
    )
        ensures
            run_of(final(self)@, final(out)@) == run_of(old(self)@, old(out)@).refreshed(
                attempt,
                *env,
            ),
    {
        if self.display_churn_active {
            self.refresh_deferred_until_stable = true;
            self.refresh_pending = false;
            return;
        }
        let again = attempt < REFRESH_MAX_RETRIES;
        match &env.snapshot {
            Some(snapshot) => {
                if snapshot.screens.len() == 0 {
                    if again {
                        self.schedule_screen_refresh_after(
                            REFRESH_RETRY_DELAY_NS,
                            attempt + 1,
                            out,
                        );
                    } else {
                        self.refresh_pending = false;
                    }
                    return;
                }
                if again && !is_complete(&snapshot.screens) {
                    self.schedule_screen_refresh_after(REFRESH_RETRY_DELAY_NS, attempt + 1, out);
                    return;
                }
                if again && self.awaiting_space_switch_confirmation && self.last_sent_is(
                    &screen_spaces(&snapshot.screens),
                ) {
                    self.schedule_screen_refresh_after(
                        REFRESH_SPACE_SWITCH_DELAY_NS,
                        attempt + 1,
                        out,
                    );
                    return;
                }
                self.forward_screen_parameters(snapshot, env, out);
                self.refresh_pending = false;
            },
            None => {
                if again {
                    self.schedule_screen_refresh_after(REFRESH_RETRY_DELAY_NS, attempt + 1, out);
                } else {
                    self.refresh_pending = false;
                }
            },
        }
    }

    pub fn begin_display_churn(&mut self, flags: u32, out: &mut Vec<Action>)
        ensures
            run_of(final(self)@, final(out)@) == run_of(old(self)@, old(out)@).churned(flags),
    {
        let was_active = self.display_churn_active;
        self.display_churn_active = true;
        self.display_churn_flags = self.display_churn_flags | flags;
        self.display_churn_epoch = next_epoch(self.display_churn_epoch);
        self.display_topology_state = None;
        self.last_sent_spaces = None;
        emit(out, Action::RecordChurn(flags));
        if !was_active {
            self.pre_churn_visible_window_spaces = self.visible_window_spaces.duplicate();
            emit(out, Action::ChurnBegan);
        }
    }

    fn finish_display_churn(&mut self, schedule_refresh: bool, out: &mut Vec<Action>)
        ensures
            run_of(final(self)@, final(out)@) == run_of(old(self)@, old(out)@).settled(
                schedule_refresh,
            ),
    {
        self.display_churn_active = false;
        self.display_churn_epoch = next_epoch(self.display_churn_epoch);
        self.display_churn_flags = 0;
        self.display_topology_state = None;
        self.refresh_deferred_until_stable = false;
        emit(out, Action::EndChurn);
        emit(out, Action::ChurnEnded);
        if schedule_refresh {
            self.schedule_screen_refresh_after(0, 0, out);
        }
    }

    fn retry_display_stabilization(&mut self, attempt: u8, out: &mut Vec<Action>)
        ensures
            run_of(final(self)@, final(out)@) == run_of(old(self)@, old(out)@).look_again(attempt),
    {
        if attempt < DISPLAY_STABILIZE_MAX_ATTEMPTS {
            self.schedule_display_stabilization(
                self.display_churn_epoch,
                attempt + 1,
                DISPLAY_STABILIZE_RETRY_NS,
                out,
            );
        } else {
            self.finish_display_churn(true, out);
        }
    }

    /// Notes which windows changed their space while displays were unstable.
    pub fn synthesize_topology_window_delta(
        &mut self,
        epoch: u64,
        screens: &Vec<ScreenInfo>,
        env: &Surroundings,
    )
        ensures
            final(self)@ == old(self)@.delta(epoch, screens@, *env),
    {
        let current = visible_window_spaces_for_screens(screens, &env.windows);
        let appeared = changed_entries(&current, &self.pre_churn_visible_window_spaces);
        let disappeared = changed_entries(&self.pre_churn_visible_window_spaces, &current);
        self.pre_churn_visible_window_spaces = VecMap::new();
        self.pending_topology_window_delta = Some(
            TopologyWindowDelta { epoch, flags: self.display_churn_flags, appeared, disappeared },
        );
        self.visible_window_spaces = current;
    }

    pub fn attempt_finish_display_churn(
        &mut self,
        expected_epoch: u64,
        attempt: u8,
        env: &Surroundings,
        out: &mut Vec<Action>,
    )
        requires
            attempt < u8::MAX,
        ensures
            run_of(final(self)@, final(out)@) == run_of(
                old(self)@,
                old(out)@,
            ).stabilization_checked(expected_epoch, attempt, *env),
    {
        if expected_epoch != self.display_churn_epoch || !self.display_churn_active {
            return;
        }
        let snapshot = match &env.snapshot {
            Some(snapshot) => snapshot,
            None => {
                self.retry_display_stabilization(attempt, out);
                return;
            },
        };
        if snapshot.screens.len() == 0 {
            self.retry_display_stabilization(attempt, out);
            return;
        }
        let fingerprint = take_fingerprint(&snapshot.screens);
        let hits: u8 = match &self.display_topology_state {
            Some(existing) => {
                if same_fingerprint(&existing.fingerprint, &fingerprint) {
                    if existing.hits == u8::MAX {
                        u8::MAX
                    } else {
                        existing.hits + 1
                    }
                } else {
                    0
                }
            },
            None => 0,
        };
        if hits == 0 {
            self.display_topology_state = Some(DisplayTopologyState { fingerprint, hits: 1 });
            self.schedule_display_stabilization(
                expected_epoch,
                attempt + 1,
                DISPLAY_STABILIZE_RETRY_NS,
                out,
            );
            return;
        }
        self.display_topology_state = Some(DisplayTopologyState { fingerprint, hits });
        if hits < DISPLAY_STABLE_REQUIRED_HITS {
            self.retry_display_stabilization(attempt, out);
            return;
        }
        if !screen_snapshot_is_valid_for_commit(&snapshot.screens, &env.fullscreen) {
            self.display_topology_state = None;
            self.retry_display_stabilization(attempt, out);
            return;
        }
        if !env.quiet {
            self.retry_display_stabilization(attempt, out);
            return;
        }
        self.synthesize_topology_window_delta(expected_epoch, &snapshot.screens, env);
        self.pending_screen_parameters = None;
        self.pending_spaces = None;
        self.forward_screen_parameters(snapshot, env, out);
        self.finish_display_churn(false, out);
    }

    fn handle_space_inventory_changed(&mut self, env: &Surroundings, out: &mut Vec<Action>)
        ensures
            run_of(final(self)@, final(out)@) == run_of(old(self)@, old(out)@).inventory_changed(
                *env,
            ),
    {
        if self.should_buffer_topology_updates() {
            self.schedule_screen_refresh_after(0, 0, out);
        } else {
            self.try_forward_authoritative_snapshot(true, REFRESH_RETRY_DELAY_NS, env, out);
        }
    }

    /// Whether handling `event` needs to know the screens as they are now.
    pub fn needs_snapshot(&self, event: &Event) -> (r: bool)
        ensures
            r == match *event {
                Event::SystemDidWake => !self.display_churn_active,
                Event::DisplayChurnEnd => !self.sleeping,
                Event::ActiveDisplayChanged | Event::ActiveSpaceChanged
                | Event::SpaceInventoryChanged | Event::SpaceCreated(_) | Event::SpaceDestroyed(_)
                | Event::SpaceChanged(_) => !self@.buffering(),
                Event::ProcessScreenRefresh { .. } => !self.display_churn_active,
                Event::CheckDisplayStabilization { expected_epoch, .. } => expected_epoch
                    == self.display_churn_epoch && self.display_churn_active,
                _ => false,
            },
    {
        match event {
            Event::SystemDidWake => !self.display_churn_active,
            Event::DisplayChurnEnd => !self.sleeping,
            Event::ActiveDisplayChanged => !self.should_buffer_topology_updates(),
            Event::ActiveSpaceChanged => !self.should_buffer_topology_updates(),
            Event::SpaceInventoryChanged => !self.should_buffer_topology_updates(),
            Event::SpaceCreated(_) => !self.should_buffer_topology_updates(),
            Event::SpaceDestroyed(_) => !self.should_buffer_topology_updates(),
            Event::SpaceChanged(_) => !self.should_buffer_topology_updates(),
            Event::ProcessScreenRefresh { attempt: _ } => !self.display_churn_active,
            Event::CheckDisplayStabilization { expected_epoch, attempt: _ } => *expected_epoch
                == self.display_churn_epoch && self.display_churn_active,
            _ => false,
        }
    }

    fn handle_wake(
        &mut self,
        env: &Surroundings,
        out: &mut Vec<Action>,
    )
        ensures
            run_of(final(self)@, final(out)@) == run_of(old(self)@, old(out)@).step(
                Event::SystemDidWake,
                *env,
            ),
    {
        self.sleeping = false;
        emit(out, Action::MarkSleeping(false));
        if self.display_churn_active {
            self.schedule_display_stabilization(
                self.display_churn_epoch,
                0,
                DISPLAY_CHURN_QUIET_NS,
                out,
            );
        }
        self.schedule_screen_refresh_after(REFRESH_DEFAULT_DELAY_NS, 0, out);
        self.flush_pending_if_stable(env, out);
    }

    fn handle_window_appeared(
        &mut self,
        wsid: WindowServerId,
        sid: SpaceId,
        env: &Surroundings,
        out: &mut Vec<Action>,
    )
        requires
            old(self).quarantine_stats.appeared_dropped < u64::MAX,
        ensures
            run_of(final(self)@, final(out)@) == run_of(old(self)@, old(out)@).step(
                Event::WindowServerAppeared(wsid, sid),
                *env,
            ),
    {
        let _ = self.visible_window_spaces.insert(wsid, sid);
        if self.should_buffer_topology_updates() {
            self.quarantine_stats.appeared_dropped =
            self.quarantine_stats.appeared_dropped + 1;
        } else {
            match env.classify_space(sid) {
                Some(kind) => {
                    emit(out, Action::WindowAppeared(wsid, sid, kind));
                },
                None => {},
            }
        }
    }

    fn handle_window_destroyed(
        &mut self,
        wsid: WindowServerId,
        sid: SpaceId,
        env: &Surroundings,
        out: &mut Vec<Action>,
    )
        requires
            old(self).quarantine_stats.destroyed_dropped < u64::MAX,
        ensures
            run_of(final(self)@, final(out)@) == run_of(old(self)@, old(out)@).step(
                Event::WindowServerDestroyed(wsid, sid),
                *env,
            ),
    {
        let _ = self.visible_window_spaces.remove(&wsid);
        if self.should_buffer_topology_updates() {
            self.quarantine_stats.destroyed_dropped =
            self.quarantine_stats.destroyed_dropped + 1;
        } else {
            match env.classify_space(sid) {
                Some(kind) => {
                    let moved: bool = kind == SpaceEventKind::User
                        && env.window_space.is_some() && env.window_space != Some(sid);
                    if !moved {
                        emit(out, Action::WindowDestroyed(wsid, sid, kind));
                    }
                },
                None => {},
            }
        }
    }

    fn handle_display_reconfig_event(
        &mut self,
        display_id: u32,
        flags: u32,
        env: &Surroundings,
        out: &mut Vec<Action>,
    )
        ensures
            run_of(final(self)@, final(out)@) == run_of(old(self)@, old(out)@).step(
                Event::DisplayReconfigured { display_id, flags },
                *env,
            ),
    {
        self.begin_display_churn(flags, out);
        emit(out, Action::MarkDirty);
        self.schedule_display_stabilization(
            self.display_churn_epoch,
            0,
            DISPLAY_CHURN_QUIET_NS,
            out,
        );
    }

    /// Handles an event; the result is what is to be done, in this order.
    #[verifier::rlimit(30)]
    pub fn handle_event(&mut self, event: Event, env: &Surroundings) -> (r: Vec<Action>)
        requires
            event matches Event::CheckDisplayStabilization { expected_epoch, attempt } ==> attempt
                < u8::MAX,
            event is WindowServerAppeared ==> old(self).quarantine_stats.appeared_dropped
                < u64::MAX,
            event is WindowServerDestroyed ==> old(self).quarantine_stats.destroyed_dropped
                < u64::MAX,
        ensures
            run_of(final(self)@, r@) == (Run { state: old(self)@, log: Seq::empty() }).step(
                event,
                *env,
            ),
    {
        let mut out: Vec<Action> = Vec::new();
        assert(effects(out@) =~= Seq::empty());
        match event {
            Event::SystemWillSleep => {
                self.sleeping = true;
                emit(&mut out, Action::MarkSleeping(true));
            },
            Event::SystemDidWake => {
                self.handle_wake(env, &mut out);
            },
            Event::ActiveDisplayChanged => {
                if self.should_buffer_topology_updates() {
                    self.schedule_screen_refresh_after(0, 0, &mut out);
                } else {
                    self.try_forward_authoritative_snapshot(true, 0, env, &mut out);
                }
            },
            Event::ActiveSpaceChanged => {
                self.awaiting_space_switch_confirmation = true;
                if self.should_buffer_topology_updates() {
                    self.schedule_screen_refresh_after(REFRESH_SPACE_SWITCH_DELAY_NS, 0, &mut out);
                } else {
                    self.try_forward_authoritative_snapshot(
                        false,
                        REFRESH_SPACE_SWITCH_DELAY_NS,
                        env,
                        &mut out,
                    );
                }
            },
            Event::ScreenRefreshRequested => {
                self.schedule_screen_refresh_after(REFRESH_DEFAULT_DELAY_NS, 0, &mut out);
            },
            Event::DisplayReconfigured { display_id, flags } => {
                self.handle_display_reconfig_event(display_id, flags, env, &mut out);
            },
            Event::DisplayChurnBegin => {
                self.display_churn_active = true;
                emit(&mut out, Action::ChurnBegan);
            },
            Event::DisplayChurnEnd => {
                self.display_churn_active = false;
                emit(&mut out, Action::ChurnEnded);
                self.flush_pending_if_stable(env, &mut out);
            },
            Event::ScreenParametersChanged(snapshot) => {
                if self.should_buffer_topology_updates() {
                    self.pending_screen_parameters = Some(snapshot);
                } else {
                    self.forward_screen_parameters(&snapshot, env, &mut out);
                }
            },
            Event::SpaceChanged(spaces) => {
                if self.should_buffer_topology_updates() {
                    self.pending_spaces = Some(spaces);
                } else {
                    self.forward_space_snapshot(spaces, env, &mut out);
                }
            },
            Event::SpaceInventoryChanged => {
                self.handle_space_inventory_changed(env, &mut out);
            },
            Event::SpaceCreated(space) => {
                if env.classify_space(space).is_some() {
                    emit(&mut out, Action::SpaceCreated(space));
                }
                self.handle_space_inventory_changed(env, &mut out);
            },
            Event::SpaceDestroyed(space) => {
                if env.classify_space(space).is_some() {
                    emit(&mut out, Action::SpaceDestroyed(space));
                }
                self.handle_space_inventory_changed(env, &mut out);
            },
            Event::WindowServerAppeared(wsid, sid) => {
                self.handle_window_appeared(wsid, sid, env, &mut out);
            },
            Event::WindowServerDestroyed(wsid, sid) => {
                self.handle_window_destroyed(wsid, sid, env, &mut out);
            },
            Event::ProcessScreenRefresh { attempt } => {
                self.process_screen_refresh(attempt, env, &mut out);
            },
            Event::CheckDisplayStabilization { expected_epoch, attempt } => {
                self.attempt_finish_display_churn(expected_epoch, attempt, env, &mut out);
            },
        }
        out
    }
}

/// Whether something was handed on in the log after its first `n` entries.
pub open spec fn forwards_after(log: Seq<Effect>, n: nat) -> bool {
    exists|i: int| n <= i < log.len() && (#[trigger] log[i]) is Forward
}

/// While updates are held back, nothing is handed on, except by the commit that ends it, by
/// waking, and by the word that displays are stable.
pub proof fn unstable_displays_forward_nothing(run: Run, event: Event, env: Surroundings)
    requires
        run.state.buffering(),
        !(event is CheckDisplayStabilization),
        !(event is SystemDidWake),
        !(event is DisplayChurnEnd),
        !(event is ProcessScreenRefresh) || run.state.churn,
    ensures
        !forwards_after(run.step(event, env).log, run.log.len()),
{
}

/// Window events are only counted while displays are unstable: nothing is told of them.
pub proof fn unstable_displays_quarantine_windows(
    run: Run,
    wsid: WindowServerId,
    sid: SpaceId,
    env: Surroundings,
)
    requires
        run.state.buffering(),
    ensures
        run.step(Event::WindowServerAppeared(wsid, sid), env).log == run.log,
        run.step(Event::WindowServerDestroyed(wsid, sid), env).log == run.log,
        run.step(Event::WindowServerAppeared(wsid, sid), env).state.visible
            == run.state.visible.insert(wsid, sid),
        run.step(Event::WindowServerDestroyed(wsid, sid), env).state.visible
            == run.state.visible.remove(wsid),
{
}

/// A check that belongs to an earlier disturbance changes nothing.
pub proof fn outdated_checks_change_nothing(
    run: Run,
    expected_epoch: u64,
    attempt: u8,
    env: Surroundings,
)
    requires
        expected_epoch != run.state.epoch || !run.state.churn,
    ensures
        run.step(Event::CheckDisplayStabilization { expected_epoch, attempt }, env) == run,
{
}

/// A new disturbance outdates every check that was asked for before.
pub proof fn a_new_disturbance_outdates_earlier_checks(
    run: Run,
    display_id: u32,
    flags: u32,
    env: Surroundings,
)
    ensures
        run.step(Event::DisplayReconfigured { display_id, flags }, env).state.epoch
            != run.state.epoch,
        run.step(Event::DisplayReconfigured { display_id, flags }, env).state.churn,
{
}

/// Displays are taken as stable by a commit only after the same arrangement was seen before.
pub proof fn the_first_sighting_is_never_committed(
    run: Run,
    attempt: u8,
    env: Surroundings,
)
    requires
        run.state.churn,
        run.state.sighting is None,
        attempt < DISPLAY_STABILIZE_MAX_ATTEMPTS,
    ensures
        run.step(
            Event::CheckDisplayStabilization { expected_epoch: run.state.epoch, attempt },
            env,
        ).state.churn,
        !forwards_after(
            run.step(
                Event::CheckDisplayStabilization { expected_epoch: run.state.epoch, attempt },
                env,
            ).log,
            run.log.len(),
        ),
{
}

/// A commit drops what was held back, ends the disturbance and tells which windows changed their
/// space since it began.
pub proof fn a_commit_replaces_what_was_held_back(run: Run, env: Surroundings)
    requires
        run.state.churn,
        env.snapshot is Some,
    ensures
        run.committed(env).state.pending_screens is None,
        run.committed(env).state.pending_spaces is None,
        !run.committed(env).state.churn,
        run.committed(env).state.pending_delta is None,
        run.committed(env).log.len() == run.log.len() + 3,
        run.committed(env).log[run.log.len() as int] matches Effect::Forward(f, c)
            && f.topology_window_delta == run.state.delta(
            run.state.epoch,
            env.snapshot->0@.screens,
            env,
        ).pending_delta,
{
}

/// Looking again is given up after a bounded number of attempts: then the disturbance ends and a
/// refresh is asked for.
pub proof fn looking_again_is_given_up(run: Run, attempt: u8)
    requires
        run.state.churn,
        attempt >= DISPLAY_STABILIZE_MAX_ATTEMPTS,
    ensures
        !run.look_again(attempt).state.churn,
        run.state.timers ==> run.look_again(attempt).state.refresh_pending,
{
}

/// Whatever is handed on shows no fullscreen space, and the state keeps exactly what was handed
/// on.
pub proof fn what_is_handed_on_is_kept(
    state: Authority,
    raw: Seq<ScreenInfo>,
    env: Surroundings,
    space: SpaceId,
)
    ensures
        state.after_build(raw, env).screens == state.forwarded(raw, env).screens,
        env.fullscreen@.contains(space) ==> !super::topology::shows_space(
            state.forwarded(raw, env).screens,
            space,
        ),
{
    if env.fullscreen@.contains(space) {
        super::topology::fullscreen_spaces_are_left_out(
            super::topology::preserved(state.screens, raw, env.fullscreen@),
            env.fullscreen@,
            space,
        );
    }
}

/// Saying the same spaces twice hands them on once.
pub proof fn repeated_spaces_are_handed_on_once(
    run: Run,
    spaces: Seq<Option<SpaceId>>,
    env: Surroundings,
)
    requires
        spaces.len() == run.state.screens.len(),
    ensures
        run.forward_spaces(spaces, env).forward_spaces(spaces, env) == run.forward_spaces(
            spaces,
            env,
        ),
{
}

/// A space is a fullscreen one if it holds a fullscreen window, and a user one only otherwise.
pub proof fn fullscreen_goes_before_user(env: Surroundings, space: SpaceId)
    ensures
        env.fullscreen@.contains(space) ==> env.kind(space) == Some(SpaceEventKind::Fullscreen),
        !env.fullscreen@.contains(space) && env.user@.contains(space) ==> env.kind(space) == Some(
            SpaceEventKind::User,
        ),
        !env.fullscreen@.contains(space) && !env.user@.contains(space) ==> env.kind(space) is None,
{
}

/// What is handed on has every screen with its frame and its user space, the spaces that show as
/// active ones, and none of the fullscreen spaces among them; the fullscreen ones that show are
/// named apart.
pub proof fn what_is_handed_on_is_what_the_system_shows(
    s: Authority,
    raw: Seq<ScreenInfo>,
    env: Surroundings,
    i: int,
    space: SpaceId,
)
    requires
        0 <= i < raw.len(),
    ensures
        ({
            let f = s.forwarded(raw, env);
            &&& f.screens.len() == raw.len()
            &&& f.screens[i].id == raw[i].id && f.screens[i].frame == raw[i].frame
            &&& f.screens[i].width == raw[i].width && f.screens[i].height == raw[i].height
            &&& f.screens[i].display_uuid == raw[i].display_uuid
            &&& f.has_seen_display_set
            &&& f.display_space_ids == env.display_spaces@
            &&& f.topology_window_delta == s.pending_delta
            &&& f.active_spaces.contains(space) <==> exists|k: int|
                0 <= k < f.screens.len() && (#[trigger] f.screens[k]).space == Some(space)
            &&& f.active_spaces.contains(space) ==> !env.fullscreen@.contains(space)
            &&& f.fullscreen_spaces.contains(space) <==> env.fullscreen@.contains(space) && exists|
                k: int,
            | 0 <= k < raw.len() && (#[trigger] raw[k]).space == Some(space)
            &&& (forall|k: int|
                0 <= k < raw.len() && (#[trigger] raw[k]).space is Some
                    ==> !env.fullscreen@.contains(raw[k].space->0)) ==> f.screens =~= raw
        }),
        ({
            let f = s.forwarded(raw, env);
            let after = s.after_build(raw, env);
            &&& after.screens == f.screens && after.has_seen == f.has_seen_display_set
            &&& after.last_user == f.last_user_space_by_display
            &&& after.display_spaces == f.display_space_ids && after.pending_delta is None
            &&& after.sleeping == s.sleeping && after.churn == s.churn && after.epoch == s.epoch
        }),
{
    let kept = super::topology::preserved(s.screens, raw, env.fullscreen@);
    super::topology::screens_are_believed_otherwise(s.screens, raw, env.fullscreen@, i);
    super::topology::screens_are_believed_otherwise(s.screens, kept, env.fullscreen@, i);
    let f = s.forwarded(raw, env);
    if f.active_spaces.contains(space) && env.fullscreen@.contains(space) {
        super::topology::fullscreen_spaces_are_left_out(kept, env.fullscreen@, space);
    }
    if forall|k: int|
        0 <= k < raw.len() && (#[trigger] raw[k]).space is Some ==> !env.fullscreen@.contains(
            raw[k].space->0,
        ) {
        assert(kept == raw);
        assert forall|k: int| 0 <= k < raw.len() implies f.screens[k] == raw[k] by {
            super::topology::screens_are_believed_otherwise(s.screens, raw, env.fullscreen@, k);
        }
    }
}

/// The layout is refreshed, and spaces may take each other's place, only if the topology changed
/// after displays had been seen; the latter only if every screen shows a space of its own.
pub proof fn layouts_follow_changes_of_topology(
    s: Authority,
    raw: Seq<ScreenInfo>,
    env: Surroundings,
    i: int,
    j: int,
)
    ensures
        ({
            let f = s.forwarded(raw, env);
            &&& f.should_force_refresh_layout <==> f.topology_changed && (s.has_seen
                || s.screens.len() > 0)
            &&& f.allow_space_remap ==> f.should_force_refresh_layout
            &&& !f.allow_space_remap ==> f.space_remaps.len() == 0
            &&& f.display_set_changed ==> f.topology_changed
            &&& 0 <= i < f.screens.len() && f.screens[i].space is None ==> !f.allow_space_remap
            &&& 0 <= i < j < f.screens.len() && f.screens[i].space is Some && f.screens[i].space
                == f.screens[j].space ==> !f.allow_space_remap
        }),
{
}

/// Windows that changed their space while displays were unstable appeared in the one and
/// disappeared from the other; where they were before is forgotten then.
pub proof fn windows_that_moved_are_noted(
    s: Authority,
    epoch: u64,
    screens: Seq<ScreenInfo>,
    env: Surroundings,
    id: WindowServerId,
)
    ensures
        ({
            let after = s.delta(epoch, screens, env);
            let d = after.pending_delta->0;
            let now = after.visible;
            &&& after.pending_delta is Some && d.epoch == epoch && d.flags == s.flags
            &&& after.pre_churn =~= Map::<WindowServerId, SpaceId>::empty()
            &&& d.appeared.dom().contains(id) <==> now.dom().contains(id) && !(
            s.pre_churn.dom().contains(id) && s.pre_churn[id] == now[id])
            &&& d.appeared.dom().contains(id) ==> d.appeared[id] == now[id]
            &&& d.disappeared.dom().contains(id) <==> s.pre_churn.dom().contains(id) && !(
            now.dom().contains(id) && now[id] == s.pre_churn[id])
            &&& d.disappeared.dom().contains(id) ==> d.disappeared[id] == s.pre_churn[id]
            &&& after.screens == s.screens && after.churn == s.churn
        }),
{
}

/// The first refresh that is asked for is sent, others are not while it is on its way; while
/// displays are unstable it waits until they are not.
pub proof fn one_refresh_is_on_its_way(r: Run, delay_ns: i64, attempt: u8)
    requires
        r.state.timers,
    ensures
        ({
            let next = r.scheduled(delay_ns, attempt);
            &&& attempt == 0 && r.state.churn ==> next.state.deferred && next.log == r.log
            &&& attempt == 0 && !r.state.churn && r.state.refresh_pending ==> next == r
            &&& attempt > 0 || (!r.state.churn && !r.state.refresh_pending)
                ==> next.state.refresh_pending && next.log =~= r.log.push(
                Effect::Refresh { delay_ns, attempt },
            )
        }),
{
}

/// What the system shows is handed on with the number that converts between coordinate systems,
/// and remembered as sent; then no confirmation of a switch is awaited any more.
pub proof fn what_is_shown_is_sent(r: Run, shot: Shot, env: Surroundings)
    ensures
        ({
            let next = r.forward_parameters(shot, env);
            let sent = next.log.last();
            &&& next.log.len() == r.log.len() + 1
            &&& sent is Forward && sent->Forward_1 == shot.converter
            &&& sent->Forward_0.screens == next.state.screens
            &&& sent->Forward_0.screens.len() == shot.screens.len()
            &&& next.state.converter == shot.converter && !next.state.awaiting
            &&& next.state.last_sent is Some
            &&& next.state.last_sent->0.len() == shot.screens.len()
            &&& forall|i: int|
                0 <= i < shot.screens.len() ==> #[trigger] next.state.last_sent->0[i]
                    == next.state.screens[i].space
        }),
{
}

/// A refresh hands on what the system shows. It looks again, a tenth of a second later, while
/// there are no screens or one of them shows no space, and sooner while a switch of spaces is not
/// to be seen yet; ten times at most.
pub proof fn refreshes_hand_on_or_look_again(r: Run, attempt: u8, env: Surroundings)
    requires
        r.state.timers,
        !r.state.churn,
    ensures
        ({
            let next = r.refreshed(attempt, env);
            let empty = env.snapshot is None || env.snapshot->0@.screens.len() == 0;
            let partial = !empty && exists|i: int|
                0 <= i < env.snapshot->0@.screens.len() && (
                #[trigger] env.snapshot->0@.screens[i]).space is None;
            &&& (empty || partial) && attempt < 10 ==> next.state.refresh_pending && next.log
                =~= r.log.push(
                Effect::Refresh { delay_ns: 100_000_000, attempt: (attempt + 1) as u8 },
            )
            &&& empty && attempt >= 10 ==> !next.state.refresh_pending && next.log == r.log
            &&& !empty && (!partial || attempt >= 10) && !r.state.awaiting
                ==> !next.state.refresh_pending && next.log.len() == r.log.len() + 1
                && next.log.last() is Forward
            &&& !empty && attempt >= 10 ==> next.log.last() is Forward
        }),
{
}

/// While displays are unstable a refresh is put off.
pub proof fn refreshes_wait_for_stable_displays(r: Run, attempt: u8, env: Surroundings)
    requires
        r.state.churn,
    ensures
        r.refreshed(attempt, env).state.deferred,
        !r.refreshed(attempt, env).state.refresh_pending,
        r.refreshed(attempt, env).log == r.log,
{
}

/// When displays become unstable it is said once, what was sent is void, and where the windows are
/// is remembered as of the beginning; every reconfiguration has an epoch of its own.
pub proof fn instability_is_noted_once(r: Run, flags: u32)
    ensures
        ({
            let next = r.churned(flags);
            &&& next.state.churn && next.state.last_sent is None && next.state.sighting is None
            &&& next.state.epoch != r.state.epoch
            &&& r.state.epoch < u64::MAX ==> next.state.epoch == r.state.epoch + 1
            &&& next.state.flags == r.state.flags | flags
            &&& !r.state.churn ==> next.state.pre_churn == r.state.visible && next.log
                =~= r.log.push(Effect::RecordChurn(flags)).push(Effect::ChurnBegan)
            &&& r.state.churn ==> next.state.pre_churn == r.state.pre_churn && next.log
                =~= r.log.push(Effect::RecordChurn(flags))
            &&& next.state.screens == r.state.screens
        }),
{
}

/// When displays are stable again it is said, with a new epoch, and nothing is put off any more.
pub proof fn stability_is_said(r: Run, refresh: bool)
    ensures
        ({
            let next = r.settled(refresh);
            &&& !next.state.churn && next.state.flags == 0 && next.state.sighting is None
            &&& next.state.epoch != r.state.epoch && !next.state.deferred
            &&& next.log.len() >= r.log.len() + 2
            &&& next.log[r.log.len() as int] == Effect::EndChurn
            &&& next.log[r.log.len() as int + 1] == Effect::ChurnEnded
            &&& next.state.screens == r.state.screens
        }),
{
}

/// Displays count as stable once the same arrangement was seen twice in a row, can be committed,
/// and the window server was quiet; then what it shows is handed on before that is said. A check
/// for another epoch is void.
pub proof fn displays_are_stable_once_seen_twice(
    r: Run,
    epoch: u64,
    attempt: u8,
    env: Surroundings,
)
    requires
        r.state.churn,
        r.state.timers,
    ensures
        epoch != r.state.epoch ==> r.stabilization_checked(epoch, attempt, env) == r,
        epoch == r.state.epoch && env.snapshot is Some && env.snapshot->0@.screens.len() > 0 ==> {
            let next = r.stabilization_checked(epoch, attempt, env);
            let seen = fingerprint_of(env.snapshot->0@.screens);
            let again = r.state.sighting is Some && r.state.sighting->0.fingerprint == seen;
            let valid = super::topology::valid_for_commit(
                env.snapshot->0@.screens,
                env.fullscreen@,
            );
            &&& !again ==> next.state.churn && next.state.sighting is Some
                && next.state.sighting->0.fingerprint == seen && next.state.sighting->0.hits == 1
                && next.log =~= r.log.push(
                Effect::Stabilize {
                    epoch,
                    attempt: (attempt + 1) as u8,
                    delay_ns: 100_000_000,
                },
            )
            &&& again && r.state.sighting->0.hits >= 1 && valid && env.quiet ==> !next.state.churn
                && next.log.len() == r.log.len() + 3 && next.log[r.log.len() as int] is Forward
                && next.log[r.log.len() as int + 1] == Effect::EndChurn && next.log[r.log.len() as int + 2]
                == Effect::ChurnEnded && next.state.pending_screens is None
                && next.state.pending_spaces is None
            &&& again && r.state.sighting->0.hits >= 1 && (!valid || !env.quiet) && attempt < 10
                ==> next.state.churn && next.log =~= r.log.push(
                Effect::Stabilize {
                    epoch,
                    attempt: (attempt + 1) as u8,
                    delay_ns: 100_000_000,
                },
            )
            &&& again && r.state.sighting->0.hits >= 1 && (!valid || !env.quiet) && attempt >= 10
                ==> !next.state.churn
        },
{
}

/// Two arrangements have the same fingerprint exactly if the same displays show the same spaces at
/// the same places, in the same order.
pub proof fn arrangements_are_told_apart(a: Seq<ScreenInfo>, b: Seq<ScreenInfo>)
    ensures
        fingerprint_of(a) == fingerprint_of(b) <==> a.len() == b.len() && forall|i: int|
            0 <= i < a.len() ==> (#[trigger] a[i]).display_uuid == b[i].display_uuid && a[i].frame
                == b[i].frame && a[i].space == b[i].space,
{
    let fa = fingerprint_of(a);
    let fb = fingerprint_of(b);
    if fa == fb {
        assert forall|i: int| 0 <= i < a.len() implies (#[trigger] a[i]).display_uuid
            == b[i].display_uuid && a[i].frame == b[i].frame && a[i].space == b[i].space by {
            assert(fa[i] == fb[i]);
        }
    }
    if a.len() == b.len() && forall|i: int|
        0 <= i < a.len() ==> (#[trigger] a[i]).display_uuid == b[i].display_uuid && a[i].frame
            == b[i].frame && a[i].space == b[i].space {
        assert forall|i: int| 0 <= i < fa.len() implies fa[i] == fb[i] by {
            assert(a[i].display_uuid == b[i].display_uuid);
        }
        assert(fa =~= fb);
    }
}

/// While the machine sleeps or displays are unstable, screens and spaces are kept and window
/// events are only counted; otherwise they are handed on, each with its own kind.
pub proof fn events_wait_for_stable_displays(
    r: Run,
    env: Surroundings,
    snapshot: Snapshot,
    spaces: Vec<Option<SpaceId>>,
    wsid: WindowServerId,
    sid: SpaceId,
)
    requires
        r.state.stats.appeared_dropped < u64::MAX,
        r.state.stats.destroyed_dropped < u64::MAX,
    ensures
        r.state.sleeping || r.state.churn ==> {
            let screens = r.step(Event::ScreenParametersChanged(snapshot), env);
            let changed = r.step(Event::SpaceChanged(spaces), env);
            let appeared = r.step(Event::WindowServerAppeared(wsid, sid), env);
            let destroyed = r.step(Event::WindowServerDestroyed(wsid, sid), env);
            &&& screens.log == r.log && screens.state.pending_screens == Some(snapshot@)
            &&& changed.log == r.log && changed.state.pending_spaces == Some(spaces@)
            &&& appeared.log == r.log && appeared.state.stats.appeared_dropped
                == r.state.stats.appeared_dropped + 1
            &&& appeared.state.stats.destroyed_dropped == r.state.stats.destroyed_dropped
            &&& destroyed.log == r.log && destroyed.state.stats.destroyed_dropped
                == r.state.stats.destroyed_dropped + 1
            &&& destroyed.state.stats.appeared_dropped == r.state.stats.appeared_dropped
        },
        r.step(Event::WindowServerAppeared(wsid, sid), env).state.visible[wsid] == sid,
        !r.step(Event::WindowServerDestroyed(wsid, sid), env).state.visible.dom().contains(wsid),
        !r.state.sleeping && !r.state.churn ==> {
            let screens = r.step(Event::ScreenParametersChanged(snapshot), env);
            let appeared = r.step(Event::WindowServerAppeared(wsid, sid), env);
            let destroyed = r.step(Event::WindowServerDestroyed(wsid, sid), env);
            &&& screens.log.len() == r.log.len() + 1 && screens.log.last() is Forward
            &&& env.kind(sid) matches Some(kind) ==> appeared.log =~= r.log.push(
                Effect::WindowAppeared(wsid, sid, kind),
            )
            &&& env.kind(sid) is None ==> appeared.log == r.log && destroyed.log == r.log
            &&& env.kind(sid) == Some(SpaceEventKind::Fullscreen) ==> destroyed.log =~= r.log.push(
                Effect::WindowDestroyed(wsid, sid, SpaceEventKind::Fullscreen),
            )
            &&& env.kind(sid) == Some(SpaceEventKind::User) && (env.window_space is None
                || env.window_space == Some(sid)) ==> destroyed.log =~= r.log.push(
                Effect::WindowDestroyed(wsid, sid, SpaceEventKind::User),
            )
            &&& env.kind(sid) == Some(SpaceEventKind::User) && env.window_space is Some
                && env.window_space != Some(sid) ==> destroyed.log == r.log
        },
{
}

/// The same spaces again are not handed on; other ones are, each for the screen at its place.
pub proof fn new_spaces_are_handed_on(r: Run, spaces: Seq<Option<SpaceId>>, env: Surroundings, i: int)
    requires
        spaces.len() == r.state.screens.len(),
    ensures
        r.state.last_sent == Some(spaces) ==> r.forward_spaces(spaces, env) == r,
        r.state.last_sent != Some(spaces) ==> {
            let next = r.forward_spaces(spaces, env);
            &&& next.log.len() == r.log.len() + 1 && next.log.last() is Forward
            &&& next.log.last()->Forward_1 == r.state.converter
            &&& next.log.last()->Forward_0.screens == next.state.screens
            &&& next.state.last_sent == Some(spaces) && !next.state.awaiting
            &&& 0 <= i < spaces.len() ==> next.state.screens[i].frame == r.state.screens[i].frame
            &&& 0 <= i < spaces.len() && (forall|k: int|
                0 <= k < spaces.len() && (#[trigger] spaces[k]) is Some
                    ==> !env.fullscreen@.contains(spaces[k]->0)) ==> next.state.screens[i].space
                == spaces[i]
        },
        0 <= i < spaces.len() ==> with_spaces(r.state.screens, spaces)[i].space == spaces[i]
            && with_spaces(r.state.screens, spaces)[i].id == r.state.screens[i].id,
{
    let raw = with_spaces(r.state.screens, spaces);
    if 0 <= i < spaces.len() {
        what_is_handed_on_is_what_the_system_shows(r.state, raw, env, i, 0);
        if forall|k: int|
            0 <= k < spaces.len() && (#[trigger] spaces[k]) is Some ==> !env.fullscreen@.contains(
                spaces[k]->0,
            ) {
            assert forall|k: int|
                0 <= k < raw.len() && (#[trigger] raw[k]).space is Some implies !env.fullscreen@.contains(
                raw[k].space->0,
            ) by {
                assert(spaces[k] is Some);
            }
        }
    }
}

/// What was kept while displays were unstable is handed on once: the screens first, then the
/// spaces.
pub proof fn what_was_kept_is_handed_on(r: Run, env: Surroundings, shot: Shot)
    ensures
        r.state.sleeping || r.state.churn ==> r.flushed(env) == r,
        !r.state.sleeping && !r.state.churn && r.state.pending_screens is None
            && r.state.pending_spaces is None ==> r.flushed(env) == r,
        !r.state.sleeping && !r.state.churn && r.state.pending_screens == Some(shot)
            && r.state.pending_spaces is None ==> {
            let next = r.flushed(env);
            &&& next.state.pending_screens is None
            &&& next.log.len() == r.log.len() + 1 && next.log.last() is Forward
            &&& next.log.last()->Forward_1 == shot.converter
        },
{
}

/// The spaces that are known are those that screens show, in order.
pub proof fn known_spaces_are_those_that_show(screens: Seq<ScreenInfo>, space: SpaceId)
    ensures
        known_spaces(screens).contains(space) <==> exists|i: int|
            0 <= i < screens.len() && (#[trigger] screens[i]).space == Some(space),
        (forall|i: int| 0 <= i < screens.len() ==> (#[trigger] screens[i]).space is Some)
            ==> known_spaces(screens).len() == screens.len() && forall|i: int|
            0 <= i < screens.len() ==> Some(#[trigger] known_spaces(screens)[i])
                == screens[i].space,
    decreases screens.len(),
{
    if screens.len() > 0 {
        let head = screens.drop_last();
        let n = screens.len() - 1;
        known_spaces_are_those_that_show(head, space);
        assert(forall|k: int| 0 <= k < n ==> head[k] == screens[k]);
        assert(screens[n] == screens.last());
        if screens.last().space is Some {
            crate::collections::lemma_push_contains(known_spaces(head), screens.last().space->0);
        }
        if exists|i: int| 0 <= i < head.len() && (#[trigger] head[i]).space == Some(space) {
            let i = choose|i: int| 0 <= i < head.len() && (#[trigger] head[i]).space == Some(space);
            assert(screens[i].space == Some(space));
        }
        if exists|i: int| 0 <= i < screens.len() && (#[trigger] screens[i]).space == Some(space) {
            let i = choose|i: int|
                0 <= i < screens.len() && (#[trigger] screens[i]).space == Some(space);
            if i < n {
                assert(head[i].space == Some(space));
            }
        }
        if forall|i: int| 0 <= i < screens.len() ==> (#[trigger] screens[i]).space is Some {
            assert forall|i: int| 0 <= i < head.len() implies (#[trigger] head[i]).space is Some by {
                assert(screens[i].space is Some);
            }
            assert(screens[n].space is Some);
            assert forall|i: int|
                0 <= i < screens.len() implies Some(#[trigger] known_spaces(screens)[i])
                == screens[i].space by {
                if i < n {
                    assert(known_spaces(screens)[i] == known_spaces(head)[i]);
                    assert(Some(known_spaces(head)[i]) == head[i].space);
                }
            }
        }
    }
}

/// Sleep is told to the screen cache and holds updates back until the machine wakes.
pub proof fn sleep_holds_updates_back(r: Run, env: Surroundings, display_id: u32, flags: u32)
    ensures
        ({
            let asleep = r.step(Event::SystemWillSleep, env);
            &&& asleep.state.sleeping && asleep.state.buffering()
            &&& asleep.log =~= r.log.push(Effect::MarkSleeping(true))
        }),
        ({
            let awake = r.step(Event::SystemDidWake, env);
            &&& awake.log.len() > r.log.len() && awake.log[r.log.len() as int]
                == Effect::MarkSleeping(false)
            &&& !awake.state.sleeping
        }),
        r.state.buffering() <==> r.state.sleeping || r.state.churn,
        r.step(Event::DisplayReconfigured { display_id, flags }, env).state.churn,
        r.step(Event::DisplayReconfigured { display_id, flags }, env).log.contains(
            Effect::MarkDirty,
        ),
        r.state.timers ==> r.step(Event::DisplayReconfigured { display_id, flags }, env).log.last()
            == (Effect::Stabilize {
            epoch: r.step(Event::DisplayReconfigured { display_id, flags }, env).state.epoch,
            attempt: 0,
            delay_ns: 100_000_000,
        }),
{
    let r1 = r.churned(flags);
    let next = r.step(Event::DisplayReconfigured { display_id, flags }, env);
    assert(next.log[r1.log.len() as int] == Effect::MarkDirty);
}

/// A new or destroyed space is told only if windows are managed around it, and is followed by a
/// look at what the system shows.
pub proof fn spaces_come_and_go(r: Run, env: Surroundings, space: SpaceId)
    ensures
        env.kind(space) is Some ==> r.step(Event::SpaceCreated(space), env).log.len() > r.log.len()
            && r.step(Event::SpaceCreated(space), env).log[r.log.len() as int]
            == Effect::SpaceCreated(space),
        env.kind(space) is Some ==> r.step(Event::SpaceDestroyed(space), env).log.len()
            > r.log.len() && r.step(Event::SpaceDestroyed(space), env).log[r.log.len() as int]
            == Effect::SpaceDestroyed(space),
        env.kind(space) is None ==> r.step(Event::SpaceCreated(space), env) == r.step(
            Event::SpaceInventoryChanged,
            env,
        ),
{
}

/// Screens are handed on at once only while no refresh is on its way, displays are stable, every
/// screen shows a space, and either it is asked for or the spaces are other than those sent last.
pub proof fn screens_are_handed_on_when_certain(
    r: Run,
    force: bool,
    delay_ns: i64,
    env: Surroundings,
    i: int,
)
    ensures
        r.state.refresh_pending || r.state.churn || env.snapshot is None ==> !r.authoritative(
            force,
            env,
        ),
        env.snapshot is Some && 0 <= i < env.snapshot->0@.screens.len()
            && env.snapshot->0@.screens[i].space is None ==> !r.authoritative(force, env),
        !force && env.snapshot is Some && r.state.last_sent == Some(
            super::topology::spaces_of(env.snapshot->0@.screens),
        ) ==> !r.authoritative(force, env),
        r.authoritative(force, env) ==> r.forward_now(force, delay_ns, env).log.last() is Forward,
        !r.authoritative(force, env) ==> r.forward_now(force, delay_ns, env) == r.scheduled(
            delay_ns,
            0,
        ),
{
}

/// What is built is remembered: the windows that show are known with their spaces, and what was
/// not said of anything else stays.
pub proof fn what_is_built_is_remembered(s: Authority, raw: Seq<ScreenInfo>, env: Surroundings)
    ensures
        ({
            let after = s.after_build(raw, env);
            &&& after.visible == super::topology::window_spaces(after.screens, env.windows@)
            &&& after.pre_churn == s.pre_churn && after.last_sent == s.last_sent
            &&& after.stats == s.stats && after.converter == s.converter
            &&& after.refresh_pending == s.refresh_pending && after.flags == s.flags
            &&& after.sighting == s.sighting && after.awaiting == s.awaiting
            &&& after.deferred == s.deferred && after.timers == s.timers
            &&& after.pending_screens == s.pending_screens
            &&& after.pending_spaces == s.pending_spaces
        }),
{
}

/// At first nothing is known, nothing is held back and displays are stable.
pub proof fn at_first_nothing_is_known()
    ensures
        ({
            let a = Authority::initial();
            &&& !a.sleeping && !a.churn && !a.has_seen && !a.refresh_pending && !a.awaiting
            &&& !a.deferred && a.timers && a.epoch == 0 && a.flags == 0 && a.converter == 0
            &&& a.screens.len() == 0 && a.display_spaces.len() == 0
            &&& a.last_sent is None && a.sighting is None && a.pending_screens is None
            &&& a.pending_spaces is None && a.pending_delta is None
            &&& a.stats.appeared_dropped == 0 && a.stats.destroyed_dropped == 0
            &&& a.last_user == Map::<DisplayId, SpaceId>::empty()
            &&& a.visible == Map::<WindowServerId, SpaceId>::empty() && a.pre_churn == Map::<
                WindowServerId,
                SpaceId,
            >::empty()
        }),
{
}

/// What is held back is viewed as it is.
pub proof fn what_is_held_back_is_viewed_as_it_is(
    d: Option<TopologyWindowDelta>,
    v: Option<Vec<Option<SpaceId>>>,
)
    ensures
        delta_view(d) is Some <==> d is Some,
        d is Some ==> delta_view(d)->0 == d->0@,
        spaces_view(v) is Some <==> v is Some,
        v is Some ==> spaces_view(v)->0 == v->0@,
{
}

} // verus!
