//! Dragging windows with the mouse.
//!
//! One actor owns the drag. Where the pointer is, which zone it is over and where a frame goes
//! are worked out by whoever owns the screen; what follows from that is decided here.

use vstd::prelude::*;

use crate::model::{Frame, Point, SpaceId};
use crate::reactor::event::Direction;
use crate::window_id::WindowId;

verus! {

#[derive(Clone, Copy, Debug, PartialEq, Eq, Structural)]
pub enum MouseButton {
    Left,
    Right,
}

#[derive(Clone, Copy, Debug, PartialEq, Eq, Structural)]
pub struct DragMotion {
    pub point: Point,
    pub button: MouseButton,
}

/// Holds the newest motion, with at most one outstanding wake of its reader.
#[derive(Debug, PartialEq, Eq, Structural)]
pub struct DragMotionPublisher {
    pub latest: Option<DragMotion>,
    pub wake_queued: bool,
}

impl Default for DragMotionPublisher {
    fn default() -> (r: DragMotionPublisher)
        ensures
            r == (DragMotionPublisher { latest: None, wake_queued: false }),
    {
        DragMotionPublisher { latest: None, wake_queued: false }
    }
}

impl DragMotionPublisher {
    /// Publishes a motion. The result is true exactly when the caller must wake the reader.
    pub fn publish(&mut self, motion: DragMotion) -> (r: bool)
        ensures
            r == !old(self).wake_queued,
            *final(self) == (DragMotionPublisher { latest: Some(motion), wake_queued: true }),
    {
        let queued = self.wake_queued;
        self.latest = Some(motion);
        self.wake_queued = true;
        !queued
    }

    /// Takes the newest motion, and lets the next one wake the reader again.
    pub fn take_latest(&mut self) -> (r: Option<DragMotion>)
        ensures
            r == old(self).latest,
            *final(self) == (DragMotionPublisher { latest: None, wake_queued: false }),
    {
        let motion = self.latest;
        self.latest = None;
        self.wake_queued = false;
        motion
    }

    pub fn wake_queued(&self) -> (r: bool)
        ensures
            r == self.wake_queued,
    {
        self.wake_queued
    }
}

/// The part of a frame that the pointer is over.
#[derive(Clone, Copy, Debug, PartialEq, Eq, Structural)]
pub enum DropZone {
    Center,
    West,
    East,
    North,
    South,
}

/// What dropping a window on the middle of another does.
#[derive(Clone, Copy, Debug, PartialEq, Eq, Structural)]
pub enum MouseDropAction {
    Swap,
    Stack,
}

/// What dropping a window does.
#[derive(Clone, Copy, Debug, PartialEq, Eq, Structural)]
pub enum WindowDropAction {
    Swap,
    Stack,
    Insert(Direction),
}

pub open spec fn action_of(zone: DropZone, center: MouseDropAction) -> WindowDropAction {
    match zone {
        DropZone::Center => match center {
            MouseDropAction::Swap => WindowDropAction::Swap,
            MouseDropAction::Stack => WindowDropAction::Stack,
        },
        DropZone::West => WindowDropAction::Insert(Direction::Left),
        DropZone::East => WindowDropAction::Insert(Direction::Right),
        DropZone::North => WindowDropAction::Insert(Direction::Up),
        DropZone::South => WindowDropAction::Insert(Direction::Down),
    }
}

/// What dropping a window on `zone` does.
pub fn resolve_action(zone: DropZone, center: MouseDropAction) -> (r: WindowDropAction)
    ensures
        r == action_of(zone, center),
{
    match zone {
        DropZone::Center => match center {
            MouseDropAction::Swap => WindowDropAction::Swap,
            MouseDropAction::Stack => WindowDropAction::Stack,
        },
        DropZone::West => WindowDropAction::Insert(Direction::Left),
        DropZone::East => WindowDropAction::Insert(Direction::Right),
        DropZone::North => WindowDropAction::Insert(Direction::Up),
        DropZone::South => WindowDropAction::Insert(Direction::Down),
    }
}

/// A window that another can be dropped on, and where it would show for each action.
#[derive(Clone, Copy, Debug, PartialEq, Eq, Structural)]
pub struct DragSceneTarget {
    pub window: WindowId,
    pub space: SpaceId,
    pub frame: Frame,
    pub center_frame: Option<Frame>,
    pub west_frame: Option<Frame>,
    pub east_frame: Option<Frame>,
    pub north_frame: Option<Frame>,
    pub south_frame: Option<Frame>,
    /// Whether windows can be inserted beside it.
    pub directional: bool,
}

impl DragSceneTarget {
    pub open spec fn preview(self, action: WindowDropAction) -> Option<Frame> {
        match action {
            WindowDropAction::Swap => self.center_frame,
            WindowDropAction::Stack => self.center_frame,
            WindowDropAction::Insert(Direction::Left) => self.west_frame,
            WindowDropAction::Insert(Direction::Right) => self.east_frame,
            WindowDropAction::Insert(Direction::Up) => self.north_frame,
            WindowDropAction::Insert(Direction::Down) => self.south_frame,
        }
    }

    /// Where a window would show after `action`.
    pub fn preview_area(self, action: WindowDropAction) -> (r: Option<Frame>)
        ensures
            r == self.preview(action),
    {
        match action {
            WindowDropAction::Swap => self.center_frame,
            WindowDropAction::Stack => self.center_frame,
            WindowDropAction::Insert(direction) => match direction {
                Direction::Left => self.west_frame,
                Direction::Right => self.east_frame,
                Direction::Up => self.north_frame,
                Direction::Down => self.south_frame,
            },
        }
    }
}

/// What a window can be dropped on.
pub struct DragScene {
    pub tiling_area: Option<Frame>,
    pub targets: Vec<DragSceneTarget>,
}

impl Default for DragScene {
    fn default() -> (r: DragScene)
        ensures
            r.tiling_area is None,
            r.targets@.len() == 0,
    {
        DragScene { tiling_area: None, targets: Vec::new() }
    }
}

/// What a window is about to be dropped on.
#[derive(Clone, Copy, Debug)]
pub struct DropTarget {
    pub window: WindowId,
    pub space: SpaceId,
    pub frame: Frame,
    pub tiling_area: Frame,
    pub preview_area: Frame,
    pub zone: DropZone,
    pub action: WindowDropAction,
}

/// Two targets are the same if they name the same window, space and zone.
impl PartialEq for DropTarget {
    fn eq(&self, other: &Self) -> (r: bool) {
        self.window == other.window && self.space == other.space && self.zone == other.zone
    }
}

impl vstd::std_specs::cmp::PartialEqSpecImpl for DropTarget {
    open spec fn obeys_eq_spec() -> bool {
        true
    }

    open spec fn eq_spec(&self, other: &Self) -> bool {
        self.window == other.window && self.space == other.space && self.zone == other.zone
    }
}

pub open spec fn same_drop(a: Option<DropTarget>, b: Option<DropTarget>) -> bool {
    match (a, b) {
        (Some(x), Some(y)) => x.window == y.window && x.space == y.space && x.zone == y.zone,
        (None, None) => true,
        _ => false,
    }
}

fn is_same_drop(a: Option<DropTarget>, b: Option<DropTarget>) -> (r: bool)
    ensures
        r == same_drop(a, b),
{
    match (a, b) {
        (Some(x), Some(y)) => x == y,
        (None, None) => true,
        _ => false,
    }
}

/// The window that is dragged.
#[derive(Clone, Copy, Debug, PartialEq, Eq, Structural)]
pub struct DragSource {
    pub window: WindowId,
    pub origin_frame: Frame,
    pub last_frame: Frame,
    pub origin_space: Option<SpaceId>,
    pub current_space: Option<SpaceId>,
    pub tiled: bool,
}

#[derive(Clone, Copy, Debug, PartialEq, Eq, Structural)]
pub enum DragKind {
    NativeMove,
    NativeResize,
    ModifierMove,
    ModifierResize,
}

/// What dragging with a modifier key held does.
#[derive(Clone, Copy, Debug, PartialEq, Eq, Structural)]
pub enum MouseAction {
    Move,
    Resize,
    Nothing,
}

/// The edges that follow the pointer.
#[derive(Clone, Copy, Debug, PartialEq, Eq, Structural)]
pub struct ResizeEdges {
    pub west: bool,
    pub north: bool,
}

/// A drag that ended with a drop.
#[derive(Clone, Copy, Debug)]
pub struct DragCommit {
    pub source: DragSource,
    pub target: Option<DropTarget>,
    pub pointer: Point,
    pub kind: DragKind,
}

/// A drag that was given up.
#[derive(Clone, Copy, Debug, PartialEq, Eq, Structural)]
pub struct DragCancel {
    pub source: DragSource,
    /// Whether the window goes back to where it was.
    pub restore_origin: bool,
}

pub struct Session {
    pub id: u64,
    pub source: DragSource,
    pub pointer: Point,
    pub anchor_point: Point,
    pub scene: DragScene,
    pub target: Option<DropTarget>,
    pub kind: DragKind,
    pub last_effect_frame: Frame,
    pub resize_edges: Option<ResizeEdges>,
}

#[verifier::ext_equal]
pub struct SessionView {
    pub id: u64,
    pub source: DragSource,
    pub pointer: Point,
    pub anchor_point: Point,
    pub tiling_area: Option<Frame>,
    pub targets: Seq<DragSceneTarget>,
    pub target: Option<DropTarget>,
    pub kind: DragKind,
    pub last_effect_frame: Frame,
    pub resize_edges: Option<ResizeEdges>,
}

impl Session {
    pub open spec fn view(self) -> SessionView {
        SessionView {
            id: self.id,
            source: self.source,
            pointer: self.pointer,
            anchor_point: self.anchor_point,
            tiling_area: self.scene.tiling_area,
            targets: self.scene.targets@,
            target: self.target,
            kind: self.kind,
            last_effect_frame: self.last_effect_frame,
            resize_edges: self.resize_edges,
        }
    }
}

#[derive(Clone, Copy, Debug, PartialEq, Eq, Structural)]
pub enum StartKind {
    Native { window: WindowId },
    Modifier { button: MouseButton, point: Point, action: MouseAction },
}

/// A drag whose window is still being looked for.
#[derive(Clone, Copy, Debug, PartialEq, Eq, Structural)]
pub struct PendingStart {
    pub id: u64,
    pub kind: StartKind,
}

pub enum State {
    Idle,
    AwaitingSource(PendingStart),
    Dragging(Session),
}

#[verifier::ext_equal]
pub enum Phase {
    Idle,
    AwaitingSource(PendingStart),
    Dragging(SessionView),
}

impl State {
    pub open spec fn view(self) -> Phase {
        match self {
            State::Idle => Phase::Idle,
            State::AwaitingSource(p) => Phase::AwaitingSource(p),
            State::Dragging(s) => Phase::Dragging(s@),
        }
    }
}

/// The settings that drags depend on.
#[derive(Clone, Copy, Debug, PartialEq, Eq, Structural)]
pub struct MouseSettings {
    pub enabled: bool,
    pub drop_action: MouseDropAction,
}

pub struct DragActor {
    pub state: State,
    pub next_session_id: u64,
    pub settings: MouseSettings,
}

#[verifier::ext_equal]
pub struct Drag {
    pub phase: Phase,
    pub next_id: u64,
    pub settings: MouseSettings,
}

/// What the pointer is over.
pub struct HitFacts {
    /// Whether it is still within reach of the zone of the last target.
    pub retained: bool,
    /// The zone of the tiling area that it is over.
    pub area_zone: Option<DropZone>,
    /// Whether it is over the frame of each target.
    pub contains: Vec<bool>,
    /// The zone of each target's frame that it is over.
    pub zones: Vec<Option<DropZone>>,
    /// How far it is from each target, in an order that distances have.
    pub distances: Vec<u64>,
}

impl HitFacts {
    pub open spec fn fit(self, n: nat) -> bool {
        self.contains@.len() == n && self.zones@.len() == n && self.distances@.len() == n
    }
}

/// The first position at which `contains` holds, or the number of positions.
pub open spec fn first_containing(contains: Seq<bool>) -> int
    decreases contains.len(),
{
    if contains.len() == 0 {
        0
    } else {
        let i = first_containing(contains.drop_last());
        if i < contains.len() - 1 {
            i
        } else if contains.last() {
            contains.len() - 1
        } else {
            contains.len() as int
        }
    }
}

/// The first position of the least distance.
pub open spec fn nearest(distances: Seq<u64>) -> int
    decreases distances.len(),
{
    if distances.len() <= 1 {
        0
    } else {
        let i = nearest(distances.drop_last());
        if distances.last() < distances[i] {
            distances.len() - 1
        } else {
            i
        }
    }
}

/// The frame whose zones count, and the zone that the pointer is over.
pub open spec fn area_and_zone(
    tiling_area: Option<Frame>,
    targets: Seq<DragSceneTarget>,
    facts: HitFacts,
) -> Option<(Frame, DropZone)> {
    match tiling_area {
        Some(area) => match facts.area_zone {
            Some(zone) => Some((area, zone)),
            None => None,
        },
        None => {
            let i = first_containing(facts.contains@);
            if i < targets.len() {
                match facts.zones@[i] {
                    Some(zone) => Some((targets[i].frame, zone)),
                    None => None,
                }
            } else {
                None
            }
        },
    }
}

/// What a window would be dropped on.
pub open spec fn hit(
    tiling_area: Option<Frame>,
    targets: Seq<DragSceneTarget>,
    facts: HitFacts,
    center: MouseDropAction,
    previous: Option<DropTarget>,
) -> Option<DropTarget> {
    if previous is Some && facts.retained {
        previous
    } else {
        match area_and_zone(tiling_area, targets, facts) {
            None => None,
            Some((area, zone)) => if targets.len() == 0 {
                None
            } else {
                let t = targets[nearest(facts.distances@)];
                let action = action_of(zone, center);
                if zone != DropZone::Center && !t.directional {
                    None
                } else {
                    match t.preview(action) {
                        None => None,
                        Some(preview_area) => Some(
                            DropTarget {
                                window: t.window,
                                space: t.space,
                                frame: t.frame,
                                tiling_area: area,
                                preview_area,
                                zone,
                                action,
                            },
                        ),
                    }
                }
            },
        }
    }
}

proof fn lemma_first_containing(contains: Seq<bool>)
    ensures
        0 <= first_containing(contains) <= contains.len(),
    decreases contains.len(),
{
    if contains.len() > 0 {
        lemma_first_containing(contains.drop_last());
    }
}

proof fn lemma_nearest(distances: Seq<u64>)
    requires
        distances.len() > 0,
    ensures
        0 <= nearest(distances) < distances.len(),
        forall|j: int| 0 <= j < distances.len() ==> distances[nearest(distances)]
            <= #[trigger] distances[j],
        forall|j: int|
            0 <= j < nearest(distances) ==> distances[nearest(distances)] < #[trigger] distances[j],
    decreases distances.len(),
{
    if distances.len() > 1 {
        let head = distances.drop_last();
        lemma_nearest(head);
        assert forall|j: int| 0 <= j < distances.len() implies distances[nearest(distances)]
            <= #[trigger] distances[j] by {
            if j < head.len() {
                assert(head[j] == distances[j]);
            }
        }
        assert forall|j: int| 0 <= j < nearest(distances) implies distances[nearest(distances)]
            < #[trigger] distances[j] by {
            if j < head.len() {
                assert(head[j] == distances[j]);
            }
        }
    }
}

fn find_containing(contains: &Vec<bool>) -> (r: usize)
    ensures
        r == first_containing(contains@),
{
    let mut r: usize = contains.len();
    let mut i: usize = 0;
    while i < contains.len()
        invariant
            i <= contains@.len(),
            r == contains@.len() ==> first_containing(contains@.take(i as int)) == i,
            r != contains@.len() ==> r < i && first_containing(contains@.take(i as int)) == r,
        decreases contains@.len() - i,
    {
        assert(contains@.take(i + 1).drop_last() =~= contains@.take(i as int));
        if r == contains.len() && contains[i] {
            r = i;
        }
        i = i + 1;
    }
    assert(contains@.take(i as int) =~= contains@);
    r
}

fn find_nearest(distances: &Vec<u64>) -> (r: usize)
    requires
        distances@.len() > 0,
    ensures
        r == nearest(distances@),
        r < distances@.len(),
{
    let mut r: usize = 0;
    let mut i: usize = 1;
    assert(nearest(distances@.take(1)) == 0);
    while i < distances.len()
        invariant
            1 <= i <= distances@.len(),
            r < i,
            r == nearest(distances@.take(i as int)),
        decreases distances@.len() - i,
    {
        let ghost head = distances@.take(i as int);
        assert(distances@.take(i + 1).drop_last() =~= head);
        assert(head[r as int] == distances@[r as int]);
        if distances[i] < distances[r] {
            r = i;
        }
        i = i + 1;
    }
    assert(distances@.take(i as int) =~= distances@);
    r
}

/// What a window would be dropped on, with the pointer where `facts` say.
pub fn hit_test(
    scene: &DragScene,
    facts: &HitFacts,
    center: MouseDropAction,
    previous: Option<DropTarget>,
) -> (r: Option<DropTarget>)
    requires
        facts.fit(scene.targets@.len()),
    ensures
        r == hit(scene.tiling_area, scene.targets@, *facts, center, previous),
{
    if previous.is_some() && facts.retained {
        return previous;
    }
    let (area, zone) = match scene.tiling_area {
        Some(area) => match facts.area_zone {
            Some(zone) => (area, zone),
            None => {
                return None;
            },
        },
        None => {
            proof {
                lemma_first_containing(facts.contains@);
            }
            let i = find_containing(&facts.contains);
            if i >= scene.targets.len() {
                return None;
            }
            match facts.zones[i] {
                Some(zone) => (scene.targets[i].frame, zone),
                None => {
                    return None;
                },
            }
        },
    };
    if scene.targets.len() == 0 {
        return None;
    }
    let t = scene.targets[find_nearest(&facts.distances)];
    if zone != DropZone::Center && !t.directional {
        return None;
    }
    let action = resolve_action(zone, center);
    match t.preview_area(action) {
        Some(preview_area) => Some(
            DropTarget {
                window: t.window,
                space: t.space,
                frame: t.frame,
                tiling_area: area,
                preview_area,
                zone,
                action,
            },
        ),
        None => None,
    }
}

/// What is known when the window of a drag was found.
#[derive(Clone, Copy, Debug, PartialEq, Eq, Structural)]
pub struct StartFacts {
    /// Whether the window has another size than before.
    pub resized: bool,
    /// The middle of the window.
    pub center: Point,
    /// Whether the pointer is in the left and in the upper half.
    pub edges: ResizeEdges,
}

/// What dragging does to a window while the button is held.
#[derive(Clone, Copy, Debug, PartialEq, Eq, Structural)]
pub struct InteractiveUpdate {
    pub window: WindowId,
    pub origin_frame: Frame,
    pub frame: Frame,
    pub action: MouseAction,
    pub tiled: bool,
}

pub open spec fn counted_up(n: u64) -> u64 {
    if n == u64::MAX {
        0
    } else {
        (n + 1) as u64
    }
}

/// The position of the first target that is `window`, or the number of targets.
pub open spec fn target_index(targets: Seq<DragSceneTarget>, window: WindowId) -> int
    decreases targets.len(),
{
    if targets.len() == 0 {
        0
    } else {
        let i = target_index(targets.drop_last(), window);
        if i < targets.len() - 1 {
            i
        } else if targets.last().window == window {
            targets.len() - 1
        } else {
            targets.len() as int
        }
    }
}

/// The last target as it is in a new scene, if it is still there.
pub open spec fn carried_target(
    tiling_area: Option<Frame>,
    targets: Seq<DragSceneTarget>,
    previous: Option<DropTarget>,
) -> Option<DropTarget> {
    match previous {
        None => None,
        Some(p) => {
            let i = target_index(targets, p.window);
            if i < targets.len() && (p.zone == DropZone::Center || targets[i].directional)
                && targets[i].preview(p.action) is Some {
                Some(
                    DropTarget {
                        frame: targets[i].frame,
                        tiling_area: match tiling_area {
                            Some(area) => area,
                            None => targets[i].frame,
                        },
                        preview_area: targets[i].preview(p.action)->0,
                        ..p
                    },
                )
            } else {
                None
            }
        },
    }
}

proof fn lemma_target_index(targets: Seq<DragSceneTarget>, window: WindowId)
    ensures
        0 <= target_index(targets, window) <= targets.len(),
    decreases targets.len(),
{
    if targets.len() > 0 {
        lemma_target_index(targets.drop_last(), window);
    }
}

fn find_target(targets: &Vec<DragSceneTarget>, window: WindowId) -> (r: usize)
    ensures
        r == target_index(targets@, window),
{
    let mut r: usize = targets.len();
    let mut i: usize = 0;
    while i < targets.len()
        invariant
            i <= targets@.len(),
            r == targets@.len() ==> target_index(targets@.take(i as int), window) == i,
            r != targets@.len() ==> r < i && target_index(targets@.take(i as int), window) == r,
        decreases targets@.len() - i,
    {
        assert(targets@.take(i + 1).drop_last() =~= targets@.take(i as int));
        if r == targets.len() && targets[i].window == window {
            r = i;
        }
        i = i + 1;
    }
    assert(targets@.take(i as int) =~= targets@);
    r
}

/// The last target as it is in a new scene, if it is still there.
pub fn carry_target(scene: &DragScene, previous: Option<DropTarget>) -> (r: Option<DropTarget>)
    ensures
        r == carried_target(scene.tiling_area, scene.targets@, previous),
{
    let p = match previous {
        Some(p) => p,
        None => {
            return None;
        },
    };
    proof {
        lemma_target_index(scene.targets@, p.window);
    }
    let i = find_target(&scene.targets, p.window);
    if i >= scene.targets.len() {
        return None;
    }
    let t = scene.targets[i];
    if p.zone != DropZone::Center && !t.directional {
        return None;
    }
    match t.preview_area(p.action) {
        Some(preview_area) => Some(
            DropTarget {
                window: p.window,
                space: p.space,
                frame: t.frame,
                tiling_area: match scene.tiling_area {
                    Some(area) => area,
                    None => t.frame,
                },
                preview_area,
                zone: p.zone,
                action: p.action,
            },
        ),
        None => None,
    }
}

/// The targets without those that are `window`.
pub open spec fn without_target(targets: Seq<DragSceneTarget>, window: WindowId) -> Seq<
    DragSceneTarget,
>
    decreases targets.len(),
{
    if targets.len() == 0 {
        Seq::empty()
    } else {
        let head = without_target(targets.drop_last(), window);
        if targets.last().window == window {
            head
        } else {
            head.push(targets.last())
        }
    }
}

impl SessionView {
    /// Whether the dragged window can be dropped on others: a tiled window that is moved and has
    /// not left its space.
    pub open spec fn can_drop(self) -> bool {
        &&& self.source.tiled
        &&& self.kind == DragKind::NativeMove || self.kind == DragKind::ModifierMove
        &&& self.source.origin_space == self.source.current_space
    }

    pub open spec fn is_native(self) -> bool {
        self.kind == DragKind::NativeMove || self.kind == DragKind::NativeResize
    }

    pub open spec fn action(self) -> MouseAction {
        match self.kind {
            DragKind::ModifierMove => MouseAction::Move,
            DragKind::ModifierResize => MouseAction::Resize,
            _ => MouseAction::Nothing,
        }
    }

    /// The session once the scene changed.
    pub open spec fn with_scene(self, scene: DragScene, facts: HitFacts, s: MouseSettings) -> SessionView {
        let next = SessionView {
            tiling_area: scene.tiling_area,
            targets: scene.targets@,
            ..self
        };
        SessionView {
            target: if self.can_drop() {
                hit(
                    scene.tiling_area,
                    scene.targets@,
                    facts,
                    s.drop_action,
                    carried_target(scene.tiling_area, scene.targets@, self.target),
                )
            } else {
                None
            },
            ..next
        }
    }

    /// The session once the pointer moved; `frame` is where the window goes with it.
    pub open spec fn moved(
        self,
        motion: DragMotion,
        frame: Frame,
        facts: HitFacts,
        s: MouseSettings,
    ) -> SessionView {
        SessionView {
            pointer: motion.point,
            source: if self.is_native() {
                self.source
            } else {
                DragSource { last_frame: frame, ..self.source }
            },
            target: if self.can_drop() {
                hit(self.tiling_area, self.targets, facts, s.drop_action, self.target)
            } else {
                None
            },
            ..self
        }
    }
}

impl Drag {
    pub open spec fn in_phase(self, phase: Phase) -> Drag {
        Drag { phase, ..self }
    }

    /// The drag once its window was looked for.
    pub open spec fn started(
        self,
        id: u64,
        source: Option<DragSource>,
        scene: DragScene,
        facts: StartFacts,
    ) -> (Drag, bool) {
        match self.phase {
            Phase::AwaitingSource(pending) => if pending.id != id {
                (self, false)
            } else if source is None {
                (self.in_phase(Phase::Idle), true)
            } else {
                let src = source->0;
                match pending.kind {
                    StartKind::Native { window } => if window == src.window {
                        (
                            self.in_phase(
                                Phase::Dragging(
                                    SessionView {
                                        id,
                                        source: src,
                                        pointer: facts.center,
                                        anchor_point: facts.center,
                                        tiling_area: scene.tiling_area,
                                        targets: scene.targets@,
                                        target: None,
                                        kind: if facts.resized {
                                            DragKind::NativeResize
                                        } else {
                                            DragKind::NativeMove
                                        },
                                        last_effect_frame: src.last_frame,
                                        resize_edges: None,
                                    },
                                ),
                            ),
                            true,
                        )
                    } else {
                        (self.in_phase(Phase::Idle), false)
                    },
                    StartKind::Modifier { button, point, action } => if action
                        == MouseAction::Nothing {
                        (self, true)
                    } else {
                        (
                            self.in_phase(
                                Phase::Dragging(
                                    SessionView {
                                        id,
                                        source: src,
                                        pointer: point,
                                        anchor_point: point,
                                        tiling_area: scene.tiling_area,
                                        targets: scene.targets@,
                                        target: None,
                                        kind: if action == MouseAction::Resize {
                                            DragKind::ModifierResize
                                        } else {
                                            DragKind::ModifierMove
                                        },
                                        last_effect_frame: src.last_frame,
                                        resize_edges: if action == MouseAction::Resize {
                                            Some(facts.edges)
                                        } else {
                                            None
                                        },
                                    },
                                ),
                            ),
                            true,
                        )
                    },
                }
            },
            _ => (self, false),
        }
    }

    /// What is dropped if the drag ends now.
    pub open spec fn commit(self) -> Option<DragCommit> {
        match self.phase {
            Phase::Dragging(s) => Some(
                DragCommit {
                    source: s.source,
                    target: s.target,
                    pointer: s.pointer,
                    kind: s.kind,
                },
            ),
            _ => None,
        }
    }

    /// What giving up the drag leads to.
    pub open spec fn cancelled(self) -> Option<DragCancel> {
        match self.phase {
            Phase::Dragging(s) => Some(
                DragCancel { source: s.source, restore_origin: !s.is_native() },
            ),
            _ => None,
        }
    }

    /// The drag once a window is gone, and whether that ended it.
    pub open spec fn without(self, window: WindowId) -> (Drag, bool) {
        match self.phase {
            Phase::AwaitingSource(p) => if p.kind == (StartKind::Native { window }) {
                (self.in_phase(Phase::Idle), true)
            } else {
                (self, false)
            },
            Phase::Dragging(s) => if s.source.window == window {
                (self.in_phase(Phase::Idle), true)
            } else {
                (
                    self.in_phase(
                        Phase::Dragging(
                            SessionView {
                                targets: without_target(s.targets, window),
                                target: if s.target is Some && s.target->0.window == window {
                                    None
                                } else {
                                    s.target
                                },
                                ..s
                            },
                        ),
                    ),
                    false,
                )
            },
            Phase::Idle => (self, false),
        }
    }
}

impl DragActor {
    pub open spec fn view(self) -> Drag {
        Drag { phase: self.state@, next_id: self.next_session_id, settings: self.settings }
    }

    pub fn new(settings: MouseSettings) -> (r: DragActor)
        ensures
            r@ == (Drag { phase: Phase::Idle, next_id: 1, settings }),
    {
        DragActor { state: State::Idle, next_session_id: 1, settings }
    }

    pub fn is_active(&self) -> (r: bool)
        ensures
            r == !(self@.phase is Idle),
    {
        match self.state {
            State::Idle => false,
            _ => true,
        }
    }

    pub fn source(&self) -> (r: Option<DragSource>)
        ensures
            r == (match self@.phase {
                Phase::Dragging(s) => Some(s.source),
                _ => None,
            }),
    {
        match &self.state {
            State::Dragging(session) => Some(session.source),
            _ => None,
        }
    }

    pub fn target(&self) -> (r: Option<DropTarget>)
        ensures
            r == (match self@.phase {
                Phase::Dragging(s) => s.target,
                _ => None,
            }),
    {
        match &self.state {
            State::Dragging(session) => session.target,
            _ => None,
        }
    }

    pub fn kind(&self) -> (r: Option<DragKind>)
        ensures
            r == (match self@.phase {
                Phase::Dragging(s) => Some(s.kind),
                _ => None,
            }),
    {
        match &self.state {
            State::Dragging(session) => Some(session.kind),
            _ => None,
        }
    }

    fn take_session(&mut self) -> (r: Option<Session>)
        ensures
            final(self)@ == old(self)@.in_phase(
                match old(self)@.phase {
                    Phase::Dragging(_) => Phase::Idle,
                    p => p,
                },
            ),
            match r {
                Some(s) => old(self)@.phase == Phase::Dragging(s@),
                None => !(old(self)@.phase is Dragging),
            },
    {
        let mut state = State::Idle;
        std::mem::swap(&mut state, &mut self.state);
        match state {
            State::Dragging(session) => Some(session),
            other => {
                self.state = other;
                None
            },
        }
    }

    /// The scene changed. `facts` are about the new one and the last target as it is in it.
    pub fn replace_scene(&mut self, scene: DragScene, facts: &HitFacts)
        requires
            facts.fit(scene.targets@.len()),
        ensures
            final(self)@ == (match old(self)@.phase {
                Phase::Dragging(s) => old(self)@.in_phase(
                    Phase::Dragging(s.with_scene(scene, *facts, old(self)@.settings)),
                ),
                _ => old(self)@,
            }),
    {
        match self.take_session() {
            Some(session) => {
                let mut session = session;
                let movable = session.kind == DragKind::NativeMove || session.kind
                    == DragKind::ModifierMove;
                if session.source.tiled && movable && session.source.origin_space
                    == session.source.current_space {
                    let previous = carry_target(&scene, session.target);
                    session.target = hit_test(&scene, facts, self.settings.drop_action, previous);
                } else {
                    session.target = None;
                }
                session.scene = scene;
                self.state = State::Dragging(session);
            },
            None => {},
        }
    }

    /// The settings changed; a drag ends if dragging is off.
    pub fn update_config(&mut self, settings: MouseSettings)
        ensures
            final(self)@ == (Drag {
                settings,
                phase: if settings.enabled {
                    old(self)@.phase
                } else {
                    Phase::Idle
                },
                ..old(self)@
            }),
    {
        self.settings = settings;
        if !settings.enabled {
            let _ = self.cancel();
        }
    }

    fn await_start(&mut self, kind: StartKind) -> (r: u64)
        ensures
            r == old(self)@.next_id,
            final(self)@ == (Drag {
                phase: Phase::AwaitingSource(PendingStart { id: r, kind }),
                next_id: counted_up(r),
                ..old(self)@
            }),
    {
        let id: u64 = self.next_session_id;
        self.next_session_id = self.next_session_id.wrapping_add(1);
        self.state = State::AwaitingSource(PendingStart { id, kind });
        id
    }

    /// A window was moved by its own title bar; the result numbers the drag.
    pub fn await_native(&mut self, window: WindowId) -> (r: u64)
        ensures
            r == old(self)@.next_id,
            final(self)@ == (Drag {
                phase: Phase::AwaitingSource(
                    PendingStart { id: r, kind: StartKind::Native { window } },
                ),
                next_id: counted_up(r),
                ..old(self)@
            }),
    {
        self.await_start(StartKind::Native { window })
    }

    /// A button was pressed with the modifier key held; the result numbers the drag.
    pub fn await_modifier(&mut self, button: MouseButton, point: Point, action: MouseAction) -> (r:
        u64)
        ensures
            r == old(self)@.next_id,
            final(self)@ == (Drag {
                phase: Phase::AwaitingSource(
                    PendingStart { id: r, kind: StartKind::Modifier { button, point, action } },
                ),
                next_id: counted_up(r),
                ..old(self)@
            }),
    {
        self.await_start(StartKind::Modifier { button, point, action })
    }

    /// The window of a drag was found, or none was. Results for an earlier drag are ignored.
    pub fn resolve_start(
        &mut self,
        session_id: u64,
        source: Option<DragSource>,
        scene: DragScene,
        facts: StartFacts,
    ) -> (r: bool)
        ensures
            (final(self)@, r) == old(self)@.started(session_id, source, scene, facts),
    {
        let pending = match self.state {
            State::AwaitingSource(pending) => pending,
            _ => {
                return false;
            },
        };
        if pending.id != session_id {
            return false;
        }
        let source = match source {
            Some(source) => source,
            None => {
                self.state = State::Idle;
                return true;
            },
        };
        match pending.kind {
            StartKind::Native { window } => {
                if window != source.window {
                    self.state = State::Idle;
                    return false;
                }
                let kind = if facts.resized {
                    DragKind::NativeResize
                } else {
                    DragKind::NativeMove
                };
                self.state = State::Dragging(
                    Session {
                        id: session_id,
                        source,
                        pointer: facts.center,
                        anchor_point: facts.center,
                        scene,
                        target: None,
                        kind,
                        last_effect_frame: source.last_frame,
                        resize_edges: None,
                    },
                );
                true
            },
            StartKind::Modifier { button: _, point, action } => {
                let (kind, resize_edges) = match action {
                    MouseAction::Move => (DragKind::ModifierMove, None),
                    MouseAction::Resize => (DragKind::ModifierResize, Some(facts.edges)),
                    MouseAction::Nothing => {
                        return true;
                    },
                };
                self.state = State::Dragging(
                    Session {
                        id: session_id,
                        source,
                        pointer: point,
                        anchor_point: point,
                        scene,
                        target: None,
                        kind,
                        last_effect_frame: source.last_frame,
                        resize_edges,
                    },
                );
                true
            },
        }
    }

    /// A window that is moved by its own title bar is here now. The result says whether it is the
    /// one that is dragged.
    pub fn update_native(
        &mut self,
        window: WindowId,
        frame: Frame,
        current_space: Option<SpaceId>,
    ) -> (r: bool)
        ensures
            r == (old(self)@.phase matches Phase::Dragging(s) && s.source.window == window
                && s.is_native()),
            final(self)@ == (match old(self)@.phase {
                Phase::Dragging(s) => if r {
                    old(self)@.in_phase(
                        Phase::Dragging(
                            SessionView {
                                source: DragSource { last_frame: frame, current_space, ..s.source },
                                target: if s.source.origin_space == current_space {
                                    s.target
                                } else {
                                    None
                                },
                                ..s
                            },
                        ),
                    )
                } else {
                    old(self)@
                },
                _ => old(self)@,
            }),
    {
        match self.take_session() {
            Some(session) => {
                let mut session = session;
                let native = session.kind == DragKind::NativeMove || session.kind
                    == DragKind::NativeResize;
                let owns = session.source.window == window && native;
                if owns {
                    session.source.last_frame = frame;
                    session.source.current_space = current_space;
                    if session.source.origin_space != current_space {
                        session.target = None;
                    }
                }
                self.state = State::Dragging(session);
                owns
            },
            None => false,
        }
    }

    /// The pointer moved; `frame` is where a window that is dragged with the modifier goes. The
    /// result says whether the target changed.
    pub fn motion(&mut self, motion: DragMotion, frame: Frame, facts: &HitFacts) -> (r: bool)
        requires
            old(self)@.phase matches Phase::Dragging(s) ==> facts.fit(s.targets.len()),
        ensures
            match old(self)@.phase {
                Phase::Dragging(s) => {
                    let next = s.moved(motion, frame, *facts, old(self)@.settings);
                    &&& final(self)@ == old(self)@.in_phase(Phase::Dragging(next))
                    &&& r == !same_drop(next.target, s.target)
                },
                _ => !r && final(self)@ == old(self)@,
            },
    {
        match self.take_session() {
            Some(session) => {
                let mut session = session;
                session.pointer = motion.point;
                let native = session.kind == DragKind::NativeMove || session.kind
                    == DragKind::NativeResize;
                if !native {
                    session.source.last_frame = frame;
                }
                let resize = session.kind == DragKind::NativeResize || session.kind
                    == DragKind::ModifierResize;
                let next = if resize || !session.source.tiled || session.source.origin_space
                    != session.source.current_space {
                    None
                } else {
                    hit_test(&session.scene, facts, self.settings.drop_action, session.target)
                };
                let changed = !is_same_drop(next, session.target);
                session.target = next;
                self.state = State::Dragging(session);
                changed
            },
            None => false,
        }
    }

    /// What dragging with the modifier does to the window now. A tiled window is only resized
    /// again once its frame changed by a whole point, which `materially_changed` says.
    pub fn interactive_update(&mut self, materially_changed: bool) -> (r: Option<InteractiveUpdate>)
        ensures
            match old(self)@.phase {
                Phase::Dragging(s) => {
                    let resizes = s.kind == DragKind::ModifierResize && s.source.tiled;
                    let acts = !s.is_native() && (resizes ==> materially_changed);
                    &&& r == (if acts {
                        Some(
                            InteractiveUpdate {
                                window: s.source.window,
                                origin_frame: s.source.origin_frame,
                                frame: s.source.last_frame,
                                action: s.action(),
                                tiled: s.source.tiled,
                            },
                        )
                    } else {
                        None
                    })
                    &&& final(self)@ == old(self)@.in_phase(
                        Phase::Dragging(
                            SessionView {
                                last_effect_frame: if resizes && acts {
                                    s.source.last_frame
                                } else {
                                    s.last_effect_frame
                                },
                                ..s
                            },
                        ),
                    )
                },
                _ => r is None && final(self)@ == old(self)@,
            },
    {
        match self.take_session() {
            Some(session) => {
                let mut session = session;
                let action = match session.kind {
                    DragKind::ModifierMove => MouseAction::Move,
                    DragKind::ModifierResize => MouseAction::Resize,
                    _ => {
                        self.state = State::Dragging(session);
                        return None;
                    },
                };
                if action == MouseAction::Resize && session.source.tiled {
                    if !materially_changed {
                        self.state = State::Dragging(session);
                        return None;
                    }
                    session.last_effect_frame = session.source.last_frame;
                }
                let update = InteractiveUpdate {
                    window: session.source.window,
                    origin_frame: session.source.origin_frame,
                    frame: session.source.last_frame,
                    action,
                    tiled: session.source.tiled,
                };
                self.state = State::Dragging(session);
                Some(update)
            },
            None => None,
        }
    }

    /// A window that is resized with the modifier can only have this frame.
    pub fn constrain_resize(&mut self, frame: Frame)
        ensures
            final(self)@ == (match old(self)@.phase {
                Phase::Dragging(s) => if s.kind == DragKind::ModifierResize && s.resize_edges
                    is Some {
                    old(self)@.in_phase(
                        Phase::Dragging(
                            SessionView {
                                source: DragSource { last_frame: frame, ..s.source },
                                ..s
                            },
                        ),
                    )
                } else {
                    old(self)@
                },
                _ => old(self)@,
            }),
    {
        match self.take_session() {
            Some(session) => {
                let mut session = session;
                if session.kind == DragKind::ModifierResize && session.resize_edges.is_some() {
                    session.source.last_frame = frame;
                }
                self.state = State::Dragging(session);
            },
            None => {},
        }
    }

    /// The button was released.
    pub fn finish(&mut self) -> (r: Option<DragCommit>)
        ensures
            r == old(self)@.commit(),
            final(self)@ == old(self)@.in_phase(Phase::Idle),
    {
        let mut state = State::Idle;
        std::mem::swap(&mut state, &mut self.state);
        match state {
            State::Dragging(session) => Some(
                DragCommit {
                    source: session.source,
                    target: session.target,
                    pointer: session.pointer,
                    kind: session.kind,
                },
            ),
            _ => None,
        }
    }

    /// The drag is given up.
    pub fn cancel(&mut self) -> (r: Option<DragCancel>)
        ensures
            r == old(self)@.cancelled(),
            final(self)@ == old(self)@.in_phase(Phase::Idle),
    {
        let mut state = State::Idle;
        std::mem::swap(&mut state, &mut self.state);
        match state {
            State::Dragging(session) => Some(
                DragCancel {
                    source: session.source,
                    restore_origin: session.kind == DragKind::ModifierMove || session.kind
                        == DragKind::ModifierResize,
                },
            ),
            _ => None,
        }
    }

    /// A window is gone; the result says whether that ended the drag.
    pub fn window_removed(&mut self, window: WindowId) -> (r: bool)
        ensures
            (final(self)@, r) == old(self)@.without(window),
    {
        match self.state {
            State::AwaitingSource(pending) => {
                if pending.kind == (StartKind::Native { window }) {
                    self.state = State::Idle;
                    return true;
                }
                return false;
            },
            _ => {},
        }
        match self.take_session() {
            Some(session) => {
                if session.source.window == window {
                    return true;
                }
                let mut session = session;
                let mut kept: Vec<DragSceneTarget> = Vec::new();
                let mut i: usize = 0;
                while i < session.scene.targets.len()
                    invariant
                        i <= session.scene.targets@.len(),
                        kept@ == without_target(session.scene.targets@.take(i as int), window),
                    decreases session.scene.targets@.len() - i,
                {
                    assert(session.scene.targets@.take(i + 1).drop_last()
                        =~= session.scene.targets@.take(i as int));
                    if session.scene.targets[i].window != window {
                        kept.push(session.scene.targets[i]);
                    }
                    i = i + 1;
                }
                assert(session.scene.targets@.take(i as int) =~= session.scene.targets@);
                session.scene.targets = kept;
                match session.target {
                    Some(target) => {
                        if target.window == window {
                            session.target = None;
                        }
                    },
                    None => {},
                }
                self.state = State::Dragging(session);
                false
            },
            None => false,
        }
    }
}

/// The newest of any number of motions is the one that is taken, and only the first of them has
/// to wake the reader.
pub proof fn motions_coalesce(motions: Seq<DragMotion>, p: DragMotionPublisher)
    requires
        motions.len() > 0,
        !p.wake_queued,
    ensures
        published(p, motions).latest == Some(motions.last()),
        published(p, motions).wake_queued,
        wakes(p, motions) == 1,
    decreases motions.len(),
{
    if motions.len() > 1 {
        motions_coalesce(motions.drop_last(), p);
    } else {
        assert(motions.drop_last().len() == 0);
        assert(wakes(p, motions.drop_last()) == 0);
    }
}

/// The publisher after these motions.
pub open spec fn published(p: DragMotionPublisher, motions: Seq<DragMotion>) -> DragMotionPublisher {
    if motions.len() == 0 {
        p
    } else {
        DragMotionPublisher { latest: Some(motions.last()), wake_queued: true }
    }
}

/// How many of these motions had to wake the reader.
pub open spec fn wakes(p: DragMotionPublisher, motions: Seq<DragMotion>) -> nat
    decreases motions.len(),
{
    if motions.len() == 0 {
        0
    } else {
        let head = motions.drop_last();
        wakes(p, head) + if published(p, head).wake_queued {
            0nat
        } else {
            1nat
        }
    }
}

/// A result for an earlier drag changes nothing.
pub proof fn stale_results_are_ignored(
    drag: Drag,
    id: u64,
    source: Option<DragSource>,
    scene: DragScene,
    facts: StartFacts,
)
    requires
        drag.phase matches Phase::AwaitingSource(p) ==> p.id != id,
    ensures
        drag.started(id, source, scene, facts) == (drag, false),
{
}

/// Only a tiled window that is moved within its space has something to be dropped on.
pub proof fn only_tiled_moves_have_a_target(
    s: SessionView,
    motion: DragMotion,
    frame: Frame,
    facts: HitFacts,
    settings: MouseSettings,
)
    requires
        s.moved(motion, frame, facts, settings).target is Some,
    ensures
        s.can_drop(),
{
}

/// A drag ends once: after it was finished there is nothing to finish or give up.
pub proof fn a_drag_ends_once(drag: Drag)
    ensures
        drag.in_phase(Phase::Idle).commit() is None,
        drag.in_phase(Phase::Idle).cancelled() is None,
{
}

/// Only a drag that this program started puts the window back when it is given up.
pub proof fn only_modifier_drags_are_undone(drag: Drag)
    ensures
        drag.cancelled() matches Some(c) ==> (c.restore_origin <==> drag.phase->Dragging_0.kind
            == DragKind::ModifierMove || drag.phase->Dragging_0.kind == DragKind::ModifierResize),
{
}

/// A window that is gone is no longer dropped on.
pub proof fn a_removed_window_is_no_target(drag: Drag, window: WindowId)
    requires
        drag.without(window).0.phase is Dragging,
    ensures
        drag.without(window).0.phase->Dragging_0.target matches Some(t) ==> t.window != window,
        forall|i: int|
            0 <= i < drag.without(window).0.phase->Dragging_0.targets.len() ==> (
            #[trigger] drag.without(window).0.phase->Dragging_0.targets[i]).window != window,
{
    lemma_without_target(drag.phase->Dragging_0.targets, window);
}

proof fn lemma_without_target(targets: Seq<DragSceneTarget>, window: WindowId)
    ensures
        forall|i: int|
            0 <= i < without_target(targets, window).len() ==> (#[trigger] without_target(
                targets,
                window,
            )[i]).window != window,
    decreases targets.len(),
{
    if targets.len() > 0 {
        lemma_without_target(targets.drop_last(), window);
        let head = without_target(targets.drop_last(), window);
        let all = without_target(targets, window);
        assert forall|i: int| 0 <= i < all.len() implies (#[trigger] all[i]).window != window by {
            if i < head.len() {
                assert(all[i] == head[i]);
            }
        }
    }
}

/// The window that another is dropped on is the nearest one.
pub proof fn drops_go_to_the_nearest_window(
    tiling_area: Option<Frame>,
    targets: Seq<DragSceneTarget>,
    facts: HitFacts,
    center: MouseDropAction,
    j: int,
)
    requires
        facts.fit(targets.len()),
        hit(tiling_area, targets, facts, center, None) is Some,
        0 <= j < targets.len(),
    ensures
        ({
            let i = nearest(facts.distances@);
            &&& 0 <= i < targets.len()
            &&& hit(tiling_area, targets, facts, center, None)->0.window == targets[i].window
            &&& facts.distances@[i] <= facts.distances@[j]
        }),
{
    lemma_nearest(facts.distances@);
}

/// A new drop target is the nearest window. What dropping there does follows from the zone that
/// the pointer is over, and what is shown of it follows from what it does: a window goes above
/// from the north, below from the south, to the left from the west and to the right from the east,
/// and in the middle it is swapped or stacked as configured.
pub proof fn drop_targets_agree_with_their_zones(
    tiling_area: Option<Frame>,
    targets: Seq<DragSceneTarget>,
    facts: HitFacts,
    center: MouseDropAction,
    previous: Option<DropTarget>,
    n: int,
)
    requires
        facts.fit(targets.len()),
        previous is None || !facts.retained,
        0 <= n < targets.len(),
        forall|j: int|
            0 <= j < targets.len() ==> facts.distances@[n] <= #[trigger] facts.distances@[j],
        forall|j: int| 0 <= j < n ==> facts.distances@[n] < #[trigger] facts.distances@[j],
    ensures
        hit(tiling_area, targets, facts, center, previous) matches Some(d) ==> {
            let t = targets[n];
            &&& d.window == t.window && d.space == t.space && d.frame == t.frame
            &&& tiling_area matches Some(area) ==> d.tiling_area == area && facts.area_zone
                == Some(d.zone)
            &&& d.zone != DropZone::Center ==> t.directional
            &&& match d.zone {
                DropZone::North => d.action == WindowDropAction::Insert(Direction::Up)
                    && t.north_frame == Some(d.preview_area),
                DropZone::South => d.action == WindowDropAction::Insert(Direction::Down)
                    && t.south_frame == Some(d.preview_area),
                DropZone::West => d.action == WindowDropAction::Insert(Direction::Left)
                    && t.west_frame == Some(d.preview_area),
                DropZone::East => d.action == WindowDropAction::Insert(Direction::Right)
                    && t.east_frame == Some(d.preview_area),
                DropZone::Center => t.center_frame == Some(d.preview_area) && match center {
                    MouseDropAction::Swap => d.action == WindowDropAction::Swap,
                    MouseDropAction::Stack => d.action == WindowDropAction::Stack,
                },
            }
        },
{
    lemma_nearest(facts.distances@);
    let k = nearest(facts.distances@);
    if k < n {
        assert(facts.distances@[n] < facts.distances@[k]);
    } else if n < k {
        assert(facts.distances@[k] < facts.distances@[n]);
    }
}

/// Where the pointer is over a zone of the tiling area, and the nearest window has something to
/// show for it, there is a drop target with that zone.
pub proof fn a_zone_with_a_preview_is_a_target(
    area: Frame,
    targets: Seq<DragSceneTarget>,
    facts: HitFacts,
    center: MouseDropAction,
    zone: DropZone,
    n: int,
)
    requires
        facts.fit(targets.len()),
        facts.area_zone == Some(zone),
        0 <= n < targets.len(),
        forall|j: int|
            0 <= j < targets.len() ==> facts.distances@[n] <= #[trigger] facts.distances@[j],
        forall|j: int| 0 <= j < n ==> facts.distances@[n] < #[trigger] facts.distances@[j],
    ensures
        ({
            let t = targets[n];
            let shown = match zone {
                DropZone::North => t.north_frame is Some,
                DropZone::South => t.south_frame is Some,
                DropZone::West => t.west_frame is Some,
                DropZone::East => t.east_frame is Some,
                DropZone::Center => t.center_frame is Some,
            };
            let r = hit(Some(area), targets, facts, center, None);
            &&& r is Some <==> shown && (zone == DropZone::Center || t.directional)
            &&& r is Some ==> r->0.zone == zone && r->0.window == t.window
        }),
{
    lemma_nearest(facts.distances@);
    let k = nearest(facts.distances@);
    if k < n {
        assert(facts.distances@[n] < facts.distances@[k]);
    } else if n < k {
        assert(facts.distances@[k] < facts.distances@[n]);
    }
}

/// A target that the pointer is still within reach of stays; outside every zone there is none.
pub proof fn a_target_stays_while_it_is_in_reach(
    tiling_area: Option<Frame>,
    targets: Seq<DragSceneTarget>,
    facts: HitFacts,
    center: MouseDropAction,
    previous: DropTarget,
)
    ensures
        facts.retained ==> hit(tiling_area, targets, facts, center, Some(previous)) == Some(
            previous,
        ),
        !facts.retained ==> hit(tiling_area, targets, facts, center, Some(previous)) == hit(
            tiling_area,
            targets,
            facts,
            center,
            None,
        ),
        targets.len() == 0 ==> hit(tiling_area, targets, facts, center, None) is None,
        tiling_area is Some && facts.area_zone is None ==> hit(
            tiling_area,
            targets,
            facts,
            center,
            None,
        ) is None,
{
}

/// Without a tiling area the zones are those of the first window that the pointer is over.
pub proof fn the_first_window_under_the_pointer_has_the_zones(
    targets: Seq<DragSceneTarget>,
    facts: HitFacts,
    center: MouseDropAction,
    i: int,
)
    requires
        facts.fit(targets.len()),
        0 <= i < targets.len(),
        facts.contains@[i],
        forall|j: int| 0 <= j < i ==> !#[trigger] facts.contains@[j],
    ensures
        hit(None, targets, facts, center, None) matches Some(d) ==> d.tiling_area
            == targets[i].frame && facts.zones@[i] == Some(d.zone),
        facts.zones@[i] is None ==> hit(None, targets, facts, center, None) is None,
{
    lemma_first_containing_is(facts.contains@, i);
}

proof fn lemma_first_containing_is(contains: Seq<bool>, i: int)
    requires
        0 <= i < contains.len(),
        contains[i],
        forall|j: int| 0 <= j < i ==> !#[trigger] contains[j],
    ensures
        first_containing(contains) == i,
    decreases contains.len(),
{
    let head = contains.drop_last();
    assert(forall|j: int| 0 <= j < head.len() ==> head[j] == contains[j]);
    lemma_first_containing(head);
    if i < head.len() {
        lemma_first_containing_is(head, i);
    } else {
        lemma_none_contains(head);
    }
}

proof fn lemma_none_contains(contains: Seq<bool>)
    requires
        forall|j: int| 0 <= j < contains.len() ==> !#[trigger] contains[j],
    ensures
        first_containing(contains) == contains.len(),
    decreases contains.len(),
{
    if contains.len() > 0 {
        let head = contains.drop_last();
        assert(forall|j: int| 0 <= j < head.len() ==> head[j] == contains[j]);
        lemma_none_contains(head);
        assert(!contains[contains.len() - 1]);
    }
}

/// A target is carried into a new scene as the same window, zone and action, at the place that the
/// window has there; it is given up only if the window is gone or has nothing to show for it.
pub proof fn carried_targets_stay_the_same_drop(
    tiling_area: Option<Frame>,
    targets: Seq<DragSceneTarget>,
    p: DropTarget,
    i: int,
)
    requires
        0 <= i < targets.len(),
        targets[i].window == p.window,
        forall|j: int| 0 <= j < i ==> (#[trigger] targets[j]).window != p.window,
    ensures
        ({
            let t = targets[i];
            let shown = match p.action {
                WindowDropAction::Insert(Direction::Up) => t.north_frame,
                WindowDropAction::Insert(Direction::Down) => t.south_frame,
                WindowDropAction::Insert(Direction::Left) => t.west_frame,
                WindowDropAction::Insert(Direction::Right) => t.east_frame,
                _ => t.center_frame,
            };
            let r = carried_target(tiling_area, targets, Some(p));
            &&& r is Some <==> shown is Some && (p.zone == DropZone::Center || t.directional)
            &&& r matches Some(d) ==> {
                &&& d.window == p.window && d.space == p.space
                &&& d.zone == p.zone && d.action == p.action
                &&& d.frame == t.frame && Some(d.preview_area) == shown
                &&& d.tiling_area == (if tiling_area is Some { tiling_area->0 } else { t.frame })
            }
        }),
{
    lemma_target_index_is(targets, p.window, i);
}

/// A target whose window is not in the new scene is given up.
pub proof fn targets_that_are_gone_are_given_up(
    tiling_area: Option<Frame>,
    targets: Seq<DragSceneTarget>,
    p: DropTarget,
)
    requires
        forall|j: int| 0 <= j < targets.len() ==> (#[trigger] targets[j]).window != p.window,
    ensures
        carried_target(tiling_area, targets, Some(p)) is None,
        carried_target(tiling_area, targets, None) is None,
{
    lemma_no_target_index(targets, p.window);
}

proof fn lemma_target_index_is(targets: Seq<DragSceneTarget>, window: WindowId, i: int)
    requires
        0 <= i < targets.len(),
        targets[i].window == window,
        forall|j: int| 0 <= j < i ==> (#[trigger] targets[j]).window != window,
    ensures
        target_index(targets, window) == i,
    decreases targets.len(),
{
    let head = targets.drop_last();
    assert(forall|j: int| 0 <= j < head.len() ==> head[j] == targets[j]);
    if i < head.len() {
        lemma_target_index_is(head, window, i);
    } else {
        lemma_no_target_index(head, window);
    }
}

proof fn lemma_no_target_index(targets: Seq<DragSceneTarget>, window: WindowId)
    requires
        forall|j: int| 0 <= j < targets.len() ==> (#[trigger] targets[j]).window != window,
    ensures
        target_index(targets, window) == targets.len(),
    decreases targets.len(),
{
    if targets.len() > 0 {
        let head = targets.drop_last();
        assert(forall|j: int| 0 <= j < head.len() ==> head[j] == targets[j]);
        lemma_no_target_index(head, window);
        assert(targets[targets.len() - 1].window != window);
    }
}

/// A window that is gone is no target any more, and every other target stays one.
pub proof fn only_the_gone_window_stops_being_a_target(
    targets: Seq<DragSceneTarget>,
    window: WindowId,
    t: DragSceneTarget,
)
    ensures
        without_target(targets, window).contains(t) <==> targets.contains(t) && t.window != window,
    decreases targets.len(),
{
    if targets.len() > 0 {
        let head = targets.drop_last();
        only_the_gone_window_stops_being_a_target(head, window, t);
        assert(targets =~= head.push(targets.last()));
        crate::collections::lemma_push_contains(head, targets.last());
        crate::collections::lemma_push_contains(without_target(head, window), targets.last());
    }
}

/// The pointer takes a window along only if it is dragged with the modifier key, and a window that
/// cannot be dropped has no target.
pub proof fn the_pointer_takes_the_window_along(
    s: SessionView,
    motion: DragMotion,
    frame: Frame,
    facts: HitFacts,
    settings: MouseSettings,
)
    ensures
        ({
            let next = s.moved(motion, frame, facts, settings);
            &&& next.pointer == motion.point
            &&& next.anchor_point == s.anchor_point && next.id == s.id && next.kind == s.kind
            &&& next.targets == s.targets && next.tiling_area == s.tiling_area
            &&& next.source.window == s.source.window
            &&& next.source.origin_frame == s.source.origin_frame
            &&& next.source.origin_space == s.source.origin_space
            &&& next.source.current_space == s.source.current_space
            &&& next.source.tiled == s.source.tiled
            &&& s.kind == DragKind::ModifierMove || s.kind == DragKind::ModifierResize
                ==> next.source.last_frame == frame
            &&& s.kind == DragKind::NativeMove || s.kind == DragKind::NativeResize
                ==> next.source.last_frame == s.source.last_frame
            &&& !s.source.tiled ==> next.target is None
            &&& s.kind == DragKind::NativeResize || s.kind == DragKind::ModifierResize
                ==> next.target is None
            &&& s.source.origin_space != s.source.current_space ==> next.target is None
            &&& s.source.tiled && s.source.origin_space == s.source.current_space && (s.kind
                == DragKind::NativeMove || s.kind == DragKind::ModifierMove) ==> next.target == hit(
                s.tiling_area,
                s.targets,
                facts,
                settings.drop_action,
                s.target,
            )
        }),
{
}

/// A new scene brings its own windows and its own area; where the window is and how it is dragged
/// stay as they were.
pub proof fn a_new_scene_changes_only_the_targets(
    s: SessionView,
    scene: DragScene,
    facts: HitFacts,
    settings: MouseSettings,
)
    ensures
        ({
            let next = s.with_scene(scene, facts, settings);
            &&& next.targets == scene.targets@ && next.tiling_area == scene.tiling_area
            &&& next.source == s.source && next.pointer == s.pointer && next.kind == s.kind
            &&& next.id == s.id && next.anchor_point == s.anchor_point
            &&& next.last_effect_frame == s.last_effect_frame
            &&& next.resize_edges == s.resize_edges
            &&& !s.source.tiled || s.source.origin_space != s.source.current_space || s.kind
                == DragKind::NativeResize || s.kind == DragKind::ModifierResize
                ==> next.target is None
        }),
{
}

/// A drag that was waited for begins with the window that was found, at the point where the button
/// was pressed or, without one, in the middle of the window. It moves or resizes as asked, and has
/// no target yet.
pub proof fn drags_begin_as_asked(
    drag: Drag,
    pending: PendingStart,
    src: DragSource,
    scene: DragScene,
    facts: StartFacts,
)
    requires
        drag.phase == Phase::AwaitingSource(pending),
    ensures
        ({
            let (next, taken) = drag.started(pending.id, Some(src), scene, facts);
            &&& next.next_id == drag.next_id && next.settings == drag.settings
            &&& match pending.kind {
                StartKind::Native { window } => if window == src.window {
                    let s = next.phase->Dragging_0;
                    &&& taken && next.phase is Dragging
                    &&& s.kind == (if facts.resized {
                        DragKind::NativeResize
                    } else {
                        DragKind::NativeMove
                    })
                    &&& s.pointer == facts.center && s.anchor_point == facts.center
                    &&& s.resize_edges is None && s.source == src && s.id == pending.id
                    &&& s.target is None && s.targets == scene.targets@
                    &&& s.tiling_area == scene.tiling_area
                    &&& s.last_effect_frame == src.last_frame
                } else {
                    !taken && next.phase is Idle
                },
                StartKind::Modifier { button, point, action } => {
                    &&& taken
                    &&& action == MouseAction::Nothing ==> next.phase == drag.phase
                    &&& action == MouseAction::Move ==> next.phase is Dragging
                        && next.phase->Dragging_0.kind == DragKind::ModifierMove
                        && next.phase->Dragging_0.resize_edges is None
                    &&& action == MouseAction::Resize ==> next.phase is Dragging
                        && next.phase->Dragging_0.kind == DragKind::ModifierResize
                        && next.phase->Dragging_0.resize_edges == Some(facts.edges)
                    &&& next.phase matches Phase::Dragging(s) ==> s.pointer == point
                        && s.anchor_point == point && s.source == src && s.id == pending.id
                        && s.target is None && s.targets == scene.targets@ && s.tiling_area
                        == scene.tiling_area && s.last_effect_frame == src.last_frame
                },
            }
        }),
        drag.started(pending.id, None, scene, facts).0.phase is Idle,
{
}

/// Releasing the button drops the window on the target it has, as it is; giving up takes back only
/// what this program did to it.
pub proof fn a_drag_ends_as_it_stands(drag: Drag, s: SessionView)
    ensures
        drag.phase == Phase::Dragging(s) ==> {
            &&& drag.commit() matches Some(c) && c.source == s.source && c.target == s.target
                && c.pointer == s.pointer && c.kind == s.kind
            &&& drag.cancelled() matches Some(c) && c.source == s.source && c.restore_origin == (
            s.kind == DragKind::ModifierMove || s.kind == DragKind::ModifierResize)
        },
        !(drag.phase is Dragging) ==> drag.commit() is None && drag.cancelled() is None,
{
}

/// A drag ends with its window; another window that is gone is only no target any more.
pub proof fn a_drag_ends_with_its_window(drag: Drag, window: WindowId)
    ensures
        ({
            let (next, ended) = drag.without(window);
            &&& next.settings == drag.settings && next.next_id == drag.next_id
            &&& ended ==> next.phase is Idle
            &&& drag.phase is Idle ==> !ended && next.phase is Idle
            &&& drag.phase matches Phase::AwaitingSource(p) ==> (ended <==> p.kind == (
            StartKind::Native { window })) && (!ended ==> next.phase == drag.phase)
            &&& drag.phase matches Phase::Dragging(s) ==> {
                &&& ended <==> s.source.window == window
                &&& !ended ==> {
                    let n = next.phase->Dragging_0;
                    &&& next.phase is Dragging
                    &&& n.source == s.source && n.kind == s.kind && n.pointer == s.pointer
                    &&& n.target == (if s.target is Some && s.target->0.window == window {
                        None
                    } else {
                        s.target
                    })
                }
            }
        }),
{
}

/// Two drags in a row have different numbers, and only the action of a drag with the modifier key
/// is carried out.
pub proof fn drags_are_told_apart(n: u64, s: SessionView)
    ensures
        counted_up(n) != n,
        n < u64::MAX ==> counted_up(n) == n + 1,
        s.action() == MouseAction::Move <==> s.kind == DragKind::ModifierMove,
        s.action() == MouseAction::Resize <==> s.kind == DragKind::ModifierResize,
        s.action() == MouseAction::Nothing <==> s.kind == DragKind::NativeMove || s.kind
            == DragKind::NativeResize,
{
}

/// Two drops are the same exactly if they agree on the window, the space and the zone.
pub proof fn drops_are_told_apart(a: DropTarget, b: DropTarget)
    ensures
        same_drop(Some(a), Some(b)) <==> a.window == b.window && a.space == b.space && a.zone
            == b.zone,
        same_drop(None, None) && !same_drop(Some(a), None) && !same_drop(None, Some(b)),
        same_drop(Some(a), Some(b)) == vstd::std_specs::cmp::PartialEqSpec::eq_spec(&a, &b),
{
}

} // verus!
