//! What a new set of screens changes, compared with the one before.

use vstd::prelude::*;

use crate::collections::{contains, VecMap, VecSet};
use crate::model::{Frame, SpaceId, WindowServerId};

verus! {

/// A display's UUID; zero if it has none.
pub type DisplayId = u128;

/// A screen: its number, the display it is, where it lies, its size in whole points and the space
/// it shows.
#[derive(Clone, Copy, Debug, PartialEq, Eq, Structural)]
pub struct ScreenInfo {
    pub id: u32,
    pub display_uuid: DisplayId,
    pub frame: Frame,
    pub width: i32,
    pub height: i32,
    pub space: Option<SpaceId>,
}

/// A space that was resized, with the new frame of its screen.
#[derive(Clone, Copy, Debug, PartialEq, Eq, Structural)]
pub struct ResizedSpace {
    pub space: SpaceId,
    pub frame: Frame,
}

/// A space that took the place of another on its display.
#[derive(Clone, Copy, Debug, PartialEq, Eq, Structural)]
pub struct SpaceRemap {
    pub previous: SpaceId,
    pub space: SpaceId,
}

/// A space and the display it belongs to, whether it shows or not.
#[derive(Clone, Copy, Debug, PartialEq, Eq, Structural)]
pub struct DisplaySpace {
    pub display: DisplayId,
    pub space: SpaceId,
}

/// A window that shows, with the space that the window server puts it in and the frames of the
/// screens that its center is on.
pub struct VisibleWindow {
    pub id: WindowServerId,
    pub space: Option<SpaceId>,
    pub under_center: Vec<Frame>,
}

/// Windows that changed their space when the displays changed.
pub struct TopologyWindowDelta {
    pub epoch: u64,
    pub flags: u32,
    pub appeared: VecMap<WindowServerId, SpaceId>,
    pub disappeared: VecMap<WindowServerId, SpaceId>,
}

#[verifier::ext_equal]
pub struct Delta {
    pub epoch: u64,
    pub flags: u32,
    pub appeared: Map<WindowServerId, SpaceId>,
    pub disappeared: Map<WindowServerId, SpaceId>,
}

impl TopologyWindowDelta {
    pub open spec fn view(self) -> Delta {
        Delta {
            epoch: self.epoch,
            flags: self.flags,
            appeared: self.appeared@,
            disappeared: self.disappeared@,
        }
    }
}

impl Default for TopologyWindowDelta {
    fn default() -> (r: TopologyWindowDelta)
        ensures
            r@ == (Delta {
                epoch: 0,
                flags: 0,
                appeared: Map::empty(),
                disappeared: Map::empty(),
            }),
    {
        TopologyWindowDelta {
            epoch: 0,
            flags: 0,
            appeared: VecMap::new(),
            disappeared: VecMap::new(),
        }
    }
}

/// The spaces that the screens show.
pub open spec fn spaces_of(screens: Seq<ScreenInfo>) -> Seq<Option<SpaceId>> {
    screens.map_values(|s: ScreenInfo| s.space)
}

/// The displays, in the order of their screens.
pub open spec fn displays_of(screens: Seq<ScreenInfo>) -> Seq<DisplayId> {
    screens.map_values(|s: ScreenInfo| s.display_uuid)
}

/// Whether some screen shows `space`.
pub open spec fn shows_space(screens: Seq<ScreenInfo>, space: SpaceId) -> bool {
    exists|i: int| 0 <= i < screens.len() && (#[trigger] screens[i]).space == Some(space)
}

/// The first space that shows.
pub open spec fn first_space_of(screens: Seq<ScreenInfo>) -> Option<SpaceId>
    decreases screens.len(),
{
    if screens.len() == 0 {
        None
    } else {
        match first_space_of(screens.drop_last()) {
            Some(space) => Some(space),
            None => screens.last().space,
        }
    }
}

/// The first screen whose frame is among `frames`.
pub open spec fn first_at(screens: Seq<ScreenInfo>, frames: Seq<Frame>) -> Option<ScreenInfo>
    decreases screens.len(),
{
    if screens.len() == 0 {
        None
    } else {
        match first_at(screens.drop_last(), frames) {
            Some(s) => Some(s),
            None => if frames.contains(screens.last().frame) {
                Some(screens.last())
            } else {
                None
            },
        }
    }
}

/// The last screen of the named display `display`.
pub open spec fn screen_of_display(screens: Seq<ScreenInfo>, display: DisplayId) -> Option<
    ScreenInfo,
>
    decreases screens.len(),
{
    if screens.len() == 0 {
        None
    } else if screens.last().display_uuid == display {
        Some(screens.last())
    } else {
        screen_of_display(screens.drop_last(), display)
    }
}

/// The last screen with the number `id`.
pub open spec fn screen_of_id(screens: Seq<ScreenInfo>, id: u32) -> Option<ScreenInfo>
    decreases screens.len(),
{
    if screens.len() == 0 {
        None
    } else if screens.last().id == id {
        Some(screens.last())
    } else {
        screen_of_id(screens.drop_last(), id)
    }
}

/// The named display that showed the user space `space`: the last one, if several did.
pub open spec fn owner_of_space(
    screens: Seq<ScreenInfo>,
    fullscreen: Set<SpaceId>,
    space: SpaceId,
) -> Option<DisplayId>
    decreases screens.len(),
{
    if screens.len() == 0 {
        None
    } else {
        let s = screens.last();
        if s.display_uuid != 0 && s.space == Some(space) && !fullscreen.contains(space) {
            Some(s.display_uuid)
        } else {
            owner_of_space(screens.drop_last(), fullscreen, space)
        }
    }
}

/// Whether the display of `next` went from a user space to a fullscreen one.
pub open spec fn enters_fullscreen(
    previous: Seq<ScreenInfo>,
    next: ScreenInfo,
    fullscreen: Set<SpaceId>,
) -> bool {
    &&& next.display_uuid != 0
    &&& next.space is Some
    &&& fullscreen.contains(next.space->0)
    &&& screen_of_display(previous, next.display_uuid) is Some
    &&& screen_of_display(previous, next.display_uuid)->0.space is Some
    &&& !fullscreen.contains(screen_of_display(previous, next.display_uuid)->0.space->0)
}

/// The space that `next` keeps while another display goes fullscreen: if it seems to show a user
/// space that belongs to another display, it still shows its own.
pub open spec fn kept_space(
    previous: Seq<ScreenInfo>,
    next: ScreenInfo,
    fullscreen: Set<SpaceId>,
) -> Option<SpaceId> {
    let before = screen_of_display(previous, next.display_uuid);
    if next.display_uuid != 0 && before is Some && before->0.space is Some && next.space is Some
        && !fullscreen.contains(next.space->0) && !fullscreen.contains(before->0.space->0)
        && before->0.space != next.space && owner_of_space(previous, fullscreen, next.space->0)
        is Some && owner_of_space(previous, fullscreen, next.space->0) != Some(next.display_uuid) {
        before->0.space
    } else {
        next.space
    }
}

/// The screens, with the spaces that displays keep while another goes fullscreen.
pub open spec fn preserved(
    previous: Seq<ScreenInfo>,
    screens: Seq<ScreenInfo>,
    fullscreen: Set<SpaceId>,
) -> Seq<ScreenInfo> {
    if exists|i: int|
        0 <= i < screens.len() && enters_fullscreen(previous, #[trigger] screens[i], fullscreen) {
        screens.map_values(
            |s: ScreenInfo| ScreenInfo { space: kept_space(previous, s, fullscreen), ..s },
        )
    } else {
        screens
    }
}

/// The screens, with fullscreen spaces left out.
pub open spec fn without_fullscreen(
    screens: Seq<ScreenInfo>,
    fullscreen: Set<SpaceId>,
) -> Seq<ScreenInfo> {
    screens.map_values(
        |s: ScreenInfo|
            if s.space is Some && fullscreen.contains(s.space->0) {
                ScreenInfo { space: None, ..s }
            } else {
                s
            },
    )
}

/// Whether a display lies elsewhere than before.
pub open spec fn geometry_changed(previous: Seq<ScreenInfo>, screens: Seq<ScreenInfo>) -> bool {
    exists|i: int|
        0 <= i < screens.len() && moved(previous, #[trigger] screens[i])
}

pub open spec fn moved(previous: Seq<ScreenInfo>, s: ScreenInfo) -> bool {
    screen_of_display(previous, s.display_uuid) is Some && screen_of_display(
        previous,
        s.display_uuid,
    )->0.frame != s.frame
}

/// Whether the set of displays changed.
pub open spec fn displays_changed(previous: Seq<ScreenInfo>, screens: Seq<ScreenInfo>) -> bool {
    exists|d: DisplayId|
        #[trigger] displays_of(previous).contains(d) != displays_of(screens).contains(d)
}

/// Whether the displays, their order or their places changed.
pub open spec fn topology_changed(previous: Seq<ScreenInfo>, screens: Seq<ScreenInfo>) -> bool {
    displays_changed(previous, screens) || displays_of(previous) != displays_of(screens)
        || geometry_changed(previous, screens)
}

/// Whether a screen is new or has another size.
pub open spec fn resized(previous: Seq<ScreenInfo>, s: ScreenInfo) -> bool {
    match screen_of_id(previous, s.id) {
        Some(before) => before.width != s.width || before.height != s.height,
        None => true,
    }
}

/// The spaces that show on new or resized screens, in order.
pub open spec fn resized_spaces(previous: Seq<ScreenInfo>, screens: Seq<ScreenInfo>) -> Seq<
    ResizedSpace,
>
    decreases screens.len(),
{
    if screens.len() == 0 {
        Seq::empty()
    } else {
        let head = resized_spaces(previous, screens.drop_last());
        let s = screens.last();
        if s.space is Some && resized(previous, s) {
            head.push(ResizedSpace { space: s.space->0, frame: s.frame })
        } else {
            head
        }
    }
}

/// Whether no space shows on two screens.
pub open spec fn distinct_spaces(screens: Seq<ScreenInfo>) -> bool {
    forall|i: int, j: int|
        0 <= i < j < screens.len() && (#[trigger] screens[i]).space is Some ==> screens[i].space
            != (#[trigger] screens[j]).space
}

/// Whether every screen shows a space.
pub open spec fn complete(screens: Seq<ScreenInfo>) -> bool {
    forall|i: int| 0 <= i < screens.len() ==> (#[trigger] screens[i]).space is Some
}

/// Whether a named display has a screen with a space before position `n`.
pub open spec fn seen_before(screens: Seq<ScreenInfo>, n: int, display: DisplayId) -> bool {
    exists|i: int|
        0 <= i < n && (#[trigger] screens[i]).display_uuid == display && screens[i].space is Some
}

/// The last user space of each display, once `screens` is known: that of the first screen of each
/// named display that shows one.
pub open spec fn last_user_spaces(
    before: Map<DisplayId, SpaceId>,
    screens: Seq<ScreenInfo>,
) -> Map<DisplayId, SpaceId>
    decreases screens.len(),
{
    if screens.len() == 0 {
        before
    } else {
        let head = last_user_spaces(before, screens.drop_last());
        let s = screens.last();
        if s.space is Some && s.display_uuid != 0 && !seen_before(
            screens,
            screens.len() - 1,
            s.display_uuid,
        ) {
            head.insert(s.display_uuid, s.space->0)
        } else {
            head
        }
    }
}

/// The spaces that took the place of others, in the order of the screens.
pub open spec fn remaps(
    before: Map<DisplayId, SpaceId>,
    screens: Seq<ScreenInfo>,
) -> Seq<SpaceRemap>
    decreases screens.len(),
{
    if screens.len() == 0 {
        Seq::empty()
    } else {
        let head = remaps(before, screens.drop_last());
        let s = screens.last();
        if s.space is Some && s.display_uuid != 0 && !seen_before(
            screens,
            screens.len() - 1,
            s.display_uuid,
        ) && before.dom().contains(s.display_uuid) && before[s.display_uuid] != s.space->0 {
            head.push(SpaceRemap { previous: before[s.display_uuid], space: s.space->0 })
        } else {
            head
        }
    }
}

/// The space that commands go to: that of the screen under the cursor, else the active space if
/// it shows, else the first one that shows.
pub open spec fn command_space(
    screens: Seq<ScreenInfo>,
    under_cursor: Seq<Frame>,
    active_space: Option<SpaceId>,
) -> Option<SpaceId> {
    let at = first_at(screens, under_cursor);
    if at is Some && at->0.space is Some {
        at->0.space
    } else if active_space is Some && shows_space(screens, active_space->0) {
        active_space
    } else {
        first_space_of(screens)
    }
}

/// The space of a visible window: the one that the window server puts it in if it shows, else
/// that of the screen its center is on.
pub open spec fn window_space(screens: Seq<ScreenInfo>, w: VisibleWindow) -> Option<SpaceId> {
    if w.space is Some && shows_space(screens, w.space->0) {
        w.space
    } else {
        match first_at(screens, w.under_center@) {
            Some(s) => s.space,
            None => None,
        }
    }
}

/// The spaces of the visible windows.
pub open spec fn window_spaces(screens: Seq<ScreenInfo>, windows: Seq<VisibleWindow>) -> Map<
    WindowServerId,
    SpaceId,
>
    decreases windows.len(),
{
    if windows.len() == 0 {
        Map::empty()
    } else {
        let head = window_spaces(screens, windows.drop_last());
        match window_space(screens, windows.last()) {
            Some(space) => head.insert(windows.last().id, space),
            None => head,
        }
    }
}

/// The entries of `a` that `b` does not have.
pub open spec fn changes(a: Map<WindowServerId, SpaceId>, b: Map<WindowServerId, SpaceId>) -> Map<
    WindowServerId,
    SpaceId,
> {
    Map::new(
        |k: WindowServerId| a.dom().contains(k) && !(b.dom().contains(k) && b[k] == a[k]),
        |k: WindowServerId| a[k],
    )
}

/// Whether no user space shows on two screens.
pub open spec fn valid_for_commit(screens: Seq<ScreenInfo>, fullscreen: Set<SpaceId>) -> bool {
    forall|i: int, j: int|
        0 <= i < j < screens.len() && (#[trigger] screens[i]).space is Some && !fullscreen.contains(
            screens[i].space->0,
        ) ==> screens[i].space != (#[trigger] screens[j]).space
}

pub fn screen_spaces(screens: &Vec<ScreenInfo>) -> (r: Vec<Option<SpaceId>>)
    ensures
        r@ == spaces_of(screens@),
{
    let mut r: Vec<Option<SpaceId>> = Vec::new();
    let mut i: usize = 0;
    while i < screens.len()
        invariant
            i <= screens@.len(),
            r@ == spaces_of(screens@.take(i as int)),
        decreases screens@.len() - i,
    {
        r.push(screens[i].space);
        assert(spaces_of(screens@.take(i + 1)) =~= spaces_of(screens@.take(i as int)).push(
            screens@[i as int].space,
        ));
        i = i + 1;
    }
    assert(screens@.take(i as int) =~= screens@);
    r
}

fn find_display(screens: &Vec<ScreenInfo>, display: DisplayId) -> (r: Option<ScreenInfo>)
    ensures
        r == screen_of_display(screens@, display),
{
    let mut r: Option<ScreenInfo> = None;
    let mut i: usize = 0;
    while i < screens.len()
        invariant
            i <= screens@.len(),
            r == screen_of_display(screens@.take(i as int), display),
        decreases screens@.len() - i,
    {
        assert(screens@.take(i + 1).drop_last() =~= screens@.take(i as int));
        if screens[i].display_uuid == display {
            r = Some(screens[i]);
        }
        i = i + 1;
    }
    assert(screens@.take(i as int) =~= screens@);
    r
}

fn find_id(screens: &Vec<ScreenInfo>, id: u32) -> (r: Option<ScreenInfo>)
    ensures
        r == screen_of_id(screens@, id),
{
    let mut r: Option<ScreenInfo> = None;
    let mut i: usize = 0;
    while i < screens.len()
        invariant
            i <= screens@.len(),
            r == screen_of_id(screens@.take(i as int), id),
        decreases screens@.len() - i,
    {
        assert(screens@.take(i + 1).drop_last() =~= screens@.take(i as int));
        if screens[i].id == id {
            r = Some(screens[i]);
        }
        i = i + 1;
    }
    assert(screens@.take(i as int) =~= screens@);
    r
}

fn find_owner(screens: &Vec<ScreenInfo>, fullscreen: &VecSet<SpaceId>, space: SpaceId) -> (r:
    Option<DisplayId>)
    ensures
        r == owner_of_space(screens@, fullscreen@, space),
{
    let is_fullscreen: bool = fullscreen.contains(&space);
    let mut r: Option<DisplayId> = None;
    let mut i: usize = 0;
    while i < screens.len()
        invariant
            i <= screens@.len(),
            is_fullscreen == fullscreen@.contains(space),
            r == owner_of_space(screens@.take(i as int), fullscreen@, space),
        decreases screens@.len() - i,
    {
        assert(screens@.take(i + 1).drop_last() =~= screens@.take(i as int));
        let s = screens[i];
        if s.display_uuid != 0 && s.space == Some(space) && !is_fullscreen {
            r = Some(s.display_uuid);
        }
        i = i + 1;
    }
    assert(screens@.take(i as int) =~= screens@);
    r
}

fn screen_enters_fullscreen(
    previous: &Vec<ScreenInfo>,
    next: &ScreenInfo,
    fullscreen: &VecSet<SpaceId>,
) -> (r: bool)
    ensures
        r == enters_fullscreen(previous@, *next, fullscreen@),
{
    if next.display_uuid == 0 {
        return false;
    }
    match next.space {
        Some(space) => {
            if !fullscreen.contains(&space) {
                return false;
            }
        },
        None => {
            return false;
        },
    }
    match find_display(previous, next.display_uuid) {
        Some(before) => match before.space {
            Some(space) => !fullscreen.contains(&space),
            None => false,
        },
        None => false,
    }
}

fn screen_kept_space(
    previous: &Vec<ScreenInfo>,
    next: &ScreenInfo,
    fullscreen: &VecSet<SpaceId>,
) -> (r: Option<SpaceId>)
    ensures
        r == kept_space(previous@, *next, fullscreen@),
{
    if next.display_uuid == 0 {
        return next.space;
    }
    let before = match find_display(previous, next.display_uuid) {
        Some(before) => before,
        None => {
            return next.space;
        },
    };
    match (before.space, next.space) {
        (Some(old_space), Some(new_space)) => {
            if fullscreen.contains(&new_space) || fullscreen.contains(&old_space) || old_space
                == new_space {
                return next.space;
            }
            match find_owner(previous, fullscreen, new_space) {
                Some(owner) => {
                    if owner != next.display_uuid {
                        Some(old_space)
                    } else {
                        next.space
                    }
                },
                None => next.space,
            }
        },
        _ => next.space,
    }
}

/// While a display goes fullscreen, the others keep the user spaces that they showed.
pub fn preserve_user_spaces_during_fullscreen_transition(
    previous: &Vec<ScreenInfo>,
    screens: &Vec<ScreenInfo>,
    fullscreen: &VecSet<SpaceId>,
) -> (r: Vec<ScreenInfo>)
    ensures
        r@ == preserved(previous@, screens@, fullscreen@),
{
    let mut entering: bool = false;
    let mut i: usize = 0;
    while i < screens.len()
        invariant
            i <= screens@.len(),
            entering <==> exists|j: int|
                0 <= j < i && enters_fullscreen(previous@, #[trigger] screens@[j], fullscreen@),
        decreases screens@.len() - i,
    {
        if screen_enters_fullscreen(previous, &screens[i], fullscreen) {
            entering = true;
            assert(enters_fullscreen(previous@, screens@[i as int], fullscreen@));
        }
        i = i + 1;
    }
    if !entering {
        return crate::collections::copied(screens);
    }
    let ghost f = |s: ScreenInfo|
        ScreenInfo { space: kept_space(previous@, s, fullscreen@), ..s };
    let mut r: Vec<ScreenInfo> = Vec::new();
    let mut k: usize = 0;
    while k < screens.len()
        invariant
            k <= screens@.len(),
            f == (|s: ScreenInfo|
                ScreenInfo { space: kept_space(previous@, s, fullscreen@), ..s }),
            r@ == screens@.take(k as int).map_values(f),
        decreases screens@.len() - k,
    {
        let s = screens[k];
        let next = ScreenInfo {
            id: s.id,
            display_uuid: s.display_uuid,
            frame: s.frame,
            width: s.width,
            height: s.height,
            space: screen_kept_space(previous, &s, fullscreen),
        };
        r.push(next);
        assert(screens@.take(k + 1).map_values(f) =~= screens@.take(k as int).map_values(f).push(
            f(s),
        ));
        k = k + 1;
    }
    assert(screens@.take(k as int) =~= screens@);
    r
}

/// Fullscreen spaces are not managed.
pub fn null_fullscreen_spaces(screens: &Vec<ScreenInfo>, fullscreen: &VecSet<SpaceId>) -> (r: Vec<
    ScreenInfo,
>)
    ensures
        r@ == without_fullscreen(screens@, fullscreen@),
{
    let mut r: Vec<ScreenInfo> = Vec::new();
    let mut i: usize = 0;
    while i < screens.len()
        invariant
            i <= screens@.len(),
            r@ == without_fullscreen(screens@.take(i as int), fullscreen@),
        decreases screens@.len() - i,
    {
        let s = screens[i];
        let is_fullscreen: bool = match s.space {
            Some(space) => fullscreen.contains(&space),
            None => false,
        };
        let next = ScreenInfo {
            id: s.id,
            display_uuid: s.display_uuid,
            frame: s.frame,
            width: s.width,
            height: s.height,
            space: if is_fullscreen {
                None
            } else {
                s.space
            },
        };
        r.push(next);
        assert(without_fullscreen(screens@.take(i + 1), fullscreen@) =~= without_fullscreen(
            screens@.take(i as int),
            fullscreen@,
        ).push(next));
        i = i + 1;
    }
    assert(screens@.take(i as int) =~= screens@);
    r
}

fn display_row(screens: &Vec<ScreenInfo>) -> (r: Vec<DisplayId>)
    ensures
        r@ == displays_of(screens@),
{
    let mut r: Vec<DisplayId> = Vec::new();
    let mut i: usize = 0;
    while i < screens.len()
        invariant
            i <= screens@.len(),
            r@ == displays_of(screens@.take(i as int)),
        decreases screens@.len() - i,
    {
        r.push(screens[i].display_uuid);
        assert(displays_of(screens@.take(i + 1)) =~= displays_of(screens@.take(i as int)).push(
            screens@[i as int].display_uuid,
        ));
        i = i + 1;
    }
    assert(screens@.take(i as int) =~= screens@);
    r
}

/// Whether every member of `a` is in `b`.
fn all_in(a: &Vec<DisplayId>, b: &Vec<DisplayId>) -> (r: bool)
    ensures
        r == forall|d: DisplayId| #[trigger] a@.contains(d) ==> b@.contains(d),
{
    let mut i: usize = 0;
    while i < a.len()
        invariant
            i <= a@.len(),
            forall|j: int| 0 <= j < i ==> b@.contains(#[trigger] a@[j]),
        decreases a@.len() - i,
    {
        if !contains(b, &a[i]) {
            assert(a@.contains(a@[i as int]));
            return false;
        }
        i = i + 1;
    }
    assert forall|d: DisplayId| #[trigger] a@.contains(d) implies b@.contains(d) by {
        let j = a@.index_of(d);
        assert(a@[j] == d);
    }
    true
}

/// Whether the set of displays changed.
pub fn display_set_changed(previous: &Vec<ScreenInfo>, screens: &Vec<ScreenInfo>) -> (r: bool)
    ensures
        r == displays_changed(previous@, screens@),
{
    let a = display_row(previous);
    let b = display_row(screens);
    let ab = all_in(&a, &b);
    let ba = all_in(&b, &a);
    proof {
        if !ab {
            let d = choose|d: DisplayId| #[trigger] a@.contains(d) && !b@.contains(d);
            assert(displays_of(previous@).contains(d) != displays_of(screens@).contains(d));
        }
        if !ba {
            let d = choose|d: DisplayId| #[trigger] b@.contains(d) && !a@.contains(d);
            assert(displays_of(previous@).contains(d) != displays_of(screens@).contains(d));
        }
    }
    !(ab && ba)
}

fn same_row(a: &Vec<DisplayId>, b: &Vec<DisplayId>) -> (r: bool)
    ensures
        r == (a@ == b@),
{
    if a.len() != b.len() {
        return false;
    }
    let mut i: usize = 0;
    while i < a.len()
        invariant
            i <= a@.len(),
            a@.len() == b@.len(),
            forall|j: int| 0 <= j < i ==> a@[j] == b@[j],
        decreases a@.len() - i,
    {
        if a[i] != b[i] {
            return false;
        }
        i = i + 1;
    }
    assert(a@ =~= b@);
    true
}

/// Whether the displays, their order or their places changed.
pub fn has_topology_changed(previous: &Vec<ScreenInfo>, screens: &Vec<ScreenInfo>) -> (r: bool)
    ensures
        r == topology_changed(previous@, screens@),
{
    if display_set_changed(previous, screens) {
        return true;
    }
    if !same_row(&display_row(previous), &display_row(screens)) {
        return true;
    }
    let mut i: usize = 0;
    while i < screens.len()
        invariant
            i <= screens@.len(),
            forall|j: int| 0 <= j < i ==> !moved(previous@, #[trigger] screens@[j]),
        decreases screens@.len() - i,
    {
        match find_display(previous, screens[i].display_uuid) {
            Some(before) => {
                if before.frame != screens[i].frame {
                    assert(moved(previous@, screens@[i as int]));
                    return true;
                }
            },
            None => {},
        }
        i = i + 1;
    }
    false
}

/// The spaces on new or resized screens.
pub fn find_resized_spaces(previous: &Vec<ScreenInfo>, screens: &Vec<ScreenInfo>) -> (r: Vec<
    ResizedSpace,
>)
    ensures
        r@ == resized_spaces(previous@, screens@),
{
    let mut r: Vec<ResizedSpace> = Vec::new();
    let mut i: usize = 0;
    while i < screens.len()
        invariant
            i <= screens@.len(),
            r@ == resized_spaces(previous@, screens@.take(i as int)),
        decreases screens@.len() - i,
    {
        assert(screens@.take(i + 1).drop_last() =~= screens@.take(i as int));
        let s = screens[i];
        let is_resized: bool = match find_id(previous, s.id) {
            Some(before) => before.width != s.width || before.height != s.height,
            None => true,
        };
        match s.space {
            Some(space) => {
                if is_resized {
                    r.push(ResizedSpace { space, frame: s.frame });
                }
            },
            None => {},
        }
        i = i + 1;
    }
    assert(screens@.take(i as int) =~= screens@);
    r
}

/// Whether no space shows on two screens.
pub fn has_distinct_spaces(screens: &Vec<ScreenInfo>) -> (r: bool)
    ensures
        r == distinct_spaces(screens@),
{
    let mut i: usize = 0;
    while i < screens.len()
        invariant
            i <= screens@.len(),
            forall|a: int, b: int|
                0 <= a < b < screens@.len() && a < i && (#[trigger] screens@[a]).space is Some
                    ==> screens@[a].space != (#[trigger] screens@[b]).space,
        decreases screens@.len() - i,
    {
        if screens[i].space.is_some() {
            let mut j: usize = i + 1;
            while j < screens.len()
                invariant
                    i < j <= screens@.len(),
                    screens@[i as int].space is Some,
                    forall|b: int|
                        i < b < j ==> screens@[i as int].space != (#[trigger] screens@[b]).space,
                decreases screens@.len() - j,
            {
                if screens[i].space == screens[j].space {
                    assert(screens@[i as int].space == screens@[j as int].space);
                    return false;
                }
                j = j + 1;
            }
        }
        i = i + 1;
    }
    true
}

/// Whether every screen shows a space.
pub fn is_complete(screens: &Vec<ScreenInfo>) -> (r: bool)
    ensures
        r == complete(screens@),
{
    let mut i: usize = 0;
    while i < screens.len()
        invariant
            i <= screens@.len(),
            forall|j: int| 0 <= j < i ==> (#[trigger] screens@[j]).space is Some,
        decreases screens@.len() - i,
    {
        if screens[i].space.is_none() {
            assert(screens@[i as int].space is None);
            return false;
        }
        i = i + 1;
    }
    true
}

fn was_seen(screens: &Vec<ScreenInfo>, n: usize, display: DisplayId) -> (r: bool)
    requires
        n <= screens@.len(),
    ensures
        r == seen_before(screens@, n as int, display),
{
    let mut i: usize = 0;
    while i < n
        invariant
            i <= n <= screens@.len(),
            forall|j: int|
                0 <= j < i ==> !((#[trigger] screens@[j]).display_uuid == display
                    && screens@[j].space is Some),
        decreases n - i,
    {
        if screens[i].display_uuid == display && screens[i].space.is_some() {
            assert(screens@[i as int].display_uuid == display);
            return true;
        }
        i = i + 1;
    }
    false
}

/// Brings the last user space of each display up to date; the result lists the spaces that took
/// the place of others, if that may happen at all.
pub fn compute_space_remaps(
    last_user_space_by_display: &mut VecMap<DisplayId, SpaceId>,
    screens: &Vec<ScreenInfo>,
    allow_space_remap: bool,
) -> (r: Vec<SpaceRemap>)
    ensures
        final(last_user_space_by_display)@ == last_user_spaces(
            old(last_user_space_by_display)@,
            screens@,
        ),
        r@ == (if allow_space_remap {
            remaps(old(last_user_space_by_display)@, screens@)
        } else {
            Seq::empty()
        }),
{
    let ghost before = last_user_space_by_display@;
    let mut r: Vec<SpaceRemap> = Vec::new();
    let mut i: usize = 0;
    while i < screens.len()
        invariant
            i <= screens@.len(),
            last_user_space_by_display@ == last_user_spaces(before, screens@.take(i as int)),
            r@ == (if allow_space_remap {
                remaps(before, screens@.take(i as int))
            } else {
                Seq::empty()
            }),
            forall|d: DisplayId|
                !#[trigger] seen_before(screens@, i as int, d) ==> (
                last_user_space_by_display@.dom().contains(d) == before.dom().contains(d) && (
                before.dom().contains(d) ==> last_user_space_by_display@[d] == before[d])),
        decreases screens@.len() - i,
    {
        let s = screens[i];
        let ghost head = screens@.take(i + 1);
        proof {
            assert(head.drop_last() =~= screens@.take(i as int));
            assert(head.last() == s);
            assert forall|d: DisplayId|
                seen_before(screens@, i as int, d) == seen_before(head, head.len() - 1, d) by {
                if seen_before(screens@, i as int, d) {
                    let j = choose|j: int|
                        0 <= j < i && (#[trigger] screens@[j]).display_uuid == d && screens@[j].space
                            is Some;
                    assert(head[j] == screens@[j]);
                }
                if seen_before(head, head.len() - 1, d) {
                    let j = choose|j: int|
                        0 <= j < i && (#[trigger] head[j]).display_uuid == d && head[j].space
                            is Some;
                    assert(head[j] == screens@[j]);
                }
            }
        }
        let fresh: bool = s.display_uuid != 0 && !was_seen(screens, i, s.display_uuid);
        match s.space {
            Some(space) => {
                if fresh {
                    if allow_space_remap {
                        match last_user_space_by_display.get(&s.display_uuid) {
                            Some(previous) => {
                                if *previous != space {
                                    r.push(SpaceRemap { previous: *previous, space });
                                }
                            },
                            None => {},
                        }
                    }
                    let _ = last_user_space_by_display.insert(s.display_uuid, space);
                }
            },
            None => {},
        }
        proof {
            assert forall|d: DisplayId| !#[trigger] seen_before(screens@, i + 1, d) implies (
            last_user_space_by_display@.dom().contains(d) == before.dom().contains(d) && (
            before.dom().contains(d) ==> last_user_space_by_display@[d] == before[d])) by {
                if seen_before(screens@, i as int, d) {
                    let j = choose|j: int|
                        0 <= j < i && (#[trigger] screens@[j]).display_uuid == d && screens@[j].space
                            is Some;
                    assert(0 <= j < i + 1 && screens@[j].display_uuid == d);
                }
                if s.space is Some && s.display_uuid == d {
                    assert(screens@[i as int].display_uuid == d);
                }
            }
        }
        i = i + 1;
    }
    assert(screens@.take(i as int) =~= screens@);
    r
}

fn any_shows(screens: &Vec<ScreenInfo>, space: SpaceId) -> (r: bool)
    ensures
        r == shows_space(screens@, space),
{
    let mut i: usize = 0;
    while i < screens.len()
        invariant
            i <= screens@.len(),
            forall|j: int| 0 <= j < i ==> (#[trigger] screens@[j]).space != Some(space),
        decreases screens@.len() - i,
    {
        if screens[i].space == Some(space) {
            assert(screens@[i as int].space == Some(space));
            return true;
        }
        i = i + 1;
    }
    false
}

/// The first space that shows.
pub fn first_space(screens: &Vec<ScreenInfo>) -> (r: Option<SpaceId>)
    ensures
        r == first_space_of(screens@),
{
    let mut r: Option<SpaceId> = None;
    let mut i: usize = 0;
    while i < screens.len()
        invariant
            i <= screens@.len(),
            r == first_space_of(screens@.take(i as int)),
        decreases screens@.len() - i,
    {
        assert(screens@.take(i + 1).drop_last() =~= screens@.take(i as int));
        if r.is_none() {
            r = screens[i].space;
        }
        i = i + 1;
    }
    assert(screens@.take(i as int) =~= screens@);
    r
}

fn find_at(screens: &Vec<ScreenInfo>, frames: &Vec<Frame>) -> (r: Option<ScreenInfo>)
    ensures
        r == first_at(screens@, frames@),
{
    let mut r: Option<ScreenInfo> = None;
    let mut i: usize = 0;
    while i < screens.len()
        invariant
            i <= screens@.len(),
            r == first_at(screens@.take(i as int), frames@),
        decreases screens@.len() - i,
    {
        assert(screens@.take(i + 1).drop_last() =~= screens@.take(i as int));
        if r.is_none() && contains(frames, &screens[i].frame) {
            r = Some(screens[i]);
        }
        i = i + 1;
    }
    assert(screens@.take(i as int) =~= screens@);
    r
}

/// The space that commands go to.
pub fn resolve_command_space(
    screens: &Vec<ScreenInfo>,
    under_cursor: &Vec<Frame>,
    active_space: Option<SpaceId>,
) -> (r: Option<SpaceId>)
    ensures
        r == command_space(screens@, under_cursor@, active_space),
{
    match find_at(screens, under_cursor) {
        Some(at) => {
            if at.space.is_some() {
                return at.space;
            }
        },
        None => {},
    }
    match active_space {
        Some(space) => {
            if any_shows(screens, space) {
                return Some(space);
            }
        },
        None => {},
    }
    first_space(screens)
}

/// The space of a visible window.
pub fn resolve_space_for_window_info(screens: &Vec<ScreenInfo>, w: &VisibleWindow) -> (r: Option<
    SpaceId,
>)
    ensures
        r == window_space(screens@, *w),
{
    match w.space {
        Some(space) => {
            if any_shows(screens, space) {
                return Some(space);
            }
        },
        None => {},
    }
    match find_at(screens, &w.under_center) {
        Some(s) => s.space,
        None => None,
    }
}

/// The spaces of the windows that show on the screens.
pub fn visible_window_spaces_for_screens(
    screens: &Vec<ScreenInfo>,
    windows: &Vec<VisibleWindow>,
) -> (r: VecMap<WindowServerId, SpaceId>)
    ensures
        r@ == window_spaces(screens@, windows@),
{
    let mut r: VecMap<WindowServerId, SpaceId> = VecMap::new();
    let mut i: usize = 0;
    while i < windows.len()
        invariant
            i <= windows@.len(),
            r@ == window_spaces(screens@, windows@.take(i as int)),
        decreases windows@.len() - i,
    {
        assert(windows@.take(i + 1).drop_last() =~= windows@.take(i as int));
        match resolve_space_for_window_info(screens, &windows[i]) {
            Some(space) => {
                let _ = r.insert(windows[i].id, space);
            },
            None => {},
        }
        i = i + 1;
    }
    assert(windows@.take(i as int) =~= windows@);
    r
}

/// The entries of `a` that `b` does not have.
pub fn changed_entries(
    a: &VecMap<WindowServerId, SpaceId>,
    b: &VecMap<WindowServerId, SpaceId>,
) -> (r: VecMap<WindowServerId, SpaceId>)
    ensures
        r@ == changes(a@, b@),
{
    let mut r: VecMap<WindowServerId, SpaceId> = VecMap::new();
    let keys = a.keys();
    let mut i: usize = 0;
    while i < keys.len()
        invariant
            i <= keys@.len(),
            keys@.no_duplicates(),
            forall|k: WindowServerId| keys@.contains(k) <==> a@.dom().contains(k),
            r@ =~= Map::new(
                |k: WindowServerId|
                    keys@.take(i as int).contains(k) && !(b@.dom().contains(k) && b@[k] == a@[k]),
                |k: WindowServerId| a@[k],
            ),
        decreases keys@.len() - i,
    {
        let id: WindowServerId = keys[i];
        proof {
            crate::collections::lemma_take_next(keys@, i as int);
            assert(keys@.contains(keys@[i as int]));
        }
        match a.get(&id) {
            Some(space) => {
                let same: bool = match b.get(&id) {
                    Some(other) => *other == *space,
                    None => false,
                };
                if !same {
                    let _ = r.insert(id, *space);
                }
            },
            None => {},
        }
        i = i + 1;
    }
    assert(keys@.take(i as int) =~= keys@);
    r
}

/// Whether no user space shows on two screens.
pub fn screen_snapshot_is_valid_for_commit(
    screens: &Vec<ScreenInfo>,
    fullscreen: &VecSet<SpaceId>,
) -> (r: bool)
    ensures
        r == valid_for_commit(screens@, fullscreen@),
{
    let mut i: usize = 0;
    while i < screens.len()
        invariant
            i <= screens@.len(),
            forall|a: int, b: int|
                0 <= a < b < screens@.len() && a < i && (#[trigger] screens@[a]).space is Some
                    && !fullscreen@.contains(screens@[a].space->0) ==> screens@[a].space != (
                #[trigger] screens@[b]).space,
        decreases screens@.len() - i,
    {
        let counts: bool = match screens[i].space {
            Some(space) => !fullscreen.contains(&space),
            None => false,
        };
        if counts {
            let mut j: usize = i + 1;
            while j < screens.len()
                invariant
                    i < j <= screens@.len(),
                    screens@[i as int].space is Some,
                    !fullscreen@.contains(screens@[i as int].space->0),
                    forall|b: int|
                        i < b < j ==> screens@[i as int].space != (#[trigger] screens@[b]).space,
                decreases screens@.len() - j,
            {
                if screens[i].space == screens[j].space {
                    assert(screens@[i as int].space == screens@[j as int].space);
                    return false;
                }
                j = j + 1;
            }
        }
        i = i + 1;
    }
    true
}

/// No fullscreen space is ever passed on.
pub proof fn fullscreen_spaces_are_left_out(
    screens: Seq<ScreenInfo>,
    fullscreen: Set<SpaceId>,
    space: SpaceId,
)
    requires
        fullscreen.contains(space),
    ensures
        !shows_space(without_fullscreen(screens, fullscreen), space),
{
    assert forall|i: int| 0 <= i < screens.len() implies (#[trigger] without_fullscreen(
        screens,
        fullscreen,
    )[i]).space != Some(space) by {}
}

/// Rewriting spaces changes neither the number of screens nor which display each is.
pub proof fn rewriting_spaces_keeps_the_displays(
    previous: Seq<ScreenInfo>,
    screens: Seq<ScreenInfo>,
    fullscreen: Set<SpaceId>,
)
    ensures
        displays_of(
            without_fullscreen(preserved(previous, screens, fullscreen), fullscreen),
        ) == displays_of(screens),
{
    assert(displays_of(
        without_fullscreen(preserved(previous, screens, fullscreen), fullscreen),
    ) =~= displays_of(screens));
}

/// The same screens again are no change of topology.
pub proof fn the_same_screens_are_no_change(screens: Seq<ScreenInfo>)
    requires
        forall|i: int, j: int|
            0 <= i < j < screens.len() ==> (#[trigger] screens[i]).display_uuid != (
            #[trigger] screens[j]).display_uuid,
    ensures
        !topology_changed(screens, screens),
{
    assert forall|i: int| 0 <= i < screens.len() implies !moved(screens, #[trigger] screens[i]) by {
        lemma_screen_of_display(screens, i);
    }
}

proof fn lemma_screen_of_display(screens: Seq<ScreenInfo>, i: int)
    requires
        0 <= i < screens.len(),
        forall|a: int, b: int|
            0 <= a < b < screens.len() ==> (#[trigger] screens[a]).display_uuid != (
            #[trigger] screens[b]).display_uuid,
    ensures
        screen_of_display(screens, screens[i].display_uuid) == Some(screens[i]),
    decreases screens.len(),
{
    if i < screens.len() - 1 {
        assert(screens[i].display_uuid != screens[screens.len() - 1].display_uuid);
        let head = screens.drop_last();
        assert(head[i] == screens[i]);
        lemma_screen_of_display(head, i);
    }
}

/// What changed between two states of the visible windows tells them apart: a window that neither
/// appeared nor disappeared is where it was.
pub proof fn unchanged_windows_stay_where_they_were(
    before: Map<WindowServerId, SpaceId>,
    after: Map<WindowServerId, SpaceId>,
    id: WindowServerId,
)
    requires
        !changes(after, before).dom().contains(id),
        !changes(before, after).dom().contains(id),
    ensures
        before.dom().contains(id) == after.dom().contains(id),
        after.dom().contains(id) ==> before[id] == after[id],
{
}

/// A window that moved from one space to another both disappeared and appeared.
pub proof fn a_moved_window_disappears_and_appears(
    before: Map<WindowServerId, SpaceId>,
    after: Map<WindowServerId, SpaceId>,
    id: WindowServerId,
)
    requires
        before.dom().contains(id),
        after.dom().contains(id),
        before[id] != after[id],
    ensures
        changes(after, before).dom().contains(id) && changes(after, before)[id] == after[id],
        changes(before, after).dom().contains(id) && changes(before, after)[id] == before[id],
{
}

/// The screen that a display or a number names is one that was given, and no later one has that
/// name; none is named only if there is none.
pub proof fn screens_are_found_by_their_names(screens: Seq<ScreenInfo>, display: DisplayId, id: u32)
    ensures
        match screen_of_display(screens, display) {
            Some(s) => s.display_uuid == display && exists|i: int|
                0 <= i < screens.len() && #[trigger] screens[i] == s && forall|j: int|
                    i < j < screens.len() ==> (#[trigger] screens[j]).display_uuid != display,
            None => forall|j: int|
                0 <= j < screens.len() ==> (#[trigger] screens[j]).display_uuid != display,
        },
        match screen_of_id(screens, id) {
            Some(s) => s.id == id && exists|i: int|
                0 <= i < screens.len() && #[trigger] screens[i] == s && forall|j: int|
                    i < j < screens.len() ==> (#[trigger] screens[j]).id != id,
            None => forall|j: int| 0 <= j < screens.len() ==> (#[trigger] screens[j]).id != id,
        },
    decreases screens.len(),
{
    if screens.len() > 0 {
        let head = screens.drop_last();
        screens_are_found_by_their_names(head, display, id);
        let n = screens.len() - 1;
        assert(screens[n] == screens.last());
        assert(forall|j: int| 0 <= j < n ==> head[j] == screens[j]);
        if screens.last().display_uuid != display {
            match screen_of_display(head, display) {
                Some(s) => {
                    let i = choose|i: int|
                        0 <= i < head.len() && #[trigger] head[i] == s && forall|j: int|
                            i < j < head.len() ==> (#[trigger] head[j]).display_uuid != display;
                    assert(screens[i] == s);
                    assert forall|j: int| i < j < screens.len() implies (
                    #[trigger] screens[j]).display_uuid != display by {
                        if j < n {
                            assert(head[j].display_uuid != display);
                        }
                    }
                },
                None => {
                    assert forall|j: int| 0 <= j < screens.len() implies (
                    #[trigger] screens[j]).display_uuid != display by {
                        if j < n {
                            assert(head[j].display_uuid != display);
                        }
                    }
                },
            }
        }
        if screens.last().id != id {
            match screen_of_id(head, id) {
                Some(s) => {
                    let i = choose|i: int|
                        0 <= i < head.len() && #[trigger] head[i] == s && forall|j: int|
                            i < j < head.len() ==> (#[trigger] head[j]).id != id;
                    assert(screens[i] == s);
                    assert forall|j: int| i < j < screens.len() implies (
                    #[trigger] screens[j]).id != id by {
                        if j < n {
                            assert(head[j].id != id);
                        }
                    }
                },
                None => {
                    assert forall|j: int| 0 <= j < screens.len() implies (
                    #[trigger] screens[j]).id != id by {
                        if j < n {
                            assert(head[j].id != id);
                        }
                    }
                },
            }
        }
    }
}

/// Whether a screen that was there before has this number and this size.
pub open spec fn had_this_size(previous: Seq<ScreenInfo>, s: ScreenInfo) -> bool {
    exists|k: int|
        0 <= k < previous.len() && (#[trigger] previous[k]).id == s.id && previous[k].width
            == s.width && previous[k].height == s.height
}

/// Exactly the spaces on screens that are new or have another size are reported as resized, each
/// with the frame that its screen has now.
pub proof fn resized_spaces_carry_their_new_frames(
    previous: Seq<ScreenInfo>,
    screens: Seq<ScreenInfo>,
    space: SpaceId,
    frame: Frame,
)
    requires
        forall|i: int, j: int|
            0 <= i < j < previous.len() ==> (#[trigger] previous[i]).id != (
            #[trigger] previous[j]).id,
    ensures
        resized_spaces(previous, screens).contains(ResizedSpace { space, frame }) <==> exists|i: int|
            0 <= i < screens.len() && (#[trigger] screens[i]).space == Some(space)
                && screens[i].frame == frame && !had_this_size(previous, screens[i]),
    decreases screens.len(),
{
    let r = ResizedSpace { space, frame };
    if screens.len() > 0 {
        let head = screens.drop_last();
        let s = screens.last();
        resized_spaces_carry_their_new_frames(previous, head, space, frame);
        screens_are_found_by_their_names(previous, 0, s.id);
        match screen_of_id(previous, s.id) {
            Some(b) => {
                let k = choose|k: int| 0 <= k < previous.len() && #[trigger] previous[k] == b;
                if had_this_size(previous, s) {
                    let m = choose|m: int|
                        0 <= m < previous.len() && (#[trigger] previous[m]).id == s.id
                            && previous[m].width == s.width && previous[m].height == s.height;
                    assert(m == k) by {
                        if m < k {
                            assert(previous[m].id != previous[k].id);
                        } else if k < m {
                            assert(previous[k].id != previous[m].id);
                        }
                    }
                } else {
                    assert(previous[k].id == s.id);
                }
            },
            None => {},
        }
        assert(resized(previous, s) == !had_this_size(previous, s));
        let before = resized_spaces(previous, head);
        if s.space is Some {
            crate::collections::lemma_push_contains(
                before,
                ResizedSpace { space: s.space->0, frame: s.frame },
            );
        }
        if exists|i: int|
            0 <= i < head.len() && (#[trigger] head[i]).space == Some(space) && head[i].frame
                == frame && !had_this_size(previous, head[i]) {
            let i = choose|i: int|
                0 <= i < head.len() && (#[trigger] head[i]).space == Some(space) && head[i].frame
                    == frame && !had_this_size(previous, head[i]);
            assert(screens[i].space == Some(space));
        }
        if exists|i: int|
            0 <= i < screens.len() && (#[trigger] screens[i]).space == Some(space)
                && screens[i].frame == frame && !had_this_size(previous, screens[i]) {
            let i = choose|i: int|
                0 <= i < screens.len() && (#[trigger] screens[i]).space == Some(space)
                    && screens[i].frame == frame && !had_this_size(previous, screens[i]);
            if i < head.len() {
                assert(head[i].space == Some(space));
            }
        }
        if s.space == Some(space) && s.frame == frame && !had_this_size(previous, s) {
            assert(screens[screens.len() - 1].space == Some(space));
        }
    }
}

/// However the screens were numbered before, a space that is reported as resized shows on a screen
/// with the frame that is reported.
pub proof fn reported_frames_are_those_of_screens(
    previous: Seq<ScreenInfo>,
    screens: Seq<ScreenInfo>,
    i: int,
) -> (k: int)
    requires
        0 <= i < resized_spaces(previous, screens).len(),
    ensures
        0 <= k < screens.len(),
        screens[k].space == Some(resized_spaces(previous, screens)[i].space),
        screens[k].frame == resized_spaces(previous, screens)[i].frame,
    decreases screens.len(),
{
    let head = resized_spaces(previous, screens.drop_last());
    if i < head.len() {
        let k = reported_frames_are_those_of_screens(previous, screens.drop_last(), i);
        assert(screens.drop_last()[k] == screens[k]);
        k
    } else {
        screens.len() - 1
    }
}

/// The first space that shows is that of a screen before which none shows a space.
pub proof fn the_first_space_is_first(screens: Seq<ScreenInfo>, i: int)
    requires
        0 <= i < screens.len(),
        screens[i].space is Some,
        forall|j: int| 0 <= j < i ==> (#[trigger] screens[j]).space is None,
    ensures
        first_space_of(screens) == screens[i].space,
    decreases screens.len(),
{
    let head = screens.drop_last();
    if i < head.len() {
        assert(forall|j: int| 0 <= j < i ==> head[j] == screens[j]);
        the_first_space_is_first(head, i);
    } else {
        assert forall|j: int| 0 <= j < head.len() implies (#[trigger] head[j]).space is None by {
            assert(head[j] == screens[j]);
        }
        lemma_no_space(head);
    }
}

proof fn lemma_no_space(screens: Seq<ScreenInfo>)
    requires
        forall|j: int| 0 <= j < screens.len() ==> (#[trigger] screens[j]).space is None,
    ensures
        first_space_of(screens) is None,
    decreases screens.len(),
{
    if screens.len() > 0 {
        let head = screens.drop_last();
        assert(forall|j: int| 0 <= j < head.len() ==> head[j] == screens[j]);
        lemma_no_space(head);
        assert(screens[screens.len() - 1].space is None);
    }
}

/// Of the screens at a place the first one counts, and there is none only if none lies there.
pub proof fn the_first_screen_at_a_place_counts(screens: Seq<ScreenInfo>, frames: Seq<Frame>)
    ensures
        match first_at(screens, frames) {
            Some(s) => exists|i: int|
                0 <= i < screens.len() && #[trigger] screens[i] == s && frames.contains(s.frame)
                    && forall|j: int|
                    0 <= j < i ==> !frames.contains((#[trigger] screens[j]).frame),
            None => forall|j: int|
                0 <= j < screens.len() ==> !frames.contains((#[trigger] screens[j]).frame),
        },
    decreases screens.len(),
{
    if screens.len() > 0 {
        let head = screens.drop_last();
        the_first_screen_at_a_place_counts(head, frames);
        assert(forall|j: int| 0 <= j < head.len() ==> head[j] == screens[j]);
        match first_at(head, frames) {
            Some(s) => {
                let i = choose|i: int|
                    0 <= i < head.len() && #[trigger] head[i] == s && frames.contains(s.frame)
                        && forall|j: int|
                        0 <= j < i ==> !frames.contains((#[trigger] head[j]).frame);
                assert(screens[i] == s);
                assert forall|j: int| 0 <= j < i implies !frames.contains(
                    (#[trigger] screens[j]).frame,
                ) by {
                    assert(!frames.contains(head[j].frame));
                }
            },
            None => {
                let n = screens.len() - 1;
                assert forall|j: int| 0 <= j < n implies !frames.contains(
                    (#[trigger] screens[j]).frame,
                ) by {
                    assert(!frames.contains(head[j].frame));
                }
                assert(screens[n] == screens.last());
            },
        }
    }
}

/// Commands go to the space of the screen under the cursor. Where that shows none, they go to the
/// active space if a screen shows it.
pub proof fn commands_go_to_the_screen_under_the_cursor(
    screens: Seq<ScreenInfo>,
    under: Seq<Frame>,
    active: Option<SpaceId>,
    i: int,
)
    requires
        0 <= i < screens.len(),
        under.contains(screens[i].frame),
        forall|j: int| 0 <= j < i ==> !under.contains((#[trigger] screens[j]).frame),
    ensures
        screens[i].space is Some ==> command_space(screens, under, active) == screens[i].space,
        screens[i].space is None && active is Some && (exists|k: int|
            0 <= k < screens.len() && (#[trigger] screens[k]).space == active) ==> command_space(
            screens,
            under,
            active,
        ) == active,
{
    the_first_screen_at_a_place_counts(screens, under);
    let s = first_at(screens, under)->0;
    let k = choose|k: int|
        0 <= k < screens.len() && #[trigger] screens[k] == s && under.contains(s.frame) && forall|
            j: int,
        | 0 <= j < k ==> !under.contains((#[trigger] screens[j]).frame);
    assert(k == i) by {
        if k < i {
            assert(!under.contains(screens[k].frame));
        } else if i < k {
            assert(!under.contains(screens[i].frame));
        }
    }
}

/// With no screen under the cursor and no active space that shows, commands go to the first space
/// that shows; a space that commands go to always shows.
pub proof fn commands_go_to_a_space_that_shows(
    screens: Seq<ScreenInfo>,
    under: Seq<Frame>,
    active: Option<SpaceId>,
)
    ensures
        command_space(screens, under, active) matches Some(space) ==> exists|k: int|
            0 <= k < screens.len() && (#[trigger] screens[k]).space == Some(space),
        (exists|k: int| 0 <= k < screens.len() && (#[trigger] screens[k]).space is Some)
            ==> command_space(screens, under, active) is Some,
{
    the_first_screen_at_a_place_counts(screens, under);
    if exists|k: int| 0 <= k < screens.len() && (#[trigger] screens[k]).space is Some {
        let k = choose|k: int| 0 <= k < screens.len() && (#[trigger] screens[k]).space is Some;
        let m = lemma_least_with_space(screens, k);
        the_first_space_is_first(screens, m);
        assert(first_space_of(screens) == screens[m].space);
    } else {
        lemma_no_space(screens);
    }
}

proof fn lemma_least_with_space(screens: Seq<ScreenInfo>, k: int) -> (m: int)
    requires
        0 <= k < screens.len(),
        screens[k].space is Some,
    ensures
        0 <= m <= k,
        screens[m].space is Some,
        forall|j: int| 0 <= j < m ==> (#[trigger] screens[j]).space is None,
    decreases k,
{
    if exists|j: int| 0 <= j < k && (#[trigger] screens[j]).space is Some {
        let j = choose|j: int| 0 <= j < k && (#[trigger] screens[j]).space is Some;
        lemma_least_with_space(screens, j)
    } else {
        k
    }
}

/// A visible window is in the space that the window server puts it in, if a screen shows that
/// space; the place of its center counts only otherwise.
pub proof fn windows_are_where_the_server_puts_them(
    screens: Seq<ScreenInfo>,
    w: VisibleWindow,
    i: int,
)
    requires
        0 <= i < screens.len(),
    ensures
        w.space is Some && w.space == screens[i].space ==> window_space(screens, w) == w.space,
        (forall|k: int|
            0 <= k < screens.len() ==> (#[trigger] screens[k]).space is None || screens[k].space
                != w.space) && w.under_center@.contains(screens[i].frame) && (forall|j: int|
            0 <= j < i ==> !w.under_center@.contains((#[trigger] screens[j]).frame))
            ==> window_space(screens, w) == screens[i].space,
{
    the_first_screen_at_a_place_counts(screens, w.under_center@);
    if w.under_center@.contains(screens[i].frame) && (forall|j: int|
        0 <= j < i ==> !w.under_center@.contains((#[trigger] screens[j]).frame)) {
        let s = first_at(screens, w.under_center@)->0;
        let k = choose|k: int|
            0 <= k < screens.len() && #[trigger] screens[k] == s && w.under_center@.contains(
                s.frame,
            ) && forall|j: int| 0 <= j < k ==> !w.under_center@.contains(
                (#[trigger] screens[j]).frame,
            );
        assert(k == i) by {
            if k < i {
                assert(!w.under_center@.contains(screens[k].frame));
            } else if i < k {
                assert(!w.under_center@.contains(screens[i].frame));
            }
        }
    }
}

/// Each visible window is listed with its own space, and no other window is listed.
pub proof fn each_window_is_listed_with_its_own_space(
    screens: Seq<ScreenInfo>,
    windows: Seq<VisibleWindow>,
    id: WindowServerId,
)
    requires
        forall|a: int, b: int|
            0 <= a < b < windows.len() ==> (#[trigger] windows[a]).id != (#[trigger] windows[b]).id,
    ensures
        forall|i: int|
            0 <= i < windows.len() && (#[trigger] windows[i]).id == id ==> match window_space(
                screens,
                windows[i],
            ) {
                Some(space) => window_spaces(screens, windows).dom().contains(id) && window_spaces(
                    screens,
                    windows,
                )[id] == space,
                None => !window_spaces(screens, windows).dom().contains(id),
            },
        (forall|i: int| 0 <= i < windows.len() ==> (#[trigger] windows[i]).id != id)
            ==> !window_spaces(screens, windows).dom().contains(id),
    decreases windows.len(),
{
    if windows.len() > 0 {
        let head = windows.drop_last();
        assert(forall|j: int| 0 <= j < head.len() ==> head[j] == windows[j]);
        assert forall|a: int, b: int| 0 <= a < b < head.len() implies (#[trigger] head[a]).id != (
        #[trigger] head[b]).id by {
            assert(windows[a].id != windows[b].id);
        }
        each_window_is_listed_with_its_own_space(screens, head, id);
        let n = windows.len() - 1;
        assert forall|i: int| 0 <= i < windows.len() && (#[trigger] windows[i]).id
            == id implies match window_space(screens, windows[i]) {
            Some(space) => window_spaces(screens, windows).dom().contains(id) && window_spaces(
                screens,
                windows,
            )[id] == space,
            None => !window_spaces(screens, windows).dom().contains(id),
        } by {
            if i < n {
                assert(head[i].id == id);
                assert(windows[i].id != windows[n].id);
            } else {
                assert forall|j: int| 0 <= j < head.len() implies (#[trigger] head[j]).id != id by {
                    assert(windows[j].id != windows[n].id);
                }
            }
        }
        if forall|i: int| 0 <= i < windows.len() ==> (#[trigger] windows[i]).id != id {
            assert forall|j: int| 0 <= j < head.len() implies (#[trigger] head[j]).id != id by {
                assert(windows[j].id != id);
            }
            assert(windows[n].id != id);
        }
    }
}

/// Each screen of a named display gives that display its last user space; displays that no screen
/// shows a space for keep theirs.
pub proof fn displays_remember_the_space_they_show(
    before: Map<DisplayId, SpaceId>,
    screens: Seq<ScreenInfo>,
    display: DisplayId,
)
    requires
        forall|a: int, b: int|
            0 <= a < b < screens.len() ==> (#[trigger] screens[a]).display_uuid != (
            #[trigger] screens[b]).display_uuid,
    ensures
        forall|i: int|
            0 <= i < screens.len() && display != 0 && (#[trigger] screens[i]).display_uuid
                == display && screens[i].space is Some ==> last_user_spaces(
                before,
                screens,
            ).dom().contains(display) && Some(last_user_spaces(before, screens)[display])
                == screens[i].space,
        (display == 0 || forall|i: int|
            0 <= i < screens.len() && (#[trigger] screens[i]).display_uuid == display
                ==> screens[i].space is None) ==> last_user_spaces(before, screens).dom().contains(
            display,
        ) == before.dom().contains(display) && last_user_spaces(before, screens)[display]
            == before[display],
    decreases screens.len(),
{
    if screens.len() > 0 {
        let head = screens.drop_last();
        assert(forall|j: int| 0 <= j < head.len() ==> head[j] == screens[j]);
        assert forall|a: int, b: int| 0 <= a < b < head.len() implies (
        #[trigger] head[a]).display_uuid != (#[trigger] head[b]).display_uuid by {
            assert(screens[a].display_uuid != screens[b].display_uuid);
        }
        displays_remember_the_space_they_show(before, head, display);
        let n = screens.len() - 1;
        let s = screens.last();
        assert(screens[n] == s);
        if seen_before(screens, n, s.display_uuid) {
            let i = choose|i: int|
                0 <= i < n && (#[trigger] screens[i]).display_uuid == s.display_uuid
                    && screens[i].space is Some;
            assert(screens[i].display_uuid != screens[n].display_uuid);
        }
        assert forall|i: int|
            0 <= i < screens.len() && display != 0 && (#[trigger] screens[i]).display_uuid
                == display && screens[i].space is Some implies last_user_spaces(
            before,
            screens,
        ).dom().contains(display) && Some(last_user_spaces(before, screens)[display])
            == screens[i].space by {
            if i < n {
                assert(head[i].display_uuid == display);
                assert(screens[i].display_uuid != screens[n].display_uuid);
            }
        }
        if display == 0 || forall|i: int|
            0 <= i < screens.len() && (#[trigger] screens[i]).display_uuid == display
                ==> screens[i].space is None {
            if display != 0 {
                assert forall|i: int|
                    0 <= i < head.len() && (#[trigger] head[i]).display_uuid
                        == display implies head[i].space is None by {
                    assert(screens[i].space is None);
                }
                assert(s.display_uuid == display ==> screens[n].space is None);
            }
        }
    }
}

/// A space took the place of another exactly where a named display shows another space than the
/// one it is remembered by; the first of the pair is the one that it is remembered by.
pub proof fn remaps_lead_from_the_remembered_space_to_the_shown_one(
    before: Map<DisplayId, SpaceId>,
    screens: Seq<ScreenInfo>,
    previous: SpaceId,
    space: SpaceId,
)
    requires
        forall|a: int, b: int|
            0 <= a < b < screens.len() ==> (#[trigger] screens[a]).display_uuid != (
            #[trigger] screens[b]).display_uuid,
    ensures
        remaps(before, screens).contains(SpaceRemap { previous, space }) <==> previous != space
            && exists|i: int|
            0 <= i < screens.len() && (#[trigger] screens[i]).space == Some(space)
                && screens[i].display_uuid != 0 && before.dom().contains(screens[i].display_uuid)
                && before[screens[i].display_uuid] == previous,
    decreases screens.len(),
{
    if screens.len() > 0 {
        let head = screens.drop_last();
        assert(forall|j: int| 0 <= j < head.len() ==> head[j] == screens[j]);
        assert forall|a: int, b: int| 0 <= a < b < head.len() implies (
        #[trigger] head[a]).display_uuid != (#[trigger] head[b]).display_uuid by {
            assert(screens[a].display_uuid != screens[b].display_uuid);
        }
        remaps_lead_from_the_remembered_space_to_the_shown_one(before, head, previous, space);
        let n = screens.len() - 1;
        let s = screens.last();
        assert(screens[n] == s);
        if seen_before(screens, n, s.display_uuid) {
            let i = choose|i: int|
                0 <= i < n && (#[trigger] screens[i]).display_uuid == s.display_uuid
                    && screens[i].space is Some;
            assert(screens[i].display_uuid != screens[n].display_uuid);
        }
        if s.space is Some {
            crate::collections::lemma_push_contains(
                remaps(before, head),
                SpaceRemap { previous: before[s.display_uuid], space: s.space->0 },
            );
        }
        if exists|i: int|
            0 <= i < head.len() && (#[trigger] head[i]).space == Some(space)
                && head[i].display_uuid != 0 && before.dom().contains(head[i].display_uuid)
                && before[head[i].display_uuid] == previous {
            let i = choose|i: int|
                0 <= i < head.len() && (#[trigger] head[i]).space == Some(space)
                    && head[i].display_uuid != 0 && before.dom().contains(head[i].display_uuid)
                    && before[head[i].display_uuid] == previous;
            assert(screens[i].space == Some(space));
        }
        if exists|i: int|
            0 <= i < screens.len() && (#[trigger] screens[i]).space == Some(space)
                && screens[i].display_uuid != 0 && before.dom().contains(screens[i].display_uuid)
                && before[screens[i].display_uuid] == previous {
            let i = choose|i: int|
                0 <= i < screens.len() && (#[trigger] screens[i]).space == Some(space)
                    && screens[i].display_uuid != 0 && before.dom().contains(
                    screens[i].display_uuid,
                ) && before[screens[i].display_uuid] == previous;
            if i < n {
                assert(head[i].space == Some(space));
            }
        }
    }
}

/// While a display goes fullscreen, a display that seems to show the user space of another one
/// still shows its own; a display that shows its own or a new space is believed.
pub proof fn displays_keep_their_spaces_while_another_goes_fullscreen(
    previous: Seq<ScreenInfo>,
    screens: Seq<ScreenInfo>,
    fullscreen: Set<SpaceId>,
    a: int,
    b: int,
    i: int,
)
    requires
        forall|m: int, n: int|
            0 <= m < n < previous.len() ==> (#[trigger] previous[m]).display_uuid != (
            #[trigger] previous[n]).display_uuid,
        forall|m: int, n: int|
            0 <= m < n < previous.len() && (#[trigger] previous[m]).space is Some
                ==> previous[m].space != (#[trigger] previous[n]).space,
        exists|k: int|
            0 <= k < screens.len() && enters_fullscreen(
                previous,
                #[trigger] screens[k],
                fullscreen,
            ),
        0 <= a < previous.len(),
        0 <= b < previous.len(),
        a != b,
        0 <= i < screens.len(),
        screens[i].display_uuid == previous[a].display_uuid,
        screens[i].display_uuid != 0,
        previous[b].display_uuid != 0,
        previous[a].space is Some,
        previous[b].space is Some,
        !fullscreen.contains(previous[a].space->0),
        !fullscreen.contains(previous[b].space->0),
    ensures
        screens[i].space == previous[b].space ==> preserved(previous, screens, fullscreen)[i].space
            == previous[a].space,
        screens[i].space == previous[a].space ==> preserved(previous, screens, fullscreen)[i].space
            == previous[a].space,
        screens[i].space is None ==> preserved(previous, screens, fullscreen)[i].space is None,
{
    lemma_screen_of_display(previous, a);
    lemma_owner_of_space(previous, fullscreen, b);
    if a < b {
        assert(previous[a].space != previous[b].space);
        assert(previous[a].display_uuid != previous[b].display_uuid);
    } else {
        assert(previous[b].space != previous[a].space);
        assert(previous[b].display_uuid != previous[a].display_uuid);
    }
}

proof fn lemma_owner_of_space(screens: Seq<ScreenInfo>, fullscreen: Set<SpaceId>, b: int)
    requires
        0 <= b < screens.len(),
        screens[b].display_uuid != 0,
        screens[b].space is Some,
        !fullscreen.contains(screens[b].space->0),
        forall|m: int, n: int|
            0 <= m < n < screens.len() && (#[trigger] screens[m]).space is Some
                ==> screens[m].space != (#[trigger] screens[n]).space,
    ensures
        owner_of_space(screens, fullscreen, screens[b].space->0) == Some(screens[b].display_uuid),
    decreases screens.len(),
{
    let n = screens.len() - 1;
    if b < n {
        let head = screens.drop_last();
        assert(screens[b].space != screens[n].space);
        assert(forall|j: int| 0 <= j < n ==> head[j] == screens[j]);
        assert forall|m: int, k: int|
            0 <= m < k < head.len() && (#[trigger] head[m]).space is Some implies head[m].space != (
        #[trigger] head[k]).space by {
            assert(screens[m].space != screens[k].space);
        }
        lemma_owner_of_space(head, fullscreen, b);
    }
}

/// While no display goes from a user space to a fullscreen one, every screen is believed; leaving
/// out fullscreen spaces changes nothing about a screen but that space.
pub proof fn screens_are_believed_otherwise(
    previous: Seq<ScreenInfo>,
    screens: Seq<ScreenInfo>,
    fullscreen: Set<SpaceId>,
    i: int,
)
    requires
        0 <= i < screens.len(),
    ensures
        (forall|k: int|
            0 <= k < screens.len() ==> (#[trigger] screens[k]).space is None || !fullscreen.contains(
                screens[k].space->0,
            )) ==> preserved(previous, screens, fullscreen) == screens,
        ({
            let kept = preserved(previous, screens, fullscreen)[i];
            &&& kept.id == screens[i].id && kept.frame == screens[i].frame
            &&& kept.width == screens[i].width && kept.height == screens[i].height
            &&& kept.display_uuid == screens[i].display_uuid
        }),
        ({
            let bare = without_fullscreen(screens, fullscreen);
            &&& bare.len() == screens.len()
            &&& bare[i].id == screens[i].id && bare[i].frame == screens[i].frame
            &&& bare[i].width == screens[i].width && bare[i].height == screens[i].height
            &&& bare[i].display_uuid == screens[i].display_uuid
            &&& screens[i].space is None ==> bare[i].space is None
            &&& screens[i].space matches Some(space) ==> bare[i].space == (if fullscreen.contains(
                space,
            ) {
                None
            } else {
                Some(space)
            })
        }),
{
    if forall|k: int|
        0 <= k < screens.len() ==> (#[trigger] screens[k]).space is None || !fullscreen.contains(
            screens[k].space->0,
        ) {
        assert forall|k: int| 0 <= k < screens.len() implies !enters_fullscreen(
            previous,
            #[trigger] screens[k],
            fullscreen,
        ) by {}
    }
}

/// The topology changed exactly if a display came or went, the displays stand in another order, or
/// one of them lies elsewhere.
pub proof fn topology_is_who_is_where(
    previous: Seq<ScreenInfo>,
    screens: Seq<ScreenInfo>,
)
    requires
        forall|a: int, b: int|
            0 <= a < b < previous.len() ==> (#[trigger] previous[a]).display_uuid != (
            #[trigger] previous[b]).display_uuid,
    ensures
        topology_changed(previous, screens) <==> !(previous.len() == screens.len() && forall|i: int|
            0 <= i < screens.len() ==> (#[trigger] screens[i]).display_uuid
                == previous[i].display_uuid && screens[i].frame == previous[i].frame),
{
    let same = previous.len() == screens.len() && forall|i: int|
        0 <= i < screens.len() ==> (#[trigger] screens[i]).display_uuid == previous[i].display_uuid
            && screens[i].frame == previous[i].frame;
    if same {
        assert(displays_of(previous) =~= displays_of(screens)) by {
            assert forall|i: int| 0 <= i < screens.len() implies displays_of(previous)[i]
                == displays_of(screens)[i] by {
                assert(screens[i].display_uuid == previous[i].display_uuid);
            }
        }
        assert forall|i: int| 0 <= i < screens.len() implies !moved(
            previous,
            #[trigger] screens[i],
        ) by {
            lemma_screen_of_display(previous, i);
        }
    } else if displays_of(previous) == displays_of(screens) {
        assert(displays_of(previous).len() == displays_of(screens).len());
        assert forall|i: int| 0 <= i < screens.len() implies (#[trigger] screens[i]).display_uuid
            == previous[i].display_uuid by {
            assert(displays_of(previous)[i] == displays_of(screens)[i]);
        }
        let i = choose|i: int|
            0 <= i < screens.len() && !((#[trigger] screens[i]).display_uuid
                == previous[i].display_uuid && screens[i].frame == previous[i].frame);
        lemma_screen_of_display(previous, i);
        assert(moved(previous, screens[i]));
    }
}

/// Whether one of the screens is of this display.
pub open spec fn has_display(screens: Seq<ScreenInfo>, d: DisplayId) -> bool {
    exists|k: int| 0 <= k < screens.len() && (#[trigger] screens[k]).display_uuid == d
}

/// The set of displays changed exactly if some display has a screen in one of the two and none in
/// the other, in whatever order they stand.
pub proof fn the_set_of_displays_changes_with_its_members(
    previous: Seq<ScreenInfo>,
    screens: Seq<ScreenInfo>,
)
    ensures
        displays_changed(previous, screens) <==> exists|d: DisplayId| #[trigger]
            has_display(previous, d) != has_display(screens, d),
{
    assert forall|all: Seq<ScreenInfo>, d: DisplayId| #[trigger]
        has_display(all, d) == displays_of(all).contains(d) by {
        if has_display(all, d) {
            let k = choose|k: int| 0 <= k < all.len() && (#[trigger] all[k]).display_uuid == d;
            assert(displays_of(all)[k] == d);
        }
        if displays_of(all).contains(d) {
            let k = displays_of(all).index_of(d);
            assert(all[k].display_uuid == d);
        }
    }
    if displays_changed(previous, screens) {
        let d = choose|d: DisplayId|
            #[trigger] displays_of(previous).contains(d) != displays_of(screens).contains(d);
        assert(has_display(previous, d) != has_display(screens, d));
    }
    if exists|d: DisplayId| #[trigger] has_display(previous, d) != has_display(screens, d) {
        let d = choose|d: DisplayId| #[trigger]
            has_display(previous, d) != has_display(screens, d);
        assert(displays_of(previous).contains(d) != displays_of(screens).contains(d));
    }
}

/// Two screens that show the same user space are never committed, two that show the same
/// fullscreen space may be; screens that show different spaces always are.
pub proof fn only_user_spaces_have_to_differ(
    screens: Seq<ScreenInfo>,
    fullscreen: Set<SpaceId>,
    i: int,
    j: int,
)
    requires
        0 <= i < j < screens.len(),
    ensures
        screens[i].space is Some && screens[i].space == screens[j].space ==> !distinct_spaces(
            screens,
        ) && (!fullscreen.contains(screens[i].space->0) ==> !valid_for_commit(screens, fullscreen)),
        distinct_spaces(screens) ==> valid_for_commit(screens, fullscreen),
        (forall|k: int|
            0 <= k < screens.len() && (#[trigger] screens[k]).space is Some ==> fullscreen.contains(
                screens[k].space->0,
            )) ==> valid_for_commit(screens, fullscreen),
        (forall|k: int| 0 <= k < screens.len() ==> (#[trigger] screens[k]).space is None)
            ==> distinct_spaces(screens) && !complete(screens),
        screens[i].space is None ==> !complete(screens),
        spaces_of(screens).len() == screens.len() && spaces_of(screens)[i] == screens[i].space,
        displays_of(screens)[i] == screens[i].display_uuid,
        shows_space(screens, screens[j].space->0) || screens[j].space is None,
{
    assert(screens[i].space is None || screens[i].space is Some);
    assert(screens[j].space is None || screens[j].space == Some(screens[j].space->0));
}

/// A window changed its space exactly if it is not where it was, and the change names where it is.
pub proof fn changes_name_the_space_a_window_is_in(
    a: Map<WindowServerId, SpaceId>,
    b: Map<WindowServerId, SpaceId>,
    id: WindowServerId,
)
    ensures
        changes(a, b).dom().contains(id) ==> a.dom().contains(id) && changes(a, b)[id] == a[id],
        a.dom().contains(id) && !b.dom().contains(id) ==> changes(a, b).dom().contains(id),
        a.dom().contains(id) && b.dom().contains(id) ==> (changes(a, b).dom().contains(id)
            <==> a[id] != b[id]),
{
}

proof fn lemma_owner_shows_the_space(
    screens: Seq<ScreenInfo>,
    fullscreen: Set<SpaceId>,
    space: SpaceId,
)
    ensures
        owner_of_space(screens, fullscreen, space) is Some ==> !fullscreen.contains(space)
            && exists|b: int|
            0 <= b < screens.len() && (#[trigger] screens[b]).space == Some(space)
                && screens[b].display_uuid != 0 && Some(screens[b].display_uuid) == owner_of_space(
                screens,
                fullscreen,
                space,
            ),
    decreases screens.len(),
{
    if screens.len() > 0 {
        let head = screens.drop_last();
        let n = screens.len() - 1;
        lemma_owner_shows_the_space(head, fullscreen, space);
        assert(screens[n] == screens.last());
        if owner_of_space(head, fullscreen, space) is Some {
            let b = choose|b: int|
                0 <= b < head.len() && (#[trigger] head[b]).space == Some(space)
                    && head[b].display_uuid != 0 && Some(head[b].display_uuid) == owner_of_space(
                    head,
                    fullscreen,
                    space,
                );
            assert(screens[b] == head[b]);
        }
    }
}

/// What a screen is said to show is believed unless another display showed that space before. Then
/// the display keeps the space it showed. Both are user spaces.
pub proof fn spaces_are_kept_only_from_another_display(
    previous: Seq<ScreenInfo>,
    screens: Seq<ScreenInfo>,
    fullscreen: Set<SpaceId>,
    i: int,
)
    requires
        0 <= i < screens.len(),
        preserved(previous, screens, fullscreen)[i].space != screens[i].space,
    ensures
        screens[i].display_uuid != 0,
        screens[i].space is Some,
        !fullscreen.contains(screens[i].space->0),
        preserved(previous, screens, fullscreen)[i].space is Some,
        !fullscreen.contains(preserved(previous, screens, fullscreen)[i].space->0),
        exists|a: int|
            0 <= a < previous.len() && (#[trigger] previous[a]).display_uuid
                == screens[i].display_uuid && previous[a].space == preserved(
                previous,
                screens,
                fullscreen,
            )[i].space,
        exists|b: int|
            0 <= b < previous.len() && (#[trigger] previous[b]).display_uuid
                != screens[i].display_uuid && previous[b].space == screens[i].space,
        exists|k: int|
            0 <= k < screens.len() && (#[trigger] screens[k]).space is Some && fullscreen.contains(
                screens[k].space->0,
            ),
{
    let s = screens[i];
    lemma_owner_shows_the_space(previous, fullscreen, s.space->0);
    lemma_display_has_a_screen(previous, s.display_uuid);
    let k = choose|k: int|
        0 <= k < screens.len() && enters_fullscreen(previous, #[trigger] screens[k], fullscreen);
    assert(screens[k].space is Some && fullscreen.contains(screens[k].space->0));
}

proof fn lemma_display_has_a_screen(screens: Seq<ScreenInfo>, display: DisplayId)
    ensures
        screen_of_display(screens, display) is Some ==> exists|a: int|
            0 <= a < screens.len() && (#[trigger] screens[a]).display_uuid == display && Some(
                screens[a],
            ) == screen_of_display(screens, display),
    decreases screens.len(),
{
    if screens.len() > 0 {
        let head = screens.drop_last();
        lemma_display_has_a_screen(head, display);
        assert(screens[screens.len() - 1] == screens.last());
        if screens.last().display_uuid != display && screen_of_display(head, display) is Some {
            let a = choose|a: int|
                0 <= a < head.len() && (#[trigger] head[a]).display_uuid == display && Some(head[a])
                    == screen_of_display(head, display);
            assert(screens[a] == head[a]);
        }
    }
}

} // verus!
