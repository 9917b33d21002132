//! A client that dims every window of the active workspaces but the focused one. It reads what the
//! window manager says as JSON.

use serde_json::Value;
use vstd::prelude::*;
use vstd::string::*;

use crate::collections::{Key, VecSet};
use crate::json::{array_field, as_array, bool_field, str_field, u64_field};
#[allow(unused_imports)]
use crate::json::{array_items, field_bool, field_items, field_str, field_u64};
use crate::text::same_text;

verus! {

/// A dimmed window, and the space for which it was dimmed.
#[derive(Clone, Copy, Debug, PartialEq, Eq, Structural)]
pub struct DimmedWindow {
    pub space: u64,
    pub window: u32,
}

impl Key for DimmedWindow {
    fn same(&self, other: &Self) -> (r: bool) {
        *self == *other
    }
}

/// The space that a display shows.
#[derive(Clone, Debug, PartialEq, Eq)]
pub struct ShownSpace {
    pub display: String,
    pub space: u64,
}

/// The space that the display with this id shows, as far as is known.
pub open spec fn space_shown(entries: Seq<ShownSpace>, display: Seq<char>) -> Option<u64>
    decreases entries.len(),
{
    if entries.len() == 0 {
        None
    } else {
        let before = space_shown(entries.drop_last(), display);
        if before is Some {
            before
        } else if entries.last().display@ == display {
            Some(entries.last().space)
        } else {
            None
        }
    }
}

/// What is to be done.
#[derive(Clone, Copy, Debug, PartialEq, Eq, Structural)]
pub enum DimmerStep {
    /// Undim the windows of a space.
    Reset(u64),
    /// Ask for the workspaces of a space, and dim its windows.
    Refresh(u64),
}

/// A window whose brightness changes.
#[derive(Clone, Copy, Debug, PartialEq, Eq, Structural)]
pub struct BrightnessChange {
    pub window: u32,
    pub dimmed: bool,
}

pub struct Dimmer {
    pub dimmed: VecSet<DimmedWindow>,
    pub space_by_display: Vec<ShownSpace>,
}

/// The window that a description asks to dim: not the focused one, and only one with a number.
pub open spec fn wanted(window: Value) -> Option<u32> {
    if field_bool(window, "is_focused"@) == Some(true) {
        None
    } else {
        match field_u64(window, "window_server_id"@) {
            Some(n) => if n <= u32::MAX {
                Some(n as u32)
            } else {
                None
            },
            None => None,
        }
    }
}

pub open spec fn all_wanted(windows: Seq<Value>) -> Set<u32>
    decreases windows.len(),
{
    if windows.len() == 0 {
        Set::empty()
    } else {
        let head = all_wanted(windows.drop_last());
        match wanted(windows.last()) {
            Some(id) => head.insert(id),
            None => head,
        }
    }
}

/// The first workspace that is active.
pub open spec fn active_workspace(workspaces: Seq<Value>) -> Option<Value>
    decreases workspaces.len(),
{
    if workspaces.len() == 0 {
        None
    } else if field_bool(workspaces[0], "is_active"@) == Some(true) {
        Some(workspaces[0])
    } else {
        active_workspace(workspaces.drop_first())
    }
}

/// The windows to dim, by what the window manager says of the workspaces of a space.
pub open spec fn desired(workspaces: Value) -> Set<u32> {
    match array_items(workspaces) {
        Some(items) => match active_workspace(items) {
            Some(workspace) => match field_items(workspace, "windows"@) {
                Some(windows) => all_wanted(windows),
                None => Set::empty(),
            },
            None => Set::empty(),
        },
        None => Set::empty(),
    }
}

fn find_active<'a>(workspaces: &'a Vec<Value>) -> (r: Option<&'a Value>)
    ensures
        match r {
            Some(w) => active_workspace(workspaces@) == Some(*w),
            None => active_workspace(workspaces@) is None,
        },
{
    let mut i: usize = 0;
    assert(workspaces@.skip(0) =~= workspaces@);
    while i < workspaces.len()
        invariant
            i <= workspaces@.len(),
            active_workspace(workspaces@) == active_workspace(workspaces@.skip(i as int)),
        decreases workspaces@.len() - i,
    {
        if bool_field(&workspaces[i], "is_active") == Some(true) {
            return Some(&workspaces[i]);
        }
        assert(workspaces@.skip(i as int).drop_first() =~= workspaces@.skip(i + 1));
        i = i + 1;
    }
    None
}

/// The windows to dim, by what the window manager says of the workspaces of a space.
pub fn desired_windows(workspaces: &Value) -> (r: VecSet<u32>)
    ensures
        r@ == desired(*workspaces),
{
    let mut r: VecSet<u32> = VecSet::new();
    let items = match as_array(workspaces) {
        Some(items) => items,
        None => {
            return r;
        },
    };
    let workspace = match find_active(items) {
        Some(workspace) => workspace,
        None => {
            return r;
        },
    };
    let windows = match array_field(workspace, "windows") {
        Some(windows) => windows,
        None => {
            return r;
        },
    };
    let mut i: usize = 0;
    while i < windows.len()
        invariant
            i <= windows@.len(),
            r@ == all_wanted(windows@.take(i as int)),
        decreases windows@.len() - i,
    {
        assert(windows@.take(i + 1).drop_last() =~= windows@.take(i as int));
        assert(windows@.take(i + 1).last() == windows@[i as int]);
        if bool_field(&windows[i], "is_focused") != Some(true) {
            match u64_field(&windows[i], "window_server_id") {
                Some(n) => {
                    if n <= 0xffff_ffff {
                        let _ = r.insert(n as u32);
                    }
                },
                None => {},
            }
        }
        i = i + 1;
    }
    assert(windows@.take(i as int) =~= windows@);
    r
}

proof fn lemma_shown_update(entries: Seq<ShownSpace>, i: int, space: u64, other: Seq<char>)
    requires
        0 <= i < entries.len(),
        forall|j: int| 0 <= j < i ==> (#[trigger] entries[j]).display@ != entries[i].display@,
    ensures
        space_shown(entries, entries[i].display@) == Some(entries[i].space),
        space_shown(
            entries.update(i, ShownSpace { display: entries[i].display, space }),
            other,
        ) == (if other == entries[i].display@ {
            Some(space)
        } else {
            space_shown(entries, other)
        }),
    decreases entries.len(),
{
    let changed = entries.update(i, ShownSpace { display: entries[i].display, space });
    if i < entries.len() - 1 {
        assert(changed.drop_last() =~= entries.drop_last().update(
            i,
            ShownSpace { display: entries.drop_last()[i].display, space },
        ));
        assert forall|j: int| 0 <= j < i implies (#[trigger] entries.drop_last()[j]).display@
            != entries.drop_last()[i].display@ by {
            assert(entries[j].display@ != entries[i].display@);
        }
        lemma_shown_update(entries.drop_last(), i, space, other);
    } else {
        assert(changed.drop_last() =~= entries.drop_last());
        assert forall|j: int| 0 <= j < entries.drop_last().len() implies (
        #[trigger] entries.drop_last()[j]).display@ != entries[i].display@ by {
            assert(entries[j].display@ != entries[i].display@);
        }
        lemma_not_shown(entries.drop_last(), entries[i].display@);
    }
}

proof fn lemma_not_shown(entries: Seq<ShownSpace>, display: Seq<char>)
    requires
        forall|j: int| 0 <= j < entries.len() ==> (#[trigger] entries[j]).display@ != display,
    ensures
        space_shown(entries, display) is None,
    decreases entries.len(),
{
    if entries.len() > 0 {
        assert(entries[entries.len() - 1].display@ != display);
        assert forall|j: int| 0 <= j < entries.drop_last().len() implies (
        #[trigger] entries.drop_last()[j]).display@ != display by {
            assert(entries[j].display@ != display);
        }
        lemma_not_shown(entries.drop_last(), display);
    }
}

/// What a display change leads to: the space it showed before is undimmed.
pub open spec fn change_steps(before: Option<u64>, space: u64) -> Seq<DimmerStep> {
    if before is Some && before->0 != space {
        seq![DimmerStep::Reset(before->0), DimmerStep::Refresh(space)]
    } else {
        seq![DimmerStep::Refresh(space)]
    }
}

/// What an event leads to.
pub open spec fn event_steps(entries: Seq<ShownSpace>, event: Value) -> Seq<DimmerStep> {
    match (field_str(event, "type"@), field_u64(event, "space_id"@)) {
        (Some(kind), Some(space)) => if kind == "workspace_changed"@ {
            match field_str(event, "display_uuid"@) {
                Some(display) => change_steps(space_shown(entries, display), space),
                None => seq![DimmerStep::Refresh(space)],
            }
        } else if kind == "focused_window_changed"@ || kind == "windows_changed"@ {
            seq![DimmerStep::Refresh(space)]
        } else {
            Seq::empty()
        },
        _ => Seq::empty(),
    }
}

/// The display and the space that an event says it shows now.
pub open spec fn shown_by(event: Value) -> Option<(Seq<char>, u64)> {
    match (
        field_str(event, "type"@),
        field_u64(event, "space_id"@),
        field_str(event, "display_uuid"@),
    ) {
        (Some(kind), Some(space), Some(display)) => if kind == "workspace_changed"@ {
            Some((display, space))
        } else {
            None
        },
        _ => None,
    }
}

/// Whether `after` knows what `before` does, and of one display that it shows a space.
pub open spec fn is_shown(
    before: Seq<ShownSpace>,
    after: Seq<ShownSpace>,
    news: Option<(Seq<char>, u64)>,
) -> bool {
    forall|d: Seq<char>| #[trigger]
        space_shown(after, d) == (if news is Some && d == (news->0).0 {
            Some((news->0).1)
        } else {
            space_shown(before, d)
        })
}

/// What the displays are said to show: the space of each, later ones over earlier ones.
pub open spec fn told_space(displays: Seq<Value>, display: Seq<char>, known: Option<u64>) -> Option<
    u64,
>
    decreases displays.len(),
{
    if displays.len() == 0 {
        known
    } else {
        let d = displays.last();
        if field_u64(d, "space"@) is Some && field_str(d, "uuid"@) == Some(display) {
            field_u64(d, "space"@)
        } else {
            told_space(displays.drop_last(), display, known)
        }
    }
}

/// The spaces that are active at the start.
pub open spec fn active_spaces(displays: Seq<Value>) -> Seq<u64>
    decreases displays.len(),
{
    if displays.len() == 0 {
        Seq::empty()
    } else {
        let head = active_spaces(displays.drop_last());
        let d = displays.last();
        if field_u64(d, "space"@) is Some && field_bool(d, "is_active_space"@) == Some(true) {
            head.push(field_u64(d, "space"@)->0)
        } else {
            head
        }
    }
}

impl Dimmer {
    /// Whether a window is dimmed for a space.
    pub open spec fn dims(self, space: u64, window: u32) -> bool {
        self.dimmed@.contains(DimmedWindow { space, window })
    }

    pub fn new() -> (r: Dimmer)
        ensures
            r.dimmed@ == Set::<DimmedWindow>::empty(),
            r.space_by_display@ == Seq::<ShownSpace>::empty(),
    {
        Dimmer { dimmed: VecSet::new(), space_by_display: Vec::new() }
    }

    /// Notes what a display shows. The result is what it showed before.
    fn note_space(&mut self, display: &str, space: u64) -> (r: Option<u64>)
        ensures
            final(self).dimmed == old(self).dimmed,
            r == space_shown(old(self).space_by_display@, display@),
            is_shown(
                old(self).space_by_display@,
                final(self).space_by_display@,
                Some((display@, space)),
            ),
    {
        let ghost before = self.space_by_display@;
        let mut i: usize = 0;
        while i < self.space_by_display.len()
            invariant
                i <= self.space_by_display@.len(),
                self.space_by_display@ == before,
                before == old(self).space_by_display@,
                self.dimmed == old(self).dimmed,
                forall|j: int| 0 <= j < i ==> (#[trigger] before[j]).display@ != display@,
            decreases self.space_by_display@.len() - i,
        {
            if same_text(self.space_by_display[i].display.as_str(), display) {
                let known: u64 = self.space_by_display[i].space;
                let name = self.space_by_display[i].display.clone();
                self.space_by_display.set(i, ShownSpace { display: name, space });
                proof {
                    assert forall|d: Seq<char>| #[trigger]
                        space_shown(self.space_by_display@, d) == (if d == display@ {
                            Some(space)
                        } else {
                            space_shown(before, d)
                        }) by {
                        lemma_shown_update(before, i as int, space, d);
                    }
                    lemma_shown_update(before, i as int, space, display@);
                }
                return Some(known);
            }
            i = i + 1;
        }
        self.space_by_display.push(ShownSpace { display: display.to_string(), space });
        proof {
            lemma_not_shown(before, display@);
            assert(self.space_by_display@.drop_last() =~= before);
        }
        None
    }

    /// Begins with what the window manager says of the displays. The result are the spaces that
    /// are to be refreshed, in this order.
    pub fn initialize(&mut self, displays: &Value) -> (r: Vec<u64>)
        ensures
            final(self).dimmed == old(self).dimmed,
            match array_items(*displays) {
                Some(items) => r@ == active_spaces(items) && forall|d: Seq<char>| #[trigger]
                    space_shown(final(self).space_by_display@, d) == told_space(
                        items,
                        d,
                        space_shown(old(self).space_by_display@, d),
                    ),
                None => r@.len() == 0 && final(self).space_by_display@
                    == old(self).space_by_display@,
            },
    {
        let mut out: Vec<u64> = Vec::new();
        let items = match as_array(displays) {
            Some(items) => items,
            None => {
                return out;
            },
        };
        let ghost before = self.space_by_display@;
        let mut i: usize = 0;
        while i < items.len()
            invariant
                i <= items@.len(),
                before == old(self).space_by_display@,
                self.dimmed == old(self).dimmed,
                out@ == active_spaces(items@.take(i as int)),
                forall|d: Seq<char>| #[trigger]
                    space_shown(self.space_by_display@, d) == told_space(
                        items@.take(i as int),
                        d,
                        space_shown(before, d),
                    ),
            decreases items@.len() - i,
        {
            assert(items@.take(i + 1).drop_last() =~= items@.take(i as int));
            assert(items@.take(i + 1).last() == items@[i as int]);
            let item = &items[i];
            match u64_field(item, "space") {
                Some(space) => {
                    match str_field(item, "uuid") {
                        Some(uuid) => {
                            let _ = self.note_space(uuid, space);
                        },
                        None => {},
                    }
                    if bool_field(item, "is_active_space") == Some(true) {
                        out.push(space);
                    }
                },
                None => {},
            }
            i = i + 1;
        }
        assert(items@.take(i as int) =~= items@);
        out
    }

    /// Handles an event of the window manager.
    pub fn handle_event(&mut self, event: &Value) -> (r: Vec<DimmerStep>)
        ensures
            r@ == event_steps(old(self).space_by_display@, *event),
            final(self).dimmed == old(self).dimmed,
            is_shown(
                old(self).space_by_display@,
                final(self).space_by_display@,
                shown_by(*event),
            ),
    {
        let mut out: Vec<DimmerStep> = Vec::new();
        let kind = match str_field(event, "type") {
            Some(kind) => kind,
            None => {
                return out;
            },
        };
        let space: u64 = match u64_field(event, "space_id") {
            Some(space) => space,
            None => {
                return out;
            },
        };
        if same_text(kind, "workspace_changed") {
            match str_field(event, "display_uuid") {
                Some(display) => {
                    match self.note_space(display, space) {
                        Some(old_space) => {
                            if old_space != space {
                                out.push(DimmerStep::Reset(old_space));
                            }
                        },
                        None => {},
                    }
                },
                None => {},
            }
            out.push(DimmerStep::Refresh(space));
        } else if same_text(kind, "focused_window_changed") || same_text(kind, "windows_changed") {
            out.push(DimmerStep::Refresh(space));
        }
        assert(out@ =~= event_steps(old(self).space_by_display@, *event));
        out
    }

    /// The windows whose brightness changes when those that are to be dimmed for a space are.
    pub fn refresh(&self, space: u64, desired: &VecSet<u32>) -> (r: Vec<BrightnessChange>)
        ensures
            is_change(*self, space, desired@, r@),
    {
        let mut out: Vec<BrightnessChange> = Vec::new();
        let all = self.dimmed.items();
        let mut i: usize = 0;
        while i < all.len()
            invariant
                i <= all@.len(),
                forall|j: int| 0 <= j < out@.len() ==> !(#[trigger] out@[j]).dimmed,
                forall|window: u32| #[trigger]
                    out@.contains(BrightnessChange { window, dimmed: false }) <==> all@.take(
                        i as int,
                    ).contains(DimmedWindow { space, window }) && !desired@.contains(window),
            decreases all@.len() - i,
        {
            let d: DimmedWindow = all[i];
            let ghost head = all@.take(i as int);
            let ghost before = out@;
            assert(all@.take(i + 1) =~= head.push(d));
            if d.space == space && !desired.contains(&d.window) {
                out.push(BrightnessChange { window: d.window, dimmed: false });
            }
            proof {
                crate::collections::lemma_push_contains(head, d);
                crate::collections::lemma_push_contains(
                    before,
                    BrightnessChange { window: d.window, dimmed: false },
                );
            }
            i = i + 1;
        }
        assert(all@.take(i as int) =~= all@);
        let ghost normal = out@;
        let wanted = desired.items();
        let mut k: usize = 0;
        assert(wanted@.take(0) =~= Seq::<u32>::empty());
        while k < wanted.len()
            invariant
                k <= wanted@.len(),
                forall|window: u32| #[trigger]
                    out@.contains(BrightnessChange { window, dimmed: false }) <==> normal.contains(
                        BrightnessChange { window, dimmed: false },
                    ),
                forall|window: u32| #[trigger]
                    out@.contains(BrightnessChange { window, dimmed: true }) <==> wanted@.take(
                        k as int,
                    ).contains(window) && !self.dims(space, window),
            decreases wanted@.len() - k,
        {
            let w: u32 = wanted[k];
            let ghost head = wanted@.take(k as int);
            let ghost before = out@;
            assert(wanted@.take(k + 1) =~= head.push(w));
            if !self.dimmed.contains(&DimmedWindow { space, window: w }) {
                out.push(BrightnessChange { window: w, dimmed: true });
            }
            proof {
                crate::collections::lemma_push_contains(head, w);
                crate::collections::lemma_push_contains(
                    before,
                    BrightnessChange { window: w, dimmed: true },
                );
            }
            k = k + 1;
        }
        assert(wanted@.take(k as int) =~= wanted@);
        out
    }

    /// The windows of `desired`, and no others, are dimmed for a space now.
    pub fn refreshed(&mut self, space: u64, desired: &VecSet<u32>)
        ensures
            final(self).space_by_display == old(self).space_by_display,
            forall|s: u64, window: u32| #[trigger]
                final(self).dims(s, window) == (if s == space {
                    desired@.contains(window)
                } else {
                    old(self).dims(s, window)
                }),
    {
        let _ = self.reset(space);
        let ghost cleared = *self;
        let wanted = desired.items();
        let mut k: usize = 0;
        while k < wanted.len()
            invariant
                k <= wanted@.len(),
                self.space_by_display == old(self).space_by_display,
                forall|s: u64, window: u32| #[trigger]
                    self.dims(s, window) <==> cleared.dims(s, window) || s == space
                        && wanted@.take(k as int).contains(window),
            decreases wanted@.len() - k,
        {
            let w: u32 = wanted[k];
            let ghost head = wanted@.take(k as int);
            let ghost before = *self;
            assert(wanted@.take(k + 1) =~= head.push(w));
            let _ = self.dimmed.insert(DimmedWindow { space, window: w });
            proof {
                crate::collections::lemma_push_contains(head, w);
                assert forall|s: u64, window: u32| #[trigger]
                    self.dims(s, window) <==> cleared.dims(s, window) || s == space
                        && wanted@.take(k + 1).contains(window) by {
                    let x = DimmedWindow { space: s, window };
                    assert(before.dims(s, window) == before.dimmed@.contains(x));
                    assert(self.dims(s, window) == (before.dims(s, window) || x == (DimmedWindow {
                        space,
                        window: w,
                    })));
                    assert(wanted@.take(k + 1).contains(window) == (head.contains(window) || window
                        == w));
                }
            }
            k = k + 1;
        }
        assert(wanted@.take(k as int) =~= wanted@);
    }

    /// The windows of a space are dimmed no more. The result are the windows that were.
    pub fn reset(&mut self, space: u64) -> (r: Vec<u32>)
        ensures
            final(self).space_by_display == old(self).space_by_display,
            r@.no_duplicates(),
            forall|window: u32| r@.contains(window) <==> #[trigger] old(self).dims(space, window),
            forall|s: u64, window: u32| #[trigger]
                final(self).dims(s, window) <==> s != space && old(self).dims(s, window),
    {
        let mut out: Vec<u32> = Vec::new();
        let all = self.dimmed.items();
        let ghost before = *self;
        let mut i: usize = 0;
        while i < all.len()
            invariant
                i <= all@.len(),
                before == *old(self),
                self.space_by_display == old(self).space_by_display,
                all@.no_duplicates(),
                out@.no_duplicates(),
                forall|window: u32| #[trigger]
                    out@.contains(window) <==> all@.take(i as int).contains(
                        DimmedWindow { space, window },
                    ),
                forall|s: u64, window: u32| #[trigger]
                    self.dims(s, window) <==> before.dims(s, window) && !(s == space && all@.take(
                        i as int,
                    ).contains(DimmedWindow { space, window })),
            decreases all@.len() - i,
        {
            let d: DimmedWindow = all[i];
            let ghost head = all@.take(i as int);
            let ghost listed = out@;
            let ghost mid = *self;
            assert(all@.take(i + 1) =~= head.push(d));
            proof {
                crate::collections::lemma_push_contains(head, d);
                crate::collections::lemma_push_contains(listed, d.window);
            }
            if d.space == space {
                proof {
                    assert(!head.contains(d));
                    crate::collections::lemma_push_new(listed, d.window);
                }
                out.push(d.window);
                let _ = self.dimmed.remove(&d);
            }
            proof {
                assert forall|s: u64, window: u32| #[trigger]
                    self.dims(s, window) <==> before.dims(s, window) && !(s == space && all@.take(
                        i + 1,
                    ).contains(DimmedWindow { space, window })) by {
                    let x = DimmedWindow { space: s, window };
                    assert(mid.dims(s, window) == mid.dimmed@.contains(x));
                    assert(self.dims(s, window) == (mid.dims(s, window) && !(d.space == space && x
                        == d)));
                    assert(all@.take(i + 1).contains(x) == (head.contains(x) || x == d));
                }
            }
            i = i + 1;
        }
        assert(all@.take(i as int) =~= all@);
        proof {
            assert forall|window: u32| out@.contains(window) <==> #[trigger] old(self).dims(
                space,
                window,
            ) by {
                assert(all@.contains(DimmedWindow { space, window }) <==> before.dimmed@.contains(
                    DimmedWindow { space, window },
                ));
            }
        }
        out
    }

    /// No window is dimmed any more. The result are all windows that were, each once.
    pub fn restore_all(&mut self) -> (r: Vec<u32>)
        ensures
            final(self).space_by_display == old(self).space_by_display,
            final(self).dimmed@ == Set::<DimmedWindow>::empty(),
            r@.no_duplicates(),
            forall|window: u32| #[trigger]
                r@.contains(window) <==> exists|space: u64| old(self).dims(space, window),
    {
        let all = self.dimmed.items();
        let mut windows: VecSet<u32> = VecSet::new();
        let mut i: usize = 0;
        while i < all.len()
            invariant
                i <= all@.len(),
                *self == *old(self),
                forall|window: u32| #[trigger]
                    windows@.contains(window) <==> exists|j: int|
                        0 <= j < i && (#[trigger] all@[j]).window == window,
            decreases all@.len() - i,
        {
            let ghost before = windows@;
            let _ = windows.insert(all[i].window);
            proof {
                assert forall|window: u32| #[trigger]
                    windows@.contains(window) <==> exists|j: int|
                        0 <= j < i + 1 && (#[trigger] all@[j]).window == window by {
                    if windows@.contains(window) {
                        if window == all@[i as int].window {
                            assert(all@[i as int].window == window);
                        } else {
                            assert(before.contains(window));
                        }
                    }
                    if exists|j: int| 0 <= j < i + 1 && (#[trigger] all@[j]).window == window {
                        let j = choose|j: int|
                            0 <= j < i + 1 && (#[trigger] all@[j]).window == window;
                        if j < i {
                            assert(before.contains(window));
                        }
                    }
                }
            }
            i = i + 1;
        }
        self.dimmed = VecSet::new();
        let r = windows.items();
        proof {
            assert forall|window: u32| #[trigger]
                r@.contains(window) <==> exists|space: u64| old(self).dims(space, window) by {
                if r@.contains(window) {
                    assert(windows@.contains(window));
                    let j = choose|j: int|
                        0 <= j < all@.len() && (#[trigger] all@[j]).window == window;
                    assert(all@.contains(all@[j]));
                    assert(old(self).dims(all@[j].space, window));
                }
                if exists|space: u64| old(self).dims(space, window) {
                    let space = choose|space: u64| old(self).dims(space, window);
                    assert(all@.contains(DimmedWindow { space, window }));
                    let j = all@.index_of(DimmedWindow { space, window });
                    assert(all@[j].window == window);
                    assert(windows@.contains(window));
                }
            }
        }
        r
    }
}

/// Whether `r` are the windows whose brightness changes when exactly those of `desired` are to be
/// dimmed for a space, in any order.
pub open spec fn is_change(
    dimmer: Dimmer,
    space: u64,
    desired: Set<u32>,
    r: Seq<BrightnessChange>,
) -> bool {
    &&& forall|window: u32|
        r.contains(BrightnessChange { window, dimmed: false }) <==> #[trigger] dimmer.dims(
            space,
            window,
        ) && !desired.contains(window)
    &&& forall|window: u32|
        r.contains(BrightnessChange { window, dimmed: true }) <==> #[trigger] desired.contains(
            window,
        ) && !dimmer.dims(space, window)
}

/// Once the windows of a space are dimmed as desired, nothing more changes.
pub proof fn a_dimmed_space_stays(
    dimmer: Dimmer,
    space: u64,
    desired: Set<u32>,
    r: Seq<BrightnessChange>,
)
    requires
        forall|window: u32| dimmer.dims(space, window) == #[trigger] desired.contains(window),
        is_change(dimmer, space, desired, r),
    ensures
        r.len() == 0,
{
    if r.len() > 0 {
        let c = r[0];
        assert(r.contains(c));
        assert(c == (BrightnessChange { window: c.window, dimmed: c.dimmed }));
        assert(desired.contains(c.window) == dimmer.dims(space, c.window));
    }
}

/// The focused window is never dimmed.
pub proof fn the_focused_window_stays_bright(window: Value)
    requires
        field_bool(window, "is_focused"@) == Some(true),
    ensures
        wanted(window) is None,
{
}

/// A window is dimmed exactly if it does not have the focus and has a number that a window can have.
pub proof fn windows_without_the_focus_are_dimmed(window: Value, id: u32)
    ensures
        wanted(window) == Some(id) <==> field_bool(window, "is_focused"@) != Some(true)
            && field_u64(window, "window_server_id"@) == Some(id as u64),
{
}

/// The windows to be dimmed are those of the first workspace that is active, and of no other.
pub proof fn windows_of_the_active_workspace_are_dimmed(
    workspaces: Value,
    items: Seq<Value>,
    windows: Seq<Value>,
    i: int,
    id: u32,
)
    requires
        array_items(workspaces) == Some(items),
        0 <= i < items.len(),
        field_bool(items[i], "is_active"@) == Some(true),
        forall|j: int|
            0 <= j < i ==> field_bool(#[trigger] items[j], "is_active"@) != Some(true),
        field_items(items[i], "windows"@) == Some(windows),
    ensures
        desired(workspaces).contains(id) <==> exists|k: int|
            0 <= k < windows.len() && wanted(#[trigger] windows[k]) == Some(id),
{
    lemma_active_workspace(items, i);
    lemma_all_wanted(windows, id);
}

proof fn lemma_active_workspace(items: Seq<Value>, i: int)
    requires
        0 <= i < items.len(),
        field_bool(items[i], "is_active"@) == Some(true),
        forall|j: int|
            0 <= j < i ==> field_bool(#[trigger] items[j], "is_active"@) != Some(true),
    ensures
        active_workspace(items) == Some(items[i]),
    decreases i,
{
    if i > 0 {
        let rest = items.drop_first();
        assert(field_bool(items[0], "is_active"@) != Some(true));
        assert forall|j: int| 0 <= j < i - 1 implies field_bool(#[trigger] rest[j], "is_active"@)
            != Some(true) by {
            assert(rest[j] == items[j + 1]);
        }
        lemma_active_workspace(rest, i - 1);
    }
}

proof fn lemma_all_wanted(windows: Seq<Value>, id: u32)
    ensures
        all_wanted(windows).contains(id) <==> exists|k: int|
            0 <= k < windows.len() && wanted(#[trigger] windows[k]) == Some(id),
    decreases windows.len(),
{
    if windows.len() > 0 {
        let head = windows.drop_last();
        let n = windows.len() - 1;
        lemma_all_wanted(head, id);
        assert(forall|k: int| 0 <= k < n ==> head[k] == windows[k]);
        assert(windows[n] == windows.last());
        if exists|k: int| 0 <= k < head.len() && wanted(#[trigger] head[k]) == Some(id) {
            let k = choose|k: int| 0 <= k < head.len() && wanted(#[trigger] head[k]) == Some(id);
            assert(wanted(windows[k]) == Some(id));
        }
        if exists|k: int| 0 <= k < windows.len() && wanted(#[trigger] windows[k]) == Some(id) {
            let k = choose|k: int|
                0 <= k < windows.len() && wanted(#[trigger] windows[k]) == Some(id);
            if k < n {
                assert(wanted(head[k]) == Some(id));
            }
        }
    }
}

/// With no active workspace nothing is dimmed.
pub proof fn without_an_active_workspace_nothing_is_dimmed(workspaces: Value, items: Seq<Value>)
    ensures
        array_items(workspaces) is None ==> desired(workspaces) =~= Set::<u32>::empty(),
        array_items(workspaces) == Some(items) && (forall|j: int|
            0 <= j < items.len() ==> field_bool(#[trigger] items[j], "is_active"@) != Some(true))
            ==> desired(workspaces) =~= Set::<u32>::empty(),
{
    if array_items(workspaces) == Some(items) && (forall|j: int|
        0 <= j < items.len() ==> field_bool(#[trigger] items[j], "is_active"@) != Some(true)) {
        lemma_none_active(items);
    }
}

proof fn lemma_none_active(items: Seq<Value>)
    requires
        forall|j: int|
            0 <= j < items.len() ==> field_bool(#[trigger] items[j], "is_active"@) != Some(true),
    ensures
        active_workspace(items) is None,
    decreases items.len(),
{
    if items.len() > 0 {
        let rest = items.drop_first();
        assert(field_bool(items[0], "is_active"@) != Some(true));
        assert forall|j: int| 0 <= j < rest.len() implies field_bool(
            #[trigger] rest[j],
            "is_active"@,
        ) != Some(true) by {
            assert(rest[j] == items[j + 1]);
        }
        lemma_none_active(rest);
    }
}

/// A display that shows another space than before has the old one made bright again before the new
/// one is dimmed.
pub proof fn the_space_that_was_left_is_reset_first(before: u64, space: u64)
    ensures
        before != space ==> change_steps(Some(before), space) =~= seq![
            DimmerStep::Reset(before),
            DimmerStep::Refresh(space),
        ],
        change_steps(Some(space), space) =~= seq![DimmerStep::Refresh(space)],
        change_steps(None, space) =~= seq![DimmerStep::Refresh(space)],
{
}

/// Events that change what shows refresh the space that they name; any other event does nothing.
pub proof fn events_refresh_the_space_they_name(
    entries: Seq<ShownSpace>,
    event: Value,
    space: u64,
    display: Seq<char>,
)
    requires
        field_u64(event, "space_id"@) == Some(space),
    ensures
        field_str(event, "type"@) == Some("windows_changed"@) || field_str(event, "type"@) == Some(
            "focused_window_changed"@,
        ) ==> event_steps(entries, event).len() > 0 && event_steps(entries, event).last()
            == DimmerStep::Refresh(space),
        field_str(event, "type"@) == Some("workspace_changed"@) ==> event_steps(
            entries,
            event,
        ).len() > 0 && event_steps(entries, event).last() == DimmerStep::Refresh(space),
        field_str(event, "type"@) == Some("workspace_changed"@) && field_str(
            event,
            "display_uuid"@,
        ) == Some(display) ==> shown_by(event) == Some((display, space)),
        field_str(event, "type"@) is None ==> event_steps(entries, event).len() == 0
            && shown_by(event) is None,
        field_str(event, "type"@) is Some && field_str(event, "type"@)->0 != "workspace_changed"@
            && field_str(event, "type"@)->0 != "focused_window_changed"@ && field_str(
            event,
            "type"@,
        )->0 != "windows_changed"@ ==> event_steps(entries, event).len() == 0 && shown_by(event)
            is None,
{
}

/// An event that names no space does nothing.
pub proof fn events_without_a_space_do_nothing(entries: Seq<ShownSpace>, event: Value)
    requires
        field_u64(event, "space_id"@) is None,
    ensures
        event_steps(entries, event).len() == 0,
        shown_by(event) is None,
{
}

/// A display shows the space that it was first noted with, and displays that were not noted show
/// none.
pub proof fn displays_show_the_space_noted_for_them(
    entries: Seq<ShownSpace>,
    display: Seq<char>,
    i: int,
)
    ensures
        0 <= i < entries.len() && entries[i].display@ == display && (forall|j: int|
            0 <= j < i ==> (#[trigger] entries[j]).display@ != display) ==> space_shown(
            entries,
            display,
        ) == Some(entries[i].space),
        (forall|j: int| 0 <= j < entries.len() ==> (#[trigger] entries[j]).display@ != display)
            ==> space_shown(entries, display) is None,
{
    if 0 <= i < entries.len() && entries[i].display@ == display && (forall|j: int|
        0 <= j < i ==> (#[trigger] entries[j]).display@ != display) {
        lemma_shown_update(entries, i, 0, display);
    }
    if forall|j: int| 0 <= j < entries.len() ==> (#[trigger] entries[j]).display@ != display {
        lemma_not_shown(entries, display);
    }
}

/// Of the displays that are told, the last entry of a display with a space counts, and the active
/// spaces are exactly those that are told to be.
pub proof fn told_displays_show_their_spaces(
    displays: Seq<Value>,
    display: Seq<char>,
    known: Option<u64>,
    space: u64,
    i: int,
)
    ensures
        0 <= i < displays.len() && field_u64(displays[i], "space"@) == Some(space) && field_str(
            displays[i],
            "uuid"@,
        ) == Some(display) && (forall|j: int|
            i < j < displays.len() ==> field_str(#[trigger] displays[j], "uuid"@) != Some(display))
            ==> told_space(displays, display, known) == Some(space),
        (forall|j: int|
            0 <= j < displays.len() ==> field_str(#[trigger] displays[j], "uuid"@) != Some(display))
            ==> told_space(displays, display, known) == known,
        active_spaces(displays).contains(space) <==> exists|k: int|
            0 <= k < displays.len() && field_u64(#[trigger] displays[k], "space"@) == Some(space)
                && field_bool(displays[k], "is_active_space"@) == Some(true),
    decreases displays.len(),
{
    if displays.len() > 0 {
        let head = displays.drop_last();
        let n = displays.len() - 1;
        told_displays_show_their_spaces(head, display, known, space, i);
        assert(forall|k: int| 0 <= k < n ==> head[k] == displays[k]);
        assert(displays[n] == displays.last());
        if 0 <= i < n && (forall|j: int|
            i < j < displays.len() ==> field_str(#[trigger] displays[j], "uuid"@) != Some(display)) {
            assert(field_str(displays[n], "uuid"@) != Some(display));
        }
        if forall|j: int|
            0 <= j < displays.len() ==> field_str(#[trigger] displays[j], "uuid"@) != Some(display) {
            assert(field_str(displays[n], "uuid"@) != Some(display));
            assert forall|j: int| 0 <= j < head.len() implies field_str(#[trigger] head[j], "uuid"@)
                != Some(display) by {
                assert(head[j] == displays[j]);
            }
        }
        if field_u64(displays.last(), "space"@) is Some {
            crate::collections::lemma_push_contains(
                active_spaces(head),
                field_u64(displays.last(), "space"@)->0,
            );
        }
        if exists|k: int|
            0 <= k < head.len() && field_u64(#[trigger] head[k], "space"@) == Some(space)
                && field_bool(head[k], "is_active_space"@) == Some(true) {
            let k = choose|k: int|
                0 <= k < head.len() && field_u64(#[trigger] head[k], "space"@) == Some(space)
                    && field_bool(head[k], "is_active_space"@) == Some(true);
            assert(field_u64(displays[k], "space"@) == Some(space));
        }
        if exists|k: int|
            0 <= k < displays.len() && field_u64(#[trigger] displays[k], "space"@) == Some(space)
                && field_bool(displays[k], "is_active_space"@) == Some(true) {
            let k = choose|k: int|
                0 <= k < displays.len() && field_u64(#[trigger] displays[k], "space"@) == Some(
                    space,
                ) && field_bool(displays[k], "is_active_space"@) == Some(true);
            if k < n {
                assert(field_u64(head[k], "space"@) == Some(space));
            }
        }
    }
}

/// A refresh dims the windows that are to be and are not, and makes those bright that are not to be
/// and are.
pub proof fn brightness_changes_where_it_has_to(
    dimmer: Dimmer,
    space: u64,
    desired: Set<u32>,
    r: Seq<BrightnessChange>,
    window: u32,
)
    requires
        is_change(dimmer, space, desired, r),
    ensures
        r.contains(BrightnessChange { window, dimmed: true }) <==> desired.contains(window)
            && !dimmer.dimmed@.contains(DimmedWindow { space, window }),
        r.contains(BrightnessChange { window, dimmed: false }) <==> !desired.contains(window)
            && dimmer.dimmed@.contains(DimmedWindow { space, window }),
{
    assert(dimmer.dims(space, window) == dimmer.dimmed@.contains(DimmedWindow { space, window }));
    assert(desired.contains(window) || !desired.contains(window));
}

} // verus!
