//! A bar in the middle of each screen that lists the workspaces with their windows. Where its
//! parts lie depends on how wide the labels are drawn; what it shows is decided here.

use std::collections::hash_map::DefaultHasher;
use std::hash::Hasher;

#[allow(unused_imports)]
use vstd::bytes::{spec_u32_to_le_bytes, spec_u64_to_le_bytes};
use vstd::bytes::{u32_to_le_bytes, u64_to_le_bytes};
use vstd::prelude::*;
#[allow(unused_imports)]
use vstd::std_specs::hash::DefaultHasherAdditionalSpecFns;
use vstd::string::*;

use crate::collections::{contains, copied};
#[allow(unused_imports)]
use crate::menu_bar::pid_bits;
use crate::model::SpaceId;
use crate::mouse::NSWindowLevel;
use crate::protocol::queries::{WindowData, WindowId, WorkspaceData};
#[allow(unused_imports)]
use crate::text::{digits_of, text_view};
use crate::text::{push_unsigned, same_optional};

verus! {

#[derive(Clone, Copy, Debug, PartialEq, Eq, Structural)]
pub enum CenteredBarPosition {
    BelowMenuBar,
    OverlappingMenuBar,
}

#[derive(Clone, Copy, Debug, PartialEq, Eq, Structural)]
pub enum CenteredBarWindowLevel {
    Normal,
    Floating,
    Status,
    Screensaver,
    Popup,
}

#[derive(Clone, Copy, Debug, PartialEq, Eq, Structural)]
pub struct CenteredBarSettings {
    pub enabled: bool,
    pub show_numbers: bool,
    pub show_mode_indicator: bool,
    pub deduplicate_icons: bool,
    pub hide_empty_workspaces: bool,
    pub notch_aware: bool,
    pub position: CenteredBarPosition,
    pub window_level: CenteredBarWindowLevel,
}

#[derive(Clone, Debug, PartialEq, Eq)]
pub struct UpdateDisplay {
    pub screen_id: u32,
    pub space: Option<SpaceId>,
    pub workspaces: Vec<WorkspaceData>,
    pub active_workspace_idx: Option<u64>,
}

#[derive(Clone, Debug, PartialEq, Eq)]
pub struct Update {
    pub displays: Vec<UpdateDisplay>,
}

/// The level of the bar's window.
pub fn window_level_for(level: CenteredBarWindowLevel) -> (r: NSWindowLevel)
    ensures
        r == (match level {
            CenteredBarWindowLevel::Normal => 0i64,
            CenteredBarWindowLevel::Floating => 3,
            CenteredBarWindowLevel::Status => 25,
            CenteredBarWindowLevel::Screensaver => 1000,
            CenteredBarWindowLevel::Popup => 101,
        }),
{
    match level {
        CenteredBarWindowLevel::Normal => 0,
        CenteredBarWindowLevel::Floating => 3,
        CenteredBarWindowLevel::Status => 25,
        CenteredBarWindowLevel::Screensaver => 1000,
        CenteredBarWindowLevel::Popup => 101,
    }
}

/// A window in the bar; it stands for `count` windows of one application.
#[derive(Clone, Copy, Debug, PartialEq, Eq, Structural)]
pub struct BarWindow {
    pub window_id: WindowId,
    pub window_server_id: Option<u32>,
    pub count: usize,
}

#[derive(Clone, Debug, PartialEq, Eq)]
pub struct BarWorkspace {
    pub index: usize,
    pub label: String,
    pub is_active: bool,
    pub windows: Vec<BarWindow>,
}

#[verifier::ext_equal]
pub struct BarItem {
    pub index: usize,
    pub label: Seq<char>,
    pub is_active: bool,
    pub windows: Seq<BarWindow>,
}

impl BarWorkspace {
    pub open spec fn view(self) -> BarItem {
        BarItem {
            index: self.index,
            label: self.label@,
            is_active: self.is_active,
            windows: self.windows@,
        }
    }
}

pub open spec fn items(v: Seq<BarWorkspace>) -> Seq<BarItem> {
    v.map_values(|w: BarWorkspace| w@)
}

/// Whether two windows have the same icon.
pub open spec fn same_icon(a: WindowData, b: WindowData) -> bool {
    text_view(a.bundle_id) == text_view(b.bundle_id) && a.id.pid == b.id.pid
}

/// The number of windows with the icon of `w`.
pub open spec fn icon_count(windows: Seq<WindowData>, w: WindowData) -> nat
    decreases windows.len(),
{
    if windows.len() == 0 {
        0
    } else {
        icon_count(windows.drop_last(), w) + if same_icon(windows.last(), w) {
            1nat
        } else {
            0nat
        }
    }
}

/// Whether window `i` is the first with its icon.
pub open spec fn is_first_of_icon(windows: Seq<WindowData>, i: int) -> bool {
    forall|j: int| 0 <= j < i ==> !same_icon(#[trigger] windows[j], windows[i])
}

/// What the first `n` windows give: each by itself, or the first of those with the same icon.
pub open spec fn arranged(windows: Seq<WindowData>, deduplicate: bool, n: nat) -> Seq<BarWindow>
    decreases n,
{
    if n == 0 {
        Seq::empty()
    } else {
        let head = arranged(windows, deduplicate, (n - 1) as nat);
        let w = windows[n - 1];
        if !deduplicate {
            head.push(
                BarWindow { window_id: w.id, window_server_id: w.window_server_id, count: 1 },
            )
        } else if is_first_of_icon(windows, n - 1) {
            head.push(
                BarWindow {
                    window_id: w.id,
                    window_server_id: w.window_server_id,
                    count: icon_count(windows, w) as usize,
                },
            )
        } else {
            head
        }
    }
}

fn same_icons(a: &WindowData, b: &WindowData) -> (r: bool)
    ensures
        r == same_icon(*a, *b),
{
    a.id.pid == b.id.pid && same_optional(&a.bundle_id, &b.bundle_id)
}

/// The windows of a workspace as the bar shows them.
pub fn build_windows(windows: &Vec<WindowData>, deduplicate: bool) -> (r: Vec<BarWindow>)
    ensures
        r@ == arranged(windows@, deduplicate, windows@.len()),
{
    let mut r: Vec<BarWindow> = Vec::new();
    let mut i: usize = 0;
    while i < windows.len()
        invariant
            i <= windows@.len(),
            r@ == arranged(windows@, deduplicate, i as nat),
        decreases windows@.len() - i,
    {
        let w = &windows[i];
        let mut first: bool = true;
        let mut count: usize = 0;
        let mut k: usize = 0;
        while k < windows.len()
            invariant
                i < windows@.len(),
                *w == windows@[i as int],
                k <= windows@.len(),
                count <= k,
                count == icon_count(windows@.take(k as int), *w),
                first == (forall|j: int|
                    0 <= j < i && j < k ==> !same_icon(#[trigger] windows@[j], *w)),
            decreases windows@.len() - k,
        {
            assert(windows@.take(k + 1).drop_last() =~= windows@.take(k as int));
            if same_icons(&windows[k], w) {
                count = count + 1;
                if k < i {
                    assert(same_icon(windows@[k as int], *w));
                    first = false;
                }
            }
            k = k + 1;
        }
        assert(windows@.take(k as int) =~= windows@);
        assert(first == is_first_of_icon(windows@, i as int));
        if !deduplicate {
            r.push(BarWindow { window_id: w.id, window_server_id: w.window_server_id, count: 1 });
        } else if first {
            r.push(BarWindow { window_id: w.id, window_server_id: w.window_server_id, count });
        }
        i = i + 1;
    }
    r
}

/// Whether a workspace is left out.
pub open spec fn is_hidden(settings: CenteredBarSettings, ws: WorkspaceData) -> bool {
    settings.hide_empty_workspaces && ws.window_count == 0
}

/// The label of a workspace: its number, which counts from one, or its name.
pub open spec fn label_of(settings: CenteredBarSettings, ws: WorkspaceData) -> Seq<char> {
    if settings.show_numbers {
        (if settings.show_mode_indicator && ws.is_active {
            "[M] "@
        } else {
            Seq::empty()
        }) + digits_of((ws.index + 1) as nat)
    } else {
        ws.name@
    }
}

/// What the bar shows.
pub open spec fn bar_items(settings: CenteredBarSettings, workspaces: Seq<WorkspaceData>) -> Seq<
    BarItem,
>
    decreases workspaces.len(),
{
    if workspaces.len() == 0 {
        Seq::empty()
    } else {
        let head = bar_items(settings, workspaces.drop_last());
        let ws = workspaces.last();
        if is_hidden(settings, ws) {
            head
        } else {
            head.push(
                BarItem {
                    index: ws.index,
                    label: label_of(settings, ws),
                    is_active: ws.is_active,
                    windows: arranged(ws.windows@, settings.deduplicate_icons, ws.windows@.len()),
                },
            )
        }
    }
}

fn build_label(settings: &CenteredBarSettings, ws: &WorkspaceData) -> (r: String)
    requires
        settings.show_numbers ==> ws.index < usize::MAX,
    ensures
        r@ == label_of(*settings, *ws),
{
    if settings.show_numbers {
        let mut r: String = String::new();
        if settings.show_mode_indicator && ws.is_active {
            r.append("[M] ");
        }
        let number: u64 = (ws.index + 1) as u64;
        push_unsigned(&mut r, number);
        assert(r@ =~= label_of(*settings, *ws));
        r
    } else {
        ws.name.clone()
    }
}

/// What the bar of a screen shows. Numbers count from one, so that of a workspace must not be the
/// greatest there is.
pub fn build_layout(workspaces: &Vec<WorkspaceData>, settings: &CenteredBarSettings) -> (r: Vec<
    BarWorkspace,
>)
    requires
        settings.show_numbers ==> forall|i: int|
            0 <= i < workspaces@.len() && !is_hidden(*settings, workspaces@[i])
                ==> (#[trigger] workspaces@[i]).index < usize::MAX,
    ensures
        items(r@) == bar_items(*settings, workspaces@),
{
    let mut r: Vec<BarWorkspace> = Vec::new();
    let mut i: usize = 0;
    assert(items(r@) =~= Seq::<BarItem>::empty());
    while i < workspaces.len()
        invariant
            i <= workspaces@.len(),
            items(r@) == bar_items(*settings, workspaces@.take(i as int)),
            settings.show_numbers ==> forall|i: int|
                0 <= i < workspaces@.len() && !is_hidden(*settings, workspaces@[i])
                    ==> (#[trigger] workspaces@[i]).index < usize::MAX,
        decreases workspaces@.len() - i,
    {
        assert(workspaces@.take(i + 1).drop_last() =~= workspaces@.take(i as int));
        assert(workspaces@.take(i + 1).last() == workspaces@[i as int]);
        let ws = &workspaces[i];
        if !(settings.hide_empty_workspaces && ws.window_count == 0) {
            let ghost before = r@;
            let item = BarWorkspace {
                index: ws.index,
                label: build_label(settings, ws),
                is_active: ws.is_active,
                windows: build_windows(&ws.windows, settings.deduplicate_icons),
            };
            r.push(item);
            assert(items(r@) =~= items(before).push(item@));
        }
        i = i + 1;
    }
    assert(workspaces@.take(i as int) =~= workspaces@);
    r
}

/// What a click on the bar does.
#[derive(Clone, Copy, Debug, PartialEq, Eq, Structural)]
pub enum BarAction {
    Workspace(usize),
    Window { window_id: WindowId, window_server_id: Option<u32> },
}

pub open spec fn window_targets(windows: Seq<BarWindow>) -> Seq<BarAction> {
    windows.map_values(
        |w: BarWindow|
            BarAction::Window { window_id: w.window_id, window_server_id: w.window_server_id },
    )
}

/// What can be clicked, in the order in which it is tried: each workspace before its windows.
pub open spec fn targets_of(bar: Seq<BarItem>) -> Seq<BarAction>
    decreases bar.len(),
{
    if bar.len() == 0 {
        Seq::empty()
    } else {
        targets_of(bar.drop_last()).push(BarAction::Workspace(bar.last().index)) + window_targets(
            bar.last().windows,
        )
    }
}

pub fn bar_targets(bar: &Vec<BarWorkspace>) -> (r: Vec<BarAction>)
    ensures
        r@ == targets_of(items(bar@)),
{
    let mut r: Vec<BarAction> = Vec::new();
    let mut i: usize = 0;
    while i < bar.len()
        invariant
            i <= bar@.len(),
            r@ == targets_of(items(bar@).take(i as int)),
        decreases bar@.len() - i,
    {
        assert(items(bar@).take(i + 1).drop_last() =~= items(bar@).take(i as int));
        assert(items(bar@).take(i + 1).last() == bar@[i as int]@);
        r.push(BarAction::Workspace(bar[i].index));
        let windows = &bar[i].windows;
        let ghost before = r@;
        let mut k: usize = 0;
        while k < windows.len()
            invariant
                k <= windows@.len(),
                r@ == before + window_targets(windows@).take(k as int),
            decreases windows@.len() - k,
        {
            r.push(
                BarAction::Window {
                    window_id: windows[k].window_id,
                    window_server_id: windows[k].window_server_id,
                },
            );
            assert(window_targets(windows@).take(k + 1) =~= window_targets(windows@).take(
                k as int,
            ).push(r@.last()));
            assert(r@ =~= before + window_targets(windows@).take(k + 1));
            k = k + 1;
        }
        assert(window_targets(windows@).take(k as int) =~= window_targets(windows@));
        i = i + 1;
    }
    assert(items(bar@).take(i as int) =~= items(bar@));
    r
}

/// The first target that was hit.
pub open spec fn first_hit(targets: Seq<BarAction>, hit: Seq<bool>) -> Option<BarAction>
    decreases targets.len(),
{
    if targets.len() == 0 || hit.len() == 0 {
        None
    } else if hit[0] {
        Some(targets[0])
    } else {
        first_hit(targets.drop_first(), hit.drop_first())
    }
}

/// The target of a click: `hit` says of each target whether the click is on it.
pub fn mouse_down(targets: &Vec<BarAction>, hit: &Vec<bool>) -> (r: Option<BarAction>)
    ensures
        r == first_hit(targets@, hit@),
{
    let mut i: usize = 0;
    assert(targets@.skip(0) =~= targets@);
    assert(hit@.skip(0) =~= hit@);
    while i < targets.len() && i < hit.len()
        invariant
            i <= targets@.len(),
            i <= hit@.len(),
            first_hit(targets@, hit@) == first_hit(targets@.skip(i as int), hit@.skip(i as int)),
        decreases targets@.len() - i,
    {
        if hit[i] {
            return Some(targets[i]);
        }
        assert(targets@.skip(i as int).drop_first() =~= targets@.skip(i + 1));
        assert(hit@.skip(i as int).drop_first() =~= hit@.skip(i + 1));
        i = i + 1;
    }
    None
}

pub open spec fn byte(b: bool) -> u8 {
    if b {
        1
    } else {
        0
    }
}

fn byte_of(b: bool) -> (r: u8)
    ensures
        r == byte(b),
{
    if b {
        1
    } else {
        0
    }
}

/// The settings as bytes.
pub open spec fn settings_bytes(s: CenteredBarSettings) -> Seq<u8> {
    seq![
        byte(s.enabled),
        byte(s.show_numbers),
        byte(s.show_mode_indicator),
        byte(s.deduplicate_icons),
        byte(s.hide_empty_workspaces),
        byte(s.notch_aware),
        match s.position {
            CenteredBarPosition::BelowMenuBar => 0u8,
            CenteredBarPosition::OverlappingMenuBar => 1,
        },
        match s.window_level {
            CenteredBarWindowLevel::Normal => 0u8,
            CenteredBarWindowLevel::Floating => 1,
            CenteredBarWindowLevel::Status => 2,
            CenteredBarWindowLevel::Screensaver => 3,
            CenteredBarWindowLevel::Popup => 4,
        },
    ]
}

/// What is written to the hasher for windows.
pub open spec fn window_writes(windows: Seq<WindowData>) -> Seq<Seq<u8>>
    decreases windows.len(),
{
    if windows.len() == 0 {
        Seq::empty()
    } else {
        window_writes(windows.drop_last()).push(
            spec_u32_to_le_bytes(pid_bits(windows.last().id.pid)),
        ).push(spec_u32_to_le_bytes(windows.last().id.idx)).push(
            seq![byte(windows.last().is_focused)],
        )
    }
}

pub open spec fn workspace_writes(workspaces: Seq<WorkspaceData>) -> Seq<Seq<u8>>
    decreases workspaces.len(),
{
    if workspaces.len() == 0 {
        Seq::empty()
    } else {
        let ws = workspaces.last();
        workspace_writes(workspaces.drop_last()).push(spec_u64_to_le_bytes(ws.index as u64)).push(
            seq![byte(ws.is_active)],
        ).push(spec_u64_to_le_bytes(ws.window_count as u64)) + window_writes(ws.windows@)
    }
}

pub open spec fn display_writes(displays: Seq<UpdateDisplay>) -> Seq<Seq<u8>>
    decreases displays.len(),
{
    if displays.len() == 0 {
        Seq::empty()
    } else {
        let d = displays.last();
        display_writes(displays.drop_last()).push(spec_u32_to_le_bytes(d.screen_id)).push(
            spec_u64_to_le_bytes(d.workspaces@.len() as u64),
        ) + workspace_writes(d.workspaces@)
    }
}

/// The hash of what the bars show.
pub open spec fn bar_signature(s: CenteredBarSettings, displays: Seq<UpdateDisplay>) -> u64 {
    DefaultHasher::spec_finish(seq![settings_bytes(s)] + display_writes(displays))
}

fn write_word(h: &mut DefaultHasher, word: u64)
    ensures
        final(h)@ == old(h)@.push(spec_u64_to_le_bytes(word)),
{
    let bytes = u64_to_le_bytes(word);
    h.write(bytes.as_slice());
}

fn write_half(h: &mut DefaultHasher, word: u32)
    ensures
        final(h)@ == old(h)@.push(spec_u32_to_le_bytes(word)),
{
    let bytes = u32_to_le_bytes(word);
    h.write(bytes.as_slice());
}

fn write_flag(h: &mut DefaultHasher, flag: bool)
    ensures
        final(h)@ == old(h)@.push(seq![byte(flag)]),
{
    let bytes: Vec<u8> = vec![byte_of(flag)];
    assert(bytes@ =~= seq![byte(flag)]);
    h.write(bytes.as_slice());
}

fn write_windows(h: &mut DefaultHasher, windows: &Vec<WindowData>)
    ensures
        final(h)@ == old(h)@ + window_writes(windows@),
{
    let ghost before = h@;
    let mut i: usize = 0;
    assert(before + window_writes(windows@.take(0)) =~= before);
    while i < windows.len()
        invariant
            i <= windows@.len(),
            h@ == before + window_writes(windows@.take(i as int)),
        decreases windows@.len() - i,
    {
        assert(windows@.take(i + 1).drop_last() =~= windows@.take(i as int));
        let pid: u32 = #[verifier::truncate]
        (windows[i].id.pid as u32);
        write_half(h, pid);
        write_half(h, windows[i].id.idx);
        write_flag(h, windows[i].is_focused);
        assert(h@ =~= before + window_writes(windows@.take(i + 1)));
        i = i + 1;
    }
    assert(windows@.take(i as int) =~= windows@);
}

fn write_workspaces(h: &mut DefaultHasher, workspaces: &Vec<WorkspaceData>)
    ensures
        final(h)@ == old(h)@ + workspace_writes(workspaces@),
{
    let ghost before = h@;
    let mut i: usize = 0;
    assert(before + workspace_writes(workspaces@.take(0)) =~= before);
    while i < workspaces.len()
        invariant
            i <= workspaces@.len(),
            h@ == before + workspace_writes(workspaces@.take(i as int)),
        decreases workspaces@.len() - i,
    {
        assert(workspaces@.take(i + 1).drop_last() =~= workspaces@.take(i as int));
        let ws = &workspaces[i];
        write_word(h, ws.index as u64);
        write_flag(h, ws.is_active);
        write_word(h, ws.window_count as u64);
        write_windows(h, &ws.windows);
        assert(h@ =~= before + workspace_writes(workspaces@.take(i + 1)));
        i = i + 1;
    }
    assert(workspaces@.take(i as int) =~= workspaces@);
}

fn write_settings(h: &mut DefaultHasher, s: &CenteredBarSettings)
    ensures
        final(h)@ == old(h)@.push(settings_bytes(*s)),
{
    let position: u8 = match s.position {
        CenteredBarPosition::BelowMenuBar => 0,
        CenteredBarPosition::OverlappingMenuBar => 1,
    };
    let level: u8 = match s.window_level {
        CenteredBarWindowLevel::Normal => 0,
        CenteredBarWindowLevel::Floating => 1,
        CenteredBarWindowLevel::Status => 2,
        CenteredBarWindowLevel::Screensaver => 3,
        CenteredBarWindowLevel::Popup => 4,
    };
    let bytes: Vec<u8> = vec![
        byte_of(s.enabled),
        byte_of(s.show_numbers),
        byte_of(s.show_mode_indicator),
        byte_of(s.deduplicate_icons),
        byte_of(s.hide_empty_workspaces),
        byte_of(s.notch_aware),
        position,
        level,
    ];
    assert(bytes@ =~= settings_bytes(*s));
    h.write(bytes.as_slice());
}

/// The hash of what the bars show: settings, screens, workspaces and windows.
pub fn calc_signature(settings: &CenteredBarSettings, update: &Update) -> (r: u64)
    ensures
        r == bar_signature(*settings, update.displays@),
{
    let mut h = DefaultHasher::new();
    write_settings(&mut h, settings);
    let ghost before = h@;
    assert(before =~= seq![settings_bytes(*settings)]);
    let displays = &update.displays;
    let mut i: usize = 0;
    assert(before + display_writes(displays@.take(0)) =~= before);
    while i < displays.len()
        invariant
            i <= displays@.len(),
            h@ == before + display_writes(displays@.take(i as int)),
        decreases displays@.len() - i,
    {
        assert(displays@.take(i + 1).drop_last() =~= displays@.take(i as int));
        write_half(&mut h, displays[i].screen_id);
        write_word(&mut h, displays[i].workspaces.len() as u64);
        write_workspaces(&mut h, &displays[i].workspaces);
        assert(h@ =~= before + display_writes(displays@.take(i + 1)));
        i = i + 1;
    }
    assert(displays@.take(i as int) =~= displays@);
    h.finish()
}

/// What becomes of the panels that the bars are drawn in.
#[derive(Clone, Copy, Debug, PartialEq, Eq, Structural)]
pub enum PanelStep {
    /// Close the panel of this screen.
    Close(u32),
    /// Make a panel for this screen.
    Make(u32),
    /// Draw the display at this position of the update in the panel of its screen.
    Apply(usize),
}

pub struct CenteredBar {
    pub settings: CenteredBarSettings,
    /// The screens that have a panel.
    pub panels: Vec<u32>,
    pub last_signature: Option<u64>,
}

#[verifier::ext_equal]
pub struct Bar {
    pub settings: CenteredBarSettings,
    pub panels: Seq<u32>,
    pub signature: Option<u64>,
}

pub open spec fn closings(panels: Seq<u32>) -> Seq<PanelStep> {
    panels.map_values(|p: u32| PanelStep::Close(p))
}

/// Whether one of the displays is this screen.
pub open spec fn has_screen(displays: Seq<UpdateDisplay>, screen: u32) -> bool {
    exists|i: int| 0 <= i < displays.len() && (#[trigger] displays[i]).screen_id == screen
}

/// The panels whose screens are among the displays, or are not.
pub open spec fn sorted_out(panels: Seq<u32>, displays: Seq<UpdateDisplay>, present: bool) -> Seq<
    u32,
>
    decreases panels.len(),
{
    if panels.len() == 0 {
        Seq::empty()
    } else {
        let head = sorted_out(panels.drop_last(), displays, present);
        if has_screen(displays, panels.last()) == present {
            head.push(panels.last())
        } else {
            head
        }
    }
}

/// The panels after the first `n` displays were drawn, and what is done for them.
pub open spec fn drawn(panels: Seq<u32>, displays: Seq<UpdateDisplay>, n: nat) -> (
    Seq<u32>,
    Seq<PanelStep>,
)
    decreases n,
{
    if n == 0 {
        (panels, Seq::empty())
    } else {
        let r = drawn(panels, displays, (n - 1) as nat);
        let d = displays[n - 1];
        if d.space is None {
            r
        } else if r.0.contains(d.screen_id) {
            (r.0, r.1.push(PanelStep::Apply((n - 1) as usize)))
        } else {
            (
                r.0.push(d.screen_id),
                r.1.push(PanelStep::Make(d.screen_id)).push(PanelStep::Apply((n - 1) as usize)),
            )
        }
    }
}

impl Bar {
    pub open spec fn disposed(self) -> (Bar, Seq<PanelStep>) {
        (Bar { panels: Seq::empty(), ..self }, closings(self.panels))
    }

    pub open spec fn updated(self, displays: Seq<UpdateDisplay>) -> (Bar, Seq<PanelStep>) {
        let sig = bar_signature(self.settings, displays);
        if !self.settings.enabled {
            (Bar { signature: None, ..self.disposed().0 }, self.disposed().1)
        } else if self.signature == Some(sig) {
            (self, Seq::empty())
        } else {
            let r = drawn(sorted_out(self.panels, displays, true), displays, displays.len());
            (
                Bar { panels: r.0, signature: Some(sig), ..self },
                closings(sorted_out(self.panels, displays, false)) + r.1,
            )
        }
    }

    pub open spec fn configured(self, settings: CenteredBarSettings) -> (Bar, Seq<PanelStep>) {
        let next = Bar { settings, signature: None, ..self };
        if settings.enabled {
            (next, Seq::empty())
        } else {
            next.disposed()
        }
    }
}

impl CenteredBar {
    pub open spec fn view(self) -> Bar {
        Bar {
            settings: self.settings,
            panels: self.panels@,
            signature: self.last_signature,
        }
    }

    pub fn new(settings: CenteredBarSettings) -> (r: CenteredBar)
        ensures
            r@ == (Bar { settings, panels: Seq::empty(), signature: None }),
    {
        CenteredBar { settings, panels: Vec::new(), last_signature: None }
    }

    /// Closes all panels.
    pub fn dispose_panels(&mut self) -> (r: Vec<PanelStep>)
        ensures
            (final(self)@, r@) == old(self)@.disposed(),
    {
        let mut out: Vec<PanelStep> = Vec::new();
        let mut i: usize = 0;
        while i < self.panels.len()
            invariant
                i <= self.panels@.len(),
                out@ == closings(self.panels@).take(i as int),
                self@ == old(self)@,
            decreases self.panels@.len() - i,
        {
            out.push(PanelStep::Close(self.panels[i]));
            assert(closings(self.panels@).take(i + 1) =~= closings(self.panels@).take(
                i as int,
            ).push(out@.last()));
            i = i + 1;
        }
        assert(closings(self.panels@).take(i as int) =~= closings(self.panels@));
        self.panels = Vec::new();
        out
    }

    pub fn handle_config_updated(&mut self, settings: CenteredBarSettings) -> (r: Vec<PanelStep>)
        ensures
            (final(self)@, r@) == old(self)@.configured(settings),
    {
        self.settings = settings;
        self.last_signature = None;
        if !self.settings.enabled {
            return self.dispose_panels();
        }
        Vec::new()
    }

    fn prune_panels(&mut self, update: &Update) -> (r: Vec<PanelStep>)
        ensures
            final(self)@ == (Bar {
                panels: sorted_out(old(self)@.panels, update.displays@, true),
                ..old(self)@
            }),
            r@ == closings(sorted_out(old(self)@.panels, update.displays@, false)),
    {
        let mut keep: Vec<u32> = Vec::new();
        let mut i: usize = 0;
        while i < update.displays.len()
            invariant
                i <= update.displays@.len(),
                keep@.len() == i,
                forall|j: int| 0 <= j < i ==> keep@[j] == (#[trigger] update.displays@[j]).screen_id,
                self@ == old(self)@,
            decreases update.displays@.len() - i,
        {
            keep.push(update.displays[i].screen_id);
            i = i + 1;
        }
        let panels = copied(&self.panels);
        let mut kept: Vec<u32> = Vec::new();
        let mut out: Vec<PanelStep> = Vec::new();
        let mut k: usize = 0;
        assert(closings(sorted_out(panels@.take(0), update.displays@, false)) =~= out@);
        while k < panels.len()
            invariant
                k <= panels@.len(),
                kept@ == sorted_out(panels@.take(k as int), update.displays@, true),
                out@ == closings(sorted_out(panels@.take(k as int), update.displays@, false)),
                keep@.len() == update.displays@.len(),
                forall|j: int|
                    0 <= j < keep@.len() ==> keep@[j] == (#[trigger] update.displays@[j]).screen_id,
            decreases panels@.len() - k,
        {
            assert(panels@.take(k + 1).drop_last() =~= panels@.take(k as int));
            let screen: u32 = panels[k];
            let present = contains(&keep, &screen);
            proof {
                if keep@.contains(screen) {
                    let j = keep@.index_of(screen);
                    assert(update.displays@[j].screen_id == screen);
                }
                if has_screen(update.displays@, screen) {
                    let j = choose|j: int|
                        0 <= j < update.displays@.len() && (#[trigger] update.displays@[j]).screen_id
                            == screen;
                    assert(keep@[j] == screen);
                }
                assert(present == has_screen(update.displays@, screen));
            }
            let ghost gone = sorted_out(panels@.take(k as int), update.displays@, false);
            if present {
                kept.push(screen);
            } else {
                out.push(PanelStep::Close(screen));
                assert(closings(gone.push(screen)) =~= closings(gone).push(
                    PanelStep::Close(screen),
                ));
            }
            k = k + 1;
        }
        assert(panels@.take(k as int) =~= panels@);
        self.panels = kept;
        out
    }

    /// Handles an update. The result is what is done with the panels, in this order.
    pub fn handle_update(&mut self, update: &Update) -> (r: Vec<PanelStep>)
        ensures
            (final(self)@, r@) == old(self)@.updated(update.displays@),
    {
        if !self.settings.enabled {
            let out = self.dispose_panels();
            self.last_signature = None;
            return out;
        }
        let sig: u64 = calc_signature(&self.settings, update);
        if self.last_signature == Some(sig) {
            return Vec::new();
        }
        self.last_signature = Some(sig);
        let mut out = self.prune_panels(update);
        let ghost first = out@;
        let ghost kept = self.panels@;
        let displays = &update.displays;
        let mut i: usize = 0;
        assert(first + drawn(kept, displays@, 0).1 =~= first);
        while i < displays.len()
            invariant
                i <= displays@.len(),
                self.panels@ == drawn(kept, displays@, i as nat).0,
                out@ == first + drawn(kept, displays@, i as nat).1,
                self.settings == old(self).settings,
                self.last_signature == Some(sig),
            decreases displays@.len() - i,
        {
            if displays[i].space.is_some() {
                let screen: u32 = displays[i].screen_id;
                if !contains(&self.panels, &screen) {
                    self.panels.push(screen);
                    out.push(PanelStep::Make(screen));
                }
                out.push(PanelStep::Apply(i));
            }
            assert(out@ =~= first + drawn(kept, displays@, (i + 1) as nat).1);
            i = i + 1;
        }
        out
    }
}

/// An update that shows what is shown already changes nothing.
pub proof fn an_unchanged_bar_is_not_drawn(bar: Bar, displays: Seq<UpdateDisplay>)
    requires
        bar.settings.enabled,
    ensures
        bar.updated(displays).0.updated(displays).1.len() == 0,
{
}

/// After an update only screens that are there have a panel.
pub proof fn panels_belong_to_screens(bar: Bar, displays: Seq<UpdateDisplay>, i: int)
    requires
        bar.settings.enabled,
        bar.signature != Some(bar_signature(bar.settings, displays)),
        0 <= i < bar.updated(displays).0.panels.len(),
    ensures
        has_screen(displays, bar.updated(displays).0.panels[i]),
{
    lemma_sorted_out(bar.panels, displays);
    lemma_drawn(sorted_out(bar.panels, displays, true), displays, displays.len());
}

proof fn lemma_sorted_out(panels: Seq<u32>, displays: Seq<UpdateDisplay>)
    ensures
        forall|i: int|
            0 <= i < sorted_out(panels, displays, true).len() ==> has_screen(
                displays,
                #[trigger] sorted_out(panels, displays, true)[i],
            ),
    decreases panels.len(),
{
    if panels.len() > 0 {
        lemma_sorted_out(panels.drop_last(), displays);
        let head = sorted_out(panels.drop_last(), displays, true);
        let all = sorted_out(panels, displays, true);
        assert forall|i: int| 0 <= i < all.len() implies has_screen(displays, #[trigger] all[i]) by {
            if i < head.len() {
                assert(all[i] == head[i]);
            }
        }
    }
}

proof fn lemma_drawn(panels: Seq<u32>, displays: Seq<UpdateDisplay>, n: nat)
    requires
        n <= displays.len(),
        forall|i: int| 0 <= i < panels.len() ==> has_screen(displays, #[trigger] panels[i]),
    ensures
        forall|i: int|
            0 <= i < drawn(panels, displays, n).0.len() ==> has_screen(
                displays,
                #[trigger] drawn(panels, displays, n).0[i],
            ),
    decreases n,
{
    if n > 0 {
        lemma_drawn(panels, displays, (n - 1) as nat);
        let head = drawn(panels, displays, (n - 1) as nat).0;
        let all = drawn(panels, displays, n).0;
        assert(has_screen(displays, displays[n - 1].screen_id));
        assert forall|i: int| 0 <= i < all.len() implies has_screen(displays, #[trigger] all[i]) by {
            if i < head.len() {
                assert(all[i] == head[i]);
            }
        }
    }
}

/// Without merging every window has an icon of its own.
pub proof fn every_window_has_an_icon(windows: Seq<WindowData>, n: nat)
    requires
        n <= windows.len(),
    ensures
        arranged(windows, false, n).len() == n,
        forall|i: int|
            0 <= i < n ==> (#[trigger] arranged(windows, false, n)[i]).window_id == windows[i].id
                && arranged(windows, false, n)[i].count == 1,
    decreases n,
{
    if n > 0 {
        every_window_has_an_icon(windows, (n - 1) as nat);
        let head = arranged(windows, false, (n - 1) as nat);
        assert forall|i: int| 0 <= i < n implies (#[trigger] arranged(
            windows,
            false,
            n,
        )[i]).window_id == windows[i].id && arranged(windows, false, n)[i].count == 1 by {
            if i < n - 1 {
                assert(head[i].window_id == windows[i].id);
            }
        }
    }
}

/// Two windows have the same icon if and only if they are of one process and of one bundle.
pub proof fn icons_are_those_of_applications(a: WindowData, b: WindowData)
    ensures
        same_icon(a, b) <==> a.id.pid == b.id.pid && (a.bundle_id is None <==> b.bundle_id is None)
            && (a.bundle_id is Some && b.bundle_id is Some ==> a.bundle_id->0@ == b.bundle_id->0@),
        same_icon(a, b) == same_icon(b, a),
{
}

/// The number of windows with an icon is the length of the list of those windows.
pub proof fn icons_count_their_windows(windows: Seq<WindowData>, w: WindowData)
    ensures
        icon_count(windows, w) == windows.filter(|x: WindowData| same_icon(x, w)).len(),
    decreases windows.len(),
{
    reveal(Seq::filter);
    if windows.len() > 0 {
        icons_count_their_windows(windows.drop_last(), w);
    }
}

/// Going through the windows with merging, each that has an icon of its own so far adds one, as
/// the window it is and with the number of all windows with that icon. The others add none.
pub proof fn merged_windows_stand_for_their_icon(windows: Seq<WindowData>, n: nat)
    requires
        n < windows.len(),
    ensures
        arranged(windows, true, 0).len() == 0,
        (exists|j: int| 0 <= j < n && same_icon(#[trigger] windows[j], windows[n as int]))
            ==> arranged(windows, true, n + 1) == arranged(windows, true, n),
        (forall|j: int| 0 <= j < n ==> !same_icon(#[trigger] windows[j], windows[n as int])) ==> {
            let more = arranged(windows, true, n + 1);
            &&& more.len() == arranged(windows, true, n).len() + 1
            &&& more.drop_last() == arranged(windows, true, n)
            &&& more.last().window_id == windows[n as int].id
            &&& more.last().window_server_id == windows[n as int].window_server_id
            &&& more.last().count == icon_count(windows, windows[n as int]) as usize
        },
{
    let head = arranged(windows, true, n);
    if forall|j: int| 0 <= j < n ==> !same_icon(#[trigger] windows[j], windows[n as int]) {
        assert(is_first_of_icon(windows, n as int));
        assert(arranged(windows, true, n + 1).drop_last() =~= head);
    }
    if exists|j: int| 0 <= j < n && same_icon(#[trigger] windows[j], windows[n as int]) {
        assert(!is_first_of_icon(windows, n as int));
    }
}

/// Without merging each window is shown as the one it is, on the screen of the window server too.
pub proof fn windows_are_shown_as_they_are(windows: Seq<WindowData>, n: nat)
    requires
        n <= windows.len(),
    ensures
        arranged(windows, false, n).len() == n,
        forall|i: int|
            0 <= i < n ==> (#[trigger] arranged(windows, false, n)[i]).window_server_id
                == windows[i].window_server_id && arranged(windows, false, n)[i].window_id
                == windows[i].id && arranged(windows, false, n)[i].count == 1,
    decreases n,
{
    if n > 0 {
        windows_are_shown_as_they_are(windows, (n - 1) as nat);
    }
}

/// One more workspace is one more item at the end of the bar, unless it is empty and empty ones are
/// left out. The item has the number, the state and the windows of the workspace. Its label is the
/// number counted from one, marked if that is wanted and the workspace is active, or its name.
pub proof fn each_workspace_is_shown_as_it_is(
    settings: CenteredBarSettings,
    workspaces: Seq<WorkspaceData>,
    ws: WorkspaceData,
)
    ensures
        bar_items(settings, Seq::empty()).len() == 0,
        settings.hide_empty_workspaces && ws.window_count == 0 ==> bar_items(
            settings,
            workspaces.push(ws),
        ) == bar_items(settings, workspaces),
        !settings.hide_empty_workspaces || ws.window_count != 0 ==> {
            let more = bar_items(settings, workspaces.push(ws));
            &&& more.len() == bar_items(settings, workspaces).len() + 1
            &&& more.drop_last() == bar_items(settings, workspaces)
            &&& more.last().index == ws.index
            &&& more.last().is_active == ws.is_active
            &&& more.last().windows == arranged(
                ws.windows@,
                settings.deduplicate_icons,
                ws.windows@.len(),
            )
            &&& !settings.show_numbers ==> more.last().label == ws.name@
            &&& settings.show_numbers && settings.show_mode_indicator && ws.is_active
                ==> more.last().label == "[M] "@ + digits_of((ws.index + 1) as nat)
            &&& settings.show_numbers && !(settings.show_mode_indicator && ws.is_active)
                ==> more.last().label == digits_of((ws.index + 1) as nat)
        },
{
    assert(workspaces.push(ws).drop_last() =~= workspaces);
    assert(Seq::<char>::empty() + digits_of((ws.index + 1) as nat) =~= digits_of(
        (ws.index + 1) as nat,
    ));
    if !settings.hide_empty_workspaces || ws.window_count != 0 {
        assert(bar_items(settings, workspaces.push(ws)).drop_last() =~= bar_items(
            settings,
            workspaces,
        ));
    }
}

/// The items of a bar are its workspaces, field by field.
pub proof fn items_are_the_workspaces(v: Seq<BarWorkspace>, i: int)
    requires
        0 <= i < v.len(),
    ensures
        items(v).len() == v.len(),
        items(v)[i].index == v[i].index,
        items(v)[i].label == v[i].label@,
        items(v)[i].is_active == v[i].is_active,
        items(v)[i].windows == v[i].windows@,
{
}

/// One more workspace can be clicked after all that stand before it: first the workspace, by its
/// number, then its windows, each as the window that it is.
pub proof fn each_item_can_be_clicked(bar: Seq<BarItem>, item: BarItem, i: int)
    requires
        0 <= i <= item.windows.len(),
    ensures
        targets_of(Seq::empty()).len() == 0,
        targets_of(bar.push(item)).len() == targets_of(bar).len() + 1 + item.windows.len(),
        targets_of(bar.push(item)).take(targets_of(bar).len() as int) == targets_of(bar),
        targets_of(bar.push(item))[targets_of(bar).len() as int] == BarAction::Workspace(
            item.index,
        ),
        i < item.windows.len() ==> targets_of(bar.push(item))[targets_of(bar).len() + 1 + i] == (
        BarAction::Window {
            window_id: item.windows[i].window_id,
            window_server_id: item.windows[i].window_server_id,
        }),
{
    assert(bar.push(item).drop_last() =~= bar);
    assert(targets_of(bar.push(item)).take(targets_of(bar).len() as int) =~= targets_of(bar));
}

/// A click reaches the first target that it is on, and none if it is on none.
pub proof fn a_click_reaches_the_first_target_hit(targets: Seq<BarAction>, hit: Seq<bool>, i: int)
    requires
        0 <= i <= targets.len(),
        i <= hit.len(),
        forall|j: int| 0 <= j < i ==> !#[trigger] hit[j],
    ensures
        i < targets.len() && i < hit.len() && hit[i] ==> first_hit(targets, hit) == Some(
            targets[i],
        ),
        i == targets.len() || i == hit.len() ==> first_hit(targets, hit) is None,
    decreases i,
{
    if i > 0 {
        assert(!hit[0]);
        let (ts, hs) = (targets.drop_first(), hit.drop_first());
        assert forall|j: int| 0 <= j < i - 1 implies !#[trigger] hs[j] by {
            assert(hs[j] == hit[j + 1]);
        }
        a_click_reaches_the_first_target_hit(ts, hs, i - 1);
        assert(i < targets.len() ==> ts[i - 1] == targets[i]);
        assert(i < hit.len() ==> hs[i - 1] == hit[i]);
    }
}

/// Every setting has a byte of its own, and different settings give different bytes.
pub proof fn settings_are_written_out(s: CenteredBarSettings, t: CenteredBarSettings)
    ensures
        settings_bytes(s) == settings_bytes(t) ==> s == t,
        settings_bytes(s).len() == 8,
        settings_bytes(s)[0] == 1 <==> s.enabled,
        settings_bytes(s)[1] == 1 <==> s.show_numbers,
        settings_bytes(s)[2] == 1 <==> s.show_mode_indicator,
        settings_bytes(s)[3] == 1 <==> s.deduplicate_icons,
        settings_bytes(s)[4] == 1 <==> s.hide_empty_workspaces,
        settings_bytes(s)[5] == 1 <==> s.notch_aware,
        settings_bytes(s)[6] == 1 <==> s.position is OverlappingMenuBar,
{
    if settings_bytes(s) == settings_bytes(t) {
        let (a, b) = (settings_bytes(s), settings_bytes(t));
        assert(a[0] == b[0] && a[1] == b[1] && a[2] == b[2] && a[3] == b[3]);
        assert(a[4] == b[4] && a[5] == b[5] && a[6] == b[6] && a[7] == b[7]);
    }
}

/// The hash of what the bars show takes in the settings, then the displays.
pub proof fn the_signature_takes_in_settings_and_displays(
    s: CenteredBarSettings,
    displays: Seq<UpdateDisplay>,
)
    ensures
        bar_signature(s, displays) == DefaultHasher::spec_finish(
            seq![settings_bytes(s)] + display_writes(displays),
        ),
{
}

/// For each window its process, its index and whether it has the focus are written.
pub proof fn windows_are_written_out(windows: Seq<WindowData>, i: int)
    requires
        0 <= i < windows.len(),
    ensures
        window_writes(windows).len() == 3 * windows.len(),
        window_writes(windows)[3 * i] == spec_u32_to_le_bytes(pid_bits(windows[i].id.pid)),
        window_writes(windows)[3 * i + 1] == spec_u32_to_le_bytes(windows[i].id.idx),
        window_writes(windows)[3 * i + 2] == seq![
            if windows[i].is_focused {
                1u8
            } else {
                0u8
            },
        ],
    decreases windows.len(),
{
    let head = windows.drop_last();
    lemma_window_writes_len(head);
    if i < head.len() {
        windows_are_written_out(head, i);
        assert(head[i] == windows[i]);
    } else {
        assert(windows[i] == windows.last());
    }
}

proof fn lemma_window_writes_len(windows: Seq<WindowData>)
    ensures
        window_writes(windows).len() == 3 * windows.len(),
    decreases windows.len(),
{
    if windows.len() > 0 {
        lemma_window_writes_len(windows.drop_last());
    }
}

/// For one more workspace its number, whether it is active, the number of its windows, and the
/// windows themselves are written after what was written before.
pub proof fn workspaces_are_written_out(workspaces: Seq<WorkspaceData>, ws: WorkspaceData)
    ensures
        workspace_writes(Seq::empty()).len() == 0,
        workspace_writes(workspaces.push(ws)) == workspace_writes(workspaces) + seq![
            spec_u64_to_le_bytes(ws.index as u64),
            seq![
                if ws.is_active {
                    1u8
                } else {
                    0u8
                },
            ],
            spec_u64_to_le_bytes(ws.window_count as u64),
        ] + window_writes(ws.windows@),
{
    assert(workspaces.push(ws).drop_last() =~= workspaces);
}

/// For one more display its screen, the number of its workspaces, and the workspaces themselves are
/// written after what was written before.
pub proof fn displays_are_written_out(displays: Seq<UpdateDisplay>, d: UpdateDisplay)
    ensures
        display_writes(Seq::empty()).len() == 0,
        display_writes(displays.push(d)) == display_writes(displays) + seq![
            spec_u32_to_le_bytes(d.screen_id),
            spec_u64_to_le_bytes(d.workspaces@.len() as u64),
        ] + workspace_writes(d.workspaces@),
{
    assert(displays.push(d).drop_last() =~= displays);
}

/// Panels are sorted by whether their screens are there: each goes to one side, in its order.
pub proof fn panels_are_sorted_by_their_screens(
    panels: Seq<u32>,
    displays: Seq<UpdateDisplay>,
    p: u32,
)
    ensures
        sorted_out(Seq::empty(), displays, true).len() == 0,
        sorted_out(Seq::empty(), displays, false).len() == 0,
        has_screen(displays, p) ==> sorted_out(panels.push(p), displays, true) == sorted_out(
            panels,
            displays,
            true,
        ).push(p) && sorted_out(panels.push(p), displays, false) == sorted_out(
            panels,
            displays,
            false,
        ),
        !has_screen(displays, p) ==> sorted_out(panels.push(p), displays, false) == sorted_out(
            panels,
            displays,
            false,
        ).push(p) && sorted_out(panels.push(p), displays, true) == sorted_out(
            panels,
            displays,
            true,
        ),
{
    assert(panels.push(p).drop_last() =~= panels);
}

/// A panel stays if and only if its screen is there; the others are closed.
pub proof fn panels_stay_with_their_screens(
    panels: Seq<u32>,
    displays: Seq<UpdateDisplay>,
    present: bool,
)
    ensures
        forall|p: u32| #[trigger]
            sorted_out(panels, displays, present).contains(p) <==> panels.contains(p)
                && has_screen(displays, p) == present,
    decreases panels.len(),
{
    if panels.len() > 0 {
        let head = panels.drop_last();
        panels_stay_with_their_screens(head, displays, present);
        assert(head.push(panels.last()) =~= panels);
        crate::collections::lemma_push_contains(head, panels.last());
        crate::collections::lemma_push_contains(
            sorted_out(head, displays, present),
            panels.last(),
        );
    }
}

/// A screen is there if and only if one of the displays has its number.
pub proof fn screens_are_those_of_displays(displays: Seq<UpdateDisplay>, screen: u32)
    ensures
        has_screen(displays, screen) <==> displays.map_values(
            |d: UpdateDisplay| d.screen_id,
        ).contains(screen),
{
    let ids = displays.map_values(|d: UpdateDisplay| d.screen_id);
    if has_screen(displays, screen) {
        let i = choose|i: int|
            0 <= i < displays.len() && (#[trigger] displays[i]).screen_id == screen;
        assert(ids[i] == screen);
    }
    if ids.contains(screen) {
        let i = choose|i: int| 0 <= i < ids.len() && ids[i] == screen;
        assert(displays[i].screen_id == screen);
    }
}

/// Every panel that is closed is named once, in order.
pub proof fn each_panel_is_closed(panels: Seq<u32>, i: int)
    requires
        0 <= i < panels.len(),
    ensures
        closings(panels).len() == panels.len(),
        closings(panels)[i] == PanelStep::Close(panels[i]),
{
}

/// The next display is drawn in the panel of its screen, which is made first where there is none.
/// Without a space nothing is drawn.
pub proof fn each_display_is_drawn_in_its_panel(
    panels: Seq<u32>,
    displays: Seq<UpdateDisplay>,
    n: nat,
)
    requires
        n < displays.len(),
    ensures
        drawn(panels, displays, 0).0 == panels,
        drawn(panels, displays, 0).1.len() == 0,
        displays[n as int].space is None ==> drawn(panels, displays, n + 1) == drawn(
            panels,
            displays,
            n,
        ),
        displays[n as int].space is Some && drawn(panels, displays, n).0.contains(
            displays[n as int].screen_id,
        ) ==> drawn(panels, displays, n + 1).0 == drawn(panels, displays, n).0 && drawn(
            panels,
            displays,
            n + 1,
        ).1 == drawn(panels, displays, n).1 + seq![PanelStep::Apply(n as usize)],
        displays[n as int].space is Some && !drawn(panels, displays, n).0.contains(
            displays[n as int].screen_id,
        ) ==> drawn(panels, displays, n + 1).0 == drawn(panels, displays, n).0.push(
            displays[n as int].screen_id,
        ) && drawn(panels, displays, n + 1).1 == drawn(panels, displays, n).1 + seq![
            PanelStep::Make(displays[n as int].screen_id),
            PanelStep::Apply(n as usize),
        ],
{
}

/// Once the displays are drawn, a screen has a panel if and only if it had one or shows a space,
/// and panels are made for no others.
pub proof fn screens_with_a_space_get_a_panel(
    panels: Seq<u32>,
    displays: Seq<UpdateDisplay>,
    n: nat,
    screen: u32,
)
    requires
        n <= displays.len(),
    ensures
        drawn(panels, displays, n).0.contains(screen) <==> panels.contains(screen) || exists|i: int|
            0 <= i < n && (#[trigger] displays[i]).screen_id == screen && displays[i].space is Some,
        drawn(panels, displays, n).1.contains(PanelStep::Make(screen)) <==> !panels.contains(screen)
            && exists|i: int|
            0 <= i < n && (#[trigger] displays[i]).screen_id == screen && displays[i].space is Some,
        !drawn(panels, displays, n).1.contains(PanelStep::Close(screen)),
    decreases n,
{
    if n > 0 {
        let k = (n - 1) as nat;
        let d = displays[n - 1];
        let r = drawn(panels, displays, k);
        screens_with_a_space_get_a_panel(panels, displays, k, screen);
        screens_with_a_space_get_a_panel(panels, displays, k, d.screen_id);
        let make = PanelStep::Make(d.screen_id);
        let apply = PanelStep::Apply((n - 1) as usize);
        crate::collections::lemma_push_contains(r.0, d.screen_id);
        crate::collections::lemma_push_contains(r.1, apply);
        crate::collections::lemma_push_contains(r.1, make);
        crate::collections::lemma_push_contains(r.1.push(make), apply);
    }
}

/// A bar that is disposed of closes every panel and keeps the rest.
pub proof fn disposing_closes_all_panels(bar: Bar)
    ensures
        bar.disposed().0.panels.len() == 0,
        bar.disposed().0.settings == bar.settings,
        bar.disposed().0.signature == bar.signature,
        bar.disposed().1.len() == bar.panels.len(),
        forall|i: int|
            0 <= i < bar.panels.len() ==> (#[trigger] bar.disposed().1[i]) == PanelStep::Close(
                bar.panels[i],
            ),
{
}

/// New settings take effect and have the next update drawn. Where they switch the bar off, all
/// panels are closed; otherwise the panels stay.
pub proof fn settings_take_effect(bar: Bar, settings: CenteredBarSettings)
    ensures
        bar.configured(settings).0.settings == settings,
        bar.configured(settings).0.signature is None,
        settings.enabled ==> bar.configured(settings).0.panels == bar.panels && bar.configured(
            settings,
        ).1.len() == 0,
        !settings.enabled ==> bar.configured(settings).0.panels.len() == 0 && bar.configured(
            settings,
        ).1 == bar.disposed().1,
{
}

/// An update closes all panels while the bar is switched off. Otherwise, if it shows something
/// new, it closes the panels whose screens are gone and then draws the displays.
pub proof fn updates_close_then_draw(bar: Bar, displays: Seq<UpdateDisplay>)
    ensures
        bar.updated(displays).0.settings == bar.settings,
        !bar.settings.enabled ==> bar.updated(displays).0.panels.len() == 0 && bar.updated(
            displays,
        ).0.signature is None && bar.updated(displays).1 == bar.disposed().1,
        bar.settings.enabled ==> bar.updated(displays).0.signature == Some(
            bar_signature(bar.settings, displays),
        ),
        bar.settings.enabled && bar.signature == Some(bar_signature(bar.settings, displays))
            ==> bar.updated(displays).0.panels == bar.panels && bar.updated(displays).1.len() == 0,
        bar.settings.enabled && bar.signature != Some(bar_signature(bar.settings, displays)) ==> {
            let gone = sorted_out(bar.panels, displays, false);
            let stay = sorted_out(bar.panels, displays, true);
            &&& bar.updated(displays).1.take(gone.len() as int) == closings(gone)
            &&& bar.updated(displays).1.skip(gone.len() as int) == drawn(
                stay,
                displays,
                displays.len(),
            ).1
            &&& bar.updated(displays).0.panels == drawn(stay, displays, displays.len()).0
        },
{
    let gone = sorted_out(bar.panels, displays, false);
    let stay = sorted_out(bar.panels, displays, true);
    let steps = drawn(stay, displays, displays.len()).1;
    assert((closings(gone) + steps).take(gone.len() as int) =~= closings(gone));
    assert((closings(gone) + steps).skip(gone.len() as int) =~= steps);
}

} // verus!
