use std::hash::Hasher;

use rift::centered_bar::{
    bar_targets, build_layout, build_windows, calc_signature, mouse_down, window_level_for,
    BarAction, CenteredBar, CenteredBarPosition, CenteredBarSettings, CenteredBarWindowLevel,
    PanelStep, Update, UpdateDisplay,
};
use rift::menu_bar::{Event, Menu};
use rift::model::Frame;
use rift::protocol::events::WorkspaceId;
use rift::protocol::queries::{WindowData, WindowId, WorkspaceData};
use rustc_hash::FxHasher;

fn window(pid: i32, idx: u32, bundle: Option<&str>) -> WindowData {
    WindowData {
        id: WindowId { pid, idx },
        title: "title".to_string(),
        frame: Frame { x: 1, y: 2, width: 3, height: 4 },
        is_floating: false,
        is_focused: false,
        bundle_id: bundle.map(|b| b.to_string()),
        app_name: None,
        window_server_id: Some(100 + idx),
    }
}

fn workspace(index: usize, is_active: bool, windows: Vec<WindowData>) -> WorkspaceData {
    WorkspaceData {
        id: "00000000".to_string(),
        index,
        name: format!("ws{index}"),
        layout_mode: "bsp".to_string(),
        is_active,
        window_count: windows.len(),
        windows,
    }
}

fn update(space: u64, ws: Option<WorkspaceId>, windows: Vec<WindowData>) -> Event {
    Event::Update {
        active_space: space,
        workspaces: vec![],
        active_workspace: ws,
        windows,
    }
}

#[test]
fn the_signature_is_the_hash_of_what_shows() {
    let event = update(7, Some(WorkspaceId { idx: 3, version: 1 }), vec![window(-5, 6, None)]);
    let mut h = FxHasher::default();
    h.write_u64(7);
    h.write_u64((1u64 << 32) | 3);
    h.write_i32(-5);
    h.write_u32(6);
    h.write_u64(1);
    h.write_u64(2);
    h.write_u64(3);
    h.write_u64(4);
    assert_eq!(event.signature(), h.finish());
    let mut h = FxHasher::default();
    h.write_u64(7);
    assert_eq!(update(7, None, vec![]).signature(), h.finish());
    assert_eq!(update(0, None, vec![]).signature(), 0);
    if usize::BITS == 64 {
        assert_eq!(update(7, None, vec![]).signature(), 0x9d12_ca91_8e61_d971);
    }
}

#[test]
fn the_icon_is_drawn_only_for_something_new() {
    let mut menu = Menu::new(true, true);
    let first = update(1, None, vec![window(1, 1, None)]);
    assert_eq!(menu.handle_event(&first), Some(true));
    assert_eq!(menu.handle_event(&first), None);
    let mut renamed = window(1, 1, None);
    renamed.title = "other".to_string();
    assert_eq!(menu.handle_event(&update(1, None, vec![renamed])), None);
    let mut moved = window(1, 1, None);
    moved.frame.x = 99;
    assert_eq!(menu.handle_event(&update(1, None, vec![moved])), Some(true));
    assert_eq!(Menu::new(false, true).handle_event(&first), None);
}

#[test]
fn updates_are_collected() {
    let mut menu = Menu::new(true, false);
    assert!(menu.receive(update(1, None, vec![])));
    assert!(!menu.receive(update(2, None, vec![])));
    assert_eq!(menu.take_due(false), None);
    menu.timer_fired();
    assert_eq!(menu.take_due(false), Some(update(2, None, vec![])));
    assert_eq!(menu.take_due(false), None);
    assert!(menu.receive(update(3, None, vec![])));
    assert_eq!(menu.take_due(true), Some(update(3, None, vec![])));
}

fn settings() -> CenteredBarSettings {
    CenteredBarSettings {
        enabled: true,
        show_numbers: true,
        show_mode_indicator: true,
        deduplicate_icons: true,
        hide_empty_workspaces: true,
        notch_aware: false,
        position: CenteredBarPosition::BelowMenuBar,
        window_level: CenteredBarWindowLevel::Status,
    }
}

#[test]
fn labels_are_numbers_or_names() {
    let all = vec![
        workspace(0, true, vec![window(1, 1, None)]),
        workspace(1, false, vec![window(1, 2, None)]),
        workspace(2, false, vec![]),
    ];
    let bar = build_layout(&all, &settings());
    assert_eq!(bar.len(), 2);
    assert_eq!(bar[0].label, "[M] 1");
    assert_eq!(bar[1].label, "2");
    let named = CenteredBarSettings {
        show_numbers: false,
        hide_empty_workspaces: false,
        ..settings()
    };
    let bar = build_layout(&all, &named);
    assert_eq!(bar.len(), 3);
    assert_eq!(bar[2].label, "ws2");
    assert!(bar[0].is_active);
}

#[test]
fn icons_are_merged_by_application() {
    let windows = vec![
        window(1, 1, Some("a")),
        window(2, 2, Some("a")),
        window(1, 3, Some("a")),
        window(1, 4, None),
    ];
    let merged = build_windows(&windows, true);
    assert_eq!(merged.len(), 3);
    assert_eq!(merged[0].window_id.idx, 1);
    assert_eq!(merged[0].count, 2);
    assert_eq!(merged[1].count, 1);
    assert_eq!(merged[2].window_server_id, Some(104));
    assert_eq!(build_windows(&windows, false).len(), 4);
}

#[test]
fn the_first_target_that_is_hit_counts() {
    let bar = build_layout(
        &vec![
            workspace(0, true, vec![window(1, 1, None)]),
            workspace(4, false, vec![window(1, 2, None)]),
        ],
        &settings(),
    );
    let targets = bar_targets(&bar);
    assert_eq!(targets.len(), 4);
    assert_eq!(targets[0], BarAction::Workspace(0));
    assert_eq!(
        targets[3],
        BarAction::Window { window_id: WindowId { pid: 1, idx: 2 }, window_server_id: Some(102) }
    );
    assert_eq!(
        mouse_down(&targets, &vec![false, false, true, true]),
        Some(BarAction::Workspace(4))
    );
    assert_eq!(mouse_down(&targets, &vec![false, false, false, false]), None);
}

fn display(screen_id: u32, space: Option<u64>) -> UpdateDisplay {
    UpdateDisplay {
        screen_id,
        space,
        workspaces: vec![workspace(0, true, vec![window(1, 1, None)])],
        active_workspace_idx: Some(0),
    }
}

#[test]
fn panels_follow_the_screens() {
    let mut bar = CenteredBar::new(settings());
    let first = Update { displays: vec![display(1, Some(1)), display(2, None)] };
    assert_eq!(bar.handle_update(&first), vec![PanelStep::Make(1), PanelStep::Apply(0)]);
    assert_eq!(bar.handle_update(&first), vec![]);
    let second = Update { displays: vec![display(3, Some(1))] };
    assert_eq!(
        bar.handle_update(&second),
        vec![PanelStep::Close(1), PanelStep::Make(3), PanelStep::Apply(0)]
    );
    let off = CenteredBarSettings { enabled: false, ..settings() };
    assert_eq!(bar.handle_config_updated(off), vec![PanelStep::Close(3)]);
    assert_eq!(bar.handle_update(&second), vec![]);
    assert_eq!(bar.handle_config_updated(settings()), vec![]);
    assert_eq!(bar.handle_update(&second), vec![PanelStep::Make(3), PanelStep::Apply(0)]);
    assert_eq!(bar.dispose_panels(), vec![PanelStep::Close(3)]);
}

#[test]
fn focus_changes_the_signature_of_the_bar_and_titles_do_not() {
    let plain = Update { displays: vec![display(1, Some(1))] };
    let mut focused = plain.clone();
    focused.displays[0].workspaces[0].windows[0].is_focused = true;
    let mut renamed = plain.clone();
    renamed.displays[0].workspaces[0].windows[0].title = "x".to_string();
    assert_ne!(calc_signature(&settings(), &plain), calc_signature(&settings(), &focused));
    assert_eq!(calc_signature(&settings(), &plain), calc_signature(&settings(), &renamed));
    let other = CenteredBarSettings { show_numbers: false, ..settings() };
    assert_ne!(calc_signature(&settings(), &plain), calc_signature(&other, &plain));
}

#[test]
fn the_bar_has_a_level() {
    assert_eq!(window_level_for(CenteredBarWindowLevel::Normal), 0);
    assert_eq!(window_level_for(CenteredBarWindowLevel::Floating), 3);
    assert_eq!(window_level_for(CenteredBarWindowLevel::Status), 25);
    assert_eq!(window_level_for(CenteredBarWindowLevel::Popup), 101);
    assert_eq!(window_level_for(CenteredBarWindowLevel::Screensaver), 1000);
}
