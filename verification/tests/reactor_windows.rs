use rift::collections::{VecMap, VecSet};
use rift::model::{Frame, MouseState, Screen, WindowInfo, WindowServerInfo};
use rift::reactor::discovery::{
    compute_window_manageability, LevelFacts, ListedWindow, StaleFacts, WindowDiscoveryHandler,
};
use rift::reactor::drag_session::{
    best_space_for_window, drag_space_candidate, resolve_drag_space, swap_candidates, SwapFact,
    SwapStep,
};
use rift::reactor::event::Requested;
use rift::reactor::managers::{
    focus_follows_mouse_allowed, AutoWorkspaceSwitch, DragManager, DragSession, DragState,
    MenuManager, MenuState, MissionControlManager, MissionControlState, NotificationManager,
    RefocusManager, RefocusState, SpaceManager, StaleCleanupState, WindowManager,
    WorkspaceSwitchManager, WorkspaceSwitchState,
};
use rift::reactor::transaction_manager::{
    TransactionId, TransactionManager, TxEntry, WindowTxStore,
};
use rift::reactor::window::{
    active_space_for_window, handle_mouse_up_if_needed, DestroyFacts, FrameFacts, FrameReport, FrameStep,
    MouseUpStep, WindowEventHandler,
};
use rift::window_id::WindowId;

fn rect(x: f64, y: f64, w: f64, h: f64) -> Frame {
    Frame { x: x.to_bits(), y: y.to_bits(), width: w.to_bits(), height: h.to_bits() }
}

fn window(idx: u32) -> WindowId {
    WindowId { pid: 1, idx }
}

fn info(sys_id: Option<u32>) -> WindowInfo {
    WindowInfo {
        is_standard: true,
        is_root: true,
        is_minimized: false,
        title: "title".to_string(),
        frame: rect(0.0, 0.0, 50.0, 50.0),
        sys_id,
        bundle_id: None,
        path: None,
        ax_role: None,
        ax_subrole: None,
    }
}

fn level() -> LevelFacts {
    LevelFacts { is_sticky: false, level: Some(0) }
}

struct World {
    windows: WindowManager,
    tx: TransactionManager,
    drag: DragManager,
}

fn world() -> World {
    let mut w = World {
        windows: WindowManager::new(),
        tx: TransactionManager::new(WindowTxStore::new()),
        drag: DragManager::new(),
    };
    let step = WindowEventHandler::handle_window_created(
        &mut w.windows,
        &mut w.tx,
        window(1),
        info(Some(101)),
        None,
        false,
        level(),
        Some(1),
        true,
        None,
        true,
    );
    assert!(step.applies_rules);
    assert_eq!(step.added_to, Some(1));
    w
}

fn facts(old: u64, new: u64) -> FrameFacts {
    FrameFacts {
        matches_target: false,
        matches_current: false,
        same_size: true,
        old_space: Some(old),
        new_space: Some(new),
        old_active: true,
        new_active: true,
        drag_origin: Some(old),
        drag_space: Some(new),
        in_layout: true,
        sent_to: None,
        assigned_space: Some(old),
        scrolls: false,
        now: 0,
    }
}

fn report(frame: Frame, mouse: Option<MouseState>) -> FrameReport {
    FrameReport { wid: window(1), frame, last_seen: None, requested: Requested(false), mouse }
}

fn change(w: &mut World, r: FrameReport, f: FrameFacts) -> FrameStep {
    let (step, _) = WindowEventHandler::handle_window_frame_changed(
        &mut w.windows,
        &mut w.tx,
        &mut w.drag,
        r,
        f,
        false,
    );
    step
}

fn destroyed(alive: &[u32], last_target: Option<WindowId>) -> DestroyFacts {
    let mut known = VecSet::new();
    for id in alive {
        let _ = known.insert(*id);
    }
    DestroyFacts { no_user_space: false, alive: known, last_target }
}

#[test]
fn reports_older_than_the_last_request_are_ignored() {
    let mut w = world();
    let target = rect(10.0, 10.0, 60.0, 60.0);
    let txid = w.tx.generate_next_txid(101);
    assert_eq!(txid, TransactionId(1));
    w.tx.store_txid(101, txid, target);
    let outdated =
        FrameReport { last_seen: Some(TransactionId(0)), ..report(rect(9.0, 9.0, 9.0, 9.0), None) };
    assert_eq!(change(&mut w, outdated, facts(1, 1)), FrameStep::Ignored);
    assert_eq!(w.windows.windows.get(&window(1)).unwrap().frame_monotonic, rect(0.0, 0.0, 50.0, 50.0));
    let answer = FrameReport { last_seen: Some(txid), ..report(target, None) };
    let reached = FrameFacts { matches_target: true, ..facts(1, 1) };
    assert_eq!(change(&mut w, answer, reached), FrameStep::Ignored);
    assert_eq!(w.windows.windows.get(&window(1)).unwrap().frame_monotonic, target);
    assert_eq!(w.tx.get_target_frame(101), None);
    assert!(w.tx.is_settling(101, 99));
    assert!(!w.tx.is_settling(101, 100));
}

#[test]
fn resizing_tells_the_layout() {
    let mut w = world();
    let wider = FrameFacts { same_size: false, ..facts(1, 1) };
    assert_eq!(
        change(&mut w, report(rect(0.0, 0.0, 80.0, 50.0), None), wider),
        FrameStep::Resized
    );
    let dragged = FrameFacts { same_size: false, ..facts(1, 1) };
    assert_eq!(
        change(&mut w, report(rect(0.0, 0.0, 90.0, 50.0), Some(MouseState::Down)), dragged),
        FrameStep::DragResized(true)
    );
}

#[test]
fn windows_are_minimized_and_come_back() {
    let mut w = world();
    assert!(WindowEventHandler::handle_window_minimized(&mut w.windows, window(1)));
    assert!(!WindowEventHandler::handle_window_minimized(&mut w.windows, window(1)));
    assert!(!WindowEventHandler::handle_window_minimized(&mut w.windows, window(9)));
    assert_eq!(
        WindowEventHandler::handle_window_deminiaturized(
            &mut w.windows,
            window(1),
            false,
            level(),
            Some(1),
            true,
            None,
        ),
        Some(1)
    );
}

#[test]
fn titles_are_followed() {
    let mut w = world();
    assert_eq!(
        WindowEventHandler::handle_window_title_changed(
            &mut w.windows,
            window(1),
            "new".to_string()
        ),
        Some("title".to_string())
    );
    assert_eq!(
        WindowEventHandler::handle_window_title_changed(
            &mut w.windows,
            window(1),
            "new".to_string()
        ),
        None
    );
}

#[test]
fn a_release_that_was_missed_is_made_up_for() {
    let mut drag = DragManager::new();
    assert_eq!(
        handle_mouse_up_if_needed(&mut drag, false, Some(MouseState::Up)),
        MouseUpStep::Nothing
    );
    drag.ensure_active_drag(window(1), rect(0.0, 0.0, 1.0, 1.0), Some(1));
    assert_eq!(
        handle_mouse_up_if_needed(&mut drag, false, Some(MouseState::Up)),
        MouseUpStep::Finish
    );
    assert_eq!(
        handle_mouse_up_if_needed(&mut drag, true, Some(MouseState::Up)),
        MouseUpStep::Abandoned
    );
    assert!(!drag.is_in_drag());
}

#[test]
fn the_active_space_of_a_window_is_found() {
    assert_eq!(active_space_for_window(Some(1), true, None, Some(2)), Some(1));
    assert_eq!(active_space_for_window(Some(1), false, Some(5), Some(2)), None);
    assert_eq!(active_space_for_window(None, false, None, Some(2)), Some(2));
}

#[test]
fn manageable_windows_are_ordinary_ones() {
    let at = |l: Option<i64>, sticky: bool| LevelFacts { is_sticky: sticky, level: l };
    let check = |min, std, root, layer, tiny, f| {
        compute_window_manageability(Some(1), min, std, root, layer, tiny, f)
    };
    assert!(check(false, true, true, Some(0), false, at(Some(0), false)));
    assert!(!check(true, true, true, Some(0), false, at(Some(0), false)));
    assert!(!check(false, false, true, Some(0), false, at(Some(0), false)));
    assert!(!check(false, true, false, Some(0), false, at(Some(0), false)));
    assert!(!check(false, true, true, Some(3), false, at(Some(0), false)));
    assert!(!check(false, true, true, Some(0), true, at(Some(0), false)));
    assert!(!check(false, true, true, Some(0), false, at(Some(0), true)));
    assert!(!check(false, true, true, Some(0), false, at(Some(3), false)));
}

#[test]
fn transactions_are_stored_and_cleared() {
    let mut tx = TransactionManager::new(WindowTxStore::new());
    let a = rect(1.0, 1.0, 1.0, 1.0);
    let b = rect(2.0, 2.0, 2.0, 2.0);
    tx.update_txid_entries(&vec![
        TxEntry { wsid: 7, txid: TransactionId(4), target: a },
        TxEntry { wsid: 7, txid: TransactionId(5), target: b },
    ]);
    assert_eq!(tx.get_last_sent_txid(7), TransactionId(5));
    assert_eq!(tx.get_target_frame(7), Some(b));
    tx.clear_target_for_window(7, 1000);
    assert_eq!(tx.get_target_frame(7), None);
    assert!(tx.is_settling(7, 1050) && !tx.is_settling(7, 1100));
    tx.clear_target_for_window(8, u64::MAX);
    assert!(tx.is_settling(8, u64::MAX) && tx.is_settling(8, 0));
    assert!(!tx.is_settling(9, 0));
    assert_eq!(tx.generate_next_txid(7), TransactionId(6));
    tx.set_last_sent_txid(7, TransactionId(u32::MAX));
    assert_eq!(tx.generate_next_txid(7), TransactionId(0));
    tx.remove_for_window(7);
    assert_eq!(tx.get_last_sent_txid(7), TransactionId(0));
    assert_eq!(TransactionId(3).next(), TransactionId(4));
    assert_eq!(TransactionId::default(), TransactionId(0));
}

#[test]
fn menus_and_mission_control_keep_the_focus() {
    let mut menu = MenuManager { menu_state: MenuState::Closed };
    let mut mc = MissionControlManager {
        mission_control_state: MissionControlState::Inactive,
        pending_mission_control_refresh: VecSet::new(),
    };
    assert!(focus_follows_mouse_allowed(&menu, &mc));
    menu.menu_opened();
    menu.menu_opened();
    assert!(!focus_follows_mouse_allowed(&menu, &mc));
    let _ = menu.menu_closed();
    assert_eq!(menu.menu_state, MenuState::Open(1));
    let _ = menu.menu_closed();
    let _ = menu.menu_closed();
    assert_eq!(menu.menu_state, MenuState::Closed);
    assert!(mc.set_mission_control_active(true));
    assert!(mc.is_mission_control_active());
    assert!(!focus_follows_mouse_allowed(&menu, &mc));
    mc.begin_refresh(&vec![3, 4]);
    assert!(mc.finish_refresh(3));
    assert!(!mc.finish_refresh(3));
}

#[test]
fn workspace_switches_are_over_once_laid_out() {
    let mut switch = WorkspaceSwitchManager {
        workspace_switch_state: WorkspaceSwitchState::Inactive,
        workspace_switch_generation: 0,
        active_workspace_switch: None,
        last_auto_workspace_switch: None::<AutoWorkspaceSwitch>,
    };
    switch.begin_switch();
    assert_eq!(switch.workspace_switch_generation, 1);
    assert_eq!(switch.active_workspace_switch, Some(1));
    assert!(switch.suppresses_animation(false));
    switch.finish_event(true);
    switch.finish_event(false);
    assert_eq!(switch.workspace_switch_state, WorkspaceSwitchState::Inactive);
}

#[test]
fn hidden_windows_ask_for_the_focus_elsewhere() {
    let mut refocus = RefocusManager {
        stale_cleanup_state: StaleCleanupState::Enabled,
        refocus_state: RefocusState::Idle,
    };
    refocus.request_refocus_if_hidden(4, Some(1), Some(1));
    assert_eq!(refocus.take_pending(), None);
    refocus.request_refocus_if_hidden(4, Some(1), Some(2));
    assert_eq!(refocus.take_pending(), Some(4));
    assert_eq!(refocus.take_pending(), None);
    refocus.request_refocus_if_any_hidden(5, Some(1), &vec![Some(1), Some(3)]);
    assert_eq!(refocus.take_pending(), Some(5));
    refocus.update_stale_cleanup_state(&vec![None, None]);
    assert_eq!(refocus.stale_cleanup_state, StaleCleanupState::Suppressed);
    refocus.update_stale_cleanup_state(&vec![None, Some(1)]);
    assert_eq!(refocus.stale_cleanup_state, StaleCleanupState::Enabled);
}

#[test]
fn windows_are_watched_in_ascending_order() {
    let mut n =
        NotificationManager { last_sls_notification_ids: vec![], window_tx_store: None };
    assert!(n.update_watched(&vec![5, 3, 9]));
    assert_eq!(n.last_sls_notification_ids, vec![3, 5, 9]);
    assert!(!n.update_watched(&vec![9, 5, 3]));
    assert!(n.update_watched(&vec![]));
}

fn screen(space: Option<u64>) -> Screen {
    Screen { frame: rect(0.0, 0.0, 1.0, 1.0), space }
}

#[test]
fn drags_are_resolved_to_a_space() {
    let screens = vec![screen(Some(1)), screen(None), screen(Some(3))];
    assert_eq!(drag_space_candidate(&screens, &vec![false, false, true]), Some(3));
    assert_eq!(drag_space_candidate(&screens, &vec![false, true, false]), None);
    assert_eq!(
        best_space_for_window(&screens, &vec![false, false, false], &vec![4, 1, 2]),
        Some(1)
    );
    assert_eq!(best_space_for_window(&screens, &vec![false; 3], &vec![4, 9, 2]), None);
    assert_eq!(best_space_for_window(&screens, &vec![false; 3], &vec![4, 2, 4]), Some(3));
    assert_eq!(best_space_for_window(&vec![], &vec![], &vec![]), None);
    assert_eq!(
        best_space_for_window(&screens, &vec![false, false, true], &vec![4, 0, 2]),
        Some(3)
    );
    assert_eq!(resolve_drag_space(Some(1), true, Some(2), Some(3)), Some(2));
}

#[test]
fn windows_can_be_swapped_within_a_space() {
    let mut drag = DragManager::new();
    drag.ensure_active_drag(window(1), rect(0.0, 0.0, 1.0, 1.0), Some(1));
    let w = world();
    let none: VecSet<u32> = VecSet::new();
    assert_eq!(
        drag.maybe_swap_on_drag(window(1), &w.windows.windows, &none, Some(1), Some(1), true),
        SwapStep::Consider(1)
    );
    assert_eq!(
        drag.maybe_swap_on_drag(window(2), &w.windows.windows, &none, Some(1), Some(1), true),
        SwapStep::Ignore
    );
    drag.settle_swap(window(1), Some(window(2)));
    assert_eq!(drag.get_pending_drag_swap(), Some((window(1), window(2))));
    let fact = |idx: u32, space: Option<u64>, floating: bool| SwapFact {
        wid: window(idx),
        frame: rect(0.0, 0.0, 1.0, 1.0),
        space,
        in_active_workspace: true,
        is_floating: floating,
    };
    let kept = swap_candidates(
        &vec![fact(1, Some(1), false), fact(2, Some(1), false), fact(3, Some(2), false), fact(4, Some(1), true)],
        window(1),
        1,
    );
    assert_eq!(kept.len(), 1);
    assert_eq!(kept[0].wid, window(2));
}

#[test]
fn a_drag_session_is_kept_and_given_up() {
    let mut drag = DragManager::new();
    drag.ensure_active_drag(window(1), rect(0.0, 0.0, 1.0, 1.0), Some(1));
    drag.update_active_drag(window(1), rect(5.0, 0.0, 1.0, 1.0), Some(2));
    drag.mark_drag_dirty(window(1));
    assert_eq!(
        drag.take_active_drag_session(),
        Some(DragSession {
            window: window(1),
            last_frame: rect(5.0, 0.0, 1.0, 1.0),
            origin_space: Some(1),
            settled_space: Some(2),
            layout_dirty: true,
        })
    );
    assert_eq!(drag.drag_state, DragState::Inactive);
    assert!(drag.finalize_active_drag(Some(1)).is_none());
}

fn listed(idx: u32, sys_id: u32) -> ListedWindow {
    ListedWindow {
        wid: window(idx),
        info: info(Some(sys_id)),
        frame_is_empty: false,
        is_manageable: true,
    }
}

fn space_manager() -> SpaceManager {
    SpaceManager {
        screens: vec![screen(Some(1))],
        fullscreen_by_space: VecMap::new(),
        changing_screens: VecSet::new(),
    }
}

#[test]
fn listed_windows_are_recorded_and_unlisted_ones_go_stale() {
    let mut windows = WindowManager::new();
    windows.update_window_states(vec![listed(1, 101), listed(2, 102)]);
    assert!(windows.knows_windows_of(1));
    assert!(windows.window_is_standard(window(1)));
    let mut facts: VecMap<u32, StaleFacts> = VecMap::new();
    let fact = StaleFacts {
        layer: 0,
        unsuitable: false,
        too_small: false,
        ordered_in: false,
        space: Some(1),
    };
    let _ = facts.insert(101, fact);
    let _ = facts.insert(102, fact);
    let mc = MissionControlManager {
        mission_control_state: MissionControlState::Inactive,
        pending_mission_control_refresh: VecSet::new(),
    };
    let refocus = RefocusManager {
        stale_cleanup_state: StaleCleanupState::Enabled,
        refocus_state: RefocusState::Idle,
    };
    let stale_when = |drag: &DragManager| {
        WindowDiscoveryHandler::identify_stale_windows(
            &windows,
            &space_manager(),
            drag,
            &mc,
            &refocus,
            1,
            &vec![window(1)],
            &facts,
            &VecMap::new(),
        )
    };
    assert_eq!(stale_when(&DragManager::new()), (vec![window(2)], false));
    let mut dragging = DragManager::new();
    dragging.ensure_active_drag(window(1), rect(0.0, 0.0, 1.0, 1.0), Some(1));
    assert_eq!(stale_when(&dragging), (vec![], false));
    let mut places: VecMap<WindowId, u64> = VecMap::new();
    let _ = places.insert(window(1), 1);
    let _ = places.insert(window(2), 1);
    let _ = windows.visible_windows.insert(101);
    let _ = windows.visible_windows.insert(102);
    let updates = WindowDiscoveryHandler::emit_layout_events(
        &windows,
        &vec![screen(Some(1))],
        1,
        &vec![window(1), window(2)],
        &places,
    );
    assert_eq!(updates.len(), 1);
    assert_eq!(updates[0].space, 1);
    assert!(updates[0].windows.contains(&window(1)));
}

#[test]
fn readings_keep_the_frame_if_it_is_empty() {
    let mut windows = WindowManager::new();
    windows.update_window_states(vec![listed(1, 101)]);
    let mut next = info(Some(101));
    next.frame = rect(0.0, 0.0, 0.0, 0.0);
    next.title = "later".to_string();
    windows.take_over(window(1), next, true, true);
    let state = windows.windows.get(&window(1)).unwrap();
    assert_eq!(state.frame_monotonic, rect(0.0, 0.0, 50.0, 50.0));
    assert_eq!(state.title, "later");
}

#[test]
fn a_destroyed_window_may_still_exist() {
    let mut w = world();
    assert!(!WindowEventHandler::handle_window_destroyed(
        &mut w.windows,
        &mut w.tx,
        &mut w.drag,
        window(1),
        true,
        &destroyed(&[101], None),
    )
    .removed);
    assert!(w.windows.windows.contains_key(&window(1)));
    assert!(!WindowEventHandler::handle_window_destroyed(
        &mut w.windows,
        &mut w.tx,
        &mut w.drag,
        window(9),
        false,
        &destroyed(&[], Some(window(9))),
    )
    .resets_swap);
    let over = WindowEventHandler::handle_window_destroyed(
        &mut w.windows,
        &mut w.tx,
        &mut w.drag,
        window(1),
        false,
        &destroyed(&[101], Some(window(1))),
    );
    assert!(over.removed && over.resets_swap);
}

#[test]
fn server_infos_name_their_owner() {
    let mut windows = WindowManager::new();
    let _ = windows.window_server_info.insert(
        5,
        WindowServerInfo { id: 5, pid: 8, layer: 0, frame: rect(0.0, 0.0, 1.0, 1.0) },
    );
    let mut elsewhere: VecMap<u32, i32> = VecMap::new();
    let _ = elsewhere.insert(6, 9);
    assert_eq!(windows.owner(5, &elsewhere), Some(8));
    assert_eq!(windows.owner(6, &elsewhere), Some(9));
    assert_eq!(windows.owner(7, &elsewhere), None);
    let mut changing: VecSet<u32> = VecSet::new();
    let _ = changing.insert(6);
    assert!(windows.pid_has_changing_screens(&changing, 9, &elsewhere));
    assert!(!windows.pid_has_changing_screens(&changing, 8, &elsewhere));
}

#[test]
fn rules_are_not_applied_twice_in_a_moment() {
    assert!(WindowDiscoveryHandler::rules_recently_applied(1000, 1999, false, true));
    assert!(!WindowDiscoveryHandler::rules_recently_applied(1000, 2000, false, true));
    assert!(!WindowDiscoveryHandler::rules_recently_applied(1000, 1500, true, true));
    assert!(!WindowDiscoveryHandler::rules_recently_applied(1000, 1500, false, false));
}
