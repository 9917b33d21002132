use rift::app::{
    is_ignored_window, needs_title_element, notification_named, windows_listed, ActivationReport,
    AnswerStep, AppWindowState, AxError, DestroyStep, Element, MainElement, MoveStep, Notification,
    NotificationStep, Rebind, Recovery, RegisterPlan, Request, RequestStep, StaleWindow, State,
    TabActivation, VisibleWindows,
};
use rift::collections::VecSet;
use rift::model::{Frame, MouseState, Point, Quiet, WindowInfo};
use rift::reactor::event::{Event, Requested};
use rift::reactor::transaction_manager::{TransactionId, WindowTxStore};
use rift::window_id::WindowId;

fn frame() -> Frame {
    Frame { x: 1, y: 2, width: 3, height: 4 }
}

fn window(idx: u32) -> WindowId {
    WindowId { pid: 1, idx }
}

fn elem(handle: u64, wsid: u32, tab_group: Option<u64>) -> Element {
    Element { handle, wsid: Some(wsid), tab_group }
}

fn info(sys_id: Option<u32>) -> WindowInfo {
    WindowInfo {
        is_standard: true,
        is_root: true,
        is_minimized: false,
        title: "title".to_string(),
        frame: frame(),
        sys_id,
        bundle_id: None,
        path: None,
        ax_role: None,
        ax_subrole: None,
    }
}

fn register(state: &mut State, e: &Element) -> WindowId {
    let store = WindowTxStore::new();
    match state.plan_registration(e, true, true, e.wsid) {
        RegisterPlan::Track { wid, key } => {
            let _ = state.track_window(e, wid, key, e.wsid, &store);
            wid
        }
        other => panic!("{other:?}"),
    }
}

#[test]
fn windows_are_registered_once() {
    let mut s = State::new(1);
    let e = elem(10, 5, None);
    assert_eq!(register(&mut s, &e), window(5));
    assert_eq!(s.id(&e), Some(window(5)));
    assert_eq!(s.plan_registration(&e, true, true, Some(5)), RegisterPlan::Duplicate);
    assert_eq!(s.last_window_idx, 5);
    assert_eq!(s.id(&elem(11, 6, None)), None);
    let unnumbered = Element { handle: 12, wsid: None, tab_group: None };
    assert_eq!(
        s.plan_registration(&unnumbered, true, true, None),
        RegisterPlan::Track { wid: window(6), key: None }
    );
}

#[test]
fn tabs_share_a_window() {
    let mut s = State::new(1);
    let store = WindowTxStore::new();
    let first = elem(10, 5, Some(77));
    let second = elem(11, 6, Some(77));
    let wid = register(&mut s, &first);
    assert_eq!(
        s.plan_registration(&second, true, true, Some(6)),
        RegisterPlan::ExistingTabGroup(wid)
    );
    assert_eq!(s.id(&second), Some(wid));
    assert!(s.follows_tabs(wid));
    assert_eq!(s.begin_tab_activation(wid, &first, &store), TabActivation::Unchanged);
    assert_eq!(
        s.begin_tab_activation(wid, &second, &store),
        TabActivation::Swap { old_elem: 10 }
    );
    s.finish_tab_activation(wid, &second, &store);
    assert_eq!(s.window(wid).unwrap().elem, 11);
    assert_eq!(s.begin_tab_activation(window(9), &second, &store), TabActivation::Unknown);
    s.remove_tab_group_for_window(wid);
    assert!(!s.follows_tabs(wid));
}

#[test]
fn removed_windows_leave_no_trace() {
    let mut s = State::new(1);
    let e = elem(10, 5, Some(77));
    let wid = register(&mut s, &e);
    let _ = s.on_main_window_changed(wid, None);
    let _ = s.remove_tracked_window(wid);
    assert_eq!(s.window(wid), None);
    assert!(s.tab_groups.is_empty());
    assert!(s.tab_group_by_wid.is_empty());
    assert!(s.tab_group_by_wsid.is_empty());
    assert_eq!(s.id(&e), None);
}

#[test]
fn main_windows_are_reported_once() {
    let mut s = State::new(1);
    assert_eq!(
        s.on_main_window_changed(window(5), None),
        Some(Event::ApplicationMainWindowChanged(1, Some(window(5)), Quiet::No))
    );
    assert_eq!(s.on_main_window_changed(window(5), None), None);
    assert_eq!(
        s.on_main_window_changed(window(6), Some(window(6))),
        Some(Event::ApplicationMainWindowChanged(1, Some(window(6)), Quiet::Yes))
    );
    assert_eq!(
        s.on_main_window_lost(),
        Some(Event::ApplicationMainWindowChanged(1, None, Quiet::No))
    );
    assert_eq!(s.on_main_window_lost(), None);
}

#[test]
fn activations_that_were_asked_for_are_quiet() {
    let mut s = State::new(1);
    let wids = vec![window(5)];
    assert!(State::raise_wait(&wids, Quiet::Yes, true, true, true).is_none());
    assert!(State::raise_wait(&wids, Quiet::Yes, false, false, true).is_none());
    assert!(State::raise_wait(&wids, Quiet::Yes, false, true, false).is_none());
    let wait = State::raise_wait(&wids, Quiet::Yes, false, true, true).unwrap();
    assert_eq!(wait.quiet_window_change, Some(window(5)));
    assert!(!s.await_activation(wait, 1000));
    assert!(s.last_activated.is_some());
    let change = s.on_activation_changed(true, 1500);
    assert_eq!(change.report, Some(ActivationReport::Activated(Quiet::Yes)));
    let same = s.on_activation_changed(true, 1600);
    assert_eq!(same.report, None);
    let left = s.on_activation_changed(false, 1700);
    assert_eq!(left.report, Some(ActivationReport::Deactivated));
}

#[test]
fn hiding_an_application_hides_its_windows() {
    let mut s = State::new(1);
    let a = register(&mut s, &elem(10, 5, None));
    let b = register(&mut s, &elem(11, 6, None));
    let mut hidden = s.on_application_hidden();
    hidden.sort();
    assert_eq!(hidden, vec![a, b]);
    assert!(s.on_application_hidden().is_empty());
    let mut minimized = VecSet::new();
    let _ = minimized.insert(b);
    assert_eq!(s.on_application_shown(&minimized), vec![a]);
    assert!(!s.is_hidden);
    s.on_minimized_changed(b);
    assert!(!s.window(b).unwrap().hidden_by_app);
}

#[test]
fn requests_are_answered() {
    let mut s = State::new(1);
    let store = WindowTxStore::new();
    let wid = register(&mut s, &elem(10, 5, None));
    assert!(matches!(s.handle_request(Request::Terminate, false, &store), RequestStep::Stop));
    assert!(matches!(
        s.handle_request(Request::GetVisibleWindows, false, &store),
        RequestStep::ListWindows
    ));
    assert!(matches!(
        s.handle_request(Request::CloseWindow(wid), false, &store),
        RequestStep::Close(10)
    ));
    assert!(matches!(
        s.handle_request(Request::SetWindowFrame(wid, frame(), TransactionId(3), true), false, &store),
        RequestStep::Place { elem: 10, txid: TransactionId(3), eui: true, .. }
    ));
    assert_eq!(s.window(wid).unwrap().last_seen_txid, TransactionId(3));
    assert!(matches!(
        s.handle_request(
            Request::SetWindowPos(wid, Point { x: 0, y: 0 }, TransactionId(4), false),
            false,
            &store
        ),
        RequestStep::Move { elem: 10, txid: TransactionId(4), eui: false, .. }
    ));
    assert!(matches!(
        s.handle_request(
            Request::SetWindowFrame(window(9), frame(), TransactionId(3), true),
            false,
            &store
        ),
        RequestStep::Done
    ));
    assert!(matches!(
        s.handle_request(Request::BeginWindowAnimation(wid), false, &store),
        RequestStep::Quiesce(10)
    ));
    assert!(s.window(wid).unwrap().is_animating);
    assert!(matches!(s.on_element_moved(wid, &store), MoveStep::Ignore));
    assert!(matches!(
        s.handle_request(Request::EndWindowAnimation(wid), false, &store),
        RequestStep::Resume { elem: 10, txid: Some(TransactionId(4)), .. }
    ));
    assert!(matches!(
        s.on_element_moved(wid, &store),
        MoveStep::Read(Some(TransactionId(4)))
    ));
    assert!(matches!(
        s.handle_request(Request::BeginWindowAnimation(window(9)), false, &store),
        RequestStep::NotFound
    ));
    assert_eq!(s.note_txid(wid, TransactionId(8)), Some(10));
    assert_eq!(s.note_txid(window(9), TransactionId(8)), None);
}

#[test]
fn destroyed_objects_may_be_replaced() {
    let mut s = State::new(1);
    let first = elem(10, 5, Some(77));
    let wid = register(&mut s, &first);
    assert!(matches!(
        s.on_element_destroyed(wid, &elem(99, 8, None), false),
        DestroyStep::Ignore
    ));
    assert!(matches!(
        s.on_element_destroyed(wid, &first, true),
        DestroyStep::Replace(x) if x == wid
    ));
    assert!(matches!(
        s.on_element_destroyed(wid, &first, false),
        DestroyStep::Gone(x) if x == wid
    ));
    assert_eq!(s.window(wid), None);
}

#[test]
fn windows_are_found_again() {
    let mut s = State::new(1);
    let wid = register(&mut s, &elem(10, 5, Some(77)));
    let candidates = vec![elem(10, 5, Some(77)), elem(11, 6, Some(77))];
    assert_eq!(s.find_tab_group_replacement(wid, 10, &candidates), Some(1));
    assert_eq!(s.find_tab_group_replacement(wid, 10, &vec![elem(12, 9, None)]), None);
    assert_eq!(s.try_recover_invalid_window(wid, Some(1), None), Recovery::Replace(1));
    assert_eq!(s.try_recover_invalid_window(wid, None, None), Recovery::Lost);
    let _ = s.on_main_window_changed(wid, None);
    let named = MainElement { named: Some(wid), rebind: Rebind::Refuse };
    assert_eq!(s.try_recover_invalid_window(wid, None, Some(named)), Recovery::KeepMain);
    let rebound = MainElement { named: None, rebind: Rebind::Activate(wid) };
    assert_eq!(s.try_recover_invalid_window(wid, None, Some(rebound)), Recovery::RebindMain);
    assert_eq!(s.try_recover_invalid_window(window(9), Some(0), None), Recovery::Lost);
}

#[test]
fn errors_are_judged() {
    assert_eq!(State::handle_ax_result(None), AnswerStep::Value);
    assert_eq!(State::handle_ax_result(Some(AxError::InvalidUIElement)), AnswerStep::Recover);
    assert_eq!(State::handle_ax_result(Some(AxError::CannotComplete)), AnswerStep::Skip);
    assert_eq!(State::handle_ax_result(Some(AxError::Other(7))), AnswerStep::Fail);
}

#[test]
fn transactions_of_windows_are_found() {
    assert_eq!(State::some_txid(TransactionId(0)), None);
    assert_eq!(State::some_txid(TransactionId(2)), Some(TransactionId(2)));
    let mut store = WindowTxStore::new();
    store.insert(5, TransactionId(9), frame());
    let state = AppWindowState {
        elem: 1,
        last_seen_txid: TransactionId(3),
        hidden_by_app: false,
        window_server_id: Some(5),
        is_animating: false,
    };
    assert_eq!(State::txid_for_window_state(&store, &state), Some(TransactionId(9)));
    let other = AppWindowState { window_server_id: Some(6), ..state };
    assert_eq!(State::txid_for_window_state(&store, &other), Some(TransactionId(3)));
}

#[test]
fn listed_objects_are_surveyed() {
    let mut s = State::new(1);
    let kept = elem(10, 5, None);
    let a = register(&mut s, &kept);
    let b = register(&mut s, &elem(11, 6, None));
    let survey = s.survey(&vec![kept]);
    assert_eq!(survey.windows, vec![a]);
    assert!(!s.is_stale(a, &survey));
    assert!(s.is_stale(b, &survey));
}

#[test]
fn windows_missing_from_the_list_are_dropped() {
    let mut s = State::new(1);
    let kept = elem(10, 5, None);
    let a = register(&mut s, &kept);
    let b = register(&mut s, &elem(11, 6, None));
    s.main_window = Some(b);
    let mut invalid = VecSet::new();
    let unknown = s.survey(&vec![kept, elem(12, 7, None)]);
    assert!(unknown.had_unmapped);
    assert!(s.remove_stale_windows(Some(&unknown), &invalid).is_empty());
    assert!(s.remove_stale_windows(None, &invalid).is_empty());
    let listed = s.survey(&vec![kept]);
    assert_eq!(
        s.remove_stale_windows(Some(&listed), &invalid),
        vec![StaleWindow { wid: b, was_main: true }]
    );
    assert!(!s.windows.contains_key(&b));
    let _ = invalid.insert(a);
    assert_eq!(
        s.remove_stale_windows(None, &invalid),
        vec![StaleWindow { wid: a, was_main: false }]
    );
    assert!(s.windows.keys().is_empty());
}

#[test]
fn windows_without_a_server_window_are_forgotten() {
    let mut s = State::new(1);
    let a = register(&mut s, &elem(10, 5, None));
    let store = WindowTxStore::new();
    let ask = || Request::WindowMaybeDestroyed(a);
    assert_eq!(s.handle_request(ask(), false, &store), RequestStep::ListWindows);
    assert_eq!(
        s.handle_request(ask(), true, &store),
        RequestStep::Forget { wid: a, was_main: false }
    );
    assert!(!s.windows.contains_key(&a));
    assert_eq!(s.handle_request(ask(), true, &store), RequestStep::Done);
}

#[test]
fn some_windows_are_never_recorded() {
    assert!(!is_ignored_window(&info(None)));
    let with = |f: fn(&mut WindowInfo)| {
        let mut i = info(None);
        f(&mut i);
        is_ignored_window(&i)
    };
    assert!(with(|i| i.bundle_id = Some("com.Example.Widget".to_string())));
    assert!(with(|i| i.bundle_id = Some("com.widget.example".to_string())));
    assert!(with(|i| i.path = Some("/A/B.AppEx/C".to_string())));
    assert!(with(|i| i.ax_role = Some("AXPopover".to_string())));
    assert!(with(|i| i.ax_role = Some("AXMenu".to_string())));
    assert!(!with(|i| i.ax_role = Some("AXWindow".to_string())));
    assert!(!needs_title_element(&None));
}

#[test]
fn notifications_have_names() {
    for n in [
        Notification::ApplicationActivated,
        Notification::ApplicationHidden,
        Notification::MainWindowChanged,
        Notification::MenuOpened,
        Notification::UIElementDestroyed,
        Notification::WindowResized,
        Notification::TitleChanged,
    ] {
        assert_eq!(notification_named(n.as_str()), Some(n));
    }
    assert_eq!(notification_named("AXNothing"), None);
    let mut s = State::new(1);
    let e = elem(10, 5, None);
    let wid = register(&mut s, &e);
    assert!(matches!(
        s.handle_notification(&e, Notification::MenuOpened),
        NotificationStep::Report(Event::MenuOpened)
    ));
    assert!(matches!(
        s.handle_notification(&e, Notification::WindowMoved),
        NotificationStep::Moved(x) if x == wid
    ));
    assert!(matches!(
        s.handle_notification(&e, Notification::ApplicationActivated),
        NotificationStep::ReadFrontmost
    ));
    assert!(matches!(
        s.handle_notification(&elem(50, 60, None), Notification::WindowCreated),
        NotificationStep::Register
    ));
}

#[test]
fn frames_are_reported() {
    assert_eq!(
        State::requested_frame(window(5), frame(), Some(TransactionId(1))),
        Event::WindowFrameChanged(
            window(5),
            frame(),
            Some(TransactionId(1)),
            Requested(true),
            None
        )
    );
    assert_eq!(
        State::observed_frame(window(5), frame(), None, Some(MouseState::Down)),
        Event::WindowFrameChanged(
            window(5),
            frame(),
            None,
            Requested(false),
            Some(MouseState::Down)
        )
    );
    assert_eq!(State::raise_quiet_if(window(5), 0, 2, Quiet::Yes), None);
    assert_eq!(State::raise_quiet_if(window(5), 1, 2, Quiet::No), None);
    assert_eq!(State::raise_quiet_if(window(5), 1, 2, Quiet::Yes), Some(window(5)));
}

#[test]
fn the_visible_object_describes_a_window() {
    let mut v = VisibleWindows::new();
    v.add_registered(window(5), info(Some(5)));
    v.note_visible(window(5));
    v.note_visible(window(5));
    assert_eq!(v.known_visible, vec![window(5)]);
    v.describe(window(5), info(Some(6)), Some(5));
    assert_eq!(v.new[0].1.sys_id, Some(5));
    v.describe(window(5), info(Some(6)), Some(6));
    assert_eq!(v.new.len(), 1);
    assert_eq!(v.new[0].1.sys_id, Some(6));
    let listed = windows_listed(1, Ok(v));
    assert_eq!(
        listed.event,
        Event::WindowsDiscovered {
            pid: 1,
            new: vec![(window(5), info(Some(6)))],
            known_visible: vec![window(5)],
        }
    );
    assert_eq!(listed.result, Ok(()));
}

#[test]
fn windows_that_cannot_be_listed_are_reported_missing() {
    let failed = windows_listed(1, Err(AxError::CannotComplete));
    assert_eq!(
        failed.event,
        Event::WindowsDiscovered { pid: 1, new: vec![], known_visible: vec![] }
    );
    assert_eq!(failed.result, Err(AxError::CannotComplete));
}

#[test]
fn unknown_main_windows_may_be_tabs() {
    let mut s = State::new(1);
    assert_eq!(s.maybe_rebind_unknown_main_window(Some(9), true, true), Rebind::Refuse);
    let wid = register(&mut s, &elem(10, 5, None));
    let _ = s.on_main_window_changed(wid, None);
    assert_eq!(s.maybe_rebind_unknown_main_window(Some(5), false, false), Rebind::Same(wid));
    assert_eq!(s.maybe_rebind_unknown_main_window(Some(9), true, false), Rebind::Activate(wid));
    assert_eq!(s.maybe_rebind_unknown_main_window(Some(9), false, true), Rebind::Refuse);
    assert_eq!(s.maybe_rebind_unknown_main_window(None, true, true), Rebind::Refuse);
}

#[test]
fn found_objects_are_looked_up() {
    assert!(State::records_unknown(false, Rebind::Same(window(5))));
    assert!(State::records_unknown(true, Rebind::Refuse));
    assert!(!State::records_unknown(true, Rebind::Activate(window(5))));
    let new = State::registered(RegisterPlan::Track { wid: window(5), key: None }, true);
    assert_eq!((new.window, new.reports, new.follows), (Some(window(5)), true, false));
    let tab = State::registered(RegisterPlan::ExistingTabGroup(window(5)), true);
    assert_eq!((tab.window, tab.reports, tab.follows), (Some(window(5)), false, true));
    assert!(!State::registered(RegisterPlan::ExistingTabGroup(window(5)), false).follows);
    assert_eq!(State::registered(RegisterPlan::Duplicate, true).window, None);
}
