use rift::collections::{VecMap, VecSet};
use rift::model::Frame;
use rift::spaces::authority::{
    Action, AuthorityState, Event, Snapshot, SpaceEventKind, Surroundings,
};
use rift::spaces::topology::{
    changed_entries, compute_space_remaps, display_set_changed, find_resized_spaces,
    has_distinct_spaces, has_topology_changed, is_complete, null_fullscreen_spaces,
    preserve_user_spaces_during_fullscreen_transition, resolve_command_space,
    resolve_space_for_window_info, screen_snapshot_is_valid_for_commit, screen_spaces,
    visible_window_spaces_for_screens, ScreenInfo, SpaceRemap, VisibleWindow,
};

fn at(x: u64) -> Frame {
    Frame { x, y: 0, width: 100, height: 100 }
}

fn screen(id: u32, space: Option<u64>) -> ScreenInfo {
    ScreenInfo {
        id,
        display_uuid: id as u128,
        frame: at(id as u64),
        width: 1000,
        height: 800,
        space,
    }
}

fn set(items: &[u64]) -> VecSet<u64> {
    let mut s = VecSet::new();
    for i in items {
        let _ = s.insert(*i);
    }
    s
}

fn env(snapshot: Option<Snapshot>, user: &[u64], fullscreen: &[u64]) -> Surroundings {
    Surroundings {
        fullscreen: set(fullscreen),
        user: set(user),
        snapshot,
        display_spaces: vec![],
        windows: vec![],
        under_cursor: vec![],
        active_space: None,
        window_space: None,
        quiet: true,
    }
}

fn shot(screens: Vec<ScreenInfo>) -> Snapshot {
    Snapshot { screens, converter: 7 }
}

#[test]
fn screens_have_distinct_spaces() {
    let both = vec![screen(1, Some(10)), screen(2, Some(20))];
    assert_eq!(screen_spaces(&both), vec![Some(10), Some(20)]);
    assert!(has_distinct_spaces(&both));
    assert!(!has_distinct_spaces(&vec![screen(1, Some(10)), screen(2, Some(10))]));
    assert!(is_complete(&both));
    assert!(!is_complete(&vec![screen(1, None)]));
    assert!(screen_snapshot_is_valid_for_commit(&both, &set(&[])));
    assert!(screen_snapshot_is_valid_for_commit(&vec![], &set(&[])));
    let twice = vec![screen(1, Some(10)), screen(2, Some(10))];
    assert!(!screen_snapshot_is_valid_for_commit(&twice, &set(&[])));
    assert!(screen_snapshot_is_valid_for_commit(&twice, &set(&[10])));
}

#[test]
fn fullscreen_spaces_are_not_managed() {
    let screens = vec![screen(1, Some(10)), screen(2, Some(99))];
    let nulled = null_fullscreen_spaces(&screens, &set(&[99]));
    assert_eq!(screen_spaces(&nulled), vec![Some(10), None]);
    let before = vec![screen(1, Some(10)), screen(2, Some(20))];
    let kept = preserve_user_spaces_during_fullscreen_transition(&before, &screens, &set(&[99]));
    assert_eq!(kept.len(), 2);
    assert_eq!(kept[0].space, Some(10));
}

#[test]
fn changes_of_the_displays_are_seen() {
    let before = vec![screen(1, Some(10)), screen(2, Some(20))];
    assert!(!display_set_changed(&before, &before));
    assert!(!has_topology_changed(&before, &before));
    assert!(find_resized_spaces(&before, &before).is_empty());
    let fewer = vec![screen(1, Some(10))];
    assert!(display_set_changed(&before, &fewer));
    assert!(has_topology_changed(&before, &fewer));
    let mut wider = screen(1, Some(10));
    wider.width = 2000;
    let resized = find_resized_spaces(&before, &vec![wider, screen(2, Some(20))]);
    assert_eq!(resized.len(), 1);
    assert_eq!(resized[0].space, 10);
}

#[test]
fn a_new_space_on_a_display_replaces_the_old_one() {
    let mut last: VecMap<u128, u64> = VecMap::new();
    assert!(compute_space_remaps(&mut last, &vec![screen(1, Some(10))], true).is_empty());
    assert_eq!(last.get(&1), Some(&10));
    assert_eq!(
        compute_space_remaps(&mut last, &vec![screen(1, Some(11))], true),
        vec![SpaceRemap { previous: 10, space: 11 }]
    );
    assert!(compute_space_remaps(&mut last, &vec![screen(1, Some(12))], false).is_empty());
    assert_eq!(last.get(&1), Some(&12));
}

#[test]
fn windows_lie_in_the_space_of_their_screen() {
    let screens = vec![screen(1, Some(10)), screen(2, Some(20))];
    let known = VisibleWindow { id: 5, space: Some(20), under_center: vec![at(1)] };
    assert_eq!(resolve_space_for_window_info(&screens, &known), Some(20));
    let unknown = VisibleWindow { id: 6, space: None, under_center: vec![at(1)] };
    assert_eq!(resolve_space_for_window_info(&screens, &unknown), Some(10));
    let lost = VisibleWindow { id: 7, space: None, under_center: vec![] };
    let placed = visible_window_spaces_for_screens(&screens, &vec![known, unknown, lost]);
    assert_eq!(placed.get(&5), Some(&20));
    assert_eq!(placed.get(&6), Some(&10));
    assert_eq!(placed.get(&7), None);
}

#[test]
fn moved_windows_disappear_and_appear() {
    let mut a: VecMap<u32, u64> = VecMap::new();
    let mut b: VecMap<u32, u64> = VecMap::new();
    let _ = a.insert(1, 10);
    let _ = a.insert(2, 10);
    let _ = b.insert(1, 10);
    let _ = b.insert(2, 20);
    let gone = changed_entries(&a, &b);
    let new = changed_entries(&b, &a);
    assert_eq!((gone.get(&1), gone.get(&2)), (None, Some(&10)));
    assert_eq!((new.get(&1), new.get(&2)), (None, Some(&20)));
}

#[test]
fn commands_go_to_the_space_under_the_cursor() {
    let screens = vec![screen(1, Some(10)), screen(2, Some(20))];
    assert_eq!(resolve_command_space(&screens, &vec![at(2)], Some(10)), Some(20));
    assert_eq!(resolve_command_space(&screens, &vec![], Some(20)), Some(20));
    assert_eq!(resolve_command_space(&screens, &vec![], None), Some(10));
}

#[test]
fn spaces_are_classified() {
    let e = env(None, &[10], &[99]);
    assert_eq!(e.classify_space(10), Some(SpaceEventKind::User));
    assert_eq!(e.classify_space(99), Some(SpaceEventKind::Fullscreen));
    assert_eq!(e.classify_space(5), None);
}

fn forwards(actions: &[Action]) -> usize {
    actions.iter().filter(|a| matches!(a, Action::Forward(_, _))).count()
}

#[test]
fn screens_are_handed_on() {
    let mut state = AuthorityState::default();
    let s = shot(vec![screen(1, Some(10))]);
    let actions =
        state.handle_event(Event::ScreenParametersChanged(s), &env(None, &[10], &[]));
    assert_eq!(forwards(&actions), 1);
    assert_eq!(screen_spaces(&state.screens), vec![Some(10)]);
    assert!(state.has_seen_display_set);
}

#[test]
fn repeated_space_changes_are_handed_on_once() {
    let mut state = AuthorityState::default();
    let e = env(None, &[10, 11], &[]);
    let s = shot(vec![screen(1, Some(10))]);
    let _ = state.handle_event(Event::ScreenParametersChanged(s), &e);
    let first = state.handle_event(Event::SpaceChanged(vec![Some(11)]), &e);
    assert_eq!(forwards(&first), 1);
    let again = state.handle_event(Event::SpaceChanged(vec![Some(11)]), &e);
    assert_eq!(forwards(&again), 0);
}

#[test]
fn unstable_displays_hold_everything_back() {
    let mut state = AuthorityState::default();
    let e = env(None, &[10], &[]);
    let actions = state
        .handle_event(Event::DisplayReconfigured { display_id: 1, flags: 1 }, &e);
    assert!(actions.iter().any(|a| matches!(a, Action::ChurnBegan)));
    assert!(state.display_churn_active);
    let epoch = state.display_churn_epoch;
    let s = shot(vec![screen(1, Some(10))]);
    let held = state.handle_event(Event::ScreenParametersChanged(s), &e);
    assert_eq!(forwards(&held), 0);
    assert!(state.pending_screen_parameters.is_some());
    let dropped = state.handle_event(Event::WindowServerAppeared(5, 10), &e);
    assert!(dropped.is_empty());
    assert_eq!(state.quarantine_stats.appeared_dropped, 1);
    let old = state.handle_event(
        Event::CheckDisplayStabilization { expected_epoch: epoch.wrapping_sub(1), attempt: 0 },
        &e,
    );
    assert!(old.is_empty());
}

#[test]
fn displays_are_stable_once_seen_twice() {
    let mut state = AuthorityState::default();
    let screens = vec![screen(1, Some(10))];
    let seen = env(Some(shot(screens.clone())), &[10], &[]);
    let _ = state.handle_event(Event::DisplayReconfigured { display_id: 1, flags: 1 }, &seen);
    let epoch = state.display_churn_epoch;
    let check = |attempt| Event::CheckDisplayStabilization { expected_epoch: epoch, attempt };
    let first = state.handle_event(check(0), &seen);
    assert!(state.display_churn_active);
    assert_eq!(forwards(&first), 0);
    let second = state.handle_event(check(1), &seen);
    assert!(!state.display_churn_active);
    assert_eq!(forwards(&second), 1);
    assert!(second.iter().any(|a| matches!(a, Action::ChurnEnded)));
}

#[test]
fn windows_are_reported_with_the_kind_of_their_space() {
    let mut state = AuthorityState::default();
    let e = env(None, &[10], &[99]);
    let s = shot(vec![screen(1, Some(10))]);
    let _ = state.handle_event(Event::ScreenParametersChanged(s), &e);
    let shown = state.handle_event(Event::WindowServerAppeared(5, 10), &e);
    assert!(shown
        .iter()
        .any(|a| matches!(a, Action::WindowAppeared(5, 10, SpaceEventKind::User))));
    let full = state.handle_event(Event::WindowServerAppeared(6, 99), &e);
    assert!(full
        .iter()
        .any(|a| matches!(a, Action::WindowAppeared(6, 99, SpaceEventKind::Fullscreen))));
    let gone = state.handle_event(Event::WindowServerDestroyed(5, 10), &e);
    assert!(gone
        .iter()
        .any(|a| matches!(a, Action::WindowDestroyed(5, 10, SpaceEventKind::User))));
}

#[test]
fn sleep_is_told() {
    let mut state = AuthorityState::default();
    let e = env(None, &[], &[]);
    let actions = state.handle_event(Event::SystemWillSleep, &e);
    assert!(state.sleeping);
    assert!(matches!(actions[0], Action::MarkSleeping(true)));
    let _ = state.handle_event(Event::SystemDidWake, &e);
    assert!(!state.sleeping);
}
