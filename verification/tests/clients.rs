use rift::client::{parse_choice, parse_owner_args, resolve_choice, OwnerError, WindowChoice};
use rift::collections::VecSet;
use rift::dimmer::{desired_windows, BrightnessChange, Dimmer, DimmerStep};
use rift::model::Frame;
use rift::notification_center::{
    handle_notification, watch_for_notifications, Notice, Notification, SpaceNotice, WmNotice,
};
use rift::protocol::queries::{WindowData, WindowId};
use rift::startup::{initial_events, Beginning, Options, StartSettings};
use rift::window_notify::{
    notice_for, CGSEventType, NotifyStep, Request, WindowNotice, WindowNotify,
};
use serde_json::Value;

fn object(fields: Vec<(&str, Value)>) -> Value {
    let mut map = serde_json::Map::new();
    for (name, value) in fields {
        let _ = map.insert(name.to_string(), value);
    }
    Value::Object(map)
}

fn described(id: u64, focused: bool) -> Value {
    object(vec![
        ("window_server_id", Value::from(id)),
        ("is_focused", Value::from(focused)),
    ])
}

fn workspaces() -> Value {
    Value::from(vec![
        object(vec![
            ("is_active", Value::from(false)),
            ("windows", Value::from(vec![described(9, false)])),
        ]),
        object(vec![
            ("is_active", Value::from(true)),
            (
                "windows",
                Value::from(vec![
                    described(1, false),
                    described(2, true),
                    described(3, false),
                    described(1 << 40, false),
                    object(vec![]),
                ]),
            ),
        ]),
    ])
}

fn set(ids: Vec<u32>) -> VecSet<u32> {
    let mut s = VecSet::new();
    for id in ids {
        let _ = s.insert(id);
    }
    s
}

#[test]
fn all_windows_but_the_focused_one_are_dimmed() {
    let desired = desired_windows(&workspaces());
    assert!(desired.contains(&1) && desired.contains(&3));
    assert!(!desired.contains(&2) && !desired.contains(&9));
    assert_eq!(desired.items().len(), 2);
    assert!(desired_windows(&Value::from(1)).is_empty());
    assert!(desired_windows(&Value::from(vec![object(vec![])])).is_empty());
}

#[test]
fn only_changes_are_dimmed() {
    let mut dimmer = Dimmer::new();
    dimmer.refreshed(1, &set(vec![5, 6]));
    dimmer.refreshed(2, &set(vec![5]));
    let mut changes = dimmer.refresh(1, &set(vec![6, 7]));
    changes.sort_by_key(|c| c.window);
    assert_eq!(
        changes,
        vec![
            BrightnessChange { window: 5, dimmed: false },
            BrightnessChange { window: 7, dimmed: true },
        ]
    );
    dimmer.refreshed(1, &set(vec![6, 7]));
    assert!(dimmer.refresh(1, &set(vec![6, 7])).is_empty());
    assert_eq!(dimmer.reset(2), vec![5]);
    assert!(dimmer.reset(2).is_empty());
    dimmer.refreshed(3, &set(vec![7]));
    let mut all = dimmer.restore_all();
    all.sort();
    assert_eq!(all, vec![6, 7]);
    assert!(dimmer.restore_all().is_empty());
}

fn changed(kind: &str, space: u64, display: Option<&str>) -> Value {
    let mut fields = vec![("type", Value::from(kind)), ("space_id", Value::from(space))];
    if let Some(d) = display {
        fields.push(("display_uuid", Value::from(d)));
    }
    object(fields)
}

#[test]
fn events_refresh_the_space_they_are_about() {
    let mut dimmer = Dimmer::new();
    let displays = Value::from(vec![
        object(vec![
            ("space", Value::from(1)),
            ("uuid", Value::from("A")),
            ("is_active_space", Value::from(true)),
        ]),
        object(vec![("space", Value::from(2)), ("uuid", Value::from("B"))]),
        object(vec![("uuid", Value::from("C")), ("is_active_space", Value::from(true))]),
    ]);
    assert_eq!(dimmer.initialize(&displays), vec![1]);
    assert_eq!(
        dimmer.handle_event(&changed("workspace_changed", 4, Some("A"))),
        vec![DimmerStep::Reset(1), DimmerStep::Refresh(4)]
    );
    assert_eq!(
        dimmer.handle_event(&changed("workspace_changed", 4, Some("A"))),
        vec![DimmerStep::Refresh(4)]
    );
    assert_eq!(
        dimmer.handle_event(&changed("workspace_changed", 5, Some("C"))),
        vec![DimmerStep::Refresh(5)]
    );
    assert_eq!(
        dimmer.handle_event(&changed("workspace_changed", 6, None)),
        vec![DimmerStep::Refresh(6)]
    );
    assert_eq!(
        dimmer.handle_event(&changed("windows_changed", 2, Some("A"))),
        vec![DimmerStep::Refresh(2)]
    );
    assert_eq!(
        dimmer.handle_event(&changed("focused_window_changed", 2, None)),
        vec![DimmerStep::Refresh(2)]
    );
    assert_eq!(dimmer.handle_event(&changed("stacks_changed", 2, None)), vec![]);
    assert_eq!(dimmer.handle_event(&object(vec![("space_id", Value::from(1))])), vec![]);
    assert_eq!(dimmer.handle_event(&object(vec![("type", Value::from("windows_changed"))])), vec![]);
}

fn args(list: Vec<&str>) -> Vec<String> {
    list.into_iter().map(|a| a.to_string()).collect()
}

#[test]
fn windows_are_named_by_arguments() {
    assert_eq!(parse_owner_args(&args(vec![])), Err(OwnerError::Usage));
    assert_eq!(parse_owner_args(&args(vec!["--id", "1"])), Err(OwnerError::Usage));
    assert_eq!(parse_owner_args(&args(vec!["--window-id"])), Err(OwnerError::MissingId));
    assert_eq!(
        parse_owner_args(&args(vec!["--window-id", "1", "2"])),
        Err(OwnerError::ExtraArgument)
    );
    assert_eq!(
        parse_owner_args(&args(vec!["--window-id", "12312312"])),
        Ok(WindowChoice::ServerId(12312312))
    );
    assert_eq!(
        parse_owner_args(&args(vec!["--window-id", "1234:1"])),
        Ok(WindowChoice::Id(WindowId { pid: 1234, idx: 1 }))
    );
    assert_eq!(parse_choice("-5:+2"), Ok(WindowChoice::Id(WindowId { pid: -5, idx: 2 })));
    assert_eq!(parse_choice("x:1"), Err(OwnerError::BadPid));
    assert_eq!(parse_choice("1:x:2"), Err(OwnerError::BadIndex));
    assert_eq!(parse_choice("1:0"), Err(OwnerError::ZeroIndex));
    assert_eq!(parse_choice("4294967296"), Err(OwnerError::BadServerId));
    assert_eq!(parse_choice(""), Err(OwnerError::BadServerId));
    assert_eq!(OwnerError::ZeroIndex.message(), "window idx must be nonzero");
    assert_eq!(OwnerError::MissingId.message(), "missing window ID");
}

fn data(idx: u32, number: Option<u32>) -> WindowData {
    WindowData {
        id: WindowId { pid: 1, idx },
        title: String::new(),
        frame: Frame { x: 0, y: 0, width: 0, height: 0 },
        is_floating: false,
        is_focused: false,
        bundle_id: None,
        app_name: None,
        window_server_id: number,
    }
}

#[test]
fn numbers_are_looked_up() {
    let windows = vec![data(1, None), data(2, Some(7)), data(3, Some(7))];
    assert_eq!(
        resolve_choice(WindowChoice::ServerId(7), &windows),
        Ok(WindowId { pid: 1, idx: 2 })
    );
    assert_eq!(resolve_choice(WindowChoice::ServerId(8), &windows), Err(OwnerError::NotFound));
    let id = WindowId { pid: 9, idx: 9 };
    assert_eq!(resolve_choice(WindowChoice::Id(id), &windows), Ok(id));
}

#[test]
fn notifications_are_handed_on() {
    let screen = |name: &str| handle_notification(&Notification::ScreenChanged(name.to_string()));
    assert_eq!(
        screen("NSWorkspaceActiveDisplayDidChangeNotification"),
        vec![Notice::Space(SpaceNotice::ActiveDisplayChanged)]
    );
    assert_eq!(
        screen("NSWorkspaceActiveSpaceDidChangeNotification"),
        vec![Notice::Space(SpaceNotice::ActiveSpaceChanged)]
    );
    assert_eq!(screen("other"), vec![]);
    let gone = "NSWorkspaceDidDeactivateApplicationNotification".to_string();
    assert_eq!(
        handle_notification(&Notification::App(gone.clone(), Some(4))),
        vec![Notice::Wm(WmNotice::AppGloballyDeactivated(4))]
    );
    assert_eq!(handle_notification(&Notification::App(gone, None)), vec![]);
    assert_eq!(handle_notification(&Notification::App("other".to_string(), Some(4))), vec![]);
    assert_eq!(
        handle_notification(&Notification::Wake),
        vec![Notice::Space(SpaceNotice::SystemDidWake), Notice::Wm(WmNotice::SystemWoke)]
    );
    assert_eq!(
        handle_notification(&Notification::Sleep),
        vec![Notice::Space(SpaceNotice::SystemWillSleep)]
    );
    assert_eq!(handle_notification(&Notification::Power(true, true)), vec![]);
    assert_eq!(
        handle_notification(&Notification::Power(true, false)),
        vec![Notice::Wm(WmNotice::PowerStateChanged(false))]
    );
    assert_eq!(
        handle_notification(&Notification::DockPreferences),
        handle_notification(&Notification::MenuBarPreferences)
    );
    assert_eq!(
        handle_notification(&Notification::KeyboardLayout),
        vec![Notice::Wm(WmNotice::KeyboardLayoutChanged)]
    );
    assert_eq!(
        handle_notification(&Notification::DisplayReconfigured { display_id: 1, flags: 2 }),
        vec![Notice::Space(SpaceNotice::DisplayReconfigured { display_id: 1, flags: 2 })]
    );
    assert_eq!(watch_for_notifications(None).len(), 2);
    assert_eq!(
        watch_for_notifications(Some(3))[2],
        Notice::Wm(WmNotice::AppGloballyActivated(3))
    );
}

#[test]
fn window_events_are_subscribed_to_once() {
    let mut notify = WindowNotify::new();
    let moved = CGSEventType::WindowMoved;
    assert_eq!(notify.handle_request(&Request::Subscribe(moved)), NotifyStep::Subscribe(moved));
    assert_eq!(notify.subscribe_result(moved, -3), Err(-3));
    assert_eq!(notify.handle_request(&Request::Subscribe(moved)), NotifyStep::Subscribe(moved));
    assert_eq!(notify.subscribe_result(moved, 0), Ok(()));
    assert_eq!(notify.handle_request(&Request::Subscribe(moved)), NotifyStep::Nothing);
    assert_eq!(
        notify.handle_request(&Request::UpdateWindowNotifications(vec![1])),
        NotifyStep::UpdateWindows
    );
    assert_eq!(notify.handle_request(&Request::Stop), NotifyStep::Exit);
    assert_eq!(
        notice_for(CGSEventType::WindowDestroyed, Some(4)),
        Some(WindowNotice::Destroyed(4))
    );
    assert_eq!(
        notice_for(CGSEventType::ServerWindowDidTerminate, Some(4)),
        Some(WindowNotice::Destroyed(4))
    );
    assert_eq!(
        notice_for(CGSEventType::ServerWindowDidCreate, Some(4)),
        Some(WindowNotice::Appeared(4))
    );
    assert_eq!(notice_for(CGSEventType::WindowCreated, Some(4)), None);
    assert_eq!(notice_for(CGSEventType::WindowDestroyed, None), None);
}

#[test]
fn options_change_the_settings() {
    let options = Options {
        one: false,
        default_disable: true,
        no_animate: true,
        validate: false,
        restore: true,
        record: None,
    };
    assert_eq!(
        options.effective_settings(StartSettings { animate: true, default_disable: false }),
        StartSettings { animate: false, default_disable: true }
    );
    let one = Options { one: true, ..options.clone() };
    assert_eq!(
        one.effective_settings(StartSettings { animate: true, default_disable: false }),
        StartSettings { animate: false, default_disable: false }
    );
    assert_eq!(
        one.effective_settings(StartSettings { animate: false, default_disable: true }),
        StartSettings { animate: false, default_disable: true }
    );
    assert_eq!(options.beginning(), Beginning::Restore);
    assert_eq!(Options { validate: true, ..options.clone() }.beginning(), Beginning::Validate);
    assert_eq!(Options { restore: false, ..options }.beginning(), Beginning::Fresh);
    assert_eq!(
        initial_events(),
        vec![CGSEventType::WindowDestroyed, CGSEventType::WindowCreated]
    );
}
