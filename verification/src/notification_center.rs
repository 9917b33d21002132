//! Notifications of the system: what each tells the window manager and the authority on spaces.

use vstd::prelude::*;
use vstd::string::*;

use crate::model::Pid;
use crate::text::same_text;

verus! {

/// What the authority on spaces is told.
#[derive(Clone, Copy, Debug, PartialEq, Eq, Structural)]
pub enum SpaceNotice {
    ActiveDisplayChanged,
    ActiveSpaceChanged,
    SystemDidWake,
    SystemWillSleep,
    ScreenRefreshRequested,
    DisplayReconfigured { display_id: u32, flags: u32 },
}

/// What the window manager is told.
#[derive(Clone, Copy, Debug, PartialEq, Eq, Structural)]
pub enum WmNotice {
    SystemWoke,
    AppGloballyActivated(Pid),
    AppGloballyDeactivated(Pid),
    PowerStateChanged(bool),
    KeyboardLayoutChanged,
    AppEventsRegistered,
}

#[derive(Clone, Copy, Debug, PartialEq, Eq, Structural)]
pub enum Notice {
    Space(SpaceNotice),
    Wm(WmNotice),
}

/// A notification that was received.
#[derive(Clone, Debug, PartialEq, Eq)]
pub enum Notification {
    ScreenChanged(String),
    /// About an application, which may be missing.
    App(String, Option<Pid>),
    Wake,
    Sleep,
    /// Whether power was saved before and is saved now.
    Power(bool, bool),
    MenuBarPreferences,
    DockPreferences,
    KeyboardLayout,
    DisplayReconfigured { display_id: u32, flags: u32 },
}

/// What a notification tells, in this order.
pub open spec fn notices_of(n: Notification) -> Seq<Notice> {
    match n {
        Notification::ScreenChanged(name) => if name@
            == "NSWorkspaceActiveDisplayDidChangeNotification"@ {
            seq![Notice::Space(SpaceNotice::ActiveDisplayChanged)]
        } else if name@ == "NSWorkspaceActiveSpaceDidChangeNotification"@ {
            seq![Notice::Space(SpaceNotice::ActiveSpaceChanged)]
        } else {
            Seq::empty()
        },
        Notification::App(name, pid) => if pid is Some && name@
            == "NSWorkspaceDidDeactivateApplicationNotification"@ {
            seq![Notice::Wm(WmNotice::AppGloballyDeactivated(pid->0))]
        } else {
            Seq::empty()
        },
        Notification::Wake => seq![
            Notice::Space(SpaceNotice::SystemDidWake),
            Notice::Wm(WmNotice::SystemWoke),
        ],
        Notification::Sleep => seq![Notice::Space(SpaceNotice::SystemWillSleep)],
        Notification::Power(before, now) => if before != now {
            seq![Notice::Wm(WmNotice::PowerStateChanged(now))]
        } else {
            Seq::empty()
        },
        Notification::MenuBarPreferences | Notification::DockPreferences => seq![
            Notice::Space(SpaceNotice::ScreenRefreshRequested),
        ],
        Notification::KeyboardLayout => seq![Notice::Wm(WmNotice::KeyboardLayoutChanged)],
        Notification::DisplayReconfigured { display_id, flags } => seq![
            Notice::Space(SpaceNotice::DisplayReconfigured { display_id, flags }),
        ],
    }
}

pub fn handle_notification(n: &Notification) -> (r: Vec<Notice>)
    ensures
        r@ == notices_of(*n),
{
    let mut out: Vec<Notice> = Vec::new();
    match n {
        Notification::ScreenChanged(name) => {
            if same_text(name.as_str(), "NSWorkspaceActiveDisplayDidChangeNotification") {
                out.push(Notice::Space(SpaceNotice::ActiveDisplayChanged));
            } else if same_text(name.as_str(), "NSWorkspaceActiveSpaceDidChangeNotification") {
                out.push(Notice::Space(SpaceNotice::ActiveSpaceChanged));
            }
        },
        Notification::App(name, pid) => {
            match pid {
                Some(pid) => {
                    if same_text(name.as_str(), "NSWorkspaceDidDeactivateApplicationNotification") {
                        out.push(Notice::Wm(WmNotice::AppGloballyDeactivated(*pid)));
                    }
                },
                None => {},
            }
        },
        Notification::Wake => {
            out.push(Notice::Space(SpaceNotice::SystemDidWake));
            out.push(Notice::Wm(WmNotice::SystemWoke));
        },
        Notification::Sleep => {
            out.push(Notice::Space(SpaceNotice::SystemWillSleep));
        },
        Notification::Power(before, now) => {
            if *before != *now {
                out.push(Notice::Wm(WmNotice::PowerStateChanged(*now)));
            }
        },
        Notification::MenuBarPreferences | Notification::DockPreferences => {
            out.push(Notice::Space(SpaceNotice::ScreenRefreshRequested));
        },
        Notification::KeyboardLayout => {
            out.push(Notice::Wm(WmNotice::KeyboardLayoutChanged));
        },
        Notification::DisplayReconfigured { display_id, flags } => {
            out.push(
                Notice::Space(
                    SpaceNotice::DisplayReconfigured { display_id: *display_id, flags: *flags },
                ),
            );
        },
    }
    assert(out@ =~= notices_of(*n));
    out
}

/// What is told when notifications begin: the screens are looked at first, and the application in
/// front, if there is one, counts as activated.
pub fn watch_for_notifications(frontmost: Option<Pid>) -> (r: Vec<Notice>)
    ensures
        r@ == seq![
            Notice::Space(SpaceNotice::ScreenRefreshRequested),
            Notice::Wm(WmNotice::AppEventsRegistered),
        ] + (match frontmost {
            Some(pid) => seq![Notice::Wm(WmNotice::AppGloballyActivated(pid))],
            None => Seq::empty(),
        }),
{
    let mut out: Vec<Notice> = Vec::new();
    out.push(Notice::Space(SpaceNotice::ScreenRefreshRequested));
    out.push(Notice::Wm(WmNotice::AppEventsRegistered));
    match frontmost {
        Some(pid) => {
            out.push(Notice::Wm(WmNotice::AppGloballyActivated(pid)));
        },
        None => {},
    }
    assert(out@ =~= seq![
        Notice::Space(SpaceNotice::ScreenRefreshRequested),
        Notice::Wm(WmNotice::AppEventsRegistered),
    ] + (match frontmost {
        Some(pid) => seq![Notice::Wm(WmNotice::AppGloballyActivated(pid))],
        None => Seq::empty(),
    }));
    out
}

/// Displays and spaces that change are told by the name of the notification.
pub proof fn screen_notifications_are_told_by_their_names(name: String)
    ensures
        name@ == "NSWorkspaceActiveDisplayDidChangeNotification"@ ==> notices_of(
            Notification::ScreenChanged(name),
        ) == seq![Notice::Space(SpaceNotice::ActiveDisplayChanged)],
        name@ == "NSWorkspaceActiveSpaceDidChangeNotification"@ ==> notices_of(
            Notification::ScreenChanged(name),
        ) == seq![Notice::Space(SpaceNotice::ActiveSpaceChanged)],
        name@ != "NSWorkspaceActiveDisplayDidChangeNotification"@ && name@
            != "NSWorkspaceActiveSpaceDidChangeNotification"@ ==> notices_of(
            Notification::ScreenChanged(name),
        ).len() == 0,
{
    reveal_strlit("NSWorkspaceActiveDisplayDidChangeNotification");
    reveal_strlit("NSWorkspaceActiveSpaceDidChangeNotification");
    assert(name@ == "NSWorkspaceActiveSpaceDidChangeNotification"@ ==> name@[17] == 'S');
    assert(name@ == "NSWorkspaceActiveDisplayDidChangeNotification"@ ==> name@[17] == 'D');
}

/// An application that is left is told by its process, if that is known. Nothing else is told of
/// applications.
pub proof fn deactivated_applications_are_told(name: String, pid: Pid)
    ensures
        notices_of(Notification::App(name, None)).len() == 0,
        name@ == "NSWorkspaceDidDeactivateApplicationNotification"@ ==> notices_of(
            Notification::App(name, Some(pid)),
        ) == seq![Notice::Wm(WmNotice::AppGloballyDeactivated(pid))],
        name@ != "NSWorkspaceDidDeactivateApplicationNotification"@ ==> notices_of(
            Notification::App(name, Some(pid)),
        ).len() == 0,
{
}

/// Waking is told twice: first of the spaces, then to the window manager. Sleeping is told once.
pub proof fn waking_and_sleeping_are_told()
    ensures
        notices_of(Notification::Wake) == seq![
            Notice::Space(SpaceNotice::SystemDidWake),
            Notice::Wm(WmNotice::SystemWoke),
        ],
        notices_of(Notification::Sleep) == seq![Notice::Space(SpaceNotice::SystemWillSleep)],
{
}

/// The power state is told when it changes, as it is now.
pub proof fn power_is_told_when_it_changes(before: bool, now: bool)
    ensures
        before != now ==> notices_of(Notification::Power(before, now)) == seq![
            Notice::Wm(WmNotice::PowerStateChanged(now)),
        ],
        notices_of(Notification::Power(now, now)).len() == 0,
{
}

/// What takes room from the screens asks for them anew. The keyboard layout and a display that is
/// set up anew are told as they are.
pub proof fn settings_are_told_as_they_change(display_id: u32, flags: u32)
    ensures
        notices_of(Notification::MenuBarPreferences) == seq![
            Notice::Space(SpaceNotice::ScreenRefreshRequested),
        ],
        notices_of(Notification::DockPreferences) == notices_of(Notification::MenuBarPreferences),
        notices_of(Notification::KeyboardLayout) == seq![
            Notice::Wm(WmNotice::KeyboardLayoutChanged),
        ],
        notices_of(Notification::DisplayReconfigured { display_id, flags }) == seq![
            Notice::Space(SpaceNotice::DisplayReconfigured { display_id, flags }),
        ],
{
}

} // verus!
