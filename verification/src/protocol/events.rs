//! What clients can subscribe to.

use vstd::prelude::*;
use vstd::string::*;

use crate::protocol::queries::WindowId;
use crate::stack_line::LayoutKind;
use crate::text::padded_decimal;
#[allow(unused_imports)]
use crate::text::{padding_keeps_the_value, value_of, zero_padded};

verus! {

/// Events that can be subscribed to.
#[derive(Clone, Copy, Debug, PartialEq, Eq, Structural, Hash)]
pub enum EventKind {
    WorkspaceChanged,
    WindowsChanged,
    WindowTitleChanged,
    FocusedWindowChanged,
    StacksChanged,
    All,
}

impl EventKind {
    /// The name on the wire.
    pub open spec fn text(self) -> Seq<char> {
        match self {
            EventKind::WorkspaceChanged => "workspace_changed"@,
            EventKind::WindowsChanged => "windows_changed"@,
            EventKind::WindowTitleChanged => "window_title_changed"@,
            EventKind::FocusedWindowChanged => "focused_window_changed"@,
            EventKind::StacksChanged => "stacks_changed"@,
            EventKind::All => "*"@,
        }
    }

    pub fn as_str(self) -> (r: &'static str)
        ensures
            r@ == self.text(),
    {
        match self {
            EventKind::WorkspaceChanged => "workspace_changed",
            EventKind::WindowsChanged => "windows_changed",
            EventKind::WindowTitleChanged => "window_title_changed",
            EventKind::FocusedWindowChanged => "focused_window_changed",
            EventKind::StacksChanged => "stacks_changed",
            EventKind::All => "*",
        }
    }

    /// Whether a subscriber to this kind gets events of kind `kind`.
    pub fn covers(self, kind: EventKind) -> (r: bool)
        ensures
            r == (self == EventKind::All || self == kind),
    {
        self == EventKind::All || self == kind
    }
}

/// The identity of a virtual workspace.
#[derive(Clone, Copy, Debug, PartialEq, Eq, Structural, Hash)]
pub struct WorkspaceId {
    pub idx: u32,
    pub version: u32,
}

impl WorkspaceId {
    /// The 64-bit key: the index in the low half, the version in the high half.
    pub open spec fn key(self) -> nat {
        self.version as nat * 0x1_0000_0000 + self.idx as nat
    }

    /// The text that names a workspace: its key in decimal, at least eight digits wide.
    pub fn to_string(&self) -> (r: String)
        ensures
            r@ == zero_padded(self.key(), 8),
    {
        let version: u64 = self.version as u64;
        let idx: u64 = self.idx as u64;
        padded_decimal(version * 0x1_0000_0000 + idx, 8)
    }
}

#[derive(Clone, Debug, PartialEq, Eq)]
pub struct StackInfo {
    pub container_kind: LayoutKind,
    pub total_count: usize,
    pub selected_index: usize,
    pub windows: Vec<String>,
}

#[derive(Clone, Debug, PartialEq, Eq)]
pub enum RiftEvent {
    WorkspaceChanged {
        space_id: u64,
        workspace_id: WorkspaceId,
        workspace_name: String,
        display_uuid: Option<String>,
    },
    WindowsChanged {
        workspace_id: WorkspaceId,
        workspace_name: String,
        windows: Vec<String>,
        space_id: u64,
        display_uuid: Option<String>,
    },
    WindowTitleChanged {
        window_id: WindowId,
        workspace_id: WorkspaceId,
        workspace_index: Option<u64>,
        workspace_name: String,
        previous_title: String,
        new_title: String,
        space_id: u64,
        display_uuid: Option<String>,
    },
    FocusedWindowChanged {
        window_id: WindowId,
        workspace_id: WorkspaceId,
        workspace_index: Option<u64>,
        workspace_name: String,
        space_id: u64,
        display_uuid: Option<String>,
    },
    StacksChanged {
        workspace_id: WorkspaceId,
        workspace_index: Option<u64>,
        workspace_name: String,
        stacks: Vec<StackInfo>,
        active_workspace_has_fullscreen: bool,
        space_id: u64,
        display_uuid: Option<String>,
    },
}

impl RiftEvent {
    pub open spec fn spec_kind(self) -> EventKind {
        match self {
            RiftEvent::WorkspaceChanged { .. } => EventKind::WorkspaceChanged,
            RiftEvent::WindowsChanged { .. } => EventKind::WindowsChanged,
            RiftEvent::WindowTitleChanged { .. } => EventKind::WindowTitleChanged,
            RiftEvent::FocusedWindowChanged { .. } => EventKind::FocusedWindowChanged,
            RiftEvent::StacksChanged { .. } => EventKind::StacksChanged,
        }
    }

    /// The kind that one subscribes to for this event.
    pub fn kind(&self) -> (r: EventKind)
        ensures
            r == self.spec_kind(),
            r != EventKind::All,
    {
        match self {
            RiftEvent::WorkspaceChanged { .. } => EventKind::WorkspaceChanged,
            RiftEvent::WindowsChanged { .. } => EventKind::WindowsChanged,
            RiftEvent::WindowTitleChanged { .. } => EventKind::WindowTitleChanged,
            RiftEvent::FocusedWindowChanged { .. } => EventKind::FocusedWindowChanged,
            RiftEvent::StacksChanged { .. } => EventKind::StacksChanged,
        }
    }

    pub open spec fn space(self) -> u64 {
        match self {
            RiftEvent::WorkspaceChanged { space_id, .. } => space_id,
            RiftEvent::WindowsChanged { space_id, .. } => space_id,
            RiftEvent::WindowTitleChanged { space_id, .. } => space_id,
            RiftEvent::FocusedWindowChanged { space_id, .. } => space_id,
            RiftEvent::StacksChanged { space_id, .. } => space_id,
        }
    }

    /// The space that the event is about.
    pub fn space_id(&self) -> (r: u64)
        ensures
            r == self.space(),
    {
        match self {
            RiftEvent::WorkspaceChanged { space_id, .. } => *space_id,
            RiftEvent::WindowsChanged { space_id, .. } => *space_id,
            RiftEvent::WindowTitleChanged { space_id, .. } => *space_id,
            RiftEvent::FocusedWindowChanged { space_id, .. } => *space_id,
            RiftEvent::StacksChanged { space_id, .. } => *space_id,
        }
    }

    pub open spec fn display(self) -> Option<String> {
        match self {
            RiftEvent::WorkspaceChanged { display_uuid, .. } => display_uuid,
            RiftEvent::WindowsChanged { display_uuid, .. } => display_uuid,
            RiftEvent::WindowTitleChanged { display_uuid, .. } => display_uuid,
            RiftEvent::FocusedWindowChanged { display_uuid, .. } => display_uuid,
            RiftEvent::StacksChanged { display_uuid, .. } => display_uuid,
        }
    }

    /// The display that the event is about, if it is known.
    pub fn display_uuid(&self) -> (r: Option<&str>)
        ensures
            match r {
                Some(text) => self.display() is Some && text@ == self.display()->0@,
                None => self.display() is None,
            },
    {
        let uuid: &Option<String> = match self {
            RiftEvent::WorkspaceChanged { display_uuid, .. } => display_uuid,
            RiftEvent::WindowsChanged { display_uuid, .. } => display_uuid,
            RiftEvent::WindowTitleChanged { display_uuid, .. } => display_uuid,
            RiftEvent::FocusedWindowChanged { display_uuid, .. } => display_uuid,
            RiftEvent::StacksChanged { display_uuid, .. } => display_uuid,
        };
        match uuid {
            Some(text) => Some(text.as_str()),
            None => None,
        }
    }
}

/// Two workspaces never have the same name.
pub proof fn workspace_names_are_collision_free(a: WorkspaceId, b: WorkspaceId)
    requires
        zero_padded(a.key(), 8) == zero_padded(b.key(), 8),
    ensures
        a == b,
{
    padding_keeps_the_value(a.key(), 8);
    padding_keeps_the_value(b.key(), 8);
    assert(a.key() == b.key());
    assert(a.version == b.version && a.idx == b.idx) by (nonlinear_arith)
        requires
            a.version as nat * 0x1_0000_0000 + a.idx as nat == b.version as nat * 0x1_0000_0000
                + b.idx as nat,
    ;
}

/// The name of a workspace, read as a number, is its key.
pub proof fn workspace_names_round_trip(a: WorkspaceId)
    ensures
        value_of(zero_padded(a.key(), 8)) == a.key(),
{
    padding_keeps_the_value(a.key(), 8);
}

/// No two kinds have the same name on the wire.
pub proof fn kind_names_are_distinct(a: EventKind, b: EventKind)
    requires
        a.text() == b.text(),
    ensures
        a == b,
{
    reveal_strlit("workspace_changed");
    reveal_strlit("windows_changed");
    reveal_strlit("window_title_changed");
    reveal_strlit("focused_window_changed");
    reveal_strlit("stacks_changed");
    reveal_strlit("*");
    assert("workspace_changed"@.len() == 17);
    assert("windows_changed"@.len() == 15);
    assert("window_title_changed"@.len() == 20);
    assert("focused_window_changed"@.len() == 22);
    assert("stacks_changed"@.len() == 14);
    assert("*"@.len() == 1);
}

/// The names on the wire.
pub proof fn kinds_have_these_names(kind: EventKind)
    ensures
        kind is WorkspaceChanged ==> kind.text() == "workspace_changed"@,
        kind is WindowsChanged ==> kind.text() == "windows_changed"@,
        kind is WindowTitleChanged ==> kind.text() == "window_title_changed"@,
        kind is FocusedWindowChanged ==> kind.text() == "focused_window_changed"@,
        kind is StacksChanged ==> kind.text() == "stacks_changed"@,
        kind is All ==> kind.text() == "*"@,
{
}

/// The key of a workspace holds its index in the low half and its version in the high half.
pub proof fn keys_hold_index_and_version(a: WorkspaceId)
    ensures
        a.key() % 0x1_0000_0000 == a.idx,
        a.key() / 0x1_0000_0000 == a.version,
        a.key() < 0x1_0000_0000_0000_0000,
{
}

/// An event is of the kind that is named like it.
pub proof fn events_are_of_their_own_kind(e: RiftEvent)
    ensures
        e.spec_kind() is WorkspaceChanged <==> e is WorkspaceChanged,
        e.spec_kind() is WindowsChanged <==> e is WindowsChanged,
        e.spec_kind() is WindowTitleChanged <==> e is WindowTitleChanged,
        e.spec_kind() is FocusedWindowChanged <==> e is FocusedWindowChanged,
        e.spec_kind() is StacksChanged <==> e is StacksChanged,
        e.spec_kind() !is All,
{
}

/// The space and the display of an event are those that it holds.
pub proof fn events_are_about_their_space_and_display(e: RiftEvent)
    ensures
        match e {
            RiftEvent::WorkspaceChanged { space_id, display_uuid, .. } => e.space() == space_id
                && e.display() == display_uuid,
            RiftEvent::WindowsChanged { space_id, display_uuid, .. } => e.space() == space_id
                && e.display() == display_uuid,
            RiftEvent::WindowTitleChanged { space_id, display_uuid, .. } => e.space() == space_id
                && e.display() == display_uuid,
            RiftEvent::FocusedWindowChanged { space_id, display_uuid, .. } => e.space() == space_id
                && e.display() == display_uuid,
            RiftEvent::StacksChanged { space_id, display_uuid, .. } => e.space() == space_id
                && e.display() == display_uuid,
        },
{
}

} // verus!
