//! Requests and responses.

use vstd::prelude::*;

use crate::protocol::events::EventKind;
use crate::protocol::queries::WindowId;
use crate::reactor::event::Command;

verus! {

/// The bit that keeps the focus from following the mouse.
pub const SUPPRESS_FOCUS_FOLLOWS_MOUSE: u32 = 1;

/// The bits that mean something.
pub const SUPPORTED_BITS: u32 = 1;

/// Behavior requested for the lifetime of an external window claim.
#[derive(Clone, Copy, Debug, PartialEq, Eq, Structural)]
pub struct WindowClaimFlags(pub u32);

impl Default for WindowClaimFlags {
    fn default() -> (r: WindowClaimFlags)
        ensures
            r == WindowClaimFlags(0),
    {
        WindowClaimFlags(0)
    }
}

impl WindowClaimFlags {
    pub fn empty() -> (r: WindowClaimFlags)
        ensures
            r == WindowClaimFlags(0),
    {
        WindowClaimFlags(0)
    }

    /// The focus does not follow the mouse.
    pub fn suppress_focus_follows_mouse() -> (r: WindowClaimFlags)
        ensures
            r == WindowClaimFlags(SUPPRESS_FOCUS_FOLLOWS_MOUSE),
    {
        WindowClaimFlags(SUPPRESS_FOCUS_FOLLOWS_MOUSE)
    }

    pub fn bits(self) -> (r: u32)
        ensures
            r == self.0,
    {
        self.0
    }

    /// Flags with exactly these bits, known or not.
    pub fn from_bits_retain(bits: u32) -> (r: WindowClaimFlags)
        ensures
            r == WindowClaimFlags(bits),
    {
        WindowClaimFlags(bits)
    }

    pub open spec fn has(self, other: WindowClaimFlags) -> bool {
        self.0 & other.0 == other.0
    }

    /// Whether every flag of `other` is set.
    pub fn contains(self, other: WindowClaimFlags) -> (r: bool)
        ensures
            r == self.has(other),
    {
        self.0 & other.0 == other.0
    }

    /// Whether only flags that mean something are set.
    pub fn is_supported(self) -> (r: bool)
        ensures
            r == (self.0 <= SUPPORTED_BITS),
    {
        let bits: u32 = self.0;
        assert((bits & !1u32 == 0) == (bits <= 1)) by (bit_vector);
        self.0 & !SUPPORTED_BITS == 0
    }
}

impl core::ops::BitOr for WindowClaimFlags {
    type Output = WindowClaimFlags;

    fn bitor(self, rhs: WindowClaimFlags) -> (r: WindowClaimFlags) {
        WindowClaimFlags(self.0 | rhs.0)
    }
}

impl vstd::std_specs::ops::BitOrSpecImpl for WindowClaimFlags {
    open spec fn obeys_bitor_spec() -> bool {
        true
    }

    open spec fn bitor_req(self, rhs: WindowClaimFlags) -> bool {
        true
    }

    open spec fn bitor_spec(self, rhs: WindowClaimFlags) -> WindowClaimFlags {
        WindowClaimFlags(self.0 | rhs.0)
    }
}

/// What a client can have executed.
pub type RiftCommand = Command;

/// A request to the window manager.
#[derive(Clone, Debug, PartialEq, Eq)]
pub enum RiftRequest {
    GetWorkspaces { space_id: Option<u64> },
    GetWorkspacesForDisplay { display_uuid: String },
    GetDisplays,
    GetWindows { space_id: Option<u64> },
    GetWindowsForDisplay { display_uuid: String },
    GetWindowInfo { window_id: WindowId },
    ClaimWindow { window_id: WindowId, flags: WindowClaimFlags },
    ReleaseWindow { window_id: WindowId },
    GetLayoutState { space_id: Option<u64>, workspace_id: Option<usize> },
    GetLayoutStateForDisplay { display_uuid: String, workspace_id: Option<usize> },
    GetWorkspaceLayouts { space_id: Option<u64>, workspace_id: Option<usize> },
    GetWorkspaceLayoutsForDisplay { display_uuid: String, workspace_id: Option<usize> },
    GetApplications,
    GetMetrics,
    GetConfig,
    ExecuteCommand { command: RiftCommand },
    Subscribe { event: EventKind },
    Unsubscribe { event: EventKind },
    SubscribeCli { event: EventKind, command: String, args: Vec<String> },
    UnsubscribeCli { event: EventKind },
    ListCliSubscriptions,
}

/// The answer to a request: data, or an error as a JSON value.
pub enum RiftResponse<T> {
    Success { data: T },
    Error { error: serde_json::Value },
}

impl<T> RiftResponse<T> {
    pub fn into_result(self) -> (r: Result<T, serde_json::Value>)
        ensures
            r == (match self {
                RiftResponse::Success { data } => Ok::<T, serde_json::Value>(data),
                RiftResponse::Error { error } => Err::<T, serde_json::Value>(error),
            }),
    {
        match self {
            RiftResponse::Success { data } => Ok(data),
            RiftResponse::Error { error } => Err(error),
        }
    }
}

/// The union of two sets of flags has every flag of either.
pub proof fn a_union_has_the_flags_of_both(a: WindowClaimFlags, b: WindowClaimFlags)
    ensures
        WindowClaimFlags(a.0 | b.0).has(a),
        WindowClaimFlags(a.0 | b.0).has(b),
        a.has(WindowClaimFlags(0)),
{
    let x: u32 = a.0;
    let y: u32 = b.0;
    assert((x | y) & x == x && (x | y) & y == y && x & 0 == 0) by (bit_vector);
}

/// Flags are there if and only if adding them changes nothing.
pub proof fn flags_that_are_there_add_nothing(a: WindowClaimFlags, b: WindowClaimFlags)
    ensures
        a.has(b) <==> a.0 | b.0 == a.0,
{
    let x = a.0;
    let y = b.0;
    assert((x & y == y) == (x | y == x)) by (bit_vector);
}

} // verus!
