use rift::protocol::events::{EventKind, RiftEvent, WorkspaceId};
use rift::protocol::queries::{WindowId, WorkspaceData};
use rift::protocol::transport::{RiftRequest, RiftResponse, WindowClaimFlags};
use rift::reactor::outcome::EventOutcome;
use rift::stack_line::LayoutKind;
use serde_json::Value;

#[test]
fn workspace_id_display_is_collision_free() {
    assert_ne!(
        WorkspaceId { idx: 1, version: 23 }.to_string(),
        WorkspaceId { idx: 12, version: 3 }.to_string()
    );
}

#[test]
fn workspace_id_display_round_trips_the_reconstructed_key() {
    assert_eq!(WorkspaceId { idx: 1, version: 23 }.to_string(), "98784247809");
    assert_eq!(WorkspaceId { idx: 12, version: 3 }.to_string(), "12884901900");
    assert_eq!(WorkspaceId { idx: 0, version: 0 }.to_string(), "00000000");

    for (idx, version) in [
        (0u32, 0u32),
        (1u32, 0u32),
        (0u32, 1u32),
        (1u32, 23u32),
        (12u32, 3u32),
        (u32::MAX, 0u32),
        (0u32, u32::MAX),
        (u32::MAX, u32::MAX),
    ] {
        let wid = WorkspaceId { idx, version };
        assert_eq!(
            wid.to_string(),
            format!("{:08}", (wid.version as u64) << 32 | wid.idx as u64)
        );
    }
}

#[test]
fn finalized_events_explicitly_request_all_legacy_follow_up_work() {
    let outcome = EventOutcome::finalized_event(None, true, false, true);

    assert!(outcome.arrange.requested);
    assert!(outcome.arrange.is_resize);
    assert!(!outcome.arrange.window_was_destroyed);
    assert!(outcome.refresh_window_notifications);
    assert!(outcome.refresh_layout_mode);
}

#[test]
fn a_changed_layout_asks_for_no_arranging() {
    let outcome = EventOutcome::layout_changed(true);
    assert!(!outcome.arrange.requested);
    assert!(outcome.arrange.is_resize);
    assert_eq!(outcome.arrange_passes, 0);
}

#[test]
fn test_group_info_fields() {
    assert_eq!(LayoutKind::VerticalStack.is_group(), true);
    assert_eq!(LayoutKind::HorizontalStack.is_group(), true);
    assert_eq!(LayoutKind::Horizontal.is_group(), false);
}

#[test]
fn claim_flags_are_a_set_of_bits() {
    let suppress = WindowClaimFlags::suppress_focus_follows_mouse();
    assert_eq!(suppress.bits(), 1);
    assert!(suppress.contains(WindowClaimFlags::empty()));
    assert!(!WindowClaimFlags::empty().contains(suppress));
    assert!((WindowClaimFlags::empty() | suppress).contains(suppress));
    assert_eq!((WindowClaimFlags::from_bits_retain(4) | suppress).bits(), 5);
    assert!(suppress.is_supported());
    assert!(!WindowClaimFlags::from_bits_retain(4).is_supported());
    assert_eq!(WindowClaimFlags::default().bits(), 0);
}

#[test]
fn claim_flags_are_an_integer_on_the_wire() {
    let request = RiftRequest::ClaimWindow {
        window_id: WindowId { pid: 7, idx: 3 },
        flags: WindowClaimFlags::suppress_focus_follows_mouse(),
    };
    let RiftRequest::ClaimWindow { window_id, flags } = request.clone() else {
        panic!("a claim stays a claim");
    };
    let wire = Value::from(flags.bits());
    assert_eq!(wire, 1);
    let read = WindowClaimFlags::from_bits_retain(wire.as_u64().unwrap() as u32);
    assert_eq!(RiftRequest::ClaimWindow { window_id, flags: read }, request);
    let unknown = WindowClaimFlags::from_bits_retain(0x8000_0001);
    let wire = Value::from(unknown.bits());
    assert_eq!(WindowClaimFlags::from_bits_retain(wire.as_u64().unwrap() as u32), unknown);
    assert!(!unknown.is_supported());
}

/// The workspace that a value describes.
fn workspace(value: &Value) -> WorkspaceData {
    let text = |name: &str| value[name].as_str().unwrap().to_string();
    let number = |name: &str| value[name].as_u64().unwrap() as usize;
    assert!(value["windows"].as_array().unwrap().is_empty());
    WorkspaceData {
        id: text("id"),
        index: number("index"),
        name: text("name"),
        layout_mode: text("layout_mode"),
        is_active: value["is_active"].as_bool().unwrap(),
        window_count: number("window_count"),
        windows: vec![],
    }
}

fn typed_response() -> RiftResponse<Vec<WorkspaceData>> {
    let value: Value = serde_json::from_str(
        r#"{ "data": [{
            "id": "workspace-1",
            "index": 0,
            "name": "main",
            "layout_mode": "bsp",
            "is_active": true,
            "window_count": 0,
            "windows": []
        }] }"#,
    )
    .unwrap();
    let data = value["data"].as_array().unwrap();
    RiftResponse::Success { data: data.iter().map(workspace).collect() }
}

#[test]
fn lib_typed_response_decodes_shared_query_types() {
    assert_eq!(typed_response().into_result().unwrap()[0].name, "main");
}

#[test]
fn transport_typed_response_decodes_shared_query_types() {
    let workspaces = typed_response().into_result().unwrap();
    assert_eq!(workspaces[0].name, "main");
    assert_eq!(workspaces.len(), 1);
}

#[test]
fn responses_become_results() {
    let ok: RiftResponse<u32> = RiftResponse::Success { data: 7 };
    assert_eq!(ok.into_result().unwrap(), 7);
    let err: RiftResponse<u32> = RiftResponse::Error { error: Value::from("no such space") };
    assert_eq!(err.into_result().unwrap_err(), Value::from("no such space"));
}

#[test]
fn windows_of_clients_have_an_index() {
    assert_eq!(WindowId::new(42, 7), Some(WindowId { pid: 42, idx: 7 }));
    assert_eq!(WindowId::new(42, 0), None);
}

#[test]
fn events_know_their_kind_and_place() {
    let event = RiftEvent::WorkspaceChanged {
        space_id: 42,
        workspace_id: WorkspaceId { idx: 3, version: 1 },
        workspace_name: "main".to_string(),
        display_uuid: Some("display".to_string()),
    };
    assert_eq!(event.kind(), EventKind::WorkspaceChanged);
    assert_eq!(event.kind().as_str(), "workspace_changed");
    assert_eq!(event.space_id(), 42);
    assert_eq!(event.display_uuid(), Some("display"));
    assert!(EventKind::All.covers(event.kind()));
    assert!(!EventKind::StacksChanged.covers(event.kind()));
}
