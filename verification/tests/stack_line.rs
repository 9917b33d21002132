use rift::model::Frame;
use rift::stack_line::{GroupInfo, GroupKind, GroupSig, IndicatorStep, LayoutKind, StackLine};

fn group(node_id: u64, kind: LayoutKind, selected: usize) -> GroupInfo {
    GroupInfo {
        node_id,
        space_id: 1,
        container_kind: kind,
        frame: Frame { x: 0, y: 0, width: 0, height: 0 },
        x_q2: 4,
        y_q2: 8,
        w_q2: 12,
        h_q2: 16,
        total_count: 3,
        selected_index: selected,
    }
}

#[test]
fn only_stacks_have_a_line() {
    assert!(LayoutKind::HorizontalStack.is_group());
    assert!(LayoutKind::VerticalStack.is_group());
    assert!(!LayoutKind::Horizontal.is_group());
    assert!(!LayoutKind::Vertical.is_group());
    let sig = GroupSig::from_group_info(&group(5, LayoutKind::VerticalStack, 2));
    assert_eq!((sig.node_id, sig.x_q2, sig.h_q2, sig.total), (5, 4, 16, 3));
}

#[test]
fn lines_are_made_moved_and_cleared() {
    let mut line = StackLine::new(true, 0);
    assert!(line.is_enabled());
    let made = line.handle_groups_updated(1, &vec![group(5, LayoutKind::HorizontalStack, 0)]);
    assert!(matches!(
        made[0],
        IndicatorStep::Create { node_id: 5, data, .. } if data.group_kind == GroupKind::Horizontal
    ));
    let same = line.handle_groups_updated(1, &vec![group(5, LayoutKind::HorizontalStack, 0)]);
    assert!(same.is_empty());
    let moved = line.handle_groups_updated(1, &vec![group(5, LayoutKind::HorizontalStack, 1)]);
    assert!(matches!(
        moved[0],
        IndicatorStep::Update { node_id: 5, data, .. } if data.selected_index == 1
    ));
    let gone = line.handle_groups_updated(1, &vec![]);
    assert!(matches!(gone[0], IndicatorStep::Clear(5)));
}

#[test]
fn disabled_lines_are_cleared() {
    let mut line = StackLine::new(true, 0);
    let _ = line.handle_groups_updated(1, &vec![group(5, LayoutKind::VerticalStack, 0)]);
    let styled = line.handle_config_updated(true);
    assert!(matches!(styled[0], IndicatorStep::Restyle { node_id: 5, .. }));
    let cleared = line.handle_config_updated(false);
    assert!(matches!(cleared[0], IndicatorStep::Clear(5)));
    assert!(!line.is_enabled());
    assert!(line.indicators.is_empty());
    let again = line.handle_groups_updated(1, &vec![group(5, LayoutKind::VerticalStack, 0)]);
    assert!(matches!(again[0], IndicatorStep::Create { node_id: 5, .. }));
    line.handle_screen_parameters_changed(9);
    assert_eq!(line.coordinate_converter, 9);
    line.creation_failed(5);
    assert!(!line.indicators.contains_key(&5));
}
