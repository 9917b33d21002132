//! The lines that show which window of a stack is on top.

use vstd::prelude::*;

use crate::collections::VecMap;
use crate::model::{Frame, SpaceId};

verus! {

/// How a container arranges its children.
#[derive(Clone, Copy, Debug, PartialEq, Eq, Structural)]
pub enum LayoutKind {
    Horizontal,
    Vertical,
    HorizontalStack,
    VerticalStack,
}

impl LayoutKind {
    /// Whether only one child shows at a time.
    pub open spec fn spec_is_group(self) -> bool {
        self == LayoutKind::HorizontalStack || self == LayoutKind::VerticalStack
    }

    pub fn is_group(self) -> (r: bool)
        ensures
            r == self.spec_is_group(),
    {
        self == LayoutKind::HorizontalStack || self == LayoutKind::VerticalStack
    }
}

/// The direction in which a line runs.
#[derive(Clone, Copy, Debug, PartialEq, Eq, Structural)]
pub enum GroupKind {
    Horizontal,
    Vertical,
}

/// A container of the layout, by its number.
pub type NodeId = u64;

/// A stack: where it lies, how many windows it has and which one is on top. The quantized
/// coordinates count half points.
#[derive(Clone, Copy, Debug, PartialEq, Eq, Structural)]
pub struct GroupInfo {
    pub node_id: NodeId,
    pub space_id: SpaceId,
    pub container_kind: LayoutKind,
    pub frame: Frame,
    pub x_q2: i64,
    pub y_q2: i64,
    pub w_q2: i64,
    pub h_q2: i64,
    pub total_count: usize,
    pub selected_index: usize,
}

/// What tells two stacks apart.
#[derive(Clone, Copy, Debug, PartialEq, Eq, Structural)]
pub struct GroupSig {
    pub node_id: NodeId,
    pub kind: LayoutKind,
    pub x_q2: i64,
    pub y_q2: i64,
    pub w_q2: i64,
    pub h_q2: i64,
    pub total: usize,
    pub selected_index: usize,
}

impl GroupInfo {
    pub open spec fn sig(self) -> GroupSig {
        GroupSig {
            node_id: self.node_id,
            kind: self.container_kind,
            x_q2: self.x_q2,
            y_q2: self.y_q2,
            w_q2: self.w_q2,
            h_q2: self.h_q2,
            total: self.total_count,
            selected_index: self.selected_index,
        }
    }
}

impl GroupSig {
    pub fn from_group_info(g: &GroupInfo) -> (r: GroupSig)
        ensures
            r == g.sig(),
    {
        GroupSig {
            node_id: g.node_id,
            kind: g.container_kind,
            x_q2: g.x_q2,
            y_q2: g.y_q2,
            w_q2: g.w_q2,
            h_q2: g.h_q2,
            total: g.total_count,
            selected_index: g.selected_index,
        }
    }
}

/// What a line shows.
#[derive(Clone, Copy, Debug, PartialEq, Eq, Structural)]
pub struct GroupDisplayData {
    pub group_kind: GroupKind,
    pub total_count: usize,
    pub selected_index: usize,
}

impl GroupInfo {
    /// What the line of this stack shows, if the container is one.
    pub open spec fn display(self) -> Option<GroupDisplayData> {
        if self.container_kind == LayoutKind::HorizontalStack {
            Some(
                GroupDisplayData {
                    group_kind: GroupKind::Horizontal,
                    total_count: self.total_count,
                    selected_index: self.selected_index,
                },
            )
        } else if self.container_kind == LayoutKind::VerticalStack {
            Some(
                GroupDisplayData {
                    group_kind: GroupKind::Vertical,
                    total_count: self.total_count,
                    selected_index: self.selected_index,
                },
            )
        } else {
            None
        }
    }

    fn display_data(&self) -> (r: Option<GroupDisplayData>)
        ensures
            r == self.display(),
    {
        let group_kind = match self.container_kind {
            LayoutKind::HorizontalStack => GroupKind::Horizontal,
            LayoutKind::VerticalStack => GroupKind::Vertical,
            _ => {
                return None;
            },
        };
        Some(
            GroupDisplayData {
                group_kind,
                total_count: self.total_count,
                selected_index: self.selected_index,
            },
        )
    }
}

/// What is to be done with a line.
#[derive(Clone, Copy, Debug, PartialEq, Eq, Structural)]
pub enum IndicatorStep {
    Clear(NodeId),
    /// Make a line for the stack that lies in this frame.
    Create { node_id: NodeId, frame: Frame, data: GroupDisplayData },
    /// Move a line to the stack that lies in this frame, and let it show this.
    Update { node_id: NodeId, frame: Frame, data: GroupDisplayData },
    /// Draw a line anew in the style that is configured now.
    Restyle { node_id: NodeId, data: GroupDisplayData },
}

/// The lines that exist and the stacks that they were made for.
pub struct StackLine {
    pub enabled: bool,
    pub indicators: VecMap<NodeId, GroupDisplayData>,
    pub group_sigs_by_space: VecMap<SpaceId, Vec<GroupSig>>,
    /// The number that converts between coordinate systems.
    pub coordinate_converter: u64,
}

/// Whether one of `groups` is the container `node`.
pub open spec fn has_group(groups: Seq<GroupInfo>, node: NodeId) -> bool {
    exists|i: int| 0 <= i < groups.len() && (#[trigger] groups[i]).node_id == node
}

pub open spec fn sigs_of(groups: Seq<GroupInfo>) -> Seq<GroupSig> {
    groups.map_values(|g: GroupInfo| g.sig())
}

/// The lines of which nothing is left among `groups`, in the order of `nodes`.
pub open spec fn cleared(nodes: Seq<NodeId>, groups: Seq<GroupInfo>) -> Seq<IndicatorStep>
    decreases nodes.len(),
{
    if nodes.len() == 0 {
        Seq::empty()
    } else {
        let head = cleared(nodes.drop_last(), groups);
        if has_group(groups, nodes.last()) {
            head
        } else {
            head.push(IndicatorStep::Clear(nodes.last()))
        }
    }
}

/// The lines that are kept.
pub open spec fn kept(
    lines: Map<NodeId, GroupDisplayData>,
    groups: Seq<GroupInfo>,
) -> Map<NodeId, GroupDisplayData> {
    Map::new(
        |n: NodeId| lines.dom().contains(n) && has_group(groups, n),
        |n: NodeId| lines[n],
    )
}

/// The lines once each of `groups` has one, and the steps to it.
pub open spec fn drawn(lines: Map<NodeId, GroupDisplayData>, groups: Seq<GroupInfo>) -> Map<
    NodeId,
    GroupDisplayData,
>
    decreases groups.len(),
{
    if groups.len() == 0 {
        lines
    } else {
        let head = drawn(lines, groups.drop_last());
        match groups.last().display() {
            Some(data) => head.insert(groups.last().node_id, data),
            None => head,
        }
    }
}

pub open spec fn draw_steps(lines: Map<NodeId, GroupDisplayData>, groups: Seq<GroupInfo>) -> Seq<
    IndicatorStep,
>
    decreases groups.len(),
{
    if groups.len() == 0 {
        Seq::empty()
    } else {
        let head = draw_steps(lines, groups.drop_last());
        let g = groups.last();
        match g.display() {
            Some(data) => head.push(
                if drawn(lines, groups.drop_last()).dom().contains(g.node_id) {
                    IndicatorStep::Update { node_id: g.node_id, frame: g.frame, data }
                } else {
                    IndicatorStep::Create { node_id: g.node_id, frame: g.frame, data }
                },
            ),
            None => head,
        }
    }
}

/// Whether the stacks of a space are those that its lines were made for.
pub open spec fn is_known(
    sigs: Map<SpaceId, Vec<GroupSig>>,
    space: SpaceId,
    groups: Seq<GroupInfo>,
) -> bool {
    sigs.dom().contains(space) && sigs[space]@ == sigs_of(groups)
}

fn same_sigs(a: &Vec<GroupSig>, b: &Vec<GroupSig>) -> (r: bool)
    ensures
        r == (a@ == b@),
{
    if a.len() != b.len() {
        return false;
    }
    let mut i: usize = 0;
    while i < a.len()
        invariant
            i <= a@.len(),
            a@.len() == b@.len(),
            forall|j: int| 0 <= j < i ==> a@[j] == b@[j],
        decreases a@.len() - i,
    {
        if a[i] != b[i] {
            return false;
        }
        i = i + 1;
    }
    assert(a@ =~= b@);
    true
}

fn names_group(groups: &Vec<GroupInfo>, node: NodeId) -> (r: bool)
    ensures
        r == has_group(groups@, node),
{
    let mut i: usize = 0;
    while i < groups.len()
        invariant
            i <= groups@.len(),
            forall|j: int| 0 <= j < i ==> (#[trigger] groups@[j]).node_id != node,
        decreases groups@.len() - i,
    {
        if groups[i].node_id == node {
            assert(groups@[i as int].node_id == node);
            return true;
        }
        i = i + 1;
    }
    false
}

/// Every line, restyled, in the order of `nodes`.
pub open spec fn restyled(nodes: Seq<NodeId>, lines: Map<NodeId, GroupDisplayData>) -> Seq<
    IndicatorStep,
> {
    nodes.map_values(|n: NodeId| IndicatorStep::Restyle { node_id: n, data: lines[n] })
}

pub open spec fn all_cleared(nodes: Seq<NodeId>) -> Seq<IndicatorStep> {
    nodes.map_values(|n: NodeId| IndicatorStep::Clear(n))
}

impl StackLine {
    pub fn new(enabled: bool, coordinate_converter: u64) -> (r: StackLine)
        ensures
            r.enabled == enabled,
            r.coordinate_converter == coordinate_converter,
            r.indicators@ == Map::<NodeId, GroupDisplayData>::empty(),
            r.group_sigs_by_space@ == Map::<SpaceId, Vec<GroupSig>>::empty(),
    {
        StackLine {
            enabled,
            indicators: VecMap::new(),
            group_sigs_by_space: VecMap::new(),
            coordinate_converter,
        }
    }

    pub fn is_enabled(&self) -> (r: bool)
        ensures
            r == self.enabled,
    {
        self.enabled
    }

    /// The stacks of a space are these.
    pub fn handle_groups_updated(&mut self, space: SpaceId, groups: &Vec<GroupInfo>) -> (r: Vec<
        IndicatorStep,
    >)
        ensures
            final(self).enabled == old(self).enabled,
            final(self).coordinate_converter == old(self).coordinate_converter,
            is_known(old(self).group_sigs_by_space@, space, groups@) ==> r@.len() == 0
                && *final(self) == *old(self),
            !is_known(old(self).group_sigs_by_space@, space, groups@) ==> {
                let left = kept(old(self).indicators@, groups@);
                &&& r@ == cleared(old(self).indicators.order(), groups@) + draw_steps(
                    left,
                    groups@,
                )
                &&& final(self).indicators@ == drawn(left, groups@)
                &&& is_known(final(self).group_sigs_by_space@, space, groups@)
                &&& forall|s: SpaceId| #[trigger]
                    final(self).group_sigs_by_space@.dom().contains(s) && s != space ==> old(self).group_sigs_by_space@.dom().contains(s)
                        && final(self).group_sigs_by_space@[s] == old(self).group_sigs_by_space@[s]
                &&& forall|s: SpaceId| #[trigger]
                    old(self).group_sigs_by_space@.dom().contains(s) ==> final(self).group_sigs_by_space@.dom().contains(s)
            },
    {
        let mut steps: Vec<IndicatorStep> = Vec::new();
        let mut sigs: Vec<GroupSig> = Vec::new();
        let mut i: usize = 0;
        while i < groups.len()
            invariant
                i <= groups@.len(),
                sigs@ == sigs_of(groups@.take(i as int)),
            decreases groups@.len() - i,
        {
            sigs.push(GroupSig::from_group_info(&groups[i]));
            assert(sigs_of(groups@.take(i + 1)) =~= sigs_of(groups@.take(i as int)).push(
                groups@[i as int].sig(),
            ));
            i = i + 1;
        }
        assert(groups@.take(i as int) =~= groups@);
        let known: bool = match self.group_sigs_by_space.get(&space) {
            Some(previous) => same_sigs(previous, &sigs),
            None => false,
        };
        if known {
            return steps;
        }
        let _ = self.group_sigs_by_space.insert(space, sigs);
        let ghost before = self.indicators@;
        let nodes = self.indicators.keys();
        let mut k: usize = 0;
        while k < nodes.len()
            invariant
                k <= nodes@.len(),
                nodes@.no_duplicates(),
                forall|n: NodeId| nodes@.contains(n) <==> before.dom().contains(n),
                self.enabled == old(self).enabled,
                self.coordinate_converter == old(self).coordinate_converter,
                self.group_sigs_by_space@ == old(self).group_sigs_by_space@.insert(space, sigs),
                steps@ == cleared(nodes@.take(k as int), groups@),
                self.indicators@ =~= Map::new(
                    |n: NodeId|
                        before.dom().contains(n) && (has_group(groups@, n) || !nodes@.take(
                            k as int,
                        ).contains(n)),
                    |n: NodeId| before[n],
                ),
            decreases nodes@.len() - k,
        {
            proof {
                assert(nodes@.take(k + 1).drop_last() =~= nodes@.take(k as int));
                crate::collections::lemma_take_next(nodes@, k as int);
            }
            let node: NodeId = nodes[k];
            if !names_group(groups, node) {
                steps.push(IndicatorStep::Clear(node));
                let _ = self.indicators.remove(&node);
            }
            k = k + 1;
        }
        assert(nodes@.take(k as int) =~= nodes@);
        let ghost left = kept(before, groups@);
        assert(self.indicators@ =~= left);
        let ghost head = steps@;
        let mut m: usize = 0;
        assert(steps@ =~= head + draw_steps(left, groups@.take(0)));
        while m < groups.len()
            invariant
                m <= groups@.len(),
                self.enabled == old(self).enabled,
                self.coordinate_converter == old(self).coordinate_converter,
                self.group_sigs_by_space@ == old(self).group_sigs_by_space@.insert(space, sigs),
                steps@ == head + draw_steps(left, groups@.take(m as int)),
                self.indicators@ == drawn(left, groups@.take(m as int)),
            decreases groups@.len() - m,
        {
            assert(groups@.take(m + 1).drop_last() =~= groups@.take(m as int));
            let g = groups[m];
            match g.display_data() {
                Some(data) => {
                    if self.indicators.contains_key(&g.node_id) {
                        steps.push(
                            IndicatorStep::Update { node_id: g.node_id, frame: g.frame, data },
                        );
                    } else {
                        steps.push(
                            IndicatorStep::Create { node_id: g.node_id, frame: g.frame, data },
                        );
                    }
                    let _ = self.indicators.insert(g.node_id, data);
                },
                None => {},
            }
            assert(steps@ =~= head + draw_steps(left, groups@.take(m + 1)));
            m = m + 1;
        }
        assert(groups@.take(m as int) =~= groups@);
        steps
    }

    /// A line could not be made.
    pub fn creation_failed(&mut self, node_id: NodeId)
        ensures
            final(self).indicators@ == old(self).indicators@.remove(node_id),
            final(self).enabled == old(self).enabled,
            final(self).group_sigs_by_space == old(self).group_sigs_by_space,
            final(self).coordinate_converter == old(self).coordinate_converter,
    {
        let _ = self.indicators.remove(&node_id);
    }

    pub fn handle_screen_parameters_changed(&mut self, converter: u64)
        ensures
            *final(self) == (StackLine { coordinate_converter: converter, ..*old(self) }),
    {
        self.coordinate_converter = converter;
    }

    /// The configuration changed; lines are drawn or not.
    pub fn handle_config_updated(&mut self, enabled: bool) -> (r: Vec<IndicatorStep>)
        ensures
            final(self).enabled == enabled,
            final(self).coordinate_converter == old(self).coordinate_converter,
            if old(self).enabled && !enabled {
                &&& r@ == all_cleared(old(self).indicators.order())
                &&& final(self).indicators@ == Map::<NodeId, GroupDisplayData>::empty()
                &&& final(self).group_sigs_by_space@ == Map::<SpaceId, Vec<GroupSig>>::empty()
            } else {
                &&& r@ == (if enabled {
                    restyled(old(self).indicators.order(), old(self).indicators@)
                } else {
                    Seq::empty()
                })
                &&& final(self).indicators == old(self).indicators
                &&& final(self).group_sigs_by_space == old(self).group_sigs_by_space
            },
    {
        let was_enabled = self.enabled;
        self.enabled = enabled;
        let mut steps: Vec<IndicatorStep> = Vec::new();
        let nodes = self.indicators.keys();
        let ghost lines = self.indicators@;
        if was_enabled && !enabled {
            let mut i: usize = 0;
            while i < nodes.len()
                invariant
                    i <= nodes@.len(),
                    steps@.len() == i,
                    forall|j: int| 0 <= j < i ==> steps@[j] == IndicatorStep::Clear(nodes@[j]),
                decreases nodes@.len() - i,
            {
                steps.push(IndicatorStep::Clear(nodes[i]));
                i = i + 1;
            }
            assert(steps@ =~= all_cleared(nodes@));
            self.indicators.clear();
            self.group_sigs_by_space.clear();
        } else if enabled {
            let mut i: usize = 0;
            while i < nodes.len()
                invariant
                    i <= nodes@.len(),
                    lines == self.indicators@,
                    forall|n: NodeId| nodes@.contains(n) <==> lines.dom().contains(n),
                    steps@.len() == i,
                    forall|j: int| 0 <= j < i ==> steps@[j] == restyled(nodes@, lines)[j],
                decreases nodes@.len() - i,
            {
                let node: NodeId = nodes[i];
                assert(nodes@.contains(nodes@[i as int]));
                match self.indicators.get(&node) {
                    Some(data) => {
                        steps.push(IndicatorStep::Restyle { node_id: node, data: *data });
                    },
                    None => {},
                }
                i = i + 1;
            }
            assert(steps@ =~= restyled(nodes@, lines));
        }
        steps
    }
}

/// Every line belongs to one of the stacks that were named last.
pub proof fn lines_belong_to_stacks(
    lines: Map<NodeId, GroupDisplayData>,
    groups: Seq<GroupInfo>,
    node: NodeId,
)
    requires
        drawn(kept(lines, groups), groups).dom().contains(node),
    ensures
        has_group(groups, node),
{
    lemma_drawn(kept(lines, groups), groups, node);
}

proof fn lemma_drawn(lines: Map<NodeId, GroupDisplayData>, groups: Seq<GroupInfo>, node: NodeId)
    ensures
        drawn(lines, groups).dom().contains(node) ==> lines.dom().contains(node) || has_group(
            groups,
            node,
        ),
    decreases groups.len(),
{
    if groups.len() > 0 {
        lemma_drawn(lines, groups.drop_last(), node);
        if has_group(groups.drop_last(), node) {
            let i = choose|i: int|
                0 <= i < groups.drop_last().len() && (#[trigger] groups.drop_last()[i]).node_id
                    == node;
            assert(groups[i].node_id == node);
        }
        assert(groups[groups.len() - 1] == groups.last());
    }
}

/// Each stack that is named has a line, which shows what the last mention of it says.
pub proof fn every_stack_has_a_line(
    lines: Map<NodeId, GroupDisplayData>,
    groups: Seq<GroupInfo>,
    i: int,
)
    requires
        0 <= i < groups.len(),
        groups[i].display() is Some,
        forall|j: int| i < j < groups.len() ==> (#[trigger] groups[j]).node_id != groups[i].node_id,
    ensures
        drawn(lines, groups).dom().contains(groups[i].node_id),
        drawn(lines, groups)[groups[i].node_id] == groups[i].display()->0,
    decreases groups.len(),
{
    if i < groups.len() - 1 {
        let head = groups.drop_last();
        assert(head[i] == groups[i]);
        assert forall|j: int| i < j < head.len() implies (#[trigger] head[j]).node_id
            != head[i].node_id by {
            assert(head[j] == groups[j]);
        }
        every_stack_has_a_line(lines, head, i);
        assert(groups[groups.len() - 1].node_id != groups[i].node_id);
    }
}

/// What tells a stack apart is what it is: where it lies, how many windows it has and which one is
/// on top. The marks stand in the order of the stacks.
pub proof fn stacks_are_told_apart_by_what_they_are(groups: Seq<GroupInfo>, i: int)
    requires
        0 <= i < groups.len(),
    ensures
        sigs_of(groups).len() == groups.len(),
        sigs_of(groups)[i].node_id == groups[i].node_id,
        sigs_of(groups)[i].kind == groups[i].container_kind,
        sigs_of(groups)[i].x_q2 == groups[i].x_q2,
        sigs_of(groups)[i].y_q2 == groups[i].y_q2,
        sigs_of(groups)[i].w_q2 == groups[i].w_q2,
        sigs_of(groups)[i].h_q2 == groups[i].h_q2,
        sigs_of(groups)[i].total == groups[i].total_count,
        sigs_of(groups)[i].selected_index == groups[i].selected_index,
{
}

/// The line of a stack runs as the stack does and counts its windows. Other containers have no
/// line.
pub proof fn lines_run_as_their_stacks(g: GroupInfo)
    ensures
        g.container_kind.spec_is_group() <==> g.container_kind is HorizontalStack
            || g.container_kind is VerticalStack,
        g.display() is Some <==> g.container_kind is HorizontalStack
            || g.container_kind is VerticalStack,
        g.display() is Some ==> g.display()->0.total_count == g.total_count
            && g.display()->0.selected_index == g.selected_index,
        g.container_kind is HorizontalStack ==> g.display()->0.group_kind is Horizontal,
        g.container_kind is VerticalStack ==> g.display()->0.group_kind is Vertical,
{
}

/// A line is cleared, once, if and only if there is one whose container is not named any more.
pub proof fn lines_without_a_stack_are_cleared(nodes: Seq<NodeId>, groups: Seq<GroupInfo>)
    ensures
        forall|node: NodeId| #[trigger]
            cleared(nodes, groups).contains(IndicatorStep::Clear(node)) <==> nodes.contains(node)
                && !has_group(groups, node),
        forall|i: int|
            0 <= i < cleared(nodes, groups).len() ==> (#[trigger] cleared(nodes, groups)[i]) is Clear,
        nodes.no_duplicates() ==> cleared(nodes, groups).no_duplicates(),
    decreases nodes.len(),
{
    if nodes.len() > 0 {
        let head = nodes.drop_last();
        let last = nodes.last();
        lines_without_a_stack_are_cleared(head, groups);
        crate::collections::lemma_push_contains(head, last);
        assert(head.push(last) =~= nodes);
        crate::collections::lemma_push_contains(cleared(head, groups), IndicatorStep::Clear(last));
        if nodes.no_duplicates() {
            assert(head.no_duplicates());
            assert(!head.contains(last));
            assert(!cleared(head, groups).contains(IndicatorStep::Clear(last)));
        }
    }
}

/// A container is named if and only if one of the stacks is it.
pub proof fn stacks_are_named_by_their_containers(groups: Seq<GroupInfo>, node: NodeId)
    ensures
        has_group(groups, node) <==> groups.map_values(|g: GroupInfo| g.node_id).contains(node),
{
    let ids = groups.map_values(|g: GroupInfo| g.node_id);
    if has_group(groups, node) {
        let i = choose|i: int| 0 <= i < groups.len() && (#[trigger] groups[i]).node_id == node;
        assert(ids[i] == node);
    }
    if ids.contains(node) {
        let i = choose|i: int| 0 <= i < ids.len() && ids[i] == node;
        assert(groups[i].node_id == node);
    }
}

/// A line is kept, as it is, if and only if its container is still named.
pub proof fn lines_with_a_stack_are_kept(
    lines: Map<NodeId, GroupDisplayData>,
    groups: Seq<GroupInfo>,
    node: NodeId,
)
    ensures
        kept(lines, groups).dom().contains(node) <==> lines.dom().contains(node) && has_group(
            groups,
            node,
        ),
        kept(lines, groups).dom().contains(node) ==> kept(lines, groups)[node] == lines[node],
{
}

/// Whether one of the first `n` mentions of the container is that of a stack.
pub open spec fn is_stack_before(groups: Seq<GroupInfo>, n: int, node: NodeId) -> bool {
    exists|j: int|
        0 <= j < n && (#[trigger] groups[j]).node_id == node && groups[j].container_kind
            != LayoutKind::Horizontal && groups[j].container_kind != LayoutKind::Vertical
}

/// There is a line for every stack that is named and for every container that had one. What is not
/// named as a stack keeps the line it had.
pub proof fn lines_stay_or_are_drawn(
    lines: Map<NodeId, GroupDisplayData>,
    groups: Seq<GroupInfo>,
    node: NodeId,
)
    ensures
        drawn(lines, groups).dom().contains(node) <==> lines.dom().contains(node)
            || is_stack_before(groups, groups.len() as int, node),
        !is_stack_before(groups, groups.len() as int, node) && lines.dom().contains(node)
            ==> drawn(lines, groups)[node] == lines[node],
    decreases groups.len(),
{
    let n = groups.len() as int;
    if n > 0 {
        let head = groups.drop_last();
        lines_stay_or_are_drawn(lines, head, node);
        assert(forall|k: int| 0 <= k < n - 1 ==> head[k] == groups[k]);
        assert(groups[n - 1] == groups.last());
        if is_stack_before(head, n - 1, node) {
            let j = choose|j: int|
                0 <= j < n - 1 && (#[trigger] head[j]).node_id == node && head[j].container_kind
                    != LayoutKind::Horizontal && head[j].container_kind != LayoutKind::Vertical;
            assert(groups[j].node_id == node);
        }
        if is_stack_before(groups, n, node) {
            let j = choose|j: int|
                0 <= j < n && (#[trigger] groups[j]).node_id == node && groups[j].container_kind
                    != LayoutKind::Horizontal && groups[j].container_kind != LayoutKind::Vertical;
            if j < n - 1 {
                assert(head[j].node_id == node);
            }
        }
    }
}

/// One more stack means one more step at the end: a new line in its frame, or, where its container
/// has a line or was named before, a line that moves to its frame. Another container means none.
pub proof fn each_stack_is_drawn_in_its_frame(
    lines: Map<NodeId, GroupDisplayData>,
    groups: Seq<GroupInfo>,
    g: GroupInfo,
)
    ensures
        draw_steps(lines, Seq::empty()).len() == 0,
        g.container_kind is Horizontal || g.container_kind is Vertical ==> draw_steps(
            lines,
            groups.push(g),
        ) == draw_steps(lines, groups),
        g.container_kind is HorizontalStack || g.container_kind is VerticalStack ==> {
            let steps = draw_steps(lines, groups.push(g));
            &&& steps.drop_last() == draw_steps(lines, groups)
            &&& steps.len() == draw_steps(lines, groups).len() + 1
            &&& steps.last() is Update <==> lines.dom().contains(g.node_id) || is_stack_before(
                groups,
                groups.len() as int,
                g.node_id,
            )
            &&& match steps.last() {
                IndicatorStep::Create { node_id, frame, data } => node_id == g.node_id && frame
                    == g.frame && data.total_count == g.total_count && data.selected_index
                    == g.selected_index && (data.group_kind is Horizontal
                    <==> g.container_kind is HorizontalStack),
                IndicatorStep::Update { node_id, frame, data } => node_id == g.node_id && frame
                    == g.frame && data.total_count == g.total_count && data.selected_index
                    == g.selected_index && (data.group_kind is Horizontal
                    <==> g.container_kind is HorizontalStack),
                _ => false,
            }
        },
{
    assert(groups.push(g).drop_last() =~= groups);
    lines_stay_or_are_drawn(lines, groups, g.node_id);
    assert(g.container_kind is HorizontalStack || g.container_kind is VerticalStack
        ==> draw_steps(lines, groups.push(g)).drop_last() =~= draw_steps(lines, groups));
}

/// Lines are restyled, or cleared, one by one: each shows what it showed.
pub proof fn every_line_is_restyled_or_cleared(
    nodes: Seq<NodeId>,
    lines: Map<NodeId, GroupDisplayData>,
    i: int,
)
    requires
        0 <= i < nodes.len(),
    ensures
        restyled(nodes, lines).len() == nodes.len(),
        restyled(nodes, lines)[i] == (IndicatorStep::Restyle {
            node_id: nodes[i],
            data: lines[nodes[i]],
        }),
        all_cleared(nodes).len() == nodes.len(),
        all_cleared(nodes)[i] == IndicatorStep::Clear(nodes[i]),
{
}

/// The stacks of a space are those its lines were made for if and only if there are as many and
/// each is what it was.
pub proof fn known_stacks_are_unchanged(
    sigs: Map<SpaceId, Vec<GroupSig>>,
    space: SpaceId,
    groups: Seq<GroupInfo>,
)
    ensures
        is_known(sigs, space, groups) <==> sigs.dom().contains(space) && sigs[space]@.len()
            == groups.len() && forall|i: int|
            0 <= i < groups.len() ==> (#[trigger] sigs[space]@[i]).node_id == groups[i].node_id
                && sigs[space]@[i].kind == groups[i].container_kind && sigs[space]@[i].x_q2
                == groups[i].x_q2 && sigs[space]@[i].y_q2 == groups[i].y_q2 && sigs[space]@[i].w_q2
                == groups[i].w_q2 && sigs[space]@[i].h_q2 == groups[i].h_q2 && sigs[space]@[i].total
                == groups[i].total_count && sigs[space]@[i].selected_index
                == groups[i].selected_index,
{
    if sigs.dom().contains(space) && sigs[space]@.len() == groups.len() && (forall|i: int|
        0 <= i < groups.len() ==> (#[trigger] sigs[space]@[i]).node_id == groups[i].node_id
            && sigs[space]@[i].kind == groups[i].container_kind && sigs[space]@[i].x_q2
            == groups[i].x_q2 && sigs[space]@[i].y_q2 == groups[i].y_q2 && sigs[space]@[i].w_q2
            == groups[i].w_q2 && sigs[space]@[i].h_q2 == groups[i].h_q2 && sigs[space]@[i].total
            == groups[i].total_count && sigs[space]@[i].selected_index == groups[i].selected_index) {
        assert(sigs[space]@ =~= sigs_of(groups));
    }
}

} // verus!
