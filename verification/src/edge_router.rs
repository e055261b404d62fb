//! Where relations attach to the nodes of a diagram: the side of each node
//! that a relation leaves and enters, kept while the nodes move a little
//! (hysteresis), and the slot on that side when several relations share it.
//!
//! Coordinates are whole pixels; a node's centre is compared at twice its
//! value so that it stays whole.
use vstd::prelude::*;
use crate::class_graph::{edge_is_directed, ClassDiagramEdge, ClassDiagramNode};
use crate::seqs::{lemma_filter_disjoint, lemma_filter_prefix_grows, lemma_filter_weaker};
use crate::concepts::opt_str_view;
use crate::routes::{bounded_by, coordinate_limit, detect_bridges, generate_route, route_of, route_paths, with_hops,
    RoutedEdge, RoutedView};
use crate::concept_model::{opposite_side, DiagramEdge, DiagramNode, NodeId, PortSide, RelationKind};

verus! {

/// The least free space, in pixels, between two nodes for an arrow to be
/// drawn straight between their facing sides.
pub const MIN_ARROW_CLEARANCE: i128 = 36;

/// How far, in pixels, a node may cross a side's boundary line before a
/// relation gives up the side it had.
pub const PORT_TOLERANCE: i128 = 5;

/// The spacing, in pixels, of the relations that share a side.
pub const SLOT_SPACING: i128 = 24;

/// The rectangle of a node on a diagram.
#[derive(Debug, Clone, Copy, PartialEq, Eq, Structural)]
pub struct NodeBox {
    pub id: NodeId,
    pub x: i64,
    pub y: i64,
    pub width: u64,
    pub height: u64,
}

/// A relation to be attached and drawn: its ends, its kind, the sides it
/// was last attached to, if any, and whether it is drawn with an arrow.
#[derive(Debug, Clone, Copy, PartialEq, Eq, Structural)]
pub struct RouteEdge {
    pub from: NodeId,
    pub to: NodeId,
    pub kind: RelationKind,
    pub source_port: Option<PortSide>,
    pub target_port: Option<PortSide>,
    pub directed: bool,
}

impl NodeBox {
    /// The rectangle of a concept node.
    pub fn of_concept_node(n: &DiagramNode) -> (res: NodeBox)
        ensures
            res == (NodeBox { id: n@.id, x: n@.x, y: n@.y, width: n@.width as u64, height: n@.height as u64 }),
    {
        NodeBox { id: n.id(), x: n.x(), y: n.y(), width: n.width() as u64, height: n.height() as u64 }
    }

    /// The rectangle of a class node.
    pub fn of_class_node(n: &ClassDiagramNode) -> (res: NodeBox)
        ensures
            res == (NodeBox { id: n@.id, x: n@.x, y: n@.y, width: n@.width, height: n@.height }),
    {
        NodeBox { id: n.id(), x: n.x(), y: n.y(), width: n.width(), height: n.height() }
    }
}

impl RouteEdge {
    /// A concept relation, which keeps no sides and has no direction.
    pub fn of_concept_edge(e: &DiagramEdge) -> (res: RouteEdge)
        ensures
            res == (RouteEdge {
                from: e@.from,
                to: e@.to,
                kind: e@.kind,
                source_port: None,
                target_port: None,
                directed: false,
            }),
    {
        RouteEdge { from: e.from(), to: e.to(), kind: e.kind(), source_port: None, target_port: None, directed: false }
    }

    /// A class relation, with the sides it keeps.
    pub fn of_class_edge(e: &ClassDiagramEdge) -> (res: RouteEdge)
        ensures
            res == (RouteEdge {
                from: e@.from,
                to: e@.to,
                kind: e@.kind,
                source_port: e@.source_port,
                target_port: e@.target_port,
                directed: edge_is_directed(e@),
            }),
    {
        RouteEdge {
            from: e.from(),
            to: e.to(),
            kind: e.kind(),
            source_port: e.source_port(),
            target_port: e.target_port(),
            directed: e.is_directed(),
        }
    }
}

pub open spec fn left(n: NodeBox) -> int {
    n.x as int
}

pub open spec fn right(n: NodeBox) -> int {
    n.x + n.width
}

pub open spec fn top(n: NodeBox) -> int {
    n.y as int
}

pub open spec fn bottom(n: NodeBox) -> int {
    n.y + n.height
}

/// Twice the horizontal centre.
pub open spec fn cx2(n: NodeBox) -> int {
    2 * n.x + n.width
}

/// Twice the vertical centre.
pub open spec fn cy2(n: NodeBox) -> int {
    2 * n.y + n.height
}

pub open spec fn abs(v: int) -> int {
    if v < 0 { -v } else { v }
}

/// The free space between two intervals on a line, zero where they overlap.
pub open spec fn gap(a_lo: int, a_hi: int, b_lo: int, b_hi: int) -> int {
    if b_lo > a_hi { b_lo - a_hi } else if a_lo > b_hi { a_lo - b_hi } else { 0 }
}

/// The side a relation leaves its source by when it has none yet. A
/// generalisation leaves a subclass upwards when it lies clearly below its
/// superclass, downwards when clearly above, else sideways; other relations
/// leave by the side facing the target across the wider gap, or, where the
/// nodes overlap, towards the target's centre.
pub open spec fn initial_source_port(f: NodeBox, t: NodeBox, kind: RelationKind) -> PortSide {
    if kind == RelationKind::Generalization {
        if top(f) - bottom(t) >= MIN_ARROW_CLEARANCE {
            PortSide::Top
        } else if bottom(f) <= top(t) - MIN_ARROW_CLEARANCE {
            PortSide::Bottom
        } else if left(f) >= right(t) {
            PortSide::Left
        } else {
            PortSide::Right
        }
    } else {
        let hc = gap(left(f), right(f), left(t), right(t));
        let vc = gap(top(f), bottom(f), top(t), bottom(t));
        let dx = cx2(t) - cx2(f);
        let dy = cy2(t) - cy2(f);
        if left(t) >= right(f) && hc >= vc {
            PortSide::Right
        } else if right(t) <= left(f) && hc >= vc {
            PortSide::Left
        } else if top(t) >= bottom(f) {
            PortSide::Bottom
        } else if bottom(t) <= top(f) {
            PortSide::Top
        } else if abs(dx) > abs(dy) {
            if dx > 0 { PortSide::Right } else { PortSide::Left }
        } else if dy > 0 {
            PortSide::Bottom
        } else {
            PortSide::Top
        }
    }
}

/// The side a relation keeps leaving its source by, or the one it turns to
/// once the target has crossed that side's boundary line.
pub open spec fn source_hysteresis(f: NodeBox, t: NodeBox, current: PortSide) -> PortSide {
    match current {
        PortSide::Right => if left(t) >= right(f) - PORT_TOLERANCE {
            PortSide::Right
        } else if cy2(t) > cy2(f) {
            PortSide::Bottom
        } else if cy2(t) < cy2(f) {
            PortSide::Top
        } else if right(t) <= left(f) {
            PortSide::Left
        } else {
            PortSide::Right
        },
        PortSide::Bottom => if top(t) >= bottom(f) - PORT_TOLERANCE {
            PortSide::Bottom
        } else if cx2(t) > cx2(f) {
            PortSide::Right
        } else if cx2(t) < cx2(f) {
            PortSide::Left
        } else if bottom(t) <= top(f) {
            PortSide::Top
        } else {
            PortSide::Bottom
        },
        PortSide::Left => if right(t) <= left(f) + PORT_TOLERANCE {
            PortSide::Left
        } else if cy2(t) > cy2(f) {
            PortSide::Bottom
        } else if cy2(t) < cy2(f) {
            PortSide::Top
        } else if left(t) >= right(f) {
            PortSide::Right
        } else {
            PortSide::Left
        },
        PortSide::Top => if bottom(t) <= top(f) + PORT_TOLERANCE {
            PortSide::Top
        } else if cx2(t) > cx2(f) {
            PortSide::Right
        } else if cx2(t) < cx2(f) {
            PortSide::Left
        } else if top(t) >= bottom(f) {
            PortSide::Bottom
        } else {
            PortSide::Top
        },
    }
}

/// The side a relation enters its target by, given the side it leaves by:
/// the opposite one, except that a generalisation squeezed beside its
/// superclass enters it from the right too.
pub open spec fn matching_target_port(f: NodeBox, t: NodeBox, kind: RelationKind, from_side: PortSide) -> PortSide {
    if kind == RelationKind::Generalization && from_side == PortSide::Right && left(f) < right(t) && top(f)
        - bottom(t) < MIN_ARROW_CLEARANCE {
        PortSide::Right
    } else {
        opposite_side(from_side)
    }
}

/// The side a relation keeps entering its target by while the source stays
/// on that side, else the matching side for an association.
pub open spec fn target_hysteresis(t: NodeBox, f: NodeBox, current: PortSide, from_side: PortSide) -> PortSide {
    let valid = match current {
        PortSide::Right => left(f) >= right(t) - PORT_TOLERANCE,
        PortSide::Bottom => top(f) >= bottom(t) - PORT_TOLERANCE,
        PortSide::Left => right(f) <= left(t) + PORT_TOLERANCE,
        PortSide::Top => bottom(f) <= top(t) + PORT_TOLERANCE,
    };
    if valid { current } else { matching_target_port(f, t, RelationKind::Association, from_side) }
}

/// The sides a relation leaves and enters by.
pub open spec fn ports_for(
    f: NodeBox,
    t: NodeBox,
    kind: RelationKind,
    source_port: Option<PortSide>,
    target_port: Option<PortSide>,
) -> (PortSide, PortSide) {
    let fs = match source_port {
        Some(s) => source_hysteresis(f, t, s),
        None => initial_source_port(f, t, kind),
    };
    let ts = match target_port {
        Some(s) => target_hysteresis(t, f, s, fs),
        None => matching_target_port(f, t, kind, fs),
    };
    (fs, ts)
}

fn wide(v: i64) -> (res: i128)
    ensures
        res == v,
{
    v as i128
}

fn wide_u(v: u64) -> (res: i128)
    ensures
        res == v,
{
    v as i128
}

fn select_initial_source_port(f: &NodeBox, t: &NodeBox, kind: RelationKind) -> (res: PortSide)
    ensures
        res == initial_source_port(*f, *t, kind),
{
    let fl = wide(f.x);
    let fr = wide(f.x) + wide_u(f.width);
    let ft = wide(f.y);
    let fb = wide(f.y) + wide_u(f.height);
    let tl = wide(t.x);
    let tr = wide(t.x) + wide_u(t.width);
    let tt = wide(t.y);
    let tb = wide(t.y) + wide_u(t.height);
    match kind {
        RelationKind::Generalization => {
            if ft - tb >= MIN_ARROW_CLEARANCE {
                PortSide::Top
            } else if fb <= tt - MIN_ARROW_CLEARANCE {
                PortSide::Bottom
            } else if fl >= tr {
                PortSide::Left
            } else {
                PortSide::Right
            }
        },
        _ => {
            let hc: i128 = if tl > fr { tl - fr } else if fl > tr { fl - tr } else { 0 };
            let vc: i128 = if tt > fb { tt - fb } else if ft > tb { ft - tb } else { 0 };
            let dx: i128 = (2 * tl + wide_u(t.width)) - (2 * fl + wide_u(f.width));
            let dy: i128 = (2 * tt + wide_u(t.height)) - (2 * ft + wide_u(f.height));
            let adx: i128 = if dx < 0 { -dx } else { dx };
            let ady: i128 = if dy < 0 { -dy } else { dy };
            if tl >= fr && hc >= vc {
                PortSide::Right
            } else if tr <= fl && hc >= vc {
                PortSide::Left
            } else if tt >= fb {
                PortSide::Bottom
            } else if tb <= ft {
                PortSide::Top
            } else if adx > ady {
                if dx > 0 {
                    PortSide::Right
                } else {
                    PortSide::Left
                }
            } else if dy > 0 {
                PortSide::Bottom
            } else {
                PortSide::Top
            }
        },
    }
}

fn evaluate_source_hysteresis(f: &NodeBox, t: &NodeBox, current: PortSide) -> (res: PortSide)
    ensures
        res == source_hysteresis(*f, *t, current),
{
    let fl = wide(f.x);
    let fr = wide(f.x) + wide_u(f.width);
    let ft = wide(f.y);
    let fb = wide(f.y) + wide_u(f.height);
    let tl = wide(t.x);
    let tr = wide(t.x) + wide_u(t.width);
    let tt = wide(t.y);
    let tb = wide(t.y) + wide_u(t.height);
    let fcx = 2 * fl + wide_u(f.width);
    let fcy = 2 * ft + wide_u(f.height);
    let tcx = 2 * tl + wide_u(t.width);
    let tcy = 2 * tt + wide_u(t.height);
    match current {
        PortSide::Right => if tl >= fr - PORT_TOLERANCE {
            PortSide::Right
        } else if tcy > fcy {
            PortSide::Bottom
        } else if tcy < fcy {
            PortSide::Top
        } else if tr <= fl {
            PortSide::Left
        } else {
            PortSide::Right
        },
        PortSide::Bottom => if tt >= fb - PORT_TOLERANCE {
            PortSide::Bottom
        } else if tcx > fcx {
            PortSide::Right
        } else if tcx < fcx {
            PortSide::Left
        } else if tb <= ft {
            PortSide::Top
        } else {
            PortSide::Bottom
        },
        PortSide::Left => if tr <= fl + PORT_TOLERANCE {
            PortSide::Left
        } else if tcy > fcy {
            PortSide::Bottom
        } else if tcy < fcy {
            PortSide::Top
        } else if tl >= fr {
            PortSide::Right
        } else {
            PortSide::Left
        },
        PortSide::Top => if tb <= ft + PORT_TOLERANCE {
            PortSide::Top
        } else if tcx > fcx {
            PortSide::Right
        } else if tcx < fcx {
            PortSide::Left
        } else if tt >= fb {
            PortSide::Bottom
        } else {
            PortSide::Top
        },
    }
}

fn select_matching_target_port(f: &NodeBox, t: &NodeBox, kind: RelationKind, from_side: PortSide) -> (res: PortSide)
    ensures
        res == matching_target_port(*f, *t, kind, from_side),
{
    let fl = wide(f.x);
    let ft = wide(f.y);
    let tr = wide(t.x) + wide_u(t.width);
    let tb = wide(t.y) + wide_u(t.height);
    let squeezed = match kind {
        RelationKind::Generalization => match from_side {
            PortSide::Right => fl < tr && ft - tb < MIN_ARROW_CLEARANCE,
            _ => false,
        },
        _ => false,
    };
    if squeezed {
        PortSide::Right
    } else {
        from_side.opposite()
    }
}

fn evaluate_target_hysteresis(t: &NodeBox, f: &NodeBox, current: PortSide, from_side: PortSide) -> (res: PortSide)
    ensures
        res == target_hysteresis(*t, *f, current, from_side),
{
    let tl = wide(t.x);
    let tr = wide(t.x) + wide_u(t.width);
    let tt = wide(t.y);
    let tb = wide(t.y) + wide_u(t.height);
    let fl = wide(f.x);
    let fr = wide(f.x) + wide_u(f.width);
    let ft = wide(f.y);
    let fb = wide(f.y) + wide_u(f.height);
    let valid = match current {
        PortSide::Right => fl >= tr - PORT_TOLERANCE,
        PortSide::Bottom => ft >= tb - PORT_TOLERANCE,
        PortSide::Left => fr <= tl + PORT_TOLERANCE,
        PortSide::Top => fb <= tt + PORT_TOLERANCE,
    };
    if valid {
        current
    } else {
        select_matching_target_port(f, t, RelationKind::Association, from_side)
    }
}

/// The sides a relation leaves its source and enters its target by: kept
/// with hysteresis where the relation already has them, chosen afresh
/// where not.
pub fn select_ports(
    from: &NodeBox,
    to: &NodeBox,
    kind: RelationKind,
    current_source_port: Option<PortSide>,
    current_target_port: Option<PortSide>,
) -> (res: (PortSide, PortSide))
    ensures
        res == ports_for(*from, *to, kind, current_source_port, current_target_port),
{
    let from_side = match current_source_port {
        Some(s) => evaluate_source_hysteresis(from, to, s),
        None => select_initial_source_port(from, to, kind),
    };
    let to_side = match current_target_port {
        Some(s) => evaluate_target_hysteresis(to, from, s, from_side),
        None => select_matching_target_port(from, to, kind, from_side),
    };
    (from_side, to_side)
}

/// Where the first of several relations on one side sits: the centre of
/// the other node along that side (twice its value).
pub open spec fn along(side: PortSide, other: NodeBox) -> int {
    if side == PortSide::Top || side == PortSide::Bottom { cx2(other) } else { cy2(other) }
}

/// The index of the node with that identifier (the last one, where several
/// have it), -1 where none has.
pub open spec fn box_index(nodes: Seq<NodeBox>, id: NodeId) -> int
    decreases nodes.len(),
{
    if nodes.len() == 0 {
        -1
    } else if nodes.last().id == id {
        nodes.len() - 1
    } else {
        box_index(nodes.drop_last(), id)
    }
}

/// One end of a relation on one side of a node.
pub struct AttachView {
    pub edge_idx: int,
    pub is_source: bool,
    pub node: NodeId,
    pub side: PortSide,
    pub kind: RelationKind,
    pub key: int,
}

/// The ends of the relations whose two nodes are on the diagram, relation
/// by relation, the source end before the target end.
pub open spec fn attachments(nodes: Seq<NodeBox>, edges: Seq<RouteEdge>) -> Seq<AttachView>
    decreases edges.len(),
{
    if edges.len() == 0 {
        Seq::empty()
    } else {
        let rest = attachments(nodes, edges.drop_last());
        let e = edges.last();
        let a = box_index(nodes, e.from);
        let b = box_index(nodes, e.to);
        if a >= 0 && b >= 0 {
            let f = nodes[a];
            let t = nodes[b];
            let sides = ports_for(f, t, e.kind, e.source_port, e.target_port);
            rest.push(
                AttachView {
                    edge_idx: edges.len() - 1,
                    is_source: true,
                    node: f.id,
                    side: sides.0,
                    kind: e.kind,
                    key: along(sides.0, t),
                },
            ).push(
                AttachView {
                    edge_idx: edges.len() - 1,
                    is_source: false,
                    node: t.id,
                    side: sides.1,
                    kind: e.kind,
                    key: along(sides.1, f),
                },
            )
        } else {
            rest
        }
    }
}

/// The ends on the same side of the same node.
pub open spec fn in_group(a: AttachView) -> spec_fn(AttachView) -> bool {
    |b: AttachView| b.node == a.node && b.side == a.side
}

/// The ends of the group that come before along the side.
pub open spec fn lower_in_group(a: AttachView) -> spec_fn(AttachView) -> bool {
    |b: AttachView| b.node == a.node && b.side == a.side && b.key < a.key
}

/// The ends of the group level with it along the side.
pub open spec fn level_in_group(a: AttachView) -> spec_fn(AttachView) -> bool {
    |b: AttachView| b.node == a.node && b.side == a.side && b.key == a.key
}

/// Whether every end on the side is a generalisation arriving at the node.
pub open spec fn all_incoming_generalizations(atts: Seq<AttachView>, a: AttachView) -> bool {
    forall|j: int|
        0 <= j < atts.len() && #[trigger] in_group(a)(atts[j]) ==> atts[j].kind == RelationKind::Generalization
            && !atts[j].is_source
}

/// The place of an end among the ends on its side, ordered along the side
/// and, where level, by the order of the relations.
pub open spec fn slot_rank(atts: Seq<AttachView>, i: int) -> int {
    (atts.filter(lower_in_group(atts[i])).len() + atts.take(i).filter(level_in_group(atts[i])).len()) as int
}

/// The offset of an end from the middle of its side: generalisations that
/// all arrive at a superclass share the middle; other ends are spread
/// [`SLOT_SPACING`] apart, centred on the middle.
pub open spec fn slot_offset(atts: Seq<AttachView>, i: int) -> int {
    if all_incoming_generalizations(atts, atts[i]) {
        0
    } else {
        (2 * slot_rank(atts, i) - atts.filter(in_group(atts[i])).len() + 1) * (SLOT_SPACING / 2)
    }
}

/// An end as it is computed.
#[derive(Clone, Copy)]
struct Attach {
    edge_idx: usize,
    is_source: bool,
    node: NodeId,
    side: PortSide,
    kind: RelationKind,
    key: i128,
}

impl View for Attach {
    type V = AttachView;

    closed spec fn view(&self) -> AttachView {
        AttachView {
            edge_idx: self.edge_idx as int,
            is_source: self.is_source,
            node: self.node,
            side: self.side,
            kind: self.kind,
            key: self.key as int,
        }
    }
}

spec fn atts_view(v: Seq<Attach>) -> Seq<AttachView> {
    v.map_values(|a: Attach| a@)
}

/// The sides and slots of one relation.
#[derive(Debug, Clone, Copy, PartialEq, Eq, Structural)]
pub struct EdgePortAssignment {
    pub edge_idx: usize,
    pub from_id: NodeId,
    pub to_id: NodeId,
    pub kind: RelationKind,
    pub from_side: PortSide,
    pub to_side: PortSide,
    pub from_slot_offset: i128,
    pub to_slot_offset: i128,
    pub channel_index: usize,
}

fn box_at(nodes: &[NodeBox], id: NodeId) -> (res: Option<usize>)
    ensures
        match res {
            Some(i) => i == box_index(nodes@, id) && i < nodes@.len(),
            None => box_index(nodes@, id) == -1,
        },
{
    let mut found: Option<usize> = None;
    let mut i: usize = 0;
    while i < nodes.len()
        invariant
            i <= nodes@.len(),
            match found {
                Some(k) => k == box_index(nodes@.take(i as int), id) && k < i,
                None => box_index(nodes@.take(i as int), id) == -1,
            },
        decreases nodes@.len() - i,
    {
        assert(nodes@.take(i + 1).drop_last() =~= nodes@.take(i as int));
        if nodes[i].id == id {
            found = Some(i);
        }
        i += 1;
    }
    assert(nodes@.take(nodes@.len() as int) =~= nodes@);
    found
}

fn along_key(side: PortSide, other: &NodeBox) -> (res: i128)
    ensures
        res == along(side, *other),
{
    match side {
        PortSide::Top | PortSide::Bottom => 2 * (other.x as i128) + (other.width as i128),
        _ => 2 * (other.y as i128) + (other.height as i128),
    }
}

/// The sides and slots of every relation whose two nodes are on the
/// diagram, in the order of the relations, with its place in that order as
/// its channel.
pub open spec fn assigned_ports(nodes: Seq<NodeBox>, edges: Seq<RouteEdge>, res: Seq<EdgePortAssignment>) -> bool {
    let atts = attachments(nodes, edges);
    &&& 2 * res.len() == atts.len()
    &&& forall|p: int|
        0 <= p < res.len() ==> {
            let a = #[trigger] res[p];
            &&& a.edge_idx == atts[2 * p].edge_idx
            &&& a.from_id == atts[2 * p].node
            &&& a.to_id == atts[2 * p + 1].node
            &&& a.kind == atts[2 * p].kind
            &&& a.from_side == atts[2 * p].side
            &&& a.to_side == atts[2 * p + 1].side
            &&& a.from_slot_offset == slot_offset(atts, 2 * p)
            &&& a.to_slot_offset == slot_offset(atts, 2 * p + 1)
            &&& a.channel_index == p
        }
}

/// The rectangles of concept nodes.
pub open spec fn concept_boxes(nodes: Seq<DiagramNode>) -> Seq<NodeBox> {
    nodes.map_values(|n: DiagramNode| NodeBox { id: n@.id, x: n@.x, y: n@.y, width: n@.width as u64, height: n@.height as u64 })
}

/// Concept relations as relations to attach, none with sides kept.
pub open spec fn concept_routes(edges: Seq<DiagramEdge>) -> Seq<RouteEdge> {
    edges.map_values(
        |e: DiagramEdge|
            RouteEdge { from: e@.from, to: e@.to, kind: e@.kind, source_port: None, target_port: None, directed: false },
    )
}

/// Attaches the relations of a concept diagram.
pub struct EdgeRouter;

fn concept_boxes_of(nodes: &[DiagramNode]) -> (res: Vec<NodeBox>)
    ensures
        res@ == concept_boxes(nodes@),
{
    let mut boxes: Vec<NodeBox> = Vec::new();
    let mut i: usize = 0;
    while i < nodes.len()
        invariant
            i <= nodes@.len(),
            boxes@ == concept_boxes(nodes@.take(i as int)),
        decreases nodes@.len() - i,
    {
        boxes.push(NodeBox::of_concept_node(&nodes[i]));
        proof {
            assert(nodes@.take(i + 1) =~= nodes@.take(i as int).push(nodes@[i as int]));
        }
        i += 1;
    }
    proof {
        assert(nodes@.take(nodes@.len() as int) =~= nodes@);
    }
    boxes
}

fn concept_routes_of(edges: &[DiagramEdge]) -> (res: Vec<RouteEdge>)
    ensures
        res@ == concept_routes(edges@),
{
    let mut routes: Vec<RouteEdge> = Vec::new();
    let mut k: usize = 0;
    while k < edges.len()
        invariant
            k <= edges@.len(),
            routes@ == concept_routes(edges@.take(k as int)),
        decreases edges@.len() - k,
    {
        routes.push(RouteEdge::of_concept_edge(&edges[k]));
        proof {
            assert(edges@.take(k + 1) =~= edges@.take(k as int).push(edges@[k as int]));
        }
        k += 1;
    }
    proof {
        assert(edges@.take(edges@.len() as int) =~= edges@);
    }
    routes
}

/// The labels of concept relations.
pub open spec fn concept_labels(edges: Seq<DiagramEdge>) -> Seq<Option<Seq<char>>> {
    edges.map_values(|e: DiagramEdge| e@.label)
}

/// The sides and slots of the relations, as [`assigned_ports`] pins them.
pub open spec fn port_assignments(nodes: Seq<NodeBox>, edges: Seq<RouteEdge>) -> Seq<EdgePortAssignment> {
    let atts = attachments(nodes, edges);
    Seq::new(
        atts.len() / 2,
        |p: int|
            EdgePortAssignment {
                edge_idx: atts[2 * p].edge_idx as usize,
                from_id: atts[2 * p].node,
                to_id: atts[2 * p + 1].node,
                kind: atts[2 * p].kind,
                from_side: atts[2 * p].side,
                to_side: atts[2 * p + 1].side,
                from_slot_offset: slot_offset(atts, 2 * p) as i128,
                to_slot_offset: slot_offset(atts, 2 * p + 1) as i128,
                channel_index: p as usize,
            },
    )
}

/// The drawn relations for the first `p` assignments: each one whose two
/// nodes are on the diagram, routed between them, without hops.
pub open spec fn routed_upto(
    nodes: Seq<NodeBox>,
    edges: Seq<RouteEdge>,
    labels: Seq<Option<Seq<char>>>,
    assigns: Seq<EdgePortAssignment>,
    p: int,
) -> Seq<RoutedView>
    decreases p,
{
    if p <= 0 {
        Seq::empty()
    } else {
        let rest = routed_upto(nodes, edges, labels, assigns, p - 1);
        let a = assigns[p - 1];
        let fi = box_index(nodes, a.from_id);
        let ti = box_index(nodes, a.to_id);
        if fi >= 0 && ti >= 0 {
            rest.push(route_of(nodes[fi], nodes[ti], edges[a.edge_idx as int], labels[a.edge_idx as int], a))
        } else {
            rest
        }
    }
}

/// The drawn relations of a diagram, in the order of their assignments,
/// without hops.
pub open spec fn unbridged_routes(
    nodes: Seq<NodeBox>,
    edges: Seq<RouteEdge>,
    labels: Seq<Option<Seq<char>>>,
) -> Seq<RoutedView> {
    let assigns = port_assignments(nodes, edges);
    routed_upto(nodes, edges, labels, assigns, assigns.len() as int)
}

/// The ends of the relations are at most two per relation, and each names
/// its relation.
pub proof fn lemma_attachments_shape(nodes: Seq<NodeBox>, edges: Seq<RouteEdge>)
    ensures
        attachments(nodes, edges).len() <= 2 * edges.len(),
        attachments(nodes, edges).len() % 2 == 0,
        forall|k: int|
            0 <= k < attachments(nodes, edges).len() ==> 0 <= #[trigger] attachments(nodes, edges)[k].edge_idx
                < edges.len(),
    decreases edges.len(),
{
    if edges.len() > 0 {
        lemma_attachments_shape(nodes, edges.drop_last());
    }
}

/// No slot lies further from the middle of its side than the ends of all
/// relations spread out would reach.
pub proof fn lemma_slot_offset_bounded(atts: Seq<AttachView>, i: int)
    requires
        0 <= i < atts.len(),
    ensures
        -12 * (2 * atts.len() + 1) <= slot_offset(atts, i) <= 12 * (2 * atts.len() + 1),
{
    let a = atts[i];
    let upto = |x: AttachView| x.node == a.node && x.side == a.side && x.key <= a.key;
    lemma_filter_disjoint(atts, lower_in_group(a), level_in_group(a), upto);
    atts.lemma_filter_len(upto);
    atts.lemma_filter_len(in_group(a));
    lemma_filter_prefix_grows(atts, level_in_group(a), i, atts.len() as int);
    assert(atts.take(atts.len() as int) =~= atts);
    assert(SLOT_SPACING / 2 == 12);
}

/// Whether a list of assignments is the one [`assigned_ports`] pins.
pub proof fn lemma_assignments_pinned(nodes: Seq<NodeBox>, edges: Seq<RouteEdge>, res: Seq<EdgePortAssignment>)
    requires
        assigned_ports(nodes, edges, res),
    ensures
        res == port_assignments(nodes, edges),
{
    assert(res =~= port_assignments(nodes, edges));
}

impl EdgeRouter {
    /// The sides and slots of the relations of a concept diagram.
    pub fn assign_ports(nodes: &[DiagramNode], edges: &[DiagramEdge]) -> (res: Vec<EdgePortAssignment>)
        ensures
            assigned_ports(concept_boxes(nodes@), concept_routes(edges@), res@),
    {
        let boxes = concept_boxes_of(nodes);
        let routes = concept_routes_of(edges);
        compute_port_assignments(boxes.as_slice(), routes.as_slice())
    }

    /// The drawn relations of a concept diagram: the sides and slots are
    /// assigned, each relation whose nodes are on the diagram is routed
    /// between them, and every route gets hops where it crosses the others.
    pub fn route_edges(nodes: &[DiagramNode], edges: &[DiagramEdge]) -> (res: Vec<RoutedEdge>)
        ensures
            ({
                let plain = unbridged_routes(concept_boxes(nodes@), concept_routes(edges@), concept_labels(edges@));
                &&& res@.len() == plain.len()
                &&& forall|k: int|
                    0 <= k < plain.len() ==> #[trigger] res@[k]@ == with_hops(
                        plain[k],
                        plain.map_values(|r: RoutedView| r.points),
                        k,
                    )
            }),
    {
        let boxes = concept_boxes_of(nodes);
        let routes = concept_routes_of(edges);
        let assigns = compute_port_assignments(boxes.as_slice(), routes.as_slice());
        let ghost labels = concept_labels(edges@);
        let ghost atts = attachments(boxes@, routes@);
        proof {
            lemma_assignments_pinned(boxes@, routes@, assigns@);
            lemma_attachments_shape(boxes@, routes@);
        }
        let mut out: Vec<RoutedEdge> = Vec::new();
        let mut p: usize = 0;
        while p < assigns.len()
            invariant
                boxes@ == concept_boxes(nodes@),
                routes@ == concept_routes(edges@),
                labels == concept_labels(edges@),
                atts == attachments(boxes@, routes@),
                assigned_ports(boxes@, routes@, assigns@),
                assigns@ == port_assignments(boxes@, routes@),
                atts.len() <= 2 * routes@.len(),
                forall|k: int| 0 <= k < atts.len() ==> 0 <= #[trigger] atts[k].edge_idx < routes@.len(),
                routes@.len() == edges@.len(),
                p <= assigns@.len(),
                out@.len() == routed_upto(boxes@, routes@, labels, assigns@, p as int).len(),
                forall|k: int|
                    0 <= k < out@.len() ==> (#[trigger] out@[k])@ == routed_upto(boxes@, routes@, labels, assigns@, p as int)[k],
                forall|k: int| 0 <= k < out@.len() ==> bounded_by(#[trigger] out@[k]@.points, 2 * coordinate_limit()),
            decreases assigns@.len() - p,
        {
            let a = assigns[p];
            let ghost before = routed_upto(boxes@, routes@, labels, assigns@, p as int);
            match (box_at(boxes.as_slice(), a.from_id), box_at(boxes.as_slice(), a.to_id)) {
                (Some(fi), Some(ti)) => {
                    proof {
                        assert(a == assigns@[p as int]);
                        assert(0 <= atts[2 * p].edge_idx < routes@.len());
                        lemma_slot_offset_bounded(atts, 2 * p);
                        lemma_slot_offset_bounded(atts, 2 * p + 1);
                    }
                    let label = edges[a.edge_idx].label();
                    proof {
                        assert(opt_str_view(label) == labels[a.edge_idx as int]);
                    }
                    let r = generate_route(&boxes[fi], &boxes[ti], &routes[a.edge_idx], label, &a);
                    out.push(r);
                },
                _ => {},
            }
            proof {
                let now = routed_upto(boxes@, routes@, labels, assigns@, p + 1);
                assert forall|k: int| 0 <= k < out@.len() implies (#[trigger] out@[k])@ == now[k] by {
                    if k < before.len() {
                        assert(out@[k]@ == before[k]);
                    }
                }
            }
            p += 1;
        }
        let ghost plain = routed_upto(boxes@, routes@, labels, assigns@, assigns@.len() as int);
        proof {
            assert(route_paths(out@) =~= plain.map_values(|r: RoutedView| r.points));
        }
        detect_bridges(&mut out);
        out
    }
}

/// The sides and slots of every relation whose two nodes are on the
/// diagram, in the order of the relations; each gets its place in that
/// order as its channel.
pub fn compute_port_assignments(nodes: &[NodeBox], edges: &[RouteEdge]) -> (res: Vec<EdgePortAssignment>)
    ensures
        assigned_ports(nodes@, edges@, res@),
{
    let mut atts: Vec<Attach> = Vec::new();
    let mut k: usize = 0;
    while k < edges.len()
        invariant
            k <= edges@.len(),
            atts_view(atts@) == attachments(nodes@, edges@.take(k as int)),
            atts@.len() % 2 == 0,
            atts@.len() <= 2 * k,
        decreases edges@.len() - k,
    {
        let ghost prefix = edges@.take(k + 1);
        assert(prefix.drop_last() =~= edges@.take(k as int));
        assert(prefix.last() == edges@[k as int]);
        let e = edges[k];
        let a = box_at(nodes, e.from);
        let b = box_at(nodes, e.to);
        match (a, b) {
            (Some(ia), Some(ib)) => {
                let f = nodes[ia];
                let t = nodes[ib];
                let sides = select_ports(&f, &t, e.kind, e.source_port, e.target_port);
                let ghost before = atts_view(atts@);
                atts.push(
                    Attach {
                        edge_idx: k,
                        is_source: true,
                        node: f.id,
                        side: sides.0,
                        kind: e.kind,
                        key: along_key(sides.0, &t),
                    },
                );
                atts.push(
                    Attach {
                        edge_idx: k,
                        is_source: false,
                        node: t.id,
                        side: sides.1,
                        kind: e.kind,
                        key: along_key(sides.1, &f),
                    },
                );
                assert(atts_view(atts@) =~= attachments(nodes@, prefix));
            },
            _ => {},
        }
        k += 1;
    }
    assert(edges@.take(edges@.len() as int) =~= edges@);
    let ghost av = atts_view(atts@);
    let n = atts.len();
    let mut offsets: Vec<i128> = Vec::new();
    let mut i: usize = 0;
    while i < n
        invariant
            n == atts@.len(),
            av == atts_view(atts@),
            i <= n,
            offsets@.len() == i,
            forall|q: int| 0 <= q < i ==> #[trigger] offsets@[q] == slot_offset(av, q),
        decreases n - i,
    {
        let me = atts[i];
        assert(av[i as int] == me@);
        let ghost grp = in_group(av[i as int]);
        let ghost low = lower_in_group(av[i as int]);
        let ghost lvl = level_in_group(av[i as int]);
        let mut count: usize = 0;
        let mut lower: usize = 0;
        let mut level: usize = 0;
        let mut all_gen = true;
        let mut j: usize = 0;
        while j < n
            invariant
                n == atts@.len(),
                av == atts_view(atts@),
                i < n,
                me@ == av[i as int],
                grp == in_group(av[i as int]),
                low == lower_in_group(av[i as int]),
                lvl == level_in_group(av[i as int]),
                j <= n,
                count == av.take(j as int).filter(grp).len(),
                lower == av.take(j as int).filter(low).len(),
                level == av.take(if j <= i { j as int } else { i as int }).filter(lvl).len(),
                count <= j,
                lower <= j,
                level <= j,
                all_gen == forall|q: int|
                    0 <= q < j && #[trigger] grp(av[q]) ==> av[q].kind == RelationKind::Generalization
                        && !av[q].is_source,
            decreases n - j,
        {
            let other = atts[j];
            assert(av[j as int] == other@);
            proof {
                crate::seqs::lemma_filter_step(av, grp, j as int);
                crate::seqs::lemma_filter_step(av, low, j as int);
                crate::seqs::lemma_filter_step(av, lvl, j as int);
            }
            if other.node == me.node && other.side == me.side {
                count += 1;
                if other.key < me.key {
                    lower += 1;
                }
                if other.key == me.key && j < i {
                    level += 1;
                }
                let gen = match other.kind {
                    RelationKind::Generalization => !other.is_source,
                    _ => false,
                };
                all_gen = all_gen && gen;
            }
            j += 1;
        }
        assert(av.take(n as int) =~= av);
        let off: i128 = if all_gen {
            0
        } else {
            let r: i128 = lower as i128 + level as i128;
            let v: i128 = 2 * r - count as i128 + 1;
            assert(-0x1_0000_0000_0000_0000i128 <= v <= 0x4_0000_0000_0000_0000i128);
            assert(SLOT_SPACING / 2 == 12);
            v * 12
        };
        assert(off == slot_offset(av, i as int));
        offsets.push(off);
        i += 1;
    }
    let mut res: Vec<EdgePortAssignment> = Vec::new();
    let mut p: usize = 0;
    while p < n / 2
        invariant
            n == atts@.len(),
            n % 2 == 0,
            av == atts_view(atts@),
            av == attachments(nodes@, edges@),
            offsets@.len() == n,
            forall|q: int| 0 <= q < n ==> #[trigger] offsets@[q] == slot_offset(av, q),
            p <= n / 2,
            res@.len() == p,
            forall|q: int|
                0 <= q < p ==> {
                    let a = #[trigger] res@[q];
                    &&& a.edge_idx == av[2 * q].edge_idx
                    &&& a.from_id == av[2 * q].node
                    &&& a.to_id == av[2 * q + 1].node
                    &&& a.kind == av[2 * q].kind
                    &&& a.from_side == av[2 * q].side
                    &&& a.to_side == av[2 * q + 1].side
                    &&& a.from_slot_offset == slot_offset(av, 2 * q)
                    &&& a.to_slot_offset == slot_offset(av, 2 * q + 1)
                    &&& a.channel_index == q
                },
        decreases n / 2 - p,
    {
        let s = atts[2 * p];
        let t = atts[2 * p + 1];
        assert(av[2 * p as int] == s@);
        assert(av[2 * p + 1] == t@);
        res.push(
            EdgePortAssignment {
                edge_idx: s.edge_idx,
                from_id: s.node,
                to_id: t.node,
                kind: s.kind,
                from_side: s.side,
                to_side: t.side,
                from_slot_offset: offsets[2 * p],
                to_slot_offset: offsets[2 * p + 1],
                channel_index: p,
            },
        );
        p += 1;
    }
    res
}

/// Whether the other node lies wholly beyond a side of a node: a relation
/// leaving by that side heads straight at it.
pub open spec fn side_faces(side: PortSide, f: NodeBox, t: NodeBox) -> bool {
    match side {
        PortSide::Top => bottom(t) <= top(f),
        PortSide::Bottom => top(t) >= bottom(f),
        PortSide::Left => right(t) <= left(f),
        PortSide::Right => left(t) >= right(f),
    }
}

/// The free space between a side of a node and the other node beyond it.
pub open spec fn space_beyond(side: PortSide, f: NodeBox, t: NodeBox) -> int {
    match side {
        PortSide::Top => top(f) - bottom(t),
        PortSide::Bottom => top(t) - bottom(f),
        PortSide::Left => left(f) - right(t),
        PortSide::Right => left(t) - right(f),
    }
}

/// A relation with no sides yet leaves its source by a side that faces the
/// target and enters the target by the opposite side, which faces the
/// source: where the nodes are apart, across the widest free space between
/// them; where they overlap, towards the target's centre. A generalisation
/// leaves a subclass that lies clearly below its superclass upwards, and one
/// clearly above it downwards.
pub proof fn fresh_ports_face_each_other(f: NodeBox, t: NodeBox, kind: RelationKind)
    ensures
        ({
            let (fs, ts) = ports_for(f, t, kind, None, None);
            &&& kind != RelationKind::Generalization ==> {
                &&& ts == opposite_side(fs)
                &&& (exists|s: PortSide| side_faces(s, f, t)) ==> {
                    &&& side_faces(fs, f, t)
                    &&& side_faces(ts, t, f)
                    &&& forall|s: PortSide| side_faces(s, f, t) ==> space_beyond(s, f, t) <= space_beyond(fs, f, t)
                }
                &&& !(exists|s: PortSide| side_faces(s, f, t)) ==> match fs {
                    PortSide::Right => cx2(t) > cx2(f),
                    PortSide::Left => cx2(t) < cx2(f),
                    PortSide::Bottom => cy2(t) > cy2(f),
                    PortSide::Top => cy2(t) <= cy2(f),
                }
            }
            &&& kind == RelationKind::Generalization && top(f) - bottom(t) >= MIN_ARROW_CLEARANCE ==> fs
                == PortSide::Top && ts == PortSide::Bottom
            &&& kind == RelationKind::Generalization && bottom(f) <= top(t) - MIN_ARROW_CLEARANCE ==> fs
                == PortSide::Bottom && ts == PortSide::Top
        }),
{
    let (fs, ts) = ports_for(f, t, kind, None, None);
    if kind != RelationKind::Generalization {
        if exists|s: PortSide| side_faces(s, f, t) {
            assert forall|s: PortSide| side_faces(s, f, t) implies space_beyond(s, f, t) <= space_beyond(fs, f, t) by {
            }
        } else {
            assert(!side_faces(PortSide::Top, f, t));
            assert(!side_faces(PortSide::Bottom, f, t));
            assert(!side_faces(PortSide::Left, f, t));
            assert(!side_faces(PortSide::Right, f, t));
        }
    }
}

/// The ends that share a side keep the order of their other ends along it:
/// an end whose other end lies further along the side, or level with it but
/// in a later relation, gets a later slot, and, unless the side is shared
/// only by arriving generalisations, a larger offset.
pub proof fn slots_follow_the_other_ends(atts: Seq<AttachView>, i: int, j: int)
    requires
        0 <= i < atts.len(),
        0 <= j < atts.len(),
        i != j,
        in_group(atts[i])(atts[j]),
        atts[i].key < atts[j].key || (atts[i].key == atts[j].key && i < j),
    ensures
        slot_rank(atts, i) < slot_rank(atts, j),
        !all_incoming_generalizations(atts, atts[i]) ==> slot_offset(atts, i) < slot_offset(atts, j),
{
    let a = atts[i];
    let b = atts[j];
    let low_a = lower_in_group(a);
    let lvl_a = level_in_group(a);
    let low_b = lower_in_group(b);
    let lvl_b = level_in_group(b);
    assert(atts.take(atts.len() as int) =~= atts);
    if a.key < b.key {
        let upto_a = |x: AttachView| x.node == a.node && x.side == a.side && x.key <= a.key;
        lemma_filter_prefix_grows(atts, lvl_a, i, atts.len() as int);
        lemma_filter_disjoint(atts, low_a, lvl_a, upto_a);
        lemma_filter_weaker(atts, upto_a, low_b);
    } else {
        assert(low_a =~= low_b);
        assert(lvl_a =~= lvl_b);
        lemma_filter_prefix_grows(atts, lvl_a, i, j);
    }
    assert(in_group(a) =~= in_group(b));
    assert(atts.filter(in_group(a)) == atts.filter(in_group(b)));
    assert(SLOT_SPACING / 2 == 12);
    if !all_incoming_generalizations(atts, a) {
        assert(!all_incoming_generalizations(atts, b));
    }
}

/// Whether a node lies beyond one side of another, within the tolerance.
pub open spec fn beyond(n: NodeBox, other: NodeBox, side: PortSide) -> bool {
    match side {
        PortSide::Right => left(other) >= right(n) - PORT_TOLERANCE,
        PortSide::Bottom => top(other) >= bottom(n) - PORT_TOLERANCE,
        PortSide::Left => right(other) <= left(n) + PORT_TOLERANCE,
        PortSide::Top => bottom(other) <= top(n) + PORT_TOLERANCE,
    }
}

/// A relation keeps the sides it has as long as each node stays beyond the
/// side of the other that the relation uses, whatever its kind.
pub proof fn sides_are_kept_while_the_nodes_stay_beyond(
    f: NodeBox,
    t: NodeBox,
    kind: RelationKind,
    source: PortSide,
    target: PortSide,
)
    requires
        beyond(f, t, source),
        beyond(t, f, target),
    ensures
        ports_for(f, t, kind, Some(source), Some(target)) == (source, target),
{
}

} // verus!
