//! The class diagram of the information model: each class at most once as
//! a node, and the UML relations between them, with their ports and
//! multiplicities.
//!
//! Positions and sizes are whole canvas pixels.
use vstd::prelude::*;
use crate::concept_model::{grid_across, grid_down, grid_position, NodeId, PortSide, RelationKind};
use crate::concepts::{opt_as_str, opt_str_view, opt_view};
use crate::ids::{random_id, Id};
use crate::information_model::{
    calculate_class_node_height, class_node_height, ClassView, InformationModel, Multiplicity,
};
use crate::edge_router::{compute_port_assignments, lemma_assignments_pinned, port_assignments, EdgePortAssignment,
    NodeBox, RouteEdge};
use crate::seqs::{lemma_first_where_absent, lemma_first_where_found, first_where, is_first_where, lemma_filter_step, lemma_first_where, lemma_first_where_none,
    lemma_first_where_some};

verus! {

/// The width of a class node, in pixels.
pub const DEFAULT_CLASS_NODE_WIDTH: u64 = 220;

/// The height of a class node without attributes, in pixels.
pub const MIN_CLASS_NODE_HEIGHT: u64 = 80;

/// What a class node holds.
pub struct ClassNodeView {
    pub id: NodeId,
    pub class_id: Id,
    pub x: i64,
    pub y: i64,
    pub width: u64,
    pub height: u64,
}

/// A class placed on the diagram.
#[derive(Debug, Clone, PartialEq, Eq)]
pub struct ClassDiagramNode {
    id: NodeId,
    class_id: Id,
    x: i64,
    y: i64,
    width: u64,
    height: u64,
}

impl View for ClassDiagramNode {
    type V = ClassNodeView;

    closed spec fn view(&self) -> ClassNodeView {
        ClassNodeView {
            id: self.id,
            class_id: self.class_id,
            x: self.x,
            y: self.y,
            width: self.width,
            height: self.height,
        }
    }
}

impl ClassDiagramNode {
    /// A node for a class at a position, with a fresh identifier, the
    /// default width and the height that its attributes need.
    pub fn new(class_id: Id, x: i64, y: i64, attr_count: usize) -> (res: ClassDiagramNode)
        ensures
            res@.class_id == class_id,
            res@.x == x,
            res@.y == y,
            res@.width == DEFAULT_CLASS_NODE_WIDTH,
            res@.height == class_node_height(attr_count as nat),
    {
        ClassDiagramNode {
            id: random_id(),
            class_id,
            x,
            y,
            width: DEFAULT_CLASS_NODE_WIDTH,
            height: calculate_class_node_height(attr_count),
        }
    }

    /// A node as it was stored, its height rounded up to the grid.
    pub fn restore(id: NodeId, class_id: Id, x: i64, y: i64, width: u64, height: u64) -> (res: ClassDiagramNode)
        ensures
            res@.id == id,
            res@.class_id == class_id,
            res@.x == x,
            res@.y == y,
            res@.width == width,
            res@.height == grid_ceil(height),
    {
        ClassDiagramNode { id, class_id, x, y, width, height: snap_up(height) }
    }

    pub fn id(&self) -> (res: NodeId)
        ensures
            res == self@.id,
    {
        self.id
    }

    pub fn class_id(&self) -> (res: Id)
        ensures
            res == self@.class_id,
    {
        self.class_id
    }

    pub fn x(&self) -> (res: i64)
        ensures
            res == self@.x,
    {
        self.x
    }

    pub fn y(&self) -> (res: i64)
        ensures
            res == self@.y,
    {
        self.y
    }

    pub fn width(&self) -> (res: u64)
        ensures
            res == self@.width,
    {
        self.width
    }

    pub fn height(&self) -> (res: u64)
        ensures
            res == self@.height,
    {
        self.height
    }

    pub fn set_position(&mut self, x: i64, y: i64)
        ensures
            final(self)@ == (ClassNodeView { x, y, ..old(self)@ }),
    {
        self.x = x;
        self.y = y;
    }

    /// Whether a point lies on the node, its border included.
    pub fn contains(&self, px: i64, py: i64) -> (res: bool)
        ensures
            res == (self@.x <= px <= self@.x + self@.width && self@.y <= py <= self@.y + self@.height),
    {
        let x = self.x as i128;
        let y = self.y as i128;
        let qx = px as i128;
        let qy = py as i128;
        qx >= x && qx <= x + self.width as i128 && qy >= y && qy <= y + self.height as i128
    }

    /// Resizes the node for a number of attributes.
    pub fn update_dimensions(&mut self, attr_count: usize)
        ensures
            final(self)@ == (ClassNodeView { height: class_node_height(attr_count as nat), ..old(self)@ }),
    {
        self.height = calculate_class_node_height(attr_count);
    }
}

/// A height rounded up to the 20-pixel grid, held at the last grid line
/// below `u64::MAX`.
pub open spec fn grid_ceil(h: u64) -> u64 {
    let r = ((h + 19) / 20) * 20;
    if r <= 18446744073709551600 { r as u64 } else { 18446744073709551600u64 }
}

fn snap_up(h: u64) -> (res: u64)
    ensures
        res == grid_ceil(h),
{
    let r: u128 = ((h as u128 + 19) / 20) * 20;
    if r <= 18446744073709551600u128 {
        r as u64
    } else {
        18446744073709551600u64
    }
}

/// What a class relation holds.
pub struct ClassEdgeView {
    pub from: NodeId,
    pub to: NodeId,
    pub kind: RelationKind,
    pub label: Option<Seq<char>>,
    pub source_port: Option<PortSide>,
    pub target_port: Option<PortSide>,
    pub directed: Option<bool>,
    pub source_multiplicity: Option<Multiplicity>,
    pub target_multiplicity: Option<Multiplicity>,
}

/// A relation between two class nodes.
#[derive(Debug, Clone, PartialEq, Eq)]
pub struct ClassDiagramEdge {
    from: NodeId,
    to: NodeId,
    kind: RelationKind,
    label: Option<String>,
    source_port: Option<PortSide>,
    target_port: Option<PortSide>,
    directed: Option<bool>,
    source_multiplicity: Option<Multiplicity>,
    target_multiplicity: Option<Multiplicity>,
}

impl View for ClassDiagramEdge {
    type V = ClassEdgeView;

    closed spec fn view(&self) -> ClassEdgeView {
        ClassEdgeView {
            from: self.from,
            to: self.to,
            kind: self.kind,
            label: opt_view(self.label),
            source_port: self.source_port,
            target_port: self.target_port,
            directed: self.directed,
            source_multiplicity: self.source_multiplicity,
            target_multiplicity: self.target_multiplicity,
        }
    }
}

/// An association is drawn directed unless said otherwise; other kinds
/// carry no direction.
pub open spec fn default_direction(kind: RelationKind) -> Option<bool> {
    if kind == RelationKind::Association { Some(true) } else { None }
}

fn default_direction_of(kind: RelationKind) -> (res: Option<bool>)
    ensures
        res == default_direction(kind),
{
    match kind {
        RelationKind::Association => Some(true),
        _ => None,
    }
}

/// A fresh relation: no ports, the default direction, no multiplicities.
pub open spec fn fresh_edge(from: NodeId, to: NodeId, kind: RelationKind, label: Option<Seq<char>>) -> ClassEdgeView {
    ClassEdgeView {
        from,
        to,
        kind,
        label,
        source_port: None,
        target_port: None,
        directed: default_direction(kind),
        source_multiplicity: None,
        target_multiplicity: None,
    }
}

/// Whether a relation is drawn with an arrow: only an association, and one
/// not marked undirected.
pub open spec fn edge_is_directed(e: ClassEdgeView) -> bool {
    e.kind == RelationKind::Association && match e.directed {
        Some(d) => d,
        None => true,
    }
}

/// A relation with its kind changed; an association with no direction yet
/// becomes directed.
pub open spec fn with_kind(e: ClassEdgeView, kind: RelationKind) -> ClassEdgeView {
    ClassEdgeView {
        kind,
        directed: if kind == RelationKind::Association && e.directed is None { Some(true) } else { e.directed },
        ..e
    }
}

/// A relation turned around: its ends, ports and multiplicities swap.
pub open spec fn reversed(e: ClassEdgeView) -> ClassEdgeView {
    ClassEdgeView {
        from: e.to,
        to: e.from,
        source_port: e.target_port,
        target_port: e.source_port,
        source_multiplicity: e.target_multiplicity,
        target_multiplicity: e.source_multiplicity,
        ..e
    }
}

impl ClassDiagramEdge {
    pub fn new(from: NodeId, to: NodeId, kind: RelationKind, label: Option<String>) -> (res: ClassDiagramEdge)
        ensures
            res@ == fresh_edge(from, to, kind, opt_view(label)),
    {
        ClassDiagramEdge {
            from,
            to,
            kind,
            label,
            source_port: None,
            target_port: None,
            directed: default_direction_of(kind),
            source_multiplicity: None,
            target_multiplicity: None,
        }
    }

    pub fn with_ports(
        from: NodeId,
        to: NodeId,
        kind: RelationKind,
        label: Option<String>,
        source_port: Option<PortSide>,
        target_port: Option<PortSide>,
    ) -> (res: ClassDiagramEdge)
        ensures
            res@ == (ClassEdgeView { source_port, target_port, ..fresh_edge(from, to, kind, opt_view(label)) }),
    {
        ClassDiagramEdge {
            from,
            to,
            kind,
            label,
            source_port,
            target_port,
            directed: default_direction_of(kind),
            source_multiplicity: None,
            target_multiplicity: None,
        }
    }

    pub fn with_all(
        from: NodeId,
        to: NodeId,
        kind: RelationKind,
        label: Option<String>,
        source_port: Option<PortSide>,
        target_port: Option<PortSide>,
        directed: Option<bool>,
    ) -> (res: ClassDiagramEdge)
        ensures
            res@ == (ClassEdgeView {
                source_port,
                target_port,
                directed,
                ..fresh_edge(from, to, kind, opt_view(label))
            }),
    {
        ClassDiagramEdge {
            from,
            to,
            kind,
            label,
            source_port,
            target_port,
            directed,
            source_multiplicity: None,
            target_multiplicity: None,
        }
    }

    pub fn with_multiplicities(
        from: NodeId,
        to: NodeId,
        kind: RelationKind,
        label: Option<String>,
        source_port: Option<PortSide>,
        target_port: Option<PortSide>,
        directed: Option<bool>,
        source_multiplicity: Option<Multiplicity>,
        target_multiplicity: Option<Multiplicity>,
    ) -> (res: ClassDiagramEdge)
        ensures
            res@ == (ClassEdgeView {
                from,
                to,
                kind,
                label: opt_view(label),
                source_port,
                target_port,
                directed,
                source_multiplicity,
                target_multiplicity,
            }),
    {
        ClassDiagramEdge {
            from,
            to,
            kind,
            label,
            source_port,
            target_port,
            directed,
            source_multiplicity,
            target_multiplicity,
        }
    }

    pub fn from(&self) -> (res: NodeId)
        ensures
            res == self@.from,
    {
        self.from
    }

    pub fn to(&self) -> (res: NodeId)
        ensures
            res == self@.to,
    {
        self.to
    }

    pub fn kind(&self) -> (res: RelationKind)
        ensures
            res == self@.kind,
    {
        self.kind
    }

    /// Changes the kind; an association with no direction yet becomes
    /// directed.
    pub fn set_kind(&mut self, kind: RelationKind)
        ensures
            final(self)@ == with_kind(old(self)@, kind),
    {
        self.kind = kind;
        if kind == RelationKind::Association && self.directed.is_none() {
            self.directed = Some(true);
        }
    }

    pub fn label(&self) -> (res: Option<&str>)
        ensures
            opt_str_view(res) == self@.label,
    {
        opt_as_str(&self.label)
    }

    pub fn set_label(&mut self, label: Option<String>)
        ensures
            final(self)@ == (ClassEdgeView { label: opt_view(label), ..old(self)@ }),
    {
        self.label = label;
    }

    pub fn source_port(&self) -> (res: Option<PortSide>)
        ensures
            res == self@.source_port,
    {
        self.source_port
    }

    pub fn target_port(&self) -> (res: Option<PortSide>)
        ensures
            res == self@.target_port,
    {
        self.target_port
    }

    pub fn set_ports(&mut self, source_port: Option<PortSide>, target_port: Option<PortSide>)
        ensures
            final(self)@ == (ClassEdgeView { source_port, target_port, ..old(self)@ }),
    {
        self.source_port = source_port;
        self.target_port = target_port;
    }

    /// Whether the relation is drawn with an arrow.
    pub fn is_directed(&self) -> (res: bool)
        ensures
            res == edge_is_directed(self@),
    {
        match self.kind {
            RelationKind::Association => match self.directed {
                Some(d) => d,
                None => true,
            },
            _ => false,
        }
    }

    pub fn directed(&self) -> (res: Option<bool>)
        ensures
            res == self@.directed,
    {
        self.directed
    }

    pub fn set_directed(&mut self, directed: bool)
        ensures
            final(self)@ == (ClassEdgeView { directed: Some(directed), ..old(self)@ }),
    {
        self.directed = Some(directed);
    }

    pub fn source_multiplicity(&self) -> (res: Option<Multiplicity>)
        ensures
            res == self@.source_multiplicity,
    {
        self.source_multiplicity
    }

    pub fn set_source_multiplicity(&mut self, mult: Option<Multiplicity>)
        ensures
            final(self)@ == (ClassEdgeView { source_multiplicity: mult, ..old(self)@ }),
    {
        self.source_multiplicity = mult;
    }

    pub fn target_multiplicity(&self) -> (res: Option<Multiplicity>)
        ensures
            res == self@.target_multiplicity,
    {
        self.target_multiplicity
    }

    pub fn set_target_multiplicity(&mut self, mult: Option<Multiplicity>)
        ensures
            final(self)@ == (ClassEdgeView { target_multiplicity: mult, ..old(self)@ }),
    {
        self.target_multiplicity = mult;
    }

    /// Turns the relation around: ends, ports and multiplicities swap.
    fn reverse(&mut self)
        ensures
            final(self)@ == reversed(old(self)@),
    {
        let from = self.from;
        self.from = self.to;
        self.to = from;
        let port = self.source_port;
        self.source_port = self.target_port;
        self.target_port = port;
        let mult = self.source_multiplicity;
        self.source_multiplicity = self.target_multiplicity;
        self.target_multiplicity = mult;
    }
}

/// What a class diagram holds: its nodes and relations, in order.
pub struct ClassGraphView {
    pub nodes: Seq<ClassNodeView>,
    pub edges: Seq<ClassEdgeView>,
}

/// The class diagram.
#[derive(Debug, Clone, PartialEq, Eq)]
pub struct ClassGraph {
    nodes: Vec<ClassDiagramNode>,
    edges: Vec<ClassDiagramEdge>,
}

pub open spec fn class_nodes_view(v: Seq<ClassDiagramNode>) -> Seq<ClassNodeView> {
    v.map_values(|n: ClassDiagramNode| n@)
}

pub open spec fn class_edges_view(v: Seq<ClassDiagramEdge>) -> Seq<ClassEdgeView> {
    v.map_values(|e: ClassDiagramEdge| e@)
}

proof fn lemma_nodes_view_update(v: Seq<ClassDiagramNode>, i: int)
    requires
        0 <= i < v.len(),
    ensures
        forall|x: ClassDiagramNode| #[trigger] class_nodes_view(v.update(i, x)) == class_nodes_view(v).update(i, x@),
{
    assert forall|x: ClassDiagramNode| #[trigger] class_nodes_view(v.update(i, x)) == class_nodes_view(v).update(i, x@) by {
        assert(class_nodes_view(v.update(i, x)) =~= class_nodes_view(v).update(i, x@));
    }
}

proof fn lemma_edges_view_update(v: Seq<ClassDiagramEdge>, i: int)
    requires
        0 <= i < v.len(),
    ensures
        forall|x: ClassDiagramEdge| #[trigger] class_edges_view(v.update(i, x)) == class_edges_view(v).update(i, x@),
{
    assert forall|x: ClassDiagramEdge| #[trigger] class_edges_view(v.update(i, x)) == class_edges_view(v).update(i, x@) by {
        assert(class_edges_view(v.update(i, x)) =~= class_edges_view(v).update(i, x@));
    }
}

impl View for ClassGraph {
    type V = ClassGraphView;

    closed spec fn view(&self) -> ClassGraphView {
        ClassGraphView { nodes: class_nodes_view(self.nodes@), edges: class_edges_view(self.edges@) }
    }
}

/// Whether a node has that identifier.
pub open spec fn with_id(id: NodeId) -> spec_fn(ClassNodeView) -> bool {
    |n: ClassNodeView| n.id == id
}

/// Whether a node has another identifier.
pub open spec fn other_id(id: NodeId) -> spec_fn(ClassNodeView) -> bool {
    |n: ClassNodeView| n.id != id
}

/// Whether a node shows that class.
pub open spec fn of_class(class_id: Id) -> spec_fn(ClassNodeView) -> bool {
    |n: ClassNodeView| n.class_id == class_id
}

/// Whether a relation runs from one node to the other.
pub open spec fn between(from: NodeId, to: NodeId) -> spec_fn(ClassEdgeView) -> bool {
    |e: ClassEdgeView| e.from == from && e.to == to
}

/// Whether a relation does not run from one node to the other.
pub open spec fn not_between(from: NodeId, to: NodeId) -> spec_fn(ClassEdgeView) -> bool {
    |e: ClassEdgeView| !(e.from == from && e.to == to)
}

/// Whether a relation does not touch the node.
pub open spec fn not_touching(id: NodeId) -> spec_fn(ClassEdgeView) -> bool {
    |e: ClassEdgeView| e.from != id && e.to != id
}

/// Whether some node has that identifier.
pub open spec fn class_has_node(nodes: Seq<ClassNodeView>, id: NodeId) -> bool {
    exists|i: int| 0 <= i < nodes.len() && nodes[i].id == id
}

/// Whether every relation joins two nodes of the diagram.
pub open spec fn edges_joined(g: ClassGraphView) -> bool {
    forall|i: int| 0 <= i < g.edges.len() ==> class_has_node(g.nodes, #[trigger] g.edges[i].from)
        && class_has_node(g.nodes, g.edges[i].to)
}

/// Whether both ends of a relation are nodes of the list.
pub open spec fn joins(nodes: Seq<ClassNodeView>) -> spec_fn(ClassEdgeView) -> bool {
    |e: ClassEdgeView| class_has_node(nodes, e.from) && class_has_node(nodes, e.to)
}

/// Whether the model has a class with the node's class identifier.
pub open spec fn class_in(classes: Seq<ClassView>) -> spec_fn(ClassNodeView) -> bool {
    |n: ClassNodeView| exists|i: int| 0 <= i < classes.len() && classes[i].id == n.class_id
}

/// Whether a class has that identifier.
pub open spec fn class_with_id(id: Id) -> spec_fn(ClassView) -> bool {
    |c: ClassView| c.id == id
}

/// A node resized for the attributes of its class in the model.
pub open spec fn resized(classes: Seq<ClassView>) -> spec_fn(ClassNodeView) -> ClassNodeView {
    |n: ClassNodeView| ClassNodeView {
        height: class_node_height(classes[first_where(classes, class_with_id(n.class_id))].attributes.len()),
        ..n
    }
}

/// The diagram brought in line with the classes of a model: nodes of
/// classes not in it go, relations that lost an end go, and every node is
/// resized for its class's attributes.
pub open spec fn synced_with_model(g: ClassGraphView, classes: Seq<ClassView>) -> ClassGraphView {
    let kept = g.nodes.filter(class_in(classes));
    ClassGraphView { nodes: kept.map_values(resized(classes)), edges: g.edges.filter(joins(kept)) }
}

/// A relation marked directed or not.
pub open spec fn set_direction(d: bool) -> spec_fn(ClassEdgeView) -> ClassEdgeView {
    |e: ClassEdgeView| ClassEdgeView { directed: Some(d), ..e }
}

/// The diagram with a node for a class placed in the next grid cell.
pub open spec fn class_placed(g: ClassGraphView, class_id: Id, attr_count: nat, id: NodeId) -> ClassGraphView {
    ClassGraphView {
        nodes: g.nodes.push(
            ClassNodeView {
                id,
                class_id,
                x: grid_across(g.nodes.len(), 3, 260),
                y: grid_down(g.nodes.len(), 3, 160),
                width: DEFAULT_CLASS_NODE_WIDTH,
                height: class_node_height(attr_count),
            },
        ),
        edges: g.edges,
    }
}

/// The diagram after asking to place a class: unchanged when the class is
/// already on it, else with a new node for it.
pub open spec fn class_added(g: ClassGraphView, class_id: Id, attr_count: nat, id: NodeId) -> ClassGraphView {
    if first_where(g.nodes, of_class(class_id)) >= 0 { g } else { class_placed(g, class_id, attr_count, id) }
}

/// The diagram with the first node with that identifier moved.
pub open spec fn class_node_moved(g: ClassGraphView, id: NodeId, x: i64, y: i64) -> ClassGraphView {
    let k = first_where(g.nodes, with_id(id));
    if k >= 0 {
        ClassGraphView { nodes: g.nodes.update(k, ClassNodeView { x, y, ..g.nodes[k] }), edges: g.edges }
    } else {
        g
    }
}

/// Whether a relation of that kind already runs between the two nodes.
pub open spec fn has_relation(edges: Seq<ClassEdgeView>, from: NodeId, to: NodeId, kind: RelationKind) -> bool {
    exists|i: int| 0 <= i < edges.len() && edges[i].from == from && edges[i].to == to && edges[i].kind == kind
}

/// The relations after asking for a new one: added only between two
/// different nodes of the diagram, and only once per kind.
pub open spec fn with_relation(
    g: ClassGraphView,
    from: NodeId,
    to: NodeId,
    kind: RelationKind,
    label: Option<Seq<char>>,
    source_multiplicity: Option<Multiplicity>,
    target_multiplicity: Option<Multiplicity>,
) -> Seq<ClassEdgeView> {
    if from != to && class_has_node(g.nodes, from) && class_has_node(g.nodes, to) && !has_relation(
        g.edges,
        from,
        to,
        kind,
    ) {
        g.edges.push(
            ClassEdgeView { source_multiplicity, target_multiplicity, ..fresh_edge(from, to, kind, label) },
        )
    } else {
        g.edges
    }
}

/// The relations with the first one from `from` to `to` changed by `f`;
/// unchanged where there is none.
pub open spec fn edit_edge(
    edges: Seq<ClassEdgeView>,
    from: NodeId,
    to: NodeId,
    f: spec_fn(ClassEdgeView) -> ClassEdgeView,
) -> Seq<ClassEdgeView> {
    let p = first_where(edges, between(from, to));
    if p >= 0 { edges.update(p, f(edges[p])) } else { edges }
}

/// The relations with the first one from `from` to `to` turned around and
/// moved to the end.
pub open spec fn reverse_edge(edges: Seq<ClassEdgeView>, from: NodeId, to: NodeId) -> Seq<ClassEdgeView> {
    let p = first_where(edges, between(from, to));
    if p >= 0 { edges.remove(p).push(reversed(edges[p])) } else { edges }
}

proof fn lemma_push_node_keeps_joined(g: ClassGraphView, n: ClassNodeView)
    ensures
        edges_joined(g) ==> edges_joined(ClassGraphView { nodes: g.nodes.push(n), edges: g.edges }),
{
    if edges_joined(g) {
        let nodes = g.nodes.push(n);
        assert forall|i: int| 0 <= i < g.edges.len() implies class_has_node(nodes, #[trigger] g.edges[i].from)
            && class_has_node(nodes, g.edges[i].to) by {
            assert(class_has_node(g.nodes, g.edges[i].from));
            let a = choose|a: int| 0 <= a < g.nodes.len() && g.nodes[a].id == g.edges[i].from;
            let b = choose|b: int| 0 <= b < g.nodes.len() && g.nodes[b].id == g.edges[i].to;
            assert(nodes[a] == g.nodes[a]);
            assert(nodes[b] == g.nodes[b]);
        }
    }
}

proof fn lemma_fewer_edges_keep_joined(g: ClassGraphView, p: spec_fn(ClassEdgeView) -> bool)
    ensures
        edges_joined(g) ==> edges_joined(ClassGraphView { nodes: g.nodes, edges: g.edges.filter(p) }),
{
    broadcast use vstd::seq_lib::group_filter_ensures;
    if edges_joined(g) {
        let edges = g.edges.filter(p);
        assert forall|i: int| 0 <= i < edges.len() implies class_has_node(g.nodes, #[trigger] edges[i].from)
            && class_has_node(g.nodes, edges[i].to) by {
            let e = edges[i];
            assert(edges.contains(e));
            g.edges.lemma_filter_contains_rev(p, e);
            let k = choose|k: int| 0 <= k < g.edges.len() && g.edges[k] == e;
            assert(class_has_node(g.nodes, g.edges[k].from) && class_has_node(g.nodes, g.edges[k].to));
        }
    }
}

proof fn lemma_edit_keeps(before: ClassGraphView, after: ClassGraphView, p: int)
    requires
        0 <= p < before.edges.len(),
        after.nodes == before.nodes,
        after.edges.len() == before.edges.len(),
        forall|i: int| 0 <= i < before.edges.len() && i != p ==> after.edges[i] == before.edges[i],
        after.edges[p].from == before.edges[p].from,
        after.edges[p].to == before.edges[p].to,
    ensures
        edges_joined(before) ==> edges_joined(after),
{
    if edges_joined(before) {
        assert forall|i: int| 0 <= i < after.edges.len() implies class_has_node(after.nodes, #[trigger] after.edges[i].from)
            && class_has_node(after.nodes, after.edges[i].to) by {
            assert(class_has_node(before.nodes, before.edges[i].from));
        }
    }
}

proof fn lemma_node_edit_keeps(before: ClassGraphView, nodes: Seq<ClassNodeView>, k: int)
    requires
        0 <= k < before.nodes.len(),
        nodes.len() == before.nodes.len(),
        forall|i: int| 0 <= i < nodes.len() ==> nodes[i].id == before.nodes[i].id,
    ensures
        edges_joined(before) ==> edges_joined(ClassGraphView { nodes, edges: before.edges }),
{
    if edges_joined(before) {
        assert forall|i: int| 0 <= i < before.edges.len() implies class_has_node(nodes, #[trigger] before.edges[i].from)
            && class_has_node(nodes, before.edges[i].to) by {
            assert(class_has_node(before.nodes, before.edges[i].from));
            let a = choose|a: int| 0 <= a < before.nodes.len() && before.nodes[a].id == before.edges[i].from;
            let b = choose|b: int| 0 <= b < before.nodes.len() && before.nodes[b].id == before.edges[i].to;
            assert(nodes[a].id == before.edges[i].from);
            assert(nodes[b].id == before.edges[i].to);
        }
    }
}

proof fn lemma_remove_node_keeps_joined(g: ClassGraphView, id: NodeId)
    ensures
        edges_joined(g) ==> edges_joined(
            ClassGraphView { nodes: g.nodes.filter(other_id(id)), edges: g.edges.filter(not_touching(id)) },
        ),
{
    broadcast use vstd::seq_lib::group_filter_ensures;
    if edges_joined(g) {
        let nodes = g.nodes.filter(other_id(id));
        let edges = g.edges.filter(not_touching(id));
        assert forall|i: int| 0 <= i < edges.len() implies class_has_node(nodes, #[trigger] edges[i].from)
            && class_has_node(nodes, edges[i].to) by {
            let e = edges[i];
            assert(not_touching(id)(e));
            assert(edges.contains(e));
            g.edges.lemma_filter_contains_rev(not_touching(id), e);
            let k = choose|k: int| 0 <= k < g.edges.len() && g.edges[k] == e;
            assert(class_has_node(g.nodes, g.edges[k].from) && class_has_node(g.nodes, g.edges[k].to));
            let a = choose|a: int| 0 <= a < g.nodes.len() && g.nodes[a].id == e.from;
            let b = choose|b: int| 0 <= b < g.nodes.len() && g.nodes[b].id == e.to;
            assert(other_id(id)(g.nodes[a]));
            assert(nodes.contains(g.nodes[a]));
            let a2 = choose|a2: int| 0 <= a2 < nodes.len() && nodes[a2] == g.nodes[a];
            assert(nodes[a2].id == e.from);
            assert(other_id(id)(g.nodes[b]));
            assert(nodes.contains(g.nodes[b]));
            let b2 = choose|b2: int| 0 <= b2 < nodes.len() && nodes[b2] == g.nodes[b];
            assert(nodes[b2].id == e.to);
        }
    }
}

impl ClassGraph {
    /// An empty diagram.
    pub fn new() -> (res: ClassGraph)
        ensures
            res@.nodes == Seq::<ClassNodeView>::empty(),
            res@.edges == Seq::<ClassEdgeView>::empty(),
            edges_joined(res@),
    {
        let res = ClassGraph { nodes: Vec::new(), edges: Vec::new() };
        assert(res@.nodes =~= Seq::<ClassNodeView>::empty());
        assert(res@.edges =~= Seq::<ClassEdgeView>::empty());
        res
    }

    /// A diagram as it was stored.
    pub fn from_parts(nodes: Vec<ClassDiagramNode>, edges: Vec<ClassDiagramEdge>) -> (res: ClassGraph)
        ensures
            res@ == (ClassGraphView { nodes: class_nodes_view(nodes@), edges: class_edges_view(edges@) }),
    {
        ClassGraph { nodes, edges }
    }

    pub fn nodes(&self) -> (res: &[ClassDiagramNode])
        ensures
            class_nodes_view(res@) == self@.nodes,
    {
        self.nodes.as_slice()
    }

    pub fn edges(&self) -> (res: &[ClassDiagramEdge])
        ensures
            class_edges_view(res@) == self@.edges,
    {
        self.edges.as_slice()
    }

    /// The nodes, to be changed in place.
    pub fn nodes_mut(&mut self) -> (res: &mut Vec<ClassDiagramNode>)
        ensures
            class_nodes_view(res@) == old(self)@.nodes,
            final(self)@ == (ClassGraphView { nodes: class_nodes_view(final(res)@), edges: old(self)@.edges }),
    {
        &mut self.nodes
    }

    /// The relations, to be changed in place.
    pub fn edges_mut(&mut self) -> (res: &mut Vec<ClassDiagramEdge>)
        ensures
            class_edges_view(res@) == old(self)@.edges,
            final(self)@ == (ClassGraphView { nodes: old(self)@.nodes, edges: class_edges_view(final(res)@) }),
    {
        &mut self.edges
    }

    pub fn node_count(&self) -> (res: usize)
        ensures
            res == self@.nodes.len(),
    {
        self.nodes.len()
    }

    pub fn edge_count(&self) -> (res: usize)
        ensures
            res == self@.edges.len(),
    {
        self.edges.len()
    }

    fn node_index(&self, id: NodeId) -> (res: Option<usize>)
        ensures
            match res {
                Some(i) => i == first_where(self@.nodes, with_id(id)) && i < self@.nodes.len(),
                None => first_where(self@.nodes, with_id(id)) == -1,
            },
    {
        let ghost p = with_id(id);
        let mut i: usize = 0;
        while i < self.nodes.len()
            invariant
                p == with_id(id),
                i <= self.nodes@.len(),
                forall|j: int| 0 <= j < i ==> !p(#[trigger] self@.nodes[j]),
            decreases self.nodes@.len() - i,
        {
            assert(self@.nodes[i as int] == self.nodes@[i as int]@);
            if self.nodes[i].id() == id {
                proof {
                    lemma_first_where(self@.nodes, p, i as int);
                }
                return Some(i);
            }
            i += 1;
        }
        proof {
            lemma_first_where_none(self@.nodes, p);
        }
        None
    }

    fn class_index(&self, class_id: Id) -> (res: Option<usize>)
        ensures
            match res {
                Some(i) => i == first_where(self@.nodes, of_class(class_id)) && i < self@.nodes.len(),
                None => first_where(self@.nodes, of_class(class_id)) == -1,
            },
    {
        let ghost p = of_class(class_id);
        let mut i: usize = 0;
        while i < self.nodes.len()
            invariant
                p == of_class(class_id),
                i <= self.nodes@.len(),
                forall|j: int| 0 <= j < i ==> !p(#[trigger] self@.nodes[j]),
            decreases self.nodes@.len() - i,
        {
            assert(self@.nodes[i as int] == self.nodes@[i as int]@);
            if self.nodes[i].class_id() == class_id {
                proof {
                    lemma_first_where(self@.nodes, p, i as int);
                }
                return Some(i);
            }
            i += 1;
        }
        proof {
            lemma_first_where_none(self@.nodes, p);
        }
        None
    }

    fn edge_index(&self, from: NodeId, to: NodeId) -> (res: Option<usize>)
        ensures
            match res {
                Some(i) => i == first_where(self@.edges, between(from, to)) && i < self@.edges.len(),
                None => first_where(self@.edges, between(from, to)) == -1,
            },
    {
        let ghost p = between(from, to);
        let mut i: usize = 0;
        while i < self.edges.len()
            invariant
                p == between(from, to),
                i <= self.edges@.len(),
                forall|j: int| 0 <= j < i ==> !p(#[trigger] self@.edges[j]),
            decreases self.edges@.len() - i,
        {
            assert(self@.edges[i as int] == self.edges@[i as int]@);
            if self.edges[i].from() == from && self.edges[i].to() == to {
                proof {
                    lemma_first_where(self@.edges, p, i as int);
                }
                return Some(i);
            }
            i += 1;
        }
        proof {
            lemma_first_where_none(self@.edges, p);
        }
        None
    }

    /// The first node with that identifier.
    pub fn find_node(&self, id: NodeId) -> (res: Option<&ClassDiagramNode>)
        ensures
            match res {
                Some(n) => first_where(self@.nodes, with_id(id)) >= 0
                    && n@ == self@.nodes[first_where(self@.nodes, with_id(id))],
                None => first_where(self@.nodes, with_id(id)) == -1,
            },
    {
        match self.node_index(id) {
            Some(i) => Some(&self.nodes[i]),
            None => None,
        }
    }

    /// The first node of the class.
    pub fn find_node_by_class(&self, class_id: Id) -> (res: Option<&ClassDiagramNode>)
        ensures
            match res {
                Some(n) => first_where(self@.nodes, of_class(class_id)) >= 0
                    && n@ == self@.nodes[first_where(self@.nodes, of_class(class_id))],
                None => first_where(self@.nodes, of_class(class_id)) == -1,
            },
    {
        match self.class_index(class_id) {
            Some(i) => Some(&self.nodes[i]),
            None => None,
        }
    }

    /// Whether the class has a node on the diagram.
    pub fn is_class_on_diagram(&self, class_id: Id) -> (res: bool)
        ensures
            res == (first_where(self@.nodes, of_class(class_id)) >= 0),
    {
        self.class_index(class_id).is_some()
    }

    /// The first relation from `from` to `to`.
    pub fn find_edge(&self, from: NodeId, to: NodeId) -> (res: Option<&ClassDiagramEdge>)
        ensures
            match res {
                Some(e) => first_where(self@.edges, between(from, to)) >= 0
                    && e@ == self@.edges[first_where(self@.edges, between(from, to))],
                None => first_where(self@.edges, between(from, to)) == -1,
            },
    {
        match self.edge_index(from, to) {
            Some(i) => Some(&self.edges[i]),
            None => None,
        }
    }

    /// The first node with the identifier, to be changed in place.
    pub fn find_node_mut(&mut self, id: NodeId) -> (res: Option<&mut ClassDiagramNode>)
        ensures
            match res {
                Some(n) => {
                    let i = first_where(old(self)@.nodes, with_id(id));
                    &&& i >= 0
                    &&& n@ == old(self)@.nodes[i]
                    &&& final(self)@ == (ClassGraphView { nodes: old(self)@.nodes.update(i, final(n)@), ..old(self)@ })
                },
                None => first_where(old(self)@.nodes, with_id(id)) == -1 && final(self)@ == old(self)@,
            },
    {
        match self.node_index(id) {
            Some(i) => {
                proof {
                    lemma_nodes_view_update(self.nodes@, i as int);
                }
                Some(&mut self.nodes[i])
            },
            None => None,
        }
    }

    /// The first node of the class, to be changed in place.
    pub fn find_node_by_class_mut(&mut self, class_id: Id) -> (res: Option<&mut ClassDiagramNode>)
        ensures
            match res {
                Some(n) => {
                    let i = first_where(old(self)@.nodes, of_class(class_id));
                    &&& i >= 0
                    &&& n@ == old(self)@.nodes[i]
                    &&& final(self)@ == (ClassGraphView { nodes: old(self)@.nodes.update(i, final(n)@), ..old(self)@ })
                },
                None => first_where(old(self)@.nodes, of_class(class_id)) == -1 && final(self)@ == old(self)@,
            },
    {
        match self.class_index(class_id) {
            Some(i) => {
                proof {
                    lemma_nodes_view_update(self.nodes@, i as int);
                }
                Some(&mut self.nodes[i])
            },
            None => None,
        }
    }

    /// The first relation from one node to the other, to be changed in place.
    pub fn find_edge_mut(&mut self, from: NodeId, to: NodeId) -> (res: Option<&mut ClassDiagramEdge>)
        ensures
            match res {
                Some(e) => {
                    let i = first_where(old(self)@.edges, between(from, to));
                    &&& i >= 0
                    &&& e@ == old(self)@.edges[i]
                    &&& final(self)@ == (ClassGraphView { edges: old(self)@.edges.update(i, final(e)@), ..old(self)@ })
                },
                None => first_where(old(self)@.edges, between(from, to)) == -1 && final(self)@ == old(self)@,
            },
    {
        match self.edge_index(from, to) {
            Some(i) => {
                proof {
                    lemma_edges_view_update(self.edges@, i as int);
                }
                Some(&mut self.edges[i])
            },
            None => None,
        }
    }

    /// Keeps the relations that pass, in order.
    fn retain_edges<F: Fn(&ClassDiagramEdge) -> bool>(&mut self, keep: F, Ghost(p): Ghost<spec_fn(ClassEdgeView) -> bool>)
        requires
            forall|e: &ClassDiagramEdge| #[trigger] keep.requires((e,)),
            forall|e: &ClassDiagramEdge, r: bool| keep.ensures((e,), r) ==> r == p(e@),
        ensures
            final(self)@.nodes == old(self)@.nodes,
            final(self)@.edges == old(self)@.edges.filter(p),
    {
        let ghost before = self@;
        let mut i: usize = 0;
        let mut k: usize = 0;
        let total: usize = self.edges.len();
        while i < self.edges.len()
            invariant
                forall|e: &ClassDiagramEdge| #[trigger] keep.requires((e,)),
                forall|e: &ClassDiagramEdge, r: bool| keep.ensures((e,), r) ==> r == p(e@),
                self@.nodes == before.nodes,
                total == before.edges.len(),
                k <= before.edges.len(),
                i <= self@.edges.len(),
                self@.edges =~= before.edges.take(k as int).filter(p) + before.edges.skip(k as int),
                i == before.edges.take(k as int).filter(p).len(),
            decreases self@.edges.len() - i,
        {
            let ghost done = before.edges.take(k as int).filter(p);
            let ghost cur = self@.edges;
            proof {
                assert(cur.len() == done.len() + before.edges.len() - k);
                lemma_filter_step(before.edges, p, k as int);
                assert(cur[i as int] == before.edges[k as int]);
            }
            assert(cur[i as int] == self.edges@[i as int]@);
            let stays = keep(&self.edges[i]);
            if !stays {
                self.edges.remove(i);
                assert(self@.edges =~= cur.remove(i as int));
            } else {
                i += 1;
            }
            assert(self@.edges =~= before.edges.take(k + 1).filter(p) + before.edges.skip(k + 1));
            k += 1;
        }
        proof {
            assert(k == before.edges.len()) by {
                if k < before.edges.len() {
                    assert(self@.edges.len() > i);
                }
            }
            assert(before.edges.take(k as int) =~= before.edges);
            assert(before.edges.skip(k as int) =~= Seq::<ClassEdgeView>::empty());
        }
    }

    /// Keeps the nodes that pass, in order.
    fn retain_nodes<F: Fn(&ClassDiagramNode) -> bool>(&mut self, keep: F, Ghost(p): Ghost<spec_fn(ClassNodeView) -> bool>)
        requires
            forall|n: &ClassDiagramNode| #[trigger] keep.requires((n,)),
            forall|n: &ClassDiagramNode, r: bool| keep.ensures((n,), r) ==> r == p(n@),
        ensures
            final(self)@.edges == old(self)@.edges,
            final(self)@.nodes == old(self)@.nodes.filter(p),
    {
        let ghost before = self@;
        let mut i: usize = 0;
        let mut k: usize = 0;
        let total: usize = self.nodes.len();
        while i < self.nodes.len()
            invariant
                forall|n: &ClassDiagramNode| #[trigger] keep.requires((n,)),
                forall|n: &ClassDiagramNode, r: bool| keep.ensures((n,), r) ==> r == p(n@),
                self@.edges == before.edges,
                total == before.nodes.len(),
                k <= before.nodes.len(),
                i <= self@.nodes.len(),
                self@.nodes =~= before.nodes.take(k as int).filter(p) + before.nodes.skip(k as int),
                i == before.nodes.take(k as int).filter(p).len(),
            decreases self@.nodes.len() - i,
        {
            let ghost done = before.nodes.take(k as int).filter(p);
            let ghost cur = self@.nodes;
            proof {
                assert(cur.len() == done.len() + before.nodes.len() - k);
                lemma_filter_step(before.nodes, p, k as int);
                assert(cur[i as int] == before.nodes[k as int]);
            }
            assert(cur[i as int] == self.nodes@[i as int]@);
            let stays = keep(&self.nodes[i]);
            if !stays {
                self.nodes.remove(i);
                assert(self@.nodes =~= cur.remove(i as int));
            } else {
                i += 1;
            }
            assert(self@.nodes =~= before.nodes.take(k + 1).filter(p) + before.nodes.skip(k + 1));
            k += 1;
        }
        proof {
            assert(k == before.nodes.len()) by {
                if k < before.nodes.len() {
                    assert(self@.nodes.len() > i);
                }
            }
            assert(before.nodes.take(k as int) =~= before.nodes);
            assert(before.nodes.skip(k as int) =~= Seq::<ClassNodeView>::empty());
        }
    }

    /// Takes a node off the diagram, with every relation that touches it.
    pub fn remove_node(&mut self, node_id: NodeId)
        ensures
            final(self)@.nodes == old(self)@.nodes.filter(other_id(node_id)),
            final(self)@.edges == old(self)@.edges.filter(not_touching(node_id)),
            edges_joined(old(self)@) ==> edges_joined(final(self)@),
    {
        let ghost before = self@;
        let keep_node = (|n: &ClassDiagramNode| -> (r: bool)
            ensures
                r == (n@.id != node_id),
        { n.id() != node_id });
        self.retain_nodes(keep_node, Ghost(other_id(node_id)));
        let keep_edge = (|e: &ClassDiagramEdge| -> (r: bool)
            ensures
                r == (e@.from != node_id && e@.to != node_id),
        { e.from() != node_id && e.to() != node_id });
        self.retain_edges(keep_edge, Ghost(not_touching(node_id)));
        proof {
            lemma_remove_node_keeps_joined(before, node_id);
        }
    }

    /// Takes a class off the diagram: its first node goes, with every
    /// relation that touches it; nothing happens where it has none.
    pub fn remove_class_node(&mut self, class_id: Id)
        ensures
            ({
                let k = first_where(old(self)@.nodes, of_class(class_id));
                if k >= 0 {
                    let id = old(self)@.nodes[k].id;
                    &&& final(self)@.nodes == old(self)@.nodes.filter(other_id(id))
                    &&& final(self)@.edges == old(self)@.edges.filter(not_touching(id))
                } else {
                    final(self)@ == old(self)@
                }
            }),
            edges_joined(old(self)@) ==> edges_joined(final(self)@),
    {
        if let Some(i) = self.class_index(class_id) {
            assert(self@.nodes[i as int] == self.nodes@[i as int]@);
            let id = self.nodes[i].id();
            self.remove_node(id);
        }
    }

    fn has_relation_of(&self, from: NodeId, to: NodeId, kind: RelationKind) -> (res: bool)
        ensures
            res == has_relation(self@.edges, from, to, kind),
    {
        let mut i: usize = 0;
        while i < self.edges.len()
            invariant
                i <= self.edges@.len(),
                forall|j: int| 0 <= j < i ==> !(self@.edges[j].from == from && self@.edges[j].to == to
                    && self@.edges[j].kind == kind),
            decreases self.edges@.len() - i,
        {
            assert(self@.edges[i as int] == self.edges@[i as int]@);
            if self.edges[i].from() == from && self.edges[i].to() == to && self.edges[i].kind() == kind {
                return true;
            }
            i += 1;
        }
        false
    }

    /// Draws a relation between two different nodes of the diagram, once per
    /// kind and direction; any other request changes nothing.
    pub fn add_relation(&mut self, from: NodeId, to: NodeId, kind: RelationKind, label: Option<String>)
        ensures
            final(self)@.nodes == old(self)@.nodes,
            final(self)@.edges == with_relation(old(self)@, from, to, kind, opt_view(label), None, None),
            edges_joined(old(self)@) ==> edges_joined(final(self)@),
    {
        self.add_relation_with_multiplicities(from, to, kind, label, None, None);
    }

    /// [`ClassGraph::add_relation`], with the multiplicities of both ends.
    #[verifier::spinoff_prover]
    pub fn add_relation_with_multiplicities(
        &mut self,
        from: NodeId,
        to: NodeId,
        kind: RelationKind,
        label: Option<String>,
        source_multiplicity: Option<Multiplicity>,
        target_multiplicity: Option<Multiplicity>,
    )
        ensures
            final(self)@.nodes == old(self)@.nodes,
            final(self)@.edges == with_relation(
                old(self)@,
                from,
                to,
                kind,
                opt_view(label),
                source_multiplicity,
                target_multiplicity,
            ),
            edges_joined(old(self)@) ==> edges_joined(final(self)@),
    {
        let ghost before = self@;
        let has_from = self.node_index(from).is_some();
        let has_to = self.node_index(to).is_some();
        proof {
            if has_from {
                lemma_first_where_found(before.nodes, with_id(from));
            } else {
                lemma_first_where_absent(before.nodes, with_id(from));
            }
            if has_to {
                lemma_first_where_found(before.nodes, with_id(to));
            } else {
                lemma_first_where_absent(before.nodes, with_id(to));
            }
        }
        if from != to && has_from && has_to && !self.has_relation_of(from, to, kind) {
            let mut edge = ClassDiagramEdge::new(from, to, kind, label);
            edge.set_source_multiplicity(source_multiplicity);
            edge.set_target_multiplicity(target_multiplicity);
            self.edges.push(edge);
            assert(self@.edges =~= with_relation(
                before,
                from,
                to,
                kind,
                opt_view(label),
                source_multiplicity,
                target_multiplicity,
            ));
            assert(self@.nodes =~= before.nodes);
            proof {
                if edges_joined(before) {
                    assert forall|i: int| 0 <= i < self@.edges.len() implies class_has_node(
                        self@.nodes,
                        #[trigger] self@.edges[i].from,
                    ) && class_has_node(self@.nodes, self@.edges[i].to) by {
                        if i < before.edges.len() {
                            assert(self@.edges[i] == before.edges[i]);
                            assert(class_has_node(before.nodes, before.edges[i].from));
                        } else {
                            let a = choose|a: int| 0 <= a < before.nodes.len() && with_id(from)(before.nodes[a]);
                            let b = choose|b: int| 0 <= b < before.nodes.len() && with_id(to)(before.nodes[b]);
                            assert(before.nodes[a].id == from);
                            assert(before.nodes[b].id == to);
                            assert(i == before.edges.len());
                            assert(self@.edges[i].from == from && self@.edges[i].to == to);
                            assert(class_has_node(before.nodes, from));
                            assert(class_has_node(before.nodes, to));
                        }
                    }
                }
            }
        }
    }

    /// Removes every relation from `from` to `to`.
    pub fn remove_relation(&mut self, from: NodeId, to: NodeId)
        ensures
            final(self)@.nodes == old(self)@.nodes,
            final(self)@.edges == old(self)@.edges.filter(not_between(from, to)),
            edges_joined(old(self)@) ==> edges_joined(final(self)@),
    {
        let ghost before = self@;
        let keep_edge = (|e: &ClassDiagramEdge| -> (r: bool)
            ensures
                r == !(e@.from == from && e@.to == to),
        { !(e.from() == from && e.to() == to) });
        self.retain_edges(keep_edge, Ghost(not_between(from, to)));
        proof {
            lemma_fewer_edges_keep_joined(before, not_between(from, to));
        }
    }

    /// Changes the kind of the first relation from `from` to `to`; an
    /// association with no direction yet becomes directed. Returns whether
    /// there was such a relation.
    pub fn update_edge_kind(&mut self, from: NodeId, to: NodeId, kind: RelationKind) -> (res: bool)
        ensures
            res == (first_where(old(self)@.edges, between(from, to)) >= 0),
            final(self)@.nodes == old(self)@.nodes,
            final(self)@.edges == edit_edge(old(self)@.edges, from, to, |e: ClassEdgeView| with_kind(e, kind)),
            edges_joined(old(self)@) ==> edges_joined(final(self)@),
    {
        let ghost before = self@;
        match self.edge_index(from, to) {
            Some(p) => {
                self.edges[p].set_kind(kind);
                proof {
                    lemma_edit_keeps(before, self@, p as int);
                }
                true
            },
            None => false,
        }
    }

    /// Changes the label of the first relation from `from` to `to`.
    pub fn update_edge_label(&mut self, from: NodeId, to: NodeId, label: Option<String>) -> (res: bool)
        ensures
            res == (first_where(old(self)@.edges, between(from, to)) >= 0),
            final(self)@.nodes == old(self)@.nodes,
            final(self)@.edges == edit_edge(
                old(self)@.edges,
                from,
                to,
                |e: ClassEdgeView| ClassEdgeView { label: opt_view(label), ..e },
            ),
            edges_joined(old(self)@) ==> edges_joined(final(self)@),
    {
        let ghost before = self@;
        match self.edge_index(from, to) {
            Some(p) => {
                self.edges[p].set_label(label);
                proof {
                    lemma_edit_keeps(before, self@, p as int);
                }
                true
            },
            None => false,
        }
    }

    /// Pins the ports of the first relation from `from` to `to`.
    pub fn update_edge_ports(
        &mut self,
        from: NodeId,
        to: NodeId,
        source_port: Option<PortSide>,
        target_port: Option<PortSide>,
    ) -> (res: bool)
        ensures
            res == (first_where(old(self)@.edges, between(from, to)) >= 0),
            final(self)@.nodes == old(self)@.nodes,
            final(self)@.edges == edit_edge(
                old(self)@.edges,
                from,
                to,
                |e: ClassEdgeView| ClassEdgeView { source_port, target_port, ..e },
            ),
            edges_joined(old(self)@) ==> edges_joined(final(self)@),
    {
        let ghost before = self@;
        match self.edge_index(from, to) {
            Some(p) => {
                self.edges[p].set_ports(source_port, target_port);
                proof {
                    lemma_edit_keeps(before, self@, p as int);
                }
                true
            },
            None => false,
        }
    }

    /// Sets whether the first relation from `from` to `to` is directed.
    pub fn update_edge_directed(&mut self, from: NodeId, to: NodeId, directed: bool) -> (res: bool)
        ensures
            res == (first_where(old(self)@.edges, between(from, to)) >= 0),
            final(self)@.nodes == old(self)@.nodes,
            final(self)@.edges == edit_edge(old(self)@.edges, from, to, set_direction(directed)),
            edges_joined(old(self)@) ==> edges_joined(final(self)@),
    {
        let ghost before = self@;
        match self.edge_index(from, to) {
            Some(p) => {
                self.edges[p].set_directed(directed);
                proof {
                    lemma_edit_keeps(before, self@, p as int);
                }
                true
            },
            None => false,
        }
    }

    /// Sets the source multiplicity of the first relation from `from` to `to`.
    pub fn update_edge_source_multiplicity(&mut self, from: NodeId, to: NodeId, mult: Option<Multiplicity>) -> (res: bool)
        ensures
            res == (first_where(old(self)@.edges, between(from, to)) >= 0),
            final(self)@.nodes == old(self)@.nodes,
            final(self)@.edges == edit_edge(
                old(self)@.edges,
                from,
                to,
                |e: ClassEdgeView| ClassEdgeView { source_multiplicity: mult, ..e },
            ),
            edges_joined(old(self)@) ==> edges_joined(final(self)@),
    {
        let ghost before = self@;
        match self.edge_index(from, to) {
            Some(p) => {
                self.edges[p].set_source_multiplicity(mult);
                proof {
                    lemma_edit_keeps(before, self@, p as int);
                }
                true
            },
            None => false,
        }
    }

    /// Sets the target multiplicity of the first relation from `from` to `to`.
    pub fn update_edge_target_multiplicity(&mut self, from: NodeId, to: NodeId, mult: Option<Multiplicity>) -> (res: bool)
        ensures
            res == (first_where(old(self)@.edges, between(from, to)) >= 0),
            final(self)@.nodes == old(self)@.nodes,
            final(self)@.edges == edit_edge(
                old(self)@.edges,
                from,
                to,
                |e: ClassEdgeView| ClassEdgeView { target_multiplicity: mult, ..e },
            ),
            edges_joined(old(self)@) ==> edges_joined(final(self)@),
    {
        let ghost before = self@;
        match self.edge_index(from, to) {
            Some(p) => {
                self.edges[p].set_target_multiplicity(mult);
                proof {
                    lemma_edit_keeps(before, self@, p as int);
                }
                true
            },
            None => false,
        }
    }

    /// Turns the first relation from `from` to `to` around (ends, ports and
    /// multiplicities swap) and moves it to the end. Returns whether there
    /// was such a relation.
    pub fn reverse_relation(&mut self, from: NodeId, to: NodeId) -> (res: bool)
        ensures
            res == (first_where(old(self)@.edges, between(from, to)) >= 0),
            final(self)@.nodes == old(self)@.nodes,
            final(self)@.edges == reverse_edge(old(self)@.edges, from, to),
            edges_joined(old(self)@) ==> edges_joined(final(self)@),
    {
        let ghost before = self@;
        match self.edge_index(from, to) {
            Some(p) => {
                let mut edge = self.edges.remove(p);
                assert(edge@ == before.edges[p as int]);
                edge.reverse();
                self.edges.push(edge);
                assert(self@.edges =~= reverse_edge(before.edges, from, to));
                proof {
                    if edges_joined(before) {
                        assert forall|i: int| 0 <= i < self@.edges.len() implies class_has_node(
                            self@.nodes,
                            #[trigger] self@.edges[i].from,
                        ) && class_has_node(self@.nodes, self@.edges[i].to) by {
                            if i < p {
                                assert(self@.edges[i] == before.edges[i]);
                                assert(class_has_node(before.nodes, before.edges[i].from));
                            } else if i < self@.edges.len() - 1 {
                                assert(self@.edges[i] == before.edges[i + 1]);
                                assert(class_has_node(before.nodes, before.edges[i + 1].from));
                            } else {
                                assert(class_has_node(before.nodes, before.edges[p as int].from));
                            }
                        }
                    }
                }
                true
            },
            None => false,
        }
    }

    /// Moves the first node with that identifier.
    pub fn update_node_position(&mut self, id: NodeId, x: i64, y: i64)
        ensures
            final(self)@ == class_node_moved(old(self)@, id, x, y),
            final(self)@.edges == old(self)@.edges,
            final(self)@.nodes == ({
                let k = first_where(old(self)@.nodes, with_id(id));
                if k >= 0 {
                    old(self)@.nodes.update(k, ClassNodeView { x, y, ..old(self)@.nodes[k] })
                } else {
                    old(self)@.nodes
                }
            }),
            edges_joined(old(self)@) ==> edges_joined(final(self)@),
    {
        let ghost before = self@;
        if let Some(k) = self.node_index(id) {
            self.nodes[k].set_position(x, y);
            assert(self@.nodes =~= before.nodes.update(k as int, ClassNodeView { x, y, ..before.nodes[k as int] }));
            proof {
                lemma_node_edit_keeps(before, self@.nodes, k as int);
            }
        }
    }

    /// Resizes the first node of the class for a number of attributes.
    pub fn update_class_dimensions(&mut self, class_id: Id, attr_count: usize)
        ensures
            final(self)@.edges == old(self)@.edges,
            final(self)@.nodes == ({
                let k = first_where(old(self)@.nodes, of_class(class_id));
                if k >= 0 {
                    old(self)@.nodes.update(
                        k,
                        ClassNodeView { height: class_node_height(attr_count as nat), ..old(self)@.nodes[k] },
                    )
                } else {
                    old(self)@.nodes
                }
            }),
            edges_joined(old(self)@) ==> edges_joined(final(self)@),
    {
        let ghost before = self@;
        if let Some(k) = self.class_index(class_id) {
            self.nodes[k].update_dimensions(attr_count);
            assert(self@.nodes =~= before.nodes.update(
                k as int,
                ClassNodeView { height: class_node_height(attr_count as nat), ..before.nodes[k as int] },
            ));
            proof {
                lemma_node_edit_keeps(before, self@.nodes, k as int);
            }
        }
    }

    /// The identifiers of the nodes, in order.
    fn node_ids(&self) -> (res: Vec<NodeId>)
        ensures
            forall|id: NodeId| res@.contains(id) <==> class_has_node(self@.nodes, id),
    {
        let mut out: Vec<NodeId> = Vec::new();
        let mut i: usize = 0;
        while i < self.nodes.len()
            invariant
                i <= self.nodes@.len(),
                out@.len() == i,
                forall|j: int| 0 <= j < i ==> out@[j] == #[trigger] self@.nodes[j].id,
            decreases self.nodes@.len() - i,
        {
            assert(self@.nodes[i as int] == self.nodes@[i as int]@);
            out.push(self.nodes[i].id());
            i += 1;
        }
        assert forall|id: NodeId| out@.contains(id) <==> class_has_node(self@.nodes, id) by {
            if out@.contains(id) {
                let j = choose|j: int| 0 <= j < out@.len() && out@[j] == id;
                assert(self@.nodes[j].id == id);
            }
            if class_has_node(self@.nodes, id) {
                let j = choose|j: int| 0 <= j < self@.nodes.len() && self@.nodes[j].id == id;
                assert(out@[j] == id);
            }
        }
        out
    }

    /// Brings the diagram in line with the information model: nodes of
    /// classes that are gone go, relations that lost an end go, and every
    /// node is resized for its class's attributes. Afterwards every relation
    /// joins two nodes.
    pub fn sync_with_information_model(&mut self, info_model: &InformationModel)
        ensures
            final(self)@ == synced_with_model(old(self)@, info_model@),
            edges_joined(final(self)@),
    {
        broadcast use vstd::seq_lib::group_filter_ensures;
        let ghost classes = info_model@;
        let keep_node = (|n: &ClassDiagramNode| -> (r: bool)
            ensures
                r == class_in(info_model@)(n@),
        {
            let found = info_model.get_class(n.class_id());
            found.is_some()
        });
        self.retain_nodes(keep_node, Ghost(class_in(classes)));
        let ghost kept = self@.nodes;
        let ids = self.node_ids();
        let keep_edge = (|e: &ClassDiagramEdge| -> (r: bool)
            ensures
                r == (ids@.contains(e@.from) && ids@.contains(e@.to)),
        { crate::seqs::contains_id(&ids, e.from()) && crate::seqs::contains_id(&ids, e.to()) });
        self.retain_edges(keep_edge, Ghost(joins(kept)));
        let ghost mid = self@;
        let n = self.nodes.len();
        let mut i: usize = 0;
        while i < n
            invariant
                n == self.nodes@.len(),
                n == kept.len(),
                i <= n,
                classes == info_model@,
                self@.edges == mid.edges,
                mid.nodes == kept,
                forall|j: int| 0 <= j < n ==> class_in(classes)(#[trigger] kept[j]),
                forall|j: int| 0 <= j < i ==> #[trigger] self@.nodes[j] == resized(classes)(kept[j]),
                forall|j: int| i <= j < n ==> #[trigger] self@.nodes[j] == kept[j],
            decreases n - i,
        {
            assert(self@.nodes[i as int] == self.nodes@[i as int]@);
            let class_id = self.nodes[i].class_id();
            proof {
                assert(class_in(classes)(kept[i as int]));
                let w = choose|w: int| 0 <= w < classes.len() && classes[w].id == class_id;
                lemma_first_where_some(classes, class_with_id(class_id), w);
            }
            let ghost pre = self.nodes@;
            let ghost pre_view = self@.nodes;
            assert(forall|j: int| 0 <= j < n ==> #[trigger] pre_view[j] == pre[j]@);
            match info_model.get_class(class_id) {
                Some(c) => {
                    let attrs = c.attributes();
                    let count = attrs.len();
                    assert(count == c@.attributes.len());
                    proof {
                        let f = choose|f: int| 0 <= f < classes.len() && classes[f].id == class_id
                            && c@ == classes[f] && forall|j: int| 0 <= j < f ==> classes[j].id != class_id;
                        assert(is_first_where(classes, class_with_id(class_id), f));
                        lemma_first_where(classes, class_with_id(class_id), f);
                    }
                    self.nodes[i].update_dimensions(count);
                    assert(self.nodes@[i as int]@ == resized(classes)(kept[i as int]));
                },
                None => {
                    assert(false);
                },
            }
            assert forall|j: int| 0 <= j < n && j != i implies #[trigger] self.nodes@[j] == pre[j] by {}
            assert(forall|j: int| 0 <= j < n ==> #[trigger] self@.nodes[j] == self.nodes@[j]@);
            assert(forall|j: int| 0 <= j < n && j != i ==> #[trigger] self@.nodes[j] == pre_view[j]);
            i += 1;
        }
        assert(self@.nodes =~= kept.map_values(resized(classes)));
        proof {
            assert forall|j: int| 0 <= j < self@.edges.len() implies class_has_node(
                self@.nodes,
                #[trigger] self@.edges[j].from,
            ) && class_has_node(self@.nodes, self@.edges[j].to) by {
                let e = self@.edges[j];
                assert(joins(kept)(e));
                let a = choose|a: int| 0 <= a < kept.len() && kept[a].id == e.from;
                let b = choose|b: int| 0 <= b < kept.len() && kept[b].id == e.to;
                assert(self@.nodes[a].id == e.from);
                assert(self@.nodes[b].id == e.to);
            }
        }
    }

    /// Places a class on the diagram, in the next cell of a three-wide grid
    /// of 260 by 160 pixel cells, sized for its attributes; a class already
    /// on the diagram keeps its node, whose identifier is returned.
    pub fn add_node(&mut self, class_id: Id, attr_count: usize) -> (res: NodeId)
        ensures
            first_where(old(self)@.nodes, of_class(class_id)) >= 0 ==> {
                &&& res == old(self)@.nodes[first_where(old(self)@.nodes, of_class(class_id))].id
                &&& final(self)@ == old(self)@
            },
            first_where(old(self)@.nodes, of_class(class_id)) == -1 ==> {
                &&& final(self)@.edges == old(self)@.edges
                &&& final(self)@.nodes == old(self)@.nodes.push(
                    ClassNodeView {
                        id: res,
                        class_id,
                        x: grid_across(old(self)@.nodes.len(), 3, 260),
                        y: grid_down(old(self)@.nodes.len(), 3, 160),
                        width: DEFAULT_CLASS_NODE_WIDTH,
                        height: class_node_height(attr_count as nat),
                    },
                )
            },
            edges_joined(old(self)@) ==> edges_joined(final(self)@),
            final(self)@ == class_added(old(self)@, class_id, attr_count as nat, res),
    {
        if let Some(i) = self.class_index(class_id) {
            return self.nodes[i].id();
        }
        let (x, y) = grid_position(self.nodes.len(), 3, 260, 160);
        let node = ClassDiagramNode::new(class_id, x, y, attr_count);
        let id = node.id();
        let ghost before = self@;
        self.nodes.push(node);
        assert(self@.nodes =~= before.nodes.push(class_nodes_view(self.nodes@).last()));
        assert(self@.edges =~= before.edges);
        proof {
            lemma_push_node_keeps_joined(before, self@.nodes.last());
        }
        id
    }
}

/// A class placed on a diagram where it was not is then on it once, at the
/// end: adding it again finds that node and changes nothing.
pub proof fn adding_a_class_places_it_once(nodes: Seq<ClassNodeView>, node: ClassNodeView)
    requires
        first_where(nodes, of_class(node.class_id)) == -1,
    ensures
        first_where(nodes.push(node), of_class(node.class_id)) == nodes.len(),
{
    let after = nodes.push(node);
    lemma_first_where_absent(nodes, of_class(node.class_id));
    assert forall|j: int| 0 <= j < nodes.len() implies !of_class(node.class_id)(#[trigger] after[j]) by {
        assert(after[j] == nodes[j]);
        assert(!of_class(node.class_id)(nodes[j]));
    }
    assert(is_first_where(after, of_class(node.class_id), nodes.len() as int));
    lemma_first_where(after, of_class(node.class_id), nodes.len() as int);
}

/// Removing a node removes it entirely: no node keeps its identifier and
/// no relation still touches it.
pub proof fn removed_node_leaves_no_trace(g: ClassGraphView, id: NodeId)
    ensures
        !class_has_node(g.nodes.filter(other_id(id)), id),
        forall|i: int| 0 <= i < g.edges.filter(not_touching(id)).len()
            ==> (#[trigger] g.edges.filter(not_touching(id))[i]).from != id
                && g.edges.filter(not_touching(id))[i].to != id,
{
    broadcast use vstd::seq_lib::group_filter_ensures;
    let nodes = g.nodes.filter(other_id(id));
    let edges = g.edges.filter(not_touching(id));
    if class_has_node(nodes, id) {
        let a = choose|a: int| 0 <= a < nodes.len() && nodes[a].id == id;
        assert(other_id(id)(nodes[a]));
    }
    assert forall|i: int| 0 <= i < edges.len() implies (#[trigger] edges[i]).from != id && edges[i].to != id by {
        assert(not_touching(id)(edges[i]));
    }
}

/// Turning a relation around twice gives it back as it was (ends, ports and
/// multiplicities), moved to the end, provided no relation ran the other
/// way before.
pub proof fn reversing_twice_restores_the_relation(edges: Seq<ClassEdgeView>, from: NodeId, to: NodeId)
    requires
        first_where(edges, between(from, to)) >= 0,
        first_where(edges, between(to, from)) == -1,
    ensures
        reverse_edge(reverse_edge(edges, from, to), to, from) == ({
            let p = first_where(edges, between(from, to));
            edges.remove(p).push(edges[p])
        }),
{
    let p = first_where(edges, between(from, to));
    lemma_first_where_found(edges, between(from, to));
    lemma_first_where_absent(edges, between(to, from));
    let once = edges.remove(p).push(reversed(edges[p]));
    assert(once == reverse_edge(edges, from, to));
    let last = once.len() - 1;
    assert forall|j: int| 0 <= j < last implies !between(to, from)(#[trigger] once[j]) by {
        if j < p {
            assert(once[j] == edges[j]);
        } else {
            assert(once[j] == edges[j + 1]);
        }
    }
    assert(between(to, from)(once[last]));
    assert(is_first_where(once, between(to, from), last));
    lemma_first_where(once, between(to, from), last);
    assert(reversed(reversed(edges[p])) == edges[p]);
    assert(once.remove(last) =~= edges.remove(p));
}

/// The rectangles of class nodes.
pub open spec fn class_boxes(nodes: Seq<ClassNodeView>) -> Seq<NodeBox> {
    nodes.map_values(|n: ClassNodeView| NodeBox { id: n.id, x: n.x, y: n.y, width: n.width, height: n.height })
}

/// Class relations as relations to attach, with the sides they keep.
pub open spec fn class_routes(edges: Seq<ClassEdgeView>) -> Seq<RouteEdge> {
    edges.map_values(
        |e: ClassEdgeView|
            RouteEdge {
                from: e.from,
                to: e.to,
                kind: e.kind,
                source_port: e.source_port,
                target_port: e.target_port,
                directed: edge_is_directed(e),
            },
    )
}

/// The relations after the first `p` assignments, each giving the first
/// relation between its two nodes its sides.
pub open spec fn ports_applied(edges: Seq<ClassEdgeView>, assigns: Seq<EdgePortAssignment>, p: int) -> Seq<
    ClassEdgeView,
>
    decreases p,
{
    if p <= 0 {
        edges
    } else {
        let a = assigns[p - 1];
        edit_edge(
            ports_applied(edges, assigns, p - 1),
            a.from_id,
            a.to_id,
            |e: ClassEdgeView| ClassEdgeView { source_port: Some(a.from_side), target_port: Some(a.to_side), ..e },
        )
    }
}

/// The relations of a class diagram with the sides the router assigns to
/// them where the nodes now stand.
pub open spec fn ports_refreshed(g: ClassGraphView) -> Seq<ClassEdgeView> {
    let assigns = port_assignments(class_boxes(g.nodes), class_routes(g.edges));
    ports_applied(g.edges, assigns, assigns.len() as int)
}

impl ClassGraph {
    /// Gives every relation the sides the router assigns to it where the
    /// nodes now stand, keeping sides with hysteresis.
    pub fn refresh_ports(&mut self)
        ensures
            final(self)@.nodes == old(self)@.nodes,
            final(self)@.edges == ports_refreshed(old(self)@),
            edges_joined(old(self)@) ==> edges_joined(final(self)@),
    {
        let ghost g = self@;
        let mut boxes: Vec<NodeBox> = Vec::new();
        let mut i: usize = 0;
        while i < self.nodes.len()
            invariant
                self@ == g,
                i <= self.nodes@.len(),
                boxes@ == class_boxes(g.nodes.take(i as int)),
            decreases self.nodes@.len() - i,
        {
            boxes.push(NodeBox::of_class_node(&self.nodes[i]));
            proof {
                assert(g.nodes[i as int] == self.nodes@[i as int]@);
                assert(g.nodes.take(i + 1) =~= g.nodes.take(i as int).push(g.nodes[i as int]));
            }
            i += 1;
        }
        let mut routes: Vec<RouteEdge> = Vec::new();
        let mut k: usize = 0;
        while k < self.edges.len()
            invariant
                self@ == g,
                k <= self.edges@.len(),
                routes@ == class_routes(g.edges.take(k as int)),
            decreases self.edges@.len() - k,
        {
            routes.push(RouteEdge::of_class_edge(&self.edges[k]));
            proof {
                assert(g.edges[k as int] == self.edges@[k as int]@);
                assert(g.edges.take(k + 1) =~= g.edges.take(k as int).push(g.edges[k as int]));
            }
            k += 1;
        }
        proof {
            assert(g.nodes.take(g.nodes.len() as int) =~= g.nodes);
            assert(g.edges.take(g.edges.len() as int) =~= g.edges);
        }
        let assigns = compute_port_assignments(boxes.as_slice(), routes.as_slice());
        proof {
            lemma_assignments_pinned(boxes@, routes@, assigns@);
        }
        let mut p: usize = 0;
        while p < assigns.len()
            invariant
                assigns@ == port_assignments(class_boxes(g.nodes), class_routes(g.edges)),
                p <= assigns@.len(),
                self@.nodes == g.nodes,
                self@.edges == ports_applied(g.edges, assigns@, p as int),
                edges_joined(g) ==> edges_joined(self@),
            decreases assigns@.len() - p,
        {
            let a = assigns[p];
            self.update_edge_ports(a.from_id, a.to_id, Some(a.from_side), Some(a.to_side));
            p += 1;
        }
    }
}

} // verus!
