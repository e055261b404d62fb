//! The concept diagram: concepts placed as nodes on a canvas and the
//! relations drawn between them.
//!
//! Positions and sizes are whole canvas pixels; the canvas snaps every
//! position to the grid.
use vstd::prelude::*;
use crate::concepts::{Concept, ConceptView};
use crate::ids::{random_id, Id};
use crate::seqs::{first_where, lemma_filter_step, lemma_first_where, lemma_first_where_none,
    lemma_first_where_some};

verus! {

/// The identifier of a diagram node.
pub type NodeId = Id;

/// The spacing of the canvas grid, in pixels.
pub const GRID_SIZE: u32 = 20;

/// The side of a node where a relation attaches.
#[derive(Debug, Clone, Copy, PartialEq, Eq, Structural)]
pub enum PortSide {
    Top,
    Right,
    Bottom,
    Left,
}

/// A coordinate moved to the nearest line of the grid, halfway points away
/// from zero.
pub open spec fn snapped(v: int) -> int {
    let g = GRID_SIZE as int;
    if v >= 0 {
        ((v + g / 2) / g) * g
    } else {
        -(((-v + g / 2) / g) * g)
    }
}

/// Moves a coordinate to the nearest line of the grid, halfway points away
/// from zero.
pub fn snap_to_grid(v: i64) -> (res: i64)
    requires
        i64::MIN + 10 <= v <= i64::MAX - 10,
    ensures
        res == snapped(v as int),
{
    let g: i128 = GRID_SIZE as i128;
    let w: i128 = v as i128;
    let r: i128 = if w >= 0 {
        ((w + g / 2) / g) * g
    } else {
        -(((-w + g / 2) / g) * g)
    };
    assert(w >= 0 ==> 0 <= ((w + 10) / 20) * 20 <= w + 10) by (nonlinear_arith);
    assert(w < 0 ==> 0 <= ((-w + 10) / 20) * 20 <= -w + 10) by (nonlinear_arith);
    r as i64
}

/// The side across from a side.
pub open spec fn opposite_side(s: PortSide) -> PortSide {
    match s {
        PortSide::Top => PortSide::Bottom,
        PortSide::Right => PortSide::Left,
        PortSide::Bottom => PortSide::Top,
        PortSide::Left => PortSide::Right,
    }
}

impl PortSide {
    /// The side across.
    pub fn opposite(&self) -> (res: PortSide)
        ensures
            res == opposite_side(*self),
    {
        match self {
            PortSide::Top => PortSide::Bottom,
            PortSide::Right => PortSide::Left,
            PortSide::Bottom => PortSide::Top,
            PortSide::Left => PortSide::Right,
        }
    }

    /// Whether a relation leaves this side vertically (top or bottom).
    pub fn is_vertical(&self) -> (res: bool)
        ensures
            res == (*self == PortSide::Top || *self == PortSide::Bottom),
    {
        match self {
            PortSide::Top | PortSide::Bottom => true,
            _ => false,
        }
    }
}

/// The UML kinds of relation between concepts or classes.
#[derive(Debug, Clone, Copy, PartialEq, Eq, Structural)]
pub enum RelationKind {
    Generalization,
    Association,
    Composition,
}

/// The first `count`-wide grid cell after `index` cells, as the offset of
/// its corner: `start + (index % count) * step` across and
/// `start + (index / count) * step` down, held at the largest coordinate.
pub open spec fn grid_across(index: nat, count: nat, step: nat) -> i64 {
    (60 + (index % count) * step) as i64
}

/// See [`grid_across`].
pub open spec fn grid_down(index: nat, count: nat, step: nat) -> i64 {
    let v = 60 + (index / count) * step;
    if v <= i64::MAX { v as i64 } else { i64::MAX }
}

/// Computes [`grid_across`] and [`grid_down`] for the small steps of the
/// diagrams.
pub(crate) fn grid_position(index: usize, count: usize, across: u32, down: u32) -> (res: (i64, i64))
    requires
        0 < count <= 8,
        across <= 1000,
        down <= 1000,
    ensures
        res.0 == grid_across(index as nat, count as nat, across as nat),
        res.1 == grid_down(index as nat, count as nat, down as nat),
{
    let col: u64 = (index % count) as u64;
    assert(col < 8);
    assert(col * (across as u64) <= 8000) by (nonlinear_arith)
        requires col < 8, across <= 1000u32;
    let x: i64 = (60 + col * (across as u64)) as i64;
    let row: u128 = (index / count) as u128;
    assert(row * (down as u128) <= 0x1_0000_0000_0000_0000u128 * 1000) by (nonlinear_arith)
        requires row < 0x1_0000_0000_0000_0000u128, down <= 1000u32;
    let v: u128 = 60 + row * (down as u128);
    let y: i64 = if v <= i64::MAX as u128 { v as i64 } else { i64::MAX };
    (x, y)
}

/// What a concept node holds.
pub struct NodeView {
    pub id: NodeId,
    pub concept_id: Id,
    pub label: Seq<char>,
    pub x: i64,
    pub y: i64,
    pub width: u32,
    pub height: u32,
}

/// A concept placed on the diagram.
#[derive(Debug, Clone, PartialEq, Eq)]
pub struct DiagramNode {
    id: NodeId,
    concept_id: Id,
    label: String,
    x: i64,
    y: i64,
    width: u32,
    height: u32,
}

impl View for DiagramNode {
    type V = NodeView;

    closed spec fn view(&self) -> NodeView {
        NodeView {
            id: self.id,
            concept_id: self.concept_id,
            label: self.label@,
            x: self.x,
            y: self.y,
            width: self.width,
            height: self.height,
        }
    }
}

impl DiagramNode {
    /// A node for a concept at a position, 160 by 80 pixels, with a fresh
    /// identifier and the concept's preferred term as its label.
    pub fn new(concept: &Concept, x: i64, y: i64) -> (res: DiagramNode)
        ensures
            res@.concept_id == concept@.id,
            res@.label == concept@.preferred_term,
            res@.x == x,
            res@.y == y,
            res@.width == 160,
            res@.height == 80,
    {
        DiagramNode {
            id: random_id(),
            concept_id: concept.id(),
            label: concept.preferred_term().to_string(),
            x,
            y,
            width: 160,
            height: 80,
        }
    }

    /// A node as it was stored.
    pub fn restore(id: NodeId, concept_id: Id, label: &str, x: i64, y: i64, width: u32, height: u32) -> (res: DiagramNode)
        ensures
            res@ == (NodeView { id, concept_id, label: label@, x, y, width, height }),
    {
        DiagramNode { id, concept_id, label: label.to_string(), x, y, width, height }
    }

    pub fn id(&self) -> (res: NodeId)
        ensures
            res == self@.id,
    {
        self.id
    }

    pub fn concept_id(&self) -> (res: Id)
        ensures
            res == self@.concept_id,
    {
        self.concept_id
    }

    pub fn label(&self) -> (res: &str)
        ensures
            res@ == self@.label,
    {
        self.label.as_str()
    }

    pub fn x(&self) -> (res: i64)
        ensures
            res == self@.x,
    {
        self.x
    }

    pub fn y(&self) -> (res: i64)
        ensures
            res == self@.y,
    {
        self.y
    }

    pub fn width(&self) -> (res: u32)
        ensures
            res == self@.width,
    {
        self.width
    }

    pub fn height(&self) -> (res: u32)
        ensures
            res == self@.height,
    {
        self.height
    }

    pub fn set_position(&mut self, x: i64, y: i64)
        ensures
            final(self)@ == (NodeView { x, y, ..old(self)@ }),
    {
        self.x = x;
        self.y = y;
    }

    pub fn set_label(&mut self, label: &str)
        ensures
            final(self)@ == (NodeView { label: label@, ..old(self)@ }),
    {
        self.label = label.to_string();
    }
}

/// What a concept relation holds.
pub struct EdgeView {
    pub from: NodeId,
    pub to: NodeId,
    pub kind: RelationKind,
    pub label: Option<Seq<char>>,
}

/// A relation drawn from one node to another.
#[derive(Debug, Clone, PartialEq, Eq)]
pub struct DiagramEdge {
    from: NodeId,
    to: NodeId,
    kind: RelationKind,
    label: Option<String>,
}

impl View for DiagramEdge {
    type V = EdgeView;

    closed spec fn view(&self) -> EdgeView {
        EdgeView {
            from: self.from,
            to: self.to,
            kind: self.kind,
            label: crate::concepts::opt_view(self.label),
        }
    }
}

impl DiagramEdge {
    /// A relation without a label.
    pub fn new(from: NodeId, to: NodeId, kind: RelationKind) -> (res: DiagramEdge)
        ensures
            res@ == (EdgeView { from, to, kind, label: None }),
    {
        DiagramEdge { from, to, kind, label: None }
    }

    pub fn from(&self) -> (res: NodeId)
        ensures
            res == self@.from,
    {
        self.from
    }

    pub fn to(&self) -> (res: NodeId)
        ensures
            res == self@.to,
    {
        self.to
    }

    pub fn kind(&self) -> (res: RelationKind)
        ensures
            res == self@.kind,
    {
        self.kind
    }

    pub fn label(&self) -> (res: Option<&str>)
        ensures
            crate::concepts::opt_str_view(res) == self@.label,
    {
        crate::concepts::opt_as_str(&self.label)
    }

    pub fn set_label(&mut self, label: Option<String>)
        ensures
            final(self)@ == (EdgeView { label: crate::concepts::opt_view(label), ..old(self)@ }),
    {
        self.label = label;
    }
}

/// What a concept diagram holds: its nodes and relations, in order.
pub struct GraphView {
    pub nodes: Seq<NodeView>,
    pub edges: Seq<EdgeView>,
}

/// The concept diagram.
#[derive(Debug, Clone, PartialEq, Eq)]
pub struct ConceptGraph {
    nodes: Vec<DiagramNode>,
    edges: Vec<DiagramEdge>,
}

pub open spec fn nodes_view(v: Seq<DiagramNode>) -> Seq<NodeView> {
    v.map_values(|n: DiagramNode| n@)
}

pub open spec fn edges_view(v: Seq<DiagramEdge>) -> Seq<EdgeView> {
    v.map_values(|e: DiagramEdge| e@)
}

impl View for ConceptGraph {
    type V = GraphView;

    closed spec fn view(&self) -> GraphView {
        GraphView { nodes: nodes_view(self.nodes@), edges: edges_view(self.edges@) }
    }
}

/// Whether some node of the diagram has that identifier.
pub open spec fn has_node(nodes: Seq<NodeView>, id: NodeId) -> bool {
    exists|i: int| 0 <= i < nodes.len() && nodes[i].id == id
}

/// Whether every relation of the diagram joins two of its nodes.
pub open spec fn no_dangling_edges(g: GraphView) -> bool {
    forall|i: int| 0 <= i < g.edges.len() ==> has_node(g.nodes, #[trigger] g.edges[i].from)
        && has_node(g.nodes, g.edges[i].to)
}

/// Whether a node has that identifier.
pub open spec fn node_with_id(id: NodeId) -> spec_fn(NodeView) -> bool {
    |n: NodeView| n.id == id
}

/// Whether a node has another identifier.
pub open spec fn other_node(id: NodeId) -> spec_fn(NodeView) -> bool {
    |n: NodeView| n.id != id
}

/// Whether a relation touches neither end at the node.
pub open spec fn clear_of(id: NodeId) -> spec_fn(EdgeView) -> bool {
    |e: EdgeView| e.from != id && e.to != id
}

/// Whether a node shows the concept.
pub open spec fn shows_concept(concept_id: Id) -> spec_fn(NodeView) -> bool {
    |n: NodeView| n.concept_id == concept_id
}

/// Whether a relation runs from one node to the other.
pub open spec fn runs(from: NodeId, to: NodeId) -> spec_fn(EdgeView) -> bool {
    |e: EdgeView| e.from == from && e.to == to
}

/// Whether a relation does not run from one node to the other.
pub open spec fn not_runs(from: NodeId, to: NodeId) -> spec_fn(EdgeView) -> bool {
    |e: EdgeView| !(e.from == from && e.to == to)
}

/// The diagram with the first node of the concept relabelled.
pub open spec fn relabel_concept(g: GraphView, concept_id: Id, label: Seq<char>) -> GraphView {
    let k = first_where(g.nodes, shows_concept(concept_id));
    if k >= 0 {
        GraphView { nodes: g.nodes.update(k, NodeView { label, ..g.nodes[k] }), edges: g.edges }
    } else {
        g
    }
}

/// The diagram with the first node that passes moved.
pub open spec fn move_first(g: GraphView, p: spec_fn(NodeView) -> bool, x: i64, y: i64) -> GraphView {
    let k = first_where(g.nodes, p);
    if k >= 0 {
        GraphView { nodes: g.nodes.update(k, NodeView { x, y, ..g.nodes[k] }), edges: g.edges }
    } else {
        g
    }
}

/// The diagram with the first relation from `from` to `to` given a kind
/// and label.
pub open spec fn restyle_first(
    g: GraphView,
    from: NodeId,
    to: NodeId,
    kind: RelationKind,
    label: Option<Seq<char>>,
) -> GraphView {
    let k = first_where(g.edges, runs(from, to));
    if k >= 0 {
        GraphView { nodes: g.nodes, edges: g.edges.update(k, EdgeView { from, to, kind, label }) }
    } else {
        g
    }
}

/// The diagram with the first relation from `from` to `to` changed by `f`.
pub open spec fn edit_first(g: GraphView, from: NodeId, to: NodeId, f: spec_fn(EdgeView) -> EdgeView) -> GraphView {
    let k = first_where(g.edges, runs(from, to));
    if k >= 0 {
        GraphView { nodes: g.nodes, edges: g.edges.update(k, f(g.edges[k])) }
    } else {
        g
    }
}

/// The diagram with the first relation from `from` to `to` turned around
/// and moved to the end of the relations.
pub open spec fn reverse_first(g: GraphView, from: NodeId, to: NodeId) -> GraphView {
    let k = first_where(g.edges, runs(from, to));
    if k >= 0 {
        GraphView {
            nodes: g.nodes,
            edges: g.edges.remove(k).push(EdgeView { from: g.edges[k].to, to: g.edges[k].from, ..g.edges[k] }),
        }
    } else {
        g
    }
}

/// The diagram with a node for a concept placed in the next grid cell.
pub open spec fn placed(g: GraphView, concept: ConceptView, id: NodeId) -> GraphView {
    GraphView {
        nodes: g.nodes.push(
            NodeView {
                id,
                concept_id: concept.id,
                label: concept.preferred_term,
                x: grid_across(g.nodes.len(), 4, 200),
                y: grid_down(g.nodes.len(), 4, 120),
                width: 160,
                height: 80,
            },
        ),
        edges: g.edges,
    }
}

/// Whether a node shows some other concept.
pub open spec fn hides_concept(concept_id: Id) -> spec_fn(NodeView) -> bool {
    |n: NodeView| n.concept_id != concept_id
}

/// Whether a node shows some concept of the list.
pub open spec fn concept_listed(concepts: Seq<ConceptView>) -> spec_fn(NodeView) -> bool {
    |n: NodeView| exists|i: int| 0 <= i < concepts.len() && concepts[i].id == n.concept_id
}

/// Whether a relation stays when the nodes of a concept go: neither end is
/// such a node.
pub open spec fn edge_spared(nodes: Seq<NodeView>, concept_id: Id) -> spec_fn(EdgeView) -> bool {
    |e: EdgeView| !doomed(nodes, concept_id, e.from) && !doomed(nodes, concept_id, e.to)
}

/// Whether `id` names a node of the concept.
pub open spec fn doomed(nodes: Seq<NodeView>, concept_id: Id, id: NodeId) -> bool {
    exists|i: int| 0 <= i < nodes.len() && nodes[i].id == id && nodes[i].concept_id == concept_id
}

/// Whether both ends of a relation are nodes of the list.
pub open spec fn edge_joins(nodes: Seq<NodeView>) -> spec_fn(EdgeView) -> bool {
    |e: EdgeView| has_node(nodes, e.from) && has_node(nodes, e.to)
}

/// Whether a concept has that identifier.
pub open spec fn concept_with_id(id: Id) -> spec_fn(ConceptView) -> bool {
    |c: ConceptView| c.id == id
}

/// A node relabelled with the preferred term of the first concept of the
/// list that it shows.
pub open spec fn relabelled(concepts: Seq<ConceptView>) -> spec_fn(NodeView) -> NodeView {
    |n: NodeView| NodeView {
        label: concepts[first_where(concepts, concept_with_id(n.concept_id))].preferred_term,
        ..n
    }
}

/// The diagram brought in line with a list of concepts: nodes of concepts
/// not in the list go, relations that lost an end go, and every node takes
/// its concept's preferred term as label.
pub open spec fn synced_with_concepts(g: GraphView, concepts: Seq<ConceptView>) -> GraphView {
    let kept = g.nodes.filter(concept_listed(concepts));
    GraphView { nodes: kept.map_values(relabelled(concepts)), edges: g.edges.filter(edge_joins(kept)) }
}

/// The views of a list of concepts.
pub open spec fn concepts_view(v: Seq<Concept>) -> Seq<ConceptView> {
    v.map_values(|c: Concept| c@)
}

/// The index of the first concept with that identifier.
pub fn concept_position(concepts: &[Concept], id: Id) -> (res: Option<usize>)
    ensures
        match res {
            Some(i) => i == first_where(concepts_view(concepts@), concept_with_id(id)) && i < concepts@.len(),
            None => first_where(concepts_view(concepts@), concept_with_id(id)) == -1,
        },
{
    let ghost cs = concepts_view(concepts@);
    let ghost p = concept_with_id(id);
    let mut i: usize = 0;
    while i < concepts.len()
        invariant
            cs == concepts_view(concepts@),
            p == concept_with_id(id),
            i <= concepts@.len(),
            forall|j: int| 0 <= j < i ==> !p(#[trigger] cs[j]),
        decreases concepts@.len() - i,
    {
        assert(cs[i as int] == concepts@[i as int]@);
        if concepts[i].id() == id {
            proof {
                lemma_first_where(cs, p, i as int);
            }
            return Some(i);
        }
        i += 1;
    }
    proof {
        lemma_first_where_none(cs, p);
    }
    None
}

impl ConceptGraph {
    /// An empty diagram.
    pub fn new() -> (res: ConceptGraph)
        ensures
            res@.nodes == Seq::<NodeView>::empty(),
            res@.edges == Seq::<EdgeView>::empty(),
    {
        let res = ConceptGraph { nodes: Vec::new(), edges: Vec::new() };
        assert(res@.nodes =~= Seq::<NodeView>::empty());
        assert(res@.edges =~= Seq::<EdgeView>::empty());
        res
    }

    /// A diagram as it was stored.
    pub fn from_parts(nodes: Vec<DiagramNode>, edges: Vec<DiagramEdge>) -> (res: ConceptGraph)
        ensures
            res@ == (GraphView { nodes: nodes_view(nodes@), edges: edges_view(edges@) }),
    {
        ConceptGraph { nodes, edges }
    }

    /// Places a concept on the diagram in the next cell of a four-wide grid
    /// of 200 by 120 pixel cells, and returns the new node's identifier.
    pub fn add_node(&mut self, concept: &Concept) -> (res: NodeId)
        ensures
            final(self)@.edges == old(self)@.edges,
            final(self)@.nodes == old(self)@.nodes.push(
                NodeView {
                    id: res,
                    concept_id: concept@.id,
                    label: concept@.preferred_term,
                    x: grid_across(old(self)@.nodes.len(), 4, 200),
                    y: grid_down(old(self)@.nodes.len(), 4, 120),
                    width: 160,
                    height: 80,
                },
            ),
    {
        let (x, y) = grid_position(self.nodes.len(), 4, 200, 120);
        let node = DiagramNode::new(concept, x, y);
        let id = node.id();
        let ghost before = self@;
        self.nodes.push(node);
        assert(self@.nodes =~= before.nodes.push(nodes_view(self.nodes@).last()));
        id
    }

    /// The index of the first node with that identifier.
    fn node_index(&self, id: NodeId) -> (res: Option<usize>)
        ensures
            match res {
                Some(i) => i == first_where(self@.nodes, node_with_id(id)) && i < self@.nodes.len(),
                None => first_where(self@.nodes, node_with_id(id)) == -1,
            },
    {
        let ghost p = node_with_id(id);
        let mut i: usize = 0;
        while i < self.nodes.len()
            invariant
                p == node_with_id(id),
                i <= self.nodes@.len(),
                forall|j: int| 0 <= j < i ==> !p(#[trigger] self@.nodes[j]),
            decreases self.nodes@.len() - i,
        {
            assert(self@.nodes[i as int] == self.nodes@[i as int]@);
            if self.nodes[i].id() == id {
                proof {
                    lemma_first_where(self@.nodes, p, i as int);
                }
                return Some(i);
            }
            i += 1;
        }
        proof {
            lemma_first_where_none(self@.nodes, p);
        }
        None
    }

    /// The index of the first node of the concept.
    fn concept_index(&self, concept_id: Id) -> (res: Option<usize>)
        ensures
            match res {
                Some(i) => i == first_where(self@.nodes, shows_concept(concept_id)) && i < self@.nodes.len(),
                None => first_where(self@.nodes, shows_concept(concept_id)) == -1,
            },
    {
        let ghost p = shows_concept(concept_id);
        let mut i: usize = 0;
        while i < self.nodes.len()
            invariant
                p == shows_concept(concept_id),
                i <= self.nodes@.len(),
                forall|j: int| 0 <= j < i ==> !p(#[trigger] self@.nodes[j]),
            decreases self.nodes@.len() - i,
        {
            assert(self@.nodes[i as int] == self.nodes@[i as int]@);
            if self.nodes[i].concept_id() == concept_id {
                proof {
                    lemma_first_where(self@.nodes, p, i as int);
                }
                return Some(i);
            }
            i += 1;
        }
        proof {
            lemma_first_where_none(self@.nodes, p);
        }
        None
    }

    /// The first node of the concept.
    pub fn find_node_by_concept(&self, concept_id: Id) -> (res: Option<&DiagramNode>)
        ensures
            match res {
                Some(n) => first_where(self@.nodes, shows_concept(concept_id)) >= 0
                    && n@ == self@.nodes[first_where(self@.nodes, shows_concept(concept_id))],
                None => first_where(self@.nodes, shows_concept(concept_id)) == -1,
            },
    {
        match self.concept_index(concept_id) {
            Some(i) => Some(&self.nodes[i]),
            None => None,
        }
    }

    /// Gives the first node of the concept a new label; returns whether
    /// there was one.
    pub fn set_concept_label(&mut self, concept_id: Id, label: &str) -> (res: bool)
        ensures
            res == (first_where(old(self)@.nodes, shows_concept(concept_id)) >= 0),
            final(self)@ == relabel_concept(old(self)@, concept_id, label@),
    {
        let ghost before = self@;
        match self.concept_index(concept_id) {
            Some(k) => {
                self.nodes[k].set_label(label);
                assert(self@.nodes =~= before.nodes.update(k as int, NodeView { label: label@, ..before.nodes[k as int] }));
                assert(self@.edges =~= before.edges);
                true
            },
            None => false,
        }
    }

    /// Moves the first node with that identifier; returns whether there was
    /// one.
    pub fn move_node(&mut self, id: NodeId, x: i64, y: i64) -> (res: bool)
        ensures
            res == (first_where(old(self)@.nodes, node_with_id(id)) >= 0),
            final(self)@ == move_first(old(self)@, node_with_id(id), x, y),
    {
        let ghost before = self@;
        match self.node_index(id) {
            Some(k) => {
                self.nodes[k].set_position(x, y);
                assert(self@.nodes =~= before.nodes.update(k as int, NodeView { x, y, ..before.nodes[k as int] }));
                assert(self@.edges =~= before.edges);
                true
            },
            None => false,
        }
    }

    /// Moves the first node of the concept; returns whether there was one.
    pub fn move_concept_node(&mut self, concept_id: Id, x: i64, y: i64) -> (res: bool)
        ensures
            res == (first_where(old(self)@.nodes, shows_concept(concept_id)) >= 0),
            final(self)@ == move_first(old(self)@, shows_concept(concept_id), x, y),
    {
        let ghost before = self@;
        match self.concept_index(concept_id) {
            Some(k) => {
                self.nodes[k].set_position(x, y);
                assert(self@.nodes =~= before.nodes.update(k as int, NodeView { x, y, ..before.nodes[k as int] }));
                assert(self@.edges =~= before.edges);
                true
            },
            None => false,
        }
    }

    /// Draws a relation with a label between two nodes.
    pub fn add_relation_with_label(&mut self, from: NodeId, to: NodeId, kind: RelationKind, label: Option<String>)
        ensures
            final(self)@.nodes == old(self)@.nodes,
            final(self)@.edges == old(self)@.edges.push(EdgeView { from, to, kind, label: crate::concepts::opt_view(label) }),
    {
        let ghost before = self@;
        let ghost l = crate::concepts::opt_view(label);
        let mut edge = DiagramEdge::new(from, to, kind);
        edge.set_label(label);
        self.edges.push(edge);
        assert(self@.edges =~= before.edges.push(EdgeView { from, to, kind, label: l }));
        assert(self@.nodes =~= before.nodes);
    }

    /// The index of the first relation from `from` to `to`.
    fn edge_index(&self, from: NodeId, to: NodeId) -> (res: Option<usize>)
        ensures
            match res {
                Some(i) => i == first_where(self@.edges, runs(from, to)) && i < self@.edges.len(),
                None => first_where(self@.edges, runs(from, to)) == -1,
            },
    {
        let ghost p = runs(from, to);
        let mut i: usize = 0;
        while i < self.edges.len()
            invariant
                p == runs(from, to),
                i <= self.edges@.len(),
                forall|j: int| 0 <= j < i ==> !p(#[trigger] self@.edges[j]),
            decreases self.edges@.len() - i,
        {
            assert(self@.edges[i as int] == self.edges@[i as int]@);
            if self.edges[i].from() == from && self.edges[i].to() == to {
                proof {
                    lemma_first_where(self@.edges, p, i as int);
                }
                return Some(i);
            }
            i += 1;
        }
        proof {
            lemma_first_where_none(self@.edges, p);
        }
        None
    }

    /// The first relation from `from` to `to`.
    pub fn find_edge(&self, from: NodeId, to: NodeId) -> (res: Option<&DiagramEdge>)
        ensures
            match res {
                Some(e) => first_where(self@.edges, runs(from, to)) >= 0
                    && e@ == self@.edges[first_where(self@.edges, runs(from, to))],
                None => first_where(self@.edges, runs(from, to)) == -1,
            },
    {
        match self.edge_index(from, to) {
            Some(i) => Some(&self.edges[i]),
            None => None,
        }
    }

    /// Changes the kind and label of the first relation from `from` to `to`;
    /// returns whether there was one.
    pub fn update_relation(&mut self, from: NodeId, to: NodeId, kind: RelationKind, label: Option<String>) -> (res: bool)
        ensures
            res == (first_where(old(self)@.edges, runs(from, to)) >= 0),
            final(self)@ == restyle_first(old(self)@, from, to, kind, crate::concepts::opt_view(label)),
    {
        let ghost before = self@;
        let ghost l = crate::concepts::opt_view(label);
        match self.edge_index(from, to) {
            Some(k) => {
                let mut edge = DiagramEdge::new(from, to, kind);
                edge.set_label(label);
                self.edges.set(k, edge);
                assert(self@.edges =~= before.edges.update(k as int, EdgeView { from, to, kind, label: l }));
                assert(self@.nodes =~= before.nodes);
                true
            },
            None => false,
        }
    }

    /// Changes the kind of the first relation from `from` to `to`; returns
    /// whether there was one.
    pub fn update_edge_kind(&mut self, from: NodeId, to: NodeId, kind: RelationKind) -> (res: bool)
        ensures
            res == (first_where(old(self)@.edges, runs(from, to)) >= 0),
            final(self)@ == edit_first(old(self)@, from, to, |e: EdgeView| EdgeView { kind, ..e }),
    {
        let ghost before = self@;
        match self.edge_index(from, to) {
            Some(k) => {
                let edge = DiagramEdge {
                    from: self.edges[k].from,
                    to: self.edges[k].to,
                    kind,
                    label: self.edges[k].label.clone(),
                };
                assert(edge@ == EdgeView { kind, ..before.edges[k as int] });
                self.edges.set(k, edge);
                assert(self@.edges =~= before.edges.update(k as int, EdgeView { kind, ..before.edges[k as int] }));
                assert(self@.nodes =~= before.nodes);
                true
            },
            None => false,
        }
    }

    /// Changes the label of the first relation from `from` to `to`; returns
    /// whether there was one.
    pub fn update_edge_label(&mut self, from: NodeId, to: NodeId, label: Option<String>) -> (res: bool)
        ensures
            res == (first_where(old(self)@.edges, runs(from, to)) >= 0),
            final(self)@ == edit_first(
                old(self)@,
                from,
                to,
                |e: EdgeView| EdgeView { label: crate::concepts::opt_view(label), ..e },
            ),
    {
        let ghost before = self@;
        let ghost l = crate::concepts::opt_view(label);
        match self.edge_index(from, to) {
            Some(k) => {
                let edge = DiagramEdge { from: self.edges[k].from, to: self.edges[k].to, kind: self.edges[k].kind, label };
                assert(edge@ == EdgeView { label: l, ..before.edges[k as int] });
                self.edges.set(k, edge);
                assert(self@.edges =~= before.edges.update(k as int, EdgeView { label: l, ..before.edges[k as int] }));
                assert(self@.nodes =~= before.nodes);
                true
            },
            None => false,
        }
    }

    /// Turns the first relation from `from` to `to` around, moving it to the
    /// end of the relations; returns whether there was one.
    pub fn reverse_relation(&mut self, from: NodeId, to: NodeId) -> (res: bool)
        ensures
            res == (first_where(old(self)@.edges, runs(from, to)) >= 0),
            final(self)@ == reverse_first(old(self)@, from, to),
    {
        let ghost before = self@;
        match self.edge_index(from, to) {
            Some(k) => {
                let old_edge = self.edges.remove(k);
                assert(old_edge@ == before.edges[k as int]);
                let edge = DiagramEdge { from: old_edge.to, to: old_edge.from, kind: old_edge.kind, label: old_edge.label };
                self.edges.push(edge);
                assert(self@.edges =~= before.edges.remove(k as int).push(
                    EdgeView { from: before.edges[k as int].to, to: before.edges[k as int].from, ..before.edges[k as int] },
                ));
                assert(self@.nodes =~= before.nodes);
                true
            },
            None => false,
        }
    }

    /// Removes every relation from `from` to `to`.
    pub fn remove_relation(&mut self, from: NodeId, to: NodeId)
        ensures
            final(self)@.nodes == old(self)@.nodes,
            final(self)@.edges == old(self)@.edges.filter(not_runs(from, to)),
    {
        let keep_edge = (|e: &DiagramEdge| -> (r: bool)
            ensures
                r == !(e@.from == from && e@.to == to),
        { !(e.from() == from && e.to() == to) });
        self.retain_edges(keep_edge, Ghost(not_runs(from, to)));
    }

    /// Draws a relation between two nodes.
    pub fn add_relation(&mut self, from: NodeId, to: NodeId, kind: RelationKind)
        ensures
            final(self)@.nodes == old(self)@.nodes,
            final(self)@.edges == old(self)@.edges.push(EdgeView { from, to, kind, label: None }),
    {
        let ghost before = self@;
        self.edges.push(DiagramEdge::new(from, to, kind));
        assert(self@.edges =~= before.edges.push(EdgeView { from, to, kind, label: None }));
        assert(self@.nodes =~= before.nodes);
    }

    pub fn node_count(&self) -> (res: usize)
        ensures
            res == self@.nodes.len(),
    {
        self.nodes.len()
    }

    pub fn edge_count(&self) -> (res: usize)
        ensures
            res == self@.edges.len(),
    {
        self.edges.len()
    }

    pub fn nodes(&self) -> (res: &[DiagramNode])
        ensures
            nodes_view(res@) == self@.nodes,
    {
        self.nodes.as_slice()
    }

    pub fn edges(&self) -> (res: &[DiagramEdge])
        ensures
            edges_view(res@) == self@.edges,
    {
        self.edges.as_slice()
    }

    /// The first node with that identifier.
    pub fn find_node(&self, id: NodeId) -> (res: Option<&DiagramNode>)
        ensures
            match res {
                Some(n) => exists|i: int|
                    0 <= i < self@.nodes.len() && self@.nodes[i].id == id && n@ == self@.nodes[i]
                        && forall|j: int| 0 <= j < i ==> self@.nodes[j].id != id,
                None => !has_node(self@.nodes, id),
            },
    {
        let mut i: usize = 0;
        while i < self.nodes.len()
            invariant
                i <= self.nodes@.len(),
                forall|j: int| 0 <= j < i ==> self@.nodes[j].id != id,
            decreases self.nodes@.len() - i,
        {
            if self.nodes[i].id() == id {
                assert(self@.nodes[i as int] == self.nodes@[i as int]@);
                return Some(&self.nodes[i]);
            }
            assert(self@.nodes[i as int] == self.nodes@[i as int]@);
            i += 1;
        }
        None
    }

    /// Whether the concept has a node on the diagram.
    pub fn is_concept_on_diagram(&self, concept_id: Id) -> (res: bool)
        ensures
            res == exists|i: int| 0 <= i < self@.nodes.len() && self@.nodes[i].concept_id == concept_id,
    {
        let mut i: usize = 0;
        while i < self.nodes.len()
            invariant
                i <= self.nodes@.len(),
                forall|j: int| 0 <= j < i ==> self@.nodes[j].concept_id != concept_id,
            decreases self.nodes@.len() - i,
        {
            assert(self@.nodes[i as int] == self.nodes@[i as int]@);
            if self.nodes[i].concept_id() == concept_id {
                return true;
            }
            i += 1;
        }
        false
    }

    /// Keeps the relations that pass, in order.
    fn retain_edges<F: Fn(&DiagramEdge) -> bool>(&mut self, keep: F, Ghost(p): Ghost<spec_fn(EdgeView) -> bool>)
        requires
            forall|e: &DiagramEdge| #[trigger] keep.requires((e,)),
            forall|e: &DiagramEdge, r: bool| keep.ensures((e,), r) ==> r == p(e@),
        ensures
            final(self)@.nodes == old(self)@.nodes,
            final(self)@.edges == old(self)@.edges.filter(p),
    {
        let ghost before = self@;
        let mut i: usize = 0;
        let mut k: usize = 0;
        let total: usize = self.edges.len();
        while i < self.edges.len()
            invariant
                forall|e: &DiagramEdge| #[trigger] keep.requires((e,)),
                forall|e: &DiagramEdge, r: bool| keep.ensures((e,), r) ==> r == p(e@),
                self@.nodes == before.nodes,
                total == before.edges.len(),
                k <= before.edges.len(),
                i <= self@.edges.len(),
                self@.edges =~= before.edges.take(k as int).filter(p) + before.edges.skip(k as int),
                i == before.edges.take(k as int).filter(p).len(),
            decreases self@.edges.len() - i,
        {
            let ghost done = before.edges.take(k as int).filter(p);
            let ghost cur = self@.edges;
            proof {
                assert(cur.len() == done.len() + before.edges.len() - k);
                lemma_filter_step(before.edges, p, k as int);
                assert(cur[i as int] == before.edges[k as int]);
            }
            assert(cur[i as int] == self.edges@[i as int]@);
            let stays = keep(&self.edges[i]);
            if !stays {
                self.edges.remove(i);
                assert(self@.edges =~= cur.remove(i as int));
            } else {
                i += 1;
            }
            assert(self@.edges =~= before.edges.take(k + 1).filter(p) + before.edges.skip(k + 1));
            k += 1;
        }
        proof {
            assert(k == before.edges.len()) by {
                if k < before.edges.len() {
                    assert(self@.edges.len() > i);
                }
            }
            assert(before.edges.take(k as int) =~= before.edges);
            assert(before.edges.skip(k as int) =~= Seq::<EdgeView>::empty());
        }
    }

    /// Keeps the nodes that pass, in order.
    fn retain_nodes<F: Fn(&DiagramNode) -> bool>(&mut self, keep: F, Ghost(p): Ghost<spec_fn(NodeView) -> bool>)
        requires
            forall|n: &DiagramNode| #[trigger] keep.requires((n,)),
            forall|n: &DiagramNode, r: bool| keep.ensures((n,), r) ==> r == p(n@),
        ensures
            final(self)@.edges == old(self)@.edges,
            final(self)@.nodes == old(self)@.nodes.filter(p),
    {
        let ghost before = self@;
        let mut i: usize = 0;
        let mut k: usize = 0;
        let total: usize = self.nodes.len();
        while i < self.nodes.len()
            invariant
                forall|n: &DiagramNode| #[trigger] keep.requires((n,)),
                forall|n: &DiagramNode, r: bool| keep.ensures((n,), r) ==> r == p(n@),
                self@.edges == before.edges,
                total == before.nodes.len(),
                k <= before.nodes.len(),
                i <= self@.nodes.len(),
                self@.nodes =~= before.nodes.take(k as int).filter(p) + before.nodes.skip(k as int),
                i == before.nodes.take(k as int).filter(p).len(),
            decreases self@.nodes.len() - i,
        {
            let ghost done = before.nodes.take(k as int).filter(p);
            let ghost cur = self@.nodes;
            proof {
                assert(cur.len() == done.len() + before.nodes.len() - k);
                lemma_filter_step(before.nodes, p, k as int);
                assert(cur[i as int] == before.nodes[k as int]);
            }
            assert(cur[i as int] == self.nodes@[i as int]@);
            let stays = keep(&self.nodes[i]);
            if !stays {
                self.nodes.remove(i);
                assert(self@.nodes =~= cur.remove(i as int));
            } else {
                i += 1;
            }
            assert(self@.nodes =~= before.nodes.take(k + 1).filter(p) + before.nodes.skip(k + 1));
            k += 1;
        }
        proof {
            assert(k == before.nodes.len()) by {
                if k < before.nodes.len() {
                    assert(self@.nodes.len() > i);
                }
            }
            assert(before.nodes.take(k as int) =~= before.nodes);
            assert(before.nodes.skip(k as int) =~= Seq::<NodeView>::empty());
        }
    }

    /// The identifiers of the nodes that pass, in order.
    fn ids_where(&self, concept_id: Id, all: bool) -> (res: Vec<NodeId>)
        ensures
            forall|id: NodeId| res@.contains(id) <==> (if all {
                has_node(self@.nodes, id)
            } else {
                doomed(self@.nodes, concept_id, id)
            }),
    {
        let mut out: Vec<NodeId> = Vec::new();
        let mut i: usize = 0;
        while i < self.nodes.len()
            invariant
                i <= self.nodes@.len(),
                forall|id: NodeId| out@.contains(id) <==> exists|j: int| 0 <= j < i && #[trigger] self@.nodes[j].id == id
                    && (all || self@.nodes[j].concept_id == concept_id),
            decreases self.nodes@.len() - i,
        {
            assert(self@.nodes[i as int] == self.nodes@[i as int]@);
            let ghost before = out@;
            if all || self.nodes[i].concept_id() == concept_id {
                out.push(self.nodes[i].id());
                assert forall|id: NodeId| out@.contains(id) <==> exists|j: int| 0 <= j < i + 1
                    && #[trigger] self@.nodes[j].id == id && (all || self@.nodes[j].concept_id == concept_id) by {
                    if out@.contains(id) && id != self@.nodes[i as int].id {
                        let m = choose|m: int| 0 <= m < out@.len() && out@[m] == id;
                        assert(before[m] == id);
                        assert(before.contains(id));
                    }
                    if before.contains(id) {
                        let m = choose|m: int| 0 <= m < before.len() && before[m] == id;
                        assert(out@[m] == id);
                    }
                    assert(out@[out@.len() - 1] == self@.nodes[i as int].id);
                }
            }
            i += 1;
        }
        out
    }

    /// Takes a concept off the diagram: its nodes go, and every relation
    /// that touches one of them.
    pub fn remove_node_by_concept(&mut self, concept_id: Id)
        ensures
            final(self)@.nodes == old(self)@.nodes.filter(hides_concept(concept_id)),
            final(self)@.edges == old(self)@.edges.filter(edge_spared(old(self)@.nodes, concept_id)),
    {
        let ghost before = self@;
        let gone = self.ids_where(concept_id, false);
        let keep_edge = (|e: &DiagramEdge| -> (r: bool)
            ensures
                r == (!gone@.contains(e@.from) && !gone@.contains(e@.to)),
        { !crate::seqs::contains_id(&gone, e.from()) && !crate::seqs::contains_id(&gone, e.to()) });
        self.retain_edges(keep_edge, Ghost(edge_spared(before.nodes, concept_id)));
        let keep_node = (|n: &DiagramNode| -> (r: bool)
            ensures
                r == (n@.concept_id != concept_id),
        { n.concept_id() != concept_id });
        self.retain_nodes(keep_node, Ghost(hides_concept(concept_id)));
    }

    /// Takes a node off the diagram, with the relations that touch it.
    pub fn remove_node(&mut self, node_id: NodeId)
        ensures
            final(self)@.nodes == old(self)@.nodes.filter(other_node(node_id)),
            final(self)@.edges == old(self)@.edges.filter(clear_of(node_id)),
    {
        let keep_edge = (|e: &DiagramEdge| -> (r: bool)
            ensures
                r == (e@.from != node_id && e@.to != node_id),
        { e.from() != node_id && e.to() != node_id });
        self.retain_edges(keep_edge, Ghost(clear_of(node_id)));
        let keep_node = (|n: &DiagramNode| -> (r: bool)
            ensures
                r == (n@.id != node_id),
        { n.id() != node_id });
        self.retain_nodes(keep_node, Ghost(other_node(node_id)));
    }

    /// Brings the diagram in line with the list of concepts: nodes of
    /// concepts that are gone go, relations that lost an end go, and every
    /// node takes its concept's preferred term as label.
    pub fn sync_with_concepts(&mut self, concepts: &[Concept])
        ensures
            final(self)@ == synced_with_concepts(old(self)@, concepts_view(concepts@)),
            no_dangling_edges(final(self)@),
    {
        broadcast use vstd::seq_lib::group_filter_ensures;
        let ghost cs = concepts_view(concepts@);
        let keep_node = (|n: &DiagramNode| -> (r: bool)
            ensures
                r == concept_listed(concepts_view(concepts@))(n@),
        {
            let found = concept_position(concepts, n.concept_id());
            proof {
                let cs = concepts_view(concepts@);
                match found {
                    Some(i) => {
                        assert(cs[i as int].id == n@.concept_id) by {
                            crate::seqs::lemma_first_where_found(cs, concept_with_id(n@.concept_id));
                        }
                    },
                    None => {
                        crate::seqs::lemma_first_where_absent(cs, concept_with_id(n@.concept_id));
                        assert forall|i: int| 0 <= i < cs.len() implies cs[i].id != n@.concept_id by {
                            assert(!concept_with_id(n@.concept_id)(cs[i]));
                        }
                    },
                }
            }
            found.is_some()
        });
        self.retain_nodes(keep_node, Ghost(concept_listed(cs)));
        let ghost kept = self@.nodes;
        let ids = self.ids_where(0, true);
        let keep_edge = (|e: &DiagramEdge| -> (r: bool)
            ensures
                r == (ids@.contains(e@.from) && ids@.contains(e@.to)),
        { crate::seqs::contains_id(&ids, e.from()) && crate::seqs::contains_id(&ids, e.to()) });
        self.retain_edges(keep_edge, Ghost(edge_joins(kept)));
        let ghost mid = self@;
        let n = self.nodes.len();
        let mut i: usize = 0;
        while i < n
            invariant
                n == self.nodes@.len(),
                n == kept.len(),
                i <= n,
                cs == concepts_view(concepts@),
                self@.edges == mid.edges,
                mid.nodes == kept,
                forall|j: int| 0 <= j < n ==> concept_listed(cs)(#[trigger] kept[j]),
                forall|j: int| 0 <= j < i ==> #[trigger] self@.nodes[j] == relabelled(cs)(kept[j]),
                forall|j: int| i <= j < n ==> #[trigger] self@.nodes[j] == kept[j],
            decreases n - i,
        {
            assert(self@.nodes[i as int] == self.nodes@[i as int]@);
            let concept_id = self.nodes[i].concept_id();
            proof {
                assert(concept_listed(cs)(kept[i as int]));
                let w = choose|w: int| 0 <= w < cs.len() && cs[w].id == concept_id;
                lemma_first_where_some(cs, concept_with_id(concept_id), w);
            }
            let ghost pre = self.nodes@;
            let ghost pre_view = self@.nodes;
            assert(forall|j: int| 0 <= j < n ==> #[trigger] pre_view[j] == pre[j]@);
            match concept_position(concepts, concept_id) {
                Some(k) => {
                    assert(cs[k as int] == concepts@[k as int]@);
                    self.nodes[i].set_label(concepts[k].preferred_term());
                    assert(self.nodes@[i as int]@ == relabelled(cs)(kept[i as int]));
                },
                None => {
                    assert(false);
                },
            }
            assert forall|j: int| 0 <= j < n && j != i implies #[trigger] self.nodes@[j] == pre[j] by {}
            assert(forall|j: int| 0 <= j < n ==> #[trigger] self@.nodes[j] == self.nodes@[j]@);
            assert(forall|j: int| 0 <= j < n && j != i ==> #[trigger] self@.nodes[j] == pre_view[j]);
            i += 1;
        }
        assert(self@.nodes =~= kept.map_values(relabelled(cs)));
        proof {
            assert forall|j: int| 0 <= j < self@.edges.len() implies has_node(
                self@.nodes,
                #[trigger] self@.edges[j].from,
            ) && has_node(self@.nodes, self@.edges[j].to) by {
                let e = self@.edges[j];
                assert(edge_joins(kept)(e));
                let a = choose|a: int| 0 <= a < kept.len() && kept[a].id == e.from;
                let b = choose|b: int| 0 <= b < kept.len() && kept[b].id == e.to;
                assert(self@.nodes[a].id == e.from);
                assert(self@.nodes[b].id == e.to);
            }
        }
    }
}

/// Taking a concept off a diagram whose relations all join its nodes leaves
/// no relation pointing at a node that is gone.
pub proof fn removing_a_concept_leaves_no_dangling_edges(g: GraphView, concept_id: Id)
    requires
        no_dangling_edges(g),
    ensures
        no_dangling_edges(
            GraphView {
                nodes: g.nodes.filter(hides_concept(concept_id)),
                edges: g.edges.filter(edge_spared(g.nodes, concept_id)),
            },
        ),
        forall|i: int| 0 <= i < g.nodes.filter(hides_concept(concept_id)).len()
            ==> (#[trigger] g.nodes.filter(hides_concept(concept_id))[i]).concept_id != concept_id,
{
    broadcast use vstd::seq_lib::group_filter_ensures;
    let keep_node = hides_concept(concept_id);
    let keep_edge = edge_spared(g.nodes, concept_id);
    let nodes = g.nodes.filter(keep_node);
    let edges = g.edges.filter(keep_edge);
    assert forall|i: int| 0 <= i < edges.len() implies has_node(nodes, #[trigger] edges[i].from)
        && has_node(nodes, edges[i].to) by {
        let e = edges[i];
        assert(keep_edge(e));
        assert(edges.contains(e));
        g.edges.lemma_filter_contains_rev(keep_edge, e);
        let k = choose|k: int| 0 <= k < g.edges.len() && g.edges[k] == e;
        assert(has_node(g.nodes, g.edges[k].from) && has_node(g.nodes, g.edges[k].to));
        let a = choose|a: int| 0 <= a < g.nodes.len() && g.nodes[a].id == e.from;
        let b = choose|b: int| 0 <= b < g.nodes.len() && g.nodes[b].id == e.to;
        assert(!doomed(g.nodes, concept_id, e.from));
        assert(g.nodes[a].concept_id != concept_id);
        assert(keep_node(g.nodes[a]));
        assert(nodes.contains(g.nodes[a]));
        let a2 = choose|a2: int| 0 <= a2 < nodes.len() && nodes[a2] == g.nodes[a];
        assert(nodes[a2].id == e.from);
        assert(!doomed(g.nodes, concept_id, e.to));
        assert(keep_node(g.nodes[b]));
        assert(nodes.contains(g.nodes[b]));
        let b2 = choose|b2: int| 0 <= b2 < nodes.len() && nodes[b2] == g.nodes[b];
        assert(nodes[b2].id == e.to);
    }
    assert forall|i: int| 0 <= i < nodes.len() implies (#[trigger] nodes[i]).concept_id != concept_id by {
        assert(keep_node(nodes[i]));
    }
}

} // verus!
