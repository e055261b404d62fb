use kant::concept_model::{DiagramEdge, DiagramNode, PortSide, RelationKind};
use kant::edge_router::{compute_port_assignments, select_ports, EdgeRouter, NodeBox, RouteEdge};
use kant::routes::{ArrowHead, BridgeHop, Diamond, RoutePoint};

fn node(id: u128, x: i64, y: i64) -> NodeBox {
    NodeBox { id, x, y, width: 100, height: 50 }
}

fn relation(from: u128, to: u128, kind: RelationKind) -> RouteEdge {
    RouteEdge { from, to, kind, source_port: None, target_port: None, directed: false }
}

#[test]
fn association_leaves_towards_a_target_on_the_right() {
    let f = node(1, 0, 0);
    let t = node(2, 300, 0);
    assert_eq!(select_ports(&f, &t, RelationKind::Association, None, None), (PortSide::Right, PortSide::Left));
    assert_eq!(select_ports(&t, &f, RelationKind::Association, None, None), (PortSide::Left, PortSide::Right));
}

#[test]
fn association_leaves_downwards_towards_a_target_below() {
    let f = node(1, 0, 0);
    let t = node(2, 20, 300);
    assert_eq!(select_ports(&f, &t, RelationKind::Composition, None, None), (PortSide::Bottom, PortSide::Top));
}

#[test]
fn generalization_leaves_a_lower_subclass_upwards() {
    let sub = node(1, 0, 300);
    let sup = node(2, 0, 0);
    assert_eq!(select_ports(&sub, &sup, RelationKind::Generalization, None, None), (PortSide::Top, PortSide::Bottom));
}

#[test]
fn generalization_squeezed_beside_its_superclass_enters_from_the_right() {
    let sub = node(1, 0, 0);
    let sup = node(2, 50, 20);
    assert_eq!(select_ports(&sub, &sup, RelationKind::Generalization, None, None), (PortSide::Right, PortSide::Right));
}

#[test]
fn sides_are_kept_within_the_tolerance() {
    let f = node(1, 0, 0);
    let t = node(2, 97, 0);
    assert_eq!(
        select_ports(&f, &t, RelationKind::Association, Some(PortSide::Right), Some(PortSide::Left)),
        (PortSide::Right, PortSide::Left)
    );
}

#[test]
fn sides_change_once_the_target_has_crossed() {
    let f = node(1, 0, 0);
    let t = node(2, 0, 300);
    assert_eq!(
        select_ports(&f, &t, RelationKind::Association, Some(PortSide::Right), Some(PortSide::Left)),
        (PortSide::Bottom, PortSide::Top)
    );
}

#[test]
fn relations_sharing_a_side_are_spread_in_order() {
    let nodes = vec![node(1, 0, 0), node(2, 300, 200), node(3, 300, -200), node(4, 300, 0)];
    let edges = vec![
        relation(1, 2, RelationKind::Association),
        relation(1, 3, RelationKind::Association),
        relation(1, 4, RelationKind::Association),
    ];
    let res = compute_port_assignments(&nodes, &edges);
    assert_eq!(res.len(), 3);
    for (i, a) in res.iter().enumerate() {
        assert_eq!(a.edge_idx, i);
        assert_eq!(a.channel_index, i);
        assert_eq!(a.from_id, 1);
        assert_eq!(a.from_side, PortSide::Right);
        assert_eq!(a.to_side, PortSide::Left);
        assert_eq!(a.to_slot_offset, 0);
    }
    assert_eq!(res[0].from_slot_offset, 24);
    assert_eq!(res[1].from_slot_offset, -24);
    assert_eq!(res[2].from_slot_offset, 0);
}

#[test]
fn level_relations_keep_the_order_of_the_relations() {
    let nodes = vec![node(1, 0, 0), node(2, 300, 0)];
    let edges = vec![relation(1, 2, RelationKind::Association), relation(1, 2, RelationKind::Composition)];
    let res = compute_port_assignments(&nodes, &edges);
    assert_eq!(res.len(), 2);
    assert_eq!(res[0].from_slot_offset, -12);
    assert_eq!(res[1].from_slot_offset, 12);
    assert_eq!(res[0].to_slot_offset, -12);
    assert_eq!(res[1].to_slot_offset, 12);
}

#[test]
fn arriving_generalizations_share_the_middle() {
    let nodes = vec![node(10, 0, 0), node(1, -200, 300), node(2, 0, 300), node(3, 200, 300)];
    let edges = vec![
        relation(1, 10, RelationKind::Generalization),
        relation(2, 10, RelationKind::Generalization),
        relation(3, 10, RelationKind::Generalization),
    ];
    let res = compute_port_assignments(&nodes, &edges);
    assert_eq!(res.len(), 3);
    for a in res.iter() {
        assert_eq!(a.to_id, 10);
        assert_eq!(a.from_side, PortSide::Top);
        assert_eq!(a.to_side, PortSide::Bottom);
        assert_eq!(a.from_slot_offset, 0);
        assert_eq!(a.to_slot_offset, 0);
    }
}

#[test]
fn relations_to_missing_nodes_are_left_out() {
    let nodes = vec![node(1, 0, 0), node(2, 300, 0)];
    let edges = vec![relation(1, 99, RelationKind::Association), relation(1, 2, RelationKind::Association)];
    let res = compute_port_assignments(&nodes, &edges);
    assert_eq!(res.len(), 1);
    assert_eq!(res[0].edge_idx, 1);
    assert_eq!(res[0].channel_index, 0);
    assert_eq!(res[0].to_id, 2);
}

#[test]
fn concept_diagram_relations_are_assigned_like_boxes() {
    let nodes = vec![
        DiagramNode::restore(1, 11, "A", 0, 0, 100, 50),
        DiagramNode::restore(2, 12, "B", 300, 0, 100, 50),
    ];
    let edges = vec![DiagramEdge::new(1, 2, RelationKind::Association)];
    let res = EdgeRouter::assign_ports(&nodes, &edges);
    assert_eq!(res.len(), 1);
    assert_eq!(res[0].from_side, PortSide::Right);
    assert_eq!(res[0].to_side, PortSide::Left);
    assert_eq!(res[0].from_slot_offset, 0);
}

fn pt(x: i128, y: i128) -> RoutePoint {
    RoutePoint { x, y }
}

fn concept_node(id: u128, x: i64, y: i64) -> DiagramNode {
    DiagramNode::restore(id, id + 100, "N", x, y, 100, 50)
}

#[test]
fn facing_nodes_are_joined_by_one_straight_segment() {
    let nodes = vec![concept_node(1, 0, 0), concept_node(2, 300, 0)];
    let mut edge = DiagramEdge::new(1, 2, RelationKind::Association);
    edge.set_label(Some("ejer".to_string()));
    let routes = EdgeRouter::route_edges(&nodes, &[edge]);
    assert_eq!(routes.len(), 1);
    let r = &routes[0];
    assert_eq!(r.from, 1);
    assert_eq!(r.to, 2);
    assert_eq!(r.points, vec![pt(800, 200), pt(2400, 200)]);
    assert_eq!(r.label.as_deref(), Some("ejer"));
    assert_eq!(r.label_pos, Some(pt(1600, 120)));
    assert!(r.arrow_head.is_none());
    assert!(r.half_arrow.is_none());
    assert!(r.source_diamond.is_none());
    assert!(r.bridges.is_empty());
}

#[test]
fn generalization_ends_in_an_arrowhead_and_drops_its_label() {
    let nodes = vec![concept_node(1, 0, 300), concept_node(2, 0, 0)];
    let mut edge = DiagramEdge::new(1, 2, RelationKind::Generalization);
    edge.set_label(Some("er en".to_string()));
    let routes = EdgeRouter::route_edges(&nodes, &[edge]);
    assert_eq!(routes.len(), 1);
    let r = &routes[0];
    assert_eq!(r.from_side, PortSide::Top);
    assert_eq!(r.to_side, PortSide::Bottom);
    assert_eq!(
        r.arrow_head,
        Some(ArrowHead { tip: pt(400, 400), left: pt(344, 512), right: pt(456, 512), direction: PortSide::Bottom })
    );
    assert_eq!(r.points, vec![pt(400, 2400), pt(400, 512)]);
    assert!(r.label.is_none());
    assert!(r.label_pos.is_none());
}

#[test]
fn composition_starts_behind_its_diamond() {
    let nodes = vec![concept_node(1, 0, 0), concept_node(2, 300, 0)];
    let routes = EdgeRouter::route_edges(&nodes, &[DiagramEdge::new(1, 2, RelationKind::Composition)]);
    assert_eq!(routes.len(), 1);
    let r = &routes[0];
    assert_eq!(
        r.source_diamond,
        Some(Diamond {
            tip: pt(800, 200),
            left: pt(856, 144),
            right: pt(856, 256),
            back: pt(912, 200),
            direction: PortSide::Right,
        })
    );
    assert_eq!(r.points, vec![pt(912, 200), pt(2400, 200)]);
}

#[test]
fn crossing_routes_get_a_hop_on_the_horizontal_one() {
    let nodes = vec![concept_node(1, 0, 0), concept_node(2, 600, 0), concept_node(3, 300, -300), concept_node(4, 300, 300)];
    let edges = vec![DiagramEdge::new(1, 2, RelationKind::Association), DiagramEdge::new(3, 4, RelationKind::Association)];
    let routes = EdgeRouter::route_edges(&nodes, &edges);
    assert_eq!(routes.len(), 2);
    assert_eq!(routes[0].points, vec![pt(800, 200), pt(4800, 200)]);
    assert_eq!(routes[1].points, vec![pt(2800, -2000), pt(2800, 2400)]);
    assert_eq!(routes[0].bridges, vec![BridgeHop { center: pt(2800, 200), is_horizontal: true }]);
    assert!(routes[1].bridges.is_empty());
}

#[test]
fn routes_skip_relations_to_missing_nodes() {
    let nodes = vec![concept_node(1, 0, 0)];
    let routes = EdgeRouter::route_edges(&nodes, &[DiagramEdge::new(1, 9, RelationKind::Association)]);
    assert!(routes.is_empty());
}

#[test]
fn squeezed_generalization_bends_round_to_the_right() {
    let nodes = vec![concept_node(1, 0, 0), concept_node(2, 50, 20)];
    let routes = EdgeRouter::route_edges(&nodes, &[DiagramEdge::new(1, 2, RelationKind::Generalization)]);
    assert_eq!(routes.len(), 1);
    let r = &routes[0];
    assert_eq!(r.from_side, PortSide::Right);
    assert_eq!(r.to_side, PortSide::Right);
    assert_eq!(r.points, vec![pt(800, 200), pt(1600, 200), pt(1600, 360), pt(1312, 360)]);
    assert_eq!(
        r.arrow_head,
        Some(ArrowHead { tip: pt(1200, 360), left: pt(1312, 304), right: pt(1312, 416), direction: PortSide::Right })
    );
    for w in r.points.windows(2) {
        assert!(w[0].x == w[1].x || w[0].y == w[1].y);
    }
}
