use kant::class_graph::{ClassGraph, MIN_CLASS_NODE_HEIGHT};
use kant::concept_model::{ConceptGraph, PortSide, RelationKind, GRID_SIZE};
use kant::concepts::{BelongsToDomain, Concept};
fn random_id() -> u128 {
    uuid::Uuid::new_v4().as_u128()
}
use kant::information_model::{
    calculate_class_node_height, Attribute, InformationClass, InformationModel, Multiplicity, PrimitiveType,
};

#[test]
fn test_class_graph_lifecycle_and_cascading_removal() {
    let mut graph = ClassGraph::new();
    let class_1 = random_id();
    let class_2 = random_id();

    let n1 = graph.add_node(class_1, 0);
    let n2 = graph.add_node(class_2, 2);

    assert_eq!(graph.node_count(), 2);
    assert!(graph.is_class_on_diagram(class_1));
    assert!(graph.is_class_on_diagram(class_2));

    let node_1 = graph.find_node(n1).unwrap();
    let node_2 = graph.find_node(n2).unwrap();
    assert_eq!(node_1.height(), MIN_CLASS_NODE_HEIGHT);
    assert!(node_2.height() > node_1.height());

    graph.add_relation(n2, n1, RelationKind::Generalization, None);
    assert_eq!(graph.edge_count(), 1);

    graph.remove_class_node(class_1);
    assert_eq!(graph.node_count(), 1);
    assert_eq!(graph.edge_count(), 0, "Relationer skal kaskadeslettes uden hængende kanter");
}

#[test]
fn test_class_node_height_snaps_to_grid_increments() {
    for attr_count in 0..10 {
        let h = calculate_class_node_height(attr_count);
        assert_eq!(
            h % GRID_SIZE as u64,
            0,
            "Højde for {} attributter ({}) skal være et multiplum af GRID_SIZE (20.0)",
            attr_count,
            h
        );
        if attr_count > 0 {
            let prev_h = calculate_class_node_height(attr_count - 1);
            assert!(h >= prev_h, "Højde skal være monotont voksende");
        }
    }
}

#[test]
fn class_node_heights_exactly() {
    assert_eq!(calculate_class_node_height(0), 80);
    assert_eq!(calculate_class_node_height(1), 100);
    assert_eq!(calculate_class_node_height(2), 120);
    assert_eq!(calculate_class_node_height(10), 280);
    assert_eq!(calculate_class_node_height(usize::MAX), 18446744073709551600);
}

#[test]
fn class_nodes_are_placed_three_wide() {
    let mut graph = ClassGraph::new();
    let ids: Vec<_> = (0..4).map(|_| graph.add_node(random_id(), 0)).collect();
    let pos: Vec<(i64, i64)> = ids.iter().map(|id| {
        let n = graph.find_node(*id).unwrap();
        (n.x(), n.y())
    }).collect();
    assert_eq!(pos, vec![(60, 60), (320, 60), (580, 60), (60, 220)]);
    assert_eq!(graph.find_node(ids[0]).unwrap().width(), 220);
}

#[test]
fn adding_a_class_twice_keeps_one_node() {
    let mut graph = ClassGraph::new();
    let class = random_id();
    let first = graph.add_node(class, 1);
    let second = graph.add_node(class, 5);
    assert_eq!(first, second);
    assert_eq!(graph.node_count(), 1);
    assert_eq!(graph.find_node_by_class(class).unwrap().height(), 100);
}

#[test]
fn relations_need_two_distinct_nodes_and_are_not_duplicated() {
    let mut graph = ClassGraph::new();
    let a = graph.add_node(random_id(), 0);
    let b = graph.add_node(random_id(), 0);
    graph.add_relation(a, a, RelationKind::Association, None);
    assert_eq!(graph.edge_count(), 0);
    graph.add_relation(a, random_id(), RelationKind::Association, None);
    assert_eq!(graph.edge_count(), 0);
    graph.add_relation(a, b, RelationKind::Association, Some("har".to_string()));
    graph.add_relation(a, b, RelationKind::Association, None);
    assert_eq!(graph.edge_count(), 1);
    graph.add_relation(a, b, RelationKind::Composition, None);
    assert_eq!(graph.edge_count(), 2);
    let e = graph.find_edge(a, b).unwrap();
    assert_eq!(e.label(), Some("har"));
    assert!(e.is_directed());
    assert_eq!(e.directed(), Some(true));
}

#[test]
fn edge_updates_hit_the_first_relation() {
    let mut graph = ClassGraph::new();
    let a = graph.add_node(random_id(), 0);
    let b = graph.add_node(random_id(), 0);
    graph.add_relation_with_multiplicities(
        a,
        b,
        RelationKind::Generalization,
        None,
        Some(Multiplicity::exactly_one()),
        Some(Multiplicity::zero_or_more()),
    );
    assert!(!graph.find_edge(a, b).unwrap().is_directed());
    assert!(graph.update_edge_kind(a, b, RelationKind::Association));
    assert_eq!(graph.find_edge(a, b).unwrap().directed(), Some(true));
    assert!(graph.update_edge_directed(a, b, false));
    assert!(!graph.find_edge(a, b).unwrap().is_directed());
    assert!(graph.update_edge_label(a, b, Some("ejer".to_string())));
    assert!(graph.update_edge_ports(a, b, Some(PortSide::Right), Some(PortSide::Left)));
    assert!(graph.update_edge_source_multiplicity(a, b, None));
    assert!(graph.update_edge_target_multiplicity(a, b, Some(Multiplicity::one_or_more())));
    let e = graph.find_edge(a, b).unwrap();
    assert_eq!(e.label(), Some("ejer"));
    assert_eq!(e.source_port(), Some(PortSide::Right));
    assert_eq!(e.target_port(), Some(PortSide::Left));
    assert_eq!(e.source_multiplicity(), None);
    assert_eq!(e.target_multiplicity(), Some(Multiplicity::one_or_more()));
    assert!(!graph.update_edge_kind(b, a, RelationKind::Composition));
}

#[test]
fn reversing_twice_gives_the_relation_back() {
    let mut graph = ClassGraph::new();
    let a = graph.add_node(random_id(), 0);
    let b = graph.add_node(random_id(), 0);
    graph.add_relation_with_multiplicities(
        a,
        b,
        RelationKind::Association,
        Some("har".to_string()),
        Some(Multiplicity::exactly_one()),
        Some(Multiplicity::zero_or_more()),
    );
    graph.update_edge_ports(a, b, Some(PortSide::Top), Some(PortSide::Bottom));
    let before = graph.find_edge(a, b).unwrap().clone();
    assert!(graph.reverse_relation(a, b));
    let r = graph.find_edge(b, a).unwrap();
    assert_eq!(r.source_port(), Some(PortSide::Bottom));
    assert_eq!(r.target_multiplicity(), Some(Multiplicity::exactly_one()));
    assert!(graph.find_edge(a, b).is_none());
    assert!(graph.reverse_relation(b, a));
    assert_eq!(graph.find_edge(a, b).unwrap(), &before);
    assert!(!graph.reverse_relation(b, a));
}

#[test]
fn removing_a_node_removes_its_relations() {
    let mut graph = ClassGraph::new();
    let a = graph.add_node(random_id(), 0);
    let b = graph.add_node(random_id(), 0);
    let c = graph.add_node(random_id(), 0);
    graph.add_relation(a, b, RelationKind::Association, None);
    graph.add_relation(c, a, RelationKind::Composition, None);
    graph.add_relation(b, c, RelationKind::Generalization, None);
    graph.remove_node(a);
    assert_eq!(graph.node_count(), 2);
    assert_eq!(graph.edge_count(), 1);
    assert_eq!(graph.edges()[0].from(), b);
    graph.remove_relation(b, c);
    assert_eq!(graph.edge_count(), 0);
}

#[test]
fn moving_and_resizing_nodes() {
    let mut graph = ClassGraph::new();
    let class = random_id();
    let a = graph.add_node(class, 0);
    graph.update_node_position(a, -40, 100);
    graph.update_class_dimensions(class, 3);
    let n = graph.find_node(a).unwrap();
    assert_eq!((n.x(), n.y(), n.height()), (-40, 100, 140));
}

#[test]
fn syncing_with_the_model_drops_what_is_gone() {
    let mut model = InformationModel::new();
    let mut kept = InformationClass::new("Adresse");
    kept.add_attribute(Attribute::new("vejnavn", PrimitiveType::all()[0], Multiplicity::exactly_one()));
    kept.add_attribute(Attribute::new("husnummer", PrimitiveType::all()[0], Multiplicity::exactly_one()));
    let kept_id = kept.id();
    model.add_class(kept);
    let gone_id = random_id();

    let mut graph = ClassGraph::new();
    let a = graph.add_node(kept_id, 0);
    let b = graph.add_node(gone_id, 0);
    graph.add_relation(a, b, RelationKind::Association, None);
    graph.sync_with_information_model(&model);
    assert_eq!(graph.node_count(), 1);
    assert_eq!(graph.edge_count(), 0);
    assert_eq!(graph.find_node(a).unwrap().height(), 120);
}

#[test]
fn concept_nodes_are_placed_four_wide() {
    let mut graph = ConceptGraph::new();
    let concepts: Vec<Concept> = (0..5).map(|i| Concept::new(&format!("C{i}"), "d", BelongsToDomain::Yes)).collect();
    let ids: Vec<_> = concepts.iter().map(|c| graph.add_node(c)).collect();
    let pos: Vec<(i64, i64)> = graph.nodes().iter().map(|n| (n.x(), n.y())).collect();
    assert_eq!(pos, vec![(60, 60), (260, 60), (460, 60), (660, 60), (60, 180)]);
    assert_eq!(graph.find_node(ids[4]).unwrap().label(), "C4");
    assert_eq!((graph.nodes()[0].width(), graph.nodes()[0].height()), (160, 80));
    assert!(graph.is_concept_on_diagram(concepts[2].id()));
}

#[test]
fn concept_relations_are_drawn_as_asked() {
    let mut graph = ConceptGraph::new();
    let c = Concept::new("A", "a", BelongsToDomain::Yes);
    let a = graph.add_node(&c);
    graph.add_relation(a, a, RelationKind::Generalization);
    assert_eq!(graph.edge_count(), 1);
    assert_eq!(graph.edges()[0].kind(), RelationKind::Generalization);
    assert_eq!(graph.edges()[0].label(), None);
}

#[test]
fn syncing_concepts_relabels_and_prunes() {
    let a = Concept::new("A", "a", BelongsToDomain::Yes);
    let b = Concept::new("B", "b", BelongsToDomain::Yes);
    let mut graph = ConceptGraph::new();
    let na = graph.add_node(&a);
    let nb = graph.add_node(&b);
    graph.add_relation(na, nb, RelationKind::Association);
    let mut renamed = Concept::new_with_id(a.id(), "A2", "a", BelongsToDomain::Yes);
    renamed.set_example(None);
    graph.sync_with_concepts(&[renamed]);
    assert_eq!(graph.node_count(), 1);
    assert_eq!(graph.nodes()[0].label(), "A2");
    assert_eq!(graph.edge_count(), 0);
}

#[test]
fn removing_a_concept_node_cascades() {
    let a = Concept::new("A", "a", BelongsToDomain::Yes);
    let b = Concept::new("B", "b", BelongsToDomain::Yes);
    let mut graph = ConceptGraph::new();
    let na = graph.add_node(&a);
    let nb = graph.add_node(&b);
    graph.add_relation(na, nb, RelationKind::Association);
    graph.add_relation(nb, nb, RelationKind::Composition);
    graph.remove_node_by_concept(a.id());
    assert_eq!(graph.node_count(), 1);
    assert_eq!(graph.edge_count(), 1);
    assert!(!graph.is_concept_on_diagram(a.id()));
}

#[test]
fn class_diagram_parts_can_be_changed_in_place() {
    let mut graph = ClassGraph::new();
    let class_1 = random_id();
    let class_2 = random_id();
    let n1 = graph.add_node(class_1, 0);
    let n2 = graph.add_node(class_2, 0);
    graph.add_relation(n1, n2, RelationKind::Association, None);

    graph.find_node_mut(n1).unwrap().set_position(40, 60);
    assert_eq!(graph.find_node(n1).unwrap().x(), 40);
    assert_eq!(graph.find_node(n1).unwrap().y(), 60);

    graph.find_node_by_class_mut(class_2).unwrap().set_position(-20, 0);
    assert_eq!(graph.find_node(n2).unwrap().x(), -20);

    graph.find_edge_mut(n1, n2).unwrap().set_kind(RelationKind::Composition);
    assert_eq!(graph.find_edge(n1, n2).unwrap().kind(), RelationKind::Composition);
    assert!(graph.find_edge_mut(n2, n1).is_none());
    assert!(graph.find_node_mut(random_id()).is_none());

    graph.edges_mut().clear();
    assert_eq!(graph.edge_count(), 0);
    graph.nodes_mut().pop();
    assert_eq!(graph.node_count(), 1);
}

#[test]
fn information_classes_can_be_changed_in_place() {
    let mut model = InformationModel::new();
    let id = model.add_class(InformationClass::new("Person"));
    model.get_class_mut(id).unwrap().set_name("Borger");
    assert_eq!(model.get_class(id).unwrap().name(), "Borger");
    model
        .get_class_mut(id)
        .unwrap()
        .attributes_mut()
        .push(Attribute::new("navn", PrimitiveType::CharacterString, Multiplicity::exactly_one()));
    assert_eq!(model.get_class(id).unwrap().attributes().len(), 1);
    model.classes_mut().clear();
    assert!(model.get_class(id).is_none());
}

#[test]
fn class_node_contains_points_on_and_inside_its_border() {
    let mut graph = ClassGraph::new();
    let id = graph.add_node(random_id(), 0);
    graph.update_node_position(id, 10, 20);
    let node = graph.find_node(id).unwrap();
    let (w, h) = (node.width() as i64, node.height() as i64);
    assert!(node.contains(10, 20));
    assert!(node.contains(10 + w, 20 + h));
    assert!(node.contains(15, 25));
    assert!(!node.contains(9, 25));
    assert!(!node.contains(15, 21 + h));
}
