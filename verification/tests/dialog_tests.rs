use kant::class_graph::ClassGraph;
use kant::concept_model::{ConceptGraph, RelationKind};
use kant::concepts::{BelongsToDomain, Concept};
use kant::dialogs::{AttributeConceptOption, ConceptOption, NodeOption, RelationDialogState};
use kant::information_model::{InformationClass, InformationModel, Multiplicity};
use kant::model::ModelProject;
use kant::protocol::ModelMutation;

fn concept_graph_with(terms: &[&str]) -> ConceptGraph {
    let mut g = ConceptGraph::new();
    for t in terms {
        let c = Concept::new(t, "Definition", BelongsToDomain::Yes);
        g.add_node(&c);
    }
    g
}

#[test]
fn concept_dialog_offers_the_first_two_nodes() {
    let g = concept_graph_with(&["Vej", "Sti", "Bro"]);
    let d = RelationDialogState::for_concept_graph(&g);
    assert_eq!(d.from_node.as_ref().unwrap().label, "Vej");
    assert_eq!(d.to_node.as_ref().unwrap().label, "Sti");
    assert_eq!(d.kind, RelationKind::Generalization);
    assert!(d.label.is_empty());
    assert!(d.error.is_none());

    let single = concept_graph_with(&["Vej"]);
    let d = RelationDialogState::for_concept_graph(&single);
    assert_eq!(d.from_node, d.to_node);
    assert!(RelationDialogState::for_concept_graph(&ConceptGraph::new()).from_node.is_none());
}

#[test]
fn concept_relation_needs_two_different_nodes() {
    let mut g = concept_graph_with(&["Vej"]);
    let mut d = RelationDialogState::for_concept_graph(&g);
    assert!(d.create_concept_relation(&mut g).is_none());
    assert_eq!(d.error.as_deref(), Some("Kilde og mål kan ikke være det samme begreb."));
    assert_eq!(g.edge_count(), 0);

    let mut empty = ConceptGraph::new();
    let mut d = RelationDialogState::for_concept_graph(&empty);
    assert!(d.create_concept_relation(&mut empty).is_none());
    assert_eq!(d.error.as_deref(), Some("Vælg venligst både kilde og målbegreb."));
}

#[test]
fn concept_relation_is_drawn_and_returned() {
    let mut g = concept_graph_with(&["Vej", "Sti"]);
    let mut d = RelationDialogState::for_concept_graph(&g);
    d.kind = RelationKind::Association;
    d.label = "  forbinder ".to_string();
    let rel = d.create_concept_relation(&mut g).unwrap();
    assert_eq!(rel.label.as_deref(), Some("forbinder"));
    assert_eq!(rel.kind, RelationKind::Association);
    assert_eq!(g.edge_count(), 1);
    assert_eq!(g.edges()[0].label(), Some("forbinder"));

    let mut d = RelationDialogState::for_concept_graph(&g);
    d.label = "ignoreret".to_string();
    let rel = d.create_concept_relation(&mut g).unwrap();
    assert!(rel.label.is_none());
    assert_eq!(g.edges()[1].label(), None);
}

#[test]
fn choosing_an_end_clears_the_error() {
    let mut g = concept_graph_with(&["Vej"]);
    let mut d = RelationDialogState::for_concept_graph(&g);
    d.create_concept_relation(&mut g);
    assert!(d.error.is_some());
    d.set_to(NodeOption { id: 7, label: "Andet".to_string() });
    assert!(d.error.is_none());
    assert_eq!(d.to_node.as_ref().unwrap().id, 7);
    d.error = Some("x".to_string());
    d.set_from(NodeOption { id: 8, label: "Tredje".to_string() });
    assert!(d.error.is_none());
}

#[test]
fn class_dialog_starts_from_the_selected_class() {
    let mut model = InformationModel::new();
    let person = model.add_class(InformationClass::new("Person"));
    let mut graph = ClassGraph::new();
    let node = graph.add_node(person, 0);
    let orphan = graph.add_node(person.wrapping_add(1), 0);

    let d = RelationDialogState::for_class_graph(&graph, &model, Some(node));
    assert_eq!(d.from_node, Some(NodeOption { id: node, label: "Person".to_string() }));
    assert!(d.to_node.is_none());
    let d = RelationDialogState::for_class_graph(&graph, &model, Some(orphan));
    assert_eq!(d.from_node.unwrap().label, "Klasse");
    assert!(RelationDialogState::for_class_graph(&graph, &model, None).from_node.is_none());
}

#[test]
fn class_relation_keeps_multiplicities_except_for_generalizations() {
    let mut model = InformationModel::new();
    let a = model.add_class(InformationClass::new("A"));
    let b = model.add_class(InformationClass::new("B"));
    let mut graph = ClassGraph::new();
    let na = graph.add_node(a, 0);
    let nb = graph.add_node(b, 0);

    let mut d = RelationDialogState::for_class_graph(&graph, &model, Some(na));
    assert!(!d.create_class_relation(&mut graph));
    assert_eq!(d.error.as_deref(), Some("Vælg venligst både en kilde- og destinationsklasse"));

    d.set_to(NodeOption { id: na, label: "A".to_string() });
    assert!(!d.create_class_relation(&mut graph));
    assert_eq!(d.error.as_deref(), Some("En klasse kan ikke have en relation til sig selv"));

    d.set_to(NodeOption { id: nb, label: "B".to_string() });
    d.kind = RelationKind::Association;
    d.label = " har ".to_string();
    d.source_multiplicity = Some(Multiplicity::exactly_one());
    d.target_multiplicity = Some(Multiplicity::zero_or_more());
    assert!(d.create_class_relation(&mut graph));
    let e = graph.find_edge(na, nb).unwrap();
    assert_eq!(e.label(), Some("har"));
    assert_eq!(e.source_multiplicity(), Some(Multiplicity::exactly_one()));
    assert_eq!(e.target_multiplicity(), Some(Multiplicity::zero_or_more()));

    let mut g = RelationDialogState::for_class_graph(&graph, &model, Some(nb));
    g.set_to(NodeOption { id: na, label: "A".to_string() });
    g.source_multiplicity = Some(Multiplicity::exactly_one());
    assert!(g.create_class_relation(&mut graph));
    let e = graph.find_edge(nb, na).unwrap();
    assert_eq!(e.kind(), RelationKind::Generalization);
    assert_eq!(e.source_multiplicity(), None);
    assert_eq!(e.label(), None);
}

#[test]
fn options_show_their_labels() {
    assert_eq!(NodeOption { id: 1, label: "Vej".to_string() }.to_display_string(), "Vej");
    assert_eq!(ConceptOption { id: 1, term: "Sti".to_string() }.to_display_string(), "Sti");
    assert_eq!(AttributeConceptOption { id: None, label: "Ingen".to_string() }.to_display_string(), "Ingen");
}

#[test]
fn a_shared_relation_draws_the_same_on_the_other_side() {
    let mut local = ModelProject::default();
    let vej = Concept::new("Vej", "Et færdselsareal", BelongsToDomain::Yes);
    let sti = Concept::new("Sti", "En smal vej", BelongsToDomain::Yes);
    local.add_concept(vej.clone()).unwrap();
    local.add_concept(sti.clone()).unwrap();
    local.concept_graph_mut().add_node(&vej);
    local.concept_graph_mut().add_node(&sti);
    let mut remote = local.clone();

    let mut d = RelationDialogState::for_concept_graph(local.concept_graph());
    d.kind = RelationKind::Association;
    d.label = "fører til".to_string();
    let rel = d.create_concept_relation(local.concept_graph_mut()).unwrap();
    remote.apply_mutation(ModelMutation::RelationAdded(rel));

    assert_eq!(remote, local);
}
