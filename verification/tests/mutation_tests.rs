use kant::concept_model::RelationKind;
use kant::concepts::{BelongsToDomain, Concept};
use kant::information_model::{Attribute, InformationClass, Multiplicity, PrimitiveType};
use kant::model::ModelProject;
use kant::protocol::{ModelMutation, Relation};

fn concept(term: &str) -> Concept {
    Concept::new(term, "definition", BelongsToDomain::Yes)
}

#[test]
fn concept_added_once_with_a_node() {
    let mut p = ModelProject::default();
    let c = concept("Vej");
    let id = c.id();
    p.apply_mutation(ModelMutation::ConceptAdded(c.clone()));
    assert_eq!(p.concepts().len(), 1);
    assert_eq!(p.concept_graph().node_count(), 1);
    assert_eq!(p.concept_graph().nodes()[0].concept_id(), id);
    p.apply_mutation(ModelMutation::ConceptAdded(c));
    assert_eq!(p.concepts().len(), 1);
    assert_eq!(p.concept_graph().node_count(), 1);
}

#[test]
fn concept_updated_relabels_and_deleted_cascades() {
    let mut p = ModelProject::default();
    let a = concept("A");
    let b = concept("B");
    let (ida, idb) = (a.id(), b.id());
    p.apply_mutation(ModelMutation::ConceptAdded(a));
    p.apply_mutation(ModelMutation::ConceptAdded(b));
    let na = p.concept_graph().nodes()[0].id();
    let nb = p.concept_graph().nodes()[1].id();
    p.apply_mutation(ModelMutation::RelationAdded(Relation::with_label(
        na,
        nb,
        RelationKind::Association,
        Some("har".to_string()),
    )));
    assert_eq!(p.concept_graph().edges()[0].label(), Some("har"));
    let renamed = Concept::new_with_id(ida, "A2", "definition", BelongsToDomain::Yes);
    p.apply_mutation(ModelMutation::ConceptUpdated(renamed));
    assert_eq!(p.get_concept(ida).unwrap().preferred_term(), "A2");
    assert_eq!(p.concept_graph().nodes()[0].label(), "A2");
    p.apply_mutation(ModelMutation::RelationUpdated(Relation::with_id(
        0,
        na,
        nb,
        RelationKind::Composition,
        None,
    )));
    assert_eq!(p.concept_graph().edges()[0].kind(), RelationKind::Composition);
    assert_eq!(p.concept_graph().edges()[0].label(), None);
    p.apply_mutation(ModelMutation::ConceptDeleted(ida));
    assert_eq!(p.concepts().len(), 1);
    assert_eq!(p.concept_graph().node_count(), 1);
    assert_eq!(p.concept_graph().edge_count(), 0);
    assert!(p.get_concept(idb).is_some());
}

#[test]
fn diagram_nodes_come_and_go() {
    let mut p = ModelProject::default();
    let c = concept("C");
    let id = c.id();
    p.add_concept(c).unwrap();
    assert_eq!(p.concept_graph().node_count(), 0);
    p.apply_mutation(ModelMutation::ConceptDiagramNodeAdded(id));
    p.apply_mutation(ModelMutation::ConceptDiagramNodeAdded(id));
    assert_eq!(p.concept_graph().node_count(), 1);
    p.apply_mutation(ModelMutation::ConceptDiagramNodeAdded(12345));
    assert_eq!(p.concept_graph().node_count(), 1);
    p.apply_mutation(ModelMutation::ConceptDiagramNodeRemoved(id));
    assert_eq!(p.concept_graph().node_count(), 0);
}

#[test]
fn classes_and_class_relations() {
    let mut p = ModelProject::default();
    let mut person = InformationClass::new("Person");
    person.add_attribute(Attribute::new("navn", PrimitiveType::CharacterString, Multiplicity::exactly_one()));
    let address = InformationClass::new("Adresse");
    let (pid, aid) = (person.id(), address.id());
    p.apply_mutation(ModelMutation::InformationClassAdded(person.clone()));
    p.apply_mutation(ModelMutation::InformationClassAdded(person));
    p.apply_mutation(ModelMutation::InformationClassAdded(address));
    assert_eq!(p.information_model().classes().len(), 2);
    assert_eq!(p.information_graph().node_count(), 2);
    assert_eq!(p.information_graph().find_node_by_class(pid).unwrap().height(), 100);

    p.apply_mutation(ModelMutation::ClassRelationAdded {
        from_class: pid,
        to_class: aid,
        kind: RelationKind::Association,
        label: Some("bor på".to_string()),
        source_multiplicity: Some(Multiplicity::zero_or_more()),
        target_multiplicity: Some(Multiplicity::exactly_one()),
        directed: Some(false),
    });
    let np = p.information_graph().find_node_by_class(pid).unwrap().id();
    let na = p.information_graph().find_node_by_class(aid).unwrap().id();
    let e = p.information_graph().find_edge(np, na).unwrap();
    assert_eq!(e.label(), Some("bor på"));
    assert_eq!(e.directed(), Some(false));
    assert_eq!(e.target_multiplicity(), Some(Multiplicity::exactly_one()));

    p.apply_mutation(ModelMutation::ClassRelationDeleted { from_class: pid, to_class: aid });
    assert_eq!(p.information_graph().edge_count(), 0);

    let renamed = InformationClass::restore(aid, "Bopæl", None, vec![], vec![]);
    p.apply_mutation(ModelMutation::InformationClassUpdated(renamed));
    assert_eq!(p.information_model().get_class(aid).unwrap().name(), "Bopæl");

    p.apply_mutation(ModelMutation::ClassDiagramNodeRemoved(aid));
    assert_eq!(p.information_graph().node_count(), 1);
    p.apply_mutation(ModelMutation::ClassDiagramNodeAdded(aid));
    assert_eq!(p.information_graph().node_count(), 2);
    p.apply_mutation(ModelMutation::InformationClassDeleted(pid));
    assert_eq!(p.information_model().classes().len(), 1);
    assert_eq!(p.information_graph().node_count(), 1);
}

#[test]
fn node_moves_find_concept_nodes_then_class_nodes() {
    let mut p = ModelProject::default();
    let c = concept("C");
    let cid = c.id();
    p.apply_mutation(ModelMutation::ConceptAdded(c));
    let nid = p.concept_graph().nodes()[0].id();
    p.apply_mutation(ModelMutation::NodeMoved { id: nid, x: 400, y: 220 });
    assert_eq!((p.concept_graph().nodes()[0].x(), p.concept_graph().nodes()[0].y()), (400, 220));
    p.apply_mutation(ModelMutation::NodeMoved { id: cid, x: 20, y: 40 });
    assert_eq!((p.concept_graph().nodes()[0].x(), p.concept_graph().nodes()[0].y()), (20, 40));

    let class = InformationClass::new("K");
    let kid = class.id();
    p.apply_mutation(ModelMutation::InformationClassAdded(class));
    let knode = p.information_graph().find_node_by_class(kid).unwrap().id();
    p.apply_mutation(ModelMutation::NodeMoved { id: knode, x: -60, y: 0 });
    let n = p.information_graph().find_node(knode).unwrap();
    assert_eq!((n.x(), n.y()), (-60, 0));
}

#[test]
fn relation_deleted_removes_every_copy() {
    let mut p = ModelProject::default();
    p.apply_mutation(ModelMutation::RelationAdded(Relation::new(1, 2, RelationKind::Generalization)));
    p.apply_mutation(ModelMutation::RelationAdded(Relation::new(1, 2, RelationKind::Association)));
    p.apply_mutation(ModelMutation::RelationAdded(Relation::new(2, 1, RelationKind::Association)));
    p.apply_mutation(ModelMutation::RelationDeleted { from: 1, to: 2 });
    assert_eq!(p.concept_graph().edge_count(), 1);
    assert_eq!(p.concept_graph().edges()[0].from(), 2);
}
