use kant::project_files::{is_project_file_name, DialogResult};
use kant::concepts::{BelongsToDomain, Concept, ValidationError};
use kant::model::{ModelMetadata, ModelProject, ModelStatus, ProjectStorage};

#[test]
fn test_model_metadata_setters_and_status() {
    let mut meta = ModelMetadata::new("Orig", "Desc", "https://orig", "Org", "Domain", "1.0.0", ModelStatus::Draft);

    meta.set_name("Updated Name");
    meta.set_description("Updated Desc");
    meta.set_uri("https://updated");
    meta.set_responsible_org("Updated Org");
    meta.set_domain_area("Updated Domain");
    meta.set_version("2.0.0");
    meta.set_status(ModelStatus::Approved);

    assert_eq!(meta.name(), "Updated Name");
    assert_eq!(meta.description(), "Updated Desc");
    assert_eq!(meta.uri(), "https://updated");
    assert_eq!(meta.responsible_org(), "Updated Org");
    assert_eq!(meta.domain_area(), "Updated Domain");
    assert_eq!(meta.version(), "2.0.0");
    assert_eq!(meta.status(), ModelStatus::Approved);

    assert_eq!(ModelStatus::all().len(), 3);
    assert_eq!(ModelStatus::Draft.display_text(), "Udkast (Draft)");
    assert_eq!(ModelStatus::Candidate.display_text(), "Kandidat (Candidate)");
    assert_eq!(ModelStatus::Approved.display_text(), "Godkendt (Approved)");
}

#[test]
fn legal_source_is_optional() {
    let mut meta = ModelMetadata::placeholder();
    assert_eq!(meta.name(), "Nyt FDA Modelprojekt");
    assert_eq!(meta.version(), "0.1.0");
    assert_eq!(meta.status(), ModelStatus::Draft);
    assert_eq!(meta.legal_source(), None);
    meta.set_legal_source(Some("Lov nr. 1".to_string()));
    assert_eq!(meta.legal_source(), Some("Lov nr. 1"));
}

#[test]
fn default_project_is_empty() {
    let p = ModelProject::default();
    assert_eq!(p.metadata().name(), "Nyt FDA Modelprojekt");
    assert!(p.concepts().is_empty());
    assert_eq!(p.concept_graph().node_count(), 0);
    assert!(p.information_model().classes().is_empty());
    assert_eq!(p.information_graph().node_count(), 0);
    assert_eq!(ProjectStorage::default_project_path(), "model.edge.json");
}

#[test]
fn adding_concepts_validates_them() {
    let mut p = ModelProject::default();
    let c = Concept::new("Vej", "Færdselsareal", BelongsToDomain::Yes);
    let id = c.id();
    assert_eq!(p.add_concept(c), Ok(id));
    assert_eq!(p.concepts().len(), 1);
    assert_eq!(p.get_concept(id).unwrap().preferred_term(), "Vej");

    let blank = Concept::new("  ", "Noget", BelongsToDomain::Yes);
    assert_eq!(p.add_concept(blank), Err(ValidationError::MissingRequiredField("Foretrukken dansk term")));
    let no_def = Concept::new("Sti", "", BelongsToDomain::Yes);
    assert_eq!(p.add_concept(no_def), Err(ValidationError::MissingRequiredField("Definition")));
    assert_eq!(p.concepts().len(), 1);
}

#[test]
fn updating_a_concept_relabels_its_node() {
    let mut p = ModelProject::default();
    let c = Concept::new("Vej", "Færdselsareal", BelongsToDomain::Yes);
    let id = c.id();
    p.concept_graph_mut().add_node(&c);
    p.add_concept(c).unwrap();
    assert_eq!(p.concept_graph().node_count(), 1);

    let mut changed = Concept::new_with_id(id, "Offentlig vej", "Færdselsareal", BelongsToDomain::Yes);
    changed.set_comment(Some("ny".to_string()));
    assert_eq!(p.update_concept(changed), Ok(()));
    assert_eq!(p.get_concept(id).unwrap().preferred_term(), "Offentlig vej");
    assert_eq!(p.concept_graph().nodes()[0].label(), "Offentlig vej");

    let stranger = Concept::new("Ukendt", "Findes ikke", BelongsToDomain::No);
    assert_eq!(
        p.update_concept(stranger),
        Err(ValidationError::MissingRequiredField("Begreb ikke fundet i projekt"))
    );
}

#[test]
fn removing_a_concept_takes_it_off_the_diagram() {
    let mut p = ModelProject::default();
    let a = Concept::new("A", "a", BelongsToDomain::Yes);
    let b = Concept::new("B", "b", BelongsToDomain::Yes);
    let (ida, idb) = (a.id(), b.id());
    let na = p.concept_graph_mut().add_node(&a);
    let nb = p.concept_graph_mut().add_node(&b);
    p.add_concept(a).unwrap();
    p.add_concept(b).unwrap();
    assert_eq!(p.concept_graph().node_count(), 1);
    let nb = {
        let _ = nb;
        let b_again = p.get_concept(idb).unwrap().clone();
        p.concept_graph_mut().add_node(&b_again)
    };
    p.concept_graph_mut().add_relation(na, nb, kant::concept_model::RelationKind::Association);
    assert_eq!(p.concept_graph().edge_count(), 1);

    let removed = p.remove_concept(ida).unwrap();
    assert_eq!(removed.id(), ida);
    assert_eq!(p.concepts().len(), 1);
    assert_eq!(p.concept_graph().node_count(), 1);
    assert_eq!(p.concept_graph().edge_count(), 0);
    assert!(p.remove_concept(ida).is_none());
    assert!(p.get_concept(idb).is_some());
}

#[test]
fn removing_a_class_takes_its_node_away() {
    let mut p = ModelProject::default();
    let class = kant::information_model::InformationClass::new("Adresse");
    let cid = class.id();
    p.information_model_mut().add_class(class);
    p.information_graph_mut().add_node(cid, 0);
    assert_eq!(p.information_graph().node_count(), 1);
    let removed = p.remove_information_class(cid).unwrap();
    assert_eq!(removed.name(), "Adresse");
    assert_eq!(p.information_graph().node_count(), 0);
    assert!(p.remove_information_class(cid).is_none());
}

#[test]
fn storage_checks_every_concept() {
    let mut p = ModelProject::default();
    assert_eq!(ProjectStorage::check_concepts(&p), Ok(()));
    p.add_concept(Concept::new("Vej", "Færdselsareal", BelongsToDomain::Yes)).unwrap();
    assert_eq!(ProjectStorage::check_concepts(&p), Ok(()));
    let mut bad = Concept::new("Sti", "Gangareal", BelongsToDomain::Yes);
    bad.set_identifier(Some("ikke en uri".to_string()));
    p.concepts_mut().push(bad);
    assert_eq!(
        ProjectStorage::check_concepts(&p),
        Err(ValidationError::InvalidUri("ikke en uri".to_string()))
    );
}

#[test]
fn scratch_file_names() {
    let t = ProjectStorage::temp_file_name(Some("model.edge.json"));
    assert!(t.starts_with(".model.edge.json."));
    assert!(t.ends_with(".tmp"));
    assert_eq!(t.len(), ".model.edge.json.".len() + 36 + 4);
    let u = ProjectStorage::temp_file_name(None);
    assert!(u.starts_with(".model."));
    assert_ne!(ProjectStorage::temp_file_name(None), u);
}

#[test]
fn project_file_names() {
    assert!(is_project_file_name("vej.kant.json"));
    assert!(is_project_file_name("vej.kant"));
    assert!(is_project_file_name("model.edge.json"));
    assert!(is_project_file_name("x.edge"));
    assert!(!is_project_file_name("model.json"));
    assert!(!is_project_file_name("edge"));
    assert_ne!(DialogResult::Cancelled, DialogResult::Unavailable);
    assert_eq!(DialogResult::Selected("a".to_string()), DialogResult::Selected("a".to_string()));
}

#[test]
fn concepts_can_be_changed_in_place() {
    let mut p = ModelProject::default();
    let c = Concept::new("Vej", "Færdselsareal", BelongsToDomain::Yes);
    let id = c.id();
    assert_eq!(p.add_concept(c), Ok(id));
    p.get_concept_mut(id).unwrap().set_preferred_term("Gade");
    assert_eq!(p.get_concept(id).unwrap().preferred_term(), "Gade");
    assert!(p.get_concept_mut(id.wrapping_add(1)).is_none());
}
