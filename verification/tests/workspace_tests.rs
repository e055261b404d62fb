use kant::concept_model::{PortSide, RelationKind};
use kant::concepts::{BelongsToDomain, Concept};
use kant::information_model::{AttributeEdit, InformationClass, PrimitiveType};
use kant::model::ModelProject;
use kant::protocol::ModelMutation;
use kant::workspace::Workspace;
use kant::collab_session::CollabSession;
use kant::editor::{CollabState, JoinSessionModalState, StartSessionModalState};
use kant::network::ConnectionStatus;

fn workspace() -> Workspace {
    Workspace::new(ModelProject::default())
}

#[test]
fn a_new_class_is_selected_and_shared() {
    let mut ws = workspace();
    let out = ws.create_information_class();
    assert!(out.changed);
    let class = match out.broadcast {
        Some(ModelMutation::InformationClassAdded(c)) => c,
        other => panic!("unexpected {other:?}"),
    };
    assert_eq!(class.name(), "");
    assert_eq!(ws.selected_info_class_id, Some(class.id()));
    let node = ws.selected_info_graph_node_id.unwrap();
    assert_eq!(ws.project.information_graph().find_node(node).unwrap().class_id(), class.id());
    assert_eq!(ws.project.information_model().classes().len(), 1);
}

#[test]
fn a_class_made_from_a_concept_carries_its_term() {
    let mut ws = workspace();
    let c = Concept::new("Borger", "En person med bopæl", BelongsToDomain::Yes);
    let id = c.id();
    ws.project.add_concept(c).unwrap();
    let out = ws.create_information_class_from_concept(id);
    match out.broadcast {
        Some(ModelMutation::InformationClassAdded(class)) => {
            assert_eq!(class.name(), "Borger");
            assert_eq!(class.description(), Some("En person med bopæl"));
            assert_eq!(class.concept_ids(), &[id]);
        }
        other => panic!("unexpected {other:?}"),
    }
    let none = ws.create_information_class_from_concept(id.wrapping_add(1));
    assert!(!none.changed);
    assert!(none.broadcast.is_none());
}

#[test]
fn typing_into_the_placeholder_name_replaces_it() {
    let mut ws = workspace();
    let id = ws.project.information_model_mut().add_class(InformationClass::new("NyKlasse"));
    let out = ws.update_information_class_name(id, "NyKlasseBorger");
    assert!(out.changed);
    assert_eq!(ws.project.information_model().get_class(id).unwrap().name(), "Borger");
    match out.broadcast {
        Some(ModelMutation::InformationClassUpdated(c)) => assert_eq!(c.name(), "Borger"),
        other => panic!("unexpected {other:?}"),
    }
    ws.update_information_class_name(id, "NyKlasse Adresse");
    assert_eq!(ws.project.information_model().get_class(id).unwrap().name(), "NyKlasse Adresse");
    let missing = ws.update_information_class_name(id.wrapping_add(1), "X");
    assert!(!missing.changed);
}

#[test]
fn a_blank_description_is_none() {
    let mut ws = workspace();
    let id = ws.project.information_model_mut().add_class(InformationClass::new("Person"));
    ws.update_information_class_description(id, "En fysisk person");
    assert_eq!(ws.project.information_model().get_class(id).unwrap().description(), Some("En fysisk person"));
    ws.update_information_class_description(id, "   ");
    assert_eq!(ws.project.information_model().get_class(id).unwrap().description(), None);
}

#[test]
fn deleting_a_class_clears_its_selection_and_is_shared() {
    let mut ws = workspace();
    ws.create_information_class();
    let id = ws.selected_info_class_id.unwrap();
    let out = ws.delete_information_class(id);
    assert!(out.changed);
    assert_eq!(out.broadcast, Some(ModelMutation::InformationClassDeleted(id)));
    assert_eq!(ws.selected_info_class_id, None);
    assert_eq!(ws.selected_info_graph_node_id, None);
    assert_eq!(ws.project.information_graph().node_count(), 0);
}

#[test]
fn attributes_are_added_renamed_and_removed() {
    let mut ws = workspace();
    ws.create_information_class();
    let id = ws.selected_info_class_id.unwrap();
    let node = ws.selected_info_graph_node_id.unwrap();
    let before = ws.project.information_graph().find_node(node).unwrap().height();
    assert!(ws.add_attribute_to_class(id).changed);
    let after = ws.project.information_graph().find_node(node).unwrap().height();
    assert!(after > before);
    let attr = ws.project.information_model().get_class(id).unwrap().attributes()[0].id();

    assert!(ws.update_attribute(id, attr, AttributeEdit::Name("nyAttribut".to_string())).changed);
    ws.update_attribute(id, attr, AttributeEdit::Name("nyAttributalder".to_string()));
    ws.update_attribute(id, attr, AttributeEdit::DataType(PrimitiveType::Integer));
    ws.update_attribute(id, attr, AttributeEdit::SetConcept(Some(42)));
    let a = &ws.project.information_model().get_class(id).unwrap().attributes()[0];
    assert_eq!(a.name(), "alder");
    assert_eq!(a.data_type(), PrimitiveType::Integer);
    assert_eq!(a.concept_ids(), &[42]);
    assert!(!ws.update_attribute(id, attr.wrapping_add(1), AttributeEdit::AddConcept(1)).changed);

    assert!(ws.delete_attribute(id, attr).changed);
    assert!(ws.project.information_model().get_class(id).unwrap().attributes().is_empty());
    assert_eq!(ws.project.information_graph().find_node(node).unwrap().height(), before);
}

#[test]
fn drawing_a_relation_selects_it() {
    let mut ws = workspace();
    ws.create_information_class();
    let a = ws.selected_info_graph_node_id.unwrap();
    ws.create_information_class();
    let b = ws.selected_info_graph_node_id.unwrap();

    assert!(!ws.info_edge_created(a, a).changed);
    let out = ws.info_edge_created(a, b);
    assert!(out.changed);
    assert_eq!(ws.selected_info_edge, Some((a, b)));
    assert_eq!(ws.selected_info_graph_node_id, None);
    assert_eq!(ws.project.information_graph().find_edge(a, b).unwrap().kind(), RelationKind::Association);
    assert!(!ws.info_edge_created(a, b).changed);
    assert_eq!(ws.project.information_graph().edge_count(), 1);

    ws.info_update_edge_label(a, b, "har");
    assert_eq!(ws.project.information_graph().find_edge(a, b).unwrap().label(), Some("har"));
    ws.info_update_edge_label(a, b, "  ");
    assert_eq!(ws.project.information_graph().find_edge(a, b).unwrap().label(), None);

    assert!(ws.info_reverse_edge(a, b).changed);
    assert_eq!(ws.selected_info_edge, Some((b, a)));
    assert!(ws.project.information_graph().find_edge(b, a).is_some());

    ws.delete_class_relation(b, a);
    assert_eq!(ws.selected_info_edge, None);
    assert_eq!(ws.project.information_graph().edge_count(), 0);
}

#[test]
fn moving_a_node_reassigns_the_ports() {
    let mut ws = workspace();
    ws.create_information_class();
    let a = ws.selected_info_graph_node_id.unwrap();
    ws.create_information_class();
    let b = ws.selected_info_graph_node_id.unwrap();
    ws.info_edge_created(a, b);

    ws.update_class_node_position(a, 0, 0);
    let out = ws.update_class_node_position(b, 400, 0);
    assert_eq!(out.broadcast, Some(ModelMutation::NodeMoved { id: b, x: 400, y: 0 }));
    let e = ws.project.information_graph().find_edge(a, b).unwrap();
    assert_eq!((e.source_port(), e.target_port()), (Some(PortSide::Right), Some(PortSide::Left)));

    ws.update_class_node_position(b, 0, 400);
    let e = ws.project.information_graph().find_edge(a, b).unwrap();
    assert_eq!((e.source_port(), e.target_port()), (Some(PortSide::Bottom), Some(PortSide::Top)));
}

#[test]
fn selecting_a_node_selects_its_class() {
    let mut ws = workspace();
    ws.create_information_class();
    let class = ws.selected_info_class_id.unwrap();
    let node = ws.selected_info_graph_node_id.unwrap();
    ws.select_info_graph_node(None);
    assert_eq!(ws.selected_info_class_id, None);
    ws.select_info_graph_node(Some(node));
    assert_eq!(ws.selected_info_class_id, Some(class));
    ws.select_information_class(None);
    assert_eq!(ws.selected_info_graph_node_id, None);
    ws.select_information_class(Some(class));
    assert_eq!(ws.selected_info_graph_node_id, Some(node));
    ws.select_info_edge(Some((node, node)));
    assert_eq!(ws.selected_info_class_id, None);
    assert_eq!(ws.selected_info_graph_node_id, None);

    ws.remove_class_from_diagram(node);
    assert_eq!(ws.project.information_graph().node_count(), 0);
    let out = ws.add_class_to_diagram(class);
    assert!(out.changed);
    assert_eq!(ws.selected_info_class_id, Some(class));
    assert!(ws.project.information_graph().find_node(ws.selected_info_graph_node_id.unwrap()).is_some());
}

#[test]
fn selecting_on_the_concept_diagram() {
    let mut ws = workspace();
    ws.select_graph_edge(Some((1, 2)));
    ws.select_graph_node(Some(3));
    assert_eq!(ws.selected_graph_node_id, Some(3));
    assert_eq!(ws.selected_edge, None);
    ws.select_graph_edge(Some((1, 2)));
    assert_eq!(ws.selected_graph_node_id, None);
}

#[test]
fn linking_a_concept_to_a_class() {
    let mut ws = workspace();
    let id = ws.project.information_model_mut().add_class(InformationClass::new("Person"));
    assert!(ws.link_class_concept(id, 7, true).changed);
    assert_eq!(ws.project.information_model().get_class(id).unwrap().concept_ids(), &[7]);
    ws.link_class_concept(id, 7, false);
    assert!(ws.project.information_model().get_class(id).unwrap().concept_ids().is_empty());
}

fn concept_form(term: &str, definition: &str) -> kant::concept_editor::ConceptEditorState {
    let mut form = kant::concept_editor::ConceptEditorState::new_empty();
    form.preferred_term = term.to_string();
    form.definition = definition.to_string();
    form
}

#[test]
fn saving_a_new_concept_stores_and_shares_it() {
    let mut ws = workspace();
    ws.editor_state = Some(concept_form("Vej", "Et færdselsareal"));
    let out = ws.save_concept();
    assert!(out.changed);
    match out.broadcast {
        Some(ModelMutation::ConceptAdded(c)) => assert_eq!(c.preferred_term(), "Vej"),
        other => panic!("unexpected {other:?}"),
    }
    assert!(ws.editor_state.is_none());
    assert_eq!(ws.project.concepts().len(), 1);
}

#[test]
fn an_invalid_form_shows_why() {
    let mut ws = workspace();
    ws.editor_state = Some(concept_form("  ", "Et færdselsareal"));
    let out = ws.save_concept();
    assert!(!out.changed);
    assert!(out.broadcast.is_none());
    assert_eq!(
        ws.editor_state.as_ref().unwrap().validation_error.as_deref(),
        Some("Obligatorisk felt mangler: Foretrukken dansk term")
    );
    assert!(ws.project.concepts().is_empty());
}

#[test]
fn editing_a_concept_from_the_diagram_relabels_its_node() {
    let mut ws = workspace();
    let c = Concept::new("Vej", "Et færdselsareal", BelongsToDomain::Yes);
    let id = c.id();
    ws.project.add_concept(c.clone()).unwrap();
    assert!(ws.add_concept_to_diagram(id).changed);
    assert!(!ws.add_concept_to_diagram(id).changed);
    let node = ws.selected_graph_node_id.unwrap();

    let mut form = kant::concept_editor::ConceptEditorState::from_concept(&c);
    form.preferred_term = "Gade".to_string();
    ws.editor_state = Some(form);
    ws.is_inline_graph_editing = true;
    let out = ws.save_concept();
    assert!(out.changed);
    match out.broadcast {
        Some(ModelMutation::ConceptUpdated(c)) => assert_eq!(c.id(), id),
        other => panic!("unexpected {other:?}"),
    }
    assert!(!ws.is_inline_graph_editing);
    assert_eq!(ws.project.concept_graph().find_node(node).unwrap().label(), "Gade");
    assert_eq!(ws.project.get_concept(id).unwrap().preferred_term(), "Gade");
}

#[test]
fn editing_a_removed_concept_fails() {
    let mut ws = workspace();
    let c = Concept::new("Vej", "Et færdselsareal", BelongsToDomain::Yes);
    ws.editor_state = Some(kant::concept_editor::ConceptEditorState::from_concept(&c));
    let out = ws.save_concept();
    assert!(!out.changed);
    assert_eq!(
        ws.editor_state.as_ref().unwrap().validation_error.as_deref(),
        Some("Obligatorisk felt mangler: Begreb ikke fundet i projekt")
    );
}

#[test]
fn deleting_the_edited_concept_closes_the_form() {
    let mut ws = workspace();
    let c = Concept::new("Vej", "Et færdselsareal", BelongsToDomain::Yes);
    let id = c.id();
    ws.project.add_concept(c.clone()).unwrap();
    ws.editor_state = Some(kant::concept_editor::ConceptEditorState::from_concept(&c));
    let out = ws.delete_concept(id);
    assert_eq!(out.broadcast, Some(ModelMutation::ConceptDeleted(id)));
    assert!(ws.editor_state.is_none());
    assert!(ws.project.concepts().is_empty());
}

#[test]
fn concept_relations_are_drawn_and_removed() {
    let mut ws = workspace();
    let a = Concept::new("Vej", "Et færdselsareal", BelongsToDomain::Yes);
    let b = Concept::new("Sti", "En smal vej", BelongsToDomain::Yes);
    ws.project.add_concept(a.clone()).unwrap();
    ws.project.add_concept(b.clone()).unwrap();
    ws.add_concept_to_diagram(a.id());
    let na = ws.selected_graph_node_id.unwrap();
    ws.add_concept_to_diagram(b.id());
    let nb = ws.selected_graph_node_id.unwrap();

    assert!(!ws.graph_edge_created(na, na).changed);
    assert!(ws.graph_edge_created(na, nb).changed);
    assert_eq!(ws.selected_edge, Some((na, nb)));
    assert!(!ws.graph_edge_created(na, nb).changed);
    assert_eq!(ws.project.concept_graph().edge_count(), 1);

    let out = ws.graph_delete_relation(nb, na);
    assert_eq!(out.broadcast, Some(ModelMutation::RelationDeleted { from: nb, to: na }));
    assert_eq!(ws.selected_edge, None);
    assert_eq!(ws.project.concept_graph().edge_count(), 1);
    ws.graph_delete_relation(na, nb);
    assert_eq!(ws.project.concept_graph().edge_count(), 0);
}

#[test]
fn quick_create_stores_the_concept_and_closes() {
    let mut ws = workspace();
    let mut qc = kant::concept_editor::QuickCreateState::new(120, 80);
    qc.preferred_term = " Bro ".to_string();
    qc.definition = "En overgang".to_string();
    ws.quick_create = Some(qc);
    let out = ws.quick_create_submit();
    assert!(out.changed);
    match out.broadcast {
        Some(ModelMutation::ConceptAdded(c)) => assert_eq!(c.preferred_term(), "Bro"),
        other => panic!("unexpected {other:?}"),
    }
    assert!(ws.quick_create.is_none());
    assert_eq!(ws.project.concepts().len(), 1);

    ws.quick_create = Some(kant::concept_editor::QuickCreateState::new(0, 0));
    let out = ws.quick_create_submit();
    assert!(!out.changed);
    assert_eq!(
        ws.quick_create.as_ref().unwrap().validation_error.as_deref(),
        Some("Obligatorisk felt mangler: Foretrukken dansk term")
    );
}

#[test]
fn deleting_the_selection_depends_on_the_tab() {
    let mut ws = workspace();
    let a = Concept::new("Vej", "Et færdselsareal", BelongsToDomain::Yes);
    let b = Concept::new("Sti", "En smal vej", BelongsToDomain::Yes);
    ws.project.add_concept(a.clone()).unwrap();
    ws.project.add_concept(b.clone()).unwrap();
    ws.add_concept_to_diagram(a.id());
    let na = ws.selected_graph_node_id.unwrap();
    ws.add_concept_to_diagram(b.id());
    let nb = ws.selected_graph_node_id.unwrap();
    ws.graph_edge_created(na, nb);

    ws.select_tab(kant::editor::Tab::ConceptList);
    assert!(!ws.graph_delete_selected().changed);

    ws.select_tab(kant::editor::Tab::ConceptModel);
    assert_eq!(ws.project.concept_graph().node_count(), 2);
    assert!(ws.graph_delete_selected().changed);
    assert_eq!(ws.project.concept_graph().edge_count(), 0);
    assert_eq!(ws.selected_edge, None);

    ws.select_graph_node(Some(na));
    assert!(ws.graph_delete_selected().changed);
    assert_eq!(ws.project.concept_graph().node_count(), 1);
    assert_eq!(ws.selected_graph_node_id, None);
    assert!(!ws.graph_delete_selected().changed);

    ws.select_tab(kant::editor::Tab::InformationModel);
    ws.create_information_class();
    assert!(ws.graph_delete_selected().changed);
    assert_eq!(ws.project.information_graph().node_count(), 0);
}

#[test]
fn escape_closes_the_innermost_thing_first() {
    let mut ws = workspace();
    ws.create_information_class();
    ws.toggle_menu(kant::editor::MenuType::File);
    ws.quick_create = Some(kant::concept_editor::QuickCreateState::new(0, 0));
    ws.editor_state = Some(kant::concept_editor::ConceptEditorState::new_empty());

    ws.escape_pressed();
    assert!(ws.active_menu.is_none());
    assert!(ws.quick_create.is_some());
    ws.escape_pressed();
    assert!(ws.quick_create.is_none());
    assert!(ws.editor_state.is_some());
    ws.escape_pressed();
    assert!(ws.editor_state.is_none());
    assert!(ws.selected_info_graph_node_id.is_some());
    ws.escape_pressed();
    assert!(ws.selected_info_graph_node_id.is_none());
    ws.escape_pressed();
    assert!(ws.selected_info_class_id.is_some());
}

#[test]
fn a_menu_toggles() {
    let mut ws = workspace();
    ws.toggle_menu(kant::editor::MenuType::Help);
    assert_eq!(ws.active_menu, Some(kant::editor::MenuType::Help));
    ws.toggle_menu(kant::editor::MenuType::File);
    assert_eq!(ws.active_menu, Some(kant::editor::MenuType::File));
    ws.toggle_menu(kant::editor::MenuType::File);
    assert_eq!(ws.active_menu, None);
}

#[test]
fn relation_dialogs_draw_through_the_workspace() {
    let mut ws = workspace();
    let a = Concept::new("Vej", "Et færdselsareal", BelongsToDomain::Yes);
    let b = Concept::new("Sti", "En smal vej", BelongsToDomain::Yes);
    ws.project.add_concept(a.clone()).unwrap();
    ws.project.add_concept(b.clone()).unwrap();
    ws.add_concept_to_diagram(a.id());
    ws.add_concept_to_diagram(b.id());

    ws.graph_open_relation_dialog();
    let out = ws.graph_create_relation();
    assert!(out.changed);
    assert!(matches!(out.broadcast, Some(ModelMutation::RelationAdded(_))));
    assert!(ws.relation_dialog.is_none());
    assert_eq!(ws.project.concept_graph().edge_count(), 1);

    ws.create_information_class();
    ws.open_info_relation_dialog();
    let out = ws.info_create_relation();
    assert!(!out.changed);
    assert!(ws.info_relation_dialog.as_ref().unwrap().error.is_some());
}

#[test]
fn double_clicking_a_node_edits_its_concept_inline() {
    let mut ws = workspace();
    let c = Concept::new("Vej", "Et færdselsareal", BelongsToDomain::Yes);
    let id = c.id();
    ws.project.add_concept(c).unwrap();
    ws.add_concept_to_diagram(id);
    let node = ws.selected_graph_node_id.unwrap();
    ws.select_graph_node(None);
    ws.graph_node_double_clicked(node);
    assert_eq!(ws.selected_graph_node_id, Some(node));
    assert!(ws.is_inline_graph_editing);
    assert_eq!(ws.editor_state.as_ref().unwrap().editing_id, Some(id));

    ws.edit_concept(id);
    assert!(!ws.is_inline_graph_editing);
    assert_eq!(ws.active_tab, kant::editor::Tab::ConceptList);
    assert_eq!(ws.editor_state.as_ref().unwrap().preferred_term, "Vej");
}

#[test]
fn the_metadata_form_round_trips() {
    let mut ws = workspace();
    ws.toggle_menu(kant::editor::MenuType::File);
    ws.open_metadata_modal();
    assert!(ws.active_menu.is_none());
    assert_eq!(ws.metadata_modal.as_ref().unwrap().name, "");
    ws.metadata_modal.as_mut().unwrap().name = "Vejmodel".to_string();
    assert!(ws.save_metadata_modal());
    assert_eq!(ws.project.metadata().name(), "Vejmodel");
    assert!(ws.metadata_modal.is_none());
    assert!(!ws.save_metadata_modal());
}

#[test]
fn a_new_project_starts_empty_with_its_form_open() {
    let mut ws = workspace();
    ws.create_information_class();
    ws.new_project();
    assert_eq!(ws.project.information_model().classes().len(), 0);
    assert!(ws.metadata_modal.is_some());
    assert_eq!(ws.selected_info_class_id, None);
    assert_eq!(ws.project.metadata().name(), "Nyt FDA Modelprojekt");
}

#[test]
fn received_changes_keep_the_selection_sound() {
    let mut ws = workspace();
    let c = Concept::new("Vej", "Et færdselsareal", BelongsToDomain::Yes);
    let id = c.id();
    ws.project.add_concept(c).unwrap();
    ws.add_concept_to_diagram(id);
    assert!(ws.selected_graph_node_id.is_some());
    let out = ws.apply_mutation(ModelMutation::ConceptDeleted(id));
    assert!(out.changed);
    assert_eq!(ws.selected_graph_node_id, None);
    assert!(ws.project.concepts().is_empty());

    ws.create_information_class();
    let class = ws.selected_info_class_id.unwrap();
    ws.apply_mutation(ModelMutation::InformationClassDeleted(class));
    assert_eq!(ws.selected_info_class_id, None);

    let snapshot = ModelProject::default();
    ws.select_info_edge(Some((1, 2)));
    ws.apply_snapshot(snapshot.clone());
    assert_eq!(ws.project, snapshot);
    assert_eq!(ws.selected_info_edge, None);
}

#[test]
fn moved_concept_nodes_snap_to_the_grid() {
    let mut ws = workspace();
    let c = Concept::new("Vej", "Et færdselsareal", BelongsToDomain::Yes);
    let id = c.id();
    ws.project.add_concept(c).unwrap();
    ws.add_concept_to_diagram(id);
    let node = ws.selected_graph_node_id.unwrap();

    let out = ws.graph_node_moved(node, 33, -31);
    assert_eq!(out.broadcast, Some(ModelMutation::NodeMoved { id: node, x: 33, y: -31 }));
    ws.toggle_snap_to_grid();
    let out = ws.graph_node_moved(node, 33, -31);
    assert_eq!(out.broadcast, Some(ModelMutation::NodeMoved { id: node, x: 40, y: -40 }));
    let n = ws.project.concept_graph().find_node(node).unwrap();
    assert_eq!((n.x(), n.y()), (40, -40));
    ws.graph_node_moved(node, 10, -10);
    let n = ws.project.concept_graph().find_node(node).unwrap();
    assert_eq!((n.x(), n.y()), (20, -20));
    ws.graph_node_moved(node, 9, -9);
    let n = ws.project.concept_graph().find_node(node).unwrap();
    assert_eq!((n.x(), n.y()), (0, 0));
}

#[test]
fn concept_relations_are_relabelled_restyled_and_turned() {
    let mut ws = workspace();
    let a = Concept::new("Vej", "Et færdselsareal", BelongsToDomain::Yes);
    let b = Concept::new("Sti", "En smal vej", BelongsToDomain::Yes);
    ws.project.add_concept(a.clone()).unwrap();
    ws.project.add_concept(b.clone()).unwrap();
    ws.add_concept_to_diagram(a.id());
    let na = ws.selected_graph_node_id.unwrap();
    ws.add_concept_to_diagram(b.id());
    let nb = ws.selected_graph_node_id.unwrap();
    ws.graph_edge_created(na, nb);

    let out = ws.graph_update_edge_label(na, nb, "forbinder");
    assert!(out.changed);
    assert!(out.broadcast.is_none());
    assert_eq!(ws.project.concept_graph().find_edge(na, nb).unwrap().label(), Some("forbinder"));
    ws.graph_update_edge_label(na, nb, "   ");
    assert_eq!(ws.project.concept_graph().find_edge(na, nb).unwrap().label(), None);
    assert!(!ws.graph_update_edge_label(nb, na, "x").changed);

    assert!(ws.graph_update_edge_kind(na, nb, RelationKind::Generalization).changed);
    assert_eq!(ws.project.concept_graph().find_edge(na, nb).unwrap().kind(), RelationKind::Generalization);
    assert!(!ws.graph_update_edge_kind(nb, na, RelationKind::Association).changed);

    ws.graph_update_edge_label(na, nb, "omfatter");
    let out = ws.graph_reverse_edge(na, nb);
    assert!(out.changed);
    assert_eq!(ws.selected_edge, Some((nb, na)));
    assert!(ws.project.concept_graph().find_edge(na, nb).is_none());
    let turned = ws.project.concept_graph().find_edge(nb, na).unwrap();
    assert_eq!(turned.kind(), RelationKind::Generalization);
    assert_eq!(turned.label(), Some("omfatter"));
    assert!(!ws.graph_reverse_edge(na, nb).changed);
    assert_eq!(ws.selected_edge, Some((nb, na)));
}

#[test]
fn starting_a_session_hosts_it_alone_and_connected() {
    let mut ws = workspace();
    let mut session = CollabSession::new();
    assert!(ws.start_session(&mut session).is_none());
    assert_eq!(session.role(), CollabState::Offline);

    let modal = StartSessionModalState::new();
    let ticket = modal.ticket.clone();
    ws.start_session_modal = Some(modal);
    ws.active_menu = Some(kant::editor::MenuType::Collab);
    session.set_participants(5);
    let started = ws.start_session(&mut session).unwrap();
    assert_eq!(started, ticket);
    assert!(ws.start_session_modal.is_none());
    assert!(ws.active_menu.is_none());
    assert_eq!(session.role(), CollabState::Host);
    assert_eq!(session.status(), ConnectionStatus::Connected);
    assert_eq!(session.participants(), 1);
    assert_eq!(session.key(), Some(&ticket.key));
}

#[test]
fn joining_needs_a_valid_ticket() {
    let mut ws = workspace();
    let mut session = CollabSession::new();
    let mut bad = JoinSessionModalState::new();
    bad.set_token_input("edge:v1:garbage".to_string());
    ws.join_session_modal = Some(bad);
    ws.active_menu = Some(kant::editor::MenuType::Collab);
    assert!(ws.join_session(&mut session).is_none());
    assert!(ws.join_session_modal.is_none());
    assert!(ws.active_menu.is_some());
    assert_eq!(session.role(), CollabState::Offline);

    let host = StartSessionModalState::new();
    let mut good = JoinSessionModalState::new();
    good.set_token_input(host.ticket.to_ticket_string());
    ws.join_session_modal = Some(good);
    let joined = ws.join_session(&mut session).unwrap();
    assert_eq!(joined, host.ticket);
    assert!(ws.active_menu.is_none());
    assert_eq!(session.role(), CollabState::Guest);
    assert_eq!(session.status(), ConnectionStatus::Connected);
    assert_eq!(session.participants(), 1);
    assert_eq!(session.key(), Some(&host.ticket.key));
}
