//! The editing of the information model: the project being edited, what is
//! selected in it, and what each command does to both, whether the project
//! is to be saved afterwards and what is sent to the other participants.
use vstd::prelude::*;
use crate::class_graph::{
    class_added, class_node_moved, of_class, other_id, not_between, not_touching, ports_refreshed,
    reverse_edge, with_id, with_relation, edit_edge, ClassEdgeView, ClassGraphView,
};
use crate::concept_editor::{form_concept, form_for, ConceptEditorState, QuickCreateState};
use crate::dialogs::{drawn_from_dialog, RelationDialogState, RelationDialogView};
use crate::editor::{metadata_form, metadata_from_form, FileDialogMode, GuestEndedNoticeModalState, JoinSessionModalState, MenuType, ModelMetadataModalState,
    StartSessionModalState, Tab};
use crate::concept_model::{edit_first, reverse_first, EdgeView, snap_to_grid, snapped, clear_of, move_first, other_node, shows_concept, concept_with_id, edge_spared, hides_concept, not_runs, placed, relabel_concept, runs,
    synced_with_concepts, GraphView, NodeId, RelationKind};
use crate::concepts::{fresh_concept, validation_of, validation_text, ConceptView, ValidationView};
use crate::model::{concept_not_found, default_metadata};
use crate::concepts::opt_view;
use crate::ids::Id;
use crate::information_model::{AttributeEdit, ClassView};
use crate::model::{ModelProject, ProjectView};
use crate::protocol::ModelMutation;
use crate::collab_session::{CollabSession, SessionView};
use crate::editor::CollabState;
use crate::network::ConnectionStatus;
use crate::ticket::SessionTicket;
use crate::crypto::CollabKey;
use crate::seqs::first_where;
use crate::text::{trim, trimmed};
use crate::class_graph::synced_with_model;

verus! {

/// What a command asks of the editor around it.
pub struct Outcome {
    /// Whether the project changed and is to be saved.
    pub changed: bool,
    /// The change to send to the other participants, if any.
    pub broadcast: Option<ModelMutation>,
}

/// The project being edited and what is selected in it.
pub struct Workspace {
    pub project: ModelProject,
    pub selected_graph_node_id: Option<NodeId>,
    pub selected_edge: Option<(NodeId, NodeId)>,
    pub selected_info_class_id: Option<Id>,
    pub selected_info_graph_node_id: Option<NodeId>,
    pub selected_info_edge: Option<(NodeId, NodeId)>,
    pub editor_state: Option<ConceptEditorState>,
    pub is_inline_graph_editing: bool,
    pub quick_create: Option<QuickCreateState>,
    pub active_tab: Tab,
    pub active_menu: Option<MenuType>,
    pub metadata_modal: Option<ModelMetadataModalState>,
    pub relation_dialog: Option<RelationDialogState>,
    pub info_relation_dialog: Option<RelationDialogState>,
    pub file_dialog_mode: Option<FileDialogMode>,
    pub start_session_modal: Option<StartSessionModalState>,
    pub join_session_modal: Option<JoinSessionModalState>,
    pub guest_ended_notice: Option<GuestEndedNoticeModalState>,
    pub snap_to_grid: bool,
}

/// What a workspace holds.
pub struct WorkspaceView {
    pub project: ProjectView,
    pub selected_graph_node_id: Option<NodeId>,
    pub selected_edge: Option<(NodeId, NodeId)>,
    pub selected_info_class_id: Option<Id>,
    pub selected_info_graph_node_id: Option<NodeId>,
    pub selected_info_edge: Option<(NodeId, NodeId)>,
    pub editor_state: Option<ConceptEditorState>,
    pub is_inline_graph_editing: bool,
    pub quick_create: Option<QuickCreateState>,
    pub active_tab: Tab,
    pub active_menu: Option<MenuType>,
    pub metadata_modal: Option<ModelMetadataModalState>,
    pub relation_dialog: Option<RelationDialogState>,
    pub info_relation_dialog: Option<RelationDialogState>,
    pub file_dialog_mode: Option<FileDialogMode>,
    pub start_session_modal: Option<StartSessionModalState>,
    pub join_session_modal: Option<JoinSessionModalState>,
    pub guest_ended_notice: Option<GuestEndedNoticeModalState>,
    pub snap_to_grid: bool,
}

impl View for Workspace {
    type V = WorkspaceView;

    open spec fn view(&self) -> WorkspaceView {
        WorkspaceView {
            project: self.project@,
            selected_graph_node_id: self.selected_graph_node_id,
            selected_edge: self.selected_edge,
            selected_info_class_id: self.selected_info_class_id,
            selected_info_graph_node_id: self.selected_info_graph_node_id,
            selected_info_edge: self.selected_info_edge,
            editor_state: self.editor_state,
            is_inline_graph_editing: self.is_inline_graph_editing,
            quick_create: self.quick_create,
            active_tab: self.active_tab,
            active_menu: self.active_menu,
            metadata_modal: self.metadata_modal,
            relation_dialog: self.relation_dialog,
            info_relation_dialog: self.info_relation_dialog,
            file_dialog_mode: self.file_dialog_mode,
            start_session_modal: self.start_session_modal,
            join_session_modal: self.join_session_modal,
            guest_ended_notice: self.guest_ended_notice,
            snap_to_grid: self.snap_to_grid,
        }
    }
}

/// The project after the first concept with the identifier is removed,
/// with its nodes and their relations; unchanged where there is none.
pub open spec fn concept_removed(p: ProjectView, id: Id) -> ProjectView {
    let k = first_where(p.concepts, concept_with_id(id));
    if k >= 0 {
        ProjectView {
            concepts: p.concepts.remove(k),
            concept_graph: GraphView {
                nodes: p.concept_graph.nodes.filter(hides_concept(id)),
                edges: p.concept_graph.edges.filter(edge_spared(p.concept_graph.nodes, id)),
            },
            ..p
        }
    } else {
        p
    }
}

/// The project after a valid concept is stored: in place of the concept
/// with its identifier when it was being edited, appended when it is new,
/// and the diagram brought in line; nothing where an edited concept is no
/// longer there.
pub open spec fn concept_stored(p: ProjectView, c: ConceptView, editing: bool) -> Option<ProjectView> {
    if editing {
        let k = first_where(p.concepts, concept_with_id(c.id));
        if k >= 0 {
            Some(
                ProjectView {
                    concepts: p.concepts.update(k, c),
                    concept_graph: synced_with_concepts(p.concept_graph, p.concepts.update(k, c)),
                    ..p
                },
            )
        } else {
            None
        }
    } else {
        Some(
            ProjectView {
                concepts: p.concepts.push(c),
                concept_graph: synced_with_concepts(p.concept_graph, p.concepts.push(c)),
                ..p
            },
        )
    }
}

/// The form `f` is the form `e` showing an error message.
pub open spec fn showing_error(e: ConceptEditorState, f: ConceptEditorState, msg: Seq<char>) -> bool {
    &&& f == ConceptEditorState { validation_error: f.validation_error, ..e }
    &&& opt_view(f.validation_error) == Some(msg)
}

/// The quick-create box `f` is the box `e` showing an error message.
pub open spec fn box_showing_error(e: QuickCreateState, f: QuickCreateState, msg: Seq<char>) -> bool {
    &&& f == QuickCreateState { validation_error: f.validation_error, ..e }
    &&& opt_view(f.validation_error) == Some(msg)
}

/// The concept a quick-create box describes, under an identifier.
pub open spec fn box_concept(e: QuickCreateState, id: Id) -> ConceptView {
    fresh_concept(id, trimmed(e.preferred_term@), trimmed(e.definition@), e.belongs_to_domain@)
}

/// A project with another class diagram.
pub open spec fn with_graph(p: ProjectView, g: ClassGraphView) -> ProjectView {
    ProjectView { information_graph: g, ..p }
}

/// The node of a class on the class diagram, if it has one.
pub open spec fn node_of_class(g: ClassGraphView, class_id: Id) -> Option<NodeId> {
    let k = first_where(g.nodes, of_class(class_id));
    if k >= 0 { Some(g.nodes[k].id) } else { None }
}

/// The class shown by a node of the class diagram, if the node is there.
pub open spec fn class_of_node(g: ClassGraphView, node: NodeId) -> Option<Id> {
    let k = first_where(g.nodes, with_id(node));
    if k >= 0 { Some(g.nodes[k].class_id) } else { None }
}

/// Whether a node is on the class diagram.
pub open spec fn on_diagram(g: ClassGraphView, node: NodeId) -> bool {
    first_where(g.nodes, with_id(node)) >= 0
}

/// The label a relation gets from a text: none where it is blank.
pub open spec fn label_or_none(text: Seq<char>) -> Option<Seq<char>> {
    if trimmed(text).len() == 0 { None } else { Some(text) }
}

impl Workspace {
    /// A workspace on a project, with nothing selected and no concept
    /// being edited.
    pub fn new(project: ModelProject) -> (res: Workspace)
        ensures
            res@ == (WorkspaceView {
                project: project@,
                selected_graph_node_id: None,
                selected_edge: None,
                selected_info_class_id: None,
                selected_info_graph_node_id: None,
                selected_info_edge: None,
                editor_state: None,
                is_inline_graph_editing: false,
                quick_create: None,
                active_tab: Tab::ConceptList,
                active_menu: None,
                metadata_modal: None,
                relation_dialog: None,
                info_relation_dialog: None,
                file_dialog_mode: None,
                start_session_modal: None,
                join_session_modal: None,
                guest_ended_notice: None,
                snap_to_grid: false,
            }),
    {
        Workspace {
            project,
            selected_graph_node_id: None,
            selected_edge: None,
            selected_info_class_id: None,
            selected_info_graph_node_id: None,
            selected_info_edge: None,
            editor_state: None,
            is_inline_graph_editing: false,
            quick_create: None,
            active_tab: Tab::ConceptList,
            active_menu: None,
            metadata_modal: None,
            relation_dialog: None,
            info_relation_dialog: None,
            file_dialog_mode: None,
            start_session_modal: None,
            join_session_modal: None,
            guest_ended_notice: None,
            snap_to_grid: false,
        }
    }

    /// Selects a node of the concept diagram, or none; the selected
    /// relation there is let go.
    pub fn select_graph_node(&mut self, node: Option<NodeId>)
        ensures
            final(self)@ == (WorkspaceView { selected_graph_node_id: node, selected_edge: None, ..old(self)@ }),
    {
        self.selected_graph_node_id = node;
        self.selected_edge = None;
    }

    /// Selects a relation of the concept diagram, or none; selecting one
    /// lets the selected node go.
    pub fn select_graph_edge(&mut self, edge: Option<(NodeId, NodeId)>)
        ensures
            final(self)@ == (WorkspaceView {
                selected_edge: edge,
                selected_graph_node_id: if edge is Some { None } else { old(self)@.selected_graph_node_id },
                ..old(self)@
            }),
    {
        self.selected_edge = edge;
        if edge.is_some() {
            self.selected_graph_node_id = None;
        }
    }

    /// Selects a class, or none, together with its node on the class
    /// diagram where it has one; selecting a class lets the selected
    /// relation go.
    pub fn select_information_class(&mut self, id: Option<Id>)
        ensures
            final(self)@ == (WorkspaceView {
                selected_info_class_id: id,
                selected_info_edge: if id is Some { None } else { old(self)@.selected_info_edge },
                selected_info_graph_node_id: match id {
                    Some(c) => node_of_class(old(self)@.project.information_graph, c),
                    None => None,
                },
                ..old(self)@
            }),
    {
        self.selected_info_class_id = id;
        if id.is_some() {
            self.selected_info_edge = None;
        }
        self.selected_info_graph_node_id = match id {
            Some(c) => match self.project.information_graph().find_node_by_class(c) {
                Some(n) => Some(n.id()),
                None => None,
            },
            None => None,
        };
    }

    /// Selects a node of the class diagram, or none, and lets the selected
    /// relation go; the class of a node on the diagram is selected with it,
    /// selecting none selects no class, and a node not on the diagram
    /// leaves the class as it was.
    pub fn select_info_graph_node(&mut self, node: Option<NodeId>)
        ensures
            final(self)@ == (WorkspaceView {
                selected_info_graph_node_id: node,
                selected_info_edge: None,
                selected_info_class_id: match node {
                    Some(n) => match class_of_node(old(self)@.project.information_graph, n) {
                        Some(c) => Some(c),
                        None => old(self)@.selected_info_class_id,
                    },
                    None => None,
                },
                ..old(self)@
            }),
    {
        self.selected_info_graph_node_id = node;
        self.selected_info_edge = None;
        match node {
            Some(n) => match self.project.information_graph().find_node(n) {
                Some(found) => {
                    self.selected_info_class_id = Some(found.class_id());
                },
                None => {},
            },
            None => {
                self.selected_info_class_id = None;
            },
        }
    }

    /// Selects a relation of the class diagram, or none; selecting one lets
    /// the selected node and class go.
    pub fn select_info_edge(&mut self, edge: Option<(NodeId, NodeId)>)
        ensures
            final(self)@ == (WorkspaceView {
                selected_info_edge: edge,
                selected_info_graph_node_id: if edge is Some {
                    None
                } else {
                    old(self)@.selected_info_graph_node_id
                },
                selected_info_class_id: if edge is Some { None } else { old(self)@.selected_info_class_id },
                ..old(self)@
            }),
    {
        self.selected_info_edge = edge;
        if edge.is_some() {
            self.selected_info_graph_node_id = None;
            self.selected_info_class_id = None;
        }
    }

    /// Adds a new, empty class with a node and selects both; the class is
    /// sent to the other participants.
    pub fn create_information_class(&mut self) -> (res: Outcome)
        ensures
            res.changed,
            res.broadcast matches Some(ModelMutation::InformationClassAdded(c)) && {
                &&& c@ == (ClassView {
                    id: c@.id,
                    name: Seq::empty(),
                    description: None,
                    concept_ids: Seq::empty(),
                    attributes: Seq::empty(),
                })
                &&& final(self)@.selected_info_class_id == Some(c@.id)
                &&& final(self)@.selected_info_edge is None
                &&& final(self)@.selected_info_graph_node_id matches Some(node) && final(self)@.project == (
                ProjectView {
                    information_model: old(self)@.project.information_model.push(c@),
                    information_graph: class_added(old(self)@.project.information_graph, c@.id, 0, node),
                    ..old(self)@.project
                })
            },
            final(self)@.selected_graph_node_id == old(self)@.selected_graph_node_id,
            final(self)@.selected_edge == old(self)@.selected_edge,
    {
        let (node, class) = self.project.create_information_class();
        self.selected_info_class_id = Some(class.id());
        self.selected_info_graph_node_id = Some(node);
        self.selected_info_edge = None;
        Outcome { changed: true, broadcast: Some(ModelMutation::InformationClassAdded(class)) }
    }

    /// Adds a class realising the first concept with the identifier, with
    /// a node, and selects both; the class is sent to the other
    /// participants. The selected relation is let go in any case.
    pub fn create_information_class_from_concept(&mut self, concept_id: Id) -> (res: Outcome)
        ensures
            final(self)@.selected_info_edge is None,
            final(self)@.selected_graph_node_id == old(self)@.selected_graph_node_id,
            final(self)@.selected_edge == old(self)@.selected_edge,
            match res.broadcast {
                Some(ModelMutation::InformationClassAdded(c)) => {
                    let k = first_where(old(self)@.project.concepts, crate::concept_model::concept_with_id(concept_id));
                    &&& res.changed
                    &&& k >= 0
                    &&& c@ == crate::model::class_of_concept(old(self)@.project.concepts[k], c@.id)
                    &&& final(self)@.selected_info_class_id == Some(c@.id)
                    &&& final(self)@.selected_info_graph_node_id matches Some(node) && final(self)@.project == (
                    ProjectView {
                        information_model: old(self)@.project.information_model.push(c@),
                        information_graph: class_added(old(self)@.project.information_graph, c@.id, 0, node),
                        ..old(self)@.project
                    })
                },
                None => {
                    &&& !res.changed
                    &&& first_where(old(self)@.project.concepts, crate::concept_model::concept_with_id(concept_id))
                        == -1
                    &&& final(self)@ == (WorkspaceView { selected_info_edge: None, ..old(self)@ })
                },
                _ => false,
            },
    {
        self.selected_info_edge = None;
        match self.project.create_information_class_from_concept(concept_id) {
            Some((node, class)) => {
                self.selected_info_class_id = Some(class.id());
                self.selected_info_graph_node_id = Some(node);
                Outcome { changed: true, broadcast: Some(ModelMutation::InformationClassAdded(class)) }
            },
            None => Outcome { changed: false, broadcast: None },
        }
    }

    /// Renames a class (see [`ModelProject::rename_information_class`]);
    /// the renamed class is sent to the other participants.
    pub fn update_information_class_name(&mut self, class_id: Id, name: &str) -> (res: Outcome)
        ensures
            ({
                let k = first_where(old(self)@.project.information_model, crate::information_model::class_id_is(class_id));
                let m = old(self)@.project.information_model;
                &&& res.changed == (k >= 0)
                &&& if k >= 0 {
                    &&& res.broadcast matches Some(ModelMutation::InformationClassUpdated(c)) && c@ == (ClassView {
                        name: crate::information_model::name_replacing(
                            m[k].name,
                            crate::information_model::class_placeholder(),
                            name@,
                        ),
                        ..m[k]
                    }) && final(self)@ == (WorkspaceView {
                        project: ProjectView { information_model: m.update(k, c@), ..old(self)@.project },
                        ..old(self)@
                    })
                } else {
                    res.broadcast is None && final(self)@ == old(self)@
                }
            }),
    {
        match self.project.rename_information_class(class_id, name) {
            Some(c) => Outcome { changed: true, broadcast: Some(ModelMutation::InformationClassUpdated(c)) },
            None => Outcome { changed: false, broadcast: None },
        }
    }

    /// Describes a class (see [`ModelProject::describe_information_class`]);
    /// the class is sent to the other participants.
    pub fn update_information_class_description(&mut self, class_id: Id, desc: &str) -> (res: Outcome)
        ensures
            ({
                let k = first_where(old(self)@.project.information_model, crate::information_model::class_id_is(class_id));
                let m = old(self)@.project.information_model;
                &&& res.changed == (k >= 0)
                &&& if k >= 0 {
                    &&& res.broadcast matches Some(ModelMutation::InformationClassUpdated(c)) && c@ == (ClassView {
                        description: if trimmed(desc@).len() == 0 { None } else { Some(desc@) },
                        ..m[k]
                    }) && final(self)@ == (WorkspaceView {
                        project: ProjectView { information_model: m.update(k, c@), ..old(self)@.project },
                        ..old(self)@
                    })
                } else {
                    res.broadcast is None && final(self)@ == old(self)@
                }
            }),
    {
        match self.project.describe_information_class(class_id, desc) {
            Some(c) => Outcome { changed: true, broadcast: Some(ModelMutation::InformationClassUpdated(c)) },
            None => Outcome { changed: false, broadcast: None },
        }
    }

    /// Removes a class and its node (see
    /// [`ModelProject::remove_information_class`]); a selection that pointed
    /// at them is let go. The removal is sent to the other participants in
    /// any case.
    pub fn delete_information_class(&mut self, class_id: Id) -> (res: Outcome)
        ensures
            res.changed,
            res.broadcast == Some(ModelMutation::InformationClassDeleted(class_id)),
            final(self)@.project.concepts == old(self)@.project.concepts,
            final(self)@.project.concept_graph == old(self)@.project.concept_graph,
            final(self)@.project.metadata == old(self)@.project.metadata,
            ({
                let m = old(self)@.project.information_model;
                let k = first_where(m, crate::information_model::class_id_is(class_id));
                &&& final(self)@.project.information_model == if k >= 0 { m.remove(k) } else { m }
                &&& final(self)@.project.information_graph == if k >= 0 {
                    crate::model::without_class(old(self)@.project.information_graph, class_id)
                } else {
                    old(self)@.project.information_graph
                }
            }),
            final(self)@.selected_info_class_id == if old(self)@.selected_info_class_id == Some(class_id) {
                None
            } else {
                old(self)@.selected_info_class_id
            },
            final(self)@.selected_info_graph_node_id == match old(self)@.selected_info_graph_node_id {
                Some(n) => if on_diagram(final(self)@.project.information_graph, n) {
                    Some(n)
                } else {
                    None
                },
                None => None,
            },
            final(self)@.selected_info_edge == old(self)@.selected_info_edge,
            final(self)@.selected_graph_node_id == old(self)@.selected_graph_node_id,
            final(self)@.selected_edge == old(self)@.selected_edge,
    {
        let ghost m = self@.project.information_model;
        let removed = self.project.remove_information_class(class_id);
        proof {
            match removed {
                Some(c) => {
                    let i = choose|i: int|
                        0 <= i < m.len() && m[i].id == class_id && (forall|j: int| 0 <= j < i ==> m[j].id != class_id)
                            && c@ == m[i] && self@.project.information_model == m.remove(i);
                    crate::seqs::lemma_first_where(m, crate::information_model::class_id_is(class_id), i);
                },
                None => {
                    crate::seqs::lemma_first_where_none(m, crate::information_model::class_id_is(class_id));
                },
            }
        }
        if self.selected_info_class_id == Some(class_id) {
            self.selected_info_class_id = None;
        }
        match self.selected_info_graph_node_id {
            Some(n) => {
                if self.project.information_graph().find_node(n).is_none() {
                    self.selected_info_graph_node_id = None;
                }
            },
            None => {},
        }
        Outcome { changed: true, broadcast: Some(ModelMutation::InformationClassDeleted(class_id)) }
    }

    /// Links or unlinks a concept to a class (see
    /// [`ModelProject::link_class_concept`]).
    pub fn link_class_concept(&mut self, class_id: Id, concept_id: Id, linked: bool) -> (res: Outcome)
        ensures
            res.broadcast is None,
            ({
                let k = first_where(old(self)@.project.information_model, crate::information_model::class_id_is(class_id));
                let m = old(self)@.project.information_model;
                &&& res.changed == (k >= 0)
                &&& final(self)@ == (WorkspaceView {
                    project: if k >= 0 {
                        ProjectView {
                            information_model: m.update(
                                k,
                                ClassView {
                                    concept_ids: if linked {
                                        crate::seqs::add_unique(m[k].concept_ids, concept_id)
                                    } else {
                                        crate::seqs::without(m[k].concept_ids, concept_id)
                                    },
                                    ..m[k]
                                },
                            ),
                            ..old(self)@.project
                        }
                    } else {
                        old(self)@.project
                    },
                    ..old(self)@
                })
            }),
    {
        let changed = self.project.link_class_concept(class_id, concept_id, linked);
        Outcome { changed, broadcast: None }
    }

    /// Gives a class a new attribute (see
    /// [`ModelProject::add_attribute_to_class`]).
    pub fn add_attribute_to_class(&mut self, class_id: Id) -> (res: Outcome)
        ensures
            res.broadcast is None,
            res.changed == (first_where(
                old(self)@.project.information_model,
                crate::information_model::class_id_is(class_id),
            ) >= 0),
            final(self)@ == (WorkspaceView { project: final(self)@.project, ..old(self)@ }),
            !res.changed ==> final(self)@.project == old(self)@.project,
            res.changed ==> {
                let k = first_where(old(self)@.project.information_model, crate::information_model::class_id_is(class_id));
                let m = old(self)@.project.information_model;
                let added = final(self)@.project.information_model[k].attributes.last();
                &&& added.name == Seq::<char>::empty()
                &&& added.data_type == crate::information_model::PrimitiveType::CharacterString
                &&& added.multiplicity.lo() == 1
                &&& added.multiplicity.hi() == Some(1u32)
                &&& added.concept_ids == Seq::<Id>::empty()
                &&& final(self)@.project == (ProjectView {
                    information_model: m.update(k, ClassView { attributes: m[k].attributes.push(added), ..m[k] }),
                    information_graph: crate::model::fitted(
                        old(self)@.project.information_graph,
                        class_id,
                        m[k].attributes.len() + 1,
                    ),
                    ..old(self)@.project
                })
            },
    {
        let changed = self.project.add_attribute_to_class(class_id);
        Outcome { changed, broadcast: None }
    }

    /// Changes an attribute of a class (see
    /// [`ModelProject::edit_class_attribute`]).
    pub fn update_attribute(&mut self, class_id: Id, attr_id: Id, edit: AttributeEdit) -> (res: Outcome)
        ensures
            res.broadcast is None,
            ({
                let k = first_where(old(self)@.project.information_model, crate::information_model::class_id_is(class_id));
                let m = old(self)@.project.information_model;
                let a = if k >= 0 {
                    first_where(m[k].attributes, crate::information_model::attribute_id_is(attr_id))
                } else {
                    -1
                };
                &&& res.changed == (a >= 0)
                &&& final(self)@ == (WorkspaceView {
                    project: if a >= 0 {
                        ProjectView {
                            information_model: m.update(
                                k,
                                ClassView {
                                    attributes: m[k].attributes.update(
                                        a,
                                        crate::information_model::attribute_edited(m[k].attributes[a], edit),
                                    ),
                                    ..m[k]
                                },
                            ),
                            ..old(self)@.project
                        }
                    } else {
                        old(self)@.project
                    },
                    ..old(self)@
                })
            }),
    {
        let changed = self.project.edit_class_attribute(class_id, attr_id, edit);
        Outcome { changed, broadcast: None }
    }

    /// Removes an attribute of a class (see
    /// [`ModelProject::delete_attribute`]).
    pub fn delete_attribute(&mut self, class_id: Id, attr_id: Id) -> (res: Outcome)
        ensures
            res.broadcast is None,
            ({
                let k = first_where(old(self)@.project.information_model, crate::information_model::class_id_is(class_id));
                let m = old(self)@.project.information_model;
                &&& res.changed == (k >= 0)
                &&& final(self)@ == (WorkspaceView {
                    project: if k >= 0 {
                        let a = first_where(m[k].attributes, crate::information_model::attribute_id_is(attr_id));
                        let attrs = if a >= 0 { m[k].attributes.remove(a) } else { m[k].attributes };
                        ProjectView {
                            information_model: m.update(k, ClassView { attributes: attrs, ..m[k] }),
                            information_graph: crate::model::fitted(
                                old(self)@.project.information_graph,
                                class_id,
                                attrs.len(),
                            ),
                            ..old(self)@.project
                        }
                    } else {
                        old(self)@.project
                    },
                    ..old(self)@
                })
            }),
    {
        let changed = self.project.delete_attribute(class_id, attr_id);
        Outcome { changed, broadcast: None }
    }

    /// Puts a class on the class diagram (see
    /// [`ModelProject::add_class_to_diagram`]) and selects it with its node.
    pub fn add_class_to_diagram(&mut self, class_id: Id) -> (res: Outcome)
        ensures
            res.changed,
            res.broadcast is None,
            ({
                let k = first_where(old(self)@.project.information_model, crate::information_model::class_id_is(class_id));
                let count = if k >= 0 { old(self)@.project.information_model[k].attributes.len() } else { 0 };
                &&& final(self)@.selected_info_graph_node_id matches Some(node) && final(self)@ == (WorkspaceView {
                    project: with_graph(
                        old(self)@.project,
                        class_added(old(self)@.project.information_graph, class_id, count, node),
                    ),
                    selected_info_class_id: Some(class_id),
                    selected_info_graph_node_id: Some(node),
                    ..old(self)@
                })
            }),
    {
        let node = self.project.add_class_to_diagram(class_id);
        self.selected_info_class_id = Some(class_id);
        self.selected_info_graph_node_id = Some(node);
        Outcome { changed: true, broadcast: None }
    }

    /// Takes a node off the class diagram, with its relations; a selection
    /// of that node is let go.
    pub fn remove_class_from_diagram(&mut self, node_id: NodeId) -> (res: Outcome)
        ensures
            res.changed,
            res.broadcast is None,
            final(self)@ == (WorkspaceView {
                project: with_graph(
                    old(self)@.project,
                    ClassGraphView {
                        nodes: old(self)@.project.information_graph.nodes.filter(other_id(node_id)),
                        edges: old(self)@.project.information_graph.edges.filter(not_touching(node_id)),
                    },
                ),
                selected_info_graph_node_id: if old(self)@.selected_info_graph_node_id == Some(node_id) {
                    None
                } else {
                    old(self)@.selected_info_graph_node_id
                },
                ..old(self)@
            }),
    {
        self.project.information_graph_mut().remove_node(node_id);
        if self.selected_info_graph_node_id == Some(node_id) {
            self.selected_info_graph_node_id = None;
        }
        Outcome { changed: true, broadcast: None }
    }

    /// Moves a node of the class diagram and lets every relation take the
    /// sides the router now assigns; the move is offered to the other
    /// participants (the editor sends moves at a limited rate).
    pub fn update_class_node_position(&mut self, node_id: NodeId, x: i64, y: i64) -> (res: Outcome)
        ensures
            res.changed,
            res.broadcast == Some(ModelMutation::NodeMoved { id: node_id, x, y }),
            ({
                let moved = class_node_moved(old(self)@.project.information_graph, node_id, x, y);
                final(self)@ == (WorkspaceView {
                    project: with_graph(
                        old(self)@.project,
                        ClassGraphView { nodes: moved.nodes, edges: ports_refreshed(moved) },
                    ),
                    ..old(self)@
                })
            }),
    {
        let g = self.project.information_graph_mut();
        g.update_node_position(node_id, x, y);
        g.refresh_ports();
        Outcome { changed: true, broadcast: Some(ModelMutation::NodeMoved { id: node_id, x, y }) }
    }

    /// Draws an association between two different nodes of the class
    /// diagram, unless a relation already runs from the one to the other,
    /// and selects the relation; ends that are the same or not both on the
    /// diagram change nothing.
    pub fn info_edge_created(&mut self, from: NodeId, to: NodeId) -> (res: Outcome)
        ensures
            res.broadcast is None,
            ({
                let g = old(self)@.project.information_graph;
                if from != to && on_diagram(g, from) && on_diagram(g, to) {
                    let exists_already = first_where(g.edges, crate::class_graph::between(from, to)) >= 0;
                    &&& res.changed == !exists_already
                    &&& final(self)@ == (WorkspaceView {
                        project: if exists_already {
                            old(self)@.project
                        } else {
                            with_graph(
                                old(self)@.project,
                                ClassGraphView {
                                    nodes: g.nodes,
                                    edges: with_relation(g, from, to, RelationKind::Association, None, None, None),
                                },
                            )
                        },
                        selected_info_graph_node_id: None,
                        selected_info_class_id: None,
                        selected_info_edge: Some((from, to)),
                        ..old(self)@
                    })
                } else {
                    !res.changed && final(self)@ == old(self)@
                }
            }),
    {
        if from == to {
            return Outcome { changed: false, broadcast: None };
        }
        let both = self.project.information_graph().find_node(from).is_some() && self.project.information_graph().find_node(
            to,
        ).is_some();
        if !both {
            return Outcome { changed: false, broadcast: None };
        }
        let mut changed = false;
        if self.project.information_graph().find_edge(from, to).is_none() {
            self.project.information_graph_mut().add_relation(from, to, RelationKind::Association, None);
            changed = true;
        }
        self.selected_info_graph_node_id = None;
        self.selected_info_class_id = None;
        self.selected_info_edge = Some((from, to));
        Outcome { changed, broadcast: None }
    }

    /// Labels the first relation from one node to the other; a blank text
    /// takes the label away.
    pub fn info_update_edge_label(&mut self, from: NodeId, to: NodeId, label: &str) -> (res: Outcome)
        ensures
            res.broadcast is None,
            ({
                let g = old(self)@.project.information_graph;
                &&& res.changed == (first_where(g.edges, crate::class_graph::between(from, to)) >= 0)
                &&& final(self)@ == (WorkspaceView {
                    project: with_graph(
                        old(self)@.project,
                        ClassGraphView {
                            nodes: g.nodes,
                            edges: edit_edge(
                                g.edges,
                                from,
                                to,
                                |e: ClassEdgeView| ClassEdgeView { label: label_or_none(label@), ..e },
                            ),
                        },
                    ),
                    ..old(self)@
                })
            }),
    {
        let lbl = if trim(label).unicode_len() == 0 {
            None
        } else {
            Some(String::from_str(label))
        };
        let changed = self.project.information_graph_mut().update_edge_label(from, to, lbl);
        Outcome { changed, broadcast: None }
    }

    /// Turns the first relation from one node to the other around and, when
    /// there was one, selects it the other way round.
    pub fn info_reverse_edge(&mut self, from: NodeId, to: NodeId) -> (res: Outcome)
        ensures
            res.broadcast is None,
            ({
                let g = old(self)@.project.information_graph;
                let found = first_where(g.edges, crate::class_graph::between(from, to)) >= 0;
                &&& res.changed == found
                &&& final(self)@ == (WorkspaceView {
                    project: with_graph(
                        old(self)@.project,
                        ClassGraphView { nodes: g.nodes, edges: reverse_edge(g.edges, from, to) },
                    ),
                    selected_info_edge: if found { Some((to, from)) } else { old(self)@.selected_info_edge },
                    ..old(self)@
                })
            }),
    {
        let changed = self.project.information_graph_mut().reverse_relation(from, to);
        if changed {
            self.selected_info_edge = Some((to, from));
        }
        Outcome { changed, broadcast: None }
    }

    /// Removes every relation from one node to the other; a selection of
    /// the relation either way round is let go.
    pub fn delete_class_relation(&mut self, from: NodeId, to: NodeId) -> (res: Outcome)
        ensures
            res.changed,
            res.broadcast is None,
            final(self)@ == (WorkspaceView {
                project: with_graph(
                    old(self)@.project,
                    ClassGraphView {
                        nodes: old(self)@.project.information_graph.nodes,
                        edges: old(self)@.project.information_graph.edges.filter(not_between(from, to)),
                    },
                ),
                selected_info_edge: if old(self)@.selected_info_edge == Some((from, to))
                    || old(self)@.selected_info_edge == Some((to, from)) {
                    None
                } else {
                    old(self)@.selected_info_edge
                },
                ..old(self)@
            }),
    {
        self.project.information_graph_mut().remove_relation(from, to);
        if self.selected_info_edge == Some((from, to)) || self.selected_info_edge == Some((to, from)) {
            self.selected_info_edge = None;
        }
        Outcome { changed: true, broadcast: None }
    }

    /// Removes a concept with its nodes (see [`ModelProject::remove_concept`]);
    /// the form editing it closes. The removal is sent to the other
    /// participants in any case.
    pub fn delete_concept(&mut self, id: Id) -> (res: Outcome)
        ensures
            res.changed,
            res.broadcast == Some(ModelMutation::ConceptDeleted(id)),
            ({
                let editing_it = old(self)@.editor_state matches Some(e) && e.editing_id == Some(id);
                final(self)@ == (WorkspaceView {
                    project: concept_removed(old(self)@.project, id),
                    editor_state: if editing_it { None } else { old(self)@.editor_state },
                    is_inline_graph_editing: if editing_it { false } else { old(self)@.is_inline_graph_editing },
                    ..old(self)@
                })
            }),
    {
        self.project.remove_concept(id);
        let editing_it = match &self.editor_state {
            Some(e) => e.editing_id == Some(id),
            None => false,
        };
        if editing_it {
            self.editor_state = None;
            self.is_inline_graph_editing = false;
        }
        Outcome { changed: true, broadcast: Some(ModelMutation::ConceptDeleted(id)) }
    }

    /// Stores the concept of the open form: an edited concept replaces the
    /// one with its identifier, a new one is appended, the form closes, a
    /// form opened from the diagram relabels the concept's node, and the
    /// concept is sent to the other participants. A form whose concept is
    /// invalid, or whose edited concept is gone, shows why and nothing else
    /// changes.
    pub fn save_concept(&mut self) -> (res: Outcome)
        ensures
            match old(self)@.editor_state {
                None => !res.changed && res.broadcast is None && final(self)@ == old(self)@,
                Some(e) => match validation_of(form_concept(e, 0)) {
                    Some(err) => {
                        &&& !res.changed
                        &&& res.broadcast is None
                        &&& final(self)@.editor_state matches Some(f) && showing_error(e, f, validation_text(err))
                        &&& final(self)@ == (WorkspaceView { editor_state: final(self)@.editor_state, ..old(self)@ })
                    },
                    None => {
                        let editing = e.editing_id is Some;
                        match res.broadcast {
                            Some(m) => {
                                let c = match m {
                                    ModelMutation::ConceptUpdated(c) => c@,
                                    ModelMutation::ConceptAdded(c) => c@,
                                    _ => form_concept(e, 0),
                                };
                                &&& (m is ConceptUpdated) == editing
                                &&& (m is ConceptAdded) == !editing
                                &&& c == form_concept(e, c.id)
                                &&& (e.editing_id matches Some(i) ==> c.id == i)
                                &&& res.changed
                                &&& concept_stored(old(self)@.project, c, editing) matches Some(q) && final(self)@ == (
                                WorkspaceView {
                                    project: if old(self)@.is_inline_graph_editing {
                                        ProjectView {
                                            concept_graph: relabel_concept(q.concept_graph, c.id, c.preferred_term),
                                            ..q
                                        }
                                    } else {
                                        q
                                    },
                                    editor_state: None,
                                    is_inline_graph_editing: false,
                                    ..old(self)@
                                })
                            },
                            None => {
                                &&& !res.changed
                                &&& editing
                                &&& first_where(old(self)@.project.concepts, concept_with_id(e.editing_id->0)) == -1
                                &&& final(self)@.editor_state matches Some(f) && showing_error(
                                    e,
                                    f,
                                    validation_text(ValidationView::MissingRequiredField(concept_not_found())),
                                )
                                &&& final(self)@ == (WorkspaceView {
                                    editor_state: final(self)@.editor_state,
                                    ..old(self)@
                                })
                            },
                        }
                    },
                },
            },
    {
        let built = match &self.editor_state {
            Some(e) => Some((e.build_concept(), e.editing_id.is_some())),
            None => None,
        };
        match built {
            None => Outcome { changed: false, broadcast: None },
            Some((Err(err), _)) => {
                let msg = err.message();
                match &mut self.editor_state {
                    Some(e) => {
                        e.validation_error = Some(msg);
                    },
                    None => {},
                }
                Outcome { changed: false, broadcast: None }
            },
            Some((Ok(concept), editing)) => {
                let copy = concept.duplicate();
                let result = if editing {
                    self.project.update_concept(concept)
                } else {
                    match self.project.add_concept(concept) {
                        Ok(_) => Ok(()),
                        Err(e) => Err(e),
                    }
                };
                match result {
                    Ok(()) => {
                        let inline = self.is_inline_graph_editing;
                        self.editor_state = None;
                        self.is_inline_graph_editing = false;
                        if inline {
                            self.project.concept_graph_mut().set_concept_label(copy.id(), copy.preferred_term());
                        }
                        let m = if editing {
                            ModelMutation::ConceptUpdated(copy)
                        } else {
                            ModelMutation::ConceptAdded(copy)
                        };
                        Outcome { changed: true, broadcast: Some(m) }
                    },
                    Err(err) => {
                        let msg = err.message();
                        match &mut self.editor_state {
                            Some(e) => {
                                e.validation_error = Some(msg);
                            },
                            None => {},
                        }
                        Outcome { changed: false, broadcast: None }
                    },
                }
            },
        }
    }

    /// Puts the first concept with the identifier on the concept diagram,
    /// unless it is there already, and selects its new node.
    pub fn add_concept_to_diagram(&mut self, concept_id: Id) -> (res: Outcome)
        ensures
            res.broadcast is None,
            ({
                let g = old(self)@.project.concept_graph;
                let k = first_where(old(self)@.project.concepts, concept_with_id(concept_id));
                let on = exists|i: int| 0 <= i < g.nodes.len() && g.nodes[i].concept_id == concept_id;
                if !on && k >= 0 {
                    &&& res.changed
                    &&& final(self)@.selected_graph_node_id matches Some(node) && final(self)@ == (WorkspaceView {
                        project: ProjectView {
                            concept_graph: placed(g, old(self)@.project.concepts[k], node),
                            ..old(self)@.project
                        },
                        selected_graph_node_id: Some(node),
                        ..old(self)@
                    })
                } else {
                    !res.changed && final(self)@ == old(self)@
                }
            }),
    {
        if self.project.concept_graph().is_concept_on_diagram(concept_id) {
            return Outcome { changed: false, broadcast: None };
        }
        match self.project.get_concept(concept_id) {
            Some(c) => {
                let concept = c.duplicate();
                let node = self.project.concept_graph_mut().add_node(&concept);
                self.selected_graph_node_id = Some(node);
                Outcome { changed: true, broadcast: None }
            },
            None => Outcome { changed: false, broadcast: None },
        }
    }

    /// Draws an association between two different nodes of the concept
    /// diagram, unless a relation already runs from the one to the other,
    /// and selects the relation; ends that are the same or not both on the
    /// diagram change nothing.
    pub fn graph_edge_created(&mut self, from: NodeId, to: NodeId) -> (res: Outcome)
        ensures
            res.broadcast is None,
            ({
                let g = old(self)@.project.concept_graph;
                if from != to && crate::concept_model::has_node(g.nodes, from) && crate::concept_model::has_node(
                    g.nodes,
                    to,
                ) {
                    let exists_already = first_where(g.edges, runs(from, to)) >= 0;
                    &&& res.changed == !exists_already
                    &&& final(self)@ == (WorkspaceView {
                        project: if exists_already {
                            old(self)@.project
                        } else {
                            ProjectView {
                                concept_graph: GraphView {
                                    nodes: g.nodes,
                                    edges: g.edges.push(
                                        crate::concept_model::EdgeView {
                                            from,
                                            to,
                                            kind: RelationKind::Association,
                                            label: None,
                                        },
                                    ),
                                },
                                ..old(self)@.project
                            }
                        },
                        selected_graph_node_id: None,
                        selected_edge: Some((from, to)),
                        ..old(self)@
                    })
                } else {
                    !res.changed && final(self)@ == old(self)@
                }
            }),
    {
        if from == to {
            return Outcome { changed: false, broadcast: None };
        }
        let both = self.project.concept_graph().find_node(from).is_some() && self.project.concept_graph().find_node(
            to,
        ).is_some();
        if !both {
            return Outcome { changed: false, broadcast: None };
        }
        let mut changed = false;
        if self.project.concept_graph().find_edge(from, to).is_none() {
            self.project.concept_graph_mut().add_relation(from, to, RelationKind::Association);
            changed = true;
        }
        self.selected_graph_node_id = None;
        self.selected_edge = Some((from, to));
        Outcome { changed, broadcast: None }
    }

    /// Removes every relation from one node of the concept diagram to the
    /// other; a selection of it either way round is let go, and the removal
    /// is sent to the other participants.
    pub fn graph_delete_relation(&mut self, from: NodeId, to: NodeId) -> (res: Outcome)
        ensures
            res.changed,
            res.broadcast == Some(ModelMutation::RelationDeleted { from, to }),
            final(self)@ == (WorkspaceView {
                project: ProjectView {
                    concept_graph: GraphView {
                        nodes: old(self)@.project.concept_graph.nodes,
                        edges: old(self)@.project.concept_graph.edges.filter(not_runs(from, to)),
                    },
                    ..old(self)@.project
                },
                selected_edge: if old(self)@.selected_edge == Some((from, to)) || old(self)@.selected_edge == Some(
                    (to, from),
                ) {
                    None
                } else {
                    old(self)@.selected_edge
                },
                ..old(self)@
            }),
    {
        self.project.concept_graph_mut().remove_relation(from, to);
        if self.selected_edge == Some((from, to)) || self.selected_edge == Some((to, from)) {
            self.selected_edge = None;
        }
        Outcome { changed: true, broadcast: Some(ModelMutation::RelationDeleted { from, to }) }
    }

    /// Changes the kind of the first relation from one node of the concept
    /// diagram to the other.
    pub fn graph_update_edge_kind(&mut self, from: NodeId, to: NodeId, kind: RelationKind) -> (res: Outcome)
        ensures
            res.broadcast is None,
            res.changed == (first_where(old(self)@.project.concept_graph.edges, runs(from, to)) >= 0),
            final(self)@ == (WorkspaceView {
                project: ProjectView {
                    concept_graph: edit_first(
                        old(self)@.project.concept_graph,
                        from,
                        to,
                        |e: EdgeView| EdgeView { kind, ..e },
                    ),
                    ..old(self)@.project
                },
                ..old(self)@
            }),
    {
        let changed = self.project.concept_graph_mut().update_edge_kind(from, to, kind);
        Outcome { changed, broadcast: None }
    }

    /// Labels the first relation from one node of the concept diagram to
    /// the other; a blank text takes the label away.
    pub fn graph_update_edge_label(&mut self, from: NodeId, to: NodeId, label: &str) -> (res: Outcome)
        ensures
            res.broadcast is None,
            res.changed == (first_where(old(self)@.project.concept_graph.edges, runs(from, to)) >= 0),
            final(self)@ == (WorkspaceView {
                project: ProjectView {
                    concept_graph: edit_first(
                        old(self)@.project.concept_graph,
                        from,
                        to,
                        |e: EdgeView| EdgeView { label: label_or_none(label@), ..e },
                    ),
                    ..old(self)@.project
                },
                ..old(self)@
            }),
    {
        let lbl = if trim(label).unicode_len() == 0 {
            None
        } else {
            Some(String::from_str(label))
        };
        let changed = self.project.concept_graph_mut().update_edge_label(from, to, lbl);
        Outcome { changed, broadcast: None }
    }

    /// Turns the first relation from one node of the concept diagram to the
    /// other around and, when there was one, selects it the other way round.
    pub fn graph_reverse_edge(&mut self, from: NodeId, to: NodeId) -> (res: Outcome)
        ensures
            res.broadcast is None,
            ({
                let found = first_where(old(self)@.project.concept_graph.edges, runs(from, to)) >= 0;
                &&& res.changed == found
                &&& final(self)@ == (WorkspaceView {
                    project: ProjectView {
                        concept_graph: reverse_first(old(self)@.project.concept_graph, from, to),
                        ..old(self)@.project
                    },
                    selected_edge: if found { Some((to, from)) } else { old(self)@.selected_edge },
                    ..old(self)@
                })
            }),
    {
        let changed = self.project.concept_graph_mut().reverse_relation(from, to);
        if changed {
            self.selected_edge = Some((to, from));
        }
        Outcome { changed, broadcast: None }
    }

    /// Starts the session that the start dialog prepared: the dialog and
    /// the menu close, and the session is hosted with the ticket's key,
    /// connected, with the host alone in it. Returns the ticket, whose relay
    /// and room the channel connects to; nothing happens without the dialog.
    pub fn start_session(&mut self, session: &mut CollabSession) -> (res: Option<SessionTicket>)
        ensures
            match old(self)@.start_session_modal {
                Some(m) => {
                    &&& res matches Some(t) && t@ == m.ticket@
                    &&& final(self)@ == (WorkspaceView { start_session_modal: None, active_menu: None, ..old(self)@ })
                    &&& final(session)@ == (SessionView {
                        key: Some(m.ticket.key@),
                        role: CollabState::Host,
                        status: ConnectionStatus::Connected,
                        participants: 1,
                        last_seen: 0,
                        ..old(session)@
                    })
                },
                None => res is None && final(self)@ == old(self)@ && final(session)@ == old(session)@,
            },
    {
        match self.start_session_modal.take() {
            Some(modal) => {
                self.active_menu = None;
                let ticket = modal.ticket;
                session.begin_hosting(CollabKey::from_bytes(ticket.key.0));
                Some(ticket)
            },
            None => None,
        }
    }

    /// Joins the session of the ticket typed into the join dialog: the
    /// dialog closes; with a valid ticket the menu closes too and the
    /// session is joined as guest with the ticket's key, connected. Returns
    /// the ticket, whose relay and room the channel connects to.
    pub fn join_session(&mut self, session: &mut CollabSession) -> (res: Option<SessionTicket>)
        ensures
            match old(self)@.join_session_modal {
                Some(m) => match m.parsed_ticket {
                    Some(pt) => {
                        &&& res matches Some(t) && t@ == pt@
                        &&& final(self)@ == (WorkspaceView { join_session_modal: None, active_menu: None, ..old(self)@ })
                        &&& final(session)@ == (SessionView {
                            key: Some(pt.key@),
                            role: CollabState::Guest,
                            status: ConnectionStatus::Connected,
                            last_seen: 0,
                            ..old(session)@
                        })
                    },
                    None => res is None && final(self)@ == (WorkspaceView { join_session_modal: None, ..old(self)@ })
                        && final(session)@ == old(session)@,
                },
                None => res is None && final(self)@ == old(self)@ && final(session)@ == old(session)@,
            },
    {
        match self.join_session_modal.take() {
            Some(modal) => match modal.parsed_ticket {
                Some(ticket) => {
                    self.active_menu = None;
                    session.begin_guest(CollabKey::from_bytes(ticket.key.0));
                    Some(ticket)
                },
                None => None,
            },
            None => None,
        }
    }

    /// Shows a tab; the diagram of the tab shown is brought in line with
    /// its model.
    pub fn select_tab(&mut self, tab: Tab)
        ensures
            final(self)@ == (WorkspaceView {
                active_tab: tab,
                project: match tab {
                    Tab::ConceptModel => ProjectView {
                        concept_graph: synced_with_concepts(
                            old(self)@.project.concept_graph,
                            old(self)@.project.concepts,
                        ),
                        ..old(self)@.project
                    },
                    Tab::InformationModel => ProjectView {
                        information_graph: synced_with_model(
                            old(self)@.project.information_graph,
                            old(self)@.project.information_model,
                        ),
                        ..old(self)@.project
                    },
                    Tab::ConceptList => old(self)@.project,
                },
                ..old(self)@
            }),
    {
        self.active_tab = tab;
        match tab {
            Tab::ConceptModel => self.project.sync_concept_graph(),
            Tab::InformationModel => self.project.sync_information_graph(),
            Tab::ConceptList => {},
        }
    }

    /// Deletes what is selected on the diagram of the tab shown: the
    /// selected relation, or else the selected node with its relations.
    pub fn graph_delete_selected(&mut self) -> (res: Outcome)
        ensures
            res.broadcast is None,
            ({
                let o = old(self)@;
                match o.active_tab {
                    Tab::ConceptModel => match (o.selected_edge, o.selected_graph_node_id) {
                        (Some((from, to)), _) => res.changed && final(self)@ == (WorkspaceView {
                            project: ProjectView {
                                concept_graph: GraphView {
                                    nodes: o.project.concept_graph.nodes,
                                    edges: o.project.concept_graph.edges.filter(not_runs(from, to)),
                                },
                                ..o.project
                            },
                            selected_edge: None,
                            ..o
                        }),
                        (None, Some(n)) => res.changed && final(self)@ == (WorkspaceView {
                            project: ProjectView {
                                concept_graph: GraphView {
                                    nodes: o.project.concept_graph.nodes.filter(other_node(n)),
                                    edges: o.project.concept_graph.edges.filter(clear_of(n)),
                                },
                                ..o.project
                            },
                            selected_graph_node_id: None,
                            ..o
                        }),
                        (None, None) => !res.changed && final(self)@ == o,
                    },
                    Tab::InformationModel => match (o.selected_info_edge, o.selected_info_graph_node_id) {
                        (Some((from, to)), _) => res.changed && final(self)@ == (WorkspaceView {
                            project: with_graph(
                                o.project,
                                ClassGraphView {
                                    nodes: o.project.information_graph.nodes,
                                    edges: o.project.information_graph.edges.filter(not_between(from, to)),
                                },
                            ),
                            selected_info_edge: None,
                            ..o
                        }),
                        (None, Some(n)) => res.changed && final(self)@ == (WorkspaceView {
                            project: with_graph(
                                o.project,
                                ClassGraphView {
                                    nodes: o.project.information_graph.nodes.filter(other_id(n)),
                                    edges: o.project.information_graph.edges.filter(not_touching(n)),
                                },
                            ),
                            selected_info_graph_node_id: None,
                            ..o
                        }),
                        (None, None) => !res.changed && final(self)@ == o,
                    },
                    Tab::ConceptList => !res.changed && final(self)@ == o,
                }
            }),
    {
        match self.active_tab {
            Tab::ConceptModel => {
                if let Some((from, to)) = self.selected_edge {
                    self.selected_edge = None;
                    self.project.concept_graph_mut().remove_relation(from, to);
                    Outcome { changed: true, broadcast: None }
                } else if let Some(n) = self.selected_graph_node_id {
                    self.selected_graph_node_id = None;
                    self.project.concept_graph_mut().remove_node(n);
                    Outcome { changed: true, broadcast: None }
                } else {
                    Outcome { changed: false, broadcast: None }
                }
            },
            Tab::InformationModel => {
                if let Some((from, to)) = self.selected_info_edge {
                    self.selected_info_edge = None;
                    self.project.information_graph_mut().remove_relation(from, to);
                    Outcome { changed: true, broadcast: None }
                } else if let Some(n) = self.selected_info_graph_node_id {
                    self.selected_info_graph_node_id = None;
                    self.project.information_graph_mut().remove_node(n);
                    Outcome { changed: true, broadcast: None }
                } else {
                    Outcome { changed: false, broadcast: None }
                }
            },
            Tab::ConceptList => Outcome { changed: false, broadcast: None },
        }
    }

    /// Creates the concept of the open quick-create box: it is stored, its
    /// node, where the diagram has one, is moved to where the box was
    /// opened and selected, the box closes and the concept is sent to the
    /// other participants. An invalid concept is shown as an error in the
    /// box and nothing else changes.
    pub fn quick_create_submit(&mut self) -> (res: Outcome)
        ensures
            match old(self)@.quick_create {
                None => !res.changed && res.broadcast is None && final(self)@ == old(self)@,
                Some(e) => match validation_of(box_concept(e, 0)) {
                    Some(err) => {
                        &&& !res.changed
                        &&& res.broadcast is None
                        &&& final(self)@.quick_create matches Some(f) && box_showing_error(e, f, validation_text(err))
                        &&& final(self)@ == (WorkspaceView { quick_create: final(self)@.quick_create, ..old(self)@ })
                    },
                    None => {
                        &&& res.changed
                        &&& res.broadcast matches Some(ModelMutation::ConceptAdded(c)) && {
                            let stored = ProjectView {
                                concepts: old(self)@.project.concepts.push(c@),
                                concept_graph: synced_with_concepts(
                                    old(self)@.project.concept_graph,
                                    old(self)@.project.concepts.push(c@),
                                ),
                                ..old(self)@.project
                            };
                            let g = move_first(stored.concept_graph, shows_concept(c@.id), e.position.0, e.position.1);
                            let k = first_where(g.nodes, shows_concept(c@.id));
                            &&& c@ == box_concept(e, c@.id)
                            &&& final(self)@ == (WorkspaceView {
                                project: ProjectView { concept_graph: g, ..stored },
                                selected_graph_node_id: if k >= 0 {
                                    Some(g.nodes[k].id)
                                } else {
                                    old(self)@.selected_graph_node_id
                                },
                                quick_create: None,
                                ..old(self)@
                            })
                        }
                    },
                },
            },
    {
        let built = match &self.quick_create {
            Some(q) => Some((q.build_concept(), q.position)),
            None => None,
        };
        match built {
            None => Outcome { changed: false, broadcast: None },
            Some((Err(err), _)) => {
                let msg = err.message();
                match &mut self.quick_create {
                    Some(q) => {
                        q.validation_error = Some(msg);
                    },
                    None => {},
                }
                Outcome { changed: false, broadcast: None }
            },
            Some((Ok(concept), (x, y))) => {
                let copy = concept.duplicate();
                let cid = copy.id();
                match self.project.add_concept(concept) {
                    Ok(_) => {
                        self.project.concept_graph_mut().move_concept_node(cid, x, y);
                        match self.project.concept_graph().find_node_by_concept(cid) {
                            Some(n) => {
                                self.selected_graph_node_id = Some(n.id());
                            },
                            None => {},
                        }
                        self.quick_create = None;
                        Outcome { changed: true, broadcast: Some(ModelMutation::ConceptAdded(copy)) }
                    },
                    Err(err) => {
                        let msg = err.message();
                        match &mut self.quick_create {
                            Some(q) => {
                                q.validation_error = Some(msg);
                            },
                            None => {},
                        }
                        Outcome { changed: false, broadcast: None }
                    },
                }
            },
        }
    }

    /// Escape closes the innermost thing open: a menu, a dialog, a form or
    /// a selection, in that order, one at a time.
    pub fn escape_pressed(&mut self)
        ensures
            ({
                let o = old(self)@;
                final(self)@ == if o.active_menu is Some {
                    WorkspaceView { active_menu: None, ..o }
                } else if o.start_session_modal is Some {
                    WorkspaceView { start_session_modal: None, ..o }
                } else if o.join_session_modal is Some {
                    WorkspaceView { join_session_modal: None, ..o }
                } else if o.guest_ended_notice is Some {
                    WorkspaceView { guest_ended_notice: None, ..o }
                } else if o.metadata_modal is Some {
                    WorkspaceView { metadata_modal: None, ..o }
                } else if o.quick_create is Some {
                    WorkspaceView { quick_create: None, ..o }
                } else if o.relation_dialog is Some {
                    WorkspaceView { relation_dialog: None, ..o }
                } else if o.file_dialog_mode is Some {
                    WorkspaceView { file_dialog_mode: None, ..o }
                } else if o.is_inline_graph_editing {
                    WorkspaceView { is_inline_graph_editing: false, editor_state: None, ..o }
                } else if o.editor_state is Some {
                    WorkspaceView { editor_state: None, ..o }
                } else if o.selected_edge is Some {
                    WorkspaceView { selected_edge: None, ..o }
                } else if o.selected_info_edge is Some {
                    WorkspaceView { selected_info_edge: None, ..o }
                } else if o.selected_graph_node_id is Some {
                    WorkspaceView { selected_graph_node_id: None, ..o }
                } else if o.selected_info_graph_node_id is Some {
                    WorkspaceView { selected_info_graph_node_id: None, ..o }
                } else {
                    o
                }
            }),
    {
        if self.active_menu.is_some() {
            self.active_menu = None;
        } else if self.start_session_modal.is_some() {
            self.start_session_modal = None;
        } else if self.join_session_modal.is_some() {
            self.join_session_modal = None;
        } else if self.guest_ended_notice.is_some() {
            self.guest_ended_notice = None;
        } else if self.metadata_modal.is_some() {
            self.metadata_modal = None;
        } else if self.quick_create.is_some() {
            self.quick_create = None;
        } else if self.relation_dialog.is_some() {
            self.relation_dialog = None;
        } else if self.file_dialog_mode.is_some() {
            self.file_dialog_mode = None;
        } else if self.is_inline_graph_editing {
            self.is_inline_graph_editing = false;
            self.editor_state = None;
        } else if self.editor_state.is_some() {
            self.editor_state = None;
        } else if self.selected_edge.is_some() {
            self.selected_edge = None;
        } else if self.selected_info_edge.is_some() {
            self.selected_info_edge = None;
        } else if self.selected_graph_node_id.is_some() {
            self.selected_graph_node_id = None;
        } else if self.selected_info_graph_node_id.is_some() {
            self.selected_info_graph_node_id = None;
        }
    }

    /// Opens a menu, or closes it when it is the one open.
    pub fn toggle_menu(&mut self, menu: MenuType)
        ensures
            final(self)@ == (WorkspaceView {
                active_menu: if old(self)@.active_menu == Some(menu) { None } else { Some(menu) },
                ..old(self)@
            }),
    {
        if self.active_menu == Some(menu) {
            self.active_menu = None;
        } else {
            self.active_menu = Some(menu);
        }
    }

    /// Opens the relation dialog of the concept diagram.
    pub fn graph_open_relation_dialog(&mut self)
        ensures
            final(self)@.relation_dialog matches Some(d) && {
                let ns = old(self)@.project.concept_graph.nodes;
                d@ == crate::dialogs::fresh_dialog(
                    if ns.len() > 0 { Some((ns[0].id, ns[0].label)) } else { None },
                    if ns.len() > 1 {
                        Some((ns[1].id, ns[1].label))
                    } else if ns.len() > 0 {
                        Some((ns[0].id, ns[0].label))
                    } else {
                        None
                    },
                )
            },
            final(self)@ == (WorkspaceView { relation_dialog: final(self)@.relation_dialog, ..old(self)@ }),
    {
        self.relation_dialog = Some(RelationDialogState::for_concept_graph(self.project.concept_graph()));
    }

    /// Draws the relation chosen in the concept diagram's dialog (see
    /// [`RelationDialogState::create_concept_relation`]); when it is drawn
    /// the dialog closes and the relation is sent to the other
    /// participants.
    pub fn graph_create_relation(&mut self) -> (res: Outcome)
        ensures
            match old(self)@.relation_dialog {
                None => !res.changed && res.broadcast is None && final(self)@ == old(self)@,
                Some(d) => match res.broadcast {
                    Some(ModelMutation::RelationAdded(r)) => {
                        &&& res.changed
                        &&& drawn_from_dialog(d@, old(self)@.project.concept_graph, r, final(self)@.project.concept_graph)
                        &&& final(self)@ == (WorkspaceView {
                            project: ProjectView {
                                concept_graph: final(self)@.project.concept_graph,
                                ..old(self)@.project
                            },
                            relation_dialog: None,
                            ..old(self)@
                        })
                    },
                    None => {
                        &&& !res.changed
                        &&& final(self)@.relation_dialog matches Some(f) && f@ == (RelationDialogView {
                            error: f@.error,
                            ..d@
                        }) && f@.error is Some
                        &&& final(self)@ == (WorkspaceView { relation_dialog: final(self)@.relation_dialog, ..old(self)@ })
                    },
                    _ => false,
                },
            },
    {
        let mut dialog = match self.relation_dialog.take() {
            Some(d) => d,
            None => {
                return Outcome { changed: false, broadcast: None };
            },
        };
        match dialog.create_concept_relation(self.project.concept_graph_mut()) {
            Some(rel) => Outcome { changed: true, broadcast: Some(ModelMutation::RelationAdded(rel)) },
            None => {
                self.relation_dialog = Some(dialog);
                Outcome { changed: false, broadcast: None }
            },
        }
    }

    /// Opens the relation dialog of the class diagram, from the selected
    /// node.
    pub fn open_info_relation_dialog(&mut self)
        ensures
            final(self)@.info_relation_dialog matches Some(d) && d@ == crate::dialogs::fresh_dialog(
                match old(self)@.selected_info_graph_node_id {
                    Some(id) => {
                        let g = old(self)@.project.information_graph;
                        let i = first_where(g.nodes, with_id(id));
                        if i >= 0 {
                            Some(
                                (id, crate::dialogs::class_label(old(self)@.project.information_model, g.nodes[i].class_id)),
                            )
                        } else {
                            None
                        }
                    },
                    None => None,
                },
                None,
            ),
            final(self)@ == (WorkspaceView { info_relation_dialog: final(self)@.info_relation_dialog, ..old(self)@ }),
    {
        self.info_relation_dialog = Some(
            RelationDialogState::for_class_graph(
                self.project.information_graph(),
                self.project.information_model(),
                self.selected_info_graph_node_id,
            ),
        );
    }

    /// Draws the relation chosen in the class diagram's dialog (see
    /// [`RelationDialogState::create_class_relation`]); when it is drawn
    /// the dialog closes.
    pub fn info_create_relation(&mut self) -> (res: Outcome)
        ensures
            res.broadcast is None,
            match old(self)@.info_relation_dialog {
                None => !res.changed && final(self)@ == old(self)@,
                Some(d) => if res.changed {
                    let generalization = d@.kind == RelationKind::Generalization;
                    &&& d@.from_node matches Some(from)
                    &&& d@.to_node matches Some(to)
                    &&& from.0 != to.0
                    &&& final(self)@ == (WorkspaceView {
                        project: with_graph(
                            old(self)@.project,
                            ClassGraphView {
                                nodes: old(self)@.project.information_graph.nodes,
                                edges: with_relation(
                                    old(self)@.project.information_graph,
                                    from.0,
                                    to.0,
                                    d@.kind,
                                    crate::dialogs::label_from(d@.label),
                                    if generalization { None } else { d@.source_multiplicity },
                                    if generalization { None } else { d@.target_multiplicity },
                                ),
                            },
                        ),
                        info_relation_dialog: None,
                        ..old(self)@
                    })
                } else {
                    &&& final(self)@.info_relation_dialog matches Some(f) && f@ == (RelationDialogView {
                        error: f@.error,
                        ..d@
                    }) && f@.error is Some
                    &&& final(self)@ == (WorkspaceView {
                        info_relation_dialog: final(self)@.info_relation_dialog,
                        ..old(self)@
                    })
                },
            },
    {
        let mut dialog = match self.info_relation_dialog.take() {
            Some(d) => d,
            None => {
                return Outcome { changed: false, broadcast: None };
            },
        };
        if dialog.create_class_relation(self.project.information_graph_mut()) {
            Outcome { changed: true, broadcast: None }
        } else {
            self.info_relation_dialog = Some(dialog);
            Outcome { changed: false, broadcast: None }
        }
    }

    /// Opens the form on the first concept with the identifier, on the
    /// concept list; nothing happens where there is none.
    pub fn edit_concept(&mut self, id: Id)
        ensures
            ({
                let k = first_where(old(self)@.project.concepts, concept_with_id(id));
                if k >= 0 {
                    &&& final(self)@.editor_state matches Some(f) && form_for(f, old(self)@.project.concepts[k])
                    &&& final(self)@ == (WorkspaceView {
                        editor_state: final(self)@.editor_state,
                        is_inline_graph_editing: false,
                        active_tab: Tab::ConceptList,
                        ..old(self)@
                    })
                } else {
                    final(self)@ == old(self)@
                }
            }),
    {
        match self.project.get_concept(id) {
            Some(c) => {
                self.editor_state = Some(ConceptEditorState::from_concept(c));
                self.is_inline_graph_editing = false;
                self.active_tab = Tab::ConceptList;
            },
            None => {},
        }
    }

    /// Selects a node of the concept diagram and opens the form on its
    /// concept, editing it from the diagram; where the node or its concept
    /// is gone, only the selection changes.
    pub fn graph_node_double_clicked(&mut self, node_id: NodeId)
        ensures
            ({
                let g = old(self)@.project.concept_graph;
                let i = first_where(g.nodes, crate::concept_model::node_with_id(node_id));
                let k = if i >= 0 {
                    first_where(old(self)@.project.concepts, concept_with_id(g.nodes[i].concept_id))
                } else {
                    -1
                };
                if k >= 0 {
                    &&& final(self)@.editor_state matches Some(f) && form_for(f, old(self)@.project.concepts[k])
                    &&& final(self)@ == (WorkspaceView {
                        selected_graph_node_id: Some(node_id),
                        editor_state: final(self)@.editor_state,
                        is_inline_graph_editing: true,
                        ..old(self)@
                    })
                } else {
                    final(self)@ == (WorkspaceView { selected_graph_node_id: Some(node_id), ..old(self)@ })
                }
            }),
    {
        self.selected_graph_node_id = Some(node_id);
        let ghost g = self@.project.concept_graph;
        let concept_id = match self.project.concept_graph().find_node(node_id) {
            Some(n) => {
                proof {
                    let j = choose|j: int|
                        0 <= j < g.nodes.len() && g.nodes[j].id == node_id && n@ == g.nodes[j] && forall|l: int|
                            0 <= l < j ==> g.nodes[l].id != node_id;
                    crate::seqs::lemma_first_where(g.nodes, crate::concept_model::node_with_id(node_id), j);
                }
                Some(n.concept_id())
            },
            None => {
                proof {
                    crate::seqs::lemma_first_where_none(g.nodes, crate::concept_model::node_with_id(node_id));
                }
                None
            },
        };
        match concept_id {
            Some(cid) => match self.project.get_concept(cid) {
                Some(c) => {
                    self.editor_state = Some(ConceptEditorState::from_concept(c));
                    self.is_inline_graph_editing = true;
                },
                None => {},
            },
            None => {},
        }
    }

    /// Opens the metadata form on the project's metadata; the menu closes.
    pub fn open_metadata_modal(&mut self)
        ensures
            final(self)@.metadata_modal matches Some(f) && metadata_form(f, old(self)@.project.metadata),
            final(self)@ == (WorkspaceView {
                metadata_modal: final(self)@.metadata_modal,
                active_menu: None,
                ..old(self)@
            }),
    {
        self.active_menu = None;
        self.metadata_modal = Some(ModelMetadataModalState::from_metadata(self.project.metadata()));
    }

    /// Writes the open metadata form into the project and closes it;
    /// returns whether a form was open (the project is then unsaved).
    pub fn save_metadata_modal(&mut self) -> (res: bool)
        ensures
            match old(self)@.metadata_modal {
                Some(f) => res && final(self)@ == (WorkspaceView {
                    project: ProjectView {
                        metadata: metadata_from_form(f, old(self)@.project.metadata),
                        ..old(self)@.project
                    },
                    metadata_modal: None,
                    ..old(self)@
                }),
                None => !res && final(self)@ == old(self)@,
            },
    {
        match self.metadata_modal.take() {
            Some(f) => {
                f.apply_to(self.project.metadata_mut());
                true
            },
            None => false,
        }
    }

    /// Starts a new, empty project on the concept list with its metadata
    /// form open; the forms, dialogs and selections of the old one close,
    /// except the selected relations and class node.
    pub fn new_project(&mut self)
        ensures
            final(self)@.project.metadata == default_metadata(),
            final(self)@.project.concepts.len() == 0,
            final(self)@.project.concept_graph.nodes.len() == 0,
            final(self)@.project.concept_graph.edges.len() == 0,
            final(self)@.project.information_model.len() == 0,
            final(self)@.project.information_graph.nodes.len() == 0,
            final(self)@.project.information_graph.edges.len() == 0,
            final(self)@.metadata_modal matches Some(f) && metadata_form(f, default_metadata()),
            final(self)@ == (WorkspaceView {
                project: final(self)@.project,
                metadata_modal: final(self)@.metadata_modal,
                active_menu: None,
                active_tab: Tab::ConceptList,
                editor_state: None,
                is_inline_graph_editing: false,
                selected_graph_node_id: None,
                relation_dialog: None,
                quick_create: None,
                selected_info_class_id: None,
                ..old(self)@
            }),
    {
        self.active_menu = None;
        self.project = ModelProject::default();
        self.active_tab = Tab::ConceptList;
        self.metadata_modal = Some(ModelMetadataModalState::from_metadata(self.project.metadata()));
        self.editor_state = None;
        self.is_inline_graph_editing = false;
        self.selected_graph_node_id = None;
        self.relation_dialog = None;
        self.quick_create = None;
        self.selected_info_class_id = None;
    }

    /// Applies a change received from another participant; a selection of
    /// a concept node that went, or of a class that went, is let go. The
    /// project is to be saved afterwards.
    pub fn apply_mutation(&mut self, mutation: ModelMutation) -> (res: Outcome)
        ensures
            res.changed,
            res.broadcast is None,
            crate::model::mutation_applied(old(self)@.project, mutation, final(self)@.project),
            final(self)@.project.metadata == old(self)@.project.metadata,
            final(self)@ == (WorkspaceView {
                project: final(self)@.project,
                selected_graph_node_id: match (mutation, old(self)@.selected_graph_node_id) {
                    (ModelMutation::ConceptDeleted(_), Some(n)) => if crate::concept_model::has_node(
                        final(self)@.project.concept_graph.nodes,
                        n,
                    ) {
                        Some(n)
                    } else {
                        None
                    },
                    _ => old(self)@.selected_graph_node_id,
                },
                selected_info_class_id: match mutation {
                    ModelMutation::InformationClassDeleted(id) => if old(self)@.selected_info_class_id == Some(id) {
                        None
                    } else {
                        old(self)@.selected_info_class_id
                    },
                    _ => old(self)@.selected_info_class_id,
                },
                ..old(self)@
            }),
    {
        let deleted_concept = match &mutation {
            ModelMutation::ConceptDeleted(_) => true,
            _ => false,
        };
        let deleted_class = match &mutation {
            ModelMutation::InformationClassDeleted(id) => Some(*id),
            _ => None,
        };
        self.project.apply_mutation(mutation);
        if deleted_concept {
            match self.selected_graph_node_id {
                Some(n) => {
                    if self.project.concept_graph().find_node(n).is_none() {
                        self.selected_graph_node_id = None;
                    }
                },
                None => {},
            }
        }
        match deleted_class {
            Some(id) => {
                if self.selected_info_class_id == Some(id) {
                    self.selected_info_class_id = None;
                }
            },
            None => {},
        }
        Outcome { changed: true, broadcast: None }
    }

    /// Replaces the project with one received from another participant;
    /// every selection on the diagrams is let go and the project is to be
    /// saved.
    pub fn apply_snapshot(&mut self, snapshot: ModelProject) -> (res: Outcome)
        ensures
            res.changed,
            res.broadcast is None,
            final(self)@ == (WorkspaceView {
                project: snapshot@,
                selected_graph_node_id: None,
                selected_edge: None,
                selected_info_class_id: None,
                selected_info_graph_node_id: None,
                selected_info_edge: None,
                ..old(self)@
            }),
    {
        self.project = snapshot;
        self.selected_graph_node_id = None;
        self.selected_edge = None;
        self.selected_info_class_id = None;
        self.selected_info_graph_node_id = None;
        self.selected_info_edge = None;
        Outcome { changed: true, broadcast: None }
    }

    /// Turns snapping to the grid on or off.
    pub fn toggle_snap_to_grid(&mut self)
        ensures
            final(self)@ == (WorkspaceView { snap_to_grid: !old(self)@.snap_to_grid, ..old(self)@ }),
    {
        self.snap_to_grid = !self.snap_to_grid;
    }

    /// Moves a node of the concept diagram, onto the grid when snapping is
    /// on; the move is offered to the other participants (the editor sends
    /// moves at a limited rate).
    pub fn graph_node_moved(&mut self, node_id: NodeId, x: i64, y: i64) -> (res: Outcome)
        requires
            old(self).snap_to_grid ==> i64::MIN + 10 <= x <= i64::MAX - 10 && i64::MIN + 10 <= y <= i64::MAX - 10,
        ensures
            res.changed,
            ({
                let (fx, fy) = if old(self)@.snap_to_grid {
                    (snapped(x as int) as i64, snapped(y as int) as i64)
                } else {
                    (x, y)
                };
                &&& res.broadcast == Some(ModelMutation::NodeMoved { id: node_id, x: fx, y: fy })
                &&& final(self)@ == (WorkspaceView {
                    project: ProjectView {
                        concept_graph: move_first(
                            old(self)@.project.concept_graph,
                            crate::concept_model::node_with_id(node_id),
                            fx,
                            fy,
                        ),
                        ..old(self)@.project
                    },
                    ..old(self)@
                })
            }),
    {
        let (fx, fy) = if self.snap_to_grid {
            (snap_to_grid(x), snap_to_grid(y))
        } else {
            (x, y)
        };
        self.project.concept_graph_mut().move_node(node_id, fx, fy);
        Outcome { changed: true, broadcast: Some(ModelMutation::NodeMoved { id: node_id, x: fx, y: fy }) }
    }
}

} // verus!
