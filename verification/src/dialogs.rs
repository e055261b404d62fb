//! The dialogs that draw a relation on the concept diagram or the class
//! diagram: the choices they offer, their defaults, and what pressing
//! "create" does with them.
use vstd::prelude::*;
use crate::class_graph::{default_direction, with_id, with_relation, ClassGraph};
use crate::concept_model::{ConceptGraph, EdgeView, GraphView, NodeId, RelationKind};
use crate::model::{mutation_applied, ProjectView};
use crate::protocol::ModelMutation;
use crate::concepts::opt_view;
use crate::ids::Id;
use crate::information_model::{class_id_is, ClassView, InformationModel, Multiplicity};
use crate::protocol::Relation;
use crate::seqs::{first_where, lemma_first_where, lemma_first_where_none};
use crate::text::{trim, trimmed};

verus! {

/// A node offered in a choice, with its label.
#[derive(Debug, Clone, PartialEq, Eq)]
pub struct NodeOption {
    pub id: NodeId,
    pub label: String,
}

impl NodeOption {
    /// The text the option is shown with.
    pub fn to_display_string(&self) -> (res: String)
        ensures
            res@ == self.label@,
    {
        self.label.clone()
    }
}

/// A concept offered in a choice, with its term.
#[derive(Debug, Clone, PartialEq, Eq)]
pub struct ConceptOption {
    pub id: Id,
    pub term: String,
}

impl ConceptOption {
    /// The text the option is shown with.
    pub fn to_display_string(&self) -> (res: String)
        ensures
            res@ == self.term@,
    {
        self.term.clone()
    }
}

/// A concept, or none, offered for an attribute, with its label.
#[derive(Debug, Clone, PartialEq, Eq)]
pub struct AttributeConceptOption {
    pub id: Option<Id>,
    pub label: String,
}

impl AttributeConceptOption {
    /// The text the option is shown with.
    pub fn to_display_string(&self) -> (res: String)
        ensures
            res@ == self.label@,
    {
        self.label.clone()
    }
}

/// What a node option holds.
pub open spec fn option_view(o: Option<NodeOption>) -> Option<(NodeId, Seq<char>)> {
    match o {
        Some(n) => Some((n.id, n.label@)),
        None => None,
    }
}

/// The dialog that draws a relation between two nodes.
#[derive(Debug, Clone)]
pub struct RelationDialogState {
    pub from_node: Option<NodeOption>,
    pub to_node: Option<NodeOption>,
    pub kind: RelationKind,
    pub label: String,
    pub source_multiplicity: Option<Multiplicity>,
    pub target_multiplicity: Option<Multiplicity>,
    pub error: Option<String>,
}

/// What the dialog holds.
pub struct RelationDialogView {
    pub from_node: Option<(NodeId, Seq<char>)>,
    pub to_node: Option<(NodeId, Seq<char>)>,
    pub kind: RelationKind,
    pub label: Seq<char>,
    pub source_multiplicity: Option<Multiplicity>,
    pub target_multiplicity: Option<Multiplicity>,
    pub error: Option<Seq<char>>,
}

impl View for RelationDialogState {
    type V = RelationDialogView;

    open spec fn view(&self) -> RelationDialogView {
        RelationDialogView {
            from_node: option_view(self.from_node),
            to_node: option_view(self.to_node),
            kind: self.kind,
            label: self.label@,
            source_multiplicity: self.source_multiplicity,
            target_multiplicity: self.target_multiplicity,
            error: opt_view(self.error),
        }
    }
}

/// A fresh dialog between two nodes: a generalisation with no label and no
/// multiplicities.
pub open spec fn fresh_dialog(
    from_node: Option<(NodeId, Seq<char>)>,
    to_node: Option<(NodeId, Seq<char>)>,
) -> RelationDialogView {
    RelationDialogView {
        from_node,
        to_node,
        kind: RelationKind::Generalization,
        label: Seq::empty(),
        source_multiplicity: None,
        target_multiplicity: None,
        error: None,
    }
}

/// The label a class is offered with: its name, or "Klasse" where the
/// model has no class with that identifier.
pub open spec fn class_label(model: Seq<ClassView>, class_id: Id) -> Seq<char> {
    let i = first_where(model, class_id_is(class_id));
    if i >= 0 { model[i].name } else { "Klasse"@ }
}

/// The message when a concept relation would join a node to itself.
pub open spec fn same_concept_text() -> Seq<char> {
    "Kilde og mål kan ikke være det samme begreb."@
}

/// The message when a concept relation lacks an end.
pub open spec fn missing_concepts_text() -> Seq<char> {
    "Vælg venligst både kilde og målbegreb."@
}

/// The message when a class relation would join a class to itself.
pub open spec fn same_class_text() -> Seq<char> {
    "En klasse kan ikke have en relation til sig selv"@
}

/// The message when a class relation lacks an end.
pub open spec fn missing_classes_text() -> Seq<char> {
    "Vælg venligst både en kilde- og destinationsklasse"@
}

/// The label a relation gets from the dialog's text: none where the text
/// is blank, else the text without surrounding white space.
pub open spec fn label_from(text: Seq<char>) -> Option<Seq<char>> {
    if trimmed(text).len() == 0 { None } else { Some(trimmed(text)) }
}

/// The label a concept relation gets: only an association has one.
pub open spec fn concept_label_from(kind: RelationKind, text: Seq<char>) -> Option<Seq<char>> {
    if kind == RelationKind::Association { label_from(text) } else { None }
}

/// A relation drawn from a dialog with two different ends: the diagram
/// gains it last, with the dialog's kind and, for an association, its
/// label, and the relation returned has the same ends, kind and label and
/// the kind's usual direction.
pub open spec fn drawn_from_dialog(d: RelationDialogView, g: GraphView, r: Relation, g2: GraphView) -> bool {
    &&& d.from_node matches Some(f)
    &&& d.to_node matches Some(t)
    &&& f.0 != t.0
    &&& r.from == f.0
    &&& r.to == t.0
    &&& r.kind == d.kind
    &&& opt_view(r.label) == concept_label_from(d.kind, d.label)
    &&& r.directed == default_direction(d.kind)
    &&& g2.nodes == g.nodes
    &&& g2.edges == g.edges.push(EdgeView { from: f.0, to: t.0, kind: d.kind, label: opt_view(r.label) })
}

/// A relation drawn from the dialog and sent to the other participants
/// draws the same relation on their copy of the same project, and changes
/// nothing else there.
pub proof fn shared_relation_draws_the_same(
    d: RelationDialogView,
    p: ProjectView,
    r: Relation,
    g2: GraphView,
    q: ProjectView,
)
    requires
        drawn_from_dialog(d, p.concept_graph, r, g2),
        mutation_applied(p, ModelMutation::RelationAdded(r), q),
        q.metadata == p.metadata,
    ensures
        q == (ProjectView { concept_graph: g2, ..p }),
{
}

fn label_of(text: &str) -> (res: Option<String>)
    ensures
        opt_view(res) == label_from(text@),
{
    let t = trim(text);
    if t.unicode_len() == 0 {
        None
    } else {
        Some(String::from_str(t))
    }
}

impl RelationDialogState {
    fn fresh(from_node: Option<NodeOption>, to_node: Option<NodeOption>) -> (res: RelationDialogState)
        ensures
            res@ == fresh_dialog(option_view(from_node), option_view(to_node)),
    {
        RelationDialogState {
            from_node,
            to_node,
            kind: RelationKind::Generalization,
            label: String::new(),
            source_multiplicity: None,
            target_multiplicity: None,
            error: None,
        }
    }

    /// The dialog for the concept diagram: from its first node to its
    /// second, or to the first again where it has only one.
    pub fn for_concept_graph(graph: &ConceptGraph) -> (res: RelationDialogState)
        ensures
            ({
                let ns = graph@.nodes;
                res@ == fresh_dialog(
                    if ns.len() > 0 { Some((ns[0].id, ns[0].label)) } else { None },
                    if ns.len() > 1 {
                        Some((ns[1].id, ns[1].label))
                    } else if ns.len() > 0 {
                        Some((ns[0].id, ns[0].label))
                    } else {
                        None
                    },
                )
            }),
    {
        let nodes = graph.nodes();
        let from_node = if nodes.len() > 0 {
            Some(NodeOption { id: nodes[0].id(), label: String::from_str(nodes[0].label()) })
        } else {
            None
        };
        let to_node = if nodes.len() > 1 {
            Some(NodeOption { id: nodes[1].id(), label: String::from_str(nodes[1].label()) })
        } else if nodes.len() > 0 {
            Some(NodeOption { id: nodes[0].id(), label: String::from_str(nodes[0].label()) })
        } else {
            None
        };
        proof {
            if nodes@.len() > 0 {
                assert(graph@.nodes[0] == nodes@[0]@);
            }
            if nodes@.len() > 1 {
                assert(graph@.nodes[1] == nodes@[1]@);
            }
        }
        RelationDialogState::fresh(from_node, to_node)
    }

    /// The dialog for the class diagram: from the selected node, where it
    /// is on the diagram, offered with its class's name, to nothing yet.
    pub fn for_class_graph(graph: &ClassGraph, model: &InformationModel, selected: Option<NodeId>) -> (res:
        RelationDialogState)
        ensures
            res@ == fresh_dialog(
                match selected {
                    Some(id) => {
                        let i = first_where(graph@.nodes, with_id(id));
                        if i >= 0 {
                            Some((id, class_label(model@, graph@.nodes[i].class_id)))
                        } else {
                            None
                        }
                    },
                    None => None,
                },
                None,
            ),
    {
        let from_node = match selected {
            Some(id) => match graph.find_node(id) {
                Some(n) => {
                    let label = match model.get_class(n.class_id()) {
                        Some(c) => {
                            proof {
                                let i = choose|i: int|
                                    0 <= i < model@.len() && model@[i].id == n@.class_id && c@ == model@[i]
                                        && forall|j: int| 0 <= j < i ==> model@[j].id != n@.class_id;
                                lemma_first_where(model@, class_id_is(n@.class_id), i);
                            }
                            String::from_str(c.name())
                        },
                        None => {
                            proof {
                                lemma_first_where_none(model@, class_id_is(n@.class_id));
                            }
                            String::from_str("Klasse")
                        },
                    };
                    Some(NodeOption { id, label })
                },
                None => None,
            },
            None => None,
        };
        RelationDialogState::fresh(from_node, None)
    }

    /// Chooses the source; a shown error goes.
    pub fn set_from(&mut self, option: NodeOption)
        ensures
            final(self)@ == (RelationDialogView {
                from_node: option_view(Some(option)),
                error: None,
                ..old(self)@
            }),
    {
        self.from_node = Some(option);
        self.error = None;
    }

    /// Chooses the target; a shown error goes.
    pub fn set_to(&mut self, option: NodeOption)
        ensures
            final(self)@ == (RelationDialogView { to_node: option_view(Some(option)), error: None, ..old(self)@ }),
    {
        self.to_node = Some(option);
        self.error = None;
    }

    /// Draws the chosen relation on the concept diagram and returns it, for
    /// the other participants; an association takes the label text. Where
    /// an end is missing or both ends are the same node, the dialog shows
    /// why and the diagram is left alone.
    pub fn create_concept_relation(&mut self, graph: &mut ConceptGraph) -> (res: Option<Relation>)
        ensures
            match (old(self)@.from_node, old(self)@.to_node) {
                (Some(f), Some(t)) => if f.0 == t.0 {
                    &&& res is None
                    &&& final(self)@ == (RelationDialogView { error: Some(same_concept_text()), ..old(self)@ })
                    &&& final(graph)@ == old(graph)@
                } else {
                    &&& res matches Some(r) && drawn_from_dialog(old(self)@, old(graph)@, r, final(graph)@)
                    &&& final(self)@ == old(self)@
                },
                _ => {
                    &&& res is None
                    &&& final(self)@ == (RelationDialogView { error: Some(missing_concepts_text()), ..old(self)@ })
                    &&& final(graph)@ == old(graph)@
                },
            },
    {
        let ends = match (&self.from_node, &self.to_node) {
            (Some(f), Some(t)) => Some((f.id, t.id)),
            _ => None,
        };
        match ends {
            Some((from, to)) => {
                if from == to {
                    self.error = Some(String::from_str("Kilde og mål kan ikke være det samme begreb."));
                    None
                } else {
                    let kind = self.kind;
                    let label = if kind == RelationKind::Association {
                        label_of(self.label.as_str())
                    } else {
                        None
                    };
                    let shared = if kind == RelationKind::Association {
                        label_of(self.label.as_str())
                    } else {
                        None
                    };
                    let rel = Relation::with_label(from, to, kind, shared);
                    graph.add_relation_with_label(from, to, kind, label);
                    Some(rel)
                }
            },
            None => {
                self.error = Some(String::from_str("Vælg venligst både kilde og målbegreb."));
                None
            },
        }
    }

    /// Draws the chosen relation on the class diagram, with the label text
    /// and, except for a generalisation, the chosen multiplicities; the
    /// diagram draws it only between two of its nodes and not twice.
    /// Returns whether the dialog is done; where an end is missing or both
    /// ends are the same node, the dialog shows why and the diagram is left
    /// alone.
    pub fn create_class_relation(&mut self, graph: &mut ClassGraph) -> (res: bool)
        ensures
            match (old(self)@.from_node, old(self)@.to_node) {
                (Some(f), Some(t)) => if f.0 == t.0 {
                    &&& !res
                    &&& final(self)@ == (RelationDialogView { error: Some(same_class_text()), ..old(self)@ })
                    &&& final(graph)@ == old(graph)@
                } else {
                    let generalization = old(self)@.kind == RelationKind::Generalization;
                    &&& res
                    &&& final(self)@ == old(self)@
                    &&& final(graph)@.nodes == old(graph)@.nodes
                    &&& final(graph)@.edges == with_relation(
                        old(graph)@,
                        f.0,
                        t.0,
                        old(self)@.kind,
                        label_from(old(self)@.label),
                        if generalization { None } else { old(self)@.source_multiplicity },
                        if generalization { None } else { old(self)@.target_multiplicity },
                    )
                },
                _ => {
                    &&& !res
                    &&& final(self)@ == (RelationDialogView { error: Some(missing_classes_text()), ..old(self)@ })
                    &&& final(graph)@ == old(graph)@
                },
            },
    {
        let ends = match (&self.from_node, &self.to_node) {
            (Some(f), Some(t)) => Some((f.id, t.id)),
            _ => None,
        };
        match ends {
            Some((from, to)) => {
                if from == to {
                    self.error = Some(String::from_str("En klasse kan ikke have en relation til sig selv"));
                    false
                } else {
                    let label = label_of(self.label.as_str());
                    let (src, tgt) = if self.kind == RelationKind::Generalization {
                        (None, None)
                    } else {
                        (self.source_multiplicity, self.target_multiplicity)
                    };
                    graph.add_relation_with_multiplicities(from, to, self.kind, label, src, tgt);
                    true
                }
            },
            None => {
                self.error = Some(String::from_str("Vælg venligst både en kilde- og destinationsklasse"));
                false
            },
        }
    }
}

} // verus!
