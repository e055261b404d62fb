//! The model project: its metadata, its concepts with their diagram, and
//! its information model with its class diagram.
use vstd::prelude::*;
use crate::concept_model::NodeId;
use crate::class_graph::{ClassNodeView, class_added, class_node_moved, edges_joined, edit_edge, of_class, other_id,
    not_between, not_touching, set_direction, synced_with_model, with_relation, ClassGraph, ClassGraphView};
use crate::concept_model::{concept_with_id, concepts_view, edge_spared, hides_concept, move_first, node_with_id, not_runs,
    placed, relabel_concept, restyle_first, shows_concept, synced_with_concepts, ConceptGraph, EdgeView, GraphView};
use crate::concepts::opt_view;
use crate::information_model::class_id_is;
use crate::protocol::ModelMutation;
use crate::concepts::{validation_of, Concept, ConceptValidator, ConceptView, ValidationError, ValidationView};
use crate::ids::Id;
use crate::information_model::{class_node_height, attribute_edited, attribute_id_is, class_placeholder, name_replacing, replace_placeholder,
    Attribute, AttributeEdit, ClassView, InformationClass, InformationModel, Multiplicity, PrimitiveType};
use crate::seqs::{add_unique, without};
use crate::text::{trim, trimmed};
use crate::seqs::{first_where, lemma_first_where, lemma_first_where_none};

verus! {

/// The approval status of a model.
#[derive(Debug, Clone, Copy, PartialEq, Eq, Structural)]
pub enum ModelStatus {
    Draft,
    Candidate,
    Approved,
}

/// The text shown for a status.
pub open spec fn status_text(s: ModelStatus) -> Seq<char> {
    match s {
        ModelStatus::Draft => "Udkast (Draft)"@,
        ModelStatus::Candidate => "Kandidat (Candidate)"@,
        ModelStatus::Approved => "Godkendt (Approved)"@,
    }
}

impl ModelStatus {
    /// Every status, from draft to approved.
    pub fn all() -> (res: [ModelStatus; 3])
        ensures
            res@ == seq![ModelStatus::Draft, ModelStatus::Candidate, ModelStatus::Approved],
    {
        let r = [ModelStatus::Draft, ModelStatus::Candidate, ModelStatus::Approved];
        assert(r@ =~= seq![ModelStatus::Draft, ModelStatus::Candidate, ModelStatus::Approved]);
        r
    }

    /// The text shown for this status.
    pub fn display_text(&self) -> (res: &'static str)
        ensures
            res@ == status_text(*self),
    {
        match self {
            ModelStatus::Draft => "Udkast (Draft)",
            ModelStatus::Candidate => "Kandidat (Candidate)",
            ModelStatus::Approved => "Godkendt (Approved)",
        }
    }
}

/// The metadata of a model, after the FDA rules.
#[derive(Debug, Clone, PartialEq, Eq)]
pub struct ModelMetadata {
    name: String,
    description: String,
    uri: String,
    responsible_org: String,
    domain_area: String,
    version: String,
    status: ModelStatus,
    legal_source: Option<String>,
}

/// The meaning of model metadata.
pub struct MetadataView {
    pub name: Seq<char>,
    pub description: Seq<char>,
    pub uri: Seq<char>,
    pub responsible_org: Seq<char>,
    pub domain_area: Seq<char>,
    pub version: Seq<char>,
    pub status: ModelStatus,
    pub legal_source: Option<Seq<char>>,
}

impl View for ModelMetadata {
    type V = MetadataView;

    closed spec fn view(&self) -> MetadataView {
        MetadataView {
            name: self.name@,
            description: self.description@,
            uri: self.uri@,
            responsible_org: self.responsible_org@,
            domain_area: self.domain_area@,
            version: self.version@,
            status: self.status,
            legal_source: crate::concepts::opt_view(self.legal_source),
        }
    }
}

impl ModelMetadata {
    /// Metadata with the given fields and no legal source.
    pub fn new(
        name: &str,
        description: &str,
        uri: &str,
        responsible_org: &str,
        domain_area: &str,
        version: &str,
        status: ModelStatus,
    ) -> (res: ModelMetadata)
        ensures
            res@ == (MetadataView {
                name: name@,
                description: description@,
                uri: uri@,
                responsible_org: responsible_org@,
                domain_area: domain_area@,
                version: version@,
                status,
                legal_source: None,
            }),
    {
        ModelMetadata {
            name: String::from_str(name),
            description: String::from_str(description),
            uri: String::from_str(uri),
            responsible_org: String::from_str(responsible_org),
            domain_area: String::from_str(domain_area),
            version: String::from_str(version),
            status,
            legal_source: None,
        }
    }

    pub fn name(&self) -> (res: &str)
        ensures
            res@ == self@.name,
    {
        self.name.as_str()
    }

    pub fn set_name(&mut self, name: &str)
        ensures
            final(self)@ == (MetadataView { name: name@, ..old(self)@ }),
    {
        self.name = String::from_str(name);
    }

    pub fn description(&self) -> (res: &str)
        ensures
            res@ == self@.description,
    {
        self.description.as_str()
    }

    pub fn set_description(&mut self, description: &str)
        ensures
            final(self)@ == (MetadataView { description: description@, ..old(self)@ }),
    {
        self.description = String::from_str(description);
    }

    pub fn uri(&self) -> (res: &str)
        ensures
            res@ == self@.uri,
    {
        self.uri.as_str()
    }

    pub fn set_uri(&mut self, uri: &str)
        ensures
            final(self)@ == (MetadataView { uri: uri@, ..old(self)@ }),
    {
        self.uri = String::from_str(uri);
    }

    pub fn responsible_org(&self) -> (res: &str)
        ensures
            res@ == self@.responsible_org,
    {
        self.responsible_org.as_str()
    }

    pub fn set_responsible_org(&mut self, responsible_org: &str)
        ensures
            final(self)@ == (MetadataView { responsible_org: responsible_org@, ..old(self)@ }),
    {
        self.responsible_org = String::from_str(responsible_org);
    }

    pub fn domain_area(&self) -> (res: &str)
        ensures
            res@ == self@.domain_area,
    {
        self.domain_area.as_str()
    }

    pub fn set_domain_area(&mut self, domain_area: &str)
        ensures
            final(self)@ == (MetadataView { domain_area: domain_area@, ..old(self)@ }),
    {
        self.domain_area = String::from_str(domain_area);
    }

    pub fn version(&self) -> (res: &str)
        ensures
            res@ == self@.version,
    {
        self.version.as_str()
    }

    pub fn set_version(&mut self, version: &str)
        ensures
            final(self)@ == (MetadataView { version: version@, ..old(self)@ }),
    {
        self.version = String::from_str(version);
    }

    pub fn status(&self) -> (res: ModelStatus)
        ensures
            res == self@.status,
    {
        self.status
    }

    pub fn set_status(&mut self, status: ModelStatus)
        ensures
            final(self)@ == (MetadataView { status, ..old(self)@ }),
    {
        self.status = status;
    }

    pub fn legal_source(&self) -> (res: Option<&str>)
        ensures
            crate::concepts::opt_str_view(res) == self@.legal_source,
    {
        crate::concepts::opt_as_str(&self.legal_source)
    }

    pub fn set_legal_source(&mut self, source: Option<String>)
        ensures
            final(self)@ == (MetadataView { legal_source: crate::concepts::opt_view(source), ..old(self)@ }),
    {
        self.legal_source = source;
    }
}

/// The placeholder metadata of a new project.
pub open spec fn default_metadata() -> MetadataView {
    MetadataView {
        name: "Nyt FDA Modelprojekt"@,
        description: "Beskrivelse af modelprojektet"@,
        uri: "https://data.gov.dk/model/core/new-model"@,
        responsible_org: "Ansvarlig Myndighed"@,
        domain_area: "Emneområde"@,
        version: "0.1.0"@,
        status: ModelStatus::Draft,
        legal_source: None,
    }
}

impl ModelMetadata {
    /// The placeholder metadata of a new project.
    pub fn placeholder() -> (res: ModelMetadata)
        ensures
            res@ == default_metadata(),
    {
        ModelMetadata::new(
            "Nyt FDA Modelprojekt",
            "Beskrivelse af modelprojektet",
            "https://data.gov.dk/model/core/new-model",
            "Ansvarlig Myndighed",
            "Emneområde",
            "0.1.0",
            ModelStatus::Draft,
        )
    }
}

/// The class diagram with the node of a class, if any, made tall enough for
/// a number of attributes.
pub open spec fn fitted(g: ClassGraphView, class_id: Id, attr_count: nat) -> ClassGraphView {
    let k = first_where(g.nodes, of_class(class_id));
    ClassGraphView {
        nodes: if k >= 0 {
            g.nodes.update(k, ClassNodeView { height: class_node_height(attr_count), ..g.nodes[k] })
        } else {
            g.nodes
        },
        edges: g.edges,
    }
}

/// The class that realises a concept: named by its preferred term,
/// described by its definition where there is one, linked to it.
pub open spec fn class_of_concept(c: ConceptView, id: Id) -> ClassView {
    ClassView {
        id,
        name: c.preferred_term,
        description: if c.definition.len() == 0 { None } else { Some(c.definition) },
        concept_ids: seq![c.id],
        attributes: Seq::empty(),
    }
}

/// What a project holds.
pub struct ProjectView {
    pub metadata: MetadataView,
    pub concepts: Seq<ConceptView>,
    pub concept_graph: GraphView,
    pub information_model: Seq<ClassView>,
    pub information_graph: ClassGraphView,
}

/// A modelling project.
#[derive(Debug, Clone, PartialEq, Eq)]
pub struct ModelProject {
    metadata: ModelMetadata,
    concepts: Vec<Concept>,
    concept_graph: ConceptGraph,
    information_model: InformationModel,
    information_graph: ClassGraph,
}

impl View for ModelProject {
    type V = ProjectView;

    closed spec fn view(&self) -> ProjectView {
        ProjectView {
            metadata: self.metadata@,
            concepts: concepts_view(self.concepts@),
            concept_graph: self.concept_graph@,
            information_model: self.information_model@,
            information_graph: self.information_graph@,
        }
    }
}

/// The class diagram without the first node of the class and the relations
/// touching it; unchanged where the class has no node.
pub open spec fn without_class(g: ClassGraphView, class_id: Id) -> ClassGraphView {
    let k = first_where(g.nodes, of_class(class_id));
    if k >= 0 {
        ClassGraphView {
            nodes: g.nodes.filter(other_id(g.nodes[k].id)),
            edges: g.edges.filter(not_touching(g.nodes[k].id)),
        }
    } else {
        g
    }
}

/// Whether a concept has another identifier.
pub open spec fn other_concept(id: Id) -> spec_fn(ConceptView) -> bool {
    |c: ConceptView| c.id != id
}

/// The identifier of the first node of a class on the class diagram.
pub open spec fn class_node_of(g: ClassGraphView, class_id: Id) -> Option<Id> {
    let k = first_where(g.nodes, of_class(class_id));
    if k >= 0 { Some(g.nodes[k].id) } else { None }
}

/// What applying a change received from another editor does to a project.
/// Concepts, classes and nodes that are already there are not added twice;
/// changes that name something missing change nothing.
pub open spec fn mutation_applied(p: ProjectView, m: ModelMutation, q: ProjectView) -> bool {
    match m {
        ModelMutation::ConceptAdded(c) => if first_where(p.concepts, concept_with_id(c@.id)) >= 0 {
            q == p
        } else {
            &&& q.concepts == p.concepts.push(c@)
            &&& q.information_model == p.information_model
            &&& q.information_graph == p.information_graph
            &&& if first_where(p.concept_graph.nodes, shows_concept(c@.id)) >= 0 {
                q.concept_graph == p.concept_graph
            } else {
                exists|nid: Id| q.concept_graph == #[trigger] placed(p.concept_graph, c@, nid)
            }
        },
        ModelMutation::ConceptUpdated(c) => {
            let k = first_where(p.concepts, concept_with_id(c@.id));
            &&& q.concepts == if k >= 0 { p.concepts.update(k, c@) } else { p.concepts }
            &&& q.concept_graph == relabel_concept(p.concept_graph, c@.id, c@.preferred_term)
            &&& q.information_model == p.information_model
            &&& q.information_graph == p.information_graph
        },
        ModelMutation::ConceptDeleted(id) => {
            &&& q.concepts == p.concepts.filter(other_concept(id))
            &&& q.concept_graph == (GraphView {
                nodes: p.concept_graph.nodes.filter(hides_concept(id)),
                edges: p.concept_graph.edges.filter(edge_spared(p.concept_graph.nodes, id)),
            })
            &&& q.information_model == p.information_model
            &&& q.information_graph == p.information_graph
        },
        ModelMutation::ConceptDiagramNodeAdded(id) => {
            let k = first_where(p.concepts, concept_with_id(id));
            &&& q.concepts == p.concepts
            &&& q.information_model == p.information_model
            &&& q.information_graph == p.information_graph
            &&& if k >= 0 && first_where(p.concept_graph.nodes, shows_concept(id)) == -1 {
                exists|nid: Id| q.concept_graph == #[trigger] placed(p.concept_graph, p.concepts[k], nid)
            } else {
                q.concept_graph == p.concept_graph
            }
        },
        ModelMutation::ConceptDiagramNodeRemoved(id) => {
            &&& q.concepts == p.concepts
            &&& q.concept_graph == (GraphView {
                nodes: p.concept_graph.nodes.filter(hides_concept(id)),
                edges: p.concept_graph.edges.filter(edge_spared(p.concept_graph.nodes, id)),
            })
            &&& q.information_model == p.information_model
            &&& q.information_graph == p.information_graph
        },
        ModelMutation::InformationClassAdded(c) => if first_where(p.information_model, class_id_is(c@.id)) >= 0 {
            q == p
        } else {
            &&& q.concepts == p.concepts
            &&& q.concept_graph == p.concept_graph
            &&& q.information_model == p.information_model.push(c@)
            &&& exists|nid: Id| q.information_graph == #[trigger] class_added(
                p.information_graph,
                c@.id,
                c@.attributes.len(),
                nid,
            )
        },
        ModelMutation::InformationClassUpdated(c) => {
            let k = first_where(p.information_model, class_id_is(c@.id));
            &&& q.concepts == p.concepts
            &&& q.concept_graph == p.concept_graph
            &&& q.information_model == if k >= 0 { p.information_model.update(k, c@) } else { p.information_model }
            &&& q.information_graph == p.information_graph
        },
        ModelMutation::InformationClassDeleted(id) => {
            let k = first_where(p.information_model, class_id_is(id));
            &&& q.concepts == p.concepts
            &&& q.concept_graph == p.concept_graph
            &&& q.information_model == if k >= 0 { p.information_model.remove(k) } else { p.information_model }
            &&& q.information_graph == if k >= 0 { without_class(p.information_graph, id) } else { p.information_graph }
        },
        ModelMutation::ClassDiagramNodeAdded(id) => {
            let k = first_where(p.information_model, class_id_is(id));
            &&& q.concepts == p.concepts
            &&& q.concept_graph == p.concept_graph
            &&& q.information_model == p.information_model
            &&& if k >= 0 {
                exists|nid: Id| q.information_graph == #[trigger] class_added(
                    p.information_graph,
                    id,
                    p.information_model[k].attributes.len(),
                    nid,
                )
            } else {
                q.information_graph == p.information_graph
            }
        },
        ModelMutation::ClassDiagramNodeRemoved(id) => {
            &&& q.concepts == p.concepts
            &&& q.concept_graph == p.concept_graph
            &&& q.information_model == p.information_model
            &&& q.information_graph == without_class(p.information_graph, id)
        },
        ModelMutation::RelationAdded(r) => {
            &&& q.concepts == p.concepts
            &&& q.concept_graph == (GraphView {
                nodes: p.concept_graph.nodes,
                edges: p.concept_graph.edges.push(EdgeView { from: r.from, to: r.to, kind: r.kind, label: opt_view(r.label) }),
            })
            &&& q.information_model == p.information_model
            &&& q.information_graph == p.information_graph
        },
        ModelMutation::RelationUpdated(r) => {
            &&& q.concepts == p.concepts
            &&& q.concept_graph == restyle_first(p.concept_graph, r.from, r.to, r.kind, opt_view(r.label))
            &&& q.information_model == p.information_model
            &&& q.information_graph == p.information_graph
        },
        ModelMutation::RelationDeleted { from, to } => {
            &&& q.concepts == p.concepts
            &&& q.concept_graph == (GraphView {
                nodes: p.concept_graph.nodes,
                edges: p.concept_graph.edges.filter(not_runs(from, to)),
            })
            &&& q.information_model == p.information_model
            &&& q.information_graph == p.information_graph
        },
        ModelMutation::ClassRelationAdded {
            from_class,
            to_class,
            kind,
            label,
            source_multiplicity,
            target_multiplicity,
            directed,
        } => {
            &&& q.concepts == p.concepts
            &&& q.concept_graph == p.concept_graph
            &&& q.information_model == p.information_model
            &&& q.information_graph == match (
                class_node_of(p.information_graph, from_class),
                class_node_of(p.information_graph, to_class),
            ) {
                (Some(a), Some(b)) => {
                    let added = with_relation(
                        p.information_graph,
                        a,
                        b,
                        kind,
                        opt_view(label),
                        source_multiplicity,
                        target_multiplicity,
                    );
                    ClassGraphView {
                        nodes: p.information_graph.nodes,
                        edges: match directed {
                            Some(d) => edit_edge(added, a, b, set_direction(d)),
                            None => added,
                        },
                    }
                },
                _ => p.information_graph,
            }
        },
        ModelMutation::ClassRelationDeleted { from_class, to_class } => {
            &&& q.concepts == p.concepts
            &&& q.concept_graph == p.concept_graph
            &&& q.information_model == p.information_model
            &&& q.information_graph == match (
                class_node_of(p.information_graph, from_class),
                class_node_of(p.information_graph, to_class),
            ) {
                (Some(a), Some(b)) => ClassGraphView {
                    nodes: p.information_graph.nodes,
                    edges: p.information_graph.edges.filter(not_between(a, b)),
                },
                _ => p.information_graph,
            }
        },
        ModelMutation::NodeMoved { id, x, y } => {
            &&& q.concepts == p.concepts
            &&& q.information_model == p.information_model
            &&& if first_where(p.concept_graph.nodes, node_with_id(id)) >= 0 {
                &&& q.concept_graph == move_first(p.concept_graph, node_with_id(id), x, y)
                &&& q.information_graph == p.information_graph
            } else if first_where(p.concept_graph.nodes, shows_concept(id)) >= 0 {
                &&& q.concept_graph == move_first(p.concept_graph, shows_concept(id), x, y)
                &&& q.information_graph == p.information_graph
            } else {
                &&& q.concept_graph == p.concept_graph
                &&& q.information_graph == class_node_moved(p.information_graph, id, x, y)
            }
        },
    }
}

/// A concept or class received twice is added once: applying the same
/// addition again changes nothing.
pub proof fn additions_are_idempotent(p: ProjectView, m: ModelMutation, q: ProjectView, r: ProjectView)
    requires
        m is ConceptAdded || m is InformationClassAdded,
        mutation_applied(p, m, q),
        mutation_applied(q, m, r),
    ensures
        r == q,
{
    match m {
        ModelMutation::ConceptAdded(c) => {
            let k = first_where(p.concepts, concept_with_id(c@.id));
            if k >= 0 {
                assert(q == p);
            } else {
                let last: int = p.concepts.len() as int;
                assert(q.concepts[last] == c@);
                assert(concept_with_id(c@.id)(q.concepts[last]));
                crate::seqs::lemma_first_where_some(q.concepts, concept_with_id(c@.id), last);
            }
        },
        ModelMutation::InformationClassAdded(c) => {
            let k = first_where(p.information_model, class_id_is(c@.id));
            if k >= 0 {
                assert(q == p);
            } else {
                let last: int = p.information_model.len() as int;
                assert(q.information_model[last] == c@);
                assert(class_id_is(c@.id)(q.information_model[last]));
                crate::seqs::lemma_first_where_some(q.information_model, class_id_is(c@.id), last);
            }
        },
        _ => {},
    }
}

proof fn lemma_no_class_first(classes: Seq<ClassView>, id: Id)
    requires
        forall|j: int| 0 <= j < classes.len() ==> classes[j].id != id,
    ensures
        first_where(classes, class_id_is(id)) == -1,
{
    assert forall|j: int| 0 <= j < classes.len() implies !class_id_is(id)(#[trigger] classes[j]) by {}
    lemma_first_where_none(classes, class_id_is(id));
}

proof fn lemma_some_class_first(classes: Seq<ClassView>, id: Id)
    requires
        exists|i: int|
            0 <= i < classes.len() && classes[i].id == id && forall|j: int| 0 <= j < i ==> classes[j].id != id,
    ensures
        first_where(classes, class_id_is(id)) >= 0,
        forall|i: int|
            0 <= i < classes.len() && classes[i].id == id && (forall|j: int| 0 <= j < i ==> classes[j].id != id)
                ==> first_where(classes, class_id_is(id)) == i,
{
    let i = choose|i: int|
        0 <= i < classes.len() && classes[i].id == id && forall|j: int| 0 <= j < i ==> classes[j].id != id;
    assert(crate::seqs::is_first_where(classes, class_id_is(id), i));
    lemma_first_where(classes, class_id_is(id), i);
    assert forall|k: int|
        0 <= k < classes.len() && classes[k].id == id && (forall|j: int| 0 <= j < k ==> classes[j].id != id)
            implies first_where(classes, class_id_is(id)) == k by {
        assert(crate::seqs::is_first_where(classes, class_id_is(id), k));
        lemma_first_where(classes, class_id_is(id), k);
    }
}

/// The message of the error for updating a concept that is not in the
/// project.
pub open spec fn concept_not_found() -> Seq<char> {
    "Begreb ikke fundet i projekt"@
}

impl ModelProject {
    /// A project with the given metadata and nothing else.
    pub fn new(metadata: ModelMetadata) -> (res: ModelProject)
        ensures
            res@.metadata == metadata@,
            res@.concepts == Seq::<ConceptView>::empty(),
            res@.concept_graph.nodes.len() == 0,
            res@.concept_graph.edges.len() == 0,
            res@.information_model == Seq::<ClassView>::empty(),
            res@.information_graph.nodes.len() == 0,
            res@.information_graph.edges.len() == 0,
    {
        let res = ModelProject {
            metadata,
            concepts: Vec::new(),
            concept_graph: ConceptGraph::new(),
            information_model: InformationModel::new(),
            information_graph: ClassGraph::new(),
        };
        assert(res@.concepts =~= Seq::<ConceptView>::empty());
        res
    }

    /// Rebuilds a project from its parts, as they were stored.
    pub fn from_parts(
        metadata: ModelMetadata,
        concepts: Vec<Concept>,
        concept_graph: ConceptGraph,
        information_model: InformationModel,
        information_graph: ClassGraph,
    ) -> (res: ModelProject)
        ensures
            res@ == (ProjectView {
                metadata: metadata@,
                concepts: concepts_view(concepts@),
                concept_graph: concept_graph@,
                information_model: information_model@,
                information_graph: information_graph@,
            }),
    {
        ModelProject { metadata, concepts, concept_graph, information_model, information_graph }
    }

    pub fn metadata(&self) -> (res: &ModelMetadata)
        ensures
            res@ == self@.metadata,
    {
        &self.metadata
    }

    pub fn concepts(&self) -> (res: &[Concept])
        ensures
            concepts_view(res@) == self@.concepts,
    {
        self.concepts.as_slice()
    }

    pub fn concept_graph(&self) -> (res: &ConceptGraph)
        ensures
            res@ == self@.concept_graph,
    {
        &self.concept_graph
    }

    pub fn information_model(&self) -> (res: &InformationModel)
        ensures
            res@ == self@.information_model,
    {
        &self.information_model
    }

    pub fn information_graph(&self) -> (res: &ClassGraph)
        ensures
            res@ == self@.information_graph,
    {
        &self.information_graph
    }

    pub fn metadata_mut(&mut self) -> (res: &mut ModelMetadata)
        ensures
            res@ == old(self)@.metadata,
            final(self)@ == (ProjectView { metadata: final(res)@, ..old(self)@ }),
    {
        &mut self.metadata
    }

    pub fn concept_graph_mut(&mut self) -> (res: &mut ConceptGraph)
        ensures
            res@ == old(self)@.concept_graph,
            final(self)@ == (ProjectView { concept_graph: final(res)@, ..old(self)@ }),
    {
        &mut self.concept_graph
    }

    pub fn information_model_mut(&mut self) -> (res: &mut InformationModel)
        ensures
            res@ == old(self)@.information_model,
            final(self)@ == (ProjectView { information_model: final(res)@, ..old(self)@ }),
    {
        &mut self.information_model
    }

    pub fn concepts_mut(&mut self) -> (res: &mut Vec<Concept>)
        ensures
            concepts_view(res@) == old(self)@.concepts,
            final(self)@ == (ProjectView { concepts: concepts_view(final(res)@), ..old(self)@ }),
    {
        &mut self.concepts
    }

    /// Removes the first class with the identifier from the model and, when
    /// there was one, takes it off the class diagram; returns it.
    pub fn remove_information_class(&mut self, id: Id) -> (res: Option<InformationClass>)
        ensures
            final(self)@.metadata == old(self)@.metadata,
            final(self)@.concepts == old(self)@.concepts,
            final(self)@.concept_graph == old(self)@.concept_graph,
            match res {
                Some(c) => exists|i: int|
                    0 <= i < old(self)@.information_model.len() && old(self)@.information_model[i].id == id
                        && (forall|j: int| 0 <= j < i ==> old(self)@.information_model[j].id != id)
                        && c@ == old(self)@.information_model[i]
                        && final(self)@.information_model == old(self)@.information_model.remove(i),
                None => (forall|j: int| 0 <= j < old(self)@.information_model.len()
                    ==> old(self)@.information_model[j].id != id)
                    && final(self)@.information_model == old(self)@.information_model,
            },
            res is Some ==> final(self)@.information_graph == without_class(old(self)@.information_graph, id),
            res is None ==> final(self)@.information_graph == old(self)@.information_graph,
            edges_joined(old(self)@.information_graph) ==> edges_joined(final(self)@.information_graph),
    {
        let removed = self.information_model.remove_class(id);
        if removed.is_some() {
            self.information_graph.remove_class_node(id);
        }
        removed
    }

    /// Adds a new, empty class to the model and a node for it to the class
    /// diagram; returns the node and a copy of the class, for the other
    /// participants.
    pub fn create_information_class(&mut self) -> (res: (NodeId, InformationClass))
        ensures
            ({
                let c = res.1@;
                &&& c == (ClassView {
                    id: c.id,
                    name: Seq::empty(),
                    description: None,
                    concept_ids: Seq::empty(),
                    attributes: Seq::empty(),
                })
                &&& final(self)@ == (ProjectView {
                    information_model: old(self)@.information_model.push(c),
                    information_graph: class_added(old(self)@.information_graph, c.id, 0, res.0),
                    ..old(self)@
                })
            }),
    {
        proof {
            reveal_strlit("");
        }
        let class = InformationClass::new("");
        let copy = class.duplicate();
        let id = self.information_model.add_class(class);
        let node = self.information_graph.add_node(id, 0);
        assert(copy@.name =~= Seq::<char>::empty());
        (node, copy)
    }

    /// Adds a class realising the first concept with the identifier, and a
    /// node for it; returns the node and a copy of the class, or nothing
    /// where there is no such concept.
    pub fn create_information_class_from_concept(&mut self, concept_id: Id) -> (res: Option<(NodeId, InformationClass)>)
        ensures
            ({
                let k = first_where(old(self)@.concepts, concept_with_id(concept_id));
                match res {
                    Some((node, class)) => {
                        let c = class@;
                        &&& k >= 0
                        &&& c == class_of_concept(old(self)@.concepts[k], c.id)
                        &&& final(self)@ == (ProjectView {
                            information_model: old(self)@.information_model.push(c),
                            information_graph: class_added(old(self)@.information_graph, c.id, 0, node),
                            ..old(self)@
                        })
                    },
                    None => k == -1 && final(self)@ == old(self)@,
                }
            }),
    {
        match self.concept_index(concept_id) {
            Some(i) => {
                let class = InformationClass::from_concept(&self.concepts[i]);
                let copy = class.duplicate();
                let id = self.information_model.add_class(class);
                let node = self.information_graph.add_node(id, 0);
                Some((node, copy))
            },
            None => None,
        }
    }

    /// Renames the first class with the identifier: typing into the
    /// placeholder name "NyKlasse" takes the placeholder out of the text
    /// typed. Returns a copy of the renamed class, or nothing where there
    /// is no such class.
    pub fn rename_information_class(&mut self, class_id: Id, name: &str) -> (res: Option<InformationClass>)
        ensures
            ({
                let k = first_where(old(self)@.information_model, class_id_is(class_id));
                let m = old(self)@.information_model;
                match res {
                    Some(c) => {
                        &&& k >= 0
                        &&& c@ == (ClassView { name: name_replacing(m[k].name, class_placeholder(), name@), ..m[k] })
                        &&& final(self)@ == (ProjectView { information_model: m.update(k, c@), ..old(self)@ })
                    },
                    None => k == -1 && final(self)@ == old(self)@,
                }
            }),
    {
        let ghost m = self@.information_model;
        match self.information_model.get_class_mut(class_id) {
            Some(class) => {
                proof {
                    let i = choose|i: int|
                        0 <= i < m.len() && m[i].id == class_id && class@ == m[i] && (forall|j: int|
                            0 <= j < i ==> m[j].id != class_id) && final(class)@ == final(class)@;
                    lemma_first_where(m, class_id_is(class_id), i);
                    reveal_strlit("NyKlasse");
                }
                let renamed = replace_placeholder(class.name(), "NyKlasse", name);
                class.set_name(renamed.as_str());
                Some(class.duplicate())
            },
            None => {
                proof {
                    lemma_first_where_none(m, class_id_is(class_id));
                }
                None
            },
        }
    }

    /// Describes the first class with the identifier: a blank text leaves it
    /// without a description. Returns a copy of the class, or nothing where
    /// there is no such class.
    pub fn describe_information_class(&mut self, class_id: Id, desc: &str) -> (res: Option<InformationClass>)
        ensures
            ({
                let k = first_where(old(self)@.information_model, class_id_is(class_id));
                let m = old(self)@.information_model;
                match res {
                    Some(c) => {
                        &&& k >= 0
                        &&& c@ == (ClassView {
                            description: if trimmed(desc@).len() == 0 { None } else { Some(desc@) },
                            ..m[k]
                        })
                        &&& final(self)@ == (ProjectView { information_model: m.update(k, c@), ..old(self)@ })
                    },
                    None => k == -1 && final(self)@ == old(self)@,
                }
            }),
    {
        let ghost m = self@.information_model;
        match self.information_model.get_class_mut(class_id) {
            Some(class) => {
                proof {
                    let i = choose|i: int|
                        0 <= i < m.len() && m[i].id == class_id && class@ == m[i] && (forall|j: int|
                            0 <= j < i ==> m[j].id != class_id) && final(class)@ == final(class)@;
                    lemma_first_where(m, class_id_is(class_id), i);
                }
                let d = if trim(desc).unicode_len() == 0 {
                    None
                } else {
                    Some(String::from_str(desc))
                };
                class.set_description(d);
                Some(class.duplicate())
            },
            None => {
                proof {
                    lemma_first_where_none(m, class_id_is(class_id));
                }
                None
            },
        }
    }

    /// Links or unlinks a concept to the first class with the identifier;
    /// returns whether there was one.
    pub fn link_class_concept(&mut self, class_id: Id, concept_id: Id, linked: bool) -> (res: bool)
        ensures
            ({
                let k = first_where(old(self)@.information_model, class_id_is(class_id));
                let m = old(self)@.information_model;
                &&& res == (k >= 0)
                &&& final(self)@ == if k >= 0 {
                    ProjectView {
                        information_model: m.update(
                            k,
                            ClassView {
                                concept_ids: if linked {
                                    add_unique(m[k].concept_ids, concept_id)
                                } else {
                                    without(m[k].concept_ids, concept_id)
                                },
                                ..m[k]
                            },
                        ),
                        ..old(self)@
                    }
                } else {
                    old(self)@
                }
            }),
    {
        let ghost m = self@.information_model;
        match self.information_model.get_class_mut(class_id) {
            Some(class) => {
                proof {
                    let i = choose|i: int|
                        0 <= i < m.len() && m[i].id == class_id && class@ == m[i] && (forall|j: int|
                            0 <= j < i ==> m[j].id != class_id) && final(class)@ == final(class)@;
                    lemma_first_where(m, class_id_is(class_id), i);
                }
                if linked {
                    class.add_concept_id(concept_id);
                } else {
                    class.remove_concept_id(concept_id);
                }
                true
            },
            None => {
                proof {
                    lemma_first_where_none(m, class_id_is(class_id));
                }
                false
            },
        }
    }

    /// Changes an attribute of the first class with the identifier; returns
    /// whether there was such a class with such an attribute.
    pub fn edit_class_attribute(&mut self, class_id: Id, attr_id: Id, edit: AttributeEdit) -> (res: bool)
        ensures
            ({
                let k = first_where(old(self)@.information_model, class_id_is(class_id));
                let m = old(self)@.information_model;
                let a = if k >= 0 { first_where(m[k].attributes, attribute_id_is(attr_id)) } else { -1 };
                &&& res == (a >= 0)
                &&& final(self)@ == if a >= 0 {
                    ProjectView {
                        information_model: m.update(
                            k,
                            ClassView {
                                attributes: m[k].attributes.update(a, attribute_edited(m[k].attributes[a], edit)),
                                ..m[k]
                            },
                        ),
                        ..old(self)@
                    }
                } else {
                    old(self)@
                }
            }),
    {
        let ghost m = self@.information_model;
        match self.information_model.get_class_mut(class_id) {
            Some(class) => {
                proof {
                    let i = choose|i: int|
                        0 <= i < m.len() && m[i].id == class_id && class@ == m[i] && (forall|j: int|
                            0 <= j < i ==> m[j].id != class_id) && final(class)@ == final(class)@;
                    lemma_first_where(m, class_id_is(class_id), i);
                }
                let ghost k = first_where(m, class_id_is(class_id));
                let done = class.edit_attribute(attr_id, edit);
                proof {
                    if !done {
                        assert(m.update(k, m[k]) =~= m);
                    }
                }
                done
            },
            None => {
                proof {
                    lemma_first_where_none(m, class_id_is(class_id));
                }
                false
            },
        }
    }

    /// Gives the first class with the identifier a new, unnamed text
    /// attribute with multiplicity one, and makes its node tall enough;
    /// returns whether there was such a class.
    pub fn add_attribute_to_class(&mut self, class_id: Id) -> (res: bool)
        ensures
            ({
                let k = first_where(old(self)@.information_model, class_id_is(class_id));
                let m = old(self)@.information_model;
                &&& res == (k >= 0)
                &&& k >= 0 ==> {
                    let added = final(self)@.information_model[k].attributes.last();
                    &&& added.name == Seq::<char>::empty()
                    &&& added.data_type == PrimitiveType::CharacterString
                    &&& added.multiplicity.lo() == 1
                    &&& added.multiplicity.hi() == Some(1u32)
                    &&& added.concept_ids == Seq::<Id>::empty()
                    &&& final(self)@ == (ProjectView {
                        information_model: m.update(
                            k,
                            ClassView { attributes: m[k].attributes.push(added), ..m[k] },
                        ),
                        information_graph: fitted(
                            old(self)@.information_graph,
                            class_id,
                            m[k].attributes.len() + 1,
                        ),
                        ..old(self)@
                    })
                }
                &&& k == -1 ==> final(self)@ == old(self)@
            }),
    {
        let ghost m = self@.information_model;
        match self.information_model.get_class_mut(class_id) {
            Some(class) => {
                proof {
                    let i = choose|i: int|
                        0 <= i < m.len() && m[i].id == class_id && class@ == m[i] && (forall|j: int|
                            0 <= j < i ==> m[j].id != class_id) && final(class)@ == final(class)@;
                    lemma_first_where(m, class_id_is(class_id), i);
                    reveal_strlit("");
                }
                let attr = Attribute::new("", PrimitiveType::CharacterString, Multiplicity::exactly_one());
                assert(attr@.name =~= Seq::<char>::empty());
                class.add_attribute(attr);
                let count = class.attributes().len();
                self.information_graph.update_class_dimensions(class_id, count);
                true
            },
            None => {
                proof {
                    lemma_first_where_none(m, class_id_is(class_id));
                }
                false
            },
        }
    }

    /// Removes the first attribute with the identifier from the first class
    /// with the identifier and fits its node to what is left; returns
    /// whether there was such a class.
    pub fn delete_attribute(&mut self, class_id: Id, attr_id: Id) -> (res: bool)
        ensures
            ({
                let k = first_where(old(self)@.information_model, class_id_is(class_id));
                let m = old(self)@.information_model;
                &&& res == (k >= 0)
                &&& final(self)@ == if k >= 0 {
                    let a = first_where(m[k].attributes, attribute_id_is(attr_id));
                    let attrs = if a >= 0 { m[k].attributes.remove(a) } else { m[k].attributes };
                    ProjectView {
                        information_model: m.update(k, ClassView { attributes: attrs, ..m[k] }),
                        information_graph: fitted(old(self)@.information_graph, class_id, attrs.len()),
                        ..old(self)@
                    }
                } else {
                    old(self)@
                }
            }),
    {
        let ghost m = self@.information_model;
        match self.information_model.get_class_mut(class_id) {
            Some(class) => {
                proof {
                    let i = choose|i: int|
                        0 <= i < m.len() && m[i].id == class_id && class@ == m[i] && (forall|j: int|
                            0 <= j < i ==> m[j].id != class_id) && final(class)@ == final(class)@;
                    lemma_first_where(m, class_id_is(class_id), i);
                }
                let ghost attrs = class@.attributes;
                let removed = class.remove_attribute(attr_id);
                proof {
                    match removed {
                        Some(r) => {
                            let j = choose|j: int|
                                0 <= j < attrs.len() && attrs[j].id == attr_id && (forall|l: int|
                                    0 <= l < j ==> attrs[l].id != attr_id) && r@ == attrs[j]
                                    && class@.attributes == attrs.remove(j);
                            lemma_first_where(attrs, attribute_id_is(attr_id), j);
                        },
                        None => {
                            lemma_first_where_none(attrs, attribute_id_is(attr_id));
                        },
                    }
                }
                let count = class.attributes().len();
                self.information_graph.update_class_dimensions(class_id, count);
                true
            },
            None => {
                proof {
                    lemma_first_where_none(m, class_id_is(class_id));
                }
                false
            },
        }
    }

    /// Puts the first class with the identifier on the class diagram, sized
    /// for its attributes (none where there is no such class); returns its
    /// node.
    pub fn add_class_to_diagram(&mut self, class_id: Id) -> (res: NodeId)
        ensures
            ({
                let k = first_where(old(self)@.information_model, class_id_is(class_id));
                let count = if k >= 0 { old(self)@.information_model[k].attributes.len() } else { 0 };
                final(self)@ == (ProjectView {
                    information_graph: class_added(old(self)@.information_graph, class_id, count, res),
                    ..old(self)@
                })
            }),
    {
        let ghost m = self@.information_model;
        let count = match self.information_model.get_class(class_id) {
            Some(c) => {
                proof {
                    let i = choose|i: int|
                        0 <= i < m.len() && m[i].id == class_id && c@ == m[i] && forall|j: int|
                            0 <= j < i ==> m[j].id != class_id;
                    lemma_first_where(m, class_id_is(class_id), i);
                }
                c.attributes().len()
            },
            None => {
                proof {
                    lemma_first_where_none(m, class_id_is(class_id));
                }
                0
            },
        };
        self.information_graph.add_node(class_id, count)
    }

    /// Brings the concept diagram in line with the concepts.
    pub fn sync_concept_graph(&mut self)
        ensures
            final(self)@ == (ProjectView {
                concept_graph: synced_with_concepts(old(self)@.concept_graph, old(self)@.concepts),
                ..old(self)@
            }),
    {
        self.concept_graph.sync_with_concepts(self.concepts.as_slice());
    }

    /// Brings the class diagram in line with the information model.
    pub fn sync_information_graph(&mut self)
        ensures
            final(self)@ == (ProjectView {
                information_graph: synced_with_model(old(self)@.information_graph, old(self)@.information_model),
                ..old(self)@
            }),
            edges_joined(final(self)@.information_graph),
    {
        self.information_graph.sync_with_information_model(&self.information_model);
    }

    fn concept_index(&self, id: Id) -> (res: Option<usize>)
        ensures
            match res {
                Some(i) => i == first_where(self@.concepts, concept_with_id(id)) && i < self@.concepts.len(),
                None => first_where(self@.concepts, concept_with_id(id)) == -1,
            },
    {
        crate::concept_model::concept_position(self.concepts.as_slice(), id)
    }

    /// The first concept with the identifier.
    pub fn get_concept(&self, id: Id) -> (res: Option<&Concept>)
        ensures
            match res {
                Some(c) => first_where(self@.concepts, concept_with_id(id)) >= 0
                    && c@ == self@.concepts[first_where(self@.concepts, concept_with_id(id))],
                None => first_where(self@.concepts, concept_with_id(id)) == -1,
            },
    {
        match self.concept_index(id) {
            Some(i) => Some(&self.concepts[i]),
            None => None,
        }
    }

    /// The first concept with the identifier, to be changed in place.
    pub fn get_concept_mut(&mut self, id: Id) -> (res: Option<&mut Concept>)
        ensures
            match res {
                Some(c) => {
                    let i = first_where(old(self)@.concepts, concept_with_id(id));
                    &&& i >= 0
                    &&& c@ == old(self)@.concepts[i]
                    &&& final(self)@ == (ProjectView { concepts: old(self)@.concepts.update(i, final(c)@), ..old(self)@ })
                },
                None => first_where(old(self)@.concepts, concept_with_id(id)) == -1 && final(self)@ == old(self)@,
            },
    {
        match self.concept_index(id) {
            Some(i) => {
                proof {
                    assert forall|x: Concept| #[trigger] concepts_view(self.concepts@.update(i as int, x))
                        == concepts_view(self.concepts@).update(i as int, x@) by {
                        assert(concepts_view(self.concepts@.update(i as int, x)) =~= concepts_view(self.concepts@).update(i as int, x@));
                    }
                }
                Some(&mut self.concepts[i])
            },
            None => None,
        }
    }

    /// Adds a valid concept and brings the concept diagram in line; an
    /// invalid one is refused with the reason and nothing changes.
    pub fn add_concept(&mut self, concept: Concept) -> (res: Result<Id, ValidationError>)
        ensures
            match res {
                Ok(id) => validation_of(concept@) is None && id == concept@.id && final(self)@ == (ProjectView {
                    concepts: old(self)@.concepts.push(concept@),
                    concept_graph: synced_with_concepts(old(self)@.concept_graph, old(self)@.concepts.push(concept@)),
                    ..old(self)@
                }),
                Err(e) => validation_of(concept@) == Some(e@) && final(self)@ == old(self)@,
            },
    {
        match ConceptValidator::validate(&concept) {
            Err(e) => Err(e),
            Ok(_) => {
                let id = concept.id();
                let ghost before = self@;
                let ghost c = concept@;
                self.concepts.push(concept);
                assert(concepts_view(self.concepts@) =~= before.concepts.push(c));
                self.sync_concept_graph();
                Ok(id)
            },
        }
    }

    /// Replaces the first concept with the same identifier by a valid
    /// concept and brings the concept diagram in line. An invalid concept
    /// is refused with the reason; a concept that is not in the project
    /// with a missing-field error; either way nothing changes.
    pub fn update_concept(&mut self, concept: Concept) -> (res: Result<(), ValidationError>)
        ensures
            ({
                let k = first_where(old(self)@.concepts, concept_with_id(concept@.id));
                match res {
                    Ok(_) => validation_of(concept@) is None && k >= 0 && final(self)@ == (ProjectView {
                        concepts: old(self)@.concepts.update(k, concept@),
                        concept_graph: synced_with_concepts(
                            old(self)@.concept_graph,
                            old(self)@.concepts.update(k, concept@),
                        ),
                        ..old(self)@
                    }),
                    Err(e) => final(self)@ == old(self)@ && (validation_of(concept@) is Some ==> validation_of(
                        concept@,
                    ) == Some(e@)) && (validation_of(concept@) is None ==> k == -1
                        && e@ == ValidationView::MissingRequiredField(concept_not_found())),
                }
            }),
    {
        match ConceptValidator::validate(&concept) {
            Err(e) => Err(e),
            Ok(_) => {
                match self.concept_index(concept.id()) {
                    Some(k) => {
                        let ghost before = self@;
                        let ghost c = concept@;
                        self.concepts.set(k, concept);
                        assert(concepts_view(self.concepts@) =~= before.concepts.update(k as int, c));
                        self.sync_concept_graph();
                        Ok(())
                    },
                    None => Err(ValidationError::MissingRequiredField("Begreb ikke fundet i projekt")),
                }
            },
        }
    }

    /// Removes the first concept with the identifier, and takes the concept
    /// off the diagram with its relations; returns it.
    pub fn remove_concept(&mut self, id: Id) -> (res: Option<Concept>)
        ensures
            ({
                let k = first_where(old(self)@.concepts, concept_with_id(id));
                match res {
                    Some(c) => k >= 0 && c@ == old(self)@.concepts[k] && final(self)@ == (ProjectView {
                        concepts: old(self)@.concepts.remove(k),
                        concept_graph: GraphView {
                            nodes: old(self)@.concept_graph.nodes.filter(hides_concept(id)),
                            edges: old(self)@.concept_graph.edges.filter(
                                edge_spared(old(self)@.concept_graph.nodes, id),
                            ),
                        },
                        ..old(self)@
                    }),
                    None => k == -1 && final(self)@ == old(self)@,
                }
            }),
    {
        match self.concept_index(id) {
            Some(k) => {
                let ghost before = self@;
                let removed = self.concepts.remove(k);
                assert(concepts_view(self.concepts@) =~= before.concepts.remove(k as int));
                self.concept_graph.remove_node_by_concept(id);
                Some(removed)
            },
            None => None,
        }
    }

    /// Removes every concept with the identifier.
    fn remove_concepts_with_id(&mut self, id: Id)
        ensures
            final(self)@ == (ProjectView { concepts: old(self)@.concepts.filter(other_concept(id)), ..old(self)@ }),
    {
        let ghost before = self@;
        let ghost p = other_concept(id);
        let mut i: usize = 0;
        let mut k: usize = 0;
        let total: usize = self.concepts.len();
        while i < self.concepts.len()
            invariant
                p == other_concept(id),
                total == before.concepts.len(),
                k <= before.concepts.len(),
                i <= self@.concepts.len(),
                self@ == (ProjectView { concepts: self@.concepts, ..before }),
                self@.concepts =~= before.concepts.take(k as int).filter(p) + before.concepts.skip(k as int),
                i == before.concepts.take(k as int).filter(p).len(),
            decreases self@.concepts.len() - i,
        {
            let ghost done = before.concepts.take(k as int).filter(p);
            let ghost cur = self@.concepts;
            proof {
                assert(cur.len() == done.len() + before.concepts.len() - k);
                crate::seqs::lemma_filter_step(before.concepts, p, k as int);
                assert(cur[i as int] == before.concepts[k as int]);
            }
            assert(cur[i as int] == self.concepts@[i as int]@);
            if self.concepts[i].id() == id {
                self.concepts.remove(i);
                assert(concepts_view(self.concepts@) =~= cur.remove(i as int));
            } else {
                i += 1;
            }
            assert(self@.concepts =~= before.concepts.take(k + 1).filter(p) + before.concepts.skip(k + 1));
            k += 1;
        }
        proof {
            assert(k == before.concepts.len()) by {
                if k < before.concepts.len() {
                    assert(self@.concepts.len() > i);
                }
            }
            assert(before.concepts.take(k as int) =~= before.concepts);
            assert(before.concepts.skip(k as int) =~= Seq::<ConceptView>::empty());
        }
    }

    /// Applies a change received from another editor of the session.
    pub fn apply_mutation(&mut self, mutation: ModelMutation)
        ensures
            final(self)@.metadata == old(self)@.metadata,
            mutation_applied(old(self)@, mutation, final(self)@),
    {
        let ghost before = self@;
        match mutation {
            ModelMutation::ConceptAdded(c) => {
                if self.concept_index(c.id()).is_none() {
                    let ghost cv = c@;
                    if !self.concept_graph.is_concept_on_diagram(c.id()) {
                        let nid = self.concept_graph.add_node(&c);
                        assert(self@.concept_graph == placed(before.concept_graph, cv, nid));
                    } else {
                        proof {
                            let w = choose|i: int| 0 <= i < before.concept_graph.nodes.len()
                                && before.concept_graph.nodes[i].concept_id == cv.id;
                            assert(shows_concept(cv.id)(before.concept_graph.nodes[w]));
                            crate::seqs::lemma_first_where_some(before.concept_graph.nodes, shows_concept(cv.id), w);
                        }
                    }
                    let ghost mid = self@;
                    self.concepts.push(c);
                    assert(concepts_view(self.concepts@) =~= mid.concepts.push(cv));
                }
            },
            ModelMutation::ConceptUpdated(c) => {
                let id = c.id();
                let term = String::from_str(c.preferred_term());
                if let Some(k) = self.concept_index(id) {
                    let ghost cv = c@;
                    self.concepts.set(k, c);
                    assert(concepts_view(self.concepts@) =~= before.concepts.update(k as int, cv));
                }
                self.concept_graph.set_concept_label(id, term.as_str());
            },
            ModelMutation::ConceptDeleted(id) => {
                self.remove_concepts_with_id(id);
                self.concept_graph.remove_node_by_concept(id);
            },
            ModelMutation::ConceptDiagramNodeAdded(id) => {
                if let Some(k) = self.concept_index(id) {
                    if !self.concept_graph.is_concept_on_diagram(id) {
                        assert(self@.concepts[k as int] == self.concepts@[k as int]@);
                        let nid = self.concept_graph.add_node(&self.concepts[k]);
                        assert(self@.concept_graph == placed(before.concept_graph, before.concepts[k as int], nid));
                        proof {
                            crate::seqs::lemma_first_where_found(before.concepts, concept_with_id(id));
                        }
                    } else {
                        proof {
                            let w = choose|i: int| 0 <= i < before.concept_graph.nodes.len()
                                && before.concept_graph.nodes[i].concept_id == id;
                            assert(shows_concept(id)(before.concept_graph.nodes[w]));
                            crate::seqs::lemma_first_where_some(before.concept_graph.nodes, shows_concept(id), w);
                        }
                    }
                }
                proof {
                    if first_where(before.concept_graph.nodes, shows_concept(id)) == -1 {
                        crate::seqs::lemma_first_where_absent(before.concept_graph.nodes, shows_concept(id));
                    }
                }
            },
            ModelMutation::ConceptDiagramNodeRemoved(id) => {
                self.concept_graph.remove_node_by_concept(id);
            },
            ModelMutation::InformationClassAdded(class) => {
                let id = class.id();
                if self.information_model.get_class(id).is_none() {
                    let count: usize = class.attributes().len();
                    let ghost cv = class@;
                    assert(count == cv.attributes.len());
                    self.information_model.add_class(class);
                    let nid = self.information_graph.add_node(id, count);
                    assert(self@.information_graph == class_added(before.information_graph, cv.id, cv.attributes.len(), nid));
                    proof {
                        lemma_no_class_first(before.information_model, id);
                    }
                } else {
                    proof {
                        lemma_some_class_first(before.information_model, id);
                    }
                }
            },
            ModelMutation::InformationClassUpdated(class) => {
                self.information_model.replace_class(class);
            },
            ModelMutation::InformationClassDeleted(id) => {
                let removed = self.remove_information_class(id);
                proof {
                    if removed is Some {
                        lemma_some_class_first(before.information_model, id);
                    } else {
                        lemma_no_class_first(before.information_model, id);
                    }
                }
            },
            ModelMutation::ClassDiagramNodeAdded(class_id) => {
                match self.information_model.get_class(class_id) {
                    Some(class) => {
                        let count: usize = class.attributes().len();
                        assert(count == class@.attributes.len());
                        proof {
                            lemma_some_class_first(before.information_model, class_id);
                        }
                        let ghost k = first_where(before.information_model, class_id_is(class_id));
                        assert(class@ == before.information_model[k]);
                        let nid = self.information_graph.add_node(class_id, count);
                        assert(self@.information_graph == class_added(
                            before.information_graph,
                            class_id,
                            before.information_model[k].attributes.len(),
                            nid,
                        ));
                    },
                    None => {
                        proof {
                            lemma_no_class_first(before.information_model, class_id);
                        }
                    },
                }
            },
            ModelMutation::ClassDiagramNodeRemoved(class_id) => {
                self.information_graph.remove_class_node(class_id);
            },
            ModelMutation::RelationAdded(rel) => {
                self.concept_graph.add_relation_with_label(rel.from, rel.to, rel.kind, rel.label);
            },
            ModelMutation::RelationUpdated(rel) => {
                self.concept_graph.update_relation(rel.from, rel.to, rel.kind, rel.label);
            },
            ModelMutation::RelationDeleted { from, to } => {
                self.concept_graph.remove_relation(from, to);
            },
            ModelMutation::ClassRelationAdded {
                from_class,
                to_class,
                kind,
                label,
                source_multiplicity,
                target_multiplicity,
                directed,
            } => {
                let a = match self.information_graph.find_node_by_class(from_class) {
                    Some(n) => Some(n.id()),
                    None => None,
                };
                let b = match self.information_graph.find_node_by_class(to_class) {
                    Some(n) => Some(n.id()),
                    None => None,
                };
                match (a, b) {
                    (Some(na), Some(nb)) => {
                        self.information_graph.add_relation_with_multiplicities(
                            na,
                            nb,
                            kind,
                            label,
                            source_multiplicity,
                            target_multiplicity,
                        );
                        match directed {
                            Some(d) => {
                                self.information_graph.update_edge_directed(na, nb, d);
                            },
                            None => {},
                        }
                    },
                    _ => {},
                }
            },
            ModelMutation::ClassRelationDeleted { from_class, to_class } => {
                let a = match self.information_graph.find_node_by_class(from_class) {
                    Some(n) => Some(n.id()),
                    None => None,
                };
                let b = match self.information_graph.find_node_by_class(to_class) {
                    Some(n) => Some(n.id()),
                    None => None,
                };
                match (a, b) {
                    (Some(na), Some(nb)) => {
                        self.information_graph.remove_relation(na, nb);
                    },
                    _ => {},
                }
            },
            ModelMutation::NodeMoved { id, x, y } => {
                if !self.concept_graph.move_node(id, x, y) {
                    if !self.concept_graph.move_concept_node(id, x, y) {
                        self.information_graph.update_node_position(id, x, y);
                    }
                }
            },
        }
    }

    pub fn information_graph_mut(&mut self) -> (res: &mut ClassGraph)
        ensures
            res@ == old(self)@.information_graph,
            final(self)@ == (ProjectView { information_graph: final(res)@, ..old(self)@ }),
    {
        &mut self.information_graph
    }
}

impl Default for ModelProject {
    /// A new project with placeholder metadata.
    fn default() -> (res: ModelProject)
        ensures
            res@.metadata == default_metadata(),
            res@.concepts.len() == 0,
            res@.concept_graph.nodes.len() == 0,
            res@.concept_graph.edges.len() == 0,
            res@.information_model.len() == 0,
            res@.information_graph.nodes.len() == 0,
            res@.information_graph.edges.len() == 0,
    {
        ModelProject::new(ModelMetadata::placeholder())
    }
}

/// Where projects are stored.
pub struct ProjectStorage;

impl ProjectStorage {
    /// The file a project is kept in when none was chosen, relative to the
    /// working directory.
    pub fn default_project_path() -> (res: &'static str)
        ensures
            res@ == "model.edge.json"@,
    {
        "model.edge.json"
    }

    /// Checks every concept of a project before it is written or after it is
    /// read: the first invalid concept's reason, or success.
    pub fn check_concepts(project: &ModelProject) -> (res: Result<(), ValidationError>)
        ensures
            ({
                let k = first_where(project@.concepts, is_invalid());
                match res {
                    Ok(_) => k == -1,
                    Err(e) => k >= 0 && validation_of(project@.concepts[k]) == Some(e@),
                }
            }),
    {
        let concepts = project.concepts();
        let ghost cs = project@.concepts;
        let mut i: usize = 0;
        while i < concepts.len()
            invariant
                cs == concepts_view(concepts@),
                cs == project@.concepts,
                i <= concepts@.len(),
                forall|j: int| 0 <= j < i ==> !is_invalid()(#[trigger] cs[j]),
            decreases concepts@.len() - i,
        {
            assert(cs[i as int] == concepts@[i as int]@);
            match ConceptValidator::validate(&concepts[i]) {
                Ok(_) => {},
                Err(e) => {
                    proof {
                        assert(validation_of(cs[i as int]) == Some(e@));
                        assert(is_invalid()(cs[i as int]));
                        lemma_first_where(cs, is_invalid(), i as int);
                    }
                    return Err(e);
                },
            }
            i += 1;
        }
        proof {
            lemma_first_where_none(cs, is_invalid());
        }
        Ok(())
    }

    /// The name of the scratch file a project is first written to, beside
    /// its file: a dot, the file's name (`model` when it has none), a dot, a
    /// random UUID, and `.tmp`.
    pub fn temp_file_name(file_name: Option<&str>) -> (res: String)
        ensures
            exists|u: Seq<char>| u.len() == 36 && res@ == "."@ + match file_name {
                Some(f) => f@,
                None => "model"@,
            } + "."@ + u + ".tmp"@,
    {
        let unique = crate::crypto::random_uuid_text();
        let name = match file_name {
            Some(f) => f,
            None => "model",
        };
        let res = String::from_str(".").concat(name).concat(".").concat(unique.as_str()).concat(".tmp");
        assert(res@ == "."@ + name@ + "."@ + unique@ + ".tmp"@);
        res
    }
}

/// Whether a concept fails validation.
pub open spec fn is_invalid() -> spec_fn(ConceptView) -> bool {
    |c: ConceptView| validation_of(c) is Some
}

} // verus!
