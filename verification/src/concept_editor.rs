//! The concept forms: the full editor and the quick-create box on the
//! diagram. They hold what the user typed and turn it into a validated
//! concept.
use vstd::prelude::*;
use crate::concepts::{
    domain_of_text, opt_view, validation_of, BelongsToDomain, Concept, ConceptValidator, ConceptView, DomainView,
    ValidationError,
};
use crate::ids::{random_id, Id};
use crate::text::{trim, trimmed};

verus! {

/// The fields of the concept editor.
#[derive(Debug, Clone, Copy, PartialEq, Eq, Structural)]
pub enum ConceptFormField {
    PreferredTerm,
    Definition,
    BelongsToDomain,
    AcceptedTerm,
    DeprecatedTerm,
    Example,
    Comment,
    ApplicationNote,
    LegalSource,
    Source,
    Identifier,
    DerivedFrom,
}

/// The concept editor: the concept being edited, if any, and the text of
/// every field.
#[derive(Debug, Clone)]
pub struct ConceptEditorState {
    pub editing_id: Option<Id>,
    pub preferred_term: String,
    pub definition: String,
    pub belongs_to_domain: String,
    pub accepted_term: String,
    pub deprecated_term: String,
    pub example: String,
    pub comment: String,
    pub application_note: String,
    pub legal_source: String,
    pub source: String,
    pub identifier: String,
    pub derived_from: String,
    pub show_supplementary: bool,
    pub validation_error: Option<String>,
}

/// An optional field from its text: absent when blank, else the text
/// without surrounding white space.
pub open spec fn optional_field(s: Seq<char>) -> Option<Seq<char>> {
    if trimmed(s).len() == 0 { None } else { Some(trimmed(s)) }
}

/// The text shown for a domain membership in the editor.
pub open spec fn domain_text(d: DomainView) -> Seq<char> {
    match d {
        DomainView::Yes => "Ja"@,
        DomainView::No => "Nej"@,
        DomainView::ModelRef(u) => u,
    }
}

/// An optional text as a field's text: empty when absent.
pub open spec fn or_empty(o: Option<Seq<char>>) -> Seq<char> {
    match o {
        Some(t) => t,
        None => Seq::empty(),
    }
}

/// The concept the editor's fields describe, under an identifier.
pub open spec fn form_concept(s: ConceptEditorState, id: Id) -> ConceptView {
    ConceptView {
        id,
        preferred_term: s.preferred_term@,
        definition: s.definition@,
        belongs_to_domain: domain_of_text(s.belongs_to_domain@),
        accepted_term: optional_field(s.accepted_term@),
        deprecated_term: optional_field(s.deprecated_term@),
        example: optional_field(s.example@),
        comment: optional_field(s.comment@),
        application_note: optional_field(s.application_note@),
        legal_source: optional_field(s.legal_source@),
        source: optional_field(s.source@),
        identifier: optional_field(s.identifier@),
        derived_from: optional_field(s.derived_from@),
    }
}

/// Whether a form shows a concept for editing; the supplementary fields
/// are shown when any of them is set.
pub open spec fn form_for(f: ConceptEditorState, c: ConceptView) -> bool {
    &&& f.editing_id == Some(c.id)
    &&& f.preferred_term@ == c.preferred_term
    &&& f.definition@ == c.definition
    &&& f.belongs_to_domain@ == domain_text(c.belongs_to_domain)
    &&& f.accepted_term@ == or_empty(c.accepted_term)
    &&& f.deprecated_term@ == or_empty(c.deprecated_term)
    &&& f.example@ == or_empty(c.example)
    &&& f.comment@ == or_empty(c.comment)
    &&& f.application_note@ == or_empty(c.application_note)
    &&& f.legal_source@ == or_empty(c.legal_source)
    &&& f.source@ == or_empty(c.source)
    &&& f.identifier@ == or_empty(c.identifier)
    &&& f.derived_from@ == or_empty(c.derived_from)
    &&& f.show_supplementary == (c.accepted_term is Some || c.deprecated_term is Some || c.example is Some
        || c.comment is Some || c.application_note is Some || c.identifier is Some || c.derived_from is Some)
    &&& f.validation_error is None
}

fn optional_text(s: &str) -> (res: Option<String>)
    ensures
        opt_view(res) == optional_field(s@),
{
    let t = trim(s);
    if t.unicode_len() == 0 {
        None
    } else {
        Some(String::from_str(t))
    }
}

fn text_or_empty(o: Option<&str>) -> (res: String)
    ensures
        res@ == or_empty(crate::concepts::opt_str_view(o)),
{
    match o {
        Some(t) => String::from_str(t),
        None => String::new(),
    }
}

impl Default for ConceptEditorState {
    fn default() -> (res: Self)
        ensures
            res.editing_id is None,
            res.preferred_term@.len() == 0,
            res.definition@.len() == 0,
            !res.show_supplementary,
            res.validation_error is None,
    {
        ConceptEditorState::new_empty()
    }
}

impl ConceptEditorState {
    /// An empty form for a new concept.
    pub fn new_empty() -> (res: ConceptEditorState)
        ensures
            res.editing_id is None,
            res.preferred_term@.len() == 0,
            res.definition@.len() == 0,
            res.belongs_to_domain@.len() == 0,
            res.accepted_term@.len() == 0,
            res.deprecated_term@.len() == 0,
            res.example@.len() == 0,
            res.comment@.len() == 0,
            res.application_note@.len() == 0,
            res.legal_source@.len() == 0,
            res.source@.len() == 0,
            res.identifier@.len() == 0,
            res.derived_from@.len() == 0,
            !res.show_supplementary,
            res.validation_error is None,
    {
        ConceptEditorState {
            editing_id: None,
            preferred_term: String::new(),
            definition: String::new(),
            belongs_to_domain: String::new(),
            accepted_term: String::new(),
            deprecated_term: String::new(),
            example: String::new(),
            comment: String::new(),
            application_note: String::new(),
            legal_source: String::new(),
            source: String::new(),
            identifier: String::new(),
            derived_from: String::new(),
            show_supplementary: false,
            validation_error: None,
        }
    }

    /// The form filled from a concept; the supplementary fields are shown
    /// when any of them is set.
    pub fn from_concept(concept: &Concept) -> (res: ConceptEditorState)
        ensures
            form_for(res, concept@),
    {
        let belongs = match concept.belongs_to_domain() {
            BelongsToDomain::Yes => String::from_str("Ja"),
            BelongsToDomain::No => String::from_str("Nej"),
            BelongsToDomain::ModelRef(uri) => String::from_str(uri.as_str()),
        };
        let show = concept.accepted_term().is_some() || concept.deprecated_term().is_some()
            || concept.example().is_some() || concept.comment().is_some() || concept.application_note().is_some()
            || concept.identifier().is_some() || concept.derived_from().is_some();
        ConceptEditorState {
            editing_id: Some(concept.id()),
            preferred_term: String::from_str(concept.preferred_term()),
            definition: String::from_str(concept.definition()),
            belongs_to_domain: belongs,
            accepted_term: text_or_empty(concept.accepted_term()),
            deprecated_term: text_or_empty(concept.deprecated_term()),
            example: text_or_empty(concept.example()),
            comment: text_or_empty(concept.comment()),
            application_note: text_or_empty(concept.application_note()),
            legal_source: text_or_empty(concept.legal_source()),
            source: text_or_empty(concept.source()),
            identifier: text_or_empty(concept.identifier()),
            derived_from: text_or_empty(concept.derived_from()),
            show_supplementary: show,
            validation_error: None,
        }
    }

    /// Sets one field's text and clears the error shown.
    pub fn update_field(&mut self, field: ConceptFormField, value: String)
        ensures
            final(self).validation_error is None,
            final(self).editing_id == old(self).editing_id,
            final(self).show_supplementary == old(self).show_supplementary,
            final(self).preferred_term@ == if field == ConceptFormField::PreferredTerm { value@ } else { old(self).preferred_term@ },
            final(self).definition@ == if field == ConceptFormField::Definition { value@ } else { old(self).definition@ },
            final(self).belongs_to_domain@ == if field == ConceptFormField::BelongsToDomain { value@ } else { old(self).belongs_to_domain@ },
            final(self).accepted_term@ == if field == ConceptFormField::AcceptedTerm { value@ } else { old(self).accepted_term@ },
            final(self).deprecated_term@ == if field == ConceptFormField::DeprecatedTerm { value@ } else { old(self).deprecated_term@ },
            final(self).example@ == if field == ConceptFormField::Example { value@ } else { old(self).example@ },
            final(self).comment@ == if field == ConceptFormField::Comment { value@ } else { old(self).comment@ },
            final(self).application_note@ == if field == ConceptFormField::ApplicationNote { value@ } else { old(self).application_note@ },
            final(self).legal_source@ == if field == ConceptFormField::LegalSource { value@ } else { old(self).legal_source@ },
            final(self).source@ == if field == ConceptFormField::Source { value@ } else { old(self).source@ },
            final(self).identifier@ == if field == ConceptFormField::Identifier { value@ } else { old(self).identifier@ },
            final(self).derived_from@ == if field == ConceptFormField::DerivedFrom { value@ } else { old(self).derived_from@ },
    {
        self.validation_error = None;
        match field {
            ConceptFormField::PreferredTerm => self.preferred_term = value,
            ConceptFormField::Definition => self.definition = value,
            ConceptFormField::BelongsToDomain => self.belongs_to_domain = value,
            ConceptFormField::AcceptedTerm => self.accepted_term = value,
            ConceptFormField::DeprecatedTerm => self.deprecated_term = value,
            ConceptFormField::Example => self.example = value,
            ConceptFormField::Comment => self.comment = value,
            ConceptFormField::ApplicationNote => self.application_note = value,
            ConceptFormField::LegalSource => self.legal_source = value,
            ConceptFormField::Source => self.source = value,
            ConceptFormField::Identifier => self.identifier = value,
            ConceptFormField::DerivedFrom => self.derived_from = value,
        }
    }

    /// The concept the form describes, validated: the concept being edited
    /// keeps its identifier, a new one gets a fresh one; blank optional
    /// fields are left out and the others are trimmed.
    pub fn build_concept(&self) -> (res: Result<Concept, ValidationError>)
        ensures
            match res {
                Ok(c) => c@ == form_concept(*self, c@.id) && validation_of(c@) is None && (self.editing_id matches Some(
                    i,
                ) ==> c@.id == i),
                Err(e) => forall|i: Id| validation_of(#[trigger] form_concept(*self, i)) == Some(e@),
            },
    {
        let id = match self.editing_id {
            Some(i) => i,
            None => random_id(),
        };
        let mut concept = Concept::new_with_id(
            id,
            self.preferred_term.as_str(),
            self.definition.as_str(),
            BelongsToDomain::from_str_loose(self.belongs_to_domain.as_str()),
        );
        concept.set_accepted_term(optional_text(self.accepted_term.as_str()));
        concept.set_deprecated_term(optional_text(self.deprecated_term.as_str()));
        concept.set_example(optional_text(self.example.as_str()));
        concept.set_comment(optional_text(self.comment.as_str()));
        concept.set_application_note(optional_text(self.application_note.as_str()));
        concept.set_legal_source(optional_text(self.legal_source.as_str()));
        concept.set_source(optional_text(self.source.as_str()));
        concept.set_identifier(optional_text(self.identifier.as_str()));
        concept.set_derived_from(optional_text(self.derived_from.as_str()));
        assert(concept@ == form_concept(*self, id));
        match ConceptValidator::validate(&concept) {
            Ok(_) => Ok(concept),
            Err(e) => {
                assert forall|i: Id| validation_of(#[trigger] form_concept(*self, i)) == Some(e@) by {
                    assert(validation_of(form_concept(*self, i)) == validation_of(form_concept(*self, id)));
                }
                Err(e)
            },
        }
    }
}

/// The quick-create box opened at a point of the diagram.
#[derive(Debug)]
pub struct QuickCreateState {
    pub position: (i64, i64),
    pub preferred_term: String,
    pub definition: String,
    pub belongs_to_domain: BelongsToDomain,
    pub validation_error: Option<String>,
}

impl QuickCreateState {
    /// An empty box at a point, for a local concept.
    pub fn new(x: i64, y: i64) -> (res: QuickCreateState)
        ensures
            res.position == (x, y),
            res.preferred_term@.len() == 0,
            res.definition@.len() == 0,
            res.belongs_to_domain@ == DomainView::Yes,
            res.validation_error is None,
    {
        QuickCreateState {
            position: (x, y),
            preferred_term: String::new(),
            definition: String::new(),
            belongs_to_domain: BelongsToDomain::Yes,
            validation_error: None,
        }
    }

    /// A new concept from the box's trimmed term and definition, validated.
    pub fn build_concept(&self) -> (res: Result<Concept, ValidationError>)
        ensures
            match res {
                Ok(c) => c@ == crate::concepts::fresh_concept(
                    c@.id,
                    trimmed(self.preferred_term@),
                    trimmed(self.definition@),
                    self.belongs_to_domain@,
                ) && validation_of(c@) is None,
                Err(e) => forall|i: Id| validation_of(
                    #[trigger] crate::concepts::fresh_concept(
                        i,
                        trimmed(self.preferred_term@),
                        trimmed(self.definition@),
                        self.belongs_to_domain@,
                    ),
                ) == Some(e@),
            },
    {
        let concept = Concept::new(
            trim(self.preferred_term.as_str()),
            trim(self.definition.as_str()),
            self.belongs_to_domain.duplicate(),
        );
        match ConceptValidator::validate(&concept) {
            Ok(_) => Ok(concept),
            Err(e) => {
                let ghost id = concept@.id;
                assert forall|i: Id| validation_of(
                    #[trigger] crate::concepts::fresh_concept(
                        i,
                        trimmed(self.preferred_term@),
                        trimmed(self.definition@),
                        self.belongs_to_domain@,
                    ),
                ) == Some(e@) by {
                    assert(validation_of(crate::concepts::fresh_concept(
                        i,
                        trimmed(self.preferred_term@),
                        trimmed(self.definition@),
                        self.belongs_to_domain@,
                    )) == validation_of(crate::concepts::fresh_concept(
                        id,
                        trimmed(self.preferred_term@),
                        trimmed(self.definition@),
                        self.belongs_to_domain@,
                    )));
                }
                Err(e)
            },
        }
    }
}

} // verus!
