//! Concepts: the terms of a domain with their definitions, after the FDA
//! concept-modelling rules, and their validation.
use vstd::prelude::*;
use vstd::string::StrSliceExecFns;
use crate::ids::{random_id, Id};
use crate::network::{url_parse_path, url_path_of};
use crate::text::{eq_ignore_ascii_case, equals_ignore_ascii_case, trim, trimmed};

verus! {

/// Whether a concept belongs to the domain of the model.
#[derive(Debug, Clone, PartialEq, Eq)]
pub enum BelongsToDomain {
    /// A local concept.
    Yes,
    /// A borrowed concept.
    No,
    /// A concept owned by another model, named by its URI.
    ModelRef(String),
}

/// The meaning of a [`BelongsToDomain`].
pub enum DomainView {
    Yes,
    No,
    ModelRef(Seq<char>),
}

impl View for BelongsToDomain {
    type V = DomainView;

    open spec fn view(&self) -> DomainView {
        match self {
            BelongsToDomain::Yes => DomainView::Yes,
            BelongsToDomain::No => DomainView::No,
            BelongsToDomain::ModelRef(u) => DomainView::ModelRef(u@),
        }
    }
}

/// The label shown for a domain membership.
pub open spec fn domain_label(d: DomainView) -> Seq<char> {
    match d {
        DomainView::Yes => "Ja (Lokalt begreb)"@,
        DomainView::No => "Nej (Indlånt begreb)"@,
        DomainView::ModelRef(u) => "Model: "@ + u,
    }
}

/// How a free text is read as a domain membership: `ja`/`yes` and
/// `nej`/`no` in any ASCII case, any other non-blank text as the URI of the
/// owning model, and a blank text as a local concept.
pub open spec fn domain_of_text(s: Seq<char>) -> DomainView {
    let t = trimmed(s);
    if eq_ignore_ascii_case(t, "ja"@) || eq_ignore_ascii_case(t, "yes"@) {
        DomainView::Yes
    } else if eq_ignore_ascii_case(t, "nej"@) || eq_ignore_ascii_case(t, "no"@) {
        DomainView::No
    } else if t.len() > 0 {
        DomainView::ModelRef(t)
    } else {
        DomainView::Yes
    }
}

impl BelongsToDomain {
    /// The label shown for this membership.
    pub fn display_label(&self) -> (res: String)
        ensures
            res@ == domain_label(self@),
    {
        match self {
            BelongsToDomain::Yes => String::from_str("Ja (Lokalt begreb)"),
            BelongsToDomain::No => String::from_str("Nej (Indlånt begreb)"),
            BelongsToDomain::ModelRef(uri) => String::from_str("Model: ").concat(uri.as_str()),
        }
    }

    /// Whether the concept is local to the domain.
    pub fn is_local(&self) -> (res: bool)
        ensures
            res == (self@ is Yes),
    {
        match self {
            BelongsToDomain::Yes => true,
            _ => false,
        }
    }

    /// Reads a membership from free text, forgivingly.
    pub fn from_str_loose(s: &str) -> (res: BelongsToDomain)
        ensures
            res@ == domain_of_text(s@),
    {
        let t = trim(s);
        if equals_ignore_ascii_case(t, "ja") || equals_ignore_ascii_case(t, "yes") {
            BelongsToDomain::Yes
        } else if equals_ignore_ascii_case(t, "nej") || equals_ignore_ascii_case(t, "no") {
            BelongsToDomain::No
        } else if t.unicode_len() > 0 {
            BelongsToDomain::ModelRef(String::from_str(t))
        } else {
            BelongsToDomain::Yes
        }
    }
}

/// The view of an optional text.
pub open spec fn opt_view(o: Option<String>) -> Option<Seq<char>> {
    match o {
        Some(s) => Some(s@),
        None => None,
    }
}

/// Borrows an optional text.
pub fn opt_as_str(o: &Option<String>) -> (res: Option<&str>)
    ensures
        match (res, *o) {
            (Some(a), Some(b)) => a@ == b@,
            (None, None) => true,
            _ => false,
        },
{
    match o {
        Some(s) => Some(s.as_str()),
        None => None,
    }
}

/// A concept of the domain.
#[derive(Debug, Clone, PartialEq, Eq)]
pub struct Concept {
    id: Id,
    preferred_term: String,
    definition: String,
    belongs_to_domain: BelongsToDomain,
    accepted_term: Option<String>,
    deprecated_term: Option<String>,
    example: Option<String>,
    comment: Option<String>,
    application_note: Option<String>,
    legal_source: Option<String>,
    source: Option<String>,
    identifier: Option<String>,
    derived_from: Option<String>,
}

/// The meaning of a concept.
pub struct ConceptView {
    pub id: Id,
    pub preferred_term: Seq<char>,
    pub definition: Seq<char>,
    pub belongs_to_domain: DomainView,
    pub accepted_term: Option<Seq<char>>,
    pub deprecated_term: Option<Seq<char>>,
    pub example: Option<Seq<char>>,
    pub comment: Option<Seq<char>>,
    pub application_note: Option<Seq<char>>,
    pub legal_source: Option<Seq<char>>,
    pub source: Option<Seq<char>>,
    pub identifier: Option<Seq<char>>,
    pub derived_from: Option<Seq<char>>,
}

impl View for Concept {
    type V = ConceptView;

    closed spec fn view(&self) -> ConceptView {
        ConceptView {
            id: self.id,
            preferred_term: self.preferred_term@,
            definition: self.definition@,
            belongs_to_domain: self.belongs_to_domain@,
            accepted_term: opt_view(self.accepted_term),
            deprecated_term: opt_view(self.deprecated_term),
            example: opt_view(self.example),
            comment: opt_view(self.comment),
            application_note: opt_view(self.application_note),
            legal_source: opt_view(self.legal_source),
            source: opt_view(self.source),
            identifier: opt_view(self.identifier),
            derived_from: opt_view(self.derived_from),
        }
    }
}

fn copy_text(o: &Option<String>) -> (res: Option<String>)
    ensures
        opt_view(res) == opt_view(*o),
{
    match o {
        Some(t) => Some(t.clone()),
        None => None,
    }
}

impl BelongsToDomain {
    /// A copy with the same meaning.
    pub(crate) fn duplicate(&self) -> (res: BelongsToDomain)
        ensures
            res@ == self@,
    {
        match self {
            BelongsToDomain::Yes => BelongsToDomain::Yes,
            BelongsToDomain::No => BelongsToDomain::No,
            BelongsToDomain::ModelRef(u) => BelongsToDomain::ModelRef(u.clone()),
        }
    }
}

impl Concept {
    /// A copy with the same meaning.
    pub(crate) fn duplicate(&self) -> (res: Concept)
        ensures
            res@ == self@,
    {
        Concept {
            id: self.id,
            preferred_term: self.preferred_term.clone(),
            definition: self.definition.clone(),
            belongs_to_domain: self.belongs_to_domain.duplicate(),
            accepted_term: copy_text(&self.accepted_term),
            deprecated_term: copy_text(&self.deprecated_term),
            example: copy_text(&self.example),
            comment: copy_text(&self.comment),
            application_note: copy_text(&self.application_note),
            legal_source: copy_text(&self.legal_source),
            source: copy_text(&self.source),
            identifier: copy_text(&self.identifier),
            derived_from: copy_text(&self.derived_from),
        }
    }
}

/// A fresh concept: its three required fields, nothing else.
pub open spec fn fresh_concept(id: Id, term: Seq<char>, definition: Seq<char>, d: DomainView) -> ConceptView {
    ConceptView {
        id,
        preferred_term: term,
        definition,
        belongs_to_domain: d,
        accepted_term: None,
        deprecated_term: None,
        example: None,
        comment: None,
        application_note: None,
        legal_source: None,
        source: None,
        identifier: None,
        derived_from: None,
    }
}

impl Concept {
    /// A new concept with a fresh random identifier.
    pub fn new(preferred_term: &str, definition: &str, belongs_to_domain: BelongsToDomain) -> (res: Concept)
        ensures
            res@ == fresh_concept(res@.id, preferred_term@, definition@, belongs_to_domain@),
    {
        Self::new_with_id(random_id(), preferred_term, definition, belongs_to_domain)
    }

    /// A new concept with a given identifier.
    pub fn new_with_id(id: Id, preferred_term: &str, definition: &str, belongs_to_domain: BelongsToDomain) -> (res: Concept)
        ensures
            res@ == fresh_concept(id, preferred_term@, definition@, belongs_to_domain@),
    {
        Concept {
            id,
            preferred_term: String::from_str(preferred_term),
            definition: String::from_str(definition),
            belongs_to_domain,
            accepted_term: None,
            deprecated_term: None,
            example: None,
            comment: None,
            application_note: None,
            legal_source: None,
            source: None,
            identifier: None,
            derived_from: None,
        }
    }

    pub fn id(&self) -> (res: Id)
        ensures
            res == self@.id,
    {
        self.id
    }

    pub fn preferred_term(&self) -> (res: &str)
        ensures
            res@ == self@.preferred_term,
    {
        self.preferred_term.as_str()
    }

    pub fn set_preferred_term(&mut self, term: &str)
        ensures
            final(self)@ == (ConceptView { preferred_term: term@, ..old(self)@ }),
    {
        self.preferred_term = String::from_str(term);
    }

    pub fn definition(&self) -> (res: &str)
        ensures
            res@ == self@.definition,
    {
        self.definition.as_str()
    }

    pub fn set_definition(&mut self, definition: &str)
        ensures
            final(self)@ == (ConceptView { definition: definition@, ..old(self)@ }),
    {
        self.definition = String::from_str(definition);
    }

    pub fn belongs_to_domain(&self) -> (res: &BelongsToDomain)
        ensures
            res@ == self@.belongs_to_domain,
    {
        &self.belongs_to_domain
    }

    pub fn set_belongs_to_domain(&mut self, belongs: BelongsToDomain)
        ensures
            final(self)@ == (ConceptView { belongs_to_domain: belongs@, ..old(self)@ }),
    {
        self.belongs_to_domain = belongs;
    }

    pub fn accepted_term(&self) -> (res: Option<&str>)
        ensures
            opt_str_view(res) == self@.accepted_term,
    {
        opt_as_str(&self.accepted_term)
    }

    pub fn set_accepted_term(&mut self, term: Option<String>)
        ensures
            final(self)@ == (ConceptView { accepted_term: opt_view(term), ..old(self)@ }),
    {
        self.accepted_term = term;
    }

    pub fn deprecated_term(&self) -> (res: Option<&str>)
        ensures
            opt_str_view(res) == self@.deprecated_term,
    {
        opt_as_str(&self.deprecated_term)
    }

    pub fn set_deprecated_term(&mut self, term: Option<String>)
        ensures
            final(self)@ == (ConceptView { deprecated_term: opt_view(term), ..old(self)@ }),
    {
        self.deprecated_term = term;
    }

    pub fn example(&self) -> (res: Option<&str>)
        ensures
            opt_str_view(res) == self@.example,
    {
        opt_as_str(&self.example)
    }

    pub fn set_example(&mut self, example: Option<String>)
        ensures
            final(self)@ == (ConceptView { example: opt_view(example), ..old(self)@ }),
    {
        self.example = example;
    }

    pub fn comment(&self) -> (res: Option<&str>)
        ensures
            opt_str_view(res) == self@.comment,
    {
        opt_as_str(&self.comment)
    }

    pub fn set_comment(&mut self, comment: Option<String>)
        ensures
            final(self)@ == (ConceptView { comment: opt_view(comment), ..old(self)@ }),
    {
        self.comment = comment;
    }

    pub fn application_note(&self) -> (res: Option<&str>)
        ensures
            opt_str_view(res) == self@.application_note,
    {
        opt_as_str(&self.application_note)
    }

    pub fn set_application_note(&mut self, note: Option<String>)
        ensures
            final(self)@ == (ConceptView { application_note: opt_view(note), ..old(self)@ }),
    {
        self.application_note = note;
    }

    pub fn legal_source(&self) -> (res: Option<&str>)
        ensures
            opt_str_view(res) == self@.legal_source,
    {
        opt_as_str(&self.legal_source)
    }

    pub fn set_legal_source(&mut self, source: Option<String>)
        ensures
            final(self)@ == (ConceptView { legal_source: opt_view(source), ..old(self)@ }),
    {
        self.legal_source = source;
    }

    pub fn source(&self) -> (res: Option<&str>)
        ensures
            opt_str_view(res) == self@.source,
    {
        opt_as_str(&self.source)
    }

    pub fn set_source(&mut self, source: Option<String>)
        ensures
            final(self)@ == (ConceptView { source: opt_view(source), ..old(self)@ }),
    {
        self.source = source;
    }

    pub fn identifier(&self) -> (res: Option<&str>)
        ensures
            opt_str_view(res) == self@.identifier,
    {
        opt_as_str(&self.identifier)
    }

    pub fn set_identifier(&mut self, id: Option<String>)
        ensures
            final(self)@ == (ConceptView { identifier: opt_view(id), ..old(self)@ }),
    {
        self.identifier = id;
    }

    pub fn derived_from(&self) -> (res: Option<&str>)
        ensures
            opt_str_view(res) == self@.derived_from,
    {
        opt_as_str(&self.derived_from)
    }

    pub fn set_derived_from(&mut self, derived: Option<String>)
        ensures
            final(self)@ == (ConceptView { derived_from: opt_view(derived), ..old(self)@ }),
    {
        self.derived_from = derived;
    }
}

/// The view of an optional borrowed text.
pub open spec fn opt_str_view(o: Option<&str>) -> Option<Seq<char>> {
    match o {
        Some(s) => Some(s@),
        None => None,
    }
}

/// Why a concept is invalid.
#[derive(Debug, PartialEq, Eq)]
pub enum ValidationError {
    /// A required field is blank; the field's name.
    MissingRequiredField(&'static str),
    /// A URI field does not parse as a URI; its text.
    InvalidUri(String),
}

/// The kinds of invalidity, with their data as values.
pub enum ValidationView {
    MissingRequiredField(Seq<char>),
    InvalidUri(Seq<char>),
}

impl View for ValidationError {
    type V = ValidationView;

    open spec fn view(&self) -> ValidationView {
        match self {
            ValidationError::MissingRequiredField(f) => ValidationView::MissingRequiredField(f@),
            ValidationError::InvalidUri(u) => ValidationView::InvalidUri(u@),
        }
    }
}

/// The text shown for a validation error.
pub open spec fn validation_text(e: ValidationView) -> Seq<char> {
    match e {
        ValidationView::MissingRequiredField(f) => "Obligatorisk felt mangler: "@ + f,
        ValidationView::InvalidUri(u) => "Ugyldigt URI format: "@ + u,
    }
}

impl ValidationError {
    /// The text shown for this error.
    pub fn message(&self) -> (res: String)
        ensures
            res@ == validation_text(self@),
    {
        match self {
            ValidationError::MissingRequiredField(f) => String::from_str("Obligatorisk felt mangler: ").concat(f),
            ValidationError::InvalidUri(u) => String::from_str("Ugyldigt URI format: ").concat(u.as_str()),
        }
    }
}

/// An optional URI field is acceptable: absent, blank, or a URL that
/// parses.
pub open spec fn uri_field_ok(u: Option<Seq<char>>) -> bool {
    match u {
        None => true,
        Some(t) => trimmed(t).len() == 0 || url_parse_path(t) is Ok,
    }
}

/// What validating a concept gives, checking in order: preferred term,
/// definition, identifier, derived-from.
pub open spec fn validation_of(c: ConceptView) -> Option<ValidationView> {
    if trimmed(c.preferred_term).len() == 0 {
        Some(ValidationView::MissingRequiredField("Foretrukken dansk term"@))
    } else if trimmed(c.definition).len() == 0 {
        Some(ValidationView::MissingRequiredField("Definition"@))
    } else if !uri_field_ok(c.identifier) {
        Some(ValidationView::InvalidUri(c.identifier->Some_0))
    } else if !uri_field_ok(c.derived_from) {
        Some(ValidationView::InvalidUri(c.derived_from->Some_0))
    } else {
        None
    }
}

/// Checks an optional URI field.
fn check_uri_field(u: &Option<String>) -> (res: Result<(), ValidationError>)
    ensures
        match res {
            Ok(_) => uri_field_ok(opt_view(*u)),
            Err(e) => !uri_field_ok(opt_view(*u)) && e@ == ValidationView::InvalidUri(opt_view(*u)->Some_0),
        },
{
    match u {
        None => Ok(()),
        Some(t) => {
            if trim(t.as_str()).unicode_len() == 0 {
                Ok(())
            } else {
                match url_path_of(t.as_str()) {
                    Ok(_) => Ok(()),
                    Err(_) => Err(ValidationError::InvalidUri(t.clone())),
                }
            }
        },
    }
}

/// The validator of concepts.
pub struct ConceptValidator;

impl ConceptValidator {
    /// Validates a concept: the preferred term and the definition must not be
    /// blank, and the identifier and derived-from URIs, when given and not
    /// blank, must parse.
    pub fn validate(concept: &Concept) -> (res: Result<(), ValidationError>)
        ensures
            match (res, validation_of(concept@)) {
                (Ok(_), None) => true,
                (Err(e), Some(v)) => e@ == v,
                _ => false,
            },
    {
        if trim(concept.preferred_term.as_str()).unicode_len() == 0 {
            return Err(ValidationError::MissingRequiredField("Foretrukken dansk term"));
        }
        if trim(concept.definition.as_str()).unicode_len() == 0 {
            return Err(ValidationError::MissingRequiredField("Definition"));
        }
        check_uri_field(&concept.identifier)?;
        check_uri_field(&concept.derived_from)?;
        Ok(())
    }
}

} // verus!
