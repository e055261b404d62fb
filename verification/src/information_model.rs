//! The information model: classes with typed attributes, each traceable to
//! the concepts it realises.
use vstd::prelude::*;
use vstd::string::StrSliceExecFns;
use crate::concepts::{opt_view, Concept};
use crate::ids::{random_id, Id};
use crate::seqs::{add_unique, first_where, lemma_first_where, lemma_first_where_none, push_unique, remove_all, without};
use crate::text::{decimal, remove_all_occurrences, removed_all, str_equal, to_decimal};

verus! {

/// The primitive data types of attributes.
#[derive(Debug, Clone, Copy, PartialEq, Eq, Structural)]
pub enum PrimitiveType {
    CharacterString,
    Integer,
    Decimal,
    Boolean,
    Date,
    DateTime,
    Time,
    Uri,
}

/// The name of a primitive type.
pub open spec fn primitive_name(t: PrimitiveType) -> Seq<char> {
    match t {
        PrimitiveType::CharacterString => "CharacterString"@,
        PrimitiveType::Integer => "Integer"@,
        PrimitiveType::Decimal => "Decimal"@,
        PrimitiveType::Boolean => "Boolean"@,
        PrimitiveType::Date => "Date"@,
        PrimitiveType::DateTime => "DateTime"@,
        PrimitiveType::Time => "Time"@,
        PrimitiveType::Uri => "URI"@,
    }
}

impl PrimitiveType {
    /// Every primitive type, in the order offered for selection.
    pub fn all() -> (res: Vec<PrimitiveType>)
        ensures
            res@ == seq![
                PrimitiveType::CharacterString,
                PrimitiveType::Integer,
                PrimitiveType::Decimal,
                PrimitiveType::Boolean,
                PrimitiveType::Date,
                PrimitiveType::DateTime,
                PrimitiveType::Time,
                PrimitiveType::Uri,
            ],
    {
        let v = vec![
            PrimitiveType::CharacterString,
            PrimitiveType::Integer,
            PrimitiveType::Decimal,
            PrimitiveType::Boolean,
            PrimitiveType::Date,
            PrimitiveType::DateTime,
            PrimitiveType::Time,
            PrimitiveType::Uri,
        ];
        assert(v@ =~= seq![
            PrimitiveType::CharacterString,
            PrimitiveType::Integer,
            PrimitiveType::Decimal,
            PrimitiveType::Boolean,
            PrimitiveType::Date,
            PrimitiveType::DateTime,
            PrimitiveType::Time,
            PrimitiveType::Uri,
        ]);
        v
    }

    /// The name of the type.
    pub fn as_str(&self) -> (res: &'static str)
        ensures
            res@ == primitive_name(*self),
    {
        match self {
            PrimitiveType::CharacterString => "CharacterString",
            PrimitiveType::Integer => "Integer",
            PrimitiveType::Decimal => "Decimal",
            PrimitiveType::Boolean => "Boolean",
            PrimitiveType::Date => "Date",
            PrimitiveType::DateTime => "DateTime",
            PrimitiveType::Time => "Time",
            PrimitiveType::Uri => "URI",
        }
    }
}

/// How many values an attribute or an association end holds: a lower bound
/// and an upper bound, or none for "many".
#[derive(Debug, Clone, Copy, PartialEq, Eq, Structural)]
pub struct Multiplicity {
    lower: u32,
    upper: Option<u32>,
}

/// The UML text of a multiplicity: `n` for exactly n, `l..u`, or `l..*`.
pub open spec fn multiplicity_text(lower: u32, upper: Option<u32>) -> Seq<char> {
    match upper {
        Some(u) => if lower == u {
            decimal(lower as nat)
        } else {
            decimal(lower as nat) + ".."@ + decimal(u as nat)
        },
        None => decimal(lower as nat) + "..*"@,
    }
}

impl Multiplicity {
    /// The four multiplicities offered for selection: `1`, `0..1`, `0..*`
    /// and `1..*`.
    pub fn presets() -> (res: Vec<Multiplicity>)
        ensures
            res@.len() == 4,
            res@[0].lo() == 1 && res@[0].hi() == Some(1u32),
            res@[1].lo() == 0 && res@[1].hi() == Some(1u32),
            res@[2].lo() == 0 && res@[2].hi() == None::<u32>,
            res@[3].lo() == 1 && res@[3].hi() == None::<u32>,
    {
        vec![
            Multiplicity { lower: 1, upper: Some(1) },
            Multiplicity { lower: 0, upper: Some(1) },
            Multiplicity { lower: 0, upper: None },
            Multiplicity { lower: 1, upper: None },
        ]
    }

    /// The lower bound.
    pub closed spec fn lo(&self) -> u32 {
        self.lower
    }

    /// The upper bound, none for "many".
    pub closed spec fn hi(&self) -> Option<u32> {
        self.upper
    }

    pub fn new(lower: u32, upper: Option<u32>) -> (res: Multiplicity)
        ensures
            res.lo() == lower,
            res.hi() == upper,
    {
        Multiplicity { lower, upper }
    }

    /// `1`
    pub fn exactly_one() -> (res: Multiplicity)
        ensures
            res.lo() == 1,
            res.hi() == Some(1u32),
    {
        Self::new(1, Some(1))
    }

    /// `0..1`
    pub fn zero_or_one() -> (res: Multiplicity)
        ensures
            res.lo() == 0,
            res.hi() == Some(1u32),
    {
        Self::new(0, Some(1))
    }

    /// `0..*`
    pub fn zero_or_more() -> (res: Multiplicity)
        ensures
            res.lo() == 0,
            res.hi() == None::<u32>,
    {
        Self::new(0, None)
    }

    /// `1..*`
    pub fn one_or_more() -> (res: Multiplicity)
        ensures
            res.lo() == 1,
            res.hi() == None::<u32>,
    {
        Self::new(1, None)
    }

    pub fn lower(&self) -> (res: u32)
        ensures
            res == self.lo(),
    {
        self.lower
    }

    pub fn upper(&self) -> (res: Option<u32>)
        ensures
            res == self.hi(),
    {
        self.upper
    }

    /// The UML text of the multiplicity.
    pub fn to_display_string(&self) -> (res: String)
        ensures
            res@ == multiplicity_text(self.lo(), self.hi()),
    {
        match self.upper {
            Some(u) => {
                if self.lower == u {
                    to_decimal(self.lower as u64)
                } else {
                    to_decimal(self.lower as u64).concat("..").concat(to_decimal(u as u64).as_str())
                }
            },
            None => to_decimal(self.lower as u64).concat("..*"),
        }
    }
}

/// A name starts with an ASCII lower-case letter, as attribute names in
/// lowerCamelCase do.
pub open spec fn starts_lower_camel(s: Seq<char>) -> bool {
    s.len() > 0 && 'a' <= s[0] <= 'z'
}

/// Whether a name starts with an ASCII lower-case letter.
pub fn is_lower_camel_case(s: &str) -> (res: bool)
    ensures
        res == starts_lower_camel(s@),
{
    if s.unicode_len() == 0 {
        false
    } else {
        let c = s.get_char(0);
        'a' <= c && c <= 'z'
    }
}

fn copy_ids(v: &Vec<Id>) -> (res: Vec<Id>)
    ensures
        res@ == v@,
{
    let mut out: Vec<Id> = Vec::new();
    let mut i: usize = 0;
    while i < v.len()
        invariant
            i <= v@.len(),
            out@ == v@.take(i as int),
        decreases v@.len() - i,
    {
        out.push(v[i]);
        proof {
            assert(v@.take(i + 1) =~= v@.take(i as int).push(v@[i as int]));
        }
        i += 1;
    }
    proof {
        assert(v@.take(v@.len() as int) =~= v@);
    }
    out
}

/// The meaning of an attribute.
pub struct AttributeView {
    pub id: Id,
    pub name: Seq<char>,
    pub data_type: PrimitiveType,
    pub multiplicity: Multiplicity,
    pub concept_ids: Seq<Id>,
}

/// An attribute of a class.
#[derive(Debug, Clone, PartialEq, Eq)]
pub struct Attribute {
    id: Id,
    name: String,
    data_type: PrimitiveType,
    multiplicity: Multiplicity,
    concept_ids: Vec<Id>,
}

impl View for Attribute {
    type V = AttributeView;

    closed spec fn view(&self) -> AttributeView {
        AttributeView {
            id: self.id,
            name: self.name@,
            data_type: self.data_type,
            multiplicity: self.multiplicity,
            concept_ids: self.concept_ids@,
        }
    }
}

impl Attribute {
    /// A new attribute with a fresh identifier and no concepts.
    pub fn new(name: &str, data_type: PrimitiveType, multiplicity: Multiplicity) -> (res: Attribute)
        ensures
            res@.name == name@,
            res@.data_type == data_type,
            res@.multiplicity == multiplicity,
            res@.concept_ids == Seq::<Id>::empty(),
    {
        Self::with_id(random_id(), name, data_type, multiplicity)
    }

    /// A new attribute with a given identifier and no concepts.
    pub fn with_id(id: Id, name: &str, data_type: PrimitiveType, multiplicity: Multiplicity) -> (res: Attribute)
        ensures
            res@ == (AttributeView { id, name: name@, data_type, multiplicity, concept_ids: Seq::empty() }),
    {
        Attribute { id, name: String::from_str(name), data_type, multiplicity, concept_ids: Vec::new() }
    }

    /// A copy with the same meaning.
    pub(crate) fn duplicate(&self) -> (res: Attribute)
        ensures
            res@ == self@,
    {
        Attribute {
            id: self.id,
            name: self.name.clone(),
            data_type: self.data_type,
            multiplicity: self.multiplicity,
            concept_ids: copy_ids(&self.concept_ids),
        }
    }

    /// The attribute with the given concepts instead of its own.
    pub fn with_concepts(self, ids: Vec<Id>) -> (res: Attribute)
        ensures
            res@ == (AttributeView { concept_ids: ids@, ..self@ }),
    {
        let mut a = self;
        a.concept_ids = ids;
        a
    }

    pub fn id(&self) -> (res: Id)
        ensures
            res == self@.id,
    {
        self.id
    }

    pub fn name(&self) -> (res: &str)
        ensures
            res@ == self@.name,
    {
        self.name.as_str()
    }

    pub fn set_name(&mut self, name: &str)
        ensures
            final(self)@ == (AttributeView { name: name@, ..old(self)@ }),
    {
        self.name = String::from_str(name);
    }

    pub fn data_type(&self) -> (res: PrimitiveType)
        ensures
            res == self@.data_type,
    {
        self.data_type
    }

    pub fn set_data_type(&mut self, data_type: PrimitiveType)
        ensures
            final(self)@ == (AttributeView { data_type, ..old(self)@ }),
    {
        self.data_type = data_type;
    }

    pub fn multiplicity(&self) -> (res: Multiplicity)
        ensures
            res == self@.multiplicity,
    {
        self.multiplicity
    }

    pub fn set_multiplicity(&mut self, multiplicity: Multiplicity)
        ensures
            final(self)@ == (AttributeView { multiplicity, ..old(self)@ }),
    {
        self.multiplicity = multiplicity;
    }

    pub fn concept_ids(&self) -> (res: &[Id])
        ensures
            res@ == self@.concept_ids,
    {
        self.concept_ids.as_slice()
    }

    /// Links a concept, unless it is linked already.
    pub fn add_concept_id(&mut self, id: Id)
        ensures
            final(self)@ == (AttributeView { concept_ids: add_unique(old(self)@.concept_ids, id), ..old(self)@ }),
    {
        push_unique(&mut self.concept_ids, id);
    }

    /// Unlinks a concept.
    pub fn remove_concept_id(&mut self, id: Id)
        ensures
            final(self)@ == (AttributeView { concept_ids: without(old(self)@.concept_ids, id), ..old(self)@ }),
    {
        remove_all(&mut self.concept_ids, id);
    }

    pub fn set_concept_ids(&mut self, ids: Vec<Id>)
        ensures
            final(self)@ == (AttributeView { concept_ids: ids@, ..old(self)@ }),
    {
        self.concept_ids = ids;
    }

    pub fn clear_concept_ids(&mut self)
        ensures
            final(self)@ == (AttributeView { concept_ids: Seq::empty(), ..old(self)@ }),
    {
        self.concept_ids = Vec::new();
    }
}

/// The meaning of a class.
pub struct ClassView {
    pub id: Id,
    pub name: Seq<char>,
    pub description: Option<Seq<char>>,
    pub concept_ids: Seq<Id>,
    pub attributes: Seq<AttributeView>,
}

/// The views of a list of attributes.
pub open spec fn attributes_view(v: Seq<Attribute>) -> Seq<AttributeView> {
    v.map_values(|a: Attribute| a@)
}

/// A change to one attribute of a class.
#[derive(Debug, Clone, PartialEq, Eq)]
pub enum AttributeEdit {
    /// A new name.
    Name(String),
    /// A new data type.
    DataType(PrimitiveType),
    /// A new multiplicity.
    Multiplicity(Multiplicity),
    /// Links a concept.
    AddConcept(Id),
    /// Unlinks a concept.
    RemoveConcept(Id),
    /// Links exactly the concept given, or none.
    SetConcept(Option<Id>),
}

/// The name a placeholder name gives way to: typing into the placeholder
/// takes the placeholder out of the text typed; any other name is taken
/// as typed.
pub open spec fn name_replacing(current: Seq<char>, placeholder: Seq<char>, typed: Seq<char>) -> Seq<char> {
    if current == placeholder && typed != placeholder {
        removed_all(typed, placeholder)
    } else {
        typed
    }
}

/// The placeholder name of a new attribute.
pub open spec fn attribute_placeholder() -> Seq<char> {
    "nyAttribut"@
}

/// The placeholder name of a new class.
pub open spec fn class_placeholder() -> Seq<char> {
    "NyKlasse"@
}

/// An attribute after a change.
pub open spec fn attribute_edited(a: AttributeView, e: AttributeEdit) -> AttributeView {
    match e {
        AttributeEdit::Name(n) => AttributeView { name: name_replacing(a.name, attribute_placeholder(), n@), ..a },
        AttributeEdit::DataType(t) => AttributeView { data_type: t, ..a },
        AttributeEdit::Multiplicity(m) => AttributeView { multiplicity: m, ..a },
        AttributeEdit::AddConcept(id) => AttributeView { concept_ids: add_unique(a.concept_ids, id), ..a },
        AttributeEdit::RemoveConcept(id) => AttributeView { concept_ids: without(a.concept_ids, id), ..a },
        AttributeEdit::SetConcept(o) => AttributeView {
            concept_ids: match o {
                Some(id) => seq![id],
                None => Seq::empty(),
            },
            ..a
        },
    }
}

/// Whether an attribute has the identifier.
pub open spec fn attribute_id_is(id: Id) -> spec_fn(AttributeView) -> bool {
    |a: AttributeView| a.id == id
}

/// The name typed into a text field that holds a placeholder name.
pub fn replace_placeholder(current: &str, placeholder: &str, typed: &str) -> (res: String)
    requires
        placeholder@.len() > 0,
    ensures
        res@ == name_replacing(current@, placeholder@, typed@),
{
    if str_equal(current, placeholder) && !str_equal(typed, placeholder) {
        remove_all_occurrences(typed, placeholder)
    } else {
        String::from_str(typed)
    }
}

/// A class of the information model.
#[derive(Debug, Clone, PartialEq, Eq)]
pub struct InformationClass {
    id: Id,
    name: String,
    description: Option<String>,
    concept_ids: Vec<Id>,
    attributes: Vec<Attribute>,
}

impl View for InformationClass {
    type V = ClassView;

    closed spec fn view(&self) -> ClassView {
        ClassView {
            id: self.id,
            name: self.name@,
            description: opt_view(self.description),
            concept_ids: self.concept_ids@,
            attributes: attributes_view(self.attributes@),
        }
    }
}

impl InformationClass {
    /// A new, empty class with a fresh identifier.
    pub fn new(name: &str) -> (res: InformationClass)
        ensures
            res@ == (ClassView {
                id: res@.id,
                name: name@,
                description: None,
                concept_ids: Seq::empty(),
                attributes: Seq::empty(),
            }),
    {
        let res = InformationClass {
            id: random_id(),
            name: String::from_str(name),
            description: None,
            concept_ids: Vec::new(),
            attributes: Vec::new(),
        };
        assert(res@.attributes =~= Seq::<AttributeView>::empty());
        res
    }

    /// A class as it was stored.
    pub fn restore(
        id: Id,
        name: &str,
        description: Option<String>,
        concept_ids: Vec<Id>,
        attributes: Vec<Attribute>,
    ) -> (res: InformationClass)
        ensures
            res@ == (ClassView {
                id,
                name: name@,
                description: opt_view(description),
                concept_ids: concept_ids@,
                attributes: attributes_view(attributes@),
            }),
    {
        InformationClass { id, name: String::from_str(name), description, concept_ids, attributes }
    }

    /// A copy with the same meaning.
    pub(crate) fn duplicate(&self) -> (res: InformationClass)
        ensures
            res@ == self@,
    {
        let mut attributes: Vec<Attribute> = Vec::new();
        let mut i: usize = 0;
        while i < self.attributes.len()
            invariant
                i <= self.attributes@.len(),
                attributes_view(attributes@) == attributes_view(self.attributes@.take(i as int)),
            decreases self.attributes@.len() - i,
        {
            let ghost prev = attributes@;
            attributes.push(self.attributes[i].duplicate());
            proof {
                let t = self.attributes@.take(i as int);
                assert(self.attributes@.take(i + 1) =~= t.push(self.attributes@[i as int]));
                assert(attributes_view(attributes@) =~= attributes_view(prev).push(self.attributes@[i as int]@));
                assert(attributes_view(t.push(self.attributes@[i as int])) =~= attributes_view(t).push(
                    self.attributes@[i as int]@,
                ));
            }
            i += 1;
        }
        proof {
            assert(self.attributes@.take(self.attributes@.len() as int) =~= self.attributes@);
        }
        let description = match &self.description {
            Some(d) => Some(d.clone()),
            None => None,
        };
        InformationClass {
            id: self.id,
            name: self.name.clone(),
            description,
            concept_ids: copy_ids(&self.concept_ids),
            attributes,
        }
    }

    /// A class that realises a concept: named by its preferred term,
    /// described by its definition (when not empty), linked to it.
    pub fn from_concept(concept: &Concept) -> (res: InformationClass)
        ensures
            res@ == (ClassView {
                id: res@.id,
                name: concept@.preferred_term,
                description: if concept@.definition.len() == 0 {
                    None
                } else {
                    Some(concept@.definition)
                },
                concept_ids: seq![concept@.id],
                attributes: Seq::empty(),
            }),
    {
        let mut ids: Vec<Id> = Vec::new();
        ids.push(concept.id());
        let d = concept.definition();
        let res = InformationClass {
            id: random_id(),
            name: String::from_str(concept.preferred_term()),
            description: if d.unicode_len() == 0 { None } else { Some(String::from_str(d)) },
            concept_ids: ids,
            attributes: Vec::new(),
        };
        assert(res@.attributes =~= Seq::<AttributeView>::empty());
        res
    }

    pub fn id(&self) -> (res: Id)
        ensures
            res == self@.id,
    {
        self.id
    }

    pub fn name(&self) -> (res: &str)
        ensures
            res@ == self@.name,
    {
        self.name.as_str()
    }

    pub fn set_name(&mut self, name: &str)
        ensures
            final(self)@ == (ClassView { name: name@, ..old(self)@ }),
    {
        self.name = String::from_str(name);
    }

    pub fn description(&self) -> (res: Option<&str>)
        ensures
            crate::concepts::opt_str_view(res) == self@.description,
    {
        crate::concepts::opt_as_str(&self.description)
    }

    pub fn set_description(&mut self, desc: Option<String>)
        ensures
            final(self)@ == (ClassView { description: opt_view(desc), ..old(self)@ }),
    {
        self.description = desc;
    }

    pub fn concept_ids(&self) -> (res: &[Id])
        ensures
            res@ == self@.concept_ids,
    {
        self.concept_ids.as_slice()
    }

    /// Links a concept, unless it is linked already.
    pub fn add_concept_id(&mut self, id: Id)
        ensures
            final(self)@ == (ClassView { concept_ids: add_unique(old(self)@.concept_ids, id), ..old(self)@ }),
    {
        push_unique(&mut self.concept_ids, id);
    }

    /// Unlinks a concept.
    pub fn remove_concept_id(&mut self, id: Id)
        ensures
            final(self)@ == (ClassView { concept_ids: without(old(self)@.concept_ids, id), ..old(self)@ }),
    {
        remove_all(&mut self.concept_ids, id);
    }

    pub fn attributes(&self) -> (res: &[Attribute])
        ensures
            attributes_view(res@) == self@.attributes,
    {
        self.attributes.as_slice()
    }

    /// The attributes, to be changed in place.
    pub fn attributes_mut(&mut self) -> (res: &mut Vec<Attribute>)
        ensures
            attributes_view(res@) == old(self)@.attributes,
            final(self)@ == (ClassView { attributes: attributes_view(final(res)@), ..old(self)@ }),
    {
        &mut self.attributes
    }

    /// Changes the first attribute with the identifier; returns whether
    /// there was one.
    pub fn edit_attribute(&mut self, attr_id: Id, edit: AttributeEdit) -> (res: bool)
        ensures
            ({
                let k = first_where(old(self)@.attributes, attribute_id_is(attr_id));
                &&& res == (k >= 0)
                &&& final(self)@ == if k >= 0 {
                    ClassView {
                        attributes: old(self)@.attributes.update(k, attribute_edited(old(self)@.attributes[k], edit)),
                        ..old(self)@
                    }
                } else {
                    old(self)@
                }
            }),
    {
        let ghost p = attribute_id_is(attr_id);
        let mut i: usize = 0;
        while i < self.attributes.len()
            invariant
                self@ == old(self)@,
                i <= self.attributes@.len(),
                p == attribute_id_is(attr_id),
                forall|j: int| 0 <= j < i ==> !p(#[trigger] self@.attributes[j]),
            decreases self.attributes@.len() - i,
        {
            if self.attributes[i].id() == attr_id {
                proof {
                    assert(self@.attributes[i as int] == self.attributes@[i as int]@);
                    lemma_first_where(self@.attributes, p, i as int);
                }
                let ghost before = self.attributes@;
                let a = &mut self.attributes[i];
                match edit {
                    AttributeEdit::Name(n) => {
                        proof {
                            reveal_strlit("nyAttribut");
                        }
                        let name = replace_placeholder(a.name(), "nyAttribut", n.as_str());
                        a.set_name(name.as_str());
                    },
                    AttributeEdit::DataType(t) => a.set_data_type(t),
                    AttributeEdit::Multiplicity(m) => a.set_multiplicity(m),
                    AttributeEdit::AddConcept(id) => a.add_concept_id(id),
                    AttributeEdit::RemoveConcept(id) => a.remove_concept_id(id),
                    AttributeEdit::SetConcept(o) => match o {
                        Some(id) => {
                            let mut ids: Vec<Id> = Vec::new();
                            ids.push(id);
                            a.set_concept_ids(ids);
                        },
                        None => a.clear_concept_ids(),
                    },
                }
                proof {
                    assert(attributes_view(self.attributes@) =~= attributes_view(before).update(
                        i as int,
                        self.attributes@[i as int]@,
                    ));
                }
                return true;
            }
            proof {
                assert(self@.attributes[i as int] == self.attributes@[i as int]@);
            }
            i += 1;
        }
        proof {
            lemma_first_where_none(self@.attributes, p);
        }
        false
    }

    /// Appends an attribute.
    pub fn add_attribute(&mut self, attribute: Attribute)
        ensures
            final(self)@ == (ClassView { attributes: old(self)@.attributes.push(attribute@), ..old(self)@ }),
    {
        let ghost a = attribute@;
        self.attributes.push(attribute);
        assert(attributes_view(self.attributes@) =~= old(self)@.attributes.push(a));
    }

    /// Removes the first attribute with the given identifier and hands it
    /// back, or returns none when there is none.
    pub fn remove_attribute(&mut self, attr_id: Id) -> (res: Option<Attribute>)
        ensures
            match res {
                Some(a) => exists|i: int|
                    0 <= i < old(self)@.attributes.len() && old(self)@.attributes[i].id == attr_id
                        && (forall|j: int| 0 <= j < i ==> old(self)@.attributes[j].id != attr_id)
                        && a@ == old(self)@.attributes[i]
                        && final(self)@ == (ClassView { attributes: old(self)@.attributes.remove(i), ..old(self)@ }),
                None => (forall|j: int| 0 <= j < old(self)@.attributes.len() ==> old(self)@.attributes[j].id != attr_id)
                    && final(self)@ == old(self)@,
            },
    {
        let mut i: usize = 0;
        while i < self.attributes.len()
            invariant
                i <= self.attributes@.len(),
                self@ == old(self)@,
                forall|j: int| 0 <= j < i ==> self@.attributes[j].id != attr_id,
            decreases self.attributes@.len() - i,
        {
            if self.attributes[i].id() == attr_id {
                let ghost before = self@;
                let a = self.attributes.remove(i);
                assert(attributes_view(self.attributes@) =~= before.attributes.remove(i as int));
                assert(old(self)@.attributes[i as int].id == attr_id && a@ == old(self)@.attributes[i as int]);
                return Some(a);
            }
            i += 1;
        }
        None
    }
}

/// The information model: its classes in order.
#[derive(Debug, Clone, PartialEq, Eq)]
pub struct InformationModel {
    classes: Vec<InformationClass>,
}

/// The views of a list of classes.
pub open spec fn classes_view(v: Seq<InformationClass>) -> Seq<ClassView> {
    v.map_values(|c: InformationClass| c@)
}

impl View for InformationModel {
    type V = Seq<ClassView>;

    closed spec fn view(&self) -> Seq<ClassView> {
        classes_view(self.classes@)
    }
}

/// Whether an attribute is linked to the concept.
pub open spec fn links_concept(concept_id: Id) -> spec_fn(AttributeView) -> bool {
    |a: AttributeView| a.concept_ids.contains(concept_id)
}

/// The attributes of the classes linked to a concept, each with its class,
/// class by class in order.
pub open spec fn attribute_links(classes: Seq<ClassView>, concept_id: Id) -> Seq<(ClassView, AttributeView)>
    decreases classes.len(),
{
    if classes.len() == 0 {
        Seq::empty()
    } else {
        let c = classes.last();
        attribute_links(classes.drop_last(), concept_id) + c.attributes.filter(links_concept(concept_id)).map_values(
            |a: AttributeView| (c, a),
        )
    }
}

/// Whether a class has that identifier.
pub open spec fn class_id_is(id: Id) -> spec_fn(ClassView) -> bool {
    |c: ClassView| c.id == id
}

/// A class view without any link to a concept, in itself or its
/// attributes.
pub open spec fn class_without_concept(c: ClassView, concept_id: Id) -> ClassView {
    ClassView {
        concept_ids: without(c.concept_ids, concept_id),
        attributes: c.attributes.map_values(
            |a: AttributeView| AttributeView { concept_ids: without(a.concept_ids, concept_id), ..a },
        ),
        ..c
    }
}

impl InformationModel {
    /// An empty model.
    pub fn new() -> (res: InformationModel)
        ensures
            res@ == Seq::<ClassView>::empty(),
    {
        InformationModel { classes: Vec::new() }
    }

    pub fn classes(&self) -> (res: &[InformationClass])
        ensures
            classes_view(res@) == self@,
    {
        self.classes.as_slice()
    }

    /// The classes, to be changed in place.
    pub fn classes_mut(&mut self) -> (res: &mut Vec<InformationClass>)
        ensures
            classes_view(res@) == old(self)@,
            final(self)@ == classes_view(final(res)@),
    {
        &mut self.classes
    }

    /// The first class with the given identifier.
    pub fn get_class(&self, id: Id) -> (res: Option<&InformationClass>)
        ensures
            match res {
                Some(c) => exists|i: int|
                    0 <= i < self@.len() && self@[i].id == id && c@ == self@[i]
                        && forall|j: int| 0 <= j < i ==> self@[j].id != id,
                None => forall|j: int| 0 <= j < self@.len() ==> self@[j].id != id,
            },
    {
        let mut i: usize = 0;
        while i < self.classes.len()
            invariant
                i <= self.classes@.len(),
                forall|j: int| 0 <= j < i ==> self@[j].id != id,
            decreases self.classes@.len() - i,
        {
            if self.classes[i].id() == id {
                assert(self@[i as int].id == id && self.classes@[i as int]@ == self@[i as int]);
                return Some(&self.classes[i]);
            }
            i += 1;
        }
        None
    }

    /// The first class with the given identifier, to be changed in place.
    pub fn get_class_mut(&mut self, id: Id) -> (res: Option<&mut InformationClass>)
        ensures
            match res {
                Some(c) => exists|i: int|
                    0 <= i < old(self)@.len() && old(self)@[i].id == id && c@ == old(self)@[i]
                        && (forall|j: int| 0 <= j < i ==> old(self)@[j].id != id)
                        && final(self)@ == old(self)@.update(i, final(c)@),
                None => (forall|j: int| 0 <= j < old(self)@.len() ==> old(self)@[j].id != id)
                    && final(self)@ == old(self)@,
            },
    {
        let mut i: usize = 0;
        while i < self.classes.len()
            invariant
                i <= self.classes@.len(),
                self@ == old(self)@,
                forall|j: int| 0 <= j < i ==> self@[j].id != id,
            decreases self.classes@.len() - i,
        {
            if self.classes[i].id() == id {
                assert(self@[i as int].id == id && self.classes@[i as int]@ == self@[i as int]);
                return Some(&mut self.classes[i]);
            }
            i += 1;
        }
        None
    }

    /// Replaces the first class with the same identifier; returns whether
    /// there was one.
    pub fn replace_class(&mut self, class: InformationClass) -> (res: bool)
        ensures
            res == (first_where(old(self)@, class_id_is(class@.id)) >= 0),
            final(self)@ == (if res {
                old(self)@.update(first_where(old(self)@, class_id_is(class@.id)), class@)
            } else {
                old(self)@
            }),
    {
        let ghost p = class_id_is(class@.id);
        let ghost before = self@;
        let id = class.id();
        let mut i: usize = 0;
        while i < self.classes.len()
            invariant
                p == class_id_is(id),
                id == class@.id,
                self@ == before,
                before == old(self)@,
                i <= self.classes@.len(),
                forall|j: int| 0 <= j < i ==> !p(#[trigger] self@[j]),
            decreases self.classes@.len() - i,
        {
            assert(self@[i as int] == self.classes@[i as int]@);
            if self.classes[i].id() == id {
                proof {
                    assert(before[i as int].id == id);
                    assert(p(before[i as int]));
                    lemma_first_where(before, p, i as int);
                }
                let ghost c = class@;
                self.classes.set(i, class);
                assert(self@ =~= before.update(i as int, c));
                return true;
            }
            i += 1;
        }
        proof {
            lemma_first_where_none(before, p);
        }
        false
    }

    /// Appends a class and returns its identifier.
    pub fn add_class(&mut self, class: InformationClass) -> (res: Id)
        ensures
            res == class@.id,
            final(self)@ == old(self)@.push(class@),
    {
        let id = class.id();
        let ghost c = class@;
        self.classes.push(class);
        assert(classes_view(self.classes@) =~= old(self)@.push(c));
        id
    }

    /// Appends a class that realises a concept and returns its identifier.
    pub fn create_class_from_concept(&mut self, concept: &Concept) -> (res: Id)
        ensures
            final(self)@.len() == old(self)@.len() + 1,
            final(self)@.drop_last() == old(self)@,
            final(self)@.last().id == res,
            final(self)@.last().name == concept@.preferred_term,
            final(self)@.last().concept_ids == seq![concept@.id],
    {
        let class = InformationClass::from_concept(concept);
        self.add_class(class)
    }

    /// Removes the first class with the given identifier and hands it back.
    pub fn remove_class(&mut self, id: Id) -> (res: Option<InformationClass>)
        ensures
            match res {
                Some(c) => exists|i: int|
                    0 <= i < old(self)@.len() && old(self)@[i].id == id
                        && (forall|j: int| 0 <= j < i ==> old(self)@[j].id != id)
                        && c@ == old(self)@[i]
                        && final(self)@ == old(self)@.remove(i),
                None => (forall|j: int| 0 <= j < old(self)@.len() ==> old(self)@[j].id != id)
                    && final(self)@ == old(self)@,
            },
    {
        let mut i: usize = 0;
        while i < self.classes.len()
            invariant
                i <= self.classes@.len(),
                self@ == old(self)@,
                forall|j: int| 0 <= j < i ==> self@[j].id != id,
            decreases self.classes@.len() - i,
        {
            if self.classes[i].id() == id {
                let ghost before = self@;
                let c = self.classes.remove(i);
                assert(classes_view(self.classes@) =~= before.remove(i as int));
                assert(old(self)@[i as int].id == id && c@ == old(self)@[i as int]);
                return Some(c);
            }
            i += 1;
        }
        None
    }

    /// The classes linked to a concept, in order.
    pub fn classes_for_concept(&self, concept_id: Id) -> (res: Vec<&InformationClass>)
        ensures
            res@.map_values(|c: &InformationClass| c@) == self@.filter(
                |c: ClassView| c.concept_ids.contains(concept_id),
            ),
    {
        let ghost s = self@;
        let mut out: Vec<&InformationClass> = Vec::new();
        let mut i: usize = 0;
        while i < self.classes.len()
            invariant
                i <= self.classes@.len(),
                s == self@,
                out@.map_values(|c: &InformationClass| c@) == s.take(i as int).filter(
                    |c: ClassView| c.concept_ids.contains(concept_id),
                ),
            decreases self.classes@.len() - i,
        {
            assert(s.take(i + 1).drop_last() =~= s.take(i as int));
            reveal(Seq::filter);
            let c = &self.classes[i];
            if crate::seqs::contains_id(&c.concept_ids, concept_id) {
                out.push(c);
                assert(out@.map_values(|c: &InformationClass| c@) =~= s.take(i as int).filter(
                    |c: ClassView| c.concept_ids.contains(concept_id)).push(s[i as int]));
            }
            i += 1;
        }
        assert(s.take(s.len() as int) =~= s);
        out
    }

    /// Every attribute linked to a concept, with its class, in order.
    pub fn attributes_for_concept(&self, concept_id: Id) -> (res: Vec<(&InformationClass, &Attribute)>)
        ensures
            res@.map_values(|p: (&InformationClass, &Attribute)| (p.0@, p.1@)) == attribute_links(self@, concept_id),
    {
        let ghost cs = self@;
        let ghost keep = links_concept(concept_id);
        let mut out: Vec<(&InformationClass, &Attribute)> = Vec::new();
        let mut i: usize = 0;
        while i < self.classes.len()
            invariant
                cs == self@,
                keep == links_concept(concept_id),
                i <= self.classes@.len(),
                out@.map_values(|p: (&InformationClass, &Attribute)| (p.0@, p.1@)) == attribute_links(
                    cs.take(i as int),
                    concept_id,
                ),
            decreases self.classes@.len() - i,
        {
            let class = &self.classes[i];
            let ghost cv = class@;
            assert(cv == cs[i as int]);
            let attrs = class.attributes();
            let ghost start = out@.map_values(|p: (&InformationClass, &Attribute)| (p.0@, p.1@));
            let mut j: usize = 0;
            while j < attrs.len()
                invariant
                    cv == class@,
                    keep == links_concept(concept_id),
                    attributes_view(attrs@) == cv.attributes,
                    j <= attrs@.len(),
                    out@.map_values(|p: (&InformationClass, &Attribute)| (p.0@, p.1@)) == start + cv.attributes.take(
                        j as int,
                    ).filter(keep).map_values(|a: AttributeView| (cv, a)),
                decreases attrs@.len() - j,
            {
                let ghost before = out@.map_values(|p: (&InformationClass, &Attribute)| (p.0@, p.1@));
                proof {
                    crate::seqs::lemma_filter_step(cv.attributes, keep, j as int);
                }
                let a = &attrs[j];
                assert(a@ == cv.attributes[j as int]);
                if crate::seqs::contains_id(&a.concept_ids, concept_id) {
                    out.push((class, a));
                    assert(out@.map_values(|p: (&InformationClass, &Attribute)| (p.0@, p.1@)) =~= before.push((cv, a@)));
                    assert(cv.attributes.take(j + 1).filter(keep).map_values(|a: AttributeView| (cv, a)) =~= cv.attributes.take(
                        j as int,
                    ).filter(keep).map_values(|a: AttributeView| (cv, a)).push((cv, a@)));
                }
                j += 1;
            }
            assert(cv.attributes.take(attrs@.len() as int) =~= cv.attributes);
            assert(cs.take(i + 1).drop_last() =~= cs.take(i as int));
            assert(cs.take(i + 1).last() == cv);
            i += 1;
        }
        assert(cs.take(cs.len() as int) =~= cs);
        out
    }

    /// Removes every link to a concept from every class and every
    /// attribute, leaving everything else as it was.
    pub fn remove_concept_references(&mut self, concept_id: Id)
        ensures
            final(self)@ == old(self)@.map_values(|c: ClassView| class_without_concept(c, concept_id)),
    {
        let n = self.classes.len();
        let mut i: usize = 0;
        while i < n
            invariant
                n == self.classes@.len(),
                n == old(self)@.len(),
                i <= n,
                forall|j: int| 0 <= j < i ==> #[trigger] self.classes@[j]@ == class_without_concept(old(self)@[j], concept_id),
                forall|j: int| i <= j < n ==> #[trigger] self.classes@[j]@ == old(self)@[j],
            decreases n - i,
        {
            self.classes[i].unlink_concept_everywhere(concept_id);
            i += 1;
        }
        assert(self@ =~= old(self)@.map_values(|c: ClassView| class_without_concept(c, concept_id)));
    }
}

impl InformationClass {
    /// Removes every link to a concept from the class and its attributes.
    pub fn unlink_concept_everywhere(&mut self, concept_id: Id)
        ensures
            final(self)@ == class_without_concept(old(self)@, concept_id),
    {
        self.remove_concept_id(concept_id);
        let m = self.attributes.len();
        let mut k: usize = 0;
        while k < m
            invariant
                m == self.attributes@.len(),
                m == old(self)@.attributes.len(),
                k <= m,
                self@.id == old(self)@.id,
                self@.name == old(self)@.name,
                self@.description == old(self)@.description,
                self@.concept_ids == without(old(self)@.concept_ids, concept_id),
                forall|q: int| 0 <= q < k ==> #[trigger] self.attributes@[q]@ == (AttributeView {
                    concept_ids: without(old(self)@.attributes[q].concept_ids, concept_id),
                    ..old(self)@.attributes[q]
                }),
                forall|q: int| k <= q < m ==> #[trigger] self.attributes@[q]@ == old(self)@.attributes[q],
            decreases m - k,
        {
            self.attributes[k].remove_concept_id(concept_id);
            k += 1;
        }
        assert(self@.attributes =~= old(self)@.attributes.map_values(
            |a: AttributeView| AttributeView { concept_ids: without(a.concept_ids, concept_id), ..a }));
    }
}

/// Height of a class node on the diagram, in pixels: a 54-pixel header and
/// 16 pixels of padding around 20 pixels per attribute, at least 80 pixels,
/// rounded up to the 20-pixel grid.
pub open spec fn class_node_height_spec(attr_count: nat) -> nat {
    let raw: nat = 70 + 20 * attr_count;
    let h: nat = if raw < 80 { 80 } else { raw };
    ((h + 19) / 20) * 20
}

/// The largest height a node can have: the last grid line below `u64::MAX`.
pub open spec fn height_cap() -> nat {
    18446744073709551600
}

/// [`class_node_height_spec`], held at [`height_cap`].
pub open spec fn class_node_height(attr_count: nat) -> u64 {
    let h = class_node_height_spec(attr_count);
    if h <= height_cap() { h as u64 } else { height_cap() as u64 }
}

/// The height of a class node with the given number of attributes.
pub fn calculate_class_node_height(attr_count: usize) -> (res: u64)
    ensures
        res == class_node_height(attr_count as nat),
        res % 20 == 0,
        res >= 80,
{
    assert(20 * (attr_count as u128) <= 20 * 0x1_0000_0000_0000_0000u128);
    let raw: u128 = 70 + 20 * (attr_count as u128);
    let h: u128 = if raw < 80 { 80 } else { raw };
    let rounded: u128 = ((h + 19) / 20) * 20;
    assert(rounded == class_node_height_spec(attr_count as nat));
    if rounded <= 18446744073709551600u128 {
        rounded as u64
    } else {
        18446744073709551600u64
    }
}

/// Node heights grow with the number of attributes and always lie on the
/// grid.
pub proof fn class_node_height_monotone(a: nat, b: nat)
    requires
        a <= b,
    ensures
        class_node_height(a) <= class_node_height(b),
        class_node_height(b) % 20 == 0,
        class_node_height(b) >= 80,
{
    let ra: nat = 70 + 20 * a;
    let rb: nat = 70 + 20 * b;
    let ha: nat = if ra < 80 { 80 } else { ra };
    let hb: nat = if rb < 80 { 80 } else { rb };
    assert(ha <= hb);
    assert((ha + 19) / 20 <= (hb + 19) / 20) by (nonlinear_arith)
        requires ha <= hb;
    assert(((ha + 19) / 20) * 20 <= ((hb + 19) / 20) * 20) by (nonlinear_arith)
        requires (ha + 19) / 20 <= (hb + 19) / 20;
    assert((((hb + 19) / 20) * 20) % 20 == 0) by (nonlinear_arith);
    assert(((hb + 19) / 20) * 20 >= 80) by (nonlinear_arith)
        requires hb >= 80;
}

} // verus!
