use kant::concepts::{BelongsToDomain, Concept, ConceptValidator, ValidationError};
use kant::information_model::{
    is_lower_camel_case, Attribute, InformationClass, InformationModel, Multiplicity, PrimitiveType,
};
use kant::text::{equals_ignore_ascii_case, to_decimal, trim, truncate_with_ellipsis};

#[test]
fn domain_membership_labels_and_parsing() {
    assert_eq!(BelongsToDomain::Yes.display_label(), "Ja (Lokalt begreb)");
    assert_eq!(BelongsToDomain::No.display_label(), "Nej (Indlånt begreb)");
    assert_eq!(BelongsToDomain::ModelRef("https://m".to_string()).display_label(), "Model: https://m");
    assert!(BelongsToDomain::Yes.is_local());
    assert!(!BelongsToDomain::No.is_local());
    assert_eq!(BelongsToDomain::from_str_loose(" JA "), BelongsToDomain::Yes);
    assert_eq!(BelongsToDomain::from_str_loose("yes"), BelongsToDomain::Yes);
    assert_eq!(BelongsToDomain::from_str_loose("Nej"), BelongsToDomain::No);
    assert_eq!(BelongsToDomain::from_str_loose("no"), BelongsToDomain::No);
    assert_eq!(BelongsToDomain::from_str_loose(""), BelongsToDomain::Yes);
    assert_eq!(
        BelongsToDomain::from_str_loose(" https://model "),
        BelongsToDomain::ModelRef("https://model".to_string())
    );
}

#[test]
fn concept_fields_round_trip() {
    let mut c = Concept::new_with_id(7, "Vej", "Færdselsareal", BelongsToDomain::Yes);
    assert_eq!(c.id(), 7);
    c.set_preferred_term("Gade");
    c.set_definition("By-vej");
    c.set_accepted_term(Some("Stræde".to_string()));
    c.set_deprecated_term(Some("Gyde".to_string()));
    c.set_example(Some("Strøget".to_string()));
    c.set_comment(Some("k".to_string()));
    c.set_application_note(Some("n".to_string()));
    c.set_legal_source(Some("lov".to_string()));
    c.set_source(Some("kilde".to_string()));
    c.set_identifier(Some("https://id".to_string()));
    c.set_derived_from(Some("https://from".to_string()));
    c.set_belongs_to_domain(BelongsToDomain::No);
    assert_eq!(c.preferred_term(), "Gade");
    assert_eq!(c.definition(), "By-vej");
    assert_eq!(c.accepted_term(), Some("Stræde"));
    assert_eq!(c.deprecated_term(), Some("Gyde"));
    assert_eq!(c.example(), Some("Strøget"));
    assert_eq!(c.comment(), Some("k"));
    assert_eq!(c.application_note(), Some("n"));
    assert_eq!(c.legal_source(), Some("lov"));
    assert_eq!(c.source(), Some("kilde"));
    assert_eq!(c.identifier(), Some("https://id"));
    assert_eq!(c.derived_from(), Some("https://from"));
    assert_eq!(c.belongs_to_domain(), &BelongsToDomain::No);
    assert_eq!(ConceptValidator::validate(&c), Ok(()));
}

#[test]
fn validation_errors_in_order() {
    let c = Concept::new(" ", " ", BelongsToDomain::Yes);
    assert_eq!(ConceptValidator::validate(&c), Err(ValidationError::MissingRequiredField("Foretrukken dansk term")));
    let c = Concept::new("Vej", "\t", BelongsToDomain::Yes);
    assert_eq!(ConceptValidator::validate(&c), Err(ValidationError::MissingRequiredField("Definition")));
    let mut c = Concept::new("Vej", "Areal", BelongsToDomain::Yes);
    c.set_identifier(Some("   ".to_string()));
    assert_eq!(ConceptValidator::validate(&c), Ok(()));
    c.set_derived_from(Some("ikke uri".to_string()));
    assert_eq!(ConceptValidator::validate(&c), Err(ValidationError::InvalidUri("ikke uri".to_string())));
    c.set_identifier(Some("også ikke".to_string()));
    assert_eq!(ConceptValidator::validate(&c), Err(ValidationError::InvalidUri("også ikke".to_string())));
}

#[test]
fn multiplicities_display() {
    assert_eq!(Multiplicity::exactly_one().to_display_string(), "1");
    assert_eq!(Multiplicity::zero_or_one().to_display_string(), "0..1");
    assert_eq!(Multiplicity::zero_or_more().to_display_string(), "0..*");
    assert_eq!(Multiplicity::one_or_more().to_display_string(), "1..*");
    assert_eq!(Multiplicity::new(2, Some(12)).to_display_string(), "2..12");
    assert_eq!(Multiplicity::presets().len(), 4);
    assert_eq!(Multiplicity::new(3, None).lower(), 3);
    assert_eq!(Multiplicity::new(3, None).upper(), None);
}

#[test]
fn primitive_types_and_names() {
    let all = PrimitiveType::all();
    assert_eq!(all.len(), 8);
    assert_eq!(all[0].as_str(), "CharacterString");
    assert_eq!(PrimitiveType::Uri.as_str(), "URI");
    assert!(is_lower_camel_case("vejNavn"));
    assert!(!is_lower_camel_case("VejNavn"));
    assert!(!is_lower_camel_case(""));
}

#[test]
fn classes_from_concepts_and_unlinking() {
    let concept = Concept::new("Adresse", "Et sted", BelongsToDomain::Yes);
    let mut model = InformationModel::new();
    let cid = model.create_class_from_concept(&concept);
    let class = model.get_class(cid).unwrap();
    assert_eq!(class.name(), "Adresse");
    assert_eq!(class.description(), Some("Et sted"));
    assert_eq!(class.concept_ids(), &[concept.id()]);
    assert_eq!(model.classes_for_concept(concept.id()).len(), 1);

    let mut other = InformationClass::new("Person");
    other.add_attribute(
        Attribute::new("bopael", PrimitiveType::CharacterString, Multiplicity::exactly_one())
            .with_concepts(vec![concept.id()]),
    );
    let attr_id = other.attributes()[0].id();
    model.add_class(other);
    model.remove_concept_references(concept.id());
    assert!(model.classes_for_concept(concept.id()).is_empty());
    assert!(model.classes()[1].attributes()[0].concept_ids().is_empty());

    let mut person = model.classes()[1].clone();
    assert_eq!(person.remove_attribute(attr_id).map(|a| a.name().to_string()), Some("bopael".to_string()));
    assert!(person.remove_attribute(attr_id).is_none());
    assert!(model.remove_class(cid).is_some());
    assert_eq!(model.classes().len(), 1);
}

#[test]
fn attribute_fields() {
    let mut a = Attribute::with_id(5, "navn", PrimitiveType::CharacterString, Multiplicity::exactly_one());
    a.set_name("fornavn");
    a.set_data_type(PrimitiveType::Integer);
    a.set_multiplicity(Multiplicity::zero_or_more());
    a.add_concept_id(1);
    a.add_concept_id(1);
    a.add_concept_id(2);
    assert_eq!(a.concept_ids(), &[1, 2]);
    a.remove_concept_id(1);
    assert_eq!(a.concept_ids(), &[2]);
    a.set_concept_ids(vec![3, 4]);
    assert_eq!(a.concept_ids(), &[3, 4]);
    a.clear_concept_ids();
    assert!(a.concept_ids().is_empty());
    assert_eq!((a.id(), a.name(), a.data_type()), (5, "fornavn", PrimitiveType::Integer));
}

#[test]
fn text_helpers() {
    assert_eq!(trim("\u{a0} a b \n"), "a b");
    assert_eq!(trim("   "), "");
    assert!(equals_ignore_ascii_case("JA", "ja"));
    assert!(!equals_ignore_ascii_case("Æ", "æ"));
    assert_eq!(truncate_with_ellipsis("abcdef", 6), "abcdef");
    assert_eq!(truncate_with_ellipsis("abcdefg", 6), "abc...");
    assert_eq!(truncate_with_ellipsis("abcdefg", 2), "...");
    assert_eq!(to_decimal(0), "0");
    assert_eq!(to_decimal(1234567890), "1234567890");
    assert_eq!(to_decimal(u64::MAX), "18446744073709551615");
}

#[test]
fn validation_error_messages() {
    assert_eq!(
        ValidationError::MissingRequiredField("Definition").message(),
        "Obligatorisk felt mangler: Definition"
    );
    assert_eq!(ValidationError::InvalidUri("x y".to_string()).message(), "Ugyldigt URI format: x y");
}

#[test]
fn clock_text_pads_to_two_digits() {
    assert_eq!(kant::text::format_clock(9, 5, 0), "09:05:00");
    assert_eq!(kant::text::format_clock(23, 59, 60), "23:59:60");
    assert_eq!(kant::text::format_clock(100, 10, 7), "100:10:07");
}
