//! The casing conversions the name validator relies on.

use heck::SnakeCase;
use hsr_codegen::names::Ident;
use hsr_codegen::names::TypeName;

#[test]
fn test_snake_casify() {
    assert_eq!("/a/b/c".to_snake_case(), "a_b_c");
    assert_eq!(
        "/All/ThisIs/justFine".to_snake_case(),
        "all_this_is_just_fine"
    );
    assert_eq!("/{someId}".to_snake_case(), "some_id");
    assert_eq!(
        "/123_abc{xyz\\!\"£$%^}/456 asdf".to_snake_case(),
        "123_abc_xyz_456_asdf"
    )
}

#[test]
fn identifier_accepts_snake_and_mixed() {
    // an already snake-cased name is kept as it is
    let id = Ident::parse("some_id").unwrap();
    assert_eq!(id.as_str(), "some_id");
    // the mixed-cased alternate normalizes to snake case
    let id = Ident::parse("someId").unwrap();
    assert_eq!(id.as_str(), "some_id");
}

#[test]
fn identifier_rejects_other_casings() {
    assert!(Ident::parse("SomeId").is_err());
    assert!(Ident::parse("some id").is_err());
    assert!(Ident::parse("Some-Id").is_err());
}

#[test]
fn identifier_rejects_names_whose_canonical_form_is_unstable() {
    // "a.B" equals its own mixed-cased form, but its snake-cased form
    // "a._b" snake-cases further to "a_b": the canonical form would not
    // round-trip, so the name is rejected
    assert!(Ident::parse("a.B").is_err());
}

#[test]
fn identifier_parse_is_idempotent() {
    // re-parsing the canonical output yields the same value
    let id = Ident::parse("petId").unwrap();
    let again = Ident::parse(id.as_str()).unwrap();
    assert_eq!(id, again);
    assert_eq!(again.as_str(), "pet_id");
}

#[test]
fn type_name_accepts_only_capitalized_form() {
    let t = TypeName::new(String::from("PetStore")).unwrap();
    assert_eq!(t.as_str(), "PetStore");
    assert!(TypeName::new(String::from("petStore")).is_err());
    assert!(TypeName::new(String::from("pet_store")).is_err());
}
