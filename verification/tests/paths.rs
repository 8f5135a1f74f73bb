//! Path-template analysis and its round trip.

use hsr_codegen::error::Error;
use hsr_codegen::path::PathSegment::{Literal, Parameter};
use hsr_codegen::path::{PathSegment, RoutePath};

fn analyse_path(path: &str) -> Result<Vec<PathSegment>, Error> {
    RoutePath::analyse(path).map(|rp| rp.segments)
}

#[test]
fn test_analyse_path() {
    // Should fail
    assert!(analyse_path("").is_err());
    assert!(analyse_path("a/b").is_err());
    assert!(analyse_path("/a{").is_err());
    assert!(analyse_path("/a{}").is_err());
    assert!(analyse_path("/{}a").is_err());
    assert!(analyse_path("/{a}a").is_err());
    assert!(analyse_path("/ a").is_err());

    // Rejected by design, although they are valid path components
    assert!(analyse_path("/a1").is_err());
    assert!(analyse_path("/{a1}").is_err());

    // Should succeed
    assert_eq!(
        analyse_path("/a/b").unwrap(),
        vec![Literal("a".into()), Literal("b".into()),]
    );
    assert_eq!(
        analyse_path("/{test}").unwrap(),
        vec![Parameter("test".into())]
    );
    assert_eq!(
        analyse_path("/{a}/{b}/a/b").unwrap(),
        vec![
            Parameter("a".into()),
            Parameter("b".into()),
            Literal("a".into()),
            Literal("b".into())
        ]
    );
    // the trailing empty segment is ignored
    assert_eq!(
        analyse_path("/a/b/c/").unwrap(),
        vec![
            Literal("a".into()),
            Literal("b".into()),
            Literal("c".into())
        ]
    );
}

#[test]
fn malformed_path_error_carries_the_path() {
    match analyse_path("a/b") {
        Err(Error::MalformedPath(p)) => assert_eq!(p, "a/b"),
        other => panic!("expected a malformed-path error, got {:?}", other),
    }
}

#[test]
fn template_round_trip_preserves_segments() {
    let rp = RoutePath::analyse("/pets/{petId}/photos").unwrap();
    let template = rp.render_template();
    assert_eq!(template, "/pets/{petId}/photos");
    let again = RoutePath::analyse(&template).unwrap();
    assert_eq!(rp.segments, again.segments);
}

#[test]
fn build_template_uses_positional_placeholders() {
    let rp = RoutePath::analyse("/pets/{petId}").unwrap();
    assert_eq!(rp.build_template(), "/pets/{}");
    let rp = RoutePath::analyse("/a/b").unwrap();
    assert_eq!(rp.build_template(), "/a/b");
}

#[test]
fn path_args_lists_parameters_in_order() {
    let rp = RoutePath::analyse("/{a}/x/{b}").unwrap();
    let args = rp.path_args();
    assert_eq!(args, vec![String::from("a"), String::from("b")]);
}
