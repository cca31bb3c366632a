use local_pkgs::document::{Kind, Node};
use local_pkgs::lockfile::{decode_lockfile, parse, DecodeError, Field, Location, Package, ReadError};
use local_pkgs::workspace::local_packages;

const TWO_PACKAGES: &str = r#"
[root]
name = "app"
version = "0.1.0"
dependencies = [
 "core 0.1.0",
 "left-pad 1.0.0 (registry+https://github.com/rust-lang/crates.io-index)",
]

[[package]]
name = "core"
version = "0.1.0"

[[package]]
name = "left-pad"
version = "1.0.0"
source = "registry+https://github.com/rust-lang/crates.io-index"
"#;

fn decode_error(text: &str) -> DecodeError {
    match parse(text) {
        Err(ReadError::DecodeError(e)) => e,
        other => panic!("expected a decode error, got {:?}", other),
    }
}

#[test]
fn parses_root_and_packages() {
    let l = parse(TWO_PACKAGES).unwrap();
    assert_eq!(l.root.name, "app");
    assert_eq!(l.root.version, "0.1.0");
    assert_eq!(l.root.source, None);
    assert_eq!(l.root.dependencies.len(), 2);
    assert_eq!(l.root.dependencies[0], "core 0.1.0");
    assert_eq!(l.package.len(), 2);
    assert_eq!(l.package[0].name, "core");
    assert!(l.package[0].dependencies.is_empty());
    assert_eq!(l.package[1].name, "left-pad");
    assert_eq!(
        l.package[1].source.as_deref(),
        Some("registry+https://github.com/rust-lang/crates.io-index")
    );
}

#[test]
fn is_local_follows_source() {
    let l = parse(TWO_PACKAGES).unwrap();
    for p in &l.package {
        assert_eq!(p.is_local(), p.source.is_none());
    }
    assert!(l.package[0].is_local());
    assert!(!l.package[1].is_local());
    let remote = Package {
        name: "x".to_string(),
        version: "1".to_string(),
        source: Some("git+https://example.org/x".to_string()),
        dependencies: vec![],
    };
    assert!(!remote.is_local());
}

#[test]
fn local_packages_root_first_in_lockfile_order() {
    let l = parse(TWO_PACKAGES).unwrap();
    assert_eq!(local_packages(&l), vec!["app".to_string(), "core".to_string()]);
}

#[test]
fn no_dependencies_gives_root_only() {
    let l = parse("[root]\nname = \"solo\"\nversion = \"2.0.0\"\n").unwrap();
    assert!(l.package.is_empty());
    assert_eq!(local_packages(&l), vec!["solo".to_string()]);
    let l = parse("package = []\n[root]\nname = \"solo\"\nversion = \"2.0.0\"\n").unwrap();
    assert_eq!(local_packages(&l), vec!["solo".to_string()]);
}

#[test]
fn missing_version_is_invalid_lockfile() {
    let text = "[root]\nname = \"app\"\nversion = \"0.1.0\"\n\n[[package]]\nname = \"core\"\n";
    assert_eq!(
        decode_error(text),
        DecodeError { location: Location::Package(0), field: Some(Field::Version), expected: Kind::String, found: None }
    );
}

#[test]
fn missing_root_is_invalid_lockfile() {
    assert_eq!(
        decode_error("[[package]]\nname = \"core\"\nversion = \"1\"\n"),
        DecodeError { location: Location::Root, field: None, expected: Kind::Table, found: None }
    );
}

#[test]
fn wrongly_typed_fields_are_reported_with_their_kind() {
    assert_eq!(
        decode_error("[root]\nname = 7\nversion = \"1\"\n"),
        DecodeError { location: Location::Root, field: Some(Field::Name), expected: Kind::String, found: Some(Kind::Integer) }
    );
    assert_eq!(
        decode_error("[root]\nname = \"a\"\nversion = \"1\"\nsource = true\n"),
        DecodeError { location: Location::Root, field: Some(Field::Source), expected: Kind::String, found: Some(Kind::Boolean) }
    );
    assert_eq!(
        decode_error("[root]\nname = \"a\"\nversion = \"1\"\ndependencies = \"b\"\n"),
        DecodeError { location: Location::Root, field: Some(Field::Dependencies), expected: Kind::Array, found: Some(Kind::String) }
    );
    assert_eq!(
        decode_error("[root]\nname = \"a\"\nversion = \"1\"\ndependencies = [1, 2]\n"),
        DecodeError { location: Location::Root, field: Some(Field::Dependencies), expected: Kind::String, found: Some(Kind::Integer) }
    );
    assert_eq!(
        decode_error("package = 1.5\n[root]\nname = \"a\"\nversion = \"1\"\n"),
        DecodeError { location: Location::PackageList, field: None, expected: Kind::Array, found: Some(Kind::Float) }
    );
    assert_eq!(
        decode_error("root = \"a\"\n"),
        DecodeError { location: Location::Root, field: None, expected: Kind::Table, found: Some(Kind::String) }
    );
}

#[test]
fn first_bad_package_is_reported() {
    let text = "[root]\nname = \"a\"\nversion = \"1\"\n\n[[package]]\nname = \"b\"\nversion = \"1\"\n\n[[package]]\nversion = \"2\"\n\n[[package]]\nname = 3\n";
    assert_eq!(
        decode_error(text),
        DecodeError { location: Location::Package(1), field: Some(Field::Name), expected: Kind::String, found: None }
    );
}

#[test]
fn malformed_lockfile_reports_syntax_errors() {
    match parse("[root\nname = ") {
        Err(ReadError::TomlErrors(errs)) => assert!(!errs.is_empty()),
        other => panic!("expected syntax errors, got {:?}", other),
    }
}

#[test]
fn decodes_a_document_tree() {
    let root = Node::Table(vec![
        ("name".to_string(), Node::String("app".to_string())),
        ("version".to_string(), Node::String("1.0.0".to_string())),
    ]);
    let doc = Node::Table(vec![("root".to_string(), root)]);
    let l = decode_lockfile(&doc).unwrap();
    assert_eq!(l.root.name, "app");
    assert_eq!(l.root.version, "1.0.0");
    assert!(l.package.is_empty());
    assert_eq!(
        decode_lockfile(&Node::Integer(1)).unwrap_err(),
        DecodeError { location: Location::Document, field: None, expected: Kind::Table, found: Some(Kind::Integer) }
    );
}
