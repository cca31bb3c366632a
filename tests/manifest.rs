use local_pkgs::document::{Kind, Node};
use local_pkgs::manifest::{name_from_document, package_name_from_manifest, ReadError};

#[test]
fn reads_package_name_among_other_tables() {
    let text = "[package]\nname = \"foo\"\nversion = \"0.1.0\"\nauthors = [\"someone\"]\n\n[dependencies]\nname = \"bar\"\n\n[lib]\npath = \"src/lib.rs\"\n";
    assert_eq!(package_name_from_manifest(text).unwrap(), "foo");
    assert_eq!(package_name_from_manifest("[package]\nname = \"foo\"\n").unwrap(), "foo");
}

#[test]
fn integer_name_is_a_type_error() {
    match package_name_from_manifest("[package]\nname = 42\n") {
        Err(ReadError::NotAString(k)) => {
            assert_eq!(k, Kind::Integer);
            assert_eq!(k.type_str(), "integer");
        }
        other => panic!("expected a type error, got {:?}", other),
    }
    match package_name_from_manifest("[package.name]\nfirst = \"a\"\n") {
        Err(ReadError::NotAString(k)) => assert_eq!(k.type_str(), "table"),
        other => panic!("expected a type error, got {:?}", other),
    }
}

#[test]
fn workspace_manifest_has_no_name() {
    let text = "[workspace]\nmembers = [\"core\", \"utils\"]\n";
    assert!(matches!(package_name_from_manifest(text), Err(ReadError::NoPackageName)));
    assert!(matches!(package_name_from_manifest("[package]\nversion = \"1\"\n"), Err(ReadError::NoPackageName)));
    assert!(matches!(package_name_from_manifest("package = [1, 2]\n"), Err(ReadError::NoPackageName)));
}

#[test]
fn malformed_manifest_reports_syntax_errors() {
    match package_name_from_manifest("[package\nname = \"x\"") {
        Err(ReadError::TomlErrors(errs)) => assert!(!errs.is_empty()),
        other => panic!("expected syntax errors, got {:?}", other),
    }
}

#[test]
fn name_from_a_document_tree() {
    let package = Node::Table(vec![
        ("authors".to_string(), Node::Array(vec![])),
        ("name".to_string(), Node::String("core".to_string())),
    ]);
    let doc = Node::Table(vec![
        ("dependencies".to_string(), Node::Table(vec![])),
        ("package".to_string(), package),
    ]);
    assert_eq!(name_from_document(&doc).unwrap(), "core");
    let doc = Node::Table(vec![(
        "package".to_string(),
        Node::Table(vec![("name".to_string(), Node::Boolean(true))]),
    )]);
    assert!(matches!(name_from_document(&doc), Err(ReadError::NotAString(Kind::Boolean))));
    assert!(matches!(name_from_document(&Node::Float), Err(ReadError::NoPackageName)));
}

#[test]
fn node_lookup_and_kinds() {
    let doc = Node::Table(vec![
        ("a".to_string(), Node::Integer(1)),
        ("b".to_string(), Node::Datetime("1979-05-27T07:32:00Z".to_string())),
    ]);
    assert_eq!(doc.get("b").unwrap().type_str(), "datetime");
    assert_eq!(doc.get("a").unwrap().type_str(), "integer");
    assert!(doc.get("c").is_none());
    assert!(Node::Integer(3).get("a").is_none());
    assert_eq!(doc.type_str(), "table");
    assert_eq!(Node::Array(vec![]).type_str(), "array");
    assert_eq!(Node::Float.type_str(), "float");
    assert_eq!(Node::Boolean(false).type_str(), "boolean");
    assert_eq!(Node::String(String::new()).type_str(), "string");
}
