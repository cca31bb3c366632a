//! Reading the package name that a `Cargo.toml` declares under `package.name`.

use vstd::prelude::*;
use crate::document::{Kind, Node, parse_document, toml_document};

verus! {

/// Why a manifest yields no package name.
#[derive(Debug)]
pub enum ReadError {
    /// The text is not a well-formed document; one description per syntax error.
    TomlErrors(Vec<String>),
    /// There is no `package.name` (a workspace-only manifest, for instance).
    NoPackageName,
    /// `package.name` holds a value of this kind, not text.
    NotAString(Kind),
}

/// What reading a manifest comes to.
pub enum NameOutcome {
    Malformed,
    NoName,
    WrongType(Kind),
    Named(Seq<char>),
}

/// The value at `package.name`, if there is one.
pub open spec fn name_entry(doc: Node) -> Option<Node> {
    match doc.lookup("package"@) {
        Some(p) => p.lookup("name"@),
        None => None,
    }
}

/// The name that a parsed manifest declares, or why there is none.
pub open spec fn name_in(doc: Node) -> NameOutcome {
    match name_entry(doc) {
        None => NameOutcome::NoName,
        Some(Node::String(s)) => NameOutcome::Named(s@),
        Some(v) => NameOutcome::WrongType(v.kind()),
    }
}

/// The name that a manifest's text declares, or why there is none.
pub open spec fn name_in_text(text: Seq<char>) -> NameOutcome {
    match toml_document(text) {
        None => NameOutcome::Malformed,
        Some(doc) => name_in(doc),
    }
}

pub open spec fn outcome_of(r: Result<String, ReadError>) -> NameOutcome {
    match r {
        Ok(s) => NameOutcome::Named(s@),
        Err(ReadError::TomlErrors(_)) => NameOutcome::Malformed,
        Err(ReadError::NoPackageName) => NameOutcome::NoName,
        Err(ReadError::NotAString(k)) => NameOutcome::WrongType(k),
    }
}

/// The package name declared by a parsed manifest.
pub fn name_from_document(doc: &Node) -> (r: Result<String, ReadError>)
    ensures
        outcome_of(r) == name_in(*doc),
{
    let package = match doc.get("package") {
        Some(p) => p,
        None => {
            return Err(ReadError::NoPackageName);
        },
    };
    match package.get("name") {
        Some(Node::String(s)) => Ok(s.clone()),
        Some(v) => Err(ReadError::NotAString(v.get_kind())),
        None => Err(ReadError::NoPackageName),
    }
}

/// The package name declared by the text of a manifest.
pub fn package_name_from_manifest(manifest: &str) -> (r: Result<String, ReadError>)
    ensures
        outcome_of(r) == name_in_text(manifest@),
{
    match parse_document(manifest) {
        Ok(doc) => name_from_document(&doc),
        Err(errs) => Err(ReadError::TomlErrors(errs)),
    }
}

/// A manifest whose `package` table holds `name` as text declares that name.
pub proof fn lemma_declared_name(doc: Node, name: String)
    requires
        doc.lookup("package"@) matches Some(p) && p.lookup("name"@) == Some(Node::String(name)),
    ensures
        name_in(doc) == NameOutcome::Named(name@),
{
}

/// What a manifest declares depends on its `package` entry alone: other
/// entries and tables around it change nothing.
pub proof fn lemma_name_ignores_other_entries(doc1: Node, doc2: Node)
    requires
        doc1.lookup("package"@) == doc2.lookup("package"@),
    ensures
        name_in(doc1) == name_in(doc2),
{
}

} // verus!
