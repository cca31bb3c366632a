//! Reading a `Cargo.lock`: a `root` package and a `package` list, each entry
//! with a name, a version, an optional source and a list of dependencies.
//!
//! The text is parsed into a document tree first; the tree is then decoded
//! against the lockfile's shape, field by field, in the order in which the
//! fields are declared below.

use vstd::prelude::*;
use crate::document::{Kind, Node, parse_document, toml_document};

verus! {

/// A package as listed in the lockfile.
#[derive(Debug)]
pub struct Package {
    /// The package's name, for example "aho-corasick".
    pub name: String,
    /// The version, unchecked text.
    pub version: String,
    /// Where the package comes from; `None` for a package of the workspace.
    pub source: Option<String>,
    /// The dependencies, as text.
    pub dependencies: Vec<String>,
}

pub struct PackageView {
    pub name: Seq<char>,
    pub version: Seq<char>,
    pub source: Option<Seq<char>>,
    pub dependencies: Seq<Seq<char>>,
}

pub open spec fn opt_view(s: Option<String>) -> Option<Seq<char>> {
    match s {
        Some(t) => Some(t@),
        None => None,
    }
}

pub open spec fn strings_view(v: Seq<String>) -> Seq<Seq<char>> {
    v.map_values(|s: String| s@)
}

impl View for Package {
    type V = PackageView;

    open spec fn view(&self) -> PackageView {
        PackageView {
            name: self.name@,
            version: self.version@,
            source: opt_view(self.source),
            dependencies: strings_view(self.dependencies@),
        }
    }
}

impl Package {
    /// A package without a source is developed in the workspace.
    pub fn is_local(&self) -> (r: bool)
        ensures
            r == self.source.is_none(),
    {
        self.source.is_none()
    }
}

/// A parsed lockfile.
#[derive(Debug)]
pub struct Lockfile {
    /// The workspace's main package.
    pub root: Package,
    /// Every transitive dependency of the main package.
    pub package: Vec<Package>,
}

pub struct LockfileView {
    pub root: PackageView,
    pub package: Seq<PackageView>,
}

impl View for Lockfile {
    type V = LockfileView;

    open spec fn view(&self) -> LockfileView {
        LockfileView { root: self.root@, package: self.package@.map_values(|p: Package| p@) }
    }
}

/// A field of a package entry.
#[derive(Clone, Copy, Debug, PartialEq, Eq, Structural)]
pub enum Field {
    Name,
    Version,
    Source,
    Dependencies,
}

/// Where in the document a value of the wrong shape was found.
#[derive(Clone, Copy, Debug, PartialEq, Eq, Structural)]
pub enum Location {
    /// The document itself.
    Document,
    /// The `root` entry.
    Root,
    /// The `package` entry.
    PackageList,
    /// The package entry at this index of the `package` list.
    Package(usize),
}

/// A value that does not have the shape the lockfile asks for: at `location`,
/// in `field` (or the entry itself where `field` is `None`), a value of kind
/// `expected` was needed and `found` was there (`None`: nothing was).
#[derive(Clone, Copy, Debug, PartialEq, Eq, Structural)]
pub struct DecodeError {
    pub location: Location,
    pub field: Option<Field>,
    pub expected: Kind,
    pub found: Option<Kind>,
}

/// Why a lockfile could not be read.
#[derive(Debug)]
pub enum ReadError {
    /// The text is not a well-formed document; one description per syntax error.
    TomlErrors(Vec<String>),
    /// The document does not have the lockfile's shape.
    DecodeError(DecodeError),
}

pub open spec fn kind_of(v: Option<Node>) -> Option<Kind> {
    match v {
        Some(n) => Some(n.kind()),
        None => None,
    }
}

pub open spec fn mismatch(location: Location, field: Option<Field>, expected: Kind, v: Option<Node>) -> DecodeError {
    DecodeError { location, field, expected, found: kind_of(v) }
}

/// A required text field.
pub open spec fn text_of(v: Option<Node>, location: Location, field: Field) -> Result<Seq<char>, DecodeError> {
    match v {
        Some(Node::String(s)) => Ok(s@),
        _ => Err(mismatch(location, Some(field), Kind::String, v)),
    }
}

/// The optional `source` field.
pub open spec fn source_of(v: Option<Node>, location: Location) -> Result<Option<Seq<char>>, DecodeError> {
    match v {
        None => Ok(None),
        Some(Node::String(s)) => Ok(Some(s@)),
        _ => Err(mismatch(location, Some(Field::Source), Kind::String, v)),
    }
}

/// The items of the `dependencies` array, each of which must be text.
pub open spec fn texts_of(items: Seq<Node>, location: Location) -> Result<Seq<Seq<char>>, DecodeError>
    decreases items.len(),
{
    if items.len() == 0 {
        Ok(Seq::empty())
    } else {
        match texts_of(items.drop_last(), location) {
            Err(e) => Err(e),
            Ok(done) => match items.last() {
                Node::String(s) => Ok(done.push(s@)),
                _ => Err(mismatch(location, Some(Field::Dependencies), Kind::String, Some(items.last()))),
            },
        }
    }
}

/// The `dependencies` field: absent means none.
pub open spec fn dependencies_of(v: Option<Node>, location: Location) -> Result<Seq<Seq<char>>, DecodeError> {
    match v {
        None => Ok(Seq::empty()),
        Some(Node::Array(items)) => texts_of(items@, location),
        _ => Err(mismatch(location, Some(Field::Dependencies), Kind::Array, v)),
    }
}

/// One package entry, its fields decoded in the order name, version,
/// source, dependencies.
pub open spec fn package_of(v: Option<Node>, location: Location) -> Result<PackageView, DecodeError> {
    match v {
        Some(Node::Table(_)) => {
            let t = v.unwrap();
            match text_of(t.lookup("name"@), location, Field::Name) {
                Err(e) => Err(e),
                Ok(name) => match text_of(t.lookup("version"@), location, Field::Version) {
                    Err(e) => Err(e),
                    Ok(version) => match source_of(t.lookup("source"@), location) {
                        Err(e) => Err(e),
                        Ok(source) => match dependencies_of(t.lookup("dependencies"@), location) {
                            Err(e) => Err(e),
                            Ok(dependencies) => Ok(PackageView { name, version, source, dependencies }),
                        },
                    },
                },
            }
        },
        _ => Err(mismatch(location, None, Kind::Table, v)),
    }
}

/// The entries of the `package` array, in order.
pub open spec fn packages_of(items: Seq<Node>) -> Result<Seq<PackageView>, DecodeError>
    decreases items.len(),
{
    if items.len() == 0 {
        Ok(Seq::empty())
    } else {
        match packages_of(items.drop_last()) {
            Err(e) => Err(e),
            Ok(done) => match package_of(Some(items.last()), Location::Package((items.len() - 1) as usize)) {
                Err(e) => Err(e),
                Ok(p) => Ok(done.push(p)),
            },
        }
    }
}

/// The `package` field: absent means an empty list.
pub open spec fn package_list_of(v: Option<Node>) -> Result<Seq<PackageView>, DecodeError> {
    match v {
        None => Ok(Seq::empty()),
        Some(Node::Array(items)) => packages_of(items@),
        _ => Err(mismatch(Location::PackageList, None, Kind::Array, v)),
    }
}

/// A whole document decoded as a lockfile: `root` first, then `package`.
pub open spec fn lockfile_of(doc: Node) -> Result<LockfileView, DecodeError> {
    match doc {
        Node::Table(_) => match package_of(doc.lookup("root"@), Location::Root) {
            Err(e) => Err(e),
            Ok(root) => match package_list_of(doc.lookup("package"@)) {
                Err(e) => Err(e),
                Ok(package) => Ok(LockfileView { root, package }),
            },
        },
        _ => Err(mismatch(Location::Document, None, Kind::Table, Some(doc))),
    }
}

pub open spec fn owned(v: Option<&Node>) -> Option<Node> {
    match v {
        Some(n) => Some(*n),
        None => None,
    }
}

pub open spec fn result_view<T: View>(r: Result<T, DecodeError>) -> Result<T::V, DecodeError> {
    match r {
        Ok(x) => Ok(x@),
        Err(e) => Err(e),
    }
}

pub open spec fn packages_view(ps: Seq<Package>) -> Seq<PackageView> {
    ps.map_values(|p: Package| p@)
}

/// An error met in a prefix of the items is the error of all of them.
pub proof fn lemma_texts_prefix_error(items: Seq<Node>, location: Location, n: int)
    requires
        0 <= n <= items.len(),
        texts_of(items.take(n), location) is Err,
    ensures
        texts_of(items, location) == texts_of(items.take(n), location),
    decreases items.len() - n,
{
    if n < items.len() {
        assert(items.take(n + 1).drop_last() =~= items.take(n));
        lemma_texts_prefix_error(items, location, n + 1);
    } else {
        assert(items.take(n) =~= items);
    }
}

/// An error met in a prefix of the entries is the error of all of them.
pub proof fn lemma_packages_prefix_error(items: Seq<Node>, n: int)
    requires
        0 <= n <= items.len(),
        packages_of(items.take(n)) is Err,
    ensures
        packages_of(items) == packages_of(items.take(n)),
    decreases items.len() - n,
{
    if n < items.len() {
        assert(items.take(n + 1).drop_last() =~= items.take(n));
        lemma_packages_prefix_error(items, n + 1);
    } else {
        assert(items.take(n) =~= items);
    }
}

fn found_kind(v: Option<&Node>) -> (r: Option<Kind>)
    ensures
        r == kind_of(owned(v)),
{
    match v {
        Some(n) => Some(n.get_kind()),
        None => None,
    }
}

fn decode_text(v: Option<&Node>, location: Location, field: Field) -> (r: Result<String, DecodeError>)
    ensures
        result_view(r) == text_of(owned(v), location, field),
{
    match v {
        Some(Node::String(s)) => Ok(s.clone()),
        _ => Err(DecodeError { location, field: Some(field), expected: Kind::String, found: found_kind(v) }),
    }
}

fn decode_source(v: Option<&Node>, location: Location) -> (r: Result<Option<String>, DecodeError>)
    ensures
        match r {
            Ok(s) => source_of(owned(v), location) == Ok::<Option<Seq<char>>, DecodeError>(opt_view(s)),
            Err(e) => source_of(owned(v), location) == Err::<Option<Seq<char>>, DecodeError>(e),
        },
{
    match v {
        None => Ok(None),
        Some(Node::String(s)) => Ok(Some(s.clone())),
        _ => Err(DecodeError { location, field: Some(Field::Source), expected: Kind::String, found: found_kind(v) }),
    }
}

fn decode_texts(items: &Vec<Node>, location: Location) -> (r: Result<Vec<String>, DecodeError>)
    ensures
        match r {
            Ok(d) => texts_of(items@, location) == Ok::<Seq<Seq<char>>, DecodeError>(strings_view(d@)),
            Err(e) => texts_of(items@, location) == Err::<Seq<Seq<char>>, DecodeError>(e),
        },
{
    let mut out: Vec<String> = Vec::new();
    let mut i: usize = 0;
    proof {
        assert(items@.take(0) =~= Seq::<Node>::empty());
        assert(strings_view(out@) =~= Seq::<Seq<char>>::empty());
    }
    while i < items.len()
        invariant
            i <= items.len(),
            texts_of(items@.take(i as int), location) == Ok::<Seq<Seq<char>>, DecodeError>(strings_view(out@)),
        decreases items.len() - i,
    {
        proof {
            assert(items@.take(i + 1).drop_last() =~= items@.take(i as int));
            assert(items@.take(i + 1).last() == items@[i as int]);
        }
        match &items[i] {
            Node::String(s) => {
                let ghost before = out@;
                out.push(s.clone());
                proof {
                    assert(strings_view(out@) =~= strings_view(before).push(s@));
                }
            },
            other => {
                let e = DecodeError {
                    location,
                    field: Some(Field::Dependencies),
                    expected: Kind::String,
                    found: Some(other.get_kind()),
                };
                proof {
                    lemma_texts_prefix_error(items@, location, i + 1);
                }
                return Err(e);
            },
        }
        i = i + 1;
    }
    proof {
        assert(items@.take(items.len() as int) =~= items@);
    }
    Ok(out)
}

fn decode_dependencies(v: Option<&Node>, location: Location) -> (r: Result<Vec<String>, DecodeError>)
    ensures
        match r {
            Ok(d) => dependencies_of(owned(v), location) == Ok::<Seq<Seq<char>>, DecodeError>(strings_view(d@)),
            Err(e) => dependencies_of(owned(v), location) == Err::<Seq<Seq<char>>, DecodeError>(e),
        },
{
    match v {
        None => {
            let d: Vec<String> = Vec::new();
            proof {
                assert(strings_view(d@) =~= Seq::<Seq<char>>::empty());
            }
            Ok(d)
        },
        Some(Node::Array(items)) => decode_texts(items, location),
        _ => Err(DecodeError { location, field: Some(Field::Dependencies), expected: Kind::Array, found: found_kind(v) }),
    }
}

/// Decodes one package entry of a document tree.
pub fn decode_package(v: Option<&Node>, location: Location) -> (r: Result<Package, DecodeError>)
    ensures
        result_view(r) == package_of(owned(v), location),
{
    let t = match v {
        Some(t) => t,
        None => {
            return Err(DecodeError { location, field: None, expected: Kind::Table, found: None });
        },
    };
    match t {
        Node::Table(_) => {},
        _ => {
            return Err(DecodeError { location, field: None, expected: Kind::Table, found: Some(t.get_kind()) });
        },
    }
    let name = match decode_text(t.get("name"), location, Field::Name) {
        Ok(s) => s,
        Err(e) => {
            return Err(e);
        },
    };
    let version = match decode_text(t.get("version"), location, Field::Version) {
        Ok(s) => s,
        Err(e) => {
            return Err(e);
        },
    };
    let source = match decode_source(t.get("source"), location) {
        Ok(s) => s,
        Err(e) => {
            return Err(e);
        },
    };
    let dependencies = match decode_dependencies(t.get("dependencies"), location) {
        Ok(d) => d,
        Err(e) => {
            return Err(e);
        },
    };
    Ok(Package { name, version, source, dependencies })
}

fn decode_packages(items: &Vec<Node>) -> (r: Result<Vec<Package>, DecodeError>)
    ensures
        match r {
            Ok(ps) => packages_of(items@) == Ok::<Seq<PackageView>, DecodeError>(packages_view(ps@)),
            Err(e) => packages_of(items@) == Err::<Seq<PackageView>, DecodeError>(e),
        },
{
    let mut out: Vec<Package> = Vec::new();
    let mut i: usize = 0;
    proof {
        assert(items@.take(0) =~= Seq::<Node>::empty());
        assert(packages_view(out@) =~= Seq::<PackageView>::empty());
    }
    while i < items.len()
        invariant
            i <= items.len(),
            packages_of(items@.take(i as int)) == Ok::<Seq<PackageView>, DecodeError>(packages_view(out@)),
        decreases items.len() - i,
    {
        proof {
            assert(items@.take(i + 1).drop_last() =~= items@.take(i as int));
            assert(items@.take(i + 1).last() == items@[i as int]);
        }
        match decode_package(Some(&items[i]), Location::Package(i)) {
            Ok(p) => {
                let ghost before = out@;
                out.push(p);
                proof {
                    assert(packages_view(out@) =~= packages_view(before).push(p@));
                }
            },
            Err(e) => {
                proof {
                    lemma_packages_prefix_error(items@, i + 1);
                }
                return Err(e);
            },
        }
        i = i + 1;
    }
    proof {
        assert(items@.take(items.len() as int) =~= items@);
    }
    Ok(out)
}

/// Decodes a document tree as a lockfile.
pub fn decode_lockfile(doc: &Node) -> (r: Result<Lockfile, DecodeError>)
    ensures
        result_view(r) == lockfile_of(*doc),
{
    match doc {
        Node::Table(_) => {},
        _ => {
            return Err(DecodeError { location: Location::Document, field: None, expected: Kind::Table, found: Some(doc.get_kind()) });
        },
    }
    let root = match decode_package(doc.get("root"), Location::Root) {
        Ok(p) => p,
        Err(e) => {
            return Err(e);
        },
    };
    let listed = doc.get("package");
    let package = match listed {
        None => {
            let ps: Vec<Package> = Vec::new();
            proof {
                assert(packages_view(ps@) =~= Seq::<PackageView>::empty());
            }
            ps
        },
        Some(Node::Array(items)) => match decode_packages(items) {
            Ok(ps) => ps,
            Err(e) => {
                return Err(e);
            },
        },
        _ => {
            return Err(DecodeError { location: Location::PackageList, field: None, expected: Kind::Array, found: found_kind(listed) });
        },
    };
    let r = Lockfile { root, package };
    proof {
        assert(r@.package =~= packages_view(package@));
    }
    Ok(r)
}

/// Parses the text of a `Cargo.lock`.
pub fn parse(s: &str) -> (r: Result<Lockfile, ReadError>)
    ensures
        match toml_document(s@) {
            None => r matches Err(ReadError::TomlErrors(_)),
            Some(doc) => match lockfile_of(doc) {
                Ok(l) => r matches Ok(x) && x@ == l,
                Err(e) => r matches Err(ReadError::DecodeError(d)) && d == e,
            },
        },
{
    let doc = match parse_document(s) {
        Ok(doc) => doc,
        Err(errs) => {
            return Err(ReadError::TomlErrors(errs));
        },
    };
    match decode_lockfile(&doc) {
        Ok(l) => Ok(l),
        Err(e) => Err(ReadError::DecodeError(e)),
    }
}

} // verus!
