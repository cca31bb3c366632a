//! A parsed TOML document as a plain tree, and the lookups that the readers
//! of lockfiles and manifests make in it.

use vstd::prelude::*;

verus! {

/// The type of a document value, as TOML names it.
#[derive(Clone, Copy, Debug, PartialEq, Eq, Structural)]
pub enum Kind {
    String,
    Integer,
    Float,
    Boolean,
    Datetime,
    Array,
    Table,
}

impl Kind {
    /// The type's name, as it appears in messages.
    pub open spec fn name(self) -> Seq<char> {
        match self {
            Kind::String => "string"@,
            Kind::Integer => "integer"@,
            Kind::Float => "float"@,
            Kind::Boolean => "boolean"@,
            Kind::Datetime => "datetime"@,
            Kind::Array => "array"@,
            Kind::Table => "table"@,
        }
    }

    pub fn type_str(&self) -> (r: &'static str)
        ensures
            r@ == self.name(),
    {
        proof {
            reveal_strlit("string");
            reveal_strlit("integer");
            reveal_strlit("float");
            reveal_strlit("boolean");
            reveal_strlit("datetime");
            reveal_strlit("array");
            reveal_strlit("table");
        }
        match self {
            Kind::String => "string",
            Kind::Integer => "integer",
            Kind::Float => "float",
            Kind::Boolean => "boolean",
            Kind::Datetime => "datetime",
            Kind::Array => "array",
            Kind::Table => "table",
        }
    }
}

/// A value of a parsed document. A float is kept by its kind only: nothing
/// here reads its number. A table keeps its entries in key order.
#[derive(Debug)]
pub enum Node {
    String(String),
    Integer(i64),
    Float,
    Boolean(bool),
    Datetime(String),
    Array(Vec<Node>),
    Table(Vec<(String, Node)>),
}

/// The value stored under `key` among `entries`: the first entry with that key.
pub open spec fn entry_get(entries: Seq<(String, Node)>, key: Seq<char>) -> Option<Node>
    decreases entries.len(),
{
    if entries.len() == 0 {
        None
    } else {
        match entry_get(entries.drop_last(), key) {
            Some(v) => Some(v),
            None => if entries.last().0@ == key {
                Some(entries.last().1)
            } else {
                None
            },
        }
    }
}

impl Node {
    pub open spec fn kind(self) -> Kind {
        match self {
            Node::String(_) => Kind::String,
            Node::Integer(_) => Kind::Integer,
            Node::Float => Kind::Float,
            Node::Boolean(_) => Kind::Boolean,
            Node::Datetime(_) => Kind::Datetime,
            Node::Array(_) => Kind::Array,
            Node::Table(_) => Kind::Table,
        }
    }

    /// The value under `key` when this is a table; nothing otherwise.
    pub open spec fn lookup(self, key: Seq<char>) -> Option<Node> {
        match self {
            Node::Table(entries) => entry_get(entries@, key),
            _ => None,
        }
    }

    pub fn get_kind(&self) -> (r: Kind)
        ensures
            r == self.kind(),
    {
        match self {
            Node::String(_) => Kind::String,
            Node::Integer(_) => Kind::Integer,
            Node::Float => Kind::Float,
            Node::Boolean(_) => Kind::Boolean,
            Node::Datetime(_) => Kind::Datetime,
            Node::Array(_) => Kind::Array,
            Node::Table(_) => Kind::Table,
        }
    }

    /// The name of this value's type ("string", "integer", ...).
    pub fn type_str(&self) -> (r: &'static str)
        ensures
            r@ == self.kind().name(),
    {
        self.get_kind().type_str()
    }

    /// The value under `key`, when this is a table that has that key.
    pub fn get(&self, key: &str) -> (r: Option<&Node>)
        ensures
            match r {
                Some(v) => self.lookup(key@) == Some(*v),
                None => self.lookup(key@) is None,
            },
    {
        match self {
            Node::Table(entries) => {
                let mut i: usize = 0;
                while i < entries.len()
                    invariant
                        0 <= i <= entries.len(),
                        self.lookup(key@) == entry_get(entries@, key@),
                        entry_get(entries@.take(i as int), key@) is None,
                    decreases entries.len() - i,
                {
                    proof {
                        assert(entries@.take(i + 1).drop_last() =~= entries@.take(i as int));
                    }
                    if str_eq(&entries[i].0, key) {
                        proof {
                            assert(entries@.take(i + 1).last() == entries@[i as int]);
                            assert(entry_get(entries@.take(i + 1), key@) == Some(entries@[i as int].1));
                            lemma_entry_get_prefix(entries@, key@, i + 1);
                        }
                        return Some(&entries[i].1);
                    }
                    i = i + 1;
                }
                proof {
                    assert(entries@.take(entries.len() as int) =~= entries@);
                }
                None
            },
            _ => None,
        }
    }
}

/// A hit in a prefix of the entries is the hit of the whole.
pub proof fn lemma_entry_get_prefix(entries: Seq<(String, Node)>, key: Seq<char>, n: int)
    requires
        0 <= n <= entries.len(),
        entry_get(entries.take(n), key) is Some,
    ensures
        entry_get(entries, key) == entry_get(entries.take(n), key),
    decreases entries.len() - n,
{
    if n < entries.len() {
        assert(entries.take(n + 1).drop_last() =~= entries.take(n));
        lemma_entry_get_prefix(entries, key, n + 1);
    } else {
        assert(entries.take(n) =~= entries);
    }
}

/// Whether `s` holds the characters of `t`.
pub fn str_eq(s: &String, t: &str) -> (r: bool)
    ensures
        r == (s@ == t@),
{
    let owned = t.to_owned();
    *s == owned
}

/// The tree that toml's parser builds from a text, when the text is a
/// well-formed document.
pub uninterp spec fn toml_document(text: Seq<char>) -> Option<Node>;

#[verifier::external_type_specification]
#[verifier::external_body]
pub struct ExTomlValue(toml::Value);

/// Relies on toml's parser (`<toml::Value as FromStr>::from_str`): the tree it
/// builds depends on the text alone, its top level is a table, and on
/// malformed text it hands back the description of each syntax error.
#[verifier::external_body]
pub(crate) fn parse_document(text: &str) -> (r: Result<Node, Vec<String>>)
    ensures
        r is Ok <==> toml_document(text@) is Some,
        r matches Ok(v) ==> (toml_document(text@) == Some(v) && v is Table),
{
    match text.parse::<toml::Value>() {
        Ok(v) => Ok(from_toml(v)),
        Err(errs) => Err(errs.into_iter().map(|e| e.desc).collect()),
    }
}

/// Moves a tree built by toml's parser into a `Node`, node for node.
#[verifier::external_body]
fn from_toml(v: toml::Value) -> Node {
    match v {
        toml::Value::String(s) => Node::String(s),
        toml::Value::Integer(i) => Node::Integer(i),
        toml::Value::Float(_) => Node::Float,
        toml::Value::Boolean(b) => Node::Boolean(b),
        toml::Value::Datetime(s) => Node::Datetime(s),
        toml::Value::Array(a) => Node::Array(a.into_iter().map(from_toml).collect()),
        toml::Value::Table(t) => Node::Table(t.into_iter().map(|(k, x)| (k, from_toml(x))).collect()),
    }
}

} // verus!
