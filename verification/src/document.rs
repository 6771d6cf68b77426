//! A configuration document as a tree of plain values, the TOML parser that
//! produces it, and the readers that take typed fields out of a table.

use crate::text::same_text;
use vstd::prelude::*;

verus! {

/// One value of a document. A real number is held as the bit pattern of
/// its IEEE-754 double, a date as its text.
#[derive(Debug, PartialEq, Eq)]
pub enum Node {
    Text(String),
    Integer(i64),
    Real(u64),
    Flag(bool),
    Moment(String),
    List(Vec<Node>),
    Table(Vec<Entry>),
}

/// One key of a table with the value stored under it.
#[derive(Debug, PartialEq, Eq)]
pub struct Entry {
    pub key: String,
    pub value: Node,
}

/// `toml::de::Error`, the error of the parser: carried through, never
/// looked into.
#[verifier::external_type_specification]
#[verifier::external_body]
pub struct ExTomlError(toml::de::Error);

/// `toml::Value`, the parser's own tree: carried from the parser to the
/// conversion, never looked into by verified code.
#[verifier::external_type_specification]
#[verifier::external_body]
pub struct ExTomlValue(toml::Value);

/// What `toml::from_str::<toml::Value>` makes of a text: the document as a
/// tree, or nothing where the text is no well-formed TOML.
pub uninterp spec fn toml_document(text: Seq<char>) -> Option<Node>;

/// `toml::Value` as a tree of plain values, variant for variant: a string,
/// an integer and a boolean as they are, a float by `f64::to_bits`, a date
/// by its `Display` text, an array item by item, and a table entry by entry
/// in the order in which `toml::map::Map::iter` hands them out.
#[verifier::external_body]
fn lift(value: &toml::Value) -> Node {
    match value {
        toml::Value::String(s) => Node::Text(s.clone()),
        toml::Value::Integer(i) => Node::Integer(*i),
        toml::Value::Float(x) => Node::Real(x.to_bits()),
        toml::Value::Boolean(b) => Node::Flag(*b),
        toml::Value::Datetime(d) => Node::Moment(d.to_string()),
        toml::Value::Array(a) => Node::List(a.iter().map(lift).collect()),
        toml::Value::Table(t) => Node::Table(
            t.iter().map(|(k, v)| Entry { key: k.clone(), value: lift(v) }).collect(),
        ),
    }
}

/// `toml::from_str::<toml::Value>`: the tree of the document that the text
/// spells, or the parser's error. The tree is a function of the text
/// alone, which is all that the contract claims of it.
#[verifier::external_body]
fn parse_toml(text: &str) -> (r: Result<Node, toml::de::Error>)
    ensures
        match r {
            Ok(node) => toml_document(text@) == Some(node),
            Err(_) => toml_document(text@) is None,
        },
{
    match toml::from_str::<toml::Value>(text) {
        Ok(value) => Ok(lift(&value)),
        Err(e) => Err(e),
    }
}

/// The `Display` text of a parser error, position and excerpt included.
/// Nothing is claimed of the text.
#[verifier::external_body]
fn parse_error_text(error: &toml::de::Error) -> String {
    error.to_string()
}

/// Parses `text` as TOML: the tree of the document, or the parser's
/// message where the text is not well formed.
pub fn parse_document(text: &str) -> (r: Result<Node, String>)
    ensures
        match r {
            Ok(node) => toml_document(text@) == Some(node),
            Err(_) => toml_document(text@) is None,
        },
{
    match parse_toml(text) {
        Ok(node) => Ok(node),
        Err(e) => Err(parse_error_text(&e)),
    }
}

// ---------------------------------------------------------------------------
// Reading a table
// ---------------------------------------------------------------------------

/// Whether `i` is the place of the first entry with the key `key`.
pub open spec fn is_first_entry(entries: Seq<Entry>, key: Seq<char>, i: int) -> bool {
    &&& 0 <= i < entries.len()
    &&& entries[i].key@ == key
    &&& forall|j: int| 0 <= j < i ==> (#[trigger] entries[j]).key@ != key
}

/// The value under `key`: that of the first entry with this key.
pub open spec fn lookup(entries: Seq<Entry>, key: Seq<char>) -> Option<Node> {
    if exists|i: int| is_first_entry(entries, key, i) {
        Some(entries[choose|i: int| is_first_entry(entries, key, i)].value)
    } else {
        None
    }
}

/// The first entry under a key is the one that `lookup` finds.
pub proof fn lemma_first_entry(entries: Seq<Entry>, key: Seq<char>, i: int)
    requires
        is_first_entry(entries, key, i),
    ensures
        lookup(entries, key) == Some(entries[i].value),
{
    let k = choose|k: int| is_first_entry(entries, key, k);
    if k < i {
        assert(entries[k].key@ != key);
    } else if i < k {
        assert(entries[i].key@ != key);
    }
}

/// The value under `key` in a table.
pub fn get<'a>(entries: &'a Vec<Entry>, key: &str) -> (r: Option<&'a Node>)
    ensures
        match r {
            Some(node) => lookup(entries@, key@) == Some(*node),
            None => lookup(entries@, key@) is None,
        },
{
    let mut i: usize = 0;
    while i < entries.len()
        invariant
            i <= entries.len(),
            forall|j: int| 0 <= j < i ==> (#[trigger] entries@[j]).key@ != key@,
        decreases entries.len() - i,
    {
        if same_text(entries[i].key.as_str(), key) {
            proof {
                lemma_first_entry(entries@, key@, i as int);
            }
            return Some(&entries[i].value);
        }
        i += 1;
    }
    None
}

/// The text under `key`, where a text stands there.
pub open spec fn text_at(entries: Seq<Entry>, key: Seq<char>) -> Option<Seq<char>> {
    match lookup(entries, key) {
        Some(Node::Text(s)) => Some(s@),
        _ => None,
    }
}

/// The integer under `key`, where an integer stands there.
pub open spec fn integer_at(entries: Seq<Entry>, key: Seq<char>) -> Option<i64> {
    match lookup(entries, key) {
        Some(Node::Integer(i)) => Some(i),
        _ => None,
    }
}

/// The boolean under `key`, where a boolean stands there.
pub open spec fn flag_at(entries: Seq<Entry>, key: Seq<char>) -> Option<bool> {
    match lookup(entries, key) {
        Some(Node::Flag(b)) => Some(b),
        _ => None,
    }
}

/// The entries of the table under `key`, where a table stands there.
pub open spec fn table_at(entries: Seq<Entry>, key: Seq<char>) -> Option<Seq<Entry>> {
    match lookup(entries, key) {
        Some(Node::Table(t)) => Some(t@),
        _ => None,
    }
}

/// The items of the array under `key`, where an array stands there.
pub open spec fn list_at(entries: Seq<Entry>, key: Seq<char>) -> Option<Seq<Node>> {
    match lookup(entries, key) {
        Some(Node::List(l)) => Some(l@),
        _ => None,
    }
}

/// No entry of the table has the key.
pub open spec fn absent(entries: Seq<Entry>, key: Seq<char>) -> bool {
    lookup(entries, key) is None
}

/// The text under `key`, where a text stands there.
pub fn get_text<'a>(entries: &'a Vec<Entry>, key: &str) -> (r: Option<&'a String>)
    ensures
        match r {
            Some(s) => text_at(entries@, key@) == Some(s@),
            None => text_at(entries@, key@) is None,
        },
{
    match get(entries, key) {
        Some(Node::Text(s)) => Some(s),
        _ => None,
    }
}

/// The integer under `key`, where an integer stands there.
pub fn get_integer(entries: &Vec<Entry>, key: &str) -> (r: Option<i64>)
    ensures
        r == integer_at(entries@, key@),
{
    match get(entries, key) {
        Some(Node::Integer(i)) => Some(*i),
        _ => None,
    }
}

/// The boolean under `key`, where a boolean stands there.
pub fn get_flag(entries: &Vec<Entry>, key: &str) -> (r: Option<bool>)
    ensures
        r == flag_at(entries@, key@),
{
    match get(entries, key) {
        Some(Node::Flag(b)) => Some(*b),
        _ => None,
    }
}

/// The table under `key`, where a table stands there.
pub fn get_table<'a>(entries: &'a Vec<Entry>, key: &str) -> (r: Option<&'a Vec<Entry>>)
    ensures
        match r {
            Some(t) => table_at(entries@, key@) == Some(t@),
            None => table_at(entries@, key@) is None,
        },
{
    match get(entries, key) {
        Some(Node::Table(t)) => Some(t),
        _ => None,
    }
}

/// The array under `key`, where an array stands there.
pub fn get_list<'a>(entries: &'a Vec<Entry>, key: &str) -> (r: Option<&'a Vec<Node>>)
    ensures
        match r {
            Some(l) => list_at(entries@, key@) == Some(l@),
            None => list_at(entries@, key@) is None,
        },
{
    match get(entries, key) {
        Some(Node::List(l)) => Some(l),
        _ => None,
    }
}

/// Whether no entry of the table has the key.
pub fn is_absent(entries: &Vec<Entry>, key: &str) -> (r: bool)
    ensures
        r == absent(entries@, key@),
{
    get(entries, key).is_none()
}

} // verus!
