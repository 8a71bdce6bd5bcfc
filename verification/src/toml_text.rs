//! TOML text as a document, by the `toml` crate. What the crate makes of a
//! text is taken as given; what the library makes of the document is proved.

use vstd::prelude::*;
use crate::config::AssetConfig;
use crate::document::{
    entries_view, items_view, lemma_array_view, lemma_table_view, Document, Node,
};
use crate::nesting::{nesting, nesting_of, MAX_NESTING};
use crate::schema::{config_from, SchemaError};
use crate::text::{decimal, decimal_string};

verus! {

/// `toml::Value`, the crate's document tree. The verifier does not look
/// inside; `value_node` names what a value holds.
#[verifier::external_type_specification]
#[verifier::external_body]
pub struct ExValue(toml::Value);

/// `toml::de::Error`, the crate's parse error. It is carried to
/// `error_message` and nothing is known of it.
#[verifier::external_type_specification]
#[verifier::external_body]
pub struct ExError(toml::de::Error);

/// What `toml::from_str` makes of a text when it is asked for a
/// `toml::Value`: the tree of the document, or nothing where it refuses the
/// text.
pub uninterp spec fn toml_document(text: Seq<char>) -> Option<Node>;

/// The tree that a `toml::Value` holds: variant for variant with the same
/// payload, a float by the bits of the double, a datetime by the text that
/// its `Display` writes, an array by its items in order and a table by its
/// entries in the order in which the crate's map iterates.
pub uninterp spec fn value_node(value: toml::Value) -> Node;

/// Calls `toml::from_str::<toml::Value>`. Trusted: the call is a function of
/// the text alone, so its outcome has a name. The crate parses by recursive
/// descent and sets no limit to the nesting: it descends once for each open
/// bracket or brace of a value, and builds the value through one more level
/// for each key of a table header or of a dotted key. The text is therefore
/// asked to nest no deeper than `MAX_NESTING`, which keeps the descent
/// within a few hundred levels.
#[verifier::external_body]
fn toml_from_str(text: &str) -> (parsed: Result<toml::Value, toml::de::Error>)
    requires
        nesting(text@) <= MAX_NESTING,
    ensures
        match parsed {
            Ok(value) => toml_document(text@) == Some(value_node(value)),
            Err(_) => toml_document(text@) is None,
        },
{
    toml::from_str::<toml::Value>(text)
}

/// One level of a `toml::Value`: a value without parts as a document, an
/// array by its items, a table by its entries.
enum Opened<'a> {
    Scalar(Document),
    Array(&'a Vec<toml::Value>),
    Table(Vec<(&'a String, &'a toml::Value)>),
}

/// The trees of the items of an array of the crate.
spec fn item_nodes(items: Seq<toml::Value>) -> Seq<Node> {
    Seq::new(items.len(), |i: int| value_node(items[i]))
}

/// The keys of the entries of a table of the crate, each with the tree of
/// its value.
spec fn entry_nodes(entries: Seq<(&String, &toml::Value)>) -> Seq<(Seq<char>, Node)> {
    Seq::new(entries.len(), |i: int| (entries[i].0@, value_node(*entries[i].1)))
}

/// Takes a `toml::Value` apart by one level, variant by variant. Trusted:
/// it reads the fields of the crate's `Value` enum, writes a datetime by its
/// `Display`, and lists a table by `Map::iter`; what it hands out is what
/// `value_node` names.
#[verifier::external_body]
fn open_value<'a>(value: &'a toml::Value) -> (opened: Opened<'a>)
    ensures
        match opened {
            Opened::Scalar(document) => document@ == value_node(*value),
            Opened::Array(items) => value_node(*value) == Node::Array(item_nodes(items@)),
            Opened::Table(entries) => value_node(*value) == Node::Table(entry_nodes(entries@)),
        },
{
    match value {
        toml::Value::String(text) => Opened::Scalar(Document::String(text.clone())),
        toml::Value::Integer(value) => Opened::Scalar(Document::Integer(*value)),
        toml::Value::Float(value) => Opened::Scalar(Document::Float(value.to_bits())),
        toml::Value::Boolean(value) => Opened::Scalar(Document::Boolean(*value)),
        toml::Value::Datetime(value) => Opened::Scalar(Document::Datetime(value.to_string())),
        toml::Value::Array(items) => Opened::Array(items),
        toml::Value::Table(entries) => Opened::Table(entries.iter().collect()),
    }
}

/// Copies a `toml::Value` into a document, level by level.
fn document_of(value: &toml::Value) -> (document: Document)
    ensures
        document@ == value_node(*value),
    decreases value_node(*value),
{
    match open_value(value) {
        Opened::Scalar(document) => document,
        Opened::Array(items) => {
            let mut copied: Vec<Document> = Vec::new();
            let mut at: usize = 0;
            while at < items.len()
                invariant
                    at <= items.len(),
                    copied@.len() == at,
                    value_node(*value) == Node::Array(item_nodes(items@)),
                    forall|i: int| 0 <= i < at ==> (#[trigger] copied@[i])@ == value_node(items@[i]),
                decreases items.len() - at,
            {
                proof {
                    let nodes = item_nodes(items@);
                    assert(nodes[at as int] == value_node(items@[at as int]));
                    assert(decreases_to!(nodes => nodes[at as int]));
                    let whole = value_node(*value);
                    assert(whole is Array);
                    assert(whole->Array_0 == nodes);
                    assert(decreases_to!(whole => whole->Array_0));
                }
                copied.push(document_of(&items[at]));
                at += 1;
            }
            proof {
                lemma_array_view(copied);
                assert(items_view(copied@) =~= item_nodes(items@));
            }
            Document::Array(copied)
        },
        Opened::Table(entries) => {
            let mut copied: Vec<(String, Document)> = Vec::new();
            let mut at: usize = 0;
            while at < entries.len()
                invariant
                    at <= entries.len(),
                    copied@.len() == at,
                    value_node(*value) == Node::Table(entry_nodes(entries@)),
                    forall|i: int|
                        0 <= i < at ==> (#[trigger] copied@[i]).0@ == entries@[i].0@ && copied@[i].1@
                            == value_node(*entries@[i].1),
                decreases entries.len() - at,
            {
                proof {
                    let nodes = entry_nodes(entries@);
                    assert(nodes[at as int] == (
                        entries@[at as int].0@,
                        value_node(*entries@[at as int].1),
                    ));
                    assert(decreases_to!(nodes => nodes[at as int]));
                    assert(decreases_to!(nodes[at as int] => nodes[at as int].1));
                    let whole = value_node(*value);
                    assert(whole is Table);
                    assert(whole->Table_0 == nodes);
                    assert(decreases_to!(whole => whole->Table_0));
                }
                let key = entries[at].0.clone();
                let item = document_of(entries[at].1);
                copied.push((key, item));
                at += 1;
            }
            proof {
                lemma_table_view(copied);
                assert(entries_view(copied@) =~= entry_nodes(entries@));
            }
            Document::Table(copied)
        },
    }
}

/// The message of a `toml::de::Error`, by its `Display`. Trusted; nothing
/// is claimed of the text.
#[verifier::external_body]
fn error_message(error: &toml::de::Error) -> (message: String) {
    error.to_string()
}

/// Why a text is no configuration.
#[derive(Debug, Clone, PartialEq, Eq)]
pub enum ConfigParseError {
    /// The text can nest `depth` levels deep, which is more than
    /// `MAX_NESTING`; it is not parsed.
    Nesting { depth: usize },
    /// The text is no TOML document; `message` is the parser's.
    Syntax { message: String },
    /// The document does not fit the schema.
    Schema(SchemaError),
}

/// The message for a text that can nest `depth` levels deep.
pub open spec fn nesting_message(depth: usize) -> Seq<char> {
    "the text nests "@ + decimal(depth as nat) + " levels deep, more than "@ + decimal(
        MAX_NESTING as nat,
    )
}

impl ConfigParseError {
    /// The message for the operator.
    pub fn message(&self) -> (message: String)
        ensures
            match self {
                ConfigParseError::Nesting { depth } => message@ == nesting_message(*depth),
                ConfigParseError::Syntax { message: text } => message@ == text@,
                ConfigParseError::Schema(error) => message@ == error@.message(),
            },
    {
        match self {
            ConfigParseError::Nesting { depth } => String::from_str("the text nests ").concat(
                decimal_string(*depth as u64).as_str(),
            ).concat(" levels deep, more than ").concat(
                decimal_string(MAX_NESTING as u64).as_str(),
            ),
            ConfigParseError::Syntax { message } => message.clone(),
            ConfigParseError::Schema(error) => error.message(),
        }
    }
}

/// Reads a TOML text into a document. A text that can nest deeper than
/// `MAX_NESTING` is refused before it is parsed, with its depth; any other
/// text is parsed, and refused where it is no TOML document.
pub fn parse_document(text: &str) -> (parsed: Result<Document, ConfigParseError>)
    ensures
        if nesting(text@) > MAX_NESTING {
            parsed matches Err(ConfigParseError::Nesting { depth }) && depth == nesting(text@)
        } else {
            match toml_document(text@) {
                Some(node) => parsed matches Ok(document) && document@ == node,
                None => parsed matches Err(ConfigParseError::Syntax { .. }),
            }
        },
{
    let depth = nesting_of(text);
    if depth > MAX_NESTING {
        return Err(ConfigParseError::Nesting { depth });
    }
    match toml_from_str(text) {
        Ok(value) => Ok(document_of(&value)),
        Err(error) => Err(ConfigParseError::Syntax { message: error_message(&error) }),
    }
}

/// Reads a configuration out of a TOML text. A text that can nest deeper
/// than `MAX_NESTING` is refused before it is parsed; any other text is
/// parsed, and the document is read as `AssetConfig::from_document` reads
/// it.
pub fn parse_config(text: &str) -> (parsed: Result<AssetConfig, ConfigParseError>)
    ensures
        if nesting(text@) > MAX_NESTING {
            parsed matches Err(ConfigParseError::Nesting { depth }) && depth == nesting(text@)
        } else {
            match toml_document(text@) {
                Some(node) => match config_from(node) {
                    Ok(config) => parsed matches Ok(c) && c@ == config && c@.wf(),
                    Err(fault) => parsed matches Err(ConfigParseError::Schema(error)) && error@
                        == fault,
                },
                None => parsed matches Err(ConfigParseError::Syntax { .. }),
            }
        },
{
    match parse_document(text) {
        Ok(document) => match AssetConfig::from_document(&document) {
            Ok(config) => Ok(config),
            Err(error) => Err(ConfigParseError::Schema(error)),
        },
        Err(error) => Err(error),
    }
}

} // verus!
