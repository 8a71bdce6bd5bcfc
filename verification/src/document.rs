//! A configuration document as a tree of plain values: what a TOML text
//! says, before any schema is applied to it.

use vstd::prelude::*;

verus! {

/// A value of a document. A table keeps its entries as a list of keys with
/// their values.
#[derive(Debug, PartialEq)]
pub enum Document {
    String(String),
    Integer(i64),
    /// A fractional number, by the bit pattern of its IEEE 754 double.
    Float(u64),
    Boolean(bool),
    /// A date, a time or both, as the document writes it.
    Datetime(String),
    Array(Vec<Document>),
    Table(Vec<(String, Document)>),
}

/// The tree that a `Document` stands for.
pub enum Node {
    String(Seq<char>),
    Integer(i64),
    Float(u64),
    Boolean(bool),
    Datetime(Seq<char>),
    Array(Seq<Node>),
    Table(Seq<(Seq<char>, Node)>),
}

impl View for Document {
    type V = Node;

    open spec fn view(&self) -> Node {
        node_of(*self)
    }
}

/// The tree that `document` stands for.
pub open spec fn node_of(document: Document) -> Node
    decreases document, 0nat,
{
    match document {
        Document::String(text) => Node::String(text@),
        Document::Integer(value) => Node::Integer(value),
        Document::Float(bits) => Node::Float(bits),
        Document::Boolean(value) => Node::Boolean(value),
        Document::Datetime(text) => Node::Datetime(text@),
        Document::Array(items) => Node::Array(nodes_of(items@, items@.len())),
        Document::Table(entries) => Node::Table(entry_nodes_of(entries@, entries@.len())),
    }
}

/// The trees of the first `n` of `items`.
pub open spec fn nodes_of(items: Seq<Document>, n: nat) -> Seq<Node>
    decreases items, n,
{
    if n == 0 || n > items.len() {
        Seq::empty()
    } else {
        nodes_of(items, (n - 1) as nat).push(node_of(items[n - 1]))
    }
}

/// The first `n` of `entries`, each with the tree of its value.
pub open spec fn entry_nodes_of(entries: Seq<(String, Document)>, n: nat) -> Seq<
    (Seq<char>, Node),
>
    decreases entries, n,
{
    if n == 0 || n > entries.len() {
        Seq::empty()
    } else {
        entry_nodes_of(entries, (n - 1) as nat).push(
            (entries[n - 1].0@, node_of(entries[n - 1].1)),
        )
    }
}

/// The views of the items of an array.
pub open spec fn items_view(items: Seq<Document>) -> Seq<Node> {
    Seq::new(items.len(), |i: int| items[i]@)
}

/// The views of the entries of a table.
pub open spec fn entries_view(entries: Seq<(String, Document)>) -> Seq<(Seq<char>, Node)> {
    Seq::new(entries.len(), |i: int| (entries[i].0@, entries[i].1@))
}

proof fn lemma_nodes_of(items: Seq<Document>, n: nat)
    requires
        n <= items.len(),
    ensures
        nodes_of(items, n) == items_view(items).take(n as int),
    decreases n,
{
    if n > 0 {
        lemma_nodes_of(items, (n - 1) as nat);
    }
    assert(nodes_of(items, n) =~= items_view(items).take(n as int));
}

proof fn lemma_entry_nodes_of(entries: Seq<(String, Document)>, n: nat)
    requires
        n <= entries.len(),
    ensures
        entry_nodes_of(entries, n) == entries_view(entries).take(n as int),
    decreases n,
{
    if n > 0 {
        lemma_entry_nodes_of(entries, (n - 1) as nat);
    }
    assert(entry_nodes_of(entries, n) =~= entries_view(entries).take(n as int));
}

/// An array's view is the views of its items.
pub proof fn lemma_array_view(items: Vec<Document>)
    ensures
        Document::Array(items)@ == Node::Array(items_view(items@)),
{
    lemma_nodes_of(items@, items@.len());
    assert(items_view(items@).take(items@.len() as int) =~= items_view(items@));
}

/// A table's view is the views of its entries.
pub proof fn lemma_table_view(entries: Vec<(String, Document)>)
    ensures
        Document::Table(entries)@ == Node::Table(entries_view(entries@)),
{
    lemma_entry_nodes_of(entries@, entries@.len());
    assert(entries_view(entries@).take(entries@.len() as int) =~= entries_view(entries@));
}

} // verus!
