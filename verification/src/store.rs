//! Writing a configuration as a document, and the law that reading it back
//! gives the configuration again.

use vstd::prelude::*;
use crate::config::{
    assets_view, files_view, sails_view, AssetConfig, AssetView, Assets, ConfigView, Number,
    SailParams, SailView, SingleAssetConfig,
};
use crate::document::{entries_view, items_view, lemma_array_view, lemma_table_view, Document, Node};
use crate::keyed::{distinct, keys, lemma_index_of, lemma_lookup_push, lookup};
use crate::schema::{
    asset_from, asset_reader, assets_from, collected, config_from, file_reader,
    lemma_collected_all, repeats, sail_from, sail_reader, section, text_reader, Fields, Place,
    SchemaFault,
};
use crate::text::texts;

verus! {

/// A field of a table that is written only where it has a value.
pub type Slots = Seq<(Seq<char>, Option<Node>)>;

/// The entries that the first `n` slots write: those that have a value, in
/// order.
pub open spec fn present(slots: Slots, n: int) -> Fields
    decreases n,
{
    if n <= 0 {
        Seq::empty()
    } else if slots[n - 1].1 is Some {
        present(slots, n - 1).push((slots[n - 1].0, slots[n - 1].1->0))
    } else {
        present(slots, n - 1)
    }
}

/// A whole number as a node.
pub open spec fn integer_node(value: u32) -> Node {
    Node::Integer(value as i64)
}

/// A number as a node.
pub open spec fn number_node(number: Number) -> Node {
    match number {
        Number::Integer(value) => Node::Integer(value),
        Number::Float(bits) => Node::Float(bits),
    }
}

/// An optional whole number as the value of a slot.
pub open spec fn integer_slot(value: Option<u32>) -> Option<Node> {
    match value {
        Some(value) => Some(integer_node(value)),
        None => None,
    }
}

/// An optional string as the value of a slot.
pub open spec fn text_slot(value: Option<Seq<char>>) -> Option<Node> {
    match value {
        Some(text) => Some(Node::String(text)),
        None => None,
    }
}

/// An optional number as the value of a slot.
pub open spec fn number_slot(value: Option<Number>) -> Option<Node> {
    match value {
        Some(number) => Some(number_node(number)),
        None => None,
    }
}

/// The fields of an asset in the schema's order, each with what it writes.
pub open spec fn asset_slots(asset: AssetView) -> Slots {
    seq![
        ("width"@, Some(integer_node(asset.width))),
        ("height"@, integer_slot(asset.height)),
        ("z_local_frames"@, Some(integer_node(asset.z_local_frames))),
        ("z_frames"@, Some(integer_node(asset.z_frames))),
        ("x_frames"@, Some(integer_node(asset.x_frames))),
        ("object"@, Some(Node::String(asset.object))),
        ("output"@, text_slot(asset.output)),
        ("mass"@, integer_slot(asset.mass)),
        ("optical_size"@, Some(number_node(asset.optical_size))),
        ("logical_size"@, number_slot(asset.logical_size)),
    ]
}

/// The table of an asset: every field that has a value, none for one that
/// has not.
pub open spec fn asset_fields(asset: AssetView) -> Fields {
    present(asset_slots(asset), 10)
}

/// The array of a list of strings.
pub open spec fn texts_node(items: Seq<Seq<char>>) -> Node {
    Node::Array(Seq::new(items.len(), |i: int| Node::String(items[i])))
}

/// The fields of a sail in the schema's order, each with what it writes.
pub open spec fn sail_slots(sail: SailView) -> Slots {
    seq![
        ("mast_offset"@, Some(number_node(sail.mast_offset))),
        ("area"@, Some(number_node(sail.area))),
        ("reefing_stages"@, Some(texts_node(sail.reefing_stages))),
    ]
}

/// The table of a sail.
pub open spec fn sail_fields(sail: SailView) -> Fields {
    present(sail_slots(sail), 3)
}

/// The table of the assets of one source file.
pub open spec fn assets_fields(assets: Seq<(Seq<char>, AssetView)>) -> Fields {
    Seq::new(assets.len(), |j: int| (assets[j].0, Node::Table(asset_fields(assets[j].1))))
}

/// The table of the source files.
pub open spec fn files_fields(files: Seq<(Seq<char>, Seq<(Seq<char>, AssetView)>)>) -> Fields {
    Seq::new(files.len(), |i: int| (files[i].0, Node::Table(assets_fields(files[i].1))))
}

/// The table of the sails.
pub open spec fn sails_fields(sails: Seq<(Seq<char>, SailView)>) -> Fields {
    Seq::new(sails.len(), |i: int| (sails[i].0, Node::Table(sail_fields(sails[i].1))))
}

/// The two tables of a configuration, each with what it writes.
pub open spec fn config_slots(config: ConfigView) -> Slots {
    seq![
        ("file"@, Some(Node::Table(files_fields(config.file)))),
        ("sail"@, Some(Node::Table(sails_fields(config.sail)))),
    ]
}

/// The root table of a configuration.
pub open spec fn config_fields(config: ConfigView) -> Fields {
    present(config_slots(config), 2)
}

/// The document of a configuration: the tables `file` and `sail`, every
/// entry in the configuration's order, every field under the schema's name.
pub open spec fn config_node(config: ConfigView) -> Node {
    Node::Table(config_fields(config))
}

/// Puts `value` under `key` at the end of `fields`, where there is a value.
fn put(fields: &mut Vec<(String, Document)>, key: &str, value: Option<Document>)
    ensures
        entries_view(final(fields)@) == match value {
            Some(value) => entries_view(old(fields)@).push((key@, value@)),
            None => entries_view(old(fields)@),
        },
{
    match value {
        Some(value) => {
            let ghost before = entries_view(fields@);
            let ghost added = (key@, value@);
            fields.push((String::from_str(key), value));
            assert(entries_view(fields@) =~= before.push(added));
        },
        None => {},
    }
}

fn integer_document(value: u32) -> (document: Document)
    ensures
        document@ == integer_node(value),
{
    Document::Integer(value as i64)
}

fn number_document(number: Number) -> (document: Document)
    ensures
        document@ == number_node(number),
{
    match number {
        Number::Integer(value) => Document::Integer(value),
        Number::Float(bits) => Document::Float(bits),
    }
}

fn write_asset(asset: &SingleAssetConfig) -> (document: Document)
    ensures
        document@ == Node::Table(asset_fields(asset@)),
{
    let mut fields: Vec<(String, Document)> = Vec::new();
    assert(entries_view(fields@) =~= Seq::empty());
    let height = match asset.height {
        Some(height) => Some(integer_document(height)),
        None => None,
    };
    let output = match &asset.output {
        Some(output) => Some(Document::String(output.clone())),
        None => None,
    };
    let mass = match asset.mass {
        Some(mass) => Some(integer_document(mass)),
        None => None,
    };
    let logical_size = match asset.logical_size {
        Some(size) => Some(number_document(size)),
        None => None,
    };
    proof {
        reveal_with_fuel(present, 11);
    }
    put(&mut fields, "width", Some(integer_document(asset.width)));
    put(&mut fields, "height", height);
    put(&mut fields, "z_local_frames", Some(integer_document(asset.z_local_frames)));
    put(&mut fields, "z_frames", Some(integer_document(asset.z_frames)));
    put(&mut fields, "x_frames", Some(integer_document(asset.x_frames)));
    put(&mut fields, "object", Some(Document::String(asset.object.clone())));
    put(&mut fields, "output", output);
    put(&mut fields, "mass", mass);
    put(&mut fields, "optical_size", Some(number_document(asset.optical_size)));
    put(&mut fields, "logical_size", logical_size);
    proof {
        lemma_table_view(fields);
    }
    Document::Table(fields)
}

fn write_texts(items: &Vec<String>) -> (document: Document)
    ensures
        document@ == texts_node(texts(items@)),
{
    let mut nodes: Vec<Document> = Vec::new();
    let mut at: usize = 0;
    while at < items.len()
        invariant
            at <= items.len(),
            nodes@.len() == at,
            forall|i: int| 0 <= i < at ==> (#[trigger] nodes@[i])@ == Node::String(items@[i]@),
        decreases items.len() - at,
    {
        nodes.push(Document::String(items[at].clone()));
        at += 1;
    }
    proof {
        lemma_array_view(nodes);
        assert(items_view(nodes@) =~= texts_node(texts(items@))->Array_0);
    }
    Document::Array(nodes)
}

fn write_sail(sail: &SailParams) -> (document: Document)
    ensures
        document@ == Node::Table(sail_fields(sail@)),
{
    let mut fields: Vec<(String, Document)> = Vec::new();
    assert(entries_view(fields@) =~= Seq::empty());
    put(&mut fields, "mast_offset", Some(number_document(sail.mast_offset)));
    put(&mut fields, "area", Some(number_document(sail.area)));
    put(&mut fields, "reefing_stages", Some(write_texts(&sail.reefing_stages)));
    proof {
        reveal_with_fuel(present, 4);
        lemma_table_view(fields);
    }
    Document::Table(fields)
}

fn write_assets(assets: &Assets) -> (document: Document)
    ensures
        document@ == Node::Table(assets_fields(assets_view(assets@))),
{
    let mut entries: Vec<(String, Document)> = Vec::new();
    let mut at: usize = 0;
    while at < assets.len()
        invariant
            at <= assets.len(),
            entries@.len() == at,
            forall|j: int|
                0 <= j < at ==> (#[trigger] entries@[j]).0@ == assets@[j].0@ && entries@[j].1@
                    == Node::Table(asset_fields(assets@[j].1@)),
        decreases assets.len() - at,
    {
        entries.push((assets[at].0.clone(), write_asset(&assets[at].1)));
        at += 1;
    }
    proof {
        lemma_table_view(entries);
        assert(entries_view(entries@) =~= assets_fields(assets_view(assets@)));
    }
    Document::Table(entries)
}

fn write_files(files: &Vec<(String, Assets)>) -> (document: Document)
    ensures
        document@ == Node::Table(files_fields(files_view(files@))),
{
    let mut entries: Vec<(String, Document)> = Vec::new();
    let mut at: usize = 0;
    while at < files.len()
        invariant
            at <= files.len(),
            entries@.len() == at,
            forall|i: int|
                0 <= i < at ==> (#[trigger] entries@[i]).0@ == files@[i].0@ && entries@[i].1@
                    == Node::Table(assets_fields(assets_view(files@[i].1@))),
        decreases files.len() - at,
    {
        entries.push((files[at].0.clone(), write_assets(&files[at].1)));
        at += 1;
    }
    proof {
        lemma_table_view(entries);
        assert(entries_view(entries@) =~= files_fields(files_view(files@)));
    }
    Document::Table(entries)
}

fn write_sails(sails: &Vec<(String, SailParams)>) -> (document: Document)
    ensures
        document@ == Node::Table(sails_fields(sails_view(sails@))),
{
    let mut entries: Vec<(String, Document)> = Vec::new();
    let mut at: usize = 0;
    while at < sails.len()
        invariant
            at <= sails.len(),
            entries@.len() == at,
            forall|i: int|
                0 <= i < at ==> (#[trigger] entries@[i]).0@ == sails@[i].0@ && entries@[i].1@
                    == Node::Table(sail_fields(sails@[i].1@)),
        decreases sails.len() - at,
    {
        entries.push((sails[at].0.clone(), write_sail(&sails[at].1)));
        at += 1;
    }
    proof {
        lemma_table_view(entries);
        assert(entries_view(entries@) =~= sails_fields(sails_view(sails@)));
    }
    Document::Table(entries)
}

impl AssetConfig {
    /// Writes the configuration as a document: the tables `file` and `sail`
    /// with every entry in order, every field under the name that
    /// `from_document` reads it by, and no entry for a field without a value.
    pub fn to_document(&self) -> (document: Document)
        ensures
            document@ == config_node(self@),
    {
        let mut root: Vec<(String, Document)> = Vec::new();
        assert(entries_view(root@) =~= Seq::empty());
        put(&mut root, "file", Some(write_files(&self.file)));
        put(&mut root, "sail", Some(write_sails(&self.sail)));
        proof {
            reveal_with_fuel(present, 3);
            lemma_table_view(root);
        }
        Document::Table(root)
    }
}

/// Among slots with distinct keys, the entries that the first `n` write have
/// for each slot's key the slot's value if the slot is among them, and
/// nothing otherwise.
pub proof fn lemma_present_lookup(slots: Slots, n: int, i: int)
    requires
        distinct(keys(slots)),
        0 <= n <= slots.len(),
        0 <= i < slots.len(),
    ensures
        lookup(present(slots, n), slots[i].0) == if i < n {
            slots[i].1
        } else {
            None
        },
    decreases n,
{
    if n <= 0 {
        lemma_index_of(keys(present(slots, n)), slots[i].0);
    } else {
        lemma_present_lookup(slots, n - 1, i);
        assert(keys(slots)[n - 1] == slots[n - 1].0);
        assert(keys(slots)[i] == slots[i].0);
        if slots[n - 1].1 is Some {
            lemma_lookup_push(present(slots, n - 1), slots[n - 1].0, slots[n - 1].1->0, slots[i].0);
        }
    }
}

/// The names of an asset's fields differ from each other.
proof fn lemma_asset_field_names(asset: AssetView)
    ensures
        distinct(keys(asset_slots(asset))),
{
    reveal_strlit("width");
    reveal_strlit("height");
    reveal_strlit("z_local_frames");
    reveal_strlit("z_frames");
    reveal_strlit("x_frames");
    reveal_strlit("object");
    reveal_strlit("output");
    reveal_strlit("mass");
    reveal_strlit("optical_size");
    reveal_strlit("logical_size");
    let names = keys(asset_slots(asset));
    assert(names.len() == 10);
    assert(names[0] == "width"@);
    assert(names[1] == "height"@);
    assert(names[2] == "z_local_frames"@);
    assert(names[3] == "z_frames"@);
    assert(names[4] == "x_frames"@);
    assert(names[5] == "object"@);
    assert(names[6] == "output"@);
    assert(names[7] == "mass"@);
    assert(names[8] == "optical_size"@);
    assert(names[9] == "logical_size"@);
    assert("z_frames"@[0] != "x_frames"@[0]);
    assert("object"@[1] != "output"@[1]);
    assert("optical_size"@[0] != "logical_size"@[0]);
    assert("height"@[0] != "object"@[0]);
    assert("height"@[0] != "output"@[0]);
}

/// Reading the table that an asset is written as gives the asset.
pub proof fn lemma_asset_round_trip(asset: AssetView, place: Place)
    ensures
        asset_from(asset_fields(asset), place) == Ok::<AssetView, SchemaFault>(asset),
{
    let slots = asset_slots(asset);
    lemma_asset_field_names(asset);
    lemma_present_lookup(slots, 10, 0);
    lemma_present_lookup(slots, 10, 1);
    lemma_present_lookup(slots, 10, 2);
    lemma_present_lookup(slots, 10, 3);
    lemma_present_lookup(slots, 10, 4);
    lemma_present_lookup(slots, 10, 5);
    lemma_present_lookup(slots, 10, 6);
    lemma_present_lookup(slots, 10, 7);
    lemma_present_lookup(slots, 10, 8);
    lemma_present_lookup(slots, 10, 9);
}

/// Reading the array that a list of strings is written as gives the list.
proof fn lemma_texts_round_trip(items: Seq<Seq<char>>, place: Place)
    ensures
        collected(
            items.len() as int,
            text_reader(texts_node(items)->Array_0, place),
        ) == Ok::<Seq<Seq<char>>, SchemaFault>(items),
{
    let read = text_reader(texts_node(items)->Array_0, place);
    assert forall|i: int| 0 <= i < items.len() implies #[trigger] read(i) == Ok::<
        Seq<char>,
        SchemaFault,
    >(items[i]) by {}
    lemma_collected_all(items.len() as int, read, items);
    assert(items.take(items.len() as int) =~= items);
}

/// The names of a sail's fields differ from each other.
proof fn lemma_sail_field_names(sail: SailView)
    ensures
        distinct(keys(sail_slots(sail))),
{
    reveal_strlit("mast_offset");
    reveal_strlit("area");
    reveal_strlit("reefing_stages");
    let names = keys(sail_slots(sail));
    assert(names.len() == 3);
    assert(names[0] == "mast_offset"@);
    assert(names[1] == "area"@);
    assert(names[2] == "reefing_stages"@);
}

/// Reading the table that a sail is written as gives the sail.
pub proof fn lemma_sail_round_trip(sail: SailView, place: Place)
    ensures
        sail_from(sail_fields(sail), place) == Ok::<SailView, SchemaFault>(sail),
{
    let slots = sail_slots(sail);
    lemma_sail_field_names(sail);
    lemma_present_lookup(slots, 3, 0);
    lemma_present_lookup(slots, 3, 1);
    lemma_present_lookup(slots, 3, 2);
    lemma_texts_round_trip(sail.reefing_stages, place.push("reefing_stages"@));
    assert(texts_node(sail.reefing_stages)->Array_0.len() == sail.reefing_stages.len());
}

/// Among distinct keys, no entry repeats an earlier key.
proof fn lemma_distinct_never_repeats(entries: Fields, at: int)
    requires
        distinct(keys(entries)),
        0 <= at < entries.len(),
    ensures
        !repeats(entries, at),
{
    if repeats(entries, at) {
        let j = choose|j: int| 0 <= j < at && entries[j].0 == entries[at].0;
        assert(keys(entries)[j] == keys(entries)[at]);
    }
}

/// Reading the table that the assets of a source file are written as gives
/// the assets, where no name is empty or filed twice.
pub proof fn lemma_assets_round_trip(assets: Seq<(Seq<char>, AssetView)>, place: Place)
    requires
        distinct(keys(assets)),
        forall|j: int| 0 <= j < assets.len() ==> (#[trigger] assets[j]).0.len() > 0,
    ensures
        assets_from(assets_fields(assets), place) == Ok::<
            Seq<(Seq<char>, AssetView)>,
            SchemaFault,
        >(assets),
{
    let entries = assets_fields(assets);
    let read = asset_reader(entries, place);
    assert(keys(entries) =~= keys(assets));
    assert forall|j: int| 0 <= j < assets.len() implies #[trigger] read(j) == Ok::<
        (Seq<char>, AssetView),
        SchemaFault,
    >(assets[j]) by {
        lemma_distinct_never_repeats(entries, j);
        lemma_asset_round_trip(assets[j].1, place.push(assets[j].0));
        assert(assets[j].0.len() > 0);
    }
    lemma_collected_all(assets.len() as int, read, assets);
    assert(assets.take(assets.len() as int) =~= assets);
}

/// The names of the two tables of a configuration differ.
proof fn lemma_section_names(config: ConfigView)
    ensures
        distinct(keys(config_slots(config))),
{
    reveal_strlit("file");
    reveal_strlit("sail");
    let names = keys(config_slots(config));
    assert(names.len() == 2);
    assert(names[0] == "file"@);
    assert(names[1] == "sail"@);
    assert("file"@[0] != "sail"@[0]);
}

/// Round trip: the document that a configuration is written as reads back
/// as the same configuration, sails included, for every configuration that
/// keeps the invariant.
pub proof fn lemma_round_trip(config: ConfigView)
    requires
        config.wf(),
    ensures
        config_from(config_node(config)) == Ok::<ConfigView, SchemaFault>(config),
{
    let root = config_fields(config);
    lemma_section_names(config);
    lemma_present_lookup(config_slots(config), 2, 0);
    lemma_present_lookup(config_slots(config), 2, 1);

    let files = files_fields(config.file);
    let read_file = file_reader(files, seq!["file"@]);
    assert(section(root, "file"@) == Ok::<Fields, SchemaFault>(files));
    assert(keys(files) =~= keys(config.file));
    assert forall|i: int| 0 <= i < config.file.len() implies #[trigger] read_file(i) == Ok::<
        (Seq<char>, Seq<(Seq<char>, AssetView)>),
        SchemaFault,
    >(config.file[i]) by {
        lemma_distinct_never_repeats(files, i);
        assert(distinct(keys(config.file[i].1)));
        assert forall|j: int| 0 <= j < config.file[i].1.len() implies (
        #[trigger] config.file[i].1[j]).0.len() > 0 by {}
        lemma_assets_round_trip(config.file[i].1, seq!["file"@].push(config.file[i].0));
    }
    lemma_collected_all(config.file.len() as int, read_file, config.file);
    assert(config.file.take(config.file.len() as int) =~= config.file);

    let sails = sails_fields(config.sail);
    let read_sail = sail_reader(sails, seq!["sail"@]);
    assert(section(root, "sail"@) == Ok::<Fields, SchemaFault>(sails));
    assert(keys(sails) =~= keys(config.sail));
    assert forall|i: int| 0 <= i < config.sail.len() implies #[trigger] read_sail(i) == Ok::<
        (Seq<char>, SailView),
        SchemaFault,
    >(config.sail[i]) by {
        lemma_distinct_never_repeats(sails, i);
        lemma_sail_round_trip(config.sail[i].1, seq!["sail"@].push(config.sail[i].0));
    }
    lemma_collected_all(config.sail.len() as int, read_sail, config.sail);
    assert(config.sail.take(config.sail.len() as int) =~= config.sail);
}

} // verus!
