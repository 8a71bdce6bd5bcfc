//! Reading a configuration out of a document.

use vstd::prelude::*;
use crate::config::{
    assets_view, default_asset_frames, default_asset_width, files_view, sails_view, text_of,
    AssetConfig, AssetView, Assets, Number, SailParams, SailView, SingleAssetConfig,
};
use crate::document::{
    entries_view, items_view, lemma_array_view, lemma_table_view, Document, Node,
};
use crate::keyed::{entry_keys, find_key, keys, lemma_index_of, lookup, repeats_earlier_key};
use crate::schema::{
    asset_from, asset_reader, assets_from, collected, config_from, fault_at, file_reader,
    files_from, lemma_collected_fault, lemma_config_from_wf, number_field, repeats, sail_from,
    sail_reader, sails_from, section, text_field, text_reader, texts_field, u32_field, Fault,
    Fields, SchemaError, SchemaFault,
};
use crate::text::{decimal_string, texts};

verus! {

/// `place` with `key` below it.
fn extended(place: &Vec<String>, key: &str) -> (longer: Vec<String>)
    ensures
        texts(longer@) == texts(place@).push(key@),
{
    let mut longer: Vec<String> = Vec::new();
    let mut i: usize = 0;
    while i < place.len()
        invariant
            i <= place.len(),
            texts(longer@) == texts(place@).take(i as int),
        decreases place.len() - i,
    {
        let ghost copied = texts(longer@);
        longer.push(place[i].clone());
        assert(texts(longer@) =~= copied.push(place[i as int]@));
        i += 1;
        assert(texts(longer@) =~= texts(place@).take(i as int));
    }
    let ghost copied = texts(longer@);
    assert(copied =~= texts(place@));
    longer.push(String::from_str(key));
    assert(texts(longer@) =~= copied.push(key@));
    longer
}

/// `fault` at `key` below `place`.
fn fault_below(fault: Fault, place: &Vec<String>, key: &str) -> (error: SchemaError)
    ensures
        error@ == fault_at(fault, texts(place@), key@),
{
    SchemaError { fault, path: extended(place, key) }
}

/// The value of the first entry of `fields` whose key is `key`.
fn field<'a>(fields: &'a Vec<(String, Document)>, key: &str) -> (found: Option<&'a Document>)
    ensures
        match lookup(entries_view(fields@), key@) {
            Some(node) => found matches Some(value) && value@ == node,
            None => found is None,
        },
{
    let at = find_key(fields, key);
    proof {
        assert(keys(entries_view(fields@)) =~= entry_keys(fields@));
        lemma_index_of(entry_keys(fields@), key@);
    }
    match at {
        Some(at) => Some(&fields[at].1),
        None => None,
    }
}

fn read_u32(fields: &Vec<(String, Document)>, key: &str, place: &Vec<String>) -> (read: Result<
    Option<u32>,
    SchemaError,
>)
    ensures
        match u32_field(entries_view(fields@), key@, texts(place@)) {
            Ok(value) => read matches Ok(v) && v == value,
            Err(fault) => read matches Err(error) && error@ == fault,
        },
{
    match field(fields, key) {
        None => Ok(None),
        Some(Document::Integer(value)) => {
            if 0 <= *value && *value <= 0xffff_ffff {
                Ok(Some(*value as u32))
            } else {
                Err(fault_below(Fault::OutOfRange, place, key))
            }
        },
        Some(_) => Err(fault_below(Fault::WrongType, place, key)),
    }
}

fn read_text(fields: &Vec<(String, Document)>, key: &str, place: &Vec<String>) -> (read: Result<
    Option<String>,
    SchemaError,
>)
    ensures
        match text_field(entries_view(fields@), key@, texts(place@)) {
            Ok(value) => read matches Ok(v) && text_of(v) == value,
            Err(fault) => read matches Err(error) && error@ == fault,
        },
{
    match field(fields, key) {
        None => Ok(None),
        Some(Document::String(text)) => Ok(Some(text.clone())),
        Some(_) => Err(fault_below(Fault::WrongType, place, key)),
    }
}

fn read_number(fields: &Vec<(String, Document)>, key: &str, place: &Vec<String>) -> (read: Result<
    Option<Number>,
    SchemaError,
>)
    ensures
        match number_field(entries_view(fields@), key@, texts(place@)) {
            Ok(value) => read matches Ok(v) && v == value,
            Err(fault) => read matches Err(error) && error@ == fault,
        },
{
    match field(fields, key) {
        None => Ok(None),
        Some(Document::Integer(value)) => Ok(Some(Number::Integer(*value))),
        Some(Document::Float(bits)) => Ok(Some(Number::Float(*bits))),
        Some(_) => Err(fault_below(Fault::WrongType, place, key)),
    }
}

/// The texts of an optional list of strings.
spec fn texts_of(list: Option<Vec<String>>) -> Option<Seq<Seq<char>>> {
    match list {
        Some(list) => Some(texts(list@)),
        None => None,
    }
}

fn read_texts(fields: &Vec<(String, Document)>, key: &str, place: &Vec<String>) -> (read: Result<
    Option<Vec<String>>,
    SchemaError,
>)
    ensures
        match texts_field(entries_view(fields@), key@, texts(place@)) {
            Ok(value) => read matches Ok(v) && texts_of(v) == value,
            Err(fault) => read matches Err(error) && error@ == fault,
        },
{
    match field(fields, key) {
        None => Ok(None),
        Some(Document::Array(items)) => {
            let here = extended(place, key);
            let ghost reader = text_reader(items_view(items@), texts(here@));
            proof {
                lemma_array_view(*items);
            }
            let mut list: Vec<String> = Vec::new();
            let mut at: usize = 0;
            assert(texts(list@) =~= Seq::<Seq<char>>::empty());
            while at < items.len()
                invariant
                    at <= items.len(),
                    reader == text_reader(items_view(items@), texts(here@)),
                    texts(here@) == texts(place@).push(key@),
                    lookup(entries_view(fields@), key@) == Some(Node::Array(items_view(items@))),
                    collected(at as int, reader) == Ok::<Seq<Seq<char>>, SchemaFault>(
                        texts(list@),
                    ),
                decreases items.len() - at,
            {
                match &items[at] {
                    Document::String(text) => {
                        let ghost before = texts(list@);
                        list.push(text.clone());
                        assert(texts(list@) =~= before.push(text@));
                    },
                    _ => {
                        let index = decimal_string(at as u64);
                        let error = fault_below(Fault::WrongType, &here, index.as_str());
                        proof {
                            lemma_collected_fault(at + 1, items.len() as int, reader);
                        }
                        return Err(error);
                    },
                }
                at += 1;
            }
            Ok(Some(list))
        },
        Some(_) => Err(fault_below(Fault::WrongType, place, key)),
    }
}

/// `fault` at `key` below `place`, as the outcome of a read.
fn refuse<T>(fault: Fault, place: &Vec<String>, key: &str) -> (read: Result<T, SchemaError>)
    ensures
        read matches Err(error) && error@ == fault_at(fault, texts(place@), key@),
{
    Err(fault_below(fault, place, key))
}

fn read_asset(fields: &Vec<(String, Document)>, place: &Vec<String>) -> (read: Result<
    SingleAssetConfig,
    SchemaError,
>)
    ensures
        match asset_from(entries_view(fields@), texts(place@)) {
            Ok(asset) => read matches Ok(a) && a@ == asset,
            Err(fault) => read matches Err(error) && error@ == fault,
        },
{
    let width = match read_u32(fields, "width", place) {
        Ok(Some(width)) => width,
        Ok(None) => default_asset_width(),
        Err(error) => return Err(error),
    };
    let height = match read_u32(fields, "height", place) {
        Ok(height) => height,
        Err(error) => return Err(error),
    };
    let z_local_frames = match read_u32(fields, "z_local_frames", place) {
        Ok(Some(frames)) => frames,
        Ok(None) => default_asset_frames(),
        Err(error) => return Err(error),
    };
    let z_frames = match read_u32(fields, "z_frames", place) {
        Ok(Some(frames)) => frames,
        Ok(None) => default_asset_frames(),
        Err(error) => return Err(error),
    };
    let x_frames = match read_u32(fields, "x_frames", place) {
        Ok(Some(frames)) => frames,
        Ok(None) => default_asset_frames(),
        Err(error) => return Err(error),
    };
    let object = match read_text(fields, "object", place) {
        Ok(Some(object)) => object,
        Ok(None) => return refuse(Fault::Missing, place, "object"),
        Err(error) => return Err(error),
    };
    let output = match read_text(fields, "output", place) {
        Ok(output) => output,
        Err(error) => return Err(error),
    };
    let mass = match read_u32(fields, "mass", place) {
        Ok(mass) => mass,
        Err(error) => return Err(error),
    };
    let optical_size = match read_number(fields, "optical_size", place) {
        Ok(Some(size)) => size,
        Ok(None) => return refuse(Fault::Missing, place, "optical_size"),
        Err(error) => return Err(error),
    };
    let logical_size = match read_number(fields, "logical_size", place) {
        Ok(size) => size,
        Err(error) => return Err(error),
    };
    Ok(
        SingleAssetConfig {
            width,
            height,
            z_local_frames,
            z_frames,
            x_frames,
            object,
            output,
            mass,
            optical_size,
            logical_size,
        },
    )
}

fn read_sail(fields: &Vec<(String, Document)>, place: &Vec<String>) -> (read: Result<
    SailParams,
    SchemaError,
>)
    ensures
        match sail_from(entries_view(fields@), texts(place@)) {
            Ok(sail) => read matches Ok(s) && s@ == sail,
            Err(fault) => read matches Err(error) && error@ == fault,
        },
{
    let mast_offset = match read_number(fields, "mast_offset", place) {
        Ok(Some(offset)) => offset,
        Ok(None) => return refuse(Fault::Missing, place, "mast_offset"),
        Err(error) => return Err(error),
    };
    let area = match read_number(fields, "area", place) {
        Ok(Some(area)) => area,
        Ok(None) => return refuse(Fault::Missing, place, "area"),
        Err(error) => return Err(error),
    };
    let reefing_stages = match read_texts(fields, "reefing_stages", place) {
        Ok(Some(stages)) => stages,
        Ok(None) => return refuse(Fault::Missing, place, "reefing_stages"),
        Err(error) => return Err(error),
    };
    Ok(SailParams { mast_offset, area, reefing_stages })
}

/// What the exec test of a repeated key says of the views of the entries.
proof fn lemma_repeats(entries: Seq<(String, Document)>, at: int)
    requires
        0 <= at < entries.len(),
    ensures
        repeats(entries_view(entries), at) <==> exists|j: int|
            0 <= j < at && entries[j].0@ == entries[at].0@,
{
    let fields = entries_view(entries);
    if repeats(fields, at) {
        let j = choose|j: int| 0 <= j < at && fields[j].0 == fields[at].0;
        assert(entries[j].0@ == entries[at].0@);
    }
    if exists|j: int| 0 <= j < at && entries[j].0@ == entries[at].0@ {
        let j = choose|j: int| 0 <= j < at && entries[j].0@ == entries[at].0@;
        assert(fields[j].0 == fields[at].0);
    }
}

fn read_asset_entry(entries: &Vec<(String, Document)>, at: usize, place: &Vec<String>) -> (read:
    Result<(String, SingleAssetConfig), SchemaError>)
    requires
        at < entries.len(),
    ensures
        match asset_reader(entries_view(entries@), texts(place@))(at as int) {
            Ok(entry) => read matches Ok(e) && (e.0@, e.1@) == entry,
            Err(fault) => read matches Err(error) && error@ == fault,
        },
{
    let name = entries[at].0.as_str();
    proof {
        lemma_repeats(entries@, at as int);
    }
    if name.is_empty() {
        refuse(Fault::EmptyName, place, name)
    } else if repeats_earlier_key(entries, at) {
        refuse(Fault::Duplicate, place, name)
    } else {
        match &entries[at].1 {
            Document::Table(fields) => {
                proof {
                    lemma_table_view(*fields);
                }
                let here = extended(place, name);
                match read_asset(fields, &here) {
                    Ok(asset) => Ok((String::from_str(name), asset)),
                    Err(error) => Err(error),
                }
            },
            _ => refuse(Fault::WrongType, place, name),
        }
    }
}

fn read_assets(entries: &Vec<(String, Document)>, place: &Vec<String>) -> (read: Result<
    Vec<(String, SingleAssetConfig)>,
    SchemaError,
>)
    ensures
        match assets_from(entries_view(entries@), texts(place@)) {
            Ok(assets) => read matches Ok(list) && assets_view(list@) == assets,
            Err(fault) => read matches Err(error) && error@ == fault,
        },
{
    let ghost reader = asset_reader(entries_view(entries@), texts(place@));
    let mut list: Vec<(String, SingleAssetConfig)> = Vec::new();
    let mut at: usize = 0;
    assert(assets_view(list@) =~= Seq::empty());
    while at < entries.len()
        invariant
            at <= entries.len(),
            reader == asset_reader(entries_view(entries@), texts(place@)),
            collected(at as int, reader) == Ok::<Seq<(Seq<char>, AssetView)>, SchemaFault>(
                assets_view(list@),
            ),
        decreases entries.len() - at,
    {
        match read_asset_entry(entries, at, place) {
            Ok(entry) => {
                let ghost before = assets_view(list@);
                let ghost added = (entry.0@, entry.1@);
                list.push(entry);
                assert(assets_view(list@) =~= before.push(added));
            },
            Err(error) => {
                proof {
                    lemma_collected_fault(at + 1, entries.len() as int, reader);
                }
                return Err(error);
            },
        }
        at += 1;
    }
    Ok(list)
}

fn read_file_entry(entries: &Vec<(String, Document)>, at: usize, place: &Vec<String>) -> (read:
    Result<(String, Assets), SchemaError>)
    requires
        at < entries.len(),
    ensures
        match file_reader(entries_view(entries@), texts(place@))(at as int) {
            Ok(entry) => read matches Ok(e) && (e.0@, assets_view(e.1@)) == entry,
            Err(fault) => read matches Err(error) && error@ == fault,
        },
{
    let path = entries[at].0.as_str();
    proof {
        lemma_repeats(entries@, at as int);
    }
    if repeats_earlier_key(entries, at) {
        refuse(Fault::Duplicate, place, path)
    } else {
        match &entries[at].1 {
            Document::Table(assets) => {
                proof {
                    lemma_table_view(*assets);
                }
                let here = extended(place, path);
                match read_assets(assets, &here) {
                    Ok(assets) => Ok((String::from_str(path), assets)),
                    Err(error) => Err(error),
                }
            },
            _ => refuse(Fault::WrongType, place, path),
        }
    }
}

fn read_sail_entry(entries: &Vec<(String, Document)>, at: usize, place: &Vec<String>) -> (read:
    Result<(String, SailParams), SchemaError>)
    requires
        at < entries.len(),
    ensures
        match sail_reader(entries_view(entries@), texts(place@))(at as int) {
            Ok(entry) => read matches Ok(e) && (e.0@, e.1@) == entry,
            Err(fault) => read matches Err(error) && error@ == fault,
        },
{
    let id = entries[at].0.as_str();
    proof {
        lemma_repeats(entries@, at as int);
    }
    if repeats_earlier_key(entries, at) {
        refuse(Fault::Duplicate, place, id)
    } else {
        match &entries[at].1 {
            Document::Table(fields) => {
                proof {
                    lemma_table_view(*fields);
                }
                let here = extended(place, id);
                match read_sail(fields, &here) {
                    Ok(sail) => Ok((String::from_str(id), sail)),
                    Err(error) => Err(error),
                }
            },
            _ => refuse(Fault::WrongType, place, id),
        }
    }
}

/// The table that `root` files under `key`.
fn read_section<'a>(root: &'a Vec<(String, Document)>, key: &str) -> (read: Result<
    &'a Vec<(String, Document)>,
    SchemaError,
>)
    ensures
        match section(entries_view(root@), key@) {
            Ok(entries) => read matches Ok(found) && entries_view(found@) == entries,
            Err(fault) => read matches Err(error) && error@ == fault,
        },
{
    let top: Vec<String> = Vec::new();
    assert(texts(top@) =~= Seq::<Seq<char>>::empty());
    match field(root, key) {
        None => refuse(Fault::Missing, &top, key),
        Some(Document::Table(entries)) => {
            proof {
                lemma_table_view(*entries);
            }
            Ok(entries)
        },
        Some(_) => refuse(Fault::WrongType, &top, key),
    }
}

fn read_files(root: &Vec<(String, Document)>) -> (read: Result<Vec<(String, Assets)>, SchemaError>)
    ensures
        match files_from(entries_view(root@)) {
            Ok(files) => read matches Ok(list) && files_view(list@) == files,
            Err(fault) => read matches Err(error) && error@ == fault,
        },
{
    let entries = match read_section(root, "file") {
        Ok(entries) => entries,
        Err(error) => return Err(error),
    };
    let mut place: Vec<String> = Vec::new();
    place.push(String::from_str("file"));
    assert(texts(place@) =~= seq!["file"@]);
    let ghost reader = file_reader(entries_view(entries@), texts(place@));
    let mut list: Vec<(String, Assets)> = Vec::new();
    let mut at: usize = 0;
    assert(files_view(list@) =~= Seq::empty());
    while at < entries.len()
        invariant
            at <= entries.len(),
            texts(place@) == seq!["file"@],
            section(entries_view(root@), "file"@) == Ok::<Fields, SchemaFault>(
                entries_view(entries@),
            ),
            reader == file_reader(entries_view(entries@), texts(place@)),
            collected(at as int, reader) == Ok::<
                Seq<(Seq<char>, Seq<(Seq<char>, AssetView)>)>,
                SchemaFault,
            >(files_view(list@)),
        decreases entries.len() - at,
    {
        match read_file_entry(entries, at, &place) {
            Ok(entry) => {
                let ghost before = files_view(list@);
                let ghost added = (entry.0@, assets_view(entry.1@));
                list.push(entry);
                assert(files_view(list@) =~= before.push(added));
            },
            Err(error) => {
                proof {
                    lemma_collected_fault(at + 1, entries.len() as int, reader);
                }
                return Err(error);
            },
        }
        at += 1;
    }
    Ok(list)
}

fn read_sails(root: &Vec<(String, Document)>) -> (read: Result<
    Vec<(String, SailParams)>,
    SchemaError,
>)
    ensures
        match sails_from(entries_view(root@)) {
            Ok(sails) => read matches Ok(list) && sails_view(list@) == sails,
            Err(fault) => read matches Err(error) && error@ == fault,
        },
{
    let entries = match read_section(root, "sail") {
        Ok(entries) => entries,
        Err(error) => return Err(error),
    };
    let mut place: Vec<String> = Vec::new();
    place.push(String::from_str("sail"));
    assert(texts(place@) =~= seq!["sail"@]);
    let ghost reader = sail_reader(entries_view(entries@), texts(place@));
    let mut list: Vec<(String, SailParams)> = Vec::new();
    let mut at: usize = 0;
    assert(sails_view(list@) =~= Seq::empty());
    while at < entries.len()
        invariant
            at <= entries.len(),
            texts(place@) == seq!["sail"@],
            section(entries_view(root@), "sail"@) == Ok::<Fields, SchemaFault>(
                entries_view(entries@),
            ),
            reader == sail_reader(entries_view(entries@), texts(place@)),
            collected(at as int, reader) == Ok::<Seq<(Seq<char>, SailView)>, SchemaFault>(
                sails_view(list@),
            ),
        decreases entries.len() - at,
    {
        match read_sail_entry(entries, at, &place) {
            Ok(entry) => {
                let ghost before = sails_view(list@);
                let ghost added = (entry.0@, entry.1@);
                list.push(entry);
                assert(sails_view(list@) =~= before.push(added));
            },
            Err(error) => {
                proof {
                    lemma_collected_fault(at + 1, entries.len() as int, reader);
                }
                return Err(error);
            },
        }
        at += 1;
    }
    Ok(list)
}

impl AssetConfig {
    /// Reads the configuration that `document` says. A missing `width` is
    /// 256 and a missing frame count 1; a document that lacks a required
    /// field or table, gives a value of another type than the schema asks
    /// for, files a key twice or names an asset by the empty name is refused
    /// with the fault and its place.
    pub fn from_document(document: &Document) -> (read: Result<AssetConfig, SchemaError>)
        ensures
            match config_from(document@) {
                Ok(config) => read matches Ok(c) && c@ == config,
                Err(fault) => read matches Err(error) && error@ == fault,
            },
            read matches Ok(c) ==> c@.wf(),
    {
        proof {
            lemma_config_from_wf(document@);
        }
        match document {
            Document::Table(root) => {
                proof {
                    lemma_table_view(*root);
                }
                let file = match read_files(root) {
                    Ok(file) => file,
                    Err(error) => return Err(error),
                };
                let sail = match read_sails(root) {
                    Ok(sail) => sail,
                    Err(error) => return Err(error),
                };
                Ok(AssetConfig { file, sail })
            },
            _ => {
                let top: Vec<String> = Vec::new();
                assert(texts(top@) =~= Seq::<Seq<char>>::empty());
                Err(SchemaError { fault: Fault::WrongType, path: top })
            },
        }
    }
}

} // verus!
