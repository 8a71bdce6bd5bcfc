//! What a document says as a configuration: which fields are read, which
//! defaults stand in for missing ones, and which documents are refused.

use vstd::prelude::*;
use crate::config::{
    AssetView, ConfigView, Number, SailView, DEFAULT_ASSET_FRAMES, DEFAULT_ASSET_WIDTH,
};
use crate::document::Node;
use crate::keyed::{distinct, keys, lookup};
use crate::text::{decimal, texts};

verus! {

/// What is wrong with a document at some place.
#[derive(Clone, Copy, Debug, PartialEq, Eq, Structural)]
pub enum Fault {
    /// A required field or table is not there.
    Missing,
    /// A value is not of the type that the schema asks for.
    WrongType,
    /// An integer is negative or too large for its field.
    OutOfRange,
    /// A key is filed twice in one table.
    Duplicate,
    /// An asset has the empty name.
    EmptyName,
}

/// A fault with the place it was found at: the keys from the root down.
#[derive(Debug, Clone, PartialEq, Eq)]
pub struct SchemaError {
    pub fault: Fault,
    pub path: Vec<String>,
}

/// What a `SchemaError` holds.
pub struct SchemaFault {
    pub fault: Fault,
    pub path: Seq<Seq<char>>,
}

impl View for SchemaError {
    type V = SchemaFault;

    open spec fn view(&self) -> SchemaFault {
        SchemaFault { fault: self.fault, path: texts(self.path@) }
    }
}

impl Fault {
    /// What the fault is, in words.
    pub open spec fn words(self) -> Seq<char> {
        match self {
            Fault::Missing => "missing field"@,
            Fault::WrongType => "invalid type"@,
            Fault::OutOfRange => "integer out of range"@,
            Fault::Duplicate => "duplicate key"@,
            Fault::EmptyName => "empty asset name"@,
        }
    }

    /// What the fault is, in words.
    pub fn describe(self) -> (words: &'static str)
        ensures
            words@ == self.words(),
    {
        match self {
            Fault::Missing => "missing field",
            Fault::WrongType => "invalid type",
            Fault::OutOfRange => "integer out of range",
            Fault::Duplicate => "duplicate key",
            Fault::EmptyName => "empty asset name",
        }
    }
}

/// The first `n` keys of `path`, with a dot between two.
pub open spec fn dotted(path: Seq<Seq<char>>, n: int) -> Seq<char>
    decreases n,
{
    if n <= 0 {
        Seq::empty()
    } else if n == 1 {
        path[0]
    } else {
        dotted(path, n - 1) + "."@ + path[n - 1]
    }
}

impl SchemaFault {
    /// The message for the operator: the fault and the place.
    pub open spec fn message(self) -> Seq<char> {
        self.fault.words() + " for key `"@ + dotted(self.path, self.path.len() as int) + "`"@
    }
}

impl SchemaError {
    /// The message for the operator: the fault, and the keys of its place
    /// from the root down with a dot between two.
    pub fn message(&self) -> (message: String)
        ensures
            message@ == self@.message(),
    {
        let mut place = String::new();
        let mut at: usize = 0;
        while at < self.path.len()
            invariant
                at <= self.path.len(),
                place@ == dotted(texts(self.path@), at as int),
            decreases self.path.len() - at,
        {
            if at > 0 {
                place = place.concat(".");
            }
            place = place.concat(self.path[at].as_str());
            at += 1;
            assert(place@ =~= dotted(texts(self.path@), at as int));
        }
        String::from_str(self.fault.describe()).concat(" for key `").concat(place.as_str()).concat(
            "`",
        )
    }
}

/// The entries of a table.
pub type Fields = Seq<(Seq<char>, Node)>;

/// The place of a table or an array, from the root down.
pub type Place = Seq<Seq<char>>;

/// `fault` at `key` below `place`.
pub open spec fn fault_at(fault: Fault, place: Place, key: Seq<char>) -> SchemaFault {
    SchemaFault { fault, path: place.push(key) }
}

/// The field `key` as an unsigned 32-bit integer, where it is there.
pub open spec fn u32_field(fields: Fields, key: Seq<char>, place: Place) -> Result<
    Option<u32>,
    SchemaFault,
> {
    match lookup(fields, key) {
        None => Ok(None),
        Some(Node::Integer(value)) => if 0 <= value <= u32::MAX {
            Ok(Some(value as u32))
        } else {
            Err(fault_at(Fault::OutOfRange, place, key))
        },
        Some(_) => Err(fault_at(Fault::WrongType, place, key)),
    }
}

/// The field `key` as a string, where it is there.
pub open spec fn text_field(fields: Fields, key: Seq<char>, place: Place) -> Result<
    Option<Seq<char>>,
    SchemaFault,
> {
    match lookup(fields, key) {
        None => Ok(None),
        Some(Node::String(text)) => Ok(Some(text)),
        Some(_) => Err(fault_at(Fault::WrongType, place, key)),
    }
}

/// The field `key` as a number, whole or fractional, where it is there.
pub open spec fn number_field(fields: Fields, key: Seq<char>, place: Place) -> Result<
    Option<Number>,
    SchemaFault,
> {
    match lookup(fields, key) {
        None => Ok(None),
        Some(Node::Integer(value)) => Ok(Some(Number::Integer(value))),
        Some(Node::Float(bits)) => Ok(Some(Number::Float(bits))),
        Some(_) => Err(fault_at(Fault::WrongType, place, key)),
    }
}

/// A field that the schema requires.
pub open spec fn required<T>(field: Result<Option<T>, SchemaFault>, key: Seq<char>, place: Place)
    -> Result<T, SchemaFault> {
    match field {
        Ok(Some(value)) => Ok(value),
        Ok(None) => Err(fault_at(Fault::Missing, place, key)),
        Err(fault) => Err(fault),
    }
}

/// A field that takes `default` where it is missing.
pub open spec fn defaulted<T>(field: Result<Option<T>, SchemaFault>, default: T) -> Result<
    T,
    SchemaFault,
> {
    match field {
        Ok(Some(value)) => Ok(value),
        Ok(None) => Ok(default),
        Err(fault) => Err(fault),
    }
}

/// The first `n` items that `read` gives, or the fault of the first index at
/// which it gives one.
pub open spec fn collected<T>(n: int, read: spec_fn(int) -> Result<T, SchemaFault>) -> Result<
    Seq<T>,
    SchemaFault,
>
    decreases n,
{
    if n <= 0 {
        Ok(Seq::empty())
    } else {
        match collected(n - 1, read) {
            Err(fault) => Err(fault),
            Ok(before) => match read(n - 1) {
                Err(fault) => Err(fault),
                Ok(item) => Ok(before.push(item)),
            },
        }
    }
}

/// Item `at` of an array of strings at `place`.
pub open spec fn text_item(items: Seq<Node>, at: int, place: Place) -> Result<
    Seq<char>,
    SchemaFault,
> {
    match items[at] {
        Node::String(text) => Ok(text),
        _ => Err(fault_at(Fault::WrongType, place, decimal(at as nat))),
    }
}

/// Reads the items of an array of strings at `place`.
pub open spec fn text_reader(items: Seq<Node>, place: Place) -> spec_fn(int) -> Result<
    Seq<char>,
    SchemaFault,
> {
    |at: int| text_item(items, at, place)
}

/// The field `key` as an array of strings, where it is there.
pub open spec fn texts_field(fields: Fields, key: Seq<char>, place: Place) -> Result<
    Option<Seq<Seq<char>>>,
    SchemaFault,
> {
    match lookup(fields, key) {
        None => Ok(None),
        Some(Node::Array(items)) => match collected(
            items.len() as int,
            text_reader(items, place.push(key)),
        ) {
            Ok(items) => Ok(Some(items)),
            Err(fault) => Err(fault),
        },
        Some(_) => Err(fault_at(Fault::WrongType, place, key)),
    }
}

/// The parameters of the asset whose table at `place` has `fields`. A missing
/// `width` is 256, a missing frame count 1; `object` and `optical_size` are
/// required; fields that the schema does not know are not looked at. Of
/// several faults the one of the first field in the schema's order is given.
pub open spec fn asset_from(fields: Fields, place: Place) -> Result<AssetView, SchemaFault> {
    let width = defaulted(u32_field(fields, "width"@, place), DEFAULT_ASSET_WIDTH);
    let height = u32_field(fields, "height"@, place);
    let z_local_frames = defaulted(
        u32_field(fields, "z_local_frames"@, place),
        DEFAULT_ASSET_FRAMES,
    );
    let z_frames = defaulted(u32_field(fields, "z_frames"@, place), DEFAULT_ASSET_FRAMES);
    let x_frames = defaulted(u32_field(fields, "x_frames"@, place), DEFAULT_ASSET_FRAMES);
    let object = required(text_field(fields, "object"@, place), "object"@, place);
    let output = text_field(fields, "output"@, place);
    let mass = u32_field(fields, "mass"@, place);
    let optical_size = required(
        number_field(fields, "optical_size"@, place),
        "optical_size"@,
        place,
    );
    let logical_size = number_field(fields, "logical_size"@, place);
    if width is Err {
        Err(width->Err_0)
    } else if height is Err {
        Err(height->Err_0)
    } else if z_local_frames is Err {
        Err(z_local_frames->Err_0)
    } else if z_frames is Err {
        Err(z_frames->Err_0)
    } else if x_frames is Err {
        Err(x_frames->Err_0)
    } else if object is Err {
        Err(object->Err_0)
    } else if output is Err {
        Err(output->Err_0)
    } else if mass is Err {
        Err(mass->Err_0)
    } else if optical_size is Err {
        Err(optical_size->Err_0)
    } else if logical_size is Err {
        Err(logical_size->Err_0)
    } else {
        Ok(
            AssetView {
                width: width->Ok_0,
                height: height->Ok_0,
                z_local_frames: z_local_frames->Ok_0,
                z_frames: z_frames->Ok_0,
                x_frames: x_frames->Ok_0,
                object: object->Ok_0,
                output: output->Ok_0,
                mass: mass->Ok_0,
                optical_size: optical_size->Ok_0,
                logical_size: logical_size->Ok_0,
            },
        )
    }
}

/// The parameters of the sail whose table at `place` has `fields`. All three
/// fields are required.
pub open spec fn sail_from(fields: Fields, place: Place) -> Result<SailView, SchemaFault> {
    let mast_offset = required(
        number_field(fields, "mast_offset"@, place),
        "mast_offset"@,
        place,
    );
    let area = required(number_field(fields, "area"@, place), "area"@, place);
    let reefing_stages = required(
        texts_field(fields, "reefing_stages"@, place),
        "reefing_stages"@,
        place,
    );
    if mast_offset is Err {
        Err(mast_offset->Err_0)
    } else if area is Err {
        Err(area->Err_0)
    } else if reefing_stages is Err {
        Err(reefing_stages->Err_0)
    } else {
        Ok(
            SailView {
                mast_offset: mast_offset->Ok_0,
                area: area->Ok_0,
                reefing_stages: reefing_stages->Ok_0,
            },
        )
    }
}

/// Whether the key of entry `at` also stands at an earlier place.
pub open spec fn repeats(entries: Fields, at: int) -> bool {
    exists|j: int| 0 <= j < at && entries[j].0 == entries[at].0
}

/// Entry `at` of a source file's table at `place`: an asset under its name.
/// The name is not empty and not filed before, the value is a table.
pub open spec fn asset_entry(entries: Fields, at: int, place: Place) -> Result<
    (Seq<char>, AssetView),
    SchemaFault,
> {
    let name = entries[at].0;
    if name.len() == 0 {
        Err(fault_at(Fault::EmptyName, place, name))
    } else if repeats(entries, at) {
        Err(fault_at(Fault::Duplicate, place, name))
    } else {
        match entries[at].1 {
            Node::Table(fields) => match asset_from(fields, place.push(name)) {
                Ok(asset) => Ok((name, asset)),
                Err(fault) => Err(fault),
            },
            _ => Err(fault_at(Fault::WrongType, place, name)),
        }
    }
}

/// Reads the entries of a source file's table at `place`.
pub open spec fn asset_reader(entries: Fields, place: Place) -> spec_fn(int) -> Result<
    (Seq<char>, AssetView),
    SchemaFault,
> {
    |at: int| asset_entry(entries, at, place)
}

/// The assets of the source file whose table at `place` has `entries`.
pub open spec fn assets_from(entries: Fields, place: Place) -> Result<
    Seq<(Seq<char>, AssetView)>,
    SchemaFault,
> {
    collected(entries.len() as int, asset_reader(entries, place))
}

/// Entry `at` of the table of source files at `place`: the assets of a file
/// under its path. The path is not filed before, the value is a table.
pub open spec fn file_entry(entries: Fields, at: int, place: Place) -> Result<
    (Seq<char>, Seq<(Seq<char>, AssetView)>),
    SchemaFault,
> {
    let path = entries[at].0;
    if repeats(entries, at) {
        Err(fault_at(Fault::Duplicate, place, path))
    } else {
        match entries[at].1 {
            Node::Table(assets) => match assets_from(assets, place.push(path)) {
                Ok(assets) => Ok((path, assets)),
                Err(fault) => Err(fault),
            },
            _ => Err(fault_at(Fault::WrongType, place, path)),
        }
    }
}

/// Reads the entries of the table of source files at `place`.
pub open spec fn file_reader(entries: Fields, place: Place) -> spec_fn(int) -> Result<
    (Seq<char>, Seq<(Seq<char>, AssetView)>),
    SchemaFault,
> {
    |at: int| file_entry(entries, at, place)
}

/// Entry `at` of the table of sails at `place`: a sail under its identifier.
/// The identifier is not filed before, the value is a table.
pub open spec fn sail_entry(entries: Fields, at: int, place: Place) -> Result<
    (Seq<char>, SailView),
    SchemaFault,
> {
    let id = entries[at].0;
    if repeats(entries, at) {
        Err(fault_at(Fault::Duplicate, place, id))
    } else {
        match entries[at].1 {
            Node::Table(fields) => match sail_from(fields, place.push(id)) {
                Ok(sail) => Ok((id, sail)),
                Err(fault) => Err(fault),
            },
            _ => Err(fault_at(Fault::WrongType, place, id)),
        }
    }
}

/// Reads the entries of the table of sails at `place`.
pub open spec fn sail_reader(entries: Fields, place: Place) -> spec_fn(int) -> Result<
    (Seq<char>, SailView),
    SchemaFault,
> {
    |at: int| sail_entry(entries, at, place)
}

/// The table that the root files under `key`. It is required.
pub open spec fn section(root: Fields, key: Seq<char>) -> Result<Fields, SchemaFault> {
    match lookup(root, key) {
        None => Err(fault_at(Fault::Missing, Seq::empty(), key)),
        Some(Node::Table(entries)) => Ok(entries),
        Some(_) => Err(fault_at(Fault::WrongType, Seq::empty(), key)),
    }
}

/// The source files of a document whose root has the entries `root`.
pub open spec fn files_from(root: Fields) -> Result<
    Seq<(Seq<char>, Seq<(Seq<char>, AssetView)>)>,
    SchemaFault,
> {
    match section(root, "file"@) {
        Err(fault) => Err(fault),
        Ok(entries) => collected(entries.len() as int, file_reader(entries, seq!["file"@])),
    }
}

/// The sails of a document whose root has the entries `root`.
pub open spec fn sails_from(root: Fields) -> Result<Seq<(Seq<char>, SailView)>, SchemaFault> {
    match section(root, "sail"@) {
        Err(fault) => Err(fault),
        Ok(entries) => collected(entries.len() as int, sail_reader(entries, seq!["sail"@])),
    }
}

/// The configuration that a document says. The root is a table with the
/// tables `file` and `sail`; a fault under `file` comes before one under
/// `sail`, and within a table the fault of the earliest entry is given.
pub open spec fn config_from(document: Node) -> Result<ConfigView, SchemaFault> {
    match document {
        Node::Table(root) => match files_from(root) {
            Err(fault) => Err(fault),
            Ok(file) => match sails_from(root) {
                Err(fault) => Err(fault),
                Ok(sail) => Ok(ConfigView { file, sail }),
            },
        },
        _ => Err(SchemaFault { fault: Fault::WrongType, path: Seq::empty() }),
    }
}

/// Defaults: an asset that is read out of a table without `width` is 256
/// wide, and each frame count that the table lacks is 1. A field that may be
/// absent and is missing has no value.
pub proof fn lemma_missing_fields_take_defaults(fields: Fields, place: Place)
    ensures
        asset_from(fields, place) matches Ok(asset) ==> {
            &&& lookup(fields, "width"@) is None ==> asset.width == 256
            &&& lookup(fields, "z_local_frames"@) is None ==> asset.z_local_frames == 1
            &&& lookup(fields, "z_frames"@) is None ==> asset.z_frames == 1
            &&& lookup(fields, "x_frames"@) is None ==> asset.x_frames == 1
            &&& lookup(fields, "height"@) is None ==> asset.height is None
            &&& lookup(fields, "output"@) is None ==> asset.output is None
            &&& lookup(fields, "mass"@) is None ==> asset.mass is None
            &&& lookup(fields, "logical_size"@) is None ==> asset.logical_size is None
        },
{
}

/// Required fields: a table without `object` or without `optical_size` is
/// read as no asset, and one that has both and no other field of the schema
/// is read as the asset of all defaults.
pub proof fn lemma_required_fields(fields: Fields, place: Place)
    ensures
        lookup(fields, "object"@) is None || lookup(fields, "optical_size"@) is None
            ==> asset_from(fields, place) is Err,
        ({
            &&& lookup(fields, "width"@) is None
            &&& lookup(fields, "height"@) is None
            &&& lookup(fields, "z_local_frames"@) is None
            &&& lookup(fields, "z_frames"@) is None
            &&& lookup(fields, "x_frames"@) is None
            &&& lookup(fields, "object"@) matches Some(Node::String(object))
            &&& lookup(fields, "output"@) is None
            &&& lookup(fields, "mass"@) is None
            &&& number_field(fields, "optical_size"@, place) matches Ok(Some(size))
            &&& lookup(fields, "logical_size"@) is None
        }) ==> asset_from(fields, place) == Ok::<AssetView, SchemaFault>(
            AssetView {
                width: 256,
                height: None,
                z_local_frames: 1,
                z_frames: 1,
                x_frames: 1,
                object: lookup(fields, "object"@)->0->String_0,
                output: None,
                mass: None,
                optical_size: number_field(fields, "optical_size"@, place)->Ok_0->0,
                logical_size: None,
            },
        ),
{
}

/// A fault among the first `n` items stays the fault of any longer prefix.
pub proof fn lemma_collected_fault<T>(
    n: int,
    m: int,
    read: spec_fn(int) -> Result<T, SchemaFault>,
)
    requires
        n <= m,
        collected(n, read) is Err,
    ensures
        collected(m, read) == collected(n, read),
    decreases m - n,
{
    if n < m {
        lemma_collected_fault(n, m - 1, read);
    }
}

/// Where the first `n` items are collected, each was read without a fault
/// and stands at its index.
pub proof fn lemma_collected_items<T>(n: int, read: spec_fn(int) -> Result<T, SchemaFault>)
    requires
        0 <= n,
        collected(n, read) is Ok,
    ensures
        collected(n, read)->Ok_0.len() == n,
        forall|i: int| 0 <= i < n ==> #[trigger] read(i) == Ok::<T, SchemaFault>(
            collected(n, read)->Ok_0[i],
        ),
    decreases n,
{
    if n > 0 {
        lemma_collected_items(n - 1, read);
    }
}

/// Items that are each read without a fault are collected as they stand.
pub proof fn lemma_collected_all<T>(
    n: int,
    read: spec_fn(int) -> Result<T, SchemaFault>,
    items: Seq<T>,
)
    requires
        0 <= n <= items.len(),
        forall|i: int| 0 <= i < n ==> #[trigger] read(i) == Ok::<T, SchemaFault>(items[i]),
    ensures
        collected(n, read) == Ok::<Seq<T>, SchemaFault>(items.take(n)),
    decreases n,
{
    if n > 0 {
        lemma_collected_all(n - 1, read, items);
        assert(items.take(n - 1).push(items[n - 1]) =~= items.take(n));
    } else {
        assert(items.take(0) =~= Seq::<T>::empty());
    }
}

/// The keys of collected entries are the keys of the entries they were read
/// from, and none repeats where each read refuses a repeated key.
proof fn lemma_collected_keys<T>(
    entries: Fields,
    read: spec_fn(int) -> Result<(Seq<char>, T), SchemaFault>,
)
    requires
        collected(entries.len() as int, read) is Ok,
        forall|at: int|
            0 <= at < entries.len() ==> (#[trigger] read(at) matches Ok(entry) ==> entry.0
                == entries[at].0 && !repeats(entries, at)),
    ensures
        keys(collected(entries.len() as int, read)->Ok_0) == keys(entries),
        distinct(keys(entries)),
{
    lemma_collected_items(entries.len() as int, read);
    let items = collected(entries.len() as int, read)->Ok_0;
    assert forall|i: int| 0 <= i < entries.len() implies items[i].0 == entries[i].0 by {
        assert(read(i) is Ok);
    }
    assert(keys(items) =~= keys(entries));
    assert forall|i: int, j: int| 0 <= i < j < entries.len() implies keys(entries)[i] != keys(
        entries,
    )[j] by {
        assert(read(j) is Ok);
        if entries[i].0 == entries[j].0 {
            assert(repeats(entries, j));
        }
    }
}

/// A configuration that is read out of a document keeps the invariant.
pub proof fn lemma_config_from_wf(document: Node)
    ensures
        config_from(document) matches Ok(config) ==> config.wf(),
{
    if let Ok(config) = config_from(document) {
        let root = document->Table_0;
        let files = section(root, "file"@)->Ok_0;
        let sails = section(root, "sail"@)->Ok_0;
        let read_file = file_reader(files, seq!["file"@]);
        lemma_collected_keys(files, read_file);
        lemma_collected_keys(sails, sail_reader(sails, seq!["sail"@]));
        lemma_collected_items(files.len() as int, read_file);
        assert forall|i: int| 0 <= i < config.file.len() implies distinct(
            keys(#[trigger] config.file[i].1),
        ) && forall|j: int|
            0 <= j < config.file[i].1.len() ==> (#[trigger] config.file[i].1[j]).0.len() > 0 by {
            assert(read_file(i) == Ok::<_, SchemaFault>(config.file[i]));
            let assets = files[i].1->Table_0;
            let read_asset = asset_reader(assets, seq!["file"@].push(files[i].0));
            lemma_collected_keys(assets, read_asset);
            lemma_collected_items(assets.len() as int, read_asset);
            assert forall|j: int| 0 <= j < config.file[i].1.len() implies (
            #[trigger] config.file[i].1[j]).0.len() > 0 by {
                assert(read_asset(j) == Ok::<_, SchemaFault>(config.file[i].1[j]));
            }
        }
    }
}

} // verus!
