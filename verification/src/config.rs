//! The asset catalogue: which objects of which source model files become
//! sprites, with their render parameters, and the sail table that shares the
//! configuration. Names resolve to assets and to output paths here.

use vstd::prelude::*;
use crate::keyed::{distinct, entry_keys, find_key, index_of, keys, lemma_index_of, lookup};

verus! {

/// Pixel width of an asset that names none.
pub const DEFAULT_ASSET_WIDTH: u32 = 256;

/// Frame count of an axis for which an asset names none.
pub const DEFAULT_ASSET_FRAMES: u32 = 1;

/// Pixel width of an asset that names none.
pub fn default_asset_width() -> (width: u32)
    ensures
        width == DEFAULT_ASSET_WIDTH,
        width == 256,
{
    DEFAULT_ASSET_WIDTH
}

/// Frame count of an axis for which an asset names none.
pub fn default_asset_frames() -> (frames: u32)
    ensures
        frames == DEFAULT_ASSET_FRAMES,
        frames == 1,
{
    DEFAULT_ASSET_FRAMES
}

/// A number as the configuration wrote it. A fractional number is held by the
/// bit pattern of its IEEE 754 double, so that it is carried without loss and
/// without arithmetic.
#[derive(Clone, Copy, Debug, PartialEq, Eq, Structural)]
pub enum Number {
    Integer(i64),
    Float(u64),
}

/// The render parameters of one asset. The asset's name is the key it is filed
/// under; `object` names the object of the model file that is rendered.
#[derive(Debug, Clone, PartialEq)]
pub struct SingleAssetConfig {
    /// Pixel width of the rendered image.
    pub width: u32,
    /// Pixel height; the renderer derives it where none is given.
    pub height: Option<u32>,
    /// Frames captured around the local z axis.
    pub z_local_frames: u32,
    /// Frames captured around the z axis.
    pub z_frames: u32,
    /// Frames captured around the x axis.
    pub x_frames: u32,
    /// The object inside the source model file.
    pub object: String,
    /// Output path below the render output directory, where one is given.
    pub output: Option<String>,
    /// Mass in kilograms.
    pub mass: Option<u32>,
    /// Size of the object in blender units.
    pub optical_size: Number,
    /// Size of the object in the game world in meters.
    pub logical_size: Option<Number>,
}

/// What a `SingleAssetConfig` holds.
pub struct AssetView {
    pub width: u32,
    pub height: Option<u32>,
    pub z_local_frames: u32,
    pub z_frames: u32,
    pub x_frames: u32,
    pub object: Seq<char>,
    pub output: Option<Seq<char>>,
    pub mass: Option<u32>,
    pub optical_size: Number,
    pub logical_size: Option<Number>,
}

/// The text of an optional string.
pub open spec fn text_of(s: Option<String>) -> Option<Seq<char>> {
    match s {
        Some(s) => Some(s@),
        None => None,
    }
}

impl View for SingleAssetConfig {
    type V = AssetView;

    open spec fn view(&self) -> AssetView {
        AssetView {
            width: self.width,
            height: self.height,
            z_local_frames: self.z_local_frames,
            z_frames: self.z_frames,
            x_frames: self.x_frames,
            object: self.object@,
            output: text_of(self.output),
            mass: self.mass,
            optical_size: self.optical_size,
            logical_size: self.logical_size,
        }
    }
}

/// Physical parameters of one sail. Rendering never reads them.
#[derive(Debug, Clone, PartialEq)]
pub struct SailParams {
    /// Offset of the mast along the x axis in blender units.
    pub mast_offset: Number,
    /// Area in square meters.
    pub area: Number,
    /// The reefing stages, in the order of the progression.
    pub reefing_stages: Vec<String>,
}

/// What a `SailParams` holds.
pub struct SailView {
    pub mast_offset: Number,
    pub area: Number,
    pub reefing_stages: Seq<Seq<char>>,
}

impl View for SailParams {
    type V = SailView;

    open spec fn view(&self) -> SailView {
        SailView {
            mast_offset: self.mast_offset,
            area: self.area,
            reefing_stages: crate::text::texts(self.reefing_stages@),
        }
    }
}

/// The assets of one source file, by name.
pub type Assets = Vec<(String, SingleAssetConfig)>;

/// The whole configuration.
#[derive(Debug, Clone, PartialEq)]
pub struct AssetConfig {
    /// The assets of each source model file, by the file's path.
    pub file: Vec<(String, Assets)>,
    /// The sails, by identifier.
    pub sail: Vec<(String, SailParams)>,
}

/// What an `AssetConfig` holds.
pub struct ConfigView {
    pub file: Seq<(Seq<char>, Seq<(Seq<char>, AssetView)>)>,
    pub sail: Seq<(Seq<char>, SailView)>,
}

/// The view of one source file's assets.
pub open spec fn assets_view(assets: Seq<(String, SingleAssetConfig)>) -> Seq<
    (Seq<char>, AssetView),
> {
    Seq::new(assets.len(), |j: int| (assets[j].0@, assets[j].1@))
}

/// The view of the source files.
pub open spec fn files_view(files: Seq<(String, Assets)>) -> Seq<
    (Seq<char>, Seq<(Seq<char>, AssetView)>),
> {
    Seq::new(files.len(), |i: int| (files[i].0@, assets_view(files[i].1@)))
}

/// The view of the sails.
pub open spec fn sails_view(sails: Seq<(String, SailParams)>) -> Seq<(Seq<char>, SailView)> {
    Seq::new(sails.len(), |i: int| (sails[i].0@, sails[i].1@))
}

impl View for AssetConfig {
    type V = ConfigView;

    open spec fn view(&self) -> ConfigView {
        ConfigView { file: files_view(self.file@), sail: sails_view(self.sail@) }
    }
}

/// The view of an optional asset.
pub open spec fn asset_of(found: Option<&SingleAssetConfig>) -> Option<AssetView> {
    match found {
        Some(asset) => Some(asset@),
        None => None,
    }
}

/// The extension of an output that is named after its asset: `.png`.
pub open spec fn output_extension() -> Seq<char> {
    seq!['.', 'p', 'n', 'g']
}

impl AssetView {
    /// The output path of this asset when it is filed under `name`: the one
    /// it gives, else the name with the fixed extension.
    pub open spec fn output_for(self, name: Seq<char>) -> Seq<char> {
        match self.output {
            Some(path) => path,
            None => name + output_extension(),
        }
    }
}

impl ConfigView {
    /// The asset that `name` resolves to, looking through the source files
    /// from index `from` on: that of the first file that has the name.
    pub open spec fn find_asset_from(self, name: Seq<char>, from: int) -> Option<AssetView>
        decreases self.file.len() - from,
    {
        if from < 0 || from >= self.file.len() {
            None
        } else {
            match lookup(self.file[from].1, name) {
                Some(asset) => Some(asset),
                None => self.find_asset_from(name, from + 1),
            }
        }
    }

    /// The asset that `name` resolves to.
    pub open spec fn find_asset(self, name: Seq<char>) -> Option<AssetView> {
        self.find_asset_from(name, 0)
    }

    /// The output path that `name` resolves to.
    pub open spec fn asset_output(self, name: Seq<char>) -> Option<Seq<char>> {
        match self.find_asset(name) {
            Some(asset) => Some(asset.output_for(name)),
            None => None,
        }
    }

    /// Whether asset `j` of source file `i` is filed under `name`.
    pub open spec fn names(self, i: int, j: int, name: Seq<char>) -> bool {
        0 <= i < self.file.len() && 0 <= j < self.file[i].1.len() && self.file[i].1[j].0 == name
    }

    /// The invariant of a configuration: no source file, asset of one file or
    /// sail is filed twice, and no asset has the empty name.
    pub open spec fn wf(self) -> bool {
        &&& distinct(keys(self.file))
        &&& distinct(keys(self.sail))
        &&& forall|i: int| 0 <= i < self.file.len() ==> distinct(keys(#[trigger] self.file[i].1))
        &&& forall|i: int, j: int|
            0 <= i < self.file.len() && 0 <= j < self.file[i].1.len()
                ==> (#[trigger] self.file[i].1[j]).0.len() > 0
    }
}

/// A name resolves exactly when some source file files an asset under it,
/// and then to the asset of the first such file, and of that file's entries
/// to the first of that name.
pub proof fn lemma_find_asset(config: ConfigView, name: Seq<char>)
    ensures
        config.find_asset(name) is Some <==> exists|i: int, j: int| config.names(i, j, name),
        config.find_asset(name) matches Some(asset) ==> exists|i: int, j: int|
            {
                &&& #[trigger] config.names(i, j, name)
                &&& config.file[i].1[j].1 == asset
                &&& forall|k: int, l: int| 0 <= k < i ==> !config.names(k, l, name)
                &&& forall|l: int| 0 <= l < j ==> !config.names(i, l, name)
            },
{
    lemma_find_asset_from(config, name, 0);
}

proof fn lemma_find_asset_from(config: ConfigView, name: Seq<char>, from: int)
    requires
        0 <= from,
    ensures
        config.find_asset_from(name, from) is Some <==> exists|i: int, j: int|
            from <= i && config.names(i, j, name),
        config.find_asset_from(name, from) matches Some(asset) ==> exists|i: int, j: int|
            {
                &&& from <= i
                &&& #[trigger] config.names(i, j, name)
                &&& config.file[i].1[j].1 == asset
                &&& forall|k: int, l: int| from <= k < i ==> !config.names(k, l, name)
                &&& forall|l: int| 0 <= l < j ==> !config.names(i, l, name)
            },
    decreases config.file.len() - from,
{
    if from < config.file.len() {
        let assets = config.file[from].1;
        lemma_index_of(keys(assets), name);
        match index_of(keys(assets), name) {
            Some(j) => {
                assert(keys(assets)[j] == assets[j].0);
                assert(config.names(from, j, name));
                assert forall|l: int| 0 <= l < j implies !config.names(from, l, name) by {
                    assert(keys(assets)[l] == assets[l].0);
                }
            },
            None => {
                lemma_find_asset_from(config, name, from + 1);
                assert forall|l: int| !config.names(from, l, name) by {
                    if 0 <= l < assets.len() {
                        assert(keys(assets)[l] == assets[l].0);
                    }
                }
                if config.find_asset_from(name, from) is Some {
                    let (i, j) = choose|i: int, j: int|
                        {
                            &&& from + 1 <= i
                            &&& #[trigger] config.names(i, j, name)
                            &&& config.file[i].1[j].1 == config.find_asset_from(name, from)->0
                            &&& forall|k: int, l: int|
                                from + 1 <= k < i ==> !config.names(k, l, name)
                            &&& forall|l: int| 0 <= l < j ==> !config.names(i, l, name)
                        };
                    assert(config.names(i, j, name));
                }
                if exists|i: int, j: int| from <= i && config.names(i, j, name) {
                    let (i, j) = choose|i: int, j: int| from <= i && config.names(i, j, name);
                    assert(from + 1 <= i && config.names(i, j, name));
                }
            },
        }
    }
}

/// An asset whose name is filed nowhere else resolves to itself.
pub proof fn lemma_unique_name_resolves_to_itself(config: ConfigView, i: int, j: int)
    requires
        0 <= i < config.file.len(),
        0 <= j < config.file[i].1.len(),
        forall|k: int, l: int|
            config.names(k, l, config.file[i].1[j].0) ==> k == i && l == j,
    ensures
        config.find_asset(config.file[i].1[j].0) == Some(config.file[i].1[j].1),
        config.asset_output(config.file[i].1[j].0) == Some(
            config.file[i].1[j].1.output_for(config.file[i].1[j].0),
        ),
{
    let name = config.file[i].1[j].0;
    assert(config.names(i, j, name));
    lemma_find_asset(config, name);
}

/// A name that no source file files an asset under resolves to nothing:
/// neither to an asset nor to an output path.
pub proof fn lemma_absent_name(config: ConfigView, name: Seq<char>)
    requires
        forall|i: int, j: int| !config.names(i, j, name),
    ensures
        config.find_asset(name) is None,
        config.asset_output(name) is None,
{
    lemma_find_asset(config, name);
}

/// The output path of a name that resolves is the asset's own `output` where
/// it has one, and else the name followed by `.png`.
pub proof fn lemma_asset_output(config: ConfigView, name: Seq<char>)
    ensures
        match config.find_asset(name) {
            Some(asset) => config.asset_output(name) == Some(
                match asset.output {
                    Some(path) => path,
                    None => name + seq!['.', 'p', 'n', 'g'],
                },
            ),
            None => config.asset_output(name) is None,
        },
{
}

impl AssetConfig {
    /// Resolves an asset name: the parameters of the first source file, in
    /// the configuration's order, that has an asset of that name.
    pub fn find_asset(&self, name: &str) -> (found: Option<&SingleAssetConfig>)
        ensures
            asset_of(found) == self@.find_asset(name@),
    {
        let mut i: usize = 0;
        while i < self.file.len()
            invariant
                i <= self.file.len(),
                self@.find_asset(name@) == self@.find_asset_from(name@, i as int),
            decreases self.file.len() - i,
        {
            let assets = &self.file[i].1;
            let found = find_key(assets, name);
            proof {
                assert(keys(self@.file[i as int].1) =~= entry_keys(assets@));
                lemma_index_of(entry_keys(assets@), name@);
            }
            match found {
                Some(j) => {
                    return Some(&assets[j].1);
                },
                None => {},
            }
            i += 1;
        }
        None
    }

    /// Resolves an asset name to its output path below the render output
    /// directory: the asset's own `output` where it has one, else the name
    /// followed by `.png`. Nothing where no source file has the name.
    pub fn get_asset_output(&self, asset_name: &str) -> (output: Option<String>)
        ensures
            text_of(output) == self@.asset_output(asset_name@),
    {
        match self.find_asset(asset_name) {
            Some(asset) => {
                match &asset.output {
                    Some(path) => Some(path.clone()),
                    None => {
                        proof {
                            reveal_strlit(".png");
                            assert(".png"@ =~= output_extension());
                        }
                        Some(String::from_str(asset_name).concat(".png"))
                    },
                }
            },
            None => None,
        }
    }
}

} // verus!
