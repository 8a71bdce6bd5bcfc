//! Asset-rendering build step: the configuration model that maps source model
//! files to named sprite assets, the resolver from an asset name to its output
//! path, and the engine that sequences one render pass over a configuration.
//!
//! A configuration is read out of a TOML text (`parse_config`) or out of a
//! document built by hand (`AssetConfig::from_document`). `plan_jobs` lists
//! the work of a pass, and `RenderRun` decides, event by event, what the
//! driver of the pass does next.

pub mod config;
pub mod document;
pub mod engine;
pub mod keyed;
pub mod load;
pub mod nesting;
pub mod plan;
pub mod platform;
pub mod schema;
pub mod store;
pub mod text;
pub mod toml_text;

pub use config::{
    default_asset_frames, default_asset_width, AssetConfig, Assets, Number, SailParams,
    SingleAssetConfig, DEFAULT_ASSET_FRAMES, DEFAULT_ASSET_WIDTH,
};
pub use document::Document;
pub use nesting::{nesting_of, MAX_NESTING};
pub use engine::{
    diagnostic_text, Action, AssetState, Event, Outcome, Phase, RenderError, RenderRun,
};
pub use plan::{build_invocation, plan_jobs, Invocation, Opts, RenderJob, Renderer};
pub use platform::{blender_exe, TargetFamily};
pub use schema::{Fault, SchemaError};
pub use text::{decimal_string, join_path};
pub use toml_text::{parse_config, parse_document, ConfigParseError};
