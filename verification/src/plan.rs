//! From a configuration to the work of one render pass: one job for each
//! asset of each source file, and the renderer invocation of a job.

use vstd::prelude::*;
use crate::config::{AssetConfig, ConfigView};
use crate::keyed::{keys, lemma_index_of, lookup};
use crate::text::{decimal, decimal_string, join_path, joined, texts};

verus! {

/// Options of a render pass.
#[derive(Debug, Copy, Clone, Hash)]
pub struct Opts {
    /// Keep an output file that exists instead of rendering it again.
    pub no_override: bool,
}

/// How the renderer is started: where its executable is, and the script that
/// it is handed inline.
#[derive(Debug, Clone, PartialEq, Eq)]
pub struct Renderer {
    pub executable: String,
    pub script: String,
}

/// What a `Renderer` holds.
pub struct RendererView {
    pub executable: Seq<char>,
    pub script: Seq<char>,
}

impl View for Renderer {
    type V = RendererView;

    open spec fn view(&self) -> RendererView {
        RendererView { executable: self.executable@, script: self.script@ }
    }
}

/// One asset of one source file, with its paths resolved.
#[derive(Debug, Clone, PartialEq, Eq)]
pub struct RenderJob {
    /// The source file as the configuration names it.
    pub source_file: String,
    /// The name the asset is filed under.
    pub asset_name: String,
    /// The model file: the source file below the configuration's directory.
    pub model_path: String,
    /// The output path that the asset's name resolves to.
    pub output: String,
    /// The output file: `output` below the render output directory.
    pub output_path: String,
    /// The object to render.
    pub object: String,
    pub width: u32,
    pub z_local_frames: u32,
    pub z_frames: u32,
    pub x_frames: u32,
}

/// What a `RenderJob` holds.
pub struct JobView {
    pub source_file: Seq<char>,
    pub asset_name: Seq<char>,
    pub model_path: Seq<char>,
    pub output: Seq<char>,
    pub output_path: Seq<char>,
    pub object: Seq<char>,
    pub width: u32,
    pub z_local_frames: u32,
    pub z_frames: u32,
    pub x_frames: u32,
}

impl View for RenderJob {
    type V = JobView;

    open spec fn view(&self) -> JobView {
        JobView {
            source_file: self.source_file@,
            asset_name: self.asset_name@,
            model_path: self.model_path@,
            output: self.output@,
            output_path: self.output_path@,
            object: self.object@,
            width: self.width,
            z_local_frames: self.z_local_frames,
            z_frames: self.z_frames,
            x_frames: self.x_frames,
        }
    }
}

/// The views of a list of jobs.
pub open spec fn jobs_view(jobs: Seq<RenderJob>) -> Seq<JobView> {
    Seq::new(jobs.len(), |k: int| jobs[k]@)
}

/// The job of asset `j` of source file `i`. Its output is what the asset's
/// name resolves to in the whole configuration.
pub open spec fn job_at(
    config: ConfigView,
    config_dir: Seq<char>,
    out_dir: Seq<char>,
    i: int,
    j: int,
) -> JobView {
    let source = config.file[i].0;
    let name = config.file[i].1[j].0;
    let asset = config.file[i].1[j].1;
    let output = config.asset_output(name).unwrap();
    JobView {
        source_file: source,
        asset_name: name,
        model_path: joined(config_dir, source),
        output: output,
        output_path: joined(out_dir, output),
        object: asset.object,
        width: asset.width,
        z_local_frames: asset.z_local_frames,
        z_frames: asset.z_frames,
        x_frames: asset.x_frames,
    }
}

/// The jobs of the first `count` assets of source file `i`.
pub open spec fn file_jobs(
    config: ConfigView,
    config_dir: Seq<char>,
    out_dir: Seq<char>,
    i: int,
    count: int,
) -> Seq<JobView> {
    Seq::new(count as nat, |j: int| job_at(config, config_dir, out_dir, i, j))
}

/// The jobs of the first `n` source files: file by file, asset by asset.
pub open spec fn jobs_before(
    config: ConfigView,
    config_dir: Seq<char>,
    out_dir: Seq<char>,
    n: int,
) -> Seq<JobView>
    decreases n,
{
    if n <= 0 {
        Seq::empty()
    } else {
        jobs_before(config, config_dir, out_dir, n - 1) + file_jobs(
            config,
            config_dir,
            out_dir,
            n - 1,
            config.file[n - 1].1.len() as int,
        )
    }
}

/// The jobs of a render pass over `config`: each asset of each source file
/// once, in the configuration's order.
pub open spec fn planned_jobs(config: ConfigView, config_dir: Seq<char>, out_dir: Seq<char>) -> Seq<
    JobView,
> {
    jobs_before(config, config_dir, out_dir, config.file.len() as int)
}

/// The number of assets in the first `n` source files.
pub open spec fn assets_before(config: ConfigView, n: int) -> nat
    decreases n,
{
    if n <= 0 {
        0
    } else {
        assets_before(config, n - 1) + config.file[n - 1].1.len()
    }
}

/// A name that some source file files an asset under resolves, from `from`
/// on, as long as that file is not before `from`.
proof fn lemma_filed_name_resolves_from(config: ConfigView, i: int, j: int, from: int)
    requires
        0 <= from <= i < config.file.len(),
        0 <= j < config.file[i].1.len(),
    ensures
        config.find_asset_from(config.file[i].1[j].0, from) is Some,
    decreases i - from,
{
    let name = config.file[i].1[j].0;
    if from == i {
        lemma_index_of(keys(config.file[i].1), name);
        assert(keys(config.file[i].1)[j] == name);
    } else if lookup(config.file[from].1, name) is None {
        lemma_filed_name_resolves_from(config, i, j, from + 1);
    }
}

/// Every name that the configuration files an asset under resolves to an
/// asset and to an output path.
pub proof fn lemma_filed_name_resolves(config: ConfigView, i: int, j: int)
    requires
        0 <= i < config.file.len(),
        0 <= j < config.file[i].1.len(),
    ensures
        config.find_asset(config.file[i].1[j].0) is Some,
        config.asset_output(config.file[i].1[j].0) is Some,
{
    lemma_filed_name_resolves_from(config, i, j, 0);
}

/// A pass has as many jobs as the configuration has assets.
pub proof fn lemma_job_count(config: ConfigView, config_dir: Seq<char>, out_dir: Seq<char>, n: int)
    ensures
        jobs_before(config, config_dir, out_dir, n).len() == assets_before(config, n),
    decreases n,
{
    if n > 0 {
        lemma_job_count(config, config_dir, out_dir, n - 1);
    }
}

/// Every asset has its place in the pass: the job of asset `j` of source
/// file `i` stands after the jobs of all assets of earlier files and of the
/// earlier assets of its own file. With `lemma_job_count`, which makes the
/// jobs as many as the assets, each asset is visited exactly once.
pub proof fn lemma_job_position(
    config: ConfigView,
    config_dir: Seq<char>,
    out_dir: Seq<char>,
    n: int,
    i: int,
    j: int,
)
    requires
        0 <= i < n <= config.file.len(),
        0 <= j < config.file[i].1.len(),
    ensures
        assets_before(config, i) + j < assets_before(config, n),
        jobs_before(config, config_dir, out_dir, n)[assets_before(config, i) + j] == job_at(
            config,
            config_dir,
            out_dir,
            i,
            j,
        ),
    decreases n,
{
    lemma_job_count(config, config_dir, out_dir, n - 1);
    if i < n - 1 {
        lemma_job_position(config, config_dir, out_dir, n - 1, i, j);
    }
}

/// Lists the jobs of one render pass over `config`. `config_dir` is the
/// directory that source files are named from, `out_dir` the directory that
/// outputs are written below.
pub fn plan_jobs(config: &AssetConfig, config_dir: &str, out_dir: &str) -> (jobs: Vec<RenderJob>)
    ensures
        jobs_view(jobs@) == planned_jobs(config@, config_dir@, out_dir@),
        jobs@.len() == assets_before(config@, config@.file.len() as int),
{
    let mut jobs: Vec<RenderJob> = Vec::new();
    let mut i: usize = 0;
    assert(jobs_view(jobs@) =~= jobs_before(config@, config_dir@, out_dir@, 0));
    while i < config.file.len()
        invariant
            i <= config.file.len(),
            jobs_view(jobs@) == jobs_before(config@, config_dir@, out_dir@, i as int),
        decreases config.file.len() - i,
    {
        let source = &config.file[i].0;
        let assets = &config.file[i].1;
        let mut j: usize = 0;
        assert(jobs_view(jobs@) =~= jobs_before(config@, config_dir@, out_dir@, i as int)
            + file_jobs(config@, config_dir@, out_dir@, i as int, 0));
        while j < assets.len()
            invariant
                i < config.file.len(),
                j <= assets.len(),
                source == &config.file[i as int].0,
                assets == &config.file[i as int].1,
                jobs_view(jobs@) == jobs_before(config@, config_dir@, out_dir@, i as int)
                    + file_jobs(config@, config_dir@, out_dir@, i as int, j as int),
            decreases assets.len() - j,
        {
            let name = &assets[j].0;
            let asset = &assets[j].1;
            proof {
                lemma_filed_name_resolves(config@, i as int, j as int);
            }
            let output = config.get_asset_output(name.as_str()).unwrap();
            let output_path = join_path(out_dir, output.as_str());
            let job = RenderJob {
                source_file: source.clone(),
                asset_name: name.clone(),
                model_path: join_path(config_dir, source.as_str()),
                output,
                output_path,
                object: asset.object.clone(),
                width: asset.width,
                z_local_frames: asset.z_local_frames,
                z_frames: asset.z_frames,
                x_frames: asset.x_frames,
            };
            let ghost listed = jobs_view(jobs@);
            let ghost next = job_at(config@, config_dir@, out_dir@, i as int, j as int);
            assert(job@ == next);
            jobs.push(job);
            assert(jobs_view(jobs@) =~= listed.push(next));
            assert(file_jobs(config@, config_dir@, out_dir@, i as int, j + 1) =~= file_jobs(
                config@,
                config_dir@,
                out_dir@,
                i as int,
                j as int,
            ).push(next));
            j += 1;
            assert(jobs_view(jobs@) =~= jobs_before(config@, config_dir@, out_dir@, i as int)
                + file_jobs(config@, config_dir@, out_dir@, i as int, j as int));
        }
        i += 1;
    }
    proof {
        lemma_job_count(config@, config_dir@, out_dir@, config@.file.len() as int);
    }
    jobs
}

/// The arguments of the renderer for `job`: headless mode on the model file,
/// the inline script, and after `--` what the script reads.
pub open spec fn invocation_args(renderer: RendererView, job: JobView) -> Seq<Seq<char>> {
    seq![
        "--background"@,
        job.model_path,
        "--python-expr"@,
        renderer.script,
        "--"@,
        "--output"@,
        job.output_path,
        "--object-name"@,
        job.object,
        "--width"@,
        decimal(job.width as nat),
        "--z-local-frames"@,
        decimal(job.z_local_frames as nat),
        "--z-frames"@,
        decimal(job.z_frames as nat),
        "--x-frames"@,
        decimal(job.x_frames as nat),
    ]
}

/// One start of the renderer.
#[derive(Debug, Clone, PartialEq, Eq)]
pub struct Invocation {
    pub program: String,
    pub args: Vec<String>,
}

/// What an `Invocation` holds.
pub struct InvocationView {
    pub program: Seq<char>,
    pub args: Seq<Seq<char>>,
}

impl View for Invocation {
    type V = InvocationView;

    open spec fn view(&self) -> InvocationView {
        InvocationView { program: self.program@, args: texts(self.args@) }
    }
}

/// The start of the renderer that renders `job`.
pub open spec fn invocation_for(renderer: RendererView, job: JobView) -> InvocationView {
    InvocationView { program: renderer.executable, args: invocation_args(renderer, job) }
}

/// Builds the start of the renderer that renders `job`.
pub fn build_invocation(renderer: &Renderer, job: &RenderJob) -> (invocation: Invocation)
    ensures
        invocation@ == invocation_for(renderer@, job@),
{
    let mut args: Vec<String> = Vec::new();
    args.push(String::from_str("--background"));
    args.push(job.model_path.clone());
    args.push(String::from_str("--python-expr"));
    args.push(renderer.script.clone());
    args.push(String::from_str("--"));
    args.push(String::from_str("--output"));
    args.push(job.output_path.clone());
    args.push(String::from_str("--object-name"));
    args.push(job.object.clone());
    args.push(String::from_str("--width"));
    args.push(decimal_string(job.width as u64));
    args.push(String::from_str("--z-local-frames"));
    args.push(decimal_string(job.z_local_frames as u64));
    args.push(String::from_str("--z-frames"));
    args.push(decimal_string(job.z_frames as u64));
    args.push(String::from_str("--x-frames"));
    args.push(decimal_string(job.x_frames as u64));
    assert(texts(args@) =~= invocation_args(renderer@, job@));
    Invocation { program: renderer.executable.clone(), args }
}

} // verus!
