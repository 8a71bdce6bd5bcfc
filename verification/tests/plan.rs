use render_assets::{
    blender_exe, build_invocation, decimal_string, join_path, plan_jobs, AssetConfig, Invocation,
    Number, RenderJob, Renderer, SingleAssetConfig, TargetFamily,
};

fn asset(object: &str, output: Option<&str>, width: u32, frames: (u32, u32, u32)) -> SingleAssetConfig {
    SingleAssetConfig {
        width,
        height: Some(64),
        z_local_frames: frames.0,
        z_frames: frames.1,
        x_frames: frames.2,
        object: object.to_string(),
        output: output.map(|path| path.to_string()),
        mass: Some(1200),
        optical_size: Number::Integer(2),
        logical_size: Some(Number::Float(7.5f64.to_bits())),
    }
}

fn strings(items: &[&str]) -> Vec<String> {
    items.iter().map(|item| item.to_string()).collect()
}

#[test]
fn decimal_string_writes_numerals() {
    assert_eq!(decimal_string(0), "0");
    assert_eq!(decimal_string(7), "7");
    assert_eq!(decimal_string(10), "10");
    assert_eq!(decimal_string(256), "256");
    assert_eq!(decimal_string(1009), "1009");
    assert_eq!(decimal_string(4294967295), "4294967295");
    assert_eq!(decimal_string(u64::MAX), "18446744073709551615");
}

#[test]
fn decimal_string_agrees_with_std() {
    let mut n: u64 = 0;
    while n < 3000 {
        assert_eq!(decimal_string(n), n.to_string());
        n += 1;
    }
}

#[test]
fn join_path_puts_one_separator() {
    assert_eq!(join_path("assets", "rendered"), "assets/rendered");
    assert_eq!(join_path("assets/rendered", "hull.png"), "assets/rendered/hull.png");
    assert_eq!(join_path("assets/rendered/", "hull.png"), "assets/rendered/hull.png");
    assert_eq!(join_path("assets", "rig/mast.png"), "assets/rig/mast.png");
}

#[test]
fn join_path_with_empty_base_is_the_relative_path() {
    assert_eq!(join_path("", "ship.blend"), "ship.blend");
    assert_eq!(join_path("", ""), "");
}

#[test]
fn join_path_with_absolute_path_drops_the_base() {
    assert_eq!(join_path("assets/rendered", "/tmp/hull.png"), "/tmp/hull.png");
    assert_eq!(join_path("", "/tmp/hull.png"), "/tmp/hull.png");
}

#[test]
fn join_path_with_empty_relative_path_ends_in_separator() {
    assert_eq!(join_path("assets", ""), "assets/");
    assert_eq!(join_path("assets/", ""), "assets/");
    assert_eq!(join_path("/", "x"), "/x");
}

#[test]
fn join_path_agrees_with_std_on_unix_paths() {
    let bases = ["", "a", "a/", "a/b", "/", "/a", "models/ships"];
    let rels = ["", "x", "x/y", "/x", "x.png", "ä/ö.png"];
    for base in bases {
        for rel in rels {
            let expected = std::path::Path::new(base).join(rel);
            if std::path::MAIN_SEPARATOR == '/' {
                assert_eq!(join_path(base, rel), expected.to_string_lossy());
            }
        }
    }
}

#[test]
fn plan_jobs_lists_each_asset_once_in_order() {
    let config = AssetConfig {
        file: vec![
            (
                "ship.blend".to_string(),
                vec![
                    ("hull".to_string(), asset("Hull", None, 256, (1, 1, 1))),
                    ("mast".to_string(), asset("Mast", Some("rig/mast.png"), 64, (2, 3, 4))),
                ],
            ),
            ("empty.blend".to_string(), vec![]),
            (
                "harbour/crane.blend".to_string(),
                vec![("crane".to_string(), asset("Crane", None, 512, (8, 1, 1)))],
            ),
        ],
        sail: vec![],
    };
    let jobs = plan_jobs(&config, "", "assets/rendered");
    assert_eq!(jobs.len(), 3);
    assert_eq!(
        jobs[0],
        RenderJob {
            source_file: "ship.blend".to_string(),
            asset_name: "hull".to_string(),
            model_path: "ship.blend".to_string(),
            output: "hull.png".to_string(),
            output_path: "assets/rendered/hull.png".to_string(),
            object: "Hull".to_string(),
            width: 256,
            z_local_frames: 1,
            z_frames: 1,
            x_frames: 1,
        }
    );
    assert_eq!(
        jobs[1],
        RenderJob {
            source_file: "ship.blend".to_string(),
            asset_name: "mast".to_string(),
            model_path: "ship.blend".to_string(),
            output: "rig/mast.png".to_string(),
            output_path: "assets/rendered/rig/mast.png".to_string(),
            object: "Mast".to_string(),
            width: 64,
            z_local_frames: 2,
            z_frames: 3,
            x_frames: 4,
        }
    );
    assert_eq!(jobs[2].source_file, "harbour/crane.blend");
    assert_eq!(jobs[2].asset_name, "crane");
    assert_eq!(jobs[2].output_path, "assets/rendered/crane.png");
    assert_eq!(jobs[2].z_local_frames, 8);
}

#[test]
fn plan_jobs_resolves_model_below_config_directory() {
    let config = AssetConfig {
        file: vec![(
            "models/ship.blend".to_string(),
            vec![("hull".to_string(), asset("Hull", None, 256, (1, 1, 1)))],
        )],
        sail: vec![],
    };
    let jobs = plan_jobs(&config, "project", "out");
    assert_eq!(jobs.len(), 1);
    assert_eq!(jobs[0].model_path, "project/models/ship.blend");
    assert_eq!(jobs[0].output_path, "out/hull.png");
}

#[test]
fn plan_jobs_of_empty_configuration_is_empty() {
    let config = AssetConfig { file: vec![], sail: vec![] };
    assert!(plan_jobs(&config, "", "assets/rendered").is_empty());
    let only_files = AssetConfig {
        file: vec![("a.blend".to_string(), vec![]), ("b.blend".to_string(), vec![])],
        sail: vec![],
    };
    assert!(plan_jobs(&only_files, "", "assets/rendered").is_empty());
}

#[test]
fn plan_jobs_resolves_repeated_name_through_first_file() {
    let config = AssetConfig {
        file: vec![
            (
                "a.blend".to_string(),
                vec![("hull".to_string(), asset("HullA", Some("a_hull.png"), 256, (1, 1, 1)))],
            ),
            (
                "b.blend".to_string(),
                vec![("hull".to_string(), asset("HullB", Some("b_hull.png"), 128, (1, 1, 1)))],
            ),
        ],
        sail: vec![],
    };
    let jobs = plan_jobs(&config, "", "out");
    assert_eq!(jobs.len(), 2);
    assert_eq!(jobs[0].object, "HullA");
    assert_eq!(jobs[0].output, "a_hull.png");
    assert_eq!(jobs[1].object, "HullB");
    assert_eq!(jobs[1].width, 128);
    assert_eq!(jobs[1].model_path, "b.blend");
    assert_eq!(jobs[1].output, "a_hull.png");
    assert_eq!(jobs[1].output_path, "out/a_hull.png");
}

#[test]
fn build_invocation_gives_renderer_arguments() {
    let renderer = Renderer {
        executable: "blender".to_string(),
        script: "import bpy\nprint('render')".to_string(),
    };
    let job = RenderJob {
        source_file: "ship.blend".to_string(),
        asset_name: "mast".to_string(),
        model_path: "models/ship.blend".to_string(),
        output: "rig/mast.png".to_string(),
        output_path: "assets/rendered/rig/mast.png".to_string(),
        object: "Main Mast".to_string(),
        width: 640,
        z_local_frames: 16,
        z_frames: 2,
        x_frames: 3,
    };
    let invocation = build_invocation(&renderer, &job);
    assert_eq!(
        invocation,
        Invocation {
            program: "blender".to_string(),
            args: strings(&[
                "--background",
                "models/ship.blend",
                "--python-expr",
                "import bpy\nprint('render')",
                "--",
                "--output",
                "assets/rendered/rig/mast.png",
                "--object-name",
                "Main Mast",
                "--width",
                "640",
                "--z-local-frames",
                "16",
                "--z-frames",
                "2",
                "--x-frames",
                "3",
            ]),
        }
    );
}

#[test]
fn build_invocation_writes_largest_counts() {
    let renderer = Renderer { executable: "/opt/blender".to_string(), script: String::new() };
    let job = RenderJob {
        source_file: "a".to_string(),
        asset_name: "a".to_string(),
        model_path: "a".to_string(),
        output: "a.png".to_string(),
        output_path: "a.png".to_string(),
        object: "A".to_string(),
        width: u32::MAX,
        z_local_frames: 0,
        z_frames: u32::MAX,
        x_frames: 10,
    };
    let invocation = build_invocation(&renderer, &job);
    assert_eq!(invocation.program, "/opt/blender");
    assert_eq!(invocation.args.len(), 17);
    assert_eq!(invocation.args[3], "");
    assert_eq!(invocation.args[10], "4294967295");
    assert_eq!(invocation.args[12], "0");
    assert_eq!(invocation.args[14], "4294967295");
    assert_eq!(invocation.args[16], "10");
}

#[test]
fn blender_exe_is_bare_name_off_windows() {
    assert_eq!(blender_exe(TargetFamily::Unix), strings(&["blender"]));
}

#[test]
fn blender_exe_is_installation_path_on_windows() {
    assert_eq!(
        blender_exe(TargetFamily::Windows),
        strings(&["C:", "Program Files", "Blender Foundation", "Blender 3.0", "blender.exe"])
    );
}
