use render_assets::{
    build_invocation, parse_config, parse_document, plan_jobs, AssetConfig, ConfigParseError,
    Document, Fault, Number, Renderer, SailParams, SchemaError, SingleAssetConfig,
};

fn table(entries: Vec<(&str, Document)>) -> Document {
    Document::Table(entries.into_iter().map(|(key, value)| (key.to_string(), value)).collect())
}

fn text(value: &str) -> Document {
    Document::String(value.to_string())
}

fn path(keys: &[&str]) -> Vec<String> {
    keys.iter().map(|key| key.to_string()).collect()
}

const FLEET: &str = r#"
[file."ship.blend".mast]
object = "Main Mast"
width = 64
z_local_frames = 16
output = "rig/mast.png"
optical_size = 3
logical_size = 12.5
comment = "fields that the schema does not know are ignored"

[file."ship.blend".hull]
object = "Hull"
optical_size = 2.0

[file."harbour/crane.blend"]
crane = { object = "Crane", optical_size = 4.5, mass = 9000, height = 128, x_frames = 2, z_frames = 3 }

[sail.main]
mast_offset = 0.25
area = 40.0
reefing_stages = ["full", "reef1", "reef2"]
"#;

#[test]
fn parse_document_reads_every_kind_of_value() {
    let document = parse_document(
        "s = \"text\"\ni = -7\nf = 1.5\nb = true\nd = 1979-05-27T07:32:00Z\na = [1, \"two\", [3]]\n[t]\nk = 0\n",
    )
    .expect("the text is TOML");
    assert_eq!(
        document,
        table(vec![
            (
                "a",
                Document::Array(vec![
                    Document::Integer(1),
                    text("two"),
                    Document::Array(vec![Document::Integer(3)])
                ])
            ),
            ("b", Document::Boolean(true)),
            ("d", Document::Datetime("1979-05-27T07:32:00Z".to_string())),
            ("f", Document::Float(1.5f64.to_bits())),
            ("i", Document::Integer(-7)),
            ("s", text("text")),
            ("t", table(vec![("k", Document::Integer(0))])),
        ])
    );
}

#[test]
fn parse_document_of_empty_text_is_empty_table() {
    assert_eq!(parse_document(""), Ok(table(vec![])));
    assert_eq!(parse_document("# only a comment\n"), Ok(table(vec![])));
}

#[test]
fn parse_document_lists_table_entries_by_key() {
    let document = parse_document("zebra = 1\nalpha = 2\n\"Mid\" = 3\n").expect("the text is TOML");
    assert_eq!(
        document,
        table(vec![
            ("Mid", Document::Integer(3)),
            ("alpha", Document::Integer(2)),
            ("zebra", Document::Integer(1)),
        ])
    );
}

#[test]
fn parse_document_refuses_malformed_text() {
    for bad in ["a = ", "= 1", "[unclosed", "a = 1\na = 2\n", "a = \"unterminated", "a = [1, 2"] {
        let parsed = parse_document(bad);
        assert!(matches!(parsed, Err(ConfigParseError::Syntax { .. })), "text {:?}", bad);
        assert!(!parsed.unwrap_err().message().is_empty());
    }
}

#[test]
fn parse_config_reads_the_whole_schema() {
    let config = parse_config(FLEET).expect("the text is a configuration");
    assert_eq!(
        config,
        AssetConfig {
            file: vec![
                (
                    "harbour/crane.blend".to_string(),
                    vec![(
                        "crane".to_string(),
                        SingleAssetConfig {
                            width: 256,
                            height: Some(128),
                            z_local_frames: 1,
                            z_frames: 3,
                            x_frames: 2,
                            object: "Crane".to_string(),
                            output: None,
                            mass: Some(9000),
                            optical_size: Number::Float(4.5f64.to_bits()),
                            logical_size: None,
                        }
                    )]
                ),
                (
                    "ship.blend".to_string(),
                    vec![
                        (
                            "hull".to_string(),
                            SingleAssetConfig {
                                width: 256,
                                height: None,
                                z_local_frames: 1,
                                z_frames: 1,
                                x_frames: 1,
                                object: "Hull".to_string(),
                                output: None,
                                mass: None,
                                optical_size: Number::Float(2.0f64.to_bits()),
                                logical_size: None,
                            }
                        ),
                        (
                            "mast".to_string(),
                            SingleAssetConfig {
                                width: 64,
                                height: None,
                                z_local_frames: 16,
                                z_frames: 1,
                                x_frames: 1,
                                object: "Main Mast".to_string(),
                                output: Some("rig/mast.png".to_string()),
                                mass: None,
                                optical_size: Number::Integer(3),
                                logical_size: Some(Number::Float(12.5f64.to_bits())),
                            }
                        ),
                    ]
                ),
            ],
            sail: vec![(
                "main".to_string(),
                SailParams {
                    mast_offset: Number::Float(0.25f64.to_bits()),
                    area: Number::Float(40.0f64.to_bits()),
                    reefing_stages: path(&["full", "reef1", "reef2"]),
                }
            )],
        }
    );
}

#[test]
fn parse_config_refuses_malformed_text_as_syntax() {
    let parsed = parse_config("[file\nobject = ");
    assert!(matches!(parsed, Err(ConfigParseError::Syntax { .. })));
    let error = parsed.unwrap_err();
    assert!(!error.message().is_empty());
}

#[test]
fn parse_config_refuses_missing_required_field() {
    let parsed = parse_config("[sail]\n[file.\"ship.blend\".hull]\noptical_size = 2.0\n");
    assert_eq!(
        parsed,
        Err(ConfigParseError::Schema(SchemaError {
            fault: Fault::Missing,
            path: path(&["file", "ship.blend", "hull", "object"]),
        }))
    );
    assert_eq!(
        parsed.unwrap_err().message(),
        "missing field for key `file.ship.blend.hull.object`"
    );
}

#[test]
fn parse_config_refuses_wrong_type_and_range() {
    assert_eq!(
        parse_config("[sail]\n[file.a.x]\nobject = \"X\"\noptical_size = 1.0\nwidth = \"wide\"\n"),
        Err(ConfigParseError::Schema(SchemaError {
            fault: Fault::WrongType,
            path: path(&["file", "a", "x", "width"]),
        }))
    );
    assert_eq!(
        parse_config("[sail]\n[file.a.x]\nobject = \"X\"\noptical_size = 1.0\nwidth = -1\n"),
        Err(ConfigParseError::Schema(SchemaError {
            fault: Fault::OutOfRange,
            path: path(&["file", "a", "x", "width"]),
        }))
    );
}

#[test]
fn parse_config_requires_both_tables() {
    assert_eq!(
        parse_config(""),
        Err(ConfigParseError::Schema(SchemaError { fault: Fault::Missing, path: path(&["file"]) }))
    );
    assert_eq!(
        parse_config("[file]\n"),
        Err(ConfigParseError::Schema(SchemaError { fault: Fault::Missing, path: path(&["sail"]) }))
    );
    assert_eq!(parse_config("[file]\n[sail]\n"), Ok(AssetConfig { file: vec![], sail: vec![] }));
}

#[test]
fn parse_config_refuses_empty_asset_name() {
    assert_eq!(
        parse_config("[sail]\n[file.a.\"\"]\nobject = \"X\"\noptical_size = 1.0\n"),
        Err(ConfigParseError::Schema(SchemaError {
            fault: Fault::EmptyName,
            path: path(&["file", "a", ""]),
        }))
    );
}

#[test]
fn hull_example_resolves_and_renders_with_defaults() {
    let config = parse_config(
        "sail = {}\nfile = { \"ship.blend\" = { hull = { object = \"Hull\", optical_size = 2.0 } } }\n",
    )
    .expect("the text is a configuration");
    assert_eq!(config.get_asset_output("hull"), Some("hull.png".to_string()));
    let jobs = plan_jobs(&config, "", "assets/rendered");
    assert_eq!(jobs.len(), 1);
    assert_eq!(jobs[0].output_path, "assets/rendered/hull.png");
    assert_eq!(jobs[0].model_path, "ship.blend");
    let renderer = Renderer { executable: "blender".to_string(), script: "pass".to_string() };
    let invocation = build_invocation(&renderer, &jobs[0]);
    let args: Vec<&str> = invocation.args.iter().map(|arg| arg.as_str()).collect();
    assert_eq!(
        args,
        vec![
            "--background",
            "ship.blend",
            "--python-expr",
            "pass",
            "--",
            "--output",
            "assets/rendered/hull.png",
            "--object-name",
            "Hull",
            "--width",
            "256",
            "--z-local-frames",
            "1",
            "--z-frames",
            "1",
            "--x-frames",
            "1",
        ]
    );
}

#[test]
fn text_round_trip_through_the_toml_crate() {
    let config = parse_config(FLEET).expect("the text is a configuration");
    let document = config.to_document();
    let written = toml::to_string(&to_value(&document)).expect("the document can be written");
    assert_eq!(parse_config(&written), Ok(config));
}

fn to_value(document: &Document) -> toml::Value {
    match document {
        Document::String(text) => toml::Value::String(text.clone()),
        Document::Integer(value) => toml::Value::Integer(*value),
        Document::Float(bits) => toml::Value::Float(f64::from_bits(*bits)),
        Document::Boolean(value) => toml::Value::Boolean(*value),
        Document::Datetime(text) => toml::Value::Datetime(text.parse().expect("a datetime")),
        Document::Array(items) => toml::Value::Array(items.iter().map(to_value).collect()),
        Document::Table(entries) => toml::Value::Table(
            entries.iter().map(|(key, value)| (key.clone(), to_value(value))).collect(),
        ),
    }
}
