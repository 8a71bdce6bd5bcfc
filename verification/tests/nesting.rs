use render_assets::{
    nesting_of, parse_config, parse_document, ConfigParseError, Document, MAX_NESTING,
};

fn depth_of(document: &Document) -> usize {
    match document {
        Document::Array(items) => 1 + items.iter().map(depth_of).max().unwrap_or(0),
        Document::Table(entries) => {
            1 + entries.iter().map(|(_, value)| depth_of(value)).max().unwrap_or(0)
        }
        _ => 0,
    }
}

fn nested_arrays(depth: usize) -> String {
    format!("a = {}1{}\n", "[".repeat(depth), "]".repeat(depth))
}

fn nested_tables(depth: usize) -> String {
    format!("a = {}b = 1{}\n", "{ t = ".repeat(depth - 1) + "{ ", " }".repeat(depth))
}

fn dotted_key(dots: usize) -> String {
    format!("k{} = 1\n", ".k".repeat(dots))
}

#[test]
fn max_nesting_is_128() {
    assert_eq!(MAX_NESTING, 128);
}

#[test]
fn flat_text_does_not_nest() {
    assert_eq!(nesting_of(""), 0);
    assert_eq!(nesting_of("a = 1\nb = \"two\"\n# three\n"), 0);
}

#[test]
fn brackets_braces_and_dots_nest() {
    assert_eq!(nesting_of("a = [1, 2]\n"), 1);
    assert_eq!(nesting_of("a = [[1], [2, [3]]]\n"), 3);
    assert_eq!(nesting_of("a = { b = { c = 1 } }\n"), 2);
    assert_eq!(nesting_of("a.b.c = 1\n"), 2);
    assert_eq!(nesting_of("[a]\n"), 1);
    assert_eq!(nesting_of("[a.b.c]\n"), 3);
    assert_eq!(nesting_of("[[a.b]]\n"), 3);
    assert_eq!(nesting_of("a = [ { b.c = [1] } ]\n"), 4);
}

#[test]
fn dots_are_counted_to_the_end_of_the_statement() {
    assert_eq!(nesting_of("a = 1.5\nb = 2.5\nc = 3.5\n"), 1);
    assert_eq!(nesting_of("a = [1.5, 2.5, 3.5]\n"), 4);
    assert_eq!(nesting_of("a = [\n  1.5,\n  2.5,\n]\nb = 1\n"), 3);
    assert_eq!(nesting_of("a.b = 1\nc.d = 2\n"), 1);
}

#[test]
fn strings_and_comments_do_not_nest() {
    assert_eq!(nesting_of("a = \"[[[[ {{{{ ....\"\n"), 0);
    assert_eq!(nesting_of("a = '[[[[ {{{{ ....'\n"), 0);
    assert_eq!(nesting_of("# [[[[ {{{{ ....\na = 1\n"), 0);
    assert_eq!(nesting_of("a = \"quote \\\" [[[\"\n"), 0);
    assert_eq!(nesting_of("a = 'back\\' # [[[\n"), 0);
    assert_eq!(nesting_of("a = \"\" # [[[\nb = ''\n"), 0);
    assert_eq!(nesting_of("\"a.b\" = [\"]\", [\"]\"]]\n"), 2);
    assert_eq!(nesting_of("[file.\"ship.blend\".hull]\nobject = \"Hull\"\n"), 3);
}

#[test]
fn closed_brackets_do_not_add_up() {
    let mut text = String::new();
    for _ in 0..1000 {
        text.push_str("[file.\"ship.blend\".hull]\nstages = [\"a.b\", \"c\"]\nsize = 2.0\n");
    }
    assert_eq!(nesting_of(&text), 3);
}

#[test]
fn multi_line_string_ends_the_telling_apart() {
    assert_eq!(nesting_of("a = \"\"\"\n[[[\n\"\"\"\nb = [1]\nc = [2]\n"), 5);
    assert_eq!(nesting_of("a = '''x'''\nb = 1.5\nc = 2.5\n"), 2);
    assert_eq!(nesting_of("a = \"open\n[[\n"), 2);
}

#[test]
fn text_at_the_limit_is_parsed() {
    let arrays = parse_document(&nested_arrays(MAX_NESTING)).expect("arrays at the limit");
    assert_eq!(nesting_of(&nested_arrays(MAX_NESTING)), MAX_NESTING);
    assert_eq!(depth_of(&arrays), 1 + MAX_NESTING);

    let tables = parse_document(&nested_tables(MAX_NESTING)).expect("tables at the limit");
    assert_eq!(nesting_of(&nested_tables(MAX_NESTING)), MAX_NESTING);
    assert_eq!(depth_of(&tables), 1 + MAX_NESTING);

    let dotted = parse_document(&dotted_key(MAX_NESTING)).expect("dots at the limit");
    assert_eq!(nesting_of(&dotted_key(MAX_NESTING)), MAX_NESTING);
    assert_eq!(depth_of(&dotted), 1 + MAX_NESTING);
}

#[test]
fn text_above_the_limit_is_refused() {
    for text in [
        nested_arrays(MAX_NESTING + 1),
        nested_tables(MAX_NESTING + 1),
        dotted_key(MAX_NESTING + 1),
    ] {
        assert_eq!(
            parse_document(&text),
            Err(ConfigParseError::Nesting { depth: MAX_NESTING + 1 })
        );
        assert_eq!(
            parse_config(&text),
            Err(ConfigParseError::Nesting { depth: MAX_NESTING + 1 })
        );
    }
    let error = ConfigParseError::Nesting { depth: 129 };
    assert_eq!(error.message(), "the text nests 129 levels deep, more than 128");
}

#[test]
fn very_deep_text_is_refused_without_being_parsed() {
    let text = "[".repeat(200_000);
    assert_eq!(parse_document(&text), Err(ConfigParseError::Nesting { depth: 200_000 }));
    let text = format!("a = {}", "{ a = ".repeat(100_000));
    assert_eq!(parse_config(&text), Err(ConfigParseError::Nesting { depth: 100_000 }));
    let text = format!("a{} = 1", ".a".repeat(100_000));
    assert_eq!(parse_config(&text), Err(ConfigParseError::Nesting { depth: 100_000 }));
    let text = format!("a = \"\"\"\n\"\"\"\nb = {}", "[".repeat(50_000));
    assert_eq!(parse_config(&text), Err(ConfigParseError::Nesting { depth: 50_000 }));
}

#[test]
fn header_and_statement_at_the_limit_are_parsed_together() {
    let header = format!("[t{}]\n", ".t".repeat(MAX_NESTING - 1));
    let statement =
        format!("k{} = {}1{}\n", ".k".repeat(MAX_NESTING / 2), "[".repeat(MAX_NESTING / 2), "]".repeat(MAX_NESTING / 2));
    let text = format!("{}{}", header, statement);
    assert_eq!(nesting_of(&text), MAX_NESTING);
    let document = parse_document(&text).expect("header and statement at the limit");
    assert_eq!(depth_of(&document), 1 + MAX_NESTING + MAX_NESTING);
    assert_eq!(parse_document(&text), Ok(document));
}

#[test]
fn arrays_of_tables_at_the_limit_are_parsed() {
    let mut text = String::new();
    for segments in 1..=(MAX_NESTING - 2) {
        text.push_str(&format!("[[t{}]]\n", ".t".repeat(segments - 1)));
    }
    text.push_str(&nested_arrays(MAX_NESTING));
    assert_eq!(nesting_of(&text), MAX_NESTING);
    let document = parse_document(&text).expect("arrays of tables at the limit");
    assert_eq!(depth_of(&document), 1 + 2 * (MAX_NESTING - 2) + MAX_NESTING);
    assert!(depth_of(&document) <= 4 * MAX_NESTING + 1);
}
