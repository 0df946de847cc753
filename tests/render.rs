use fileforge::template::{render, Binding, BlockFlag, RemovableBlock, RenderError, Template};

fn binding(key: &str, value: &str) -> Binding {
    Binding { key: key.to_string(), value: value.to_string() }
}

fn flag(name: &str, enabled: bool) -> BlockFlag {
    BlockFlag { name: name.to_string(), enabled }
}

fn plain(text: &str) -> Template {
    Template { text: text.to_string(), block: None }
}

fn with_block(text: &str) -> Template {
    Template {
        text: text.to_string(),
        block: Some(RemovableBlock { flag: "extra".to_string(), marker: "  extra:".to_string() }),
    }
}

const BLOCK_TEXT: &str = "top:\n  a: {{ a }}\n  extra:\n    x: 1\n    y: 2\n  b: 3\n";

#[test]
fn substitutes_every_placeholder() {
    let out = render(&plain("a {{ x }} b {{y}} c"), &vec![binding("x", "1"), binding("y", "2")], &Vec::new());
    assert_eq!(out, Ok("a 1 b 2 c".to_string()));
}

#[test]
fn whitespace_around_a_name_is_ignored() {
    let out = render(&plain("[{{\tx \n}}]"), &vec![binding("x", "v")], &Vec::new());
    assert_eq!(out, Ok("[v]".to_string()));
}

#[test]
fn text_without_placeholders_is_unchanged() {
    let out = render(&plain("no { placeholders } here"), &Vec::new(), &Vec::new());
    assert_eq!(out, Ok("no { placeholders } here".to_string()));
}

#[test]
fn empty_template_renders_empty() {
    assert_eq!(render(&plain(""), &Vec::new(), &Vec::new()), Ok(String::new()));
}

#[test]
fn first_binding_of_a_key_wins() {
    let out = render(&plain("{{ k }}"), &vec![binding("k", "first"), binding("k", "second")], &Vec::new());
    assert_eq!(out, Ok("first".to_string()));
}

#[test]
fn unbound_placeholder_is_an_error() {
    let out = render(&plain("a {{ missing }}"), &vec![binding("other", "x")], &Vec::new());
    assert_eq!(out, Err(RenderError::UnboundPlaceholder("missing".to_string())));
}

#[test]
fn unclosed_placeholder_is_an_error() {
    let out = render(&plain("a {{ x"), &vec![binding("x", "1")], &Vec::new());
    assert_eq!(out, Err(RenderError::UnclosedPlaceholder));
}

#[test]
fn rendering_twice_gives_identical_text() {
    let t = with_block(BLOCK_TEXT);
    let bs = vec![binding("a", "1")];
    let fs = vec![flag("extra", false)];
    let first = render(&t, &bs, &fs);
    let second = render(&t, &bs, &fs);
    assert!(first.is_ok());
    assert_eq!(first, second);
}

#[test]
fn block_removed_when_flag_is_false() {
    let out = render(&with_block(BLOCK_TEXT), &vec![binding("a", "1")], &vec![flag("extra", false)]);
    assert_eq!(out, Ok("top:\n  a: 1\n  b: 3\n".to_string()));
}

#[test]
fn block_kept_when_flag_is_true() {
    let out = render(&with_block(BLOCK_TEXT), &vec![binding("a", "1")], &vec![flag("extra", true)]);
    assert_eq!(out, Ok("top:\n  a: 1\n  extra:\n    x: 1\n    y: 2\n  b: 3\n".to_string()));
}

#[test]
fn block_kept_when_flag_is_absent() {
    let out = render(&with_block(BLOCK_TEXT), &vec![binding("a", "1")], &Vec::new());
    assert_eq!(out, Ok("top:\n  a: 1\n  extra:\n    x: 1\n    y: 2\n  b: 3\n".to_string()));
}

#[test]
fn block_at_the_end_is_removed_whole() {
    let t = with_block("top:\n  extra:\n    x: 1");
    let out = render(&t, &Vec::new(), &vec![flag("extra", false)]);
    assert_eq!(out, Ok("top:\n".to_string()));
}

#[test]
fn placeholders_inside_a_removed_block_need_no_binding() {
    let t = with_block("top:\n  extra:\n    x: {{ unbound }}\n  b: 3\n");
    let out = render(&t, &Vec::new(), &vec![flag("extra", false)]);
    assert_eq!(out, Ok("top:\n  b: 3\n".to_string()));
}
