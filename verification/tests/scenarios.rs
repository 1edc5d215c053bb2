use bracket::error::{ErrorKind, RenderError, SourcePos};
use bracket::json::Json;
use bracket::parser::ParserOptions;
use bracket::registry::{Error, Registry};

fn object(entries: Vec<(&str, Json)>) -> Json {
    Json::Object(entries.into_iter().map(|(k, v)| (k.to_string(), v)).collect())
}

fn string(s: &str) -> Json {
    Json::String(s.to_string())
}

fn render(source: &str, data: &Json) -> Result<String, Error> {
    let registry: Registry = Registry::new();
    registry.once("scenario", source, data)
}

fn syntax_error(source: &str) -> (ErrorKind, SourcePos) {
    match render(source, &Json::Null) {
        Err(Error::Syntax(e)) => (e.kind(), e.info().pos),
        other => panic!("syntax error expected, got {:?}", other),
    }
}

#[test]
fn simple_variable() {
    let data = object(vec![("name", string("World"))]);
    assert_eq!("Hello World", render("Hello {{name}}", &data).unwrap());
}

#[test]
fn html_escape_double_braces() {
    let data = object(vec![("x", string("<b>"))]);
    assert_eq!("&lt;b&gt;", render("{{x}}", &data).unwrap());
}

#[test]
fn html_escape_triple_braces() {
    let data = object(vec![("x", string("<b>"))]);
    assert_eq!("<b>", render("{{{x}}}", &data).unwrap());
}

#[test]
fn each_with_locals() {
    let data = object(vec![("items", Json::Array(vec![string("a"), string("b")]))]);
    assert_eq!(
        "0:a 1:b ",
        render("{{#each items}}{{@index}}:{{this}} {{/each}}", &data).unwrap()
    );
}

#[test]
fn with_sets_the_scope() {
    let data = object(vec![("u", object(vec![("name", string("Ada"))]))]);
    assert_eq!("Ada", render("{{#with u}}{{name}}{{/with}}", &data).unwrap());
}

#[test]
fn whitespace_trim() {
    let data = object(vec![("name", string("X"))]);
    assert_eq!("X", render("  {{~name~}}  ", &data).unwrap());
}

#[test]
fn raw_block_is_verbatim() {
    let data = object(vec![("x", string("y"))]);
    assert_eq!("{{x}}", render("{{{{raw}}}}{{x}}{{{{/raw}}}}", &data).unwrap());
    assert_eq!("{{x}}", render("{{{{raw}}}}{{x}}{{{{/raw}}}}", &Json::Null).unwrap());
}

#[test]
fn no_tags_is_verbatim() {
    let source = "Just some text,\nwith two lines and a } brace.";
    assert_eq!(source, render(source, &Json::Null).unwrap());
}

#[test]
fn empty_statement_at_offset_two() {
    assert_eq!((ErrorKind::EmptyStatement, SourcePos(0, 2)), syntax_error("{{}}"));
}

#[test]
fn newline_in_string_literal() {
    assert_eq!(
        (ErrorKind::StringLiteralNewline, SourcePos(0, 10)),
        syntax_error("{{foo \"bar\nbaz\"}}")
    );
}

#[test]
fn tag_name_mismatch() {
    let (kind, _) = syntax_error("{{#foo}}...{{/bar}}");
    assert_eq!(ErrorKind::TagNameMismatch, kind);
}

#[test]
fn unterminated_statement() {
    let (kind, _) = syntax_error("{{foo");
    assert_eq!(ErrorKind::OpenStatement, kind);
}

#[test]
fn too_many_parents() {
    let data = object(vec![("a", string("b"))]);
    match render("{{../a}}", &data) {
        Err(Error::Render(RenderError::ScopeDepth(_))) => {}
        other => panic!("scope depth error expected, got {:?}", other),
    }
    assert_eq!("b", render("{{#with a}}{{../a}}{{/with}}", &data).unwrap());
}

#[test]
fn registered_template_renders() {
    let mut registry: Registry = Registry::new();
    registry
        .register_template_string("hello", "Hello {{name}}!", ParserOptions::default())
        .unwrap();
    let data = object(vec![("name", string("World"))]);
    assert_eq!("Hello World!", registry.render("hello", &data).unwrap());
    match registry.render("missing", &data) {
        Err(RenderError::TemplateNotFound(name)) => assert_eq!("missing", name),
        other => panic!("template not found expected, got {:?}", other),
    }
}
