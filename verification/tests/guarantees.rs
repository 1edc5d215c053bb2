use bracket::error::{ErrorKind, Note, RenderError, SourcePos, SyntaxError};
use bracket::helper::ValueHelper;
use bracket::json::{entries_well_formed, items_well_formed, Json};
use bracket::parser::{Parser, ParserOptions};
use bracket::registry::Registry;
use bracket::render::Render;
use bracket::table::Table;
use bracket::template::Template;
use bracket::text::Span;

fn failure(source: &str) -> SyntaxError {
    match Template::compile(source, ParserOptions::default()) {
        Err(e) => e,
        Ok(t) => panic!("syntax error expected, got {:?}", t),
    }
}

fn values() -> Json {
    Json::Object(vec![
        ("x".to_string(), Json::String("1".to_string())),
        (
            "list".to_string(),
            Json::Array(vec![
                Json::String("p".to_string()),
                Json::String("q".to_string()),
            ]),
        ),
    ])
}

#[test]
fn output_before_an_error_stays() {
    let mut registry: Registry = Registry::new();
    registry
        .register_template_string("t", "a{{x}}b{{../y}}c", ParserOptions::default())
        .unwrap();
    let mut out = b"> ".to_vec();
    assert_eq!(
        Err(RenderError::ScopeDepth(7)),
        registry.render_to_write("t", &values(), &mut out)
    );
    assert_eq!(b"> a1b".to_vec(), out);
}

#[test]
fn output_before_an_error_in_a_block_stays() {
    let mut registry: Registry = Registry::new();
    let source = "[{{#each list}}{{this}}{{@nope}}{{/each}}]";
    registry
        .register_template_string("t", source, ParserOptions::default())
        .unwrap();
    let mut out = Vec::new();
    let result = registry.render_to_write("t", &values(), &mut out);
    assert_eq!(true, matches!(result, Err(RenderError::LocalNotFound(_))));
    assert_eq!(b"[p".to_vec(), out);
}

#[test]
fn output_before_an_error_in_a_partial_stays() {
    let mut registry: Registry = Registry::new();
    registry
        .register_template_string("inner", "<{{x}}{{../../x}}>", ParserOptions::default())
        .unwrap();
    registry
        .register_template_string("outer", "a{{> inner}}b", ParserOptions::default())
        .unwrap();
    let mut out = Vec::new();
    let result = registry.render_to_write("outer", &values(), &mut out);
    assert_eq!(true, matches!(result, Err(RenderError::ScopeDepth(_))));
    assert_eq!(b"a<1".to_vec(), out);
}

#[test]
fn output_of_a_session_before_an_error_stays() {
    let registry: Registry = Registry::new();
    let template = Template::compile("{{x}}-{{../x}}-{{x}}", ParserOptions::default()).unwrap();
    let data = values();
    let mut render = Render::new(template.source(), &registry, &data);
    assert_eq!(Err(RenderError::ScopeDepth(6)), render.render_node(template.node()));
    assert_eq!(b"1-".to_vec(), render.into_output());
    let mut out = b"=".to_vec();
    assert_eq!(
        Err(RenderError::ScopeDepth(6)),
        template.render(&registry, &data, &mut out)
    );
    assert_eq!(b"=1-".to_vec(), out);
    let mut out = b"=".to_vec();
    assert_eq!(
        Err(RenderError::ScopeDepth(6)),
        registry.render_template(&template, &data, &mut out)
    );
    assert_eq!(b"=1-".to_vec(), out);
}

#[test]
fn unknown_template_writes_nothing() {
    let mut registry: Registry = Registry::new();
    registry
        .register_template_string("t", "text", ParserOptions::default())
        .unwrap();
    let mut out = b"kept".to_vec();
    assert_eq!(
        Err(RenderError::TemplateNotFound("u".to_string())),
        registry.render_to_write("u", &values(), &mut out)
    );
    assert_eq!(b"kept".to_vec(), out);
}

#[test]
fn open_block_names_its_closing_tag() {
    let source = "a\n{{#foo}}\nbar";
    let e = failure(source);
    assert_eq!(ErrorKind::BlockNotTerminated, e.kind());
    assert_eq!(SourcePos(1, 2), e.info().pos);
    assert_eq!(Some(Note::MissingClose(Span::new(5, 8))), e.info().note);
    let message = String::from_utf8(e.message(source.as_bytes())).unwrap();
    assert_eq!(
        "Syntax error, block was not terminated\n --> unknown:2:2\n{{#foo}}\n^\n = note: expected closing tag {{/foo}}\n",
        message
    );
}

#[test]
fn open_inner_block_names_its_closing_tag() {
    let source = "{{#a}}{{#each b}}x{{/a}}";
    let e = failure(source);
    assert_eq!(ErrorKind::TagNameMismatch, e.kind());
    let source = "{{#a}}{{#each b}}x";
    let e = failure(source);
    assert_eq!(ErrorKind::BlockNotTerminated, e.kind());
    assert_eq!(Some(Note::MissingClose(Span::new(9, 13))), e.info().note);
    let message = String::from_utf8(e.message(source.as_bytes())).unwrap();
    assert_eq!(true, message.ends_with(" = note: expected closing tag {{/each}}\n"));
}

#[test]
fn open_raw_block_names_its_closing_tag() {
    let source = " {{{{raw}}}}foo";
    let e = failure(source);
    assert_eq!(ErrorKind::RawBlockNotTerminated, e.kind());
    assert_eq!(Some(Note::MissingRawClose(Span::new(5, 8))), e.info().note);
    let message = String::from_utf8(e.message(source.as_bytes())).unwrap();
    assert_eq!(true, message.ends_with(" = note: expected closing tag {{{{/raw}}}}\n"));
}

#[test]
fn path_of_parents_alone_is_empty() {
    let e = failure("{{../}}");
    assert_eq!(ErrorKind::EmptyPath, e.kind());
    assert_eq!(SourcePos(0, 2), e.info().pos);
    assert_eq!("Syntax error, path is empty", e.description());
    let e = failure("x\n {{../../}}");
    assert_eq!(ErrorKind::EmptyPath, e.kind());
    assert_eq!(SourcePos(1, 5), e.info().pos);
    assert_eq!(true, Template::compile("{{../a}}", ParserOptions::default()).is_ok());
}

#[test]
fn removed_helper_is_gone() {
    let mut registry: Registry = Registry::new();
    registry.helpers.insert("h", ValueHelper::Not);
    registry.helpers.insert("h", ValueHelper::Or);
    assert_eq!(true, matches!(registry.helpers.remove("h"), Some(ValueHelper::Or)));
    assert_eq!(true, registry.helpers.get("h").is_none());
    assert_eq!(true, registry.get_helper("h").is_none());
    assert_eq!(true, registry.get_helper("json").is_some());
}

#[test]
fn removed_template_is_gone() {
    let mut registry: Registry = Registry::new();
    registry
        .register_template_string("a", "first", ParserOptions::default())
        .unwrap();
    registry
        .register_template_string("b", "second", ParserOptions::default())
        .unwrap();
    assert_eq!(true, registry.unregister_template("a").is_some());
    assert_eq!(true, registry.get_template("a").is_err());
    assert_eq!(
        Err(RenderError::TemplateNotFound("a".to_string())),
        registry.render("a", &Json::Null)
    );
    assert_eq!("second", registry.render("b", &Json::Null).unwrap());
}

#[test]
fn removed_name_is_gone_from_a_table_with_the_name_twice() {
    let mut table: Table<u8> = Table {
        entries: vec![
            ("a".to_string(), 1),
            ("b".to_string(), 2),
            ("a".to_string(), 3),
        ],
    };
    assert_eq!(Some(1), table.remove(b"a"));
    assert_eq!(false, table.contains(b"a"));
    assert_eq!(None, table.get(b"a"));
    assert_eq!(Some(&2), table.get(b"b"));
    assert_eq!(1, table.len());
    assert_eq!(None, table.remove(b"c"));
    assert_eq!(1, table.len());
}

#[test]
fn well_formed_documents() {
    let good = Json::Object(vec![
        ("a".to_string(), Json::Number("1.5e3".to_string())),
        (
            "b".to_string(),
            Json::Array(vec![Json::Null, Json::Number("-0".to_string())]),
        ),
        ("".to_string(), Json::Object(vec![])),
    ]);
    assert_eq!(true, good.is_well_formed());
    let twice = Json::Object(vec![
        ("a".to_string(), Json::Null),
        ("b".to_string(), Json::Null),
        ("a".to_string(), Json::Bool(true)),
    ]);
    assert_eq!(false, twice.is_well_formed());
    assert_eq!(false, Json::Array(vec![Json::Null, twice]).is_well_formed());
    assert_eq!(false, Json::Number("one".to_string()).is_well_formed());
    assert_eq!(false, Json::Number("".to_string()).is_well_formed());
    assert_eq!(false, Json::Number("01".to_string()).is_well_formed());
    assert_eq!(true, Json::Number("10".to_string()).is_well_formed());
    assert_eq!(true, Json::String("one".to_string()).is_well_formed());
    assert_eq!(
        false,
        items_well_formed(&vec![Json::Bool(true), Json::Number("x".to_string())])
    );
    assert_eq!(true, items_well_formed(&vec![]));
    assert_eq!(
        false,
        entries_well_formed(&vec![
            ("k".to_string(), Json::Null),
            ("k".to_string(), Json::Null)
        ])
    );
}

#[test]
fn last_entry_of_a_key_is_the_one_that_is_read() {
    let twice = Json::Object(vec![
        ("a".to_string(), Json::String("first".to_string())),
        ("a".to_string(), Json::String("last".to_string())),
    ]);
    assert_eq!(Some(&Json::String("last".to_string())), twice.get(b"a"));
    assert_eq!("{\"a\":\"last\"}", twice.to_json());
    let registry: Registry = Registry::new();
    assert_eq!("last", registry.once("t", "{{a}}", &twice).unwrap());
}

#[test]
fn named_parameters_have_names_of_their_own() {
    assert_eq!(
        true,
        matches!(failure("{{a b=1 c=2 b=3}}"), SyntaxError::DuplicateHashKey(_))
    );
    assert_eq!(
        true,
        matches!(failure("{{a (f k=1 k=2)}}"), SyntaxError::DuplicateHashKey(_))
    );
    assert_eq!(true, Template::compile("{{a b=1 c=(f b=2)}}", ParserOptions::default()).is_ok());
}

#[test]
fn parser_names_the_closing_tag_of_an_open_block() {
    let source = b"{{#foo}}x";
    let mut parser = Parser::new(source, ParserOptions::default());
    let e = match parser.parse() {
        Err(e) => e,
        Ok(_) => panic!("syntax error expected"),
    };
    assert_eq!(true, matches!(e, SyntaxError::BlockNotTerminated(_)));
    assert_eq!(SourcePos(0, 0), e.info().pos);
    assert_eq!(Some(Note::MissingClose(Span::new(3, 6))), e.info().note);
    assert_eq!(
        "Syntax error, block was not terminated\n --> unknown:1:0\n{{#foo}}x\n^\n = note: expected closing tag {{/foo}}\n",
        String::from_utf8(e.message(source)).unwrap()
    );
}
