use bracket::error::HelperError;
use bracket::helper::log::{Level, LogHelper};
use bracket::json::{json_eq, parse_index, Json};
use bracket::lexer::{lex, Inner, Outer, Parameters, Raw, Token};
use bracket::parser::ast::{BlockType, Call, CallTarget, Component, ComponentType, ParameterValue, Path};
use bracket::parser::{ParseState, ParserOptions};
use bracket::registry::Registry;
use bracket::render::context::Kind;
use bracket::render::{Context, EvalResult, Render, Scope};
use bracket::table::Table;
use bracket::template::Template;
use bracket::text::{bytes_eq, to_decimal, trim, Span};

fn kinds(source: &str) -> Vec<Token> {
    lex(source.as_bytes())
}

#[test]
fn lexer_outer_tokens() {
    assert_eq!(
        vec![
            Token::Block(Outer::Text, Span::new(0, 2)),
            Token::Block(Outer::Newline, Span::new(2, 3)),
            Token::Block(Outer::Text, Span::new(3, 5)),
        ],
        kinds("ab\ncd")
    );
    assert_eq!(
        vec![
            Token::Block(Outer::StartStatement, Span::new(0, 3)),
            Token::Parameters(Parameters::Identifier, Span::new(3, 6)),
            Token::Parameters(Parameters::End, Span::new(6, 9)),
        ],
        kinds("{{~foo~}}")
    );
    assert_eq!(
        vec![
            Token::Block(Outer::StartStatement, Span::new(0, 3)),
            Token::Parameters(Parameters::WhiteSpace, Span::new(3, 4)),
            Token::Parameters(Parameters::Identifier, Span::new(4, 7)),
            Token::Parameters(Parameters::End, Span::new(7, 9)),
        ],
        kinds("{{> foo}}")
    );
    assert_eq!(
        vec![
            Token::Block(Outer::StartStatement, Span::new(0, 3)),
            Token::Parameters(Parameters::Identifier, Span::new(3, 4)),
            Token::Parameters(Parameters::End, Span::new(4, 7)),
            Token::Block(Outer::Text, Span::new(7, 8)),
        ],
        kinds("{{{x}}}}")
    );
    assert_eq!(
        vec![
            Token::Block(Outer::StartBlockScope, Span::new(0, 4)),
            Token::Parameters(Parameters::Identifier, Span::new(4, 5)),
            Token::Parameters(Parameters::End, Span::new(5, 7)),
            Token::Block(Outer::EndBlockScope, Span::new(7, 16)),
        ],
        kinds("{{#>a}}{{~/ a~}}")
    );
    assert_eq!(
        vec![Token::Block(Outer::Error, Span::new(0, 6))],
        kinds("{{/foo")
    );
}

#[test]
fn lexer_bodies() {
    assert_eq!(
        vec![
            Token::Block(Outer::StartRawBlock, Span::new(0, 4)),
            Token::Parameters(Parameters::Identifier, Span::new(4, 5)),
            Token::Parameters(Parameters::End, Span::new(5, 9)),
            Token::RawBlock(Raw::Text, Span::new(9, 14)),
            Token::RawBlock(Raw::Newline, Span::new(14, 15)),
            Token::RawBlock(Raw::End, Span::new(15, 25)),
        ],
        kinds("{{{{r}}}}{{x}}\n{{{{/r}}}}")
    );
    assert_eq!(
        vec![
            Token::Block(Outer::StartRawComment, Span::new(0, 5)),
            Token::RawComment(Raw::Text, Span::new(5, 8)),
            Token::RawComment(Raw::End, Span::new(8, 12)),
            Token::Block(Outer::StartComment, Span::new(12, 15)),
            Token::Comment(Raw::Text, Span::new(15, 16)),
            Token::Comment(Raw::End, Span::new(16, 18)),
            Token::Block(Outer::StartRawStatement, Span::new(18, 21)),
            Token::RawStatement(Raw::Text, Span::new(21, 22)),
            Token::RawStatement(Raw::End, Span::new(22, 24)),
        ],
        kinds("{{!-- a --}}{{!b}}\\{{c}}")
    );
    assert_eq!(
        vec![
            Token::Block(Outer::StartRawBlock, Span::new(0, 4)),
            Token::Parameters(Parameters::Identifier, Span::new(4, 5)),
            Token::Parameters(Parameters::End, Span::new(5, 9)),
            Token::RawBlock(Raw::Text, Span::new(9, 10)),
            Token::RawBlock(Raw::Text, Span::new(10, 17)),
        ],
        kinds("{{{{r}}}}{{{{/r}}")
    );
}

#[test]
fn lexer_parameters() {
    let tokens = kinds("{{a.b ../c ./d this @e [f] (g) h=1 -2.5e+3 true false null \"i\\\"\\n\\t\" 'j' %}}");
    let found: Vec<Parameters> = tokens
        .iter()
        .filter_map(|t| match t {
            Token::Parameters(k, _) if *k != Parameters::WhiteSpace => Some(*k),
            _ => None,
        })
        .collect();
    assert_eq!(
        vec![
            Parameters::Identifier,
            Parameters::PathDelimiter,
            Parameters::Identifier,
            Parameters::ParentRef,
            Parameters::Identifier,
            Parameters::ExplicitThisDotSlash,
            Parameters::Identifier,
            Parameters::ExplicitThisKeyword,
            Parameters::LocalIdentifier,
            Parameters::ArrayAccess,
            Parameters::StartSubExpression,
            Parameters::Identifier,
            Parameters::EndSubExpression,
            Parameters::HashKey,
            Parameters::Number,
            Parameters::Number,
            Parameters::True,
            Parameters::False,
            Parameters::Null,
            Parameters::DoubleQuoteString,
            Parameters::SingleQuoteString,
            Parameters::Error,
            Parameters::End,
        ],
        found
    );
    let inner: Vec<Inner> = tokens
        .iter()
        .filter_map(|t| match t {
            Token::StringLiteral(k, _) => Some(*k),
            _ => None,
        })
        .collect();
    assert_eq!(
        vec![
            Inner::Text,
            Inner::EscapedQuote,
            Inner::EscapedNewline,
            Inner::Escaped,
            Inner::End,
            Inner::Text,
            Inner::End,
        ],
        inner
    );
    let number = tokens
        .iter()
        .find(|t| matches!(t, Token::Parameters(Parameters::Number, s) if s.len() > 1))
        .unwrap();
    assert_eq!(Span::new(35, 42), number.span());
}

#[test]
fn lexer_tokens_cover_the_source() {
    for source in [
        "",
        "{{",
        "a{{b\n\"c",
        "{{{{x}}}}\n{{{{/",
        "{{#a}}{{!--",
        "\\{{ } } }}{{/a~}}",
        "{{a [b\n] 'c\\q' 1. -x @ @1}}",
    ] {
        let tokens = lex(source.as_bytes());
        let mut at = 0;
        for token in &tokens {
            assert_eq!(at, token.span().start);
            assert_eq!(true, token.span().end > at);
            at = token.span().end;
        }
        assert_eq!(source.len(), at);
        assert_eq!(
            tokens.iter().filter(|t| t.is_newline()).count(),
            source.matches('\n').count()
        );
    }
    assert_eq!(true, Token::Block(Outer::Text, Span::new(0, 1)).is_text());
    assert_eq!(true, Token::Comment(Raw::Newline, Span::new(0, 1)).is_text());
    assert_eq!(false, Token::Comment(Raw::End, Span::new(0, 1)).is_text());
    assert_eq!(false, Token::Parameters(Parameters::Newline, Span::new(0, 1)).is_text());
}

#[test]
fn text_helpers() {
    assert_eq!(b"a b", trim(b" \t\na b\r\n ", true, true));
    assert_eq!(b"a b\r\n ", trim(b" \t\na b\r\n ", true, false));
    assert_eq!(b" \t\na b", trim(b" \t\na b\r\n ", false, true));
    assert_eq!(b" a ", trim(b" a ", false, false));
    assert_eq!(b"", trim(b" \n ", true, true));
    assert_eq!(b"", trim(b" \n ", false, true));
    assert_eq!(true, bytes_eq(b"abc", b"abc"));
    assert_eq!(false, bytes_eq(b"abc", b"abd"));
    assert_eq!(false, bytes_eq(b"abc", b"ab"));
    assert_eq!("0", to_decimal(0));
    assert_eq!("7", to_decimal(7));
    assert_eq!("10", to_decimal(10));
    assert_eq!("1234567890", to_decimal(1234567890));
    assert_eq!(Some(0), parse_index(b"0"));
    assert_eq!(Some(42), parse_index(b"042"));
    assert_eq!(Some(999999999), parse_index(b"999999999"));
    assert_eq!(None, parse_index(b"1000000000"));
    assert_eq!(None, parse_index(b""));
    assert_eq!(None, parse_index(b"1a"));
    let span = Span::new(2, 5);
    assert_eq!(3, span.len());
    assert_eq!(false, span.is_empty());
    assert_eq!(true, Span::new(4, 4).is_empty());
    assert_eq!(b"cde", span.slice(b"abcdefg"));
    assert_eq!(b"", span.slice(b"abc"));
}

#[test]
fn documents() {
    let list = Json::Array(vec![Json::Null, Json::Bool(true)]);
    let map = Json::Object(vec![
        ("a".to_string(), Json::Number("1".to_string())),
        ("b".to_string(), list.copy()),
        ("a".to_string(), Json::Number("2".to_string())),
    ]);
    assert_eq!(map, map.copy());
    assert_eq!(true, json_eq(&map, &map.copy()));
    assert_eq!(false, json_eq(&map, &list));
    assert_eq!(false, json_eq(&Json::Number("1".to_string()), &Json::String("1".to_string())));
    assert_eq!(false, json_eq(&list, &Json::Array(vec![Json::Null, Json::Bool(false)])));
    assert_eq!(false, json_eq(&list, &Json::Array(vec![Json::Null])));
    assert_eq!(Some(&Json::Number("2".to_string())), map.get(b"a"));
    assert_eq!(Some(&list), map.field(b"b"));
    assert_eq!(None, map.get(b"c"));
    assert_eq!(None, list.get(b"0"));
    assert_eq!(Some(&Json::Bool(true)), list.at(1));
    assert_eq!(Some(&Json::Bool(true)), list.field(b"1"));
    assert_eq!(None, list.at(2));
    assert_eq!(None, list.field(b"x"));
    assert_eq!(None, map.at(0));
    assert_eq!("[null,true]", list.to_json());
    assert_eq!("{\"a\":2,\"b\":[null,true]}", map.to_json());
    assert_eq!("\"é\\u0001\"", Json::String("é\u{1}".to_string()).to_json());
    let mut out = b"x".to_vec();
    Json::Null.write_text(&mut out);
    Json::Bool(false).write_text(&mut out);
    Json::Number("1.5".to_string()).write_text(&mut out);
    Json::String("<s>".to_string()).write_text(&mut out);
    list.write_text(&mut out);
    assert_eq!(b"xfalse1.5<s>[null,true]".to_vec(), out);
}

#[test]
fn tables() {
    let mut table: Table<u8> = Table::new();
    assert_eq!(None, table.insert("a".to_string(), 1));
    assert_eq!(None, table.insert("b".to_string(), 2));
    assert_eq!(Some(1), table.insert("a".to_string(), 3));
    assert_eq!(2, table.len());
    assert_eq!(Some(&3), table.get(b"a"));
    assert_eq!(Some(&2), table.get(b"b"));
    assert_eq!(None, table.get(b"c"));
    assert_eq!(true, table.contains(b"b"));
    assert_eq!(Some(0), table.position(b"b").map(|i| i - i));
    assert_eq!(Some(3), table.remove(b"a"));
    assert_eq!(None, table.remove(b"a"));
    assert_eq!(Some(&2), table.get(b"b"));
    assert_eq!(1, table.len());
}

#[test]
fn scopes_and_contexts() {
    let mut scope = Scope::new();
    assert_eq!(&None, scope.base_value());
    scope.set_base_value(Json::Bool(true));
    scope.set_local("index", Json::Number("0".to_string()));
    scope.set_local("index", Json::Number("1".to_string()));
    assert_eq!(&Some(Json::Bool(true)), scope.base_value());
    assert_eq!(Some(&Json::Number("1".to_string())), scope.get_local(b"@index"));
    assert_eq!(None, scope.get_local(b"index"));
    assert_eq!(scope, scope.copy());

    let context = Context::new(
        "helper".to_string(),
        vec![Json::Null, Json::Bool(true)],
        vec![("level".to_string(), Json::String("warn".to_string()))],
    );
    assert_eq!("helper", context.name());
    assert_eq!(2, context.arguments().len());
    assert_eq!(1, context.hash().len());
    assert_eq!(Ok(()), context.arity(2..2));
    assert_eq!(Ok(()), context.arity(0..2));
    assert_eq!(Ok(()), context.arity(2..9));
    assert_eq!(
        Err(HelperError::ArityExact("helper".to_string(), 1)),
        context.arity(1..1)
    );
    assert_eq!(
        Err(HelperError::ArityRange("helper".to_string(), 3, 4)),
        context.arity(3..4)
    );
    assert_eq!(
        Err(HelperError::ArityRange("helper".to_string(), 0, 1)),
        context.arity(0..1)
    );
    assert_eq!(Level::Warn, LogHelper::level(&context));
    assert_eq!(b"null true".to_vec(), LogHelper::message(&context));
    for (name, level) in [
        ("error", Level::Error),
        ("debug", Level::Debug),
        ("trace", Level::Trace),
        ("info", Level::Info),
        ("loud", Level::Info),
    ] {
        let context = Context::new(
            "log".to_string(),
            vec![Json::String("a \"b\"".to_string())],
            vec![("level".to_string(), Json::String(name.to_string()))],
        );
        assert_eq!(level, LogHelper::level(&context));
        assert_eq!(b"\"a \\\"b\\\"\"".to_vec(), LogHelper::message(&context));
    }
    let context = Context::new("log".to_string(), vec![], vec![("level".to_string(), Json::Null)]);
    assert_eq!(Level::Info, LogHelper::level(&context));
    assert_eq!(Vec::<u8>::new(), LogHelper::message(&context));
}

#[test]
fn syntax_tree_by_hand() {
    assert_eq!(BlockType::Root, BlockType::default());
    let mut path = Path::new();
    assert_eq!(true, path.is_empty());
    assert_eq!(false, path.is_simple());
    path.add_component(Component(ComponentType::Identifier, Span::new(2, 5), Span::new(0, 1)));
    assert_eq!(true, path.is_simple());
    assert_eq!(false, path.is_empty());
    path.set_parents(1);
    assert_eq!(false, path.is_simple());
    path.set_parents(0);
    path.set_explicit(true);
    assert_eq!(false, path.is_simple());
    path.set_explicit(false);
    path.set_root(true);
    assert_eq!(false, path.is_simple());
    path.set_root(false);
    assert_eq!(true, path.is_simple());
    path.add_component(Component(ComponentType::Identifier, Span::new(6, 9), Span::new(0, 1)));
    assert_eq!(false, path.is_simple());
    assert_eq!(ComponentType::Identifier, path.components()[1].kind());
    assert_eq!(Span::new(6, 9), path.components()[1].span());

    let source = b"{{foo.bar 1}}";
    let mut call = Call::new(false, Span::new(0, 2), Span::new(11, 13));
    assert_eq!(source.as_slice(), call.as_str(source));
    assert_eq!(b"{{", call.open(source));
    assert_eq!(b"}}", call.close(source));
    assert_eq!(false, call.is_partial());
    assert_eq!(true, call.is_escaped());
    assert_eq!(true, call.path().unwrap().is_empty());
    *call.path_mut().unwrap() = path;
    assert_eq!(2, call.path().unwrap().components().len());
    assert_eq!(true, matches!(call.target(), CallTarget::Path(_)));
    call.add_argument(ParameterValue::Json(Json::Number("1".to_string())));
    assert_eq!(1, call.arguments().len());
    assert_eq!(0, call.hash().len());

    let template = Template::compile("{{foo.bar 1}}", ParserOptions::default()).unwrap();
    let parsed = match &template.node().nodes().unwrap()[0] {
        bracket::parser::ast::Node::Statement(parsed) => parsed,
        other => panic!("statement expected, got {:?}", other),
    };
    assert_eq!(call.arguments(), parsed.arguments());
    assert_eq!(
        call.path().unwrap().components(),
        parsed.path().unwrap().components()
    );
}

#[test]
fn parser_state() {
    let mut state = ParseState::new();
    assert_eq!("unknown", state.file_name());
    assert_eq!(&0, state.line());
    assert_eq!(&0, state.byte());
    *state.line_mut() += 3;
    *state.byte_mut() = 9;
    assert_eq!(&3, state.line());
    assert_eq!(&9, state.byte());
    let options = ParserOptions::new("file".to_string(), 4, 2);
    let state = ParseState::from(&options);
    assert_eq!("file", state.file_name());
    assert_eq!(&4, state.line());
    assert_eq!(&2, state.byte());
    let options = ParserOptions::default();
    assert_eq!("unknown", options.file_name);
    assert_eq!(0, options.line_offset);
    assert_eq!(0, options.byte_offset);
}

#[test]
fn render_sessions() {
    let registry: Registry = Registry::new();
    let template =
        Template::compile("{{#with a}}<{{b}}>{{/with}}{{c}}", ParserOptions::default()).unwrap();
    let data = Json::Object(vec![
        (
            "a".to_string(),
            Json::Object(vec![("b".to_string(), Json::String("&".to_string()))]),
        ),
        ("c".to_string(), Json::Number("3".to_string())),
    ]);
    let mut render = Render::new(template.source(), &registry, &data);
    assert_eq!(&data, render.root());
    assert_eq!(true, render.scope().is_none());
    assert_eq!(true, render.pop_scope().is_none());
    assert_eq!(3, render.write_str(b"<a>", false));
    assert_eq!(9, render.write_str(b"<a>", true));
    render.render_node(template.node()).unwrap();
    assert_eq!(0, render.scopes().len());
    assert_eq!(b"<a>&lt;a&gt;<&amp;>3".to_vec(), render.out().clone());

    let mut scope = Scope::new();
    scope.set_base_value(Json::Object(vec![("c".to_string(), Json::Bool(false))]));
    render.push_scope(scope);
    render.scope_mut().unwrap().set_local("n", Json::Null);
    assert_eq!(Some(&Json::Null), render.scope().unwrap().get_local(b"@n"));
    let statement = match &template.node().nodes().unwrap()[1] {
        bracket::parser::ast::Node::Statement(call) => call,
        other => panic!("statement expected, got {:?}", other),
    };
    assert_eq!(
        Ok(EvalResult::Json(Some(Json::Bool(false)))),
        render.statement(statement)
    );
    assert_eq!(
        Ok(Some(&Json::Bool(false))),
        render.lookup(statement.path().unwrap(), 0)
    );
    assert_eq!(Ok(vec![]), render.arguments(statement));
    assert_eq!(Ok(vec![]), render.hash(statement));
    assert_eq!(true, render.is_truthy(&data));
    let helper = registry.get_helper("not").unwrap();
    assert_eq!(
        true,
        matches!(render.invoke(statement, Span::new(0, 0), helper), Err(_))
    );
    let popped = render.pop_scope().unwrap();
    assert_eq!(Some(&Json::Null), popped.get_local(b"@n"));
    assert_eq!(
        Ok(EvalResult::Json(Some(Json::Number("3".to_string())))),
        render.statement(statement)
    );
    let block = match &template.node().nodes().unwrap()[0] {
        bracket::parser::ast::Node::Block(block) => block,
        other => panic!("block expected, got {:?}", other),
    };
    let plan = render.block(block.call().as_ref().unwrap()).unwrap();
    assert_eq!(1, plan.len());
    assert_eq!(data.get(b"a"), plan[0].base_value().as_ref());
    assert_eq!(false, block.trim_before(template.source()));
    assert_eq!(false, block.trim_after_open(template.source()));
    assert_eq!(false, block.trim_before_close(template.source()));
    assert_eq!(b"<{{b}}>", block.between(template.source()));
    let mut out = Vec::new();
    template.render(&registry, &data, &mut out).unwrap();
    assert_eq!(b"<&amp;>3".to_vec(), out);
    assert_eq!(b"<a>&lt;a&gt;<&amp;>3".to_vec(), render.into_output());
}

#[test]
fn typed_arguments() {
    let context = Context::new(
        "typed".to_string(),
        vec![
            Json::String("s".to_string()),
            Json::Number("1.5".to_string()),
            Json::Bool(true),
            Json::Array(vec![Json::Null]),
            Json::Object(vec![("k".to_string(), Json::Null)]),
        ],
        vec![],
    );
    let name = || "typed".to_string();
    assert_eq!(Ok("s"), context.arg_as_string(0));
    assert_eq!(Ok("1.5"), context.arg_as_number(1));
    assert_eq!(Ok(true), context.arg_as_bool(2));
    assert_eq!(Ok(&vec![Json::Null]), context.arg_as_array(3));
    assert_eq!(
        Ok(&vec![("k".to_string(), Json::Null)]),
        context.arg_as_object(4)
    );
    assert_eq!(Ok(&Json::Bool(true)), context.argument(2, Kind::Bool));
    assert_eq!(
        Err(HelperError::ArgumentTypeString(name(), 1)),
        context.arg_as_string(1)
    );
    assert_eq!(
        Err(HelperError::ArgumentTypeNumber(name(), 0)),
        context.arg_as_number(0)
    );
    assert_eq!(
        Err(HelperError::ArgumentTypeBool(name(), 3)),
        context.arg_as_bool(3)
    );
    assert_eq!(
        Err(HelperError::ArgumentTypeArray(name(), 4)),
        context.arg_as_array(4)
    );
    assert_eq!(
        Err(HelperError::ArgumentTypeObject(name(), 2)),
        context.arg_as_object(2)
    );
    assert_eq!(
        Err(HelperError::ArgumentTypeString(name(), 5)),
        context.arg_as_string(5)
    );
    assert_eq!(Ok(()), context.arity_exact(5));
    assert_eq!(
        Err(HelperError::ArityExact(name(), 4)),
        context.arity_exact(4)
    );
    assert_eq!(Ok(()), context.arity_range(1, 5));
    assert_eq!(
        Err(HelperError::ArityRange(name(), 1, 4)),
        context.arity_range(1, 4)
    );
}

#[test]
fn lexer_keeps_characters_whole() {
    assert_eq!(
        vec![
            Token::Block(Outer::StartStatement, Span::new(0, 2)),
            Token::Parameters(Parameters::Error, Span::new(2, 4)),
            Token::Parameters(Parameters::Identifier, Span::new(4, 5)),
            Token::Parameters(Parameters::Error, Span::new(5, 9)),
            Token::Parameters(Parameters::End, Span::new(9, 11)),
        ],
        kinds("{{éa\u{1F600}}}")
    );
    for source in ["ä {{~ x ~}} ö", "{{{{r}}}}ü{{{{/r}}}}", "\\{{ß}}", "{{x \"ä\\nö\" 'ü'}}ß"] {
        for token in lex(source.as_bytes()) {
            assert_eq!(true, source.is_char_boundary(token.span().start));
            assert_eq!(true, source.is_char_boundary(token.span().end));
        }
    }
}

#[test]
fn rendering_text_gives_text() {
    let registry: Registry = Registry::new();
    let data = Json::Object(vec![
        ("x".to_string(), Json::String("<ä>".to_string())),
        ("l".to_string(), Json::Array(vec![Json::String("ö".to_string())])),
    ]);
    assert_eq!(
        Ok("ä&lt;ä&gt;ö".to_string()),
        registry.once("t", "ä \u{b}{{~ x ~}}\n ö", &data)
    );
    assert_eq!(
        Ok("ü{{ß}}[\"ö\"]é".to_string()),
        registry.once("t", "{{{{r}}}}ü{{{{/r}}}}\\{{ß}}{{{l}}}{{! ä }}é", &data)
    );
    let template = Template::compile("ä{{x}}", ParserOptions::default()).unwrap();
    assert_eq!(Ok("ä&lt;ä&gt;".to_string()), registry.render_text(&template, &data));
}
