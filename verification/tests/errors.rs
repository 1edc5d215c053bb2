use bracket::error::{ErrorKind, HelperError, Note, RenderError, SourcePos, SyntaxError};
use bracket::escape::Escape;
use bracket::helper::{Helper, HelperValue, NoHelper};
use bracket::json::Json;
use bracket::parser::ParserOptions;
use bracket::registry::{Error, Registry};
use bracket::render::Context;
use bracket::template::Template;

fn syntax_failure(source: &str) -> SyntaxError {
    match Template::compile(source, ParserOptions::default()) {
        Err(e) => e,
        Ok(t) => panic!("syntax error expected, got {:?}", t),
    }
}

fn kind_and_byte(source: &str) -> (ErrorKind, usize) {
    let e = syntax_failure(source);
    (e.kind(), e.info().pos.1)
}

fn render_error(source: &str, data: &Json) -> RenderError {
    let registry: Registry = Registry::new();
    match registry.once("errors", source, data) {
        Err(Error::Render(e)) => e,
        other => panic!("render error expected, got {:?}", other),
    }
}

#[test]
fn error_empty_statement() {
    assert_eq!((ErrorKind::EmptyStatement, 2), kind_and_byte("{{}}"));
    assert_eq!((ErrorKind::EmptyStatement, 7), kind_and_byte("ab {{  }}"));
    assert_eq!((ErrorKind::EmptyStatement, 7), kind_and_byte("{{foo ()}}"));
}

#[test]
fn error_open_statement() {
    let e = syntax_failure("{{foo");
    assert_eq!(ErrorKind::OpenStatement, e.kind());
    assert_eq!(SourcePos(0, 0), e.info().pos);
    assert_eq!(None, e.info().note);
    let e = syntax_failure("a\n{{foo \"bar");
    assert_eq!(ErrorKind::OpenStatement, e.kind());
    assert_eq!(SourcePos(1, 2), e.info().pos);
    assert_eq!(Some(Note::StringLiteralNotClosed), e.info().note);
    assert_eq!((ErrorKind::OpenStatement, 3), kind_and_byte("ab {{/foo"));
}

#[test]
fn error_string_literal_newline() {
    let e = syntax_failure("{{foo \"bar\nbaz\"}}");
    assert_eq!(ErrorKind::StringLiteralNewline, e.kind());
    assert_eq!(SourcePos(0, 10), e.info().pos);
    let e = syntax_failure("\n{{foo 'x\n'}}");
    assert_eq!(ErrorKind::StringLiteralNewline, e.kind());
    assert_eq!(SourcePos(1, 9), e.info().pos);
}

#[test]
fn error_expected_identifier() {
    assert_eq!((ErrorKind::ExpectedIdentifier, 2), kind_and_byte("{{\"foo\"}}"));
    assert_eq!((ErrorKind::ExpectedIdentifier, 3), kind_and_byte("{{ 1}}"));
    assert_eq!((ErrorKind::ExpectedIdentifier, 2), kind_and_byte("{{true}}"));
}

#[test]
fn error_block_name() {
    assert_eq!((ErrorKind::BlockName, 0), kind_and_byte("{{#foo.bar}}x{{/foo.bar}}"));
    assert_eq!((ErrorKind::BlockName, 0), kind_and_byte("{{{{(raw)}}}}x{{{{/raw}}}}"));
}

#[test]
fn error_path_components() {
    assert_eq!((ErrorKind::UnexpectedPathExplicitThis, 6), kind_and_byte("{{foo.this}}"));
    assert_eq!((ErrorKind::UnexpectedPathParent, 6), kind_and_byte("{{foo/../bar}}"));
    assert_eq!((ErrorKind::UnexpectedPathLocal, 6), kind_and_byte("{{foo.@bar}}"));
    assert_eq!((ErrorKind::UnexpectedPathDelimiter, 2), kind_and_byte("{{.foo}}"));
    assert_eq!((ErrorKind::UnexpectedPathDelimiter, 6), kind_and_byte("{{foo..bar}}"));
    assert_eq!((ErrorKind::UnexpectedPathParentWithLocal, 5), kind_and_byte("{{../@foo}}"));
    assert_eq!((ErrorKind::UnexpectedPathParentWithExplicit, 5), kind_and_byte("{{../this}}"));
    assert_eq!((ErrorKind::ExpectedPathDelimiter, 5), kind_and_byte("{{foo[0]}}"));
    assert_eq!((ErrorKind::EmptyPath, 2), kind_and_byte("{{../}}"));
    assert_eq!((ErrorKind::EmptyPath, 6), kind_and_byte("{{foo ../../ bar}}"));
    assert_eq!((ErrorKind::EmptyPath, 8), kind_and_byte("{{foo a=../}}"));
}

#[test]
fn error_sub_expression() {
    assert_eq!((ErrorKind::OpenSubExpression, 6), kind_and_byte("{{foo (bar}}"));
    assert_eq!((ErrorKind::OpenSubExpression, 6), kind_and_byte("{{foo (}}"));
    assert_eq!((ErrorKind::BlockTargetSubExpr, 0), kind_and_byte("{{#(foo)}}x{{/foo}}"));
}

#[test]
fn error_tags() {
    assert_eq!((ErrorKind::TagNameMismatch, 11), kind_and_byte("{{#foo}}...{{/bar}}"));
    assert_eq!((ErrorKind::TagNameMismatch, 12), kind_and_byte("{{{{a}}}}...{{{{/b}}}}"));
    assert_eq!((ErrorKind::BlockNotOpen, 1), kind_and_byte("a{{/foo}}"));
    let e = syntax_failure("a\n{{#foo}}\nbar");
    assert_eq!(ErrorKind::BlockNotTerminated, e.kind());
    assert_eq!(SourcePos(1, 2), e.info().pos);
}

#[test]
fn error_not_terminated() {
    assert_eq!((ErrorKind::RawBlockOpenNotTerminated, 1), kind_and_byte(" {{{{raw"));
    assert_eq!((ErrorKind::RawBlockNotTerminated, 1), kind_and_byte(" {{{{raw}}}}foo"));
    assert_eq!((ErrorKind::RawCommentNotTerminated, 1), kind_and_byte(" {{!-- foo"));
    assert_eq!((ErrorKind::RawStatementNotTerminated, 1), kind_and_byte(" \\{{foo"));
    assert_eq!((ErrorKind::CommentNotTerminated, 1), kind_and_byte(" {{! foo"));
}

#[test]
fn error_literals() {
    assert_eq!((ErrorKind::TokenJsonLiteral, 6), kind_and_byte("{{foo 01}}"));
    assert_eq!((ErrorKind::TokenDoubleQuoteLiteral, 8), kind_and_byte("{{foo \"a\\qb\"}}"));
    assert_eq!((ErrorKind::TokenSingleQuoteLiteral, 8), kind_and_byte("{{foo 'a\\qb'}}"));
}

#[test]
fn error_parameters() {
    assert_eq!((ErrorKind::TokenParameterPath, 6), kind_and_byte("{{foo )}}"));
    assert_eq!((ErrorKind::TokenParameterPath, 6), kind_and_byte("{{foo %}}"));
    assert_eq!((ErrorKind::DuplicateHashKey, 10), kind_and_byte("{{foo a=1 a=2}}"));
    assert_eq!((ErrorKind::HashValueMissing, 6), kind_and_byte("{{foo a= }}"));
    assert_eq!((ErrorKind::HashValueMissing, 6), kind_and_byte("{{foo a=}}"));
    assert_eq!((ErrorKind::ArgumentAfterHash, 10), kind_and_byte("{{foo a=1 b}}"));
}

#[test]
fn error_variant_goes_with_kind() {
    assert_eq!(true, matches!(syntax_failure("{{}}"), SyntaxError::EmptyStatement(_)));
    assert_eq!(true, matches!(syntax_failure("{{foo"), SyntaxError::OpenStatement(_)));
    assert_eq!(
        true,
        matches!(syntax_failure("{{#a}}{{/b}}"), SyntaxError::TagNameMismatch(_))
    );
    assert_eq!(
        true,
        matches!(syntax_failure("{{a b=1 b=2}}"), SyntaxError::DuplicateHashKey(_))
    );
}

#[test]
fn error_message() {
    let source = "Hello\n  {{foo \"bar";
    let options = ParserOptions::new("greeting.hbs".to_string(), 0, 0);
    let e = match Template::compile(source, options) {
        Err(e) => e,
        Ok(_) => panic!("syntax error expected"),
    };
    assert_eq!("Syntax error, statement was not terminated", e.description());
    let message = String::from_utf8(e.message(source.as_bytes())).unwrap();
    assert_eq!(
        "Syntax error, statement was not terminated\n --> greeting.hbs:2:8\n  {{foo \"bar\n  ^\n = note: string literal was not closed\n",
        message
    );
    let e = syntax_failure("{{}}");
    let message = String::from_utf8(e.message("{{}}".as_bytes())).unwrap();
    assert_eq!(
        "Syntax error, statement is empty\n --> unknown:1:2\n{{}}\n  ^\n",
        message
    );
}

#[test]
fn error_line_offset() {
    let options = ParserOptions::new("part.hbs".to_string(), 10, 0);
    let e = match Template::compile("a\n{{}}", options) {
        Err(e) => e,
        Ok(_) => panic!("syntax error expected"),
    };
    assert_eq!(SourcePos(11, 4), e.info().pos);
    assert_eq!("part.hbs", e.info().file_name);
}

#[test]
fn render_error_partials() {
    let data = Json::Null;
    assert_eq!(RenderError::PartialNameResolve(1), render_error(" {{> foo.bar}}", &data));
    assert_eq!(
        RenderError::PartialNameResolve(0),
        render_error("{{> (lookup this \"x\")}}", &data)
    );
    assert_eq!(
        RenderError::PartialNotFound("missing".to_string()),
        render_error("{{> missing}}", &data)
    );
    let mut registry: Registry = Registry::new();
    registry
        .register_template_string("again", "x{{> again}}", ParserOptions::default())
        .unwrap();
    assert_eq!(Err(RenderError::PartialDepth), registry.render("again", &data));
}

#[test]
fn render_error_scopes() {
    let data = Json::Object(vec![("a".to_string(), Json::Bool(true))]);
    assert_eq!(RenderError::ScopeDepth(1), render_error(" {{../a}}", &data));
    assert_eq!(
        RenderError::ScopeDepth(11),
        render_error("{{#with a}}{{../../a}}{{/with}}", &data)
    );
    assert_eq!(RenderError::LocalNotFound(3), render_error(" {{@nope}}", &data));
}

#[test]
fn render_error_template_not_found() {
    let registry: Registry = Registry::new();
    assert_eq!(
        Err(RenderError::TemplateNotFound("nope".to_string())),
        registry.render("nope", &Json::Null)
    );
    let mut out = Vec::new();
    assert_eq!(
        Err(RenderError::TemplateNotFound("nope".to_string())),
        registry.render_to_write("nope", &Json::Null, &mut out)
    );
    assert_eq!(
        Err(Error::Render(RenderError::TemplateNotFound("nope".to_string()))),
        registry.get_template("nope").map(|_| ())
    );
}

#[test]
fn render_error_helper_arity() {
    let data = Json::Null;
    assert_eq!(
        RenderError::Helper(HelperError::ArityExact("with".to_string(), 1)),
        render_error("{{#with}}x{{/with}}", &data)
    );
    assert_eq!(
        RenderError::Helper(HelperError::ArityExact("not".to_string(), 1)),
        render_error("{{not 1 2}}", &data)
    );
    assert_eq!(
        RenderError::Helper(HelperError::ArityRange("log".to_string(), 1, usize::MAX)),
        render_error("{{log}}", &data)
    );
    assert_eq!(
        RenderError::Helper(HelperError::ArgumentTypeString("lookup".to_string(), 1)),
        render_error("{{lookup this 1}}", &data)
    );
}

struct Picky;

impl Helper for Picky {
    fn call(&self, ctx: &Context) -> HelperValue {
        let name = ctx.name().to_string();
        match ctx.arguments().get(0) {
            Some(Json::String(_)) => Err(HelperError::ArgumentTypeNumber(name, 0)),
            Some(Json::Number(_)) => Err(HelperError::ArgumentTypeBool(name, 0)),
            Some(Json::Bool(_)) => Err(HelperError::ArgumentTypeArray(name, 0)),
            Some(Json::Array(_)) => Err(HelperError::ArgumentTypeObject(name, 0)),
            Some(Json::Object(_)) => Err(HelperError::ArgumentTypeString(name, 0)),
            _ => Err(HelperError::Message("nothing to pick".to_string())),
        }
    }
}

fn picky(source: &str) -> RenderError {
    let mut registry: Registry<Picky> = Registry::new();
    registry.register_helper("picky", Picky);
    let data = Json::Object(vec![
        ("list".to_string(), Json::Array(vec![])),
        ("map".to_string(), Json::Object(vec![])),
    ]);
    match registry.once("picky", source, &data) {
        Err(Error::Render(e)) => e,
        other => panic!("render error expected, got {:?}", other),
    }
}

#[test]
fn render_error_helper_raised() {
    let name = "picky".to_string();
    assert_eq!(
        RenderError::Helper(HelperError::ArgumentTypeNumber(name.clone(), 0)),
        picky("{{picky \"s\"}}")
    );
    assert_eq!(
        RenderError::Helper(HelperError::ArgumentTypeBool(name.clone(), 0)),
        picky("{{picky 1}}")
    );
    assert_eq!(
        RenderError::Helper(HelperError::ArgumentTypeArray(name.clone(), 0)),
        picky("{{picky true}}")
    );
    assert_eq!(
        RenderError::Helper(HelperError::ArgumentTypeObject(name.clone(), 0)),
        picky("{{picky list}}")
    );
    assert_eq!(
        RenderError::Helper(HelperError::ArgumentTypeString(name.clone(), 0)),
        picky("{{picky map}}")
    );
    assert_eq!(
        RenderError::Helper(HelperError::Message("nothing to pick".to_string())),
        picky("{{picky}}")
    );
}

struct Broken;

impl Escape for Broken {
    fn escape(&self, _s: &[u8]) -> Vec<u8> {
        vec![0xff]
    }
}

#[test]
fn render_error_utf8() {
    let mut registry: Registry<NoHelper, NoHelper, Broken> = Registry::new();
    registry.set_escape(Broken);
    registry
        .register_template_string("t", "{{x}}", ParserOptions::default())
        .unwrap();
    let data = Json::Object(vec![("x".to_string(), Json::String("y".to_string()))]);
    assert_eq!(Err(RenderError::Utf8), registry.render("t", &data));
    let mut out = Vec::new();
    assert_eq!(Ok(()), registry.render_to_write("t", &data, &mut out));
    assert_eq!(vec![0xffu8], out);
}
