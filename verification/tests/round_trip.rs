use bracket::error::SyntaxError;
use bracket::escape::html_escape;
use bracket::json::Json;
use bracket::parser::ast::{Block, Node};
use bracket::parser::path::from_str;
use bracket::parser::ParserOptions;
use bracket::registry::Registry;
use bracket::template::Template;

const SOURCES: [&str; 9] = [
    "",
    "plain text\nwith two lines",
    "Hello {{name}}!",
    "{{#each items}}{{@index}}:{{this}} {{/each}}",
    "a {{~#if x~}} b {{{y}}} {{else}} {{~/if~}} c",
    "{{{{raw}}}} {{x}} \n {{{{/raw}}}}{{! one }}{{!-- {{two}} --}}\\{{three}}",
    "{{#with a}}{{#with b}}{{> part c=1 d=\"e\"}}{{/with}} x {{/with}}",
    "{{foo (bar baz.qux 1.5 true null) key=../value other=[0]}}",
    "grüße {{ name }} – \u{1F600}\n",
];

fn compile(source: &str) -> Template {
    Template::compile(source, ParserOptions::default()).unwrap()
}

fn leaves(node: &Node, source: &[u8], out: &mut Vec<u8>) {
    match node {
        Node::Text(_) | Node::Statement(_) => out.extend_from_slice(node.as_str(source)),
        Node::Document(block) => {
            for child in block.nodes() {
                leaves(child, source, out);
            }
        }
        Node::Block(block)
        | Node::RawBlock(block)
        | Node::RawStatement(block)
        | Node::RawComment(block)
        | Node::Comment(block) => {
            out.extend_from_slice(block.open(source));
            for child in block.nodes() {
                leaves(child, source, out);
            }
            out.extend_from_slice(block.close(source));
        }
    }
}

#[test]
fn leaves_make_up_the_source() {
    for source in SOURCES {
        let template = compile(source);
        let mut out = Vec::new();
        leaves(template.node(), source.as_bytes(), &mut out);
        assert_eq!(source.as_bytes(), out.as_slice());
    }
}

#[test]
fn top_level_nodes_make_up_the_source() {
    for source in SOURCES {
        let template = compile(source);
        let mut out = Vec::new();
        for node in template.node().nodes().unwrap() {
            out.extend_from_slice(node.as_str(source.as_bytes()));
        }
        assert_eq!(source.as_bytes(), out.as_slice());
    }
}

#[test]
fn printing_gives_the_source_back() {
    for source in SOURCES {
        let template = compile(source);
        let mut out = Vec::new();
        template.print(&mut out);
        assert_eq!(source.as_bytes(), out.as_slice());
        let mut again = b"> ".to_vec();
        template.node().print(template.source(), &mut again);
        assert_eq!([b"> ", source.as_bytes()].concat(), again);
    }
}

fn check_names(block: &Block, source: &[u8]) -> usize {
    let mut count = 0;
    for node in block.nodes() {
        match node {
            Node::Block(inner) => {
                let call = inner.call().as_ref().unwrap();
                if let Some(path) = call.path() {
                    let open = path.components()[0].as_str(source);
                    let close = inner.close(source);
                    let close = String::from_utf8_lossy(close).into_owned();
                    let name = close
                        .trim_start_matches("{{")
                        .trim_start_matches('~')
                        .trim_start_matches('/')
                        .trim_end_matches("}}")
                        .trim_end_matches('~')
                        .trim();
                    assert_eq!(open, name.as_bytes());
                    count += 1;
                }
                count += check_names(inner, source);
            }
            Node::RawBlock(inner) => {
                let call = inner.call().as_ref().unwrap();
                let open = call.path().unwrap().components()[0].as_str(source);
                let close = String::from_utf8_lossy(inner.close(source)).into_owned();
                assert_eq!(true, close.contains(&String::from_utf8_lossy(open).into_owned()));
                count += 1;
            }
            _ => {}
        }
    }
    count
}

#[test]
fn closing_names_are_opening_names() {
    let mut count = 0;
    for source in SOURCES {
        let template = compile(source);
        if let Node::Document(block) = template.node() {
            count += check_names(block, source.as_bytes());
        }
    }
    assert_eq!(5, count);
    let template = compile("{{# spaced }}x{{~/  spaced  ~}}");
    if let Node::Document(block) = template.node() {
        assert_eq!(1, check_names(block, template.source()));
    }
}

#[test]
fn raw_bodies_hold_only_text() {
    let source = "{{{{raw}}}}a {{b}}\n{{#c}}{{/c}}{{{{/raw}}}}{{! {{d }}{{!-- {{e}}\n --}}\\{{f g}}";
    let template = compile(source);
    let nodes = template.node().nodes().unwrap();
    assert_eq!(4, nodes.len());
    for node in nodes {
        assert_eq!(false, matches!(node, Node::Block(_) | Node::Statement(_) | Node::Text(_)));
        for child in node.nodes().unwrap() {
            assert_eq!(true, matches!(child, Node::Text(_)));
        }
    }
}

#[test]
fn simple_paths() {
    let simple = |text: &str| from_str(text.as_bytes()).unwrap().unwrap().is_simple();
    assert_eq!(true, simple("foo"));
    assert_eq!(true, simple("foo-bar_1"));
    assert_eq!(false, simple("foo.bar"));
    assert_eq!(false, simple("this"));
    assert_eq!(false, simple("this.foo"));
    assert_eq!(false, simple("./foo"));
    assert_eq!(false, simple("../foo"));
    assert_eq!(false, simple("@root"));
    assert_eq!(false, simple("@index"));
    assert_eq!(false, simple("[0]"));
    assert_eq!(true, from_str(b"").unwrap().is_none());
    assert_eq!(true, from_str(b" foo").unwrap().is_none());
    assert_eq!(true, from_str(b"1").unwrap().is_none());
}

#[test]
fn path_flags() {
    let path = from_str(b"../../foo.[1].bar").unwrap().unwrap();
    assert_eq!(2, path.parents());
    assert_eq!(false, path.is_explicit());
    assert_eq!(false, path.is_root());
    assert_eq!(3, path.components().len());
    assert_eq!(b"[1]", path.components()[1].as_str(b"../../foo.[1].bar"));
    let path = from_str(b"@root.foo").unwrap().unwrap();
    assert_eq!(true, path.is_root());
    assert_eq!(true, path.components()[0].is_local());
    assert_eq!(0, path.parents());
    let path = from_str(b"@index").unwrap().unwrap();
    assert_eq!(false, path.is_root());
    let path = from_str(b"this/foo").unwrap().unwrap();
    assert_eq!(true, path.is_explicit());
    assert_eq!(true, path.components()[0].is_explicit());
    let path = from_str(b"./foo").unwrap().unwrap();
    assert_eq!(true, path.is_explicit());
    assert_eq!(true, path.components()[0].is_explicit_dot_slash());
    assert_eq!(2, path.components().len());
    assert_eq!(true, from_str(b"..").is_err());
    assert_eq!(true, matches!(from_str(b"../"), Err(SyntaxError::EmptyPath(_))));
    assert_eq!(true, matches!(from_str(b"../../"), Err(SyntaxError::EmptyPath(_))));
    let path = from_str(b"../x").unwrap().unwrap();
    assert_eq!(1, path.parents());
    assert_eq!(false, path.is_empty());
}

#[test]
fn rendering_twice_gives_the_same() {
    let mut registry: Registry = Registry::new();
    registry
        .register_template_string(
            "t",
            "{{#each list}}{{@index}}={{this}};{{/each}}{{{json map}}}{{missing}}",
            ParserOptions::default(),
        )
        .unwrap();
    let data = || {
        Json::Object(vec![
            (
                "list".to_string(),
                Json::Array(vec![Json::Bool(true), Json::Number("2".to_string())]),
            ),
            (
                "map".to_string(),
                Json::Object(vec![("k".to_string(), Json::Null)]),
            ),
        ])
    };
    let first = registry.render("t", &data());
    let second = registry.render("t", &data());
    assert_eq!(first, second);
    assert_eq!(Ok("0=true;1=2;{\"k\":null}".to_string()), first);
    let failing = Json::Null;
    assert_eq!(
        registry.once("f", "{{../x}}", &failing),
        registry.once("f", "{{../x}}", &failing)
    );
}

#[test]
fn escaping_twice_escapes_again() {
    assert_eq!(b"&lt;b&gt;".to_vec(), html_escape(b"<b>"));
    assert_eq!(b"&amp;lt;b&amp;gt;".to_vec(), html_escape(&html_escape(b"<b>")));
    assert_eq!(b"plain = text".to_vec(), html_escape(b"plain = text"));
    assert_eq!(
        html_escape(b"plain = text"),
        html_escape(&html_escape(b"plain = text"))
    );
    for special in ["&", "<", ">", "\"", "'", "`"] {
        let once = html_escape(special.as_bytes());
        let twice = html_escape(&once);
        assert_ne!(once, twice);
        assert_eq!(true, twice.len() > once.len());
    }
    assert_eq!(Vec::<u8>::new(), html_escape(b""));
}

#[test]
fn literals_reach_helpers_as_written() {
    let registry: Registry = Registry::new();
    let data = Json::Object(vec![("x".to_string(), Json::String("shadow".to_string()))]);
    for (literal, text) in [
        ("1", "1"),
        ("-12", "-12"),
        ("0.25", "0.25"),
        ("true", "true"),
        ("false", "false"),
        ("null", "null"),
        ("\"x\"", "\"x\""),
        ("'{{x}}'", "\"{{x}}\""),
    ] {
        let source = format!("{{{{{{json {}}}}}}}", literal);
        assert_eq!(text, registry.once("l", &source, &data).unwrap());
    }
    assert_eq!("true", registry.once("l", "{{eq 1 1}}", &data).unwrap());
    assert_eq!("false", registry.once("l", "{{eq \"1\" 1}}", &data).unwrap());
    assert_eq!("true", registry.once("l", "{{eq x \"shadow\"}}", &data).unwrap());
    assert_eq!("true", registry.once("l", "{{ne x \"x\"}}", &data).unwrap());
    assert_eq!("false", registry.once("l", "{{ne null null}}", &data).unwrap());
}
