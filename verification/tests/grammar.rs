use bracket::parser::ast::{Node, Text};
use bracket::parser::ParserOptions;
use bracket::template::Template;
use bracket::text::Span;

fn compile(value: &str) -> Template {
    Template::compile(value, ParserOptions::default()).unwrap()
}

fn children(tpl: &Template) -> &Vec<Node> {
    tpl.block().unwrap().nodes()
}

fn assert_text(token: &Node, source: &str, value: &str, line: usize, span: Span) {
    let expected = Node::Text(Text {
        span,
        lines: Span::new(line, line + 1),
    });
    assert_eq!(&expected, token);
    assert_eq!(value.as_bytes(), token.as_str(source.as_bytes()));
}

#[test]
fn text() {
    let value = r"Some text";
    let tpl = compile(value);
    let nodes = children(&tpl);
    let token = nodes.get(0).unwrap();
    assert_eq!(1, nodes.len());
    assert_text(token, value, value, 0, Span::new(0, 9));
}

#[test]
fn mixed() {
    let value = r"Some {{var}} text";
    let tpl = compile(value);
    let nodes = children(&tpl);

    assert_eq!(3, nodes.len());

    assert_text(nodes.get(0).unwrap(), value, "Some ", 0, Span::new(0, 5));

    let statement = nodes.get(1).unwrap();
    assert_eq!(true, matches!(statement, Node::Statement(_)));
    assert_eq!("{{var}}".as_bytes(), statement.as_str(value.as_bytes()));
    assert_eq!(Span::new(0, 1), statement.lines());
    match statement {
        Node::Statement(call) => {
            assert_eq!(5, call.open.start);
            assert_eq!(12, call.close.end);
        }
        _ => unreachable!(),
    }

    assert_text(nodes.get(2).unwrap(), value, " text", 0, Span::new(12, 17));
}

#[test]
fn escaped_expr() {
    let value = r"\{{expr}}";
    let tpl = compile(value);
    let nodes = children(&tpl);
    let token = nodes.get(0).unwrap();

    assert_eq!(1, nodes.len());
    assert_eq!(true, matches!(token, Node::RawStatement(_)));
    assert_eq!(value.as_bytes(), token.as_str(value.as_bytes()));
    assert_eq!(Span::new(0, 1), token.lines());
    match token {
        Node::RawStatement(block) => {
            assert_eq!(Some(Span::new(0, 3)), block.open);
            assert_eq!(Some(Span::new(7, 9)), block.close);
            assert_eq!("{{expr}}".as_bytes(), block.unescaped(value.as_bytes()));
        }
        _ => unreachable!(),
    }
}

#[test]
fn simple_expr() {
    let value = r"{{var}}";
    let tpl = compile(value);
    let nodes = children(&tpl);
    let token = nodes.get(0).unwrap();

    assert_eq!(1, nodes.len());
    assert_eq!(true, matches!(token, Node::Statement(_)));
    assert_eq!(value.as_bytes(), token.as_str(value.as_bytes()));
    assert_eq!(Span::new(0, 1), token.lines());
    assert_eq!(false, matches!(token, Node::RawStatement(_)));
    match token {
        Node::Statement(call) => {
            assert_eq!(0, call.open.start);
            assert_eq!(7, call.close.end);
            assert_eq!(true, call.is_escaped());
        }
        _ => unreachable!(),
    }
}

#[test]
fn unescaped_expr() {
    let value = r"{{{var}}}";
    let tpl = compile(value);
    let nodes = children(&tpl);
    let token = nodes.get(0).unwrap();

    assert_eq!(1, nodes.len());
    assert_eq!(true, matches!(token, Node::Statement(_)));
    assert_eq!(value.as_bytes(), token.as_str(value.as_bytes()));
    assert_eq!(Span::new(0, 1), token.lines());
    assert_eq!(false, matches!(token, Node::RawStatement(_)));
    assert_eq!(
        false,
        match token {
            Node::Statement(ref call) => call.is_escaped(),
            _ => true,
        }
    );
}
