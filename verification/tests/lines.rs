use bracket::parser::ast::{CallTarget, Node};
use bracket::parser::ParserOptions;
use bracket::registry::{Error, Registry};
use bracket::template::Template;
use bracket::text::Span;

static NAME: &str = "lines.rs";

fn parse(value: &str) -> Result<Template, Error> {
    let options = ParserOptions::new(NAME.to_string(), 0, 0);
    Registry::<bracket::helper::NoHelper>::compile(value, options)
}

fn first(template: &Template) -> &Node {
    template.node().nodes().unwrap().iter().next().unwrap()
}

#[test]
fn lines_text() -> Result<(), Error> {
    let value = r"This is some text
that spans multiple lines
so we can check the line range.";
    let template = parse(value)?;
    let node = first(&template);
    if let Node::Text(text) = node {
        assert_eq!(Span::new(0, 3), text.lines());
    } else {
        panic!("text expected, got {:?}", node);
    }
    Ok(())
}

#[test]
fn lines_comment() -> Result<(), Error> {
    let value = r"{{!
This is a comment that spans multiple lines.
}}";
    let template = parse(value)?;
    let node = first(&template);
    if let Node::Comment(text) = node {
        assert_eq!(Span::new(0, 3), text.lines());
    } else {
        panic!("comment expected, got {:?}", node);
    }
    Ok(())
}

#[test]
fn lines_raw_comment() -> Result<(), Error> {
    let value = r"{{!--
This is a raw comment that spans multiple lines.
--}}";
    let template = parse(value)?;
    let node = first(&template);
    if let Node::RawComment(text) = node {
        assert_eq!(Span::new(0, 3), text.lines());
    } else {
        panic!("raw comment expected, got {:?}", node);
    }
    Ok(())
}

#[test]
fn lines_call_single() -> Result<(), Error> {
    let value = r"{{
foo.bar.qux
}}";
    let template = parse(value)?;
    let node = first(&template);
    if let Node::Statement(call) = node {
        assert_eq!(Span::new(0, 3), call.lines());
        let target = call.target();
        assert_eq!(Span::new(1, 3), target.lines());
        if let CallTarget::Path(ref path) = target {
            let c1 = path.components().get(0).unwrap();
            let c2 = path.components().get(1).unwrap();
            let c3 = path.components().get(2).unwrap();
            assert_eq!(Span::new(1, 2), c1.lines());
            assert_eq!(Span::new(1, 2), c2.lines());
            assert_eq!(Span::new(1, 2), c3.lines());
        } else {
            panic!("path expected, got {:?}", target);
        }
    } else {
        panic!("statement expected, got {:?}", node);
    }
    Ok(())
}

#[test]
fn lines_call_multi() -> Result<(), Error> {
    let value = r#"{{
foo
"message"
true
}}"#;
    let template = parse(value)?;
    let node = first(&template);
    if let Node::Statement(call) = node {
        assert_eq!(Span::new(0, 5), call.lines());
    } else {
        panic!("statement expected, got {:?}", node);
    }
    Ok(())
}

#[test]
fn lines_raw_block() -> Result<(), Error> {
    let value = r"{{{{raw}}}}
This is some text in a raw block.
{{{{/raw}}}}";
    let template = parse(value)?;
    let node = first(&template);
    if let Node::RawBlock(block) = node {
        assert_eq!(Span::new(0, 3), block.lines());
    } else {
        panic!("raw block expected, got {:?}", node);
    }
    Ok(())
}

#[test]
fn lines_block() -> Result<(), Error> {
    let value = r"{{#block}}
This is some text in a block statement.

If can have other {{foo}} statements.
{{/block}}";
    let template = parse(value)?;
    let node = first(&template);
    if let Node::Block(block) = node {
        assert_eq!(Span::new(0, 5), block.lines());
    } else {
        panic!("block expected, got {:?}", node);
    }
    Ok(())
}
