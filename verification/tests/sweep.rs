use bracket::json::Json;
use bracket::lexer::lex;
use bracket::parser::ParserOptions;
use bracket::registry::{Error, Registry};
use bracket::template::Template;

const PIECES: [&str; 24] = [
    "{{", "}}", "{", "}", "~", "#", "/", ">", "!", "--", "\\", "\"", "'", "(", ")", "a", "b.c",
    " ", "\n", "=", "1", "@x", "../", "[0]",
];

fn next(state: &mut u64) -> usize {
    *state = state
        .wrapping_mul(6364136223846793005)
        .wrapping_add(1442695040888963407);
    (*state >> 33) as usize
}

fn source(state: &mut u64) -> String {
    let count = next(state) % 12;
    let mut out = String::new();
    for _ in 0..count {
        out.push_str(PIECES[next(state) % PIECES.len()]);
    }
    out
}

#[test]
fn sources_of_all_shapes() {
    let registry: Registry = Registry::new();
    let data = Json::Object(vec![
        ("a".to_string(), Json::String("<a>".to_string())),
        (
            "b".to_string(),
            Json::Object(vec![("c".to_string(), Json::Array(vec![Json::Number("1".to_string())]))]),
        ),
    ]);
    let mut state = 7u64;
    let mut compiled = 0;
    let mut failed = 0;
    for _ in 0..4000 {
        let text = source(&mut state);
        let tokens = lex(text.as_bytes());
        let mut at = 0;
        for token in &tokens {
            assert_eq!(at, token.span().start);
            assert_eq!(true, token.span().end > at);
            at = token.span().end;
        }
        assert_eq!(text.len(), at);
        match Template::compile(&text, ParserOptions::default()) {
            Ok(template) => {
                compiled += 1;
                let mut printed = Vec::new();
                template.print(&mut printed);
                assert_eq!(text.as_bytes(), printed.as_slice());
                let first = registry.once("sweep", &text, &data);
                let second = registry.once("sweep", &text, &data);
                assert_eq!(first, second);
                assert_eq!(false, matches!(first, Err(Error::Syntax(_))));
            }
            Err(e) => {
                failed += 1;
                assert_eq!(true, e.info().pos.1 <= text.len());
                assert_eq!(false, e.message(text.as_bytes()).is_empty());
            }
        }
    }
    assert_eq!(true, compiled > 100);
    assert_eq!(true, failed > 100);
}
