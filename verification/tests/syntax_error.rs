use bracket::error::{ErrorInfo, SourcePos, SyntaxError};
use bracket::registry::{Error, Registry};

#[test]
fn err_empty_statement() {
    let mut registry: Registry = Registry::new();
    let name = "mock-template";
    let value = r"{{}}";
    match registry.register_template_string(name, value, Default::default()) {
        Ok(_) => panic!("Empty statement error expected"),
        Err(e) => {
            println!("{:?}", e);
            let pos = SourcePos(0, 2);
            let info = ErrorInfo::new("unknown", pos);
            assert_eq!(Error::Syntax(SyntaxError::EmptyStatement(info)), e);
        }
    }
}
