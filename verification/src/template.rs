//! Compiled templates.
use vstd::prelude::*;
use crate::error::render::RenderError;
use crate::error::syntax::SyntaxError;
use crate::escape::Escape;
use crate::helper::{BlockHelper, Helper};
use crate::json::Json;
use crate::registry::{rendered, Registry};
use crate::parser::ast::Node;
use crate::parser::block::document;
use crate::parser::{Parser, ParserOptions};
use crate::text::{bytes_of, str_bytes};

verus! {

/// A compiled template: its source and the syntax tree of the source.
#[derive(Debug, PartialEq, Eq)]
pub struct Template {
    pub source: Vec<u8>,
    pub node: Node,
}

impl Template {
    /// The document of the template.
    pub fn node(&self) -> (r: &Node)
        ensures
            *r == self.node,
    {
        &self.node
    }

    /// The block of the document of the template; none where the node of
    /// the template is no document.
    pub fn block(&self) -> (r: Option<&crate::parser::ast::Block>)
        ensures
            match self.node {
                Node::Document(b) => r == Some(&b),
                _ => r is None,
            },
    {
        match &self.node {
            Node::Document(b) => Some(b),
            _ => None,
        }
    }

    /// The source of the template.
    pub fn source(&self) -> (r: &[u8])
        ensures
            r@ == self.source@,
    {
        self.source.as_slice()
    }

    /// Compiles a source: gives the document that the grammar of templates
    /// makes of it, or the first error that the grammar finds in it. The
    /// template of a source that is a string is text.
    pub fn compile(source: &str, options: ParserOptions) -> (r: Result<Template, SyntaxError>)
        ensures
            match document(options.file_name@, options.line_offset, bytes_of(source@)) {
                Ok(n) => r matches Ok(t) && t.node@ == n && t.source@ == bytes_of(source@)
                    && crate::render::utf8::is_text(t),
                Err(e) => r matches Err(x) && x@ == e,
            },
    {
        let bytes = str_bytes(source);
        proof {
            crate::lexer::scan::lemma_len_fits(bytes);
            vstd::utf8::encode_utf8_valid_utf8(source@);
            crate::parser::align::lemma_document_aligned(
                options.file_name@,
                options.line_offset,
                bytes@,
            );
        }
        Template::compile_bytes(bytes, options)
    }

    /// Compiles a source that is given as bytes.
    pub fn compile_bytes(source: &[u8], options: ParserOptions) -> (r: Result<Template, SyntaxError>)
        ensures
            match document(options.file_name@, options.line_offset, source@) {
                Ok(n) => r matches Ok(t) && t.node@ == n && t.source@ == source@,
                Err(e) => r matches Err(x) && x@ == e,
            },
    {
        let mut parser = Parser::new(source, options);
        match parser.parse() {
            Err(e) => Err(e),
            Ok(node) => Ok(Template { source: vstd::slice::slice_to_vec(source), node }),
        }
    }
}

impl Template {
    /// Renders the template against data, and adds what it gives to `out`.
    /// Where rendering fails, `out` holds what was rendered before the
    /// error and nothing more.
    pub fn render<H: Helper, B: BlockHelper, E: Escape>(
        &self,
        registry: &Registry<H, B, E>,
        data: &Json,
        out: &mut Vec<u8>,
    ) -> (r: Result<(), RenderError>)
        ensures
            match rendered(*registry, *self, data@) {
                Ok(b) => r is Ok && final(out)@ == old(out)@ + b,
                Err(e) => r matches Err(x) && x@ == e && final(out)@ == old(out)@
                    + crate::registry::output(*registry, *self, data@),
            },
    {
        registry.render_template(self, data, out)
    }

    /// Prints the template: its source, from its document.
    pub fn print(&self, out: &mut Vec<u8>)
        ensures
            final(out)@ == old(out)@ + crate::parser::tiling::printed(self.source@, self.node@),
    {
        self.node.print(self.source.as_slice(), out);
    }
}

} // verus!
