//! The registry: templates, helpers and the escape function.
use vstd::prelude::*;
use vstd::utf8::{decode_utf8, valid_utf8};
use crate::error::render::{RenderError, RenderErrorView};
use crate::error::syntax::SyntaxError;
use crate::escape::{escaped, Escape, HtmlEscape};
use crate::helper::{BlockHelper, BlockKind, Helper, HelperRegistry, NoHelper, ValueHelper};
use crate::json::{Json, JsonView};
use crate::outside::text_from_utf8;
use crate::parser::block::document;
use crate::parser::ParserOptions;
use crate::render::scope::{scope_views, Scope};
use crate::render::spec::{node_output, render_node};
use crate::render::utf8::{
    is_text, keeps_text, lemma_html_keeps_text, lemma_rendered_is_text, text_templates,
};
use crate::table::{lookup, Table};
use crate::template::Template;
use crate::text::{bytes_of, lemma_ascii_bytes, str_bytes};

verus! {

/// How what a `{{...}}` statement gives is written: escaped for HTML, or
/// by an escape function of the registry's own.
#[derive(Debug)]
pub enum Escaper<E> {
    Html,
    Custom(E),
}

impl<E: Escape> Escape for Escaper<E> {
    open spec fn apply(&self, s: Seq<u8>) -> Seq<u8> {
        match self {
            Escaper::Html => escaped(s),
            Escaper::Custom(e) => e.apply(s),
        }
    }

    fn escape(&self, s: &[u8]) -> (r: Vec<u8>) {
        match self {
            Escaper::Html => crate::escape::html_escape(s),
            Escaper::Custom(e) => e.escape(s),
        }
    }
}

/// Templates by name, the helpers that they may call, and the escape
/// function. `H` and `B` are the types of the helpers that are not built
/// in, `E` that of an escape function other than that for HTML.
pub struct Registry<H = NoHelper, B = NoHelper, E = HtmlEscape> {
    pub templates: Table<Template>,
    pub helpers: HelperRegistry<H>,
    pub block_helpers: Table<BlockKind<B>>,
    pub escape: Escaper<E>,
}

/// How deep partials may be nested.
pub const PARTIAL_DEPTH: usize = 64;

/// A failure to compile or to render.
#[derive(Debug, PartialEq, Eq)]
pub enum Error {
    Syntax(SyntaxError),
    Render(RenderError),
}

/// What a template renders to against data: its document, rendered with
/// no scope but the data.
pub open spec fn rendered<H: Helper, B: BlockHelper, E: Escape>(
    reg: Registry<H, B, E>,
    t: Template,
    data: JsonView,
) -> Result<Seq<u8>, RenderErrorView> {
    render_node(reg, t.source@, data, Seq::empty(), t.node@, false, false, PARTIAL_DEPTH as nat)
}

/// What rendering a template against data writes, whether or not it
/// fails: all that the template renders to, or what was rendered before
/// the first error.
pub open spec fn output<H: Helper, B: BlockHelper, E: Escape>(
    reg: Registry<H, B, E>,
    t: Template,
    data: JsonView,
) -> Seq<u8> {
    node_output(reg, t.source@, data, Seq::empty(), t.node@, false, false, PARTIAL_DEPTH as nat)
}

/// What rendering the template of a name writes: nothing where there is
/// no template of the name.
pub open spec fn output_by_name<H: Helper, B: BlockHelper, E: Escape>(
    reg: Registry<H, B, E>,
    name: Seq<char>,
    data: JsonView,
) -> Seq<u8> {
    match lookup(reg.templates.entries@, bytes_of(name)) {
        None => Seq::empty(),
        Some(t) => output(reg, t, data),
    }
}

/// What the template of a name renders to against data.
pub open spec fn rendered_by_name<H: Helper, B: BlockHelper, E: Escape>(
    reg: Registry<H, B, E>,
    name: Seq<char>,
    data: JsonView,
) -> Result<Seq<u8>, RenderErrorView> {
    match lookup(reg.templates.entries@, bytes_of(name)) {
        None => Err(RenderErrorView::TemplateNotFound(name)),
        Some(t) => rendered(reg, t, data),
    }
}

/// What rendered bytes are as text.
pub open spec fn as_text(r: Result<Seq<u8>, RenderErrorView>) -> Result<Seq<char>, RenderErrorView> {
    match r {
        Err(e) => Err(e),
        Ok(b) => if valid_utf8(b) {
            Ok(decode_utf8(b))
        } else {
            Err(RenderErrorView::Utf8)
        },
    }
}

/// Whether a registry gives text: its templates are text, and its escape
/// function gives text for text.
pub open spec fn usable<H, B, E: Escape>(reg: Registry<H, B, E>) -> bool {
    keeps_text(reg) && text_templates(reg)
}

/// With a registry that gives text, what a template that is text renders
/// to is text.
pub proof fn lemma_once_is_text<H: Helper, B: BlockHelper, E: Escape>(
    reg: Registry<H, B, E>,
    t: Template,
    data: JsonView,
)
    ensures
        usable(reg) && is_text(t) ==> (rendered(reg, t, data) matches Ok(out) ==> valid_utf8(out)),
{
    if usable(reg) && is_text(t) {
        crate::render::utf8::lemma_render_node_text(
            reg,
            t.source@,
            data,
            Seq::empty(),
            t.node@,
            false,
            false,
            PARTIAL_DEPTH as nat,
        );
    }
}

/// The names of the built-in block helpers differ from one another.
proof fn lemma_block_names()
    ensures
        bytes_of("with"@) != bytes_of("each"@),
        bytes_of("with"@) != bytes_of("if"@),
        bytes_of("with"@) != bytes_of("unless"@),
        bytes_of("each"@) != bytes_of("if"@),
        bytes_of("each"@) != bytes_of("unless"@),
        bytes_of("if"@) != bytes_of("unless"@),
{
    reveal_strlit("with");
    reveal_strlit("each");
    reveal_strlit("if");
    reveal_strlit("unless");
    lemma_ascii_bytes("with"@);
    lemma_ascii_bytes("each"@);
    lemma_ascii_bytes("if"@);
    lemma_ascii_bytes("unless"@);
    assert(bytes_of("with"@)[0] == 0x77);
    assert(bytes_of("each"@)[0] == 0x65);
    assert(bytes_of("if"@)[0] == 0x69);
    assert(bytes_of("unless"@)[0] == 0x75);
}

impl<H: Helper, B: BlockHelper, E: Escape> Registry<H, B, E> {
    /// The block helper of that name, if there is one.
    pub open spec fn spec_block_helper(&self, name: Seq<char>) -> Option<BlockKind<B>> {
        lookup(self.block_helpers.entries@, bytes_of(name))
    }

    /// The template of that name, if there is one.
    pub open spec fn spec_template(&self, name: Seq<char>) -> Option<Template> {
        lookup(self.templates.entries@, bytes_of(name))
    }

    /// Whether each name has one template, one helper and one block helper,
    /// and no more.
    pub open spec fn unique(&self) -> bool {
        crate::table::distinct(self.templates.entries@) && self.helpers.unique()
            && crate::table::distinct(self.block_helpers.entries@)
    }

    /// A registry without templates, with the built-in helpers and no
    /// other, and with the escape function for HTML.
    pub fn new() -> (r: Self)
        ensures
            r.templates.entries@.len() == 0,
            r.unique(),
            r.escape is Html,
            keeps_text(r),
            text_templates(r),
            r.spec_block_helper("with"@) == Some(BlockKind::<B>::With),
            r.spec_block_helper("each"@) == Some(BlockKind::<B>::Each),
            r.spec_block_helper("if"@) == Some(BlockKind::<B>::If),
            r.spec_block_helper("unless"@) == Some(BlockKind::<B>::Unless),
            r.helpers.spec_get("lookup"@) == Some(ValueHelper::<H>::Lookup),
            r.helpers.spec_get("log"@) == Some(ValueHelper::<H>::Log),
            r.helpers.spec_get("json"@) == Some(ValueHelper::<H>::Json),
            r.helpers.spec_get("and"@) == Some(ValueHelper::<H>::And),
            r.helpers.spec_get("or"@) == Some(ValueHelper::<H>::Or),
            r.helpers.spec_get("not"@) == Some(ValueHelper::<H>::Not),
            r.helpers.spec_get("eq"@) == Some(ValueHelper::<H>::Equal),
            r.helpers.spec_get("ne"@) == Some(ValueHelper::<H>::NotEqual),
            forall|other: Seq<char>|
                bytes_of(other) != bytes_of("with"@) && bytes_of(other) != bytes_of("each"@)
                    && bytes_of(other) != bytes_of("if"@) && bytes_of(other) != bytes_of("unless"@)
                    ==> r.spec_block_helper(other) is None,
            forall|other: Seq<char>|
                bytes_of(other) != bytes_of("lookup"@) && bytes_of(other) != bytes_of("log"@)
                    && bytes_of(other) != bytes_of("json"@) && bytes_of(other) != bytes_of("and"@)
                    && bytes_of(other) != bytes_of("or"@) && bytes_of(other) != bytes_of("not"@)
                    && bytes_of(other) != bytes_of("eq"@) && bytes_of(other) != bytes_of("ne"@)
                    ==> r.helpers.spec_get(other) is None,
    {
        let mut reg = Registry {
            templates: Table::new(),
            helpers: HelperRegistry::new(),
            block_helpers: Table::new(),
            escape: Escaper::Html,
        };
        proof {
            assert forall|other: Seq<char>| reg.spec_block_helper(other) is None by {
                reveal_with_fuel(crate::table::find, 2);
            }
        }
        reg.builtins();
        proof {
            lemma_html_keeps_text(reg);
        }
        reg
    }

    /// Adds the built-in block helpers `with`, `each`, `if` and `unless`.
    pub fn builtins(&mut self)
        ensures
            old(self).unique() ==> final(self).unique(),
            final(self).spec_block_helper("with"@) == Some(BlockKind::<B>::With),
            final(self).spec_block_helper("each"@) == Some(BlockKind::<B>::Each),
            final(self).spec_block_helper("if"@) == Some(BlockKind::<B>::If),
            final(self).spec_block_helper("unless"@) == Some(BlockKind::<B>::Unless),
            forall|other: Seq<char>|
                bytes_of(other) != bytes_of("with"@) && bytes_of(other) != bytes_of("each"@)
                    && bytes_of(other) != bytes_of("if"@) && bytes_of(other) != bytes_of("unless"@)
                    ==> final(self).spec_block_helper(other) == old(self).spec_block_helper(other),
            final(self).templates == old(self).templates,
            final(self).helpers == old(self).helpers,
            final(self).escape == old(self).escape,
    {
        proof {
            lemma_block_names();
        }
        self.register_block_helper("with", BlockKind::With);
        self.register_block_helper("each", BlockKind::Each);
        self.register_block_helper("if", BlockKind::If);
        self.register_block_helper("unless", BlockKind::Unless);
    }

    /// Sets the escape function.
    pub fn set_escape(&mut self, escape: E)
        ensures
            final(self).escape == Escaper::Custom(escape),
            final(self).templates == old(self).templates,
            final(self).helpers == old(self).helpers,
            final(self).block_helpers == old(self).block_helpers,
    {
        self.escape = Escaper::Custom(escape);
    }

    /// The escape function.
    pub fn escape(&self) -> (r: &Escaper<E>)
        ensures
            *r == self.escape,
    {
        &self.escape
    }

    /// Registers a helper of the registry's own under a name, in place of
    /// any helper that was there.
    pub fn register_helper(&mut self, name: &str, helper: H)
        ensures
            old(self).unique() ==> final(self).unique(),
            final(self).helpers.spec_get(name@) == Some(ValueHelper::Custom(helper)),
            forall|other: Seq<char>|
                bytes_of(other) != bytes_of(name@) ==> final(self).helpers.spec_get(other) == old(
                    self,
                ).helpers.spec_get(other),
            final(self).templates == old(self).templates,
            final(self).block_helpers == old(self).block_helpers,
            final(self).escape == old(self).escape,
    {
        self.helpers.insert(name, ValueHelper::Custom(helper));
    }

    /// Registers a block helper under a name, in place of any that was there.
    pub fn register_block_helper(&mut self, name: &str, helper: BlockKind<B>)
        ensures
            old(self).unique() ==> final(self).unique(),
            final(self).spec_block_helper(name@) == Some(helper),
            forall|other: Seq<char>|
                bytes_of(other) != bytes_of(name@) ==> final(self).spec_block_helper(other) == old(
                    self,
                ).spec_block_helper(other),
            final(self).templates == old(self).templates,
            final(self).helpers == old(self).helpers,
            final(self).escape == old(self).escape,
    {
        let owned = name.to_owned();
        assert(bytes_of(owned@) == bytes_of(name@));
        let _ = self.block_helpers.insert(owned, helper);
    }

    /// The helpers that give values.
    pub fn helpers(&self) -> (r: &HelperRegistry<H>)
        ensures
            *r == self.helpers,
    {
        &self.helpers
    }

    /// The helper of that name.
    pub fn get_helper(&self, name: &str) -> (r: Option<&ValueHelper<H>>)
        ensures
            match self.helpers.spec_get(name@) {
                Some(h) => r == Some(&h),
                None => r is None,
            },
    {
        self.helpers.get(name)
    }

    /// The block helper of that name.
    pub fn get_block_helper(&self, name: &str) -> (r: Option<&BlockKind<B>>)
        ensures
            match self.spec_block_helper(name@) {
                Some(h) => r == Some(&h),
                None => r is None,
            },
    {
        self.block_helpers.get(str_bytes(name))
    }

    /// Compiles a source.
    pub fn compile(source: &str, options: ParserOptions) -> (r: Result<Template, Error>)
        ensures
            match document(options.file_name@, options.line_offset, bytes_of(source@)) {
                Ok(n) => r matches Ok(t) && t.node@ == n && t.source@ == bytes_of(source@),
                Err(e) => r matches Err(Error::Syntax(x)) && x@ == e,
            },
    {
        match Template::compile(source, options) {
            Ok(t) => Ok(t),
            Err(e) => Err(Error::Syntax(e)),
        }
    }

    /// The templates.
    pub fn templates(&self) -> (r: &Table<Template>)
        ensures
            *r == self.templates,
    {
        &self.templates
    }

    /// Registers a template under a name, in place of any that was there.
    /// With a template that is text, the templates stay text.
    pub fn register_template(&mut self, name: &str, template: Template)
        ensures
            old(self).unique() ==> final(self).unique(),
            final(self).spec_template(name@) == Some(template),
            is_text(template) && text_templates(*old(self)) ==> text_templates(*final(self)),
            forall|other: Seq<char>|
                bytes_of(other) != bytes_of(name@) ==> final(self).spec_template(other) == old(
                    self,
                ).spec_template(other),
            final(self).helpers == old(self).helpers,
            final(self).block_helpers == old(self).block_helpers,
            final(self).escape == old(self).escape,
    {
        let owned = name.to_owned();
        assert(bytes_of(owned@) == bytes_of(name@));
        let ghost before = self.templates.entries@;
        let _ = self.templates.insert(owned, template);
        proof {
            crate::table::lemma_find_bounds(before, bytes_of(owned@), 0);
            if is_text(template) && text_templates(*old(self)) {
                assert forall|i: int| 0 <= i < self.templates.entries@.len() implies is_text(
                    (#[trigger] self.templates.entries@[i]).1,
                ) by {
                    if i < before.len() && self.templates.entries@[i] == before[i] {
                        assert(is_text(before[i].1));
                    }
                }
            }
        }
    }

    /// Takes the template of that name out of the registry, and hands it
    /// back. Afterwards there is no template of that name.
    pub fn unregister_template(&mut self, name: &str) -> (r: Option<Template>)
        ensures
            r == old(self).spec_template(name@),
            final(self).spec_template(name@) is None,
            old(self).unique() ==> final(self).unique(),
            text_templates(*old(self)) ==> text_templates(*final(self)),
            forall|other: Seq<char>|
                bytes_of(other) != bytes_of(name@) ==> final(self).spec_template(other) == old(
                    self,
                ).spec_template(other),
            final(self).helpers == old(self).helpers,
            final(self).block_helpers == old(self).block_helpers,
            final(self).escape == old(self).escape,
    {
        let ghost before = self.templates.entries@;
        let r = self.templates.remove(str_bytes(name));
        proof {
            if text_templates(*old(self)) {
                assert forall|i: int| 0 <= i < self.templates.entries@.len() implies is_text(
                    (#[trigger] self.templates.entries@[i]).1,
                ) by {
                    let x = self.templates.entries@[i];
                    assert(before.contains(x));
                    let j = choose|j: int| 0 <= j < before.len() && before[j] == x;
                    assert(is_text(before[j].1));
                }
            }
        }
        r
    }

    /// The template of that name.
    pub fn get_template(&self, name: &str) -> (r: Result<&Template, Error>)
        ensures
            match self.spec_template(name@) {
                Some(t) => r == Ok::<&Template, Error>(&t),
                None => r matches Err(Error::Render(e)) && e@ == RenderErrorView::TemplateNotFound(
                    name@,
                ),
            },
    {
        match self.templates.get(str_bytes(name)) {
            Some(t) => Ok(t),
            None => Err(Error::Render(RenderError::TemplateNotFound(name.to_owned()))),
        }
    }

    /// Compiles a source and registers the template under a name.
    pub fn register_template_string(&mut self, name: &str, source: &str, options: ParserOptions) -> (r:
        Result<(), Error>)
        ensures
            old(self).unique() ==> final(self).unique(),
            match document(options.file_name@, options.line_offset, bytes_of(source@)) {
                Ok(n) => r is Ok && (final(self).spec_template(name@) matches Some(t) && t.node@ == n
                    && t.source@ == bytes_of(source@)),
                Err(e) => (r matches Err(Error::Syntax(x)) && x@ == e) && final(self).templates
                    == old(self).templates,
            },
            text_templates(*old(self)) ==> text_templates(*final(self)),
            final(self).helpers == old(self).helpers,
            final(self).block_helpers == old(self).block_helpers,
            final(self).escape == old(self).escape,
    {
        match Template::compile(source, options) {
            Err(e) => Err(Error::Syntax(e)),
            Ok(t) => {
                self.register_template(name, t);
                Ok(())
            },
        }
    }

    /// Renders a template against data, and adds what it gives to `out`.
    /// Where rendering fails, `out` holds what was rendered before the
    /// error and nothing more.
    pub fn render_template(&self, template: &Template, data: &Json, out: &mut Vec<u8>) -> (r: Result<
        (),
        RenderError,
    >)
        ensures
            match rendered(*self, *template, data@) {
                Ok(b) => r is Ok && final(out)@ == old(out)@ + b,
                Err(e) => r matches Err(x) && x@ == e && final(out)@ == old(out)@ + output(
                    *self,
                    *template,
                    data@,
                ),
            },
    {
        let mut scopes: Vec<Scope> = Vec::new();
        assert(scope_views(scopes@) =~= Seq::empty());
        crate::render::node(
            self,
            template.source.as_slice(),
            data,
            &mut scopes,
            out,
            &template.node,
            false,
            false,
            PARTIAL_DEPTH,
        )
    }

    /// Renders the template of a name against data, and adds what it
    /// gives to `out`. Where there is no template of the name, `out` stays
    /// as it is; where rendering fails, `out` holds what was rendered
    /// before the error and nothing more.
    pub fn render_to_write(&self, name: &str, data: &Json, out: &mut Vec<u8>) -> (r: Result<
        (),
        RenderError,
    >)
        ensures
            match rendered_by_name(*self, name@, data@) {
                Ok(b) => r is Ok && final(out)@ == old(out)@ + b,
                Err(e) => r matches Err(x) && x@ == e && final(out)@ == old(out)@ + output_by_name(
                    *self,
                    name@,
                    data@,
                ),
            },
            self.spec_template(name@) is None ==> final(out)@ == old(out)@,
    {
        assert(out@ =~= old(out)@ + Seq::<u8>::empty());
        match self.templates.get(str_bytes(name)) {
            None => Err(RenderError::TemplateNotFound(name.to_owned())),
            Some(t) => self.render_template(t, data, out),
        }
    }

    /// Renders the template of a name against data, to text. Where the
    /// templates of the registry are text and its escape function gives
    /// text for text, this fails only where rendering fails.
    pub fn render(&self, name: &str, data: &Json) -> (r: Result<String, RenderError>)
        ensures
            match as_text(rendered_by_name(*self, name@, data@)) {
                Ok(s) => r matches Ok(t) && t@ == s,
                Err(e) => r matches Err(x) && x@ == e,
            },
            usable(*self) ==> match rendered_by_name(
                *self,
                name@,
                data@,
            ) {
                Ok(b) => r matches Ok(t) && bytes_of(t@) == b,
                Err(e) => r matches Err(x) && x@ == e,
            },
    {
        proof {
            if usable(*self) {
                lemma_rendered_is_text(*self, name@, data@);
            }
        }
        let mut out: Vec<u8> = Vec::new();
        match self.render_to_write(name, data, &mut out) {
            Err(e) => Err(e),
            Ok(()) => {
                assert(out@ =~= rendered_by_name(*self, name@, data@)->Ok_0);
                match text_from_utf8(out) {
                    Some(s) => Ok(s),
                    None => Err(RenderError::Utf8),
                }
            },
        }
    }

    /// Compiles a source and renders it against data, without registering
    /// it. Where the templates of the registry are text and its escape
    /// function gives text for text, this fails only where compiling or
    /// rendering fails.
    pub fn once(&self, file_name: &str, source: &str, data: &Json) -> (r: Result<String, Error>)
        ensures
            match document(file_name@, 0, bytes_of(source@)) {
                Err(e) => r matches Err(Error::Syntax(x)) && x@ == e,
                Ok(n) => match as_text(
                    render_node(
                        *self,
                        bytes_of(source@),
                        data@,
                        Seq::empty(),
                        n,
                        false,
                        false,
                        PARTIAL_DEPTH as nat,
                    ),
                ) {
                    Ok(s) => r matches Ok(t) && t@ == s,
                    Err(e) => r matches Err(Error::Render(x)) && x@ == e,
                },
            },
            usable(*self) ==> match document(file_name@, 0, bytes_of(source@)) {
                Err(e) => r matches Err(Error::Syntax(x)) && x@ == e,
                Ok(n) => match render_node(
                    *self,
                    bytes_of(source@),
                    data@,
                    Seq::empty(),
                    n,
                    false,
                    false,
                    PARTIAL_DEPTH as nat,
                ) {
                    Ok(b) => r matches Ok(t) && bytes_of(t@) == b,
                    Err(e) => r matches Err(Error::Render(x)) && x@ == e,
                },
            },
    {
        let options = ParserOptions::new(file_name.to_owned(), 0, 0);
        match Template::compile(source, options) {
            Err(e) => Err(Error::Syntax(e)),
            Ok(t) => match self.render_text(&t, data) {
                Ok(text) => Ok(text),
                Err(e) => Err(Error::Render(e)),
            },
        }
    }

    /// Renders a template against data, to text. With a registry that
    /// gives text and a template that is text, this fails only where
    /// rendering fails.
    pub fn render_text(&self, template: &Template, data: &Json) -> (r: Result<String, RenderError>)
        ensures
            match as_text(rendered(*self, *template, data@)) {
                Ok(s) => r matches Ok(t) && t@ == s,
                Err(e) => r matches Err(x) && x@ == e,
            },
            usable(*self) && is_text(*template) ==> match rendered(*self, *template, data@) {
                Ok(b) => r matches Ok(t) && bytes_of(t@) == b,
                Err(e) => r matches Err(x) && x@ == e,
            },
    {
        proof {
            lemma_once_is_text(*self, *template, data@);
        }
        let mut out: Vec<u8> = Vec::new();
        match self.render_template(template, data, &mut out) {
            Err(e) => Err(e),
            Ok(()) => {
                assert(out@ =~= rendered(*self, *template, data@)->Ok_0);
                match text_from_utf8(out) {
                    Some(s) => Ok(s),
                    None => Err(RenderError::Utf8),
                }
            },
        }
    }
}

} // verus!
