//! Helpers: functions that a template calls by name.
pub mod logical;
pub mod log;
pub mod lookup;
pub mod with;

use vstd::prelude::*;
use crate::error::helper::{HelperError, HelperErrorView};
use crate::json::{Json, JsonView};
use crate::render::context::{Context, ContextView};
use crate::render::scope::{scope_views, Scope, ScopeView};
use crate::table::{lookup, Table};
use crate::text::{bytes_of, lemma_ascii_bytes};

verus! {

/// What a helper gives: a value, or none.
pub type HelperValue = Result<Option<Json>, HelperError>;

/// What a block helper gives: the scopes in which the nodes of the block
/// are to be rendered, one after the other.
pub type HelperPlan = Result<Vec<Scope>, HelperError>;

/// The value of what a helper gives.
pub open spec fn value_view(r: HelperValue) -> Result<Option<JsonView>, HelperErrorView> {
    match r {
        Ok(Some(v)) => Ok(Some(v@)),
        Ok(None) => Ok(None),
        Err(e) => Err(e@),
    }
}

/// The value of what a block helper gives.
pub open spec fn plan_view(r: HelperPlan) -> Result<Seq<ScopeView>, HelperErrorView> {
    match r {
        Ok(scopes) => Ok(scope_views(scopes@)),
        Err(e) => Err(e@),
    }
}

/// A helper that is called in a statement or a sub-expression and gives a
/// value. What it gives depends on nothing but the call.
pub trait Helper {
    /// What the helper gives for a call. Where a helper does not say, it
    /// is some function of the call.
    open spec fn result(&self, ctx: ContextView) -> Result<Option<JsonView>, HelperErrorView> {
        arbitrary()
    }

    fn call(&self, ctx: &Context) -> (r: HelperValue)
        ensures
            value_view(r) == self.result(ctx@),
    ;
}

/// A helper that is called by a block. It decides how often, and in which
/// scopes, the nodes of the block are rendered; the engine renders them,
/// pushing each scope before and popping it after.
pub trait BlockHelper {
    /// The scopes that the helper gives for a call. Where a helper does
    /// not say, they are some function of the call.
    open spec fn plan(&self, ctx: ContextView) -> Result<Seq<ScopeView>, HelperErrorView> {
        arbitrary()
    }

    fn call(&self, ctx: &Context) -> (r: HelperPlan)
        ensures
            plan_view(r) == self.plan(ctx@),
    ;
}

/// The type of the helpers of a registry that has none of its own.
#[derive(Clone, Copy, Debug)]
pub struct NoHelper;

impl Helper for NoHelper {
    open spec fn result(&self, ctx: ContextView) -> Result<Option<JsonView>, HelperErrorView> {
        Ok(None)
    }

    fn call(&self, ctx: &Context) -> (r: HelperValue) {
        Ok(None)
    }
}

impl BlockHelper for NoHelper {
    open spec fn plan(&self, ctx: ContextView) -> Result<Seq<ScopeView>, HelperErrorView> {
        Ok(Seq::empty())
    }

    fn call(&self, ctx: &Context) -> (r: HelperPlan) {
        let r: Vec<Scope> = Vec::new();
        assert(scope_views(r@) =~= Seq::empty());
        Ok(r)
    }
}

/// A helper that gives a value: one of those that are built in, or one
/// of the registry's own.
#[derive(Debug)]
pub enum ValueHelper<H> {
    Lookup,
    Log,
    Json,
    And,
    Or,
    Not,
    Equal,
    NotEqual,
    Custom(H),
}

/// A helper that is called by a block: one of those that are built in, or
/// one of the registry's own.
#[derive(Debug)]
pub enum BlockKind<B> {
    With,
    Each,
    If,
    Unless,
    Custom(B),
}

impl<H: Helper> Helper for ValueHelper<H> {
    open spec fn result(&self, ctx: ContextView) -> Result<Option<JsonView>, HelperErrorView> {
        match self {
            ValueHelper::Lookup => lookup::LookupHelper.result(ctx),
            ValueHelper::Log => log::LogHelper.result(ctx),
            ValueHelper::Json => log::JsonHelper.result(ctx),
            ValueHelper::And => logical::And.result(ctx),
            ValueHelper::Or => logical::Or.result(ctx),
            ValueHelper::Not => logical::Not.result(ctx),
            ValueHelper::Equal => logical::Equal.result(ctx),
            ValueHelper::NotEqual => logical::NotEqual.result(ctx),
            ValueHelper::Custom(h) => h.result(ctx),
        }
    }

    fn call(&self, ctx: &Context) -> (r: HelperValue) {
        match self {
            ValueHelper::Lookup => lookup::LookupHelper.call(ctx),
            ValueHelper::Log => log::LogHelper.call(ctx),
            ValueHelper::Json => log::JsonHelper.call(ctx),
            ValueHelper::And => logical::And.call(ctx),
            ValueHelper::Or => logical::Or.call(ctx),
            ValueHelper::Not => logical::Not.call(ctx),
            ValueHelper::Equal => logical::Equal.call(ctx),
            ValueHelper::NotEqual => logical::NotEqual.call(ctx),
            ValueHelper::Custom(h) => h.call(ctx),
        }
    }
}

impl<B: BlockHelper> BlockHelper for BlockKind<B> {
    open spec fn plan(&self, ctx: ContextView) -> Result<Seq<ScopeView>, HelperErrorView> {
        match self {
            BlockKind::With => with::With.plan(ctx),
            BlockKind::Each => with::Each.plan(ctx),
            BlockKind::If => with::If.plan(ctx),
            BlockKind::Unless => with::Unless.plan(ctx),
            BlockKind::Custom(h) => h.plan(ctx),
        }
    }

    fn call(&self, ctx: &Context) -> (r: HelperPlan) {
        match self {
            BlockKind::With => with::With.call(ctx),
            BlockKind::Each => with::Each.call(ctx),
            BlockKind::If => with::If.call(ctx),
            BlockKind::Unless => with::Unless.call(ctx),
            BlockKind::Custom(h) => h.call(ctx),
        }
    }
}

/// The helpers that give values, by name.
pub struct HelperRegistry<H> {
    pub helpers: Table<ValueHelper<H>>,
}

impl<H: Helper> HelperRegistry<H> {
    /// The built-in helpers `lookup`, `log`, `json`, `and`, `or`, `not`,
    /// `eq` and `ne`, and no other.
    pub fn new() -> (r: Self)
        ensures
            r.spec_get("lookup"@) == Some(ValueHelper::<H>::Lookup),
            r.spec_get("log"@) == Some(ValueHelper::<H>::Log),
            r.spec_get("json"@) == Some(ValueHelper::<H>::Json),
            r.spec_get("and"@) == Some(ValueHelper::<H>::And),
            r.spec_get("or"@) == Some(ValueHelper::<H>::Or),
            r.spec_get("not"@) == Some(ValueHelper::<H>::Not),
            r.spec_get("eq"@) == Some(ValueHelper::<H>::Equal),
            r.spec_get("ne"@) == Some(ValueHelper::<H>::NotEqual),
            forall|other: Seq<char>|
                bytes_of(other) != bytes_of("lookup"@) && bytes_of(other) != bytes_of("log"@)
                    && bytes_of(other) != bytes_of("json"@) && bytes_of(other) != bytes_of("and"@)
                    && bytes_of(other) != bytes_of("or"@) && bytes_of(other) != bytes_of("not"@)
                    && bytes_of(other) != bytes_of("eq"@) && bytes_of(other) != bytes_of("ne"@)
                    ==> r.spec_get(other) is None,
            r.unique(),
    {
        let mut r = HelperRegistry { helpers: Table::new() };
        proof {
            assert forall|other: Seq<char>| r.spec_get(other) is None by {
                reveal_with_fuel(crate::table::find, 2);
            }
        }
        r.builtins();
        r
    }

    /// The helper of that name, if there is one.
    pub open spec fn spec_get(&self, name: Seq<char>) -> Option<ValueHelper<H>> {
        lookup(self.helpers.entries@, bytes_of(name))
    }

    /// Whether each name has one helper and no more.
    pub open spec fn unique(&self) -> bool {
        crate::table::distinct(self.helpers.entries@)
    }

    /// Adds the built-in helpers.
    pub fn builtins(&mut self)
        ensures
            old(self).unique() ==> final(self).unique(),
            final(self).spec_get("lookup"@) == Some(ValueHelper::<H>::Lookup),
            final(self).spec_get("log"@) == Some(ValueHelper::<H>::Log),
            final(self).spec_get("json"@) == Some(ValueHelper::<H>::Json),
            final(self).spec_get("and"@) == Some(ValueHelper::<H>::And),
            final(self).spec_get("or"@) == Some(ValueHelper::<H>::Or),
            final(self).spec_get("not"@) == Some(ValueHelper::<H>::Not),
            final(self).spec_get("eq"@) == Some(ValueHelper::<H>::Equal),
            final(self).spec_get("ne"@) == Some(ValueHelper::<H>::NotEqual),
            forall|other: Seq<char>|
                bytes_of(other) != bytes_of("lookup"@) && bytes_of(other) != bytes_of("log"@)
                    && bytes_of(other) != bytes_of("json"@) && bytes_of(other) != bytes_of("and"@)
                    && bytes_of(other) != bytes_of("or"@) && bytes_of(other) != bytes_of("not"@)
                    && bytes_of(other) != bytes_of("eq"@) && bytes_of(other) != bytes_of("ne"@)
                    ==> final(self).spec_get(other) == old(self).spec_get(other),
    {
        proof {
            lemma_builtin_names();
        }
        self.insert("lookup", ValueHelper::Lookup);
        self.insert("log", ValueHelper::Log);
        self.insert("json", ValueHelper::Json);
        self.insert("and", ValueHelper::And);
        self.insert("or", ValueHelper::Or);
        self.insert("not", ValueHelper::Not);
        self.insert("eq", ValueHelper::Equal);
        self.insert("ne", ValueHelper::NotEqual);
    }

    /// Puts a helper under a name, in place of any that was there.
    pub fn insert(&mut self, name: &str, helper: ValueHelper<H>)
        ensures
            final(self).spec_get(name@) == Some(helper),
            old(self).unique() ==> final(self).unique(),
            forall|other: Seq<char>|
                bytes_of(other) != bytes_of(name@) ==> final(self).spec_get(other) == old(
                    self,
                ).spec_get(other),
    {
        let owned = name.to_owned();
        assert(bytes_of(owned@) == bytes_of(name@));
        let _ = self.helpers.insert(owned, helper);
    }

    /// Takes the helper of that name away, and hands it back. Afterwards
    /// there is no helper of that name.
    pub fn remove(&mut self, name: &str) -> (r: Option<ValueHelper<H>>)
        ensures
            r == old(self).spec_get(name@),
            final(self).spec_get(name@) is None,
            old(self).unique() ==> final(self).unique(),
            forall|other: Seq<char>|
                bytes_of(other) != bytes_of(name@) ==> final(self).spec_get(other) == old(
                    self,
                ).spec_get(other),
    {
        self.helpers.remove(crate::text::str_bytes(name))
    }

    /// The helper of that name.
    pub fn get(&self, name: &str) -> (r: Option<&ValueHelper<H>>)
        ensures
            match self.spec_get(name@) {
                Some(h) => r == Some(&h),
                None => r is None,
            },
    {
        self.helpers.get(crate::text::str_bytes(name))
    }
}

/// The names of the built-in helpers differ from one another.
proof fn lemma_builtin_names()
    ensures
        bytes_of("lookup"@) != bytes_of("log"@),
        bytes_of("lookup"@) != bytes_of("json"@),
        bytes_of("lookup"@) != bytes_of("and"@),
        bytes_of("lookup"@) != bytes_of("or"@),
        bytes_of("lookup"@) != bytes_of("not"@),
        bytes_of("lookup"@) != bytes_of("eq"@),
        bytes_of("lookup"@) != bytes_of("ne"@),
        bytes_of("log"@) != bytes_of("json"@),
        bytes_of("log"@) != bytes_of("and"@),
        bytes_of("log"@) != bytes_of("or"@),
        bytes_of("log"@) != bytes_of("not"@),
        bytes_of("log"@) != bytes_of("eq"@),
        bytes_of("log"@) != bytes_of("ne"@),
        bytes_of("json"@) != bytes_of("and"@),
        bytes_of("json"@) != bytes_of("or"@),
        bytes_of("json"@) != bytes_of("not"@),
        bytes_of("json"@) != bytes_of("eq"@),
        bytes_of("json"@) != bytes_of("ne"@),
        bytes_of("and"@) != bytes_of("or"@),
        bytes_of("and"@) != bytes_of("not"@),
        bytes_of("and"@) != bytes_of("eq"@),
        bytes_of("and"@) != bytes_of("ne"@),
        bytes_of("or"@) != bytes_of("not"@),
        bytes_of("or"@) != bytes_of("eq"@),
        bytes_of("or"@) != bytes_of("ne"@),
        bytes_of("not"@) != bytes_of("eq"@),
        bytes_of("not"@) != bytes_of("ne"@),
        bytes_of("eq"@) != bytes_of("ne"@),
{
    reveal_strlit("lookup");
    reveal_strlit("log");
    reveal_strlit("json");
    reveal_strlit("and");
    reveal_strlit("or");
    reveal_strlit("not");
    reveal_strlit("eq");
    reveal_strlit("ne");
    lemma_ascii_bytes("lookup"@);
    lemma_ascii_bytes("log"@);
    lemma_ascii_bytes("json"@);
    lemma_ascii_bytes("and"@);
    lemma_ascii_bytes("or"@);
    lemma_ascii_bytes("not"@);
    lemma_ascii_bytes("eq"@);
    lemma_ascii_bytes("ne"@);
    assert(bytes_of("lookup"@)[0] == 0x6c);
    assert(bytes_of("lookup"@)[1] == 0x6f);
    assert(bytes_of("lookup"@)[2] == 0x6f);
    assert(bytes_of("lookup"@).len() == 6);
    assert(bytes_of("log"@)[0] == 0x6c);
    assert(bytes_of("log"@)[1] == 0x6f);
    assert(bytes_of("log"@)[2] == 0x67);
    assert(bytes_of("log"@).len() == 3);
    assert(bytes_of("json"@)[0] == 0x6a);
    assert(bytes_of("json"@)[1] == 0x73);
    assert(bytes_of("json"@)[2] == 0x6f);
    assert(bytes_of("json"@).len() == 4);
    assert(bytes_of("and"@)[0] == 0x61);
    assert(bytes_of("and"@)[1] == 0x6e);
    assert(bytes_of("and"@)[2] == 0x64);
    assert(bytes_of("and"@).len() == 3);
    assert(bytes_of("or"@)[0] == 0x6f);
    assert(bytes_of("or"@)[1] == 0x72);
    assert(bytes_of("or"@).len() == 2);
    assert(bytes_of("not"@)[0] == 0x6e);
    assert(bytes_of("not"@)[1] == 0x6f);
    assert(bytes_of("not"@)[2] == 0x74);
    assert(bytes_of("not"@).len() == 3);
    assert(bytes_of("eq"@)[0] == 0x65);
    assert(bytes_of("eq"@)[1] == 0x71);
    assert(bytes_of("eq"@).len() == 2);
    assert(bytes_of("ne"@)[0] == 0x6e);
    assert(bytes_of("ne"@)[1] == 0x65);
    assert(bytes_of("ne"@).len() == 2);
}

} // verus!
