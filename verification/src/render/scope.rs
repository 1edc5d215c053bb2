//! Scopes: what a block makes visible to the nodes inside it.
use vstd::prelude::*;
use crate::json::{entry_views, lemma_entry_views, Json, JsonView};
use crate::text::{bytes_eq, bytes_of, str_bytes};

verus! {

/// A frame of the scope stack: the value that paths are resolved against,
/// if the frame sets one, and local variables. The name of a local
/// variable starts with `@`. The locals stand in the order in which they
/// were set, and a name finds the one that was set last.
#[derive(Debug, PartialEq, Eq)]
pub struct Scope {
    pub value: Option<Json>,
    pub locals: Vec<(String, Json)>,
}

/// The value of a [`Scope`].
pub ghost struct ScopeView {
    pub value: Option<JsonView>,
    pub locals: Seq<(Seq<char>, JsonView)>,
}

impl View for Scope {
    type V = ScopeView;

    open spec fn view(&self) -> ScopeView {
        ScopeView {
            value: match self.value {
                Some(v) => Some(v@),
                None => None,
            },
            locals: entry_views(self.locals@),
        }
    }
}

/// The values of a list of scopes.
pub open spec fn scope_views(s: Seq<Scope>) -> Seq<ScopeView> {
    Seq::new(s.len(), |i: int| s[i]@)
}

/// The local variable of that name, by the last entry that sets it.
pub open spec fn local(locals: Seq<(Seq<char>, JsonView)>, name: Seq<u8>, upto: int) -> Option<
    JsonView,
>
    decreases upto,
{
    if upto <= 0 || upto > locals.len() {
        None
    } else if bytes_of(locals[upto - 1].0) == name {
        Some(locals[upto - 1].1)
    } else {
        local(locals, name, upto - 1)
    }
}

/// A search below `upto` sees only the entries below `upto`.
pub proof fn lemma_local_prefix(
    a: Seq<(Seq<char>, JsonView)>,
    b: Seq<(Seq<char>, JsonView)>,
    name: Seq<u8>,
    upto: int,
)
    requires
        upto <= a.len(),
        upto <= b.len(),
        forall|i: int| 0 <= i < upto ==> a[i] == b[i],
    ensures
        local(a, name, upto) == local(b, name, upto),
    decreases upto,
{
    reveal_with_fuel(local, 2);
    if upto > 0 {
        lemma_local_prefix(a, b, name, upto - 1);
    }
}

impl Scope {
    /// A scope that sets nothing.
    pub fn new() -> (r: Self)
        ensures
            r@ == (ScopeView { value: None, locals: Seq::empty() }),
    {
        let r = Scope { value: None, locals: Vec::new() };
        assert(entry_views(r.locals@) =~= Seq::empty());
        r
    }

    /// Sets the local variable `@name`: from now on the name finds this
    /// value, and every other name what it found before.
    pub fn set_local(&mut self, name: &str, value: Json)
        ensures
            final(self)@ == (ScopeView {
                locals: old(self)@.locals.push((seq!['@'] + name@, value@)),
                ..old(self)@
            }),
            forall|other: Seq<u8>| #[trigger]
                local(final(self)@.locals, other, final(self)@.locals.len() as int) == if other
                    == bytes_of(seq!['@'] + name@) {
                    Some(value@)
                } else {
                    local(old(self)@.locals, other, old(self)@.locals.len() as int)
                },
    {
        proof {
            reveal_with_fuel(local, 2);
            let before = old(self)@.locals;
            let after = before.push((seq!['@'] + name@, value@));
            assert(after.drop_last() =~= before);
            assert forall|other: Seq<u8>| #[trigger]
                local(after, other, after.len() as int) == if other == bytes_of(
                    seq!['@'] + name@,
                ) {
                    Some(value@)
                } else {
                    local(before, other, before.len() as int)
                } by {
                lemma_local_prefix(before, after, other, before.len() as int);
            }
        }
        let mut key = "@".to_owned();
        proof {
            reveal_strlit("@");
            assert("@"@ =~= seq!['@']);
        }
        vstd::string::StringExecFns::append(&mut key, name);
        proof {
            crate::json::lemma_entry_views_push(self.locals@, (key, value));
        }
        self.locals.push((key, value));
    }

    /// Sets the value that paths are resolved against.
    pub fn set_base_value(&mut self, value: Json)
        ensures
            final(self)@ == (ScopeView { value: Some(value@), ..old(self)@ }),
    {
        self.value = Some(value);
    }

    /// The value that paths are resolved against, if the scope sets one.
    pub fn base_value(&self) -> (r: &Option<Json>)
        ensures
            *r == self.value,
    {
        &self.value
    }

    /// The local variable of that name, `@` included.
    pub fn get_local<'a>(&'a self, name: &[u8]) -> (r: Option<&'a Json>)
        ensures
            match local(self@.locals, name@, self@.locals.len() as int) {
                Some(v) => r matches Some(w) && w@ == v,
                None => r is None,
            },
    {
        proof {
            lemma_entry_views(self.locals@);
        }
        let ghost lv = entry_views(self.locals@);
        let mut i: usize = self.locals.len();
        while i > 0
            invariant
                i <= self.locals.len(),
                lv == entry_views(self.locals@),
                lv.len() == self.locals.len(),
                local(lv, name@, lv.len() as int) == local(lv, name@, i as int),
            decreases i,
        {
            proof {
                lemma_entry_views(self.locals@);
                reveal_with_fuel(local, 2);
            }
            let e = &self.locals[i - 1];
            if bytes_eq(str_bytes(e.0.as_str()), name) {
                return Some(&e.1);
            }
            i -= 1;
        }
        proof {
            reveal_with_fuel(local, 2);
        }
        None
    }

    /// A deep copy.
    pub fn copy(&self) -> (r: Scope)
        ensures
            r@ == self@,
    {
        Scope {
            value: match &self.value {
                Some(v) => Some(v.copy()),
                None => None,
            },
            locals: crate::json::copy_entries(&self.locals),
        }
    }
}

} // verus!
