//! The data model that templates are rendered against.
use vstd::prelude::*;
use crate::text::{append, bytes_eq, bytes_of, str_bytes};

verus! {

/// A JSON document. A number is held as its canonical decimal text, an
/// object as its entries in order. A document is well formed
/// ([`well_formed`], tested by [`Json::is_well_formed`]) where each key of
/// an object occurs once and each number is spelled as JSON spells
/// numbers; the parts of such a document are well formed too. Where a key
/// occurs more than once, its last entry counts, in a lookup as in the
/// JSON text.
#[derive(Debug, PartialEq, Eq)]
pub enum Json {
    Null,
    Bool(bool),
    Number(String),
    String(String),
    Array(Vec<Json>),
    Object(Vec<(String, Json)>),
}

/// The mathematical value of a [`Json`].
pub ghost enum JsonView {
    Null,
    Bool(bool),
    Number(Seq<char>),
    String(Seq<char>),
    Array(Seq<JsonView>),
    Object(Seq<(Seq<char>, JsonView)>),
}

impl View for Json {
    type V = JsonView;

    open spec fn view(&self) -> JsonView
        decreases self,
    {
        match self {
            Json::Null => JsonView::Null,
            Json::Bool(b) => JsonView::Bool(*b),
            Json::Number(n) => JsonView::Number(n@),
            Json::String(s) => JsonView::String(s@),
            Json::Array(items) => JsonView::Array(views(items@)),
            Json::Object(entries) => JsonView::Object(entry_views(entries@)),
        }
    }
}

/// The values of a list of documents.
pub open spec fn views(items: Seq<Json>) -> Seq<JsonView>
    decreases items,
{
    if items.len() == 0 {
        Seq::empty()
    } else {
        views(items.drop_last()).push(items.last().view())
    }
}

/// The keys and values of a list of named documents.
pub open spec fn entry_views(entries: Seq<(String, Json)>) -> Seq<(Seq<char>, JsonView)>
    decreases entries,
{
    if entries.len() == 0 {
        Seq::empty()
    } else {
        entry_views(entries.drop_last()).push((entries.last().0@, entries.last().1.view()))
    }
}

/// `views` works element by element.
pub proof fn lemma_views(items: Seq<Json>)
    ensures
        views(items).len() == items.len(),
        forall|i: int| 0 <= i < items.len() ==> (#[trigger] views(items)[i]) == items[i]@,
    decreases items.len(),
{
    if items.len() > 0 {
        lemma_views(items.drop_last());
        assert(views(items) == views(items.drop_last()).push(items.last().view()));
    } else {
        assert(views(items) == Seq::<JsonView>::empty());
    }
}

/// `entry_views` works entry by entry.
pub proof fn lemma_entry_views(entries: Seq<(String, Json)>)
    ensures
        entry_views(entries).len() == entries.len(),
        forall|i: int|
            0 <= i < entries.len() ==> (#[trigger] entry_views(entries)[i]) == (
                entries[i].0@,
                entries[i].1@,
            ),
    decreases entries.len(),
{
    if entries.len() > 0 {
        lemma_entry_views(entries.drop_last());
        assert(entry_views(entries) == entry_views(entries.drop_last()).push(
            (entries.last().0@, entries.last().1.view()),
        ));
    } else {
        assert(entry_views(entries) == Seq::<(Seq<char>, JsonView)>::empty());
    }
}

/// `entry_views` of a list with one more entry.
pub proof fn lemma_entry_views_push(entries: Seq<(String, Json)>, x: (String, Json))
    ensures
        entry_views(entries.push(x)) == entry_views(entries).push((x.0@, x.1@)),
{
    assert(entries.push(x).drop_last() =~= entries);
    assert(entries.push(x).last() == x);
    assert(entry_views(entries.push(x)) == entry_views(entries.push(x).drop_last()).push(
        (x.0@, x.1.view()),
    ));
}

/// `views` of a list with one more document.
pub proof fn lemma_views_push(items: Seq<Json>, x: Json)
    ensures
        views(items.push(x)) == views(items).push(x@),
{
    assert(items.push(x).drop_last() =~= items);
    assert(items.push(x).last() == x);
    assert(views(items.push(x)) == views(items.push(x).drop_last()).push(x.view()));
}

/// Whether a decimal text denotes a number other than zero: some digit of
/// its mantissa, the part before any exponent, is not `0`.
pub open spec fn nonzero_number(text: Seq<u8>) -> bool {
    exists|i: int|
        0 <= i < text.len() && 0x31 <= #[trigger] text[i] <= 0x39 && forall|k: int|
            0 <= k < i ==> text[k] != 0x65 && text[k] != 0x45
}

/// Truthiness: `null`, `false`, zero and the empty string are falsy; every
/// array and object is truthy.
pub open spec fn truthy(v: JsonView) -> bool {
    match v {
        JsonView::Null => false,
        JsonView::Bool(b) => b,
        JsonView::Number(n) => nonzero_number(bytes_of(n)),
        JsonView::String(s) => bytes_of(s).len() > 0,
        JsonView::Array(_) => true,
        JsonView::Object(_) => true,
    }
}

/// The index of the last entry of `entries` below `upto` whose key has
/// the bytes `key`; -1 if there is none.
pub open spec fn find_key(entries: Seq<(Seq<char>, JsonView)>, key: Seq<u8>, upto: int) -> int
    decreases upto,
{
    if upto <= 0 || upto > entries.len() {
        -1
    } else if bytes_of(entries[upto - 1].0) == key {
        upto - 1
    } else {
        find_key(entries, key, upto - 1)
    }
}

/// The field `key` of an object, if it has one.
pub open spec fn member(v: JsonView, key: Seq<u8>) -> Option<JsonView> {
    match v {
        JsonView::Object(entries) => {
            let i = find_key(entries, key, entries.len() as int);
            if 0 <= i < entries.len() {
                Some(entries[i].1)
            } else {
                None
            }
        },
        _ => None,
    }
}

/// The element `index` of an array, if it has one.
pub open spec fn element(v: JsonView, index: int) -> Option<JsonView> {
    match v {
        JsonView::Array(items) => if 0 <= index < items.len() {
            Some(items[index])
        } else {
            None
        },
        _ => None,
    }
}

/// What a name selects in a value: the field of that name in an object;
/// in an array the element whose index the name spells in at most nine
/// digits.
pub open spec fn field(v: JsonView, name: Seq<u8>) -> Option<JsonView> {
    match v {
        JsonView::Array(_) => if all_digits(name) && name.len() <= 9 {
            element(v, digits_value(name) as int)
        } else {
            None
        },
        _ => member(v, name),
    }
}

/// The text that a value is written as: a string as it is, a number by
/// its digits, `true` or `false`, nothing for `null`, and an array or an
/// object as JSON.
pub open spec fn text_bytes(v: JsonView) -> Seq<u8> {
    match v {
        JsonView::Null => Seq::empty(),
        JsonView::Bool(b) => if b {
            bytes_of("true"@)
        } else {
            bytes_of("false"@)
        },
        JsonView::Number(n) => bytes_of(n),
        JsonView::String(s) => bytes_of(s),
        _ => bytes_of(crate::outside::json_text(v)),
    }
}

/// Whether `s` is a non-empty run of ASCII digits.
pub open spec fn all_digits(s: Seq<u8>) -> bool {
    s.len() > 0 && forall|i: int| 0 <= i < s.len() ==> 0x30 <= #[trigger] s[i] <= 0x39
}

/// The number that a run of digits denotes.
pub open spec fn digits_value(s: Seq<u8>) -> nat
    decreases s.len(),
{
    if s.len() == 0 {
        0
    } else {
        digits_value(s.drop_last()) * 10 + (s.last() - 0x30) as nat
    }
}

impl Json {
    /// A deep copy.
    pub fn copy(&self) -> (r: Json)
        ensures
            r@ == self@,
        decreases self,
    {
        match self {
            Json::Null => Json::Null,
            Json::Bool(b) => Json::Bool(*b),
            Json::Number(n) => Json::Number(n.clone()),
            Json::String(s) => Json::String(s.clone()),
            Json::Array(items) => {
                Json::Array(copy_items(items))
            },
            Json::Object(entries) => {
                Json::Object(copy_entries(entries))
            },
        }
    }

    pub fn is_truthy(&self) -> (r: bool)
        ensures
            r == truthy(self@),
    {
        match self {
            Json::Null => false,
            Json::Bool(b) => *b,
            Json::Number(n) => is_nonzero(str_bytes(n.as_str())),
            Json::String(s) => str_bytes(s.as_str()).len() > 0,
            Json::Array(_) => true,
            Json::Object(_) => true,
        }
    }

    /// The field `key` of an object.
    pub fn get<'a>(&'a self, key: &[u8]) -> (r: Option<&'a Json>)
        ensures
            r is Some <==> member(self@, key@) is Some,
            r is Some ==> r->Some_0@ == member(self@, key@)->Some_0,
    {
        match self {
            Json::Object(entries) => entry(entries, key),
            _ => None,
        }
    }

    /// What a name selects in the value.
    pub fn field<'a>(&'a self, name: &[u8]) -> (r: Option<&'a Json>)
        ensures
            match field(self@, name@) {
                Some(v) => r matches Some(w) && w@ == v,
                None => r is None,
            },
    {
        match self {
            Json::Array(_) => match parse_index(name) {
                Some(i) => self.at(i),
                None => None,
            },
            _ => self.get(name),
        }
    }

    /// The JSON text of the value.
    pub fn to_json(&self) -> (r: String)
        ensures
            r@ == crate::outside::json_text(self@),
    {
        let outside = crate::outside::to_outside(self);
        crate::outside::text_of(&outside)
    }

    /// Writes the value as text.
    pub fn write_text(&self, out: &mut Vec<u8>)
        ensures
            final(out)@ == old(out)@ + text_bytes(self@),
    {
        match self {
            Json::Null => {
                assert(out@ =~= old(out)@ + text_bytes(self@));
            },
            Json::Bool(b) => {
                if *b {
                    append(out, str_bytes("true"));
                } else {
                    append(out, str_bytes("false"));
                }
            },
            Json::Number(n) => {
                append(out, str_bytes(n.as_str()));
            },
            Json::String(s) => {
                append(out, str_bytes(s.as_str()));
            },
            _ => {
                let text = self.to_json();
                append(out, str_bytes(text.as_str()));
            },
        }
    }

    /// The element `index` of an array.
    pub fn at<'a>(&'a self, index: usize) -> (r: Option<&'a Json>)
        ensures
            r is Some <==> element(self@, index as int) is Some,
            r is Some ==> r->Some_0@ == element(self@, index as int)->Some_0,
    {
        match self {
            Json::Array(items) => {
                proof {
                    lemma_views(items@);
                }
                if index < items.len() {
                    Some(&items[index])
                } else {
                    None
                }
            },
            _ => None,
        }
    }
}

/// The value of the last entry of that name.
pub open spec fn entry_of(entries: Seq<(Seq<char>, JsonView)>, key: Seq<u8>) -> Option<JsonView> {
    member(JsonView::Object(entries), key)
}

/// The value of the last entry of that name.
pub fn entry<'a>(entries: &'a Vec<(String, Json)>, key: &[u8]) -> (r: Option<&'a Json>)
    ensures
        r is Some <==> entry_of(entry_views(entries@), key@) is Some,
        r is Some ==> r->Some_0@ == entry_of(entry_views(entries@), key@)->Some_0,
{
    proof {
        lemma_entry_views(entries@);
    }
    let ghost ev = entry_views(entries@);
    let mut i: usize = entries.len();
    while i > 0
        invariant
            i <= entries.len(),
            ev == entry_views(entries@),
            ev.len() == entries.len(),
            find_key(ev, key@, ev.len() as int) == find_key(ev, key@, i as int),
        decreases i,
    {
        let e = &entries[i - 1];
        proof {
            lemma_entry_views(entries@);
            reveal_with_fuel(find_key, 2);
        }
        assert(ev[i - 1] == (e.0@, e.1@));
        if bytes_eq(str_bytes(e.0.as_str()), key) {
            return Some(&e.1);
        }
        i -= 1;
    }
    proof {
        reveal_with_fuel(find_key, 2);
    }
    None
}

/// Whether no key occurs twice among the entries of an object.
pub open spec fn keys_once(entries: Seq<(Seq<char>, JsonView)>) -> bool {
    forall|i: int, j: int|
        0 <= i < j < entries.len() ==> (#[trigger] entries[i]).0 != (#[trigger] entries[j]).0
}

/// Whether a document is well formed: each key of each object in it occurs
/// once, and the text of each number in it spells a JSON number.
pub open spec fn well_formed(v: JsonView) -> bool
    decreases v,
{
    match v {
        JsonView::Number(n) => crate::outside::json_number(bytes_of(n)) is Some,
        JsonView::Array(items) => forall|i: int|
            0 <= i < items.len() ==> well_formed(#[trigger] items[i]),
        JsonView::Object(entries) => keys_once(entries) && forall|i: int|
            0 <= i < entries.len() ==> well_formed((#[trigger] entries[i]).1),
        _ => true,
    }
}

/// Each part of a well-formed list is well formed, and the other way round.
pub proof fn lemma_well_formed_items(items: Seq<JsonView>)
    ensures
        well_formed(JsonView::Array(items)) == (forall|i: int|
            0 <= i < items.len() ==> well_formed(#[trigger] items[i])),
{
    reveal_with_fuel(well_formed, 2);
    assert(JsonView::Array(items)->Array_0 == items);
}

/// An object is well formed where its keys differ and its values are well formed.
pub proof fn lemma_well_formed_entries(entries: Seq<(Seq<char>, JsonView)>)
    ensures
        well_formed(JsonView::Object(entries)) == (keys_once(entries) && forall|i: int|
            0 <= i < entries.len() ==> well_formed((#[trigger] entries[i]).1)),
{
    reveal_with_fuel(well_formed, 2);
}

/// What a name or an index selects in a well-formed document is well
/// formed.
pub proof fn lemma_well_formed_field(v: JsonView, name: Seq<u8>)
    requires
        well_formed(v),
    ensures
        field(v, name) matches Some(x) ==> well_formed(x),
        member(v, name) matches Some(x) ==> well_formed(x),
        forall|i: int| (#[trigger] element(v, i)) matches Some(x) ==> well_formed(x),
{
    reveal_with_fuel(well_formed, 2);
    match v {
        JsonView::Object(entries) => {
            lemma_find_key_bounds(entries, name, entries.len() as int);
        },
        _ => {},
    }
}

/// Where the search for a key ends: at an entry, or before the first.
pub proof fn lemma_find_key_bounds(entries: Seq<(Seq<char>, JsonView)>, key: Seq<u8>, upto: int)
    requires
        0 <= upto <= entries.len(),
    ensures
        -1 <= find_key(entries, key, upto) < upto,
        find_key(entries, key, upto) >= 0 ==> bytes_of(entries[find_key(entries, key, upto)].0)
            == key,
    decreases upto,
{
    reveal_with_fuel(find_key, 2);
    if upto > 0 && bytes_of(entries[upto - 1].0) != key {
        lemma_find_key_bounds(entries, key, upto - 1);
    }
}

/// The search for a key ends at or after each entry of that key.
pub proof fn lemma_find_key_last(
    entries: Seq<(Seq<char>, JsonView)>,
    key: Seq<u8>,
    upto: int,
    i: int,
)
    requires
        0 <= i < upto <= entries.len(),
        bytes_of(entries[i].0) == key,
    ensures
        i <= find_key(entries, key, upto) < upto,
    decreases upto,
{
    reveal_with_fuel(find_key, 2);
    if bytes_of(entries[upto - 1].0) != key {
        lemma_find_key_last(entries, key, upto - 1, i);
    }
}

/// Where no key occurs twice, each key selects the value that stands
/// beside it.
pub proof fn lemma_key_selects(entries: Seq<(Seq<char>, JsonView)>, i: int)
    requires
        keys_once(entries),
        0 <= i < entries.len(),
    ensures
        member(JsonView::Object(entries), bytes_of(entries[i].0)) == Some(entries[i].1),
{
    let key = bytes_of(entries[i].0);
    let k = find_key(entries, key, entries.len() as int);
    lemma_find_key_last(entries, key, entries.len() as int, i);
    lemma_find_key_bounds(entries, key, entries.len() as int);
    vstd::utf8::encode_utf8_decode_utf8(entries[i].0);
    vstd::utf8::encode_utf8_decode_utf8(entries[k].0);
    assert(entries[k].0 == entries[i].0);
}

impl Json {
    /// Whether the document is well formed.
    pub fn is_well_formed(&self) -> (r: bool)
        ensures
            r == well_formed(self@),
        decreases self,
    {
        proof {
            reveal_with_fuel(well_formed, 2);
        }
        match self {
            Json::Number(n) => crate::outside::number_text(str_bytes(n.as_str())).is_some(),
            Json::Array(items) => items_well_formed(items),
            Json::Object(entries) => entries_well_formed(entries),
            _ => true,
        }
    }
}

/// Whether each document of a list is well formed.
pub fn items_well_formed(items: &Vec<Json>) -> (r: bool)
    ensures
        r == well_formed(JsonView::Array(views(items@))),
    decreases items,
{
    proof {
        lemma_views(items@);
        reveal_with_fuel(well_formed, 2);
    }
    let mut i: usize = 0;
    while i < items.len()
        invariant
            i <= items.len(),
            views(items@).len() == items.len(),
            forall|k: int| 0 <= k < i ==> well_formed(#[trigger] views(items@)[k]),
        decreases items.len() - i,
    {
        proof {
            lemma_views(items@);
            reveal_with_fuel(well_formed, 2);
        }
        if !items[i].is_well_formed() {
            proof {
                lemma_well_formed_items(views(items@));
                assert(!well_formed(views(items@)[i as int]));
            }
            return false;
        }
        i += 1;
    }
    proof {
        reveal_with_fuel(well_formed, 2);
    }
    true
}

/// Whether the name of the entry at `at` occurs among the entries before it.
fn key_before(entries: &Vec<(String, Json)>, at: usize) -> (r: bool)
    requires
        at < entries.len(),
    ensures
        r == exists|k: int| 0 <= k < at && (#[trigger] entries@[k]).0@ == entries@[at as int].0@,
{
    let mut k: usize = 0;
    while k < at
        invariant
            k <= at < entries.len(),
            forall|m: int| 0 <= m < k ==> (#[trigger] entries@[m]).0@ != entries@[at as int].0@,
        decreases at - k,
    {
        if entries[k].0 == entries[at].0 {
            return true;
        }
        k += 1;
    }
    false
}

/// Whether the entries are those of a well-formed object.
pub fn entries_well_formed(entries: &Vec<(String, Json)>) -> (r: bool)
    ensures
        r == well_formed(JsonView::Object(entry_views(entries@))),
    decreases entries,
{
    proof {
        lemma_entry_views(entries@);
        reveal_with_fuel(well_formed, 2);
    }
    let ghost ev = entry_views(entries@);
    let mut i: usize = 0;
    while i < entries.len()
        invariant
            i <= entries.len(),
            ev == entry_views(entries@),
            ev.len() == entries.len(),
            forall|k: int| 0 <= k < i ==> well_formed((#[trigger] ev[k]).1),
            forall|a: int, b: int| 0 <= a < b < i ==> (#[trigger] ev[a]).0 != (#[trigger] ev[b]).0,
        decreases entries.len() - i,
    {
        proof {
            lemma_entry_views(entries@);
            assert(decreases_to!(entries => entries[i as int]));
            assert(decreases_to!(entries[i as int] => entries[i as int].1));
        }
        proof {
            reveal_with_fuel(well_formed, 2);
        }
        if key_before(entries, i) {
            proof {
                let k = choose|k: int|
                    0 <= k < i && (#[trigger] entries@[k]).0@ == entries@[i as int].0@;
                assert(ev[k].0 == ev[i as int].0);
            }
            return false;
        }
        if !entries[i].1.is_well_formed() {
            proof {
                lemma_well_formed_entries(ev);
                assert(!well_formed(ev[i as int].1));
            }
            return false;
        }
        proof {
            assert forall|a: int, b: int| 0 <= a < b < i + 1 implies (#[trigger] ev[a]).0 != (
            #[trigger] ev[b]).0 by {
                if b == i {
                    assert(entries@[a].0@ != entries@[i as int].0@);
                }
            }
        }
        i += 1;
    }
    true
}

/// Whether two documents have the same value.
pub fn json_eq(a: &Json, b: &Json) -> (r: bool)
    ensures
        r == (a@ == b@),
    decreases a,
{
    match a {
        Json::Null => match b {
            Json::Null => true,
            _ => false,
        },
        Json::Bool(x) => match b {
            Json::Bool(y) => *x == *y,
            _ => false,
        },
        Json::Number(x) => match b {
            Json::Number(y) => *x == *y,
            _ => false,
        },
        Json::String(x) => match b {
            Json::String(y) => *x == *y,
            _ => false,
        },
        Json::Array(x) => match b {
            Json::Array(y) => items_eq(x, y),
            _ => false,
        },
        Json::Object(x) => match b {
            Json::Object(y) => entries_eq(x, y),
            _ => false,
        },
    }
}

/// Whether two lists of documents have the same values in the same order.
pub fn items_eq(x: &Vec<Json>, y: &Vec<Json>) -> (r: bool)
    ensures
        r == (views(x@) == views(y@)),
    decreases x,
{
    proof {
        lemma_views(x@);
        lemma_views(y@);
    }
    if x.len() != y.len() {
        return false;
    }
    let mut i: usize = 0;
    while i < x.len()
        invariant
            i <= x.len(),
            x.len() == y.len(),
            forall|k: int| 0 <= k < i ==> x@[k]@ == y@[k]@,
        decreases x.len() - i,
    {
        if !json_eq(&x[i], &y[i]) {
            proof {
                lemma_views(x@);
                lemma_views(y@);
                assert(views(x@)[i as int] != views(y@)[i as int]);
            }
            return false;
        }
        i += 1;
    }
    proof {
        lemma_views(x@);
        lemma_views(y@);
        assert(views(x@) =~= views(y@));
    }
    true
}

/// Whether two lists of named documents have the same names and values in
/// the same order.
pub fn entries_eq(x: &Vec<(String, Json)>, y: &Vec<(String, Json)>) -> (r: bool)
    ensures
        r == (entry_views(x@) == entry_views(y@)),
    decreases x,
{
    proof {
        lemma_entry_views(x@);
        lemma_entry_views(y@);
    }
    if x.len() != y.len() {
        return false;
    }
    let mut i: usize = 0;
    while i < x.len()
        invariant
            i <= x.len(),
            x.len() == y.len(),
            forall|k: int| 0 <= k < i ==> x@[k].0@ == y@[k].0@ && x@[k].1@ == y@[k].1@,
        decreases x.len() - i,
    {
        proof {
            assert(decreases_to!(x => x[i as int]));
            assert(decreases_to!(x[i as int] => x[i as int].1));
        }
        if !(x[i].0 == y[i].0) || !json_eq(&x[i].1, &y[i].1) {
            proof {
                lemma_entry_views(x@);
                lemma_entry_views(y@);
                assert(entry_views(x@)[i as int] != entry_views(y@)[i as int]);
            }
            return false;
        }
        i += 1;
    }
    proof {
        lemma_entry_views(x@);
        lemma_entry_views(y@);
        assert(entry_views(x@) =~= entry_views(y@));
    }
    true
}

/// Copies of the documents of a list, in order.
pub fn copy_items(items: &Vec<Json>) -> (r: Vec<Json>)
    ensures
        views(r@) == views(items@),
    decreases items,
{
    let mut out: Vec<Json> = Vec::new();
    let mut i: usize = 0;
    while i < items.len()
        invariant
            i <= items.len(),
            out.len() == i,
            forall|k: int| 0 <= k < i ==> out@[k]@ == items@[k]@,
        decreases items.len() - i,
    {
        let c = items[i].copy();
        out.push(c);
        i += 1;
    }
    proof {
        lemma_views(out@);
        lemma_views(items@);
    }
    assert(views(out@) =~= views(items@));
    out
}

/// Copies of the named documents of a list, in order.
pub fn copy_entries(entries: &Vec<(String, Json)>) -> (r: Vec<(String, Json)>)
    ensures
        entry_views(r@) == entry_views(entries@),
    decreases entries,
{
    let mut out: Vec<(String, Json)> = Vec::new();
    let mut i: usize = 0;
    while i < entries.len()
        invariant
            i <= entries.len(),
            out.len() == i,
            forall|k: int|
                0 <= k < i ==> out@[k].0@ == entries@[k].0@ && out@[k].1@ == entries@[k].1@,
        decreases entries.len() - i,
    {
        assert(decreases_to!(entries => entries[i as int]));
        assert(decreases_to!(entries[i as int] => entries[i as int].1));
        let c = entries[i].1.copy();
        out.push((entries[i].0.clone(), c));
        i += 1;
    }
    proof {
        lemma_entry_views(out@);
        lemma_entry_views(entries@);
    }
    assert(entry_views(out@) =~= entry_views(entries@));
    out
}

/// Whether some mantissa digit of a decimal text is not `0`.
pub fn is_nonzero(text: &[u8]) -> (r: bool)
    ensures
        r == nonzero_number(text@),
{
    let mut i: usize = 0;
    while i < text.len()
        invariant
            i <= text.len(),
            forall|k: int| 0 <= k < i ==> text@[k] != 0x65 && text@[k] != 0x45,
            forall|k: int| 0 <= k < i ==> !(0x31 <= #[trigger] text@[k] <= 0x39),
        decreases text.len() - i,
    {
        let b = text[i];
        if b == 0x65 || b == 0x45 {
            assert(!nonzero_number(text@)) by {
                if nonzero_number(text@) {
                    let j = choose|j: int|
                        0 <= j < text@.len() && 0x31 <= #[trigger] text@[j] <= 0x39 && forall|k: int|
                            0 <= k < j ==> text@[k] != 0x65 && text@[k] != 0x45;
                    if j > i {
                        assert(text@[i as int] != 0x65 && text@[i as int] != 0x45);
                    }
                }
            }
            return false;
        }
        if 0x31 <= b && b <= 0x39 {
            return true;
        }
        i += 1;
    }
    false
}

/// The number that a run of at most 9 digits denotes; `None` for anything
/// else.
pub fn parse_index(s: &[u8]) -> (r: Option<usize>)
    ensures
        r is Some <==> all_digits(s@) && s@.len() <= 9,
        r is Some ==> r->Some_0 == digits_value(s@),
{
    if s.len() == 0 || s.len() > 9 {
        return None;
    }
    let mut n: usize = 0;
    let mut i: usize = 0;
    while i < s.len()
        invariant
            i <= s.len() <= 9,
            forall|k: int| 0 <= k < i ==> 0x30 <= #[trigger] s@[k] <= 0x39,
            n == digits_value(s@.subrange(0, i as int)),
            n < pow10(i as nat),
        decreases s.len() - i,
    {
        let b = s[i];
        if b < 0x30 || b > 0x39 {
            return None;
        }
        proof {
            let t = s@.subrange(0, i + 1);
            assert(t.drop_last() =~= s@.subrange(0, i as int));
            assert(t.last() == b);
            lemma_pow10_bound(i as nat);
            lemma_pow10_bound((i + 1) as nat);
        }
        n = n * 10 + (b - 0x30) as usize;
        i += 1;
    }
    assert(s@.subrange(0, s@.len() as int) =~= s@);
    Some(n)
}

/// Ten to the power `n`.
pub open spec fn pow10(n: nat) -> nat
    decreases n,
{
    if n == 0 {
        1
    } else {
        10 * pow10((n - 1) as nat)
    }
}

proof fn lemma_pow10_bound(n: nat)
    requires
        n <= 9,
    ensures
        pow10(n) <= 1_000_000_000,
        n > 0 ==> pow10(n) == 10 * pow10((n - 1) as nat),
    decreases n,
{
    reveal_with_fuel(pow10, 11);
}

} // verus!
