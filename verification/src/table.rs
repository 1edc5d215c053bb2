//! Tables from names to items, such as the helpers and the templates of a
//! registry.
use vstd::prelude::*;
use crate::text::{bytes_eq, bytes_of, str_bytes};

verus! {

/// Items by name. A name is looked up by its bytes, and the first entry
/// with the name is the one that is found. A table that is made by `new`
/// and changed by `insert` and `remove` holds each name once.
pub struct Table<T> {
    pub entries: Vec<(String, T)>,
}

/// The index of the first entry from `from` on whose name has those bytes;
/// the number of entries if there is none.
pub open spec fn find<T>(entries: Seq<(String, T)>, name: Seq<u8>, from: int) -> int
    decreases entries.len() - from,
{
    if from < 0 || from >= entries.len() {
        entries.len() as int
    } else if bytes_of(entries[from].0@) == name {
        from
    } else {
        find(entries, name, from + 1)
    }
}

/// Whether no name occurs twice.
pub open spec fn distinct<T>(entries: Seq<(String, T)>) -> bool {
    forall|i: int, j: int|
        0 <= i < j < entries.len() ==> bytes_of((#[trigger] entries[i]).0@) != bytes_of(
            (#[trigger] entries[j]).0@,
        )
}

/// The entries without those of a name, in the same order.
pub open spec fn without<T>(entries: Seq<(String, T)>, name: Seq<u8>) -> Seq<(String, T)>
    decreases entries.len(),
{
    if entries.len() == 0 {
        entries
    } else if bytes_of(entries.last().0@) == name {
        without(entries.drop_last(), name)
    } else {
        without(entries.drop_last(), name).push(entries.last())
    }
}

/// The item of that name, if there is one.
pub open spec fn lookup<T>(entries: Seq<(String, T)>, name: Seq<u8>) -> Option<T> {
    let i = find(entries, name, 0);
    if 0 <= i < entries.len() {
        Some(entries[i].1)
    } else {
        None
    }
}

/// Where the search for a name ends: at an entry with the name, or after
/// the last entry.
pub proof fn lemma_find_bounds<T>(entries: Seq<(String, T)>, name: Seq<u8>, from: int)
    requires
        0 <= from <= entries.len(),
    ensures
        from <= find(entries, name, from) <= entries.len(),
        find(entries, name, from) < entries.len() ==> bytes_of(
            entries[find(entries, name, from)].0@,
        ) == name,
        forall|k: int| from <= k < find(entries, name, from) ==> bytes_of(entries[k].0@) != name,
    decreases entries.len() - from,
{
    reveal_with_fuel(find, 2);
    if from < entries.len() && bytes_of(entries[from].0@) != name {
        lemma_find_bounds(entries, name, from + 1);
    }
}

impl<T> Table<T> {
    /// A table without entries.
    pub fn new() -> (r: Self)
        ensures
            r.entries@.len() == 0,
            distinct(r.entries@),
    {
        Table { entries: Vec::new() }
    }

    /// The index of the entry of that name.
    pub fn position(&self, name: &[u8]) -> (r: Option<usize>)
        ensures
            match r {
                Some(i) => i == find(self.entries@, name@, 0) && i < self.entries.len(),
                None => find(self.entries@, name@, 0) == self.entries.len(),
            },
    {
        let mut i: usize = 0;
        while i < self.entries.len()
            invariant
                i <= self.entries.len(),
                find(self.entries@, name@, 0) == find(self.entries@, name@, i as int),
            decreases self.entries.len() - i,
        {
            proof {
                reveal_with_fuel(find, 2);
            }
            if bytes_eq(str_bytes(self.entries[i].0.as_str()), name) {
                return Some(i);
            }
            i += 1;
        }
        proof {
            reveal_with_fuel(find, 2);
        }
        None
    }

    /// The item of that name.
    pub fn get(&self, name: &[u8]) -> (r: Option<&T>)
        ensures
            match lookup(self.entries@, name@) {
                Some(x) => r == Some(&x),
                None => r is None,
            },
    {
        match self.position(name) {
            Some(i) => Some(&self.entries[i].1),
            None => None,
        }
    }

    /// Whether the table has an item of that name.
    pub fn contains(&self, name: &[u8]) -> (r: bool)
        ensures
            r == lookup(self.entries@, name@).is_some(),
    {
        self.position(name).is_some()
    }

    /// Puts an item under a name. An item that was there is replaced and
    /// handed back.
    pub fn insert(&mut self, name: String, item: T) -> (r: Option<T>)
        ensures
            r == lookup(old(self).entries@, bytes_of(name@)),
            lookup(final(self).entries@, bytes_of(name@)) == Some(item),
            forall|other: Seq<u8>|
                other != bytes_of(name@) ==> lookup(final(self).entries@, other) == lookup(
                    old(self).entries@,
                    other,
                ),
            r is None ==> final(self).entries@ == old(self).entries@.push((name, item)),
            r is Some ==> final(self).entries@ == old(self).entries@.update(
                find(old(self).entries@, bytes_of(name@), 0),
                (name, item),
            ),
            distinct(old(self).entries@) ==> distinct(final(self).entries@),
    {
        let ghost before = self.entries@;
        let ghost key = bytes_of(name@);
        match self.position(str_bytes(name.as_str())) {
            Some(i) => {
                let last = self.entries.len() - 1;
                self.entries.push((name, item));
                let old = self.entries.swap_remove(i);
                proof {
                    let after = self.entries@;
                    assert(after.len() == before.len());
                    assert(after[i as int] == (name, item));
                    assert(after =~= before.update(i as int, (name, item)));
                    if distinct(before) {
                        assert forall|a: int, b: int| 0 <= a < b < after.len() implies bytes_of(
                            (#[trigger] after[a]).0@,
                        ) != bytes_of((#[trigger] after[b]).0@) by {
                            lemma_find_bounds(before, key, 0);
                            assert(bytes_of(before[i as int].0@) == key);
                            if a != i {
                                assert(after[a] == before[a]);
                            }
                            if b != i {
                                assert(after[b] == before[b]);
                            }
                            assert(bytes_of(before[a].0@) != bytes_of(before[b].0@));
                        }
                    }
                    assert forall|k: int| 0 <= k < before.len() && k != i implies after[k]
                        == before[k] by {}
                    lemma_find_bounds(before, key, 0);
                    lemma_find_same(before, after, key, i as int);
                    assert forall|other: Seq<u8>| other != key implies lookup(after, other)
                        == lookup(before, other) by {
                        lemma_find_other(before, after, other, i as int, 0);
                    }
                }
                Some(old.1)
            },
            None => {
                self.entries.push((name, item));
                proof {
                    let after = self.entries@;
                    lemma_find_bounds(before, key, 0);
                    lemma_find_pushed(before, (name, item), key, 0);
                    if distinct(before) {
                        assert forall|a: int, b: int| 0 <= a < b < after.len() implies bytes_of(
                            (#[trigger] after[a]).0@,
                        ) != bytes_of((#[trigger] after[b]).0@) by {
                            assert(after[a] == before[a]);
                            if b < before.len() {
                                assert(after[b] == before[b]);
                            }
                        }
                    }
                    assert forall|other: Seq<u8>| other != key implies lookup(after, other)
                        == lookup(before, other) by {
                        lemma_find_pushed(before, (name, item), other, 0);
                        lemma_find_bounds(before, other, 0);
                    }
                }
                None
            },
        }
    }

    /// Takes the name out of the table, and hands back the item that was
    /// found under it. Afterwards nothing is found under the name; what is
    /// found under other names stays as it is.
    pub fn remove(&mut self, name: &[u8]) -> (r: Option<T>)
        ensures
            r == lookup(old(self).entries@, name@),
            final(self).entries@ == without(old(self).entries@, name@),
            lookup(final(self).entries@, name@) is None,
            forall|other: Seq<u8>|
                other != name@ ==> lookup(final(self).entries@, other) == lookup(
                    old(self).entries@,
                    other,
                ),
            forall|k: int|
                0 <= k < final(self).entries@.len() ==> old(self).entries@.contains(
                    #[trigger] final(self).entries@[k],
                ),
            distinct(old(self).entries@) ==> distinct(final(self).entries@),
    {
        let ghost before = self.entries@;
        let mut first: Option<T> = None;
        proof {
            assert forall|k: int| 0 <= k < before.len() implies before.contains(
                #[trigger] before[k],
            ) by {}
        }
        loop
            invariant
                before == old(self).entries@,
                without(self.entries@, name@) == without(before, name@),
                forall|k: int|
                    0 <= k < self.entries@.len() ==> before.contains(#[trigger] self.entries@[k]),
                forall|other: Seq<u8>|
                    other != name@ ==> lookup(self.entries@, other) == lookup(before, other),
                distinct(before) ==> distinct(self.entries@),
                first is None ==> self.entries@ == before,
                first is Some ==> first == lookup(before, name@),
            decreases self.entries@.len(),
        {
            let ghost cur = self.entries@;
            match self.position(name) {
                Some(i) => {
                    let e = self.entries.remove(i);
                    proof {
                        let after = self.entries@;
                        lemma_find_bounds(cur, name@, 0);
                        assert(after == cur.remove(i as int));
                        lemma_without_removed(cur, name@, i as int);
                        assert forall|other: Seq<u8>| other != name@ implies lookup(after, other)
                            == lookup(before, other) by {
                            lemma_find_removed(cur, other, i as int, 0);
                            lemma_find_bounds(cur, other, 0);
                            lemma_find_bounds(after, other, 0);
                            let fa = find(cur, other, 0);
                            let fb = find(cur.remove(i as int), other, 0);
                            if fa < cur.len() {
                                assert(after[fb] == cur[fa]);
                            }
                        }
                        assert forall|k: int| 0 <= k < after.len() implies before.contains(
                            #[trigger] after[k],
                        ) by {
                            if k < i {
                                assert(after[k] == cur[k]);
                            } else {
                                assert(after[k] == cur[k + 1]);
                            }
                        }
                        if distinct(before) {
                            assert forall|a: int, b: int| 0 <= a < b < after.len() implies bytes_of(
                                (#[trigger] after[a]).0@,
                            ) != bytes_of((#[trigger] after[b]).0@) by {
                                let a2 = if a < i {
                                    a
                                } else {
                                    a + 1
                                };
                                let b2 = if b < i {
                                    b
                                } else {
                                    b + 1
                                };
                                assert(after[a] == cur[a2]);
                                assert(after[b] == cur[b2]);
                            }
                        }
                    }
                    if first.is_none() {
                        assert(lookup(before, name@) == Some(e.1));
                        first = Some(e.1);
                    }
                },
                None => {
                    proof {
                        lemma_without_absent(cur, name@);
                        if first is None {
                            assert(lookup(before, name@) is None);
                        }
                    }
                    return first;
                },
            }
        }
    }

    /// The number of entries.
    pub fn len(&self) -> (r: usize)
        ensures
            r == self.entries@.len(),
    {
        self.entries.len()
    }
}

/// The search for a name gives the same index in two lists that differ
/// only in the item at that index and keep its name.
proof fn lemma_find_same<T>(a: Seq<(String, T)>, b: Seq<(String, T)>, key: Seq<u8>, i: int)
    requires
        a.len() == b.len(),
        0 <= i < a.len(),
        find(a, key, 0) == i,
        bytes_of(b[i].0@) == key,
        forall|k: int| 0 <= k < a.len() && k != i ==> a[k] == b[k],
    ensures
        find(b, key, 0) == i,
{
    lemma_find_bounds(a, key, 0);
    lemma_find_prefix(b, key, 0, i);
}

/// The search skips entries with other names.
proof fn lemma_find_prefix<T>(b: Seq<(String, T)>, key: Seq<u8>, from: int, i: int)
    requires
        0 <= from <= i < b.len(),
        bytes_of(b[i].0@) == key,
        forall|k: int| from <= k < i ==> bytes_of(b[k].0@) != key,
    ensures
        find(b, key, from) == i,
    decreases i - from,
{
    reveal_with_fuel(find, 2);
    if from < i {
        lemma_find_prefix(b, key, from + 1, i);
    }
}

/// Replacing the item of one name does not change what is found under
/// another name.
proof fn lemma_find_other<T>(
    a: Seq<(String, T)>,
    b: Seq<(String, T)>,
    other: Seq<u8>,
    i: int,
    from: int,
)
    requires
        a.len() == b.len(),
        0 <= i < a.len(),
        0 <= from <= a.len(),
        bytes_of(a[i].0@) != other,
        bytes_of(b[i].0@) != other,
        forall|k: int| 0 <= k < a.len() && k != i ==> a[k] == b[k],
    ensures
        find(a, other, from) == find(b, other, from),
        0 <= find(a, other, from) < a.len() ==> a[find(a, other, from)] == b[find(
            a,
            other,
            from,
        )],
    decreases a.len() - from,
{
    reveal_with_fuel(find, 2);
    if from < a.len() {
        if from == i {
            lemma_find_other(a, b, other, i, from + 1);
        } else if bytes_of(a[from].0@) == other {
        } else {
            lemma_find_other(a, b, other, i, from + 1);
        }
    }
}

/// What is found in a list with one more entry at its end.
proof fn lemma_find_pushed<T>(a: Seq<(String, T)>, x: (String, T), key: Seq<u8>, from: int)
    requires
        0 <= from <= a.len(),
    ensures
        find(a, key, from) < a.len() ==> find(a.push(x), key, from) == find(a, key, from),
        find(a, key, from) >= a.len() && bytes_of(x.0@) == key ==> find(a.push(x), key, from)
            == a.len(),
        find(a, key, from) >= a.len() && bytes_of(x.0@) != key ==> find(a.push(x), key, from)
            == a.len() + 1,
    decreases a.len() - from,
{
    reveal_with_fuel(find, 3);
    let b = a.push(x);
    if from < a.len() {
        assert(b[from] == a[from]);
        if bytes_of(a[from].0@) != key {
            lemma_find_pushed(a, x, key, from + 1);
        }
    } else {
        assert(b[from] == x);
    }
}

/// Taking out an entry of one name does not change what is found under
/// another name.
proof fn lemma_find_removed<T>(a: Seq<(String, T)>, other: Seq<u8>, i: int, from: int)
    requires
        0 <= i < a.len(),
        0 <= from <= a.len(),
        bytes_of(a[i].0@) != other,
    ensures
        ({
            let b = a.remove(i);
            let fa = find(a, other, from);
            let fb = find(b, other, if from <= i {
                from
            } else {
                from - 1
            });
            if fa < a.len() {
                fb < b.len() && b[fb] == a[fa] && (fa < i ==> fb == fa) && (fa > i ==> fb == fa - 1)
            } else {
                fb >= b.len()
            }
        }),
    decreases a.len() - from,
{
    reveal_with_fuel(find, 2);
    let b = a.remove(i);
    lemma_find_bounds(a, other, from);
    if from < a.len() {
        if from == i {
            lemma_find_removed(a, other, i, from + 1);
        } else if bytes_of(a[from].0@) == other {
            if from < i {
                assert(b[from] == a[from]);
            } else {
                assert(b[from - 1] == a[from]);
            }
        } else {
            if from < i {
                assert(b[from] == a[from]);
            } else {
                assert(b[from - 1] == a[from]);
            }
            lemma_find_removed(a, other, i, from + 1);
        }
    } else {
    }
}

/// Taking out an entry of a name leaves the entries without the name as
/// they are.
proof fn lemma_without_removed<T>(a: Seq<(String, T)>, name: Seq<u8>, i: int)
    requires
        0 <= i < a.len(),
        bytes_of(a[i].0@) == name,
    ensures
        without(a.remove(i), name) == without(a, name),
    decreases a.len(),
{
    reveal_with_fuel(without, 2);
    let b = a.remove(i);
    if i == a.len() - 1 {
        assert(b =~= a.drop_last());
    } else {
        assert(b.last() == a.last());
        assert(b.drop_last() =~= a.drop_last().remove(i));
        lemma_without_removed(a.drop_last(), name, i);
    }
}

/// Entries among which a name does not occur are the entries without the
/// name.
proof fn lemma_without_absent<T>(a: Seq<(String, T)>, name: Seq<u8>)
    requires
        find(a, name, 0) >= a.len(),
    ensures
        without(a, name) == a,
    decreases a.len(),
{
    reveal_with_fuel(without, 2);
    lemma_find_bounds(a, name, 0);
    if a.len() > 0 {
        let d = a.drop_last();
        lemma_find_bounds(d, name, 0);
        if find(d, name, 0) < d.len() {
            assert(d[find(d, name, 0)] == a[find(d, name, 0)]);
        }
        lemma_without_absent(d, name);
        assert(d.push(a.last()) =~= a);
    }
}

} // verus!
