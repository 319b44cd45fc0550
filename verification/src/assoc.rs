//! Association lists: names with values, in the order in which the names were first set.

use vstd::prelude::*;
use vstd::string::*;

use crate::text;

verus! {

/// The place of a name in a list.
pub open spec fn place<V>(m: Seq<(Seq<char>, V)>, key: Seq<char>) -> Option<int>
    decreases m.len(),
{
    if m.len() == 0 {
        None
    } else if m.last().0 == key {
        Some(m.len() - 1)
    } else {
        place(m.drop_last(), key)
    }
}

/// The value of a name.
pub open spec fn lookup<V>(m: Seq<(Seq<char>, V)>, key: Seq<char>) -> Option<V> {
    match place(m, key) {
        Some(i) => Some(m[i].1),
        None => None,
    }
}

/// A list with one value set: in its place if the name is there, else at the end.
pub open spec fn with<V>(m: Seq<(Seq<char>, V)>, key: Seq<char>, value: V) -> Seq<
    (Seq<char>, V),
> {
    match place(m, key) {
        Some(i) => m.update(i, (key, value)),
        None => m.push((key, value)),
    }
}

/// A list without the entries that `gone` holds of.
pub open spec fn without<V>(
    m: Seq<(Seq<char>, V)>,
    gone: spec_fn(Seq<char>, V) -> bool,
) -> Seq<(Seq<char>, V)>
    decreases m.len(),
{
    if m.len() == 0 {
        m
    } else if gone(m.last().0, m.last().1) {
        without(m.drop_last(), gone)
    } else {
        without(m.drop_last(), gone).push(m.last())
    }
}

/// A list with every entry of another set, in order.
pub open spec fn with_all<V>(m: Seq<(Seq<char>, V)>, more: Seq<(Seq<char>, V)>) -> Seq<
    (Seq<char>, V),
>
    decreases more.len(),
{
    if more.len() == 0 {
        m
    } else {
        with(with_all(m, more.drop_last()), more.last().0, more.last().1)
    }
}

/// Whether no name stands twice.
pub open spec fn distinct<V>(m: Seq<(Seq<char>, V)>) -> bool {
    forall|i: int, j: int|
        0 <= i < j < m.len() ==> (#[trigger] m[i]).0 != (#[trigger] m[j]).0
}

/// The place of a name is the last entry with that name.
pub proof fn place_is_last<V>(m: Seq<(Seq<char>, V)>, key: Seq<char>)
    ensures
        match place(m, key) {
            Some(i) => 0 <= i < m.len() && m[i].0 == key && forall|j: int|
                i < j < m.len() ==> (#[trigger] m[j]).0 != key,
            None => forall|j: int| 0 <= j < m.len() ==> (#[trigger] m[j]).0 != key,
        },
    decreases m.len(),
{
    if m.len() > 0 && m.last().0 != key {
        place_is_last(m.drop_last(), key);
        assert forall|j: int| 0 <= j < m.len() - 1 implies m[j] == m.drop_last()[j] by {}
    }
}

/// Setting a name keeps names distinct, gives that name its value and leaves the
/// values of the others alone.
pub proof fn with_sets<V>(m: Seq<(Seq<char>, V)>, key: Seq<char>, value: V, other: Seq<char>)
    requires
        distinct(m),
    ensures
        distinct(with(m, key, value)),
        lookup(with(m, key, value), other) == if other == key {
            Some(value)
        } else {
            lookup(m, other)
        },
{
    let w = with(m, key, value);
    place_is_last(m, key);
    place_is_last(m, other);
    place_is_last(w, other);
    match place(w, other) {
        Some(k) => {
            match place(m, other) {
                Some(i) => {
                    if i != k && other != key {
                        assert(w[i].0 == m[i].0);
                        assert(w[k].0 == m[k].0);
                        assert(m[i].0 == m[k].0);
                    }
                    if i != k && other == key {
                        assert(w[k].0 == m[k].0);
                    }
                },
                None => {
                    if other != key {
                        assert(w[k].0 == other);
                        assert(k < m.len() ==> m[k].0 == w[k].0);
                    }
                },
            }
        },
        None => {
            match place(m, other) {
                Some(i) => {
                    assert(w[i].0 == m[i].0);
                },
                None => {
                    if other == key {
                        assert(w[m.len() as int].0 == key);
                    }
                },
            }
        },
    }
}

/// Setting names one after the other keeps names distinct.
pub proof fn with_all_distinct<V>(m: Seq<(Seq<char>, V)>, more: Seq<(Seq<char>, V)>)
    requires
        distinct(m),
    ensures
        distinct(with_all(m, more)),
    decreases more.len(),
{
    if more.len() > 0 {
        with_all_distinct(m, more.drop_last());
        with_sets(
            with_all(m, more.drop_last()),
            more.last().0,
            more.last().1,
            more.last().0,
        );
    }
}

/// After setting names one after the other a name has the last value that it was given.
pub proof fn with_all_lookup<V>(
    m: Seq<(Seq<char>, V)>,
    more: Seq<(Seq<char>, V)>,
    key: Seq<char>,
)
    requires
        distinct(m),
    ensures
        lookup(with_all(m, more), key) == match place(more, key) {
            Some(i) => Some(more[i].1),
            None => lookup(m, key),
        },
    decreases more.len(),
{
    if more.len() > 0 {
        let init = more.drop_last();
        with_all_lookup(m, init, key);
        with_all_distinct(m, init);
        with_sets(with_all(m, init), more.last().0, more.last().1, key);
        place_is_last(init, key);
    }
}

/// Every entry that is left was there, and no entry that is left should have gone.
pub proof fn without_drops<V>(
    m: Seq<(Seq<char>, V)>,
    gone: spec_fn(Seq<char>, V) -> bool,
)
    ensures
        forall|i: int|
            0 <= i < without(m, gone).len() ==> m.contains(#[trigger] without(m, gone)[i])
                && !gone(without(m, gone)[i].0, without(m, gone)[i].1),
        forall|i: int|
            0 <= i < m.len() && !gone((#[trigger] m[i]).0, m[i].1) ==> without(m, gone).contains(
                m[i],
            ),
    decreases m.len(),
{
    if m.len() > 0 {
        let init = m.drop_last();
        without_drops(init, gone);
        let w = without(m, gone);
        let v = without(init, gone);
        assert forall|i: int| 0 <= i < w.len() implies m.contains(#[trigger] w[i]) && !gone(
            w[i].0,
            w[i].1,
        ) by {
            if i < v.len() {
                assert(w[i] == v[i]);
                assert(init.contains(v[i]));
                let k = choose|k: int| 0 <= k < init.len() && init[k] == v[i];
                assert(m[k] == w[i]);
            } else {
                assert(w[i] == m[m.len() - 1]);
            }
        }
        assert forall|i: int| 0 <= i < m.len() && !gone((#[trigger] m[i]).0, m[i].1) implies w.contains(
            m[i],
        ) by {
            if i < init.len() {
                assert(init[i] == m[i]);
                let k = choose|k: int| 0 <= k < v.len() && v[k] == m[i];
                assert(w[k] == m[i]);
            } else {
                assert(w[w.len() - 1] == m[i]);
            }
        }
    }
}

/// Setting distinct names one after the other gives just those entries.
pub proof fn with_all_of_distinct<V>(m: Seq<(Seq<char>, V)>)
    requires
        distinct(m),
    ensures
        with_all(Seq::empty(), m) == m,
    decreases m.len(),
{
    if m.len() == 0 {
        assert(with_all(Seq::empty(), m) =~= m);
    } else {
        let init = m.drop_last();
        assert forall|i: int, j: int| 0 <= i < j < init.len() implies (#[trigger] init[i]).0 != (
        #[trigger] init[j]).0 by {
            assert(init[i] == m[i] && init[j] == m[j]);
        }
        with_all_of_distinct(init);
        place_is_last(init, m.last().0);
        if let Some(k) = place(init, m.last().0) {
            assert(m[k].0 == m[m.len() - 1].0);
        }
        assert(init.push(m.last()) =~= m);
    }
}

/// Texts by name.
pub struct StringMap {
    pub entries: Vec<(String, String)>,
}

/// The views of named texts.
pub open spec fn entry_views(v: Seq<(String, String)>) -> Seq<(Seq<char>, Seq<char>)> {
    v.map_values(|p: (String, String)| (p.0@, p.1@))
}

impl View for StringMap {
    type V = Seq<(Seq<char>, Seq<char>)>;

    open spec fn view(&self) -> Seq<(Seq<char>, Seq<char>)> {
        entry_views(self.entries@)
    }
}

impl StringMap {
    /// A map without names.
    pub fn new() -> (r: StringMap)
        ensures
            r@ == Seq::<(Seq<char>, Seq<char>)>::empty(),
    {
        let m: StringMap = StringMap { entries: Vec::new() };
        assert(m@ =~= Seq::empty());
        m
    }

    fn find(&self, key: &str) -> (r: Option<usize>)
        ensures
            match r {
                Some(i) => i < self.entries.len() && place(self@, key@) == Some(i as int),
                None => place(self@, key@) is None,
            },
    {
        let mut i: usize = self.entries.len();
        assert(self@.subrange(0, i as int) =~= self@);
        while i > 0
            invariant
                i <= self.entries.len(),
                place(self@, key@) == place(self@.subrange(0, i as int), key@),
            decreases i,
        {
            assert(self@.subrange(0, i as int).drop_last() =~= self@.subrange(0, i - 1));
            i -= 1;
            if text::same(self.entries[i].0.as_str(), key) {
                return Some(i);
            }
        }
        None
    }

    /// The value of a name.
    pub fn get(&self, key: &str) -> (r: Option<&str>)
        ensures
            text::opt_str(r) == lookup(self@, key@),
    {
        match self.find(key) {
            Some(i) => Some(self.entries[i].1.as_str()),
            None => None,
        }
    }

    /// Whether a name has a value.
    pub fn contains_key(&self, key: &str) -> (r: bool)
        ensures
            r == (lookup(self@, key@) is Some),
    {
        self.find(key).is_some()
    }

    /// Gives a name a value.
    pub fn insert(&mut self, key: &str, value: &str)
        ensures
            final(self)@ == with(old(self)@, key@, value@),
    {
        let e: (String, String) = (key.to_owned(), value.to_owned());
        match self.find(key) {
            Some(i) => {
                self.entries.set(i, e);
                assert(self@ =~= old(self)@.update(i as int, (key@, value@)));
            },
            None => {
                self.entries.push(e);
                assert(self@ =~= old(self)@.push((key@, value@)));
            },
        }
    }

    /// Takes the entries with that value out.
    pub fn remove_value(&mut self, value: &str)
        ensures
            final(self)@ == without(old(self)@, |k: Seq<char>, v: Seq<char>| v == value@),
    {
        let ghost gone = |k: Seq<char>, v: Seq<char>| v == value@;
        let mut kept: Vec<(String, String)> = Vec::new();
        let mut i: usize = 0;
        while i < self.entries.len()
            invariant
                i <= self.entries.len(),
                self@ == old(self)@,
                gone == (|k: Seq<char>, v: Seq<char>| v == value@),
                entry_views(kept@) == without(self@.subrange(0, i as int), gone),
            decreases self.entries.len() - i,
        {
            assert(self@.subrange(0, i + 1).drop_last() =~= self@.subrange(0, i as int));
            let e: (String, String) = (self.entries[i].0.clone(), self.entries[i].1.clone());
            if !text::same(e.1.as_str(), value) {
                let ghost before = kept@;
                kept.push(e);
                assert(entry_views(kept@) =~= entry_views(before).push((e.0@, e.1@)));
            }
            i += 1;
        }
        assert(self@.subrange(0, i as int) =~= self@);
        self.entries = kept;
    }

    /// Takes a name out.
    pub fn remove(&mut self, key: &str)
        ensures
            final(self)@ == without(old(self)@, |k: Seq<char>, v: Seq<char>| k == key@),
    {
        let ghost gone = |k: Seq<char>, v: Seq<char>| k == key@;
        let mut kept: Vec<(String, String)> = Vec::new();
        let mut i: usize = 0;
        while i < self.entries.len()
            invariant
                i <= self.entries.len(),
                self@ == old(self)@,
                gone == (|k: Seq<char>, v: Seq<char>| k == key@),
                entry_views(kept@) == without(self@.subrange(0, i as int), gone),
            decreases self.entries.len() - i,
        {
            assert(self@.subrange(0, i + 1).drop_last() =~= self@.subrange(0, i as int));
            let e: (String, String) = (self.entries[i].0.clone(), self.entries[i].1.clone());
            if !text::same(e.0.as_str(), key) {
                let ghost before = kept@;
                kept.push(e);
                assert(entry_views(kept@) =~= entry_views(before).push((e.0@, e.1@)));
            }
            i += 1;
        }
        assert(self@.subrange(0, i as int) =~= self@);
        self.entries = kept;
    }

    /// Gives every name of another map its value there.
    pub fn extend(&mut self, more: &StringMap)
        ensures
            final(self)@ == with_all(old(self)@, more@),
    {
        let mut i: usize = 0;
        while i < more.entries.len()
            invariant
                i <= more.entries.len(),
                self@ == with_all(old(self)@, more@.subrange(0, i as int)),
            decreases more.entries.len() - i,
        {
            assert(more@.subrange(0, i + 1).drop_last() =~= more@.subrange(0, i as int));
            self.insert(more.entries[i].0.as_str(), more.entries[i].1.as_str());
            i += 1;
        }
        assert(more@.subrange(0, i as int) =~= more@);
    }

    /// A copy of the map.
    pub fn duplicate(&self) -> (r: StringMap)
        ensures
            r@ == self@,
    {
        let mut out: Vec<(String, String)> = Vec::new();
        let mut i: usize = 0;
        while i < self.entries.len()
            invariant
                i <= self.entries.len(),
                entry_views(out@) == self@.subrange(0, i as int),
            decreases self.entries.len() - i,
        {
            let ghost before = out@;
            let e: (String, String) = (self.entries[i].0.clone(), self.entries[i].1.clone());
            out.push(e);
            assert(entry_views(out@) =~= entry_views(before).push((e.0@, e.1@)));
            assert(self@.subrange(0, i + 1) =~= self@.subrange(0, i as int).push(self@[i as int]));
            i += 1;
        }
        assert(self@.subrange(0, i as int) =~= self@);
        StringMap { entries: out }
    }
}

} // verus!
