//! A table from one name to one text: the packages of a repository with their
//! versions, or the names of one repository with the names that another
//! repository has for the same packages.

use vstd::hash_map::StringHashMap;
use vstd::prelude::*;

verus! {

/// A table from names to texts. It has at most one entry for a name; an
/// insertion under a name that it holds replaces the text. Beside the table
/// itself (`view`), the order in which the names first came in is kept
/// (`names`).
pub struct PackageMap {
    entries: Vec<(String, String)>,
    index: StringHashMap<usize>,
}

/// The table that a row of entries makes, each a name and the text for it: an
/// entry replaces what an earlier one put under the same name.
pub open spec fn table_of(entries: Seq<(Seq<char>, Seq<char>)>) -> Map<Seq<char>, Seq<char>>
    decreases entries.len(),
{
    if entries.len() == 0 {
        Map::empty()
    } else {
        table_of(entries.drop_last()).insert(entries.last().0, entries.last().1)
    }
}

/// The names of a row of entries, each once, in the order in which they first
/// occur.
pub open spec fn names_of(entries: Seq<(Seq<char>, Seq<char>)>) -> Seq<Seq<char>>
    decreases entries.len(),
{
    if entries.len() == 0 {
        Seq::empty()
    } else {
        let before = names_of(entries.drop_last());
        if before.contains(entries.last().0) {
            before
        } else {
            before.push(entries.last().0)
        }
    }
}

/// The names of a row of entries are the names of its table.
pub proof fn lemma_names_of(entries: Seq<(Seq<char>, Seq<char>)>, name: Seq<char>)
    ensures
        names_of(entries).contains(name) <==> table_of(entries).contains_key(name),
    decreases entries.len(),
{
    if entries.len() > 0 {
        let before = names_of(entries.drop_last());
        lemma_names_of(entries.drop_last(), name);
        vstd::seq_lib::lemma_seq_contains_after_push(before, entries.last().0, name);
    }
}

/// A table has no more names than entries went into it.
pub proof fn lemma_table_size(entries: Seq<(Seq<char>, Seq<char>)>)
    ensures
        table_of(entries).dom().finite(),
        table_of(entries).len() <= entries.len(),
    decreases entries.len(),
{
    if entries.len() > 0 {
        lemma_table_size(entries.drop_last());
    }
}

/// A table holds the names of its entries and no others.
pub proof fn lemma_table_names(entries: Seq<(Seq<char>, Seq<char>)>, name: Seq<char>)
    ensures
        table_of(entries).contains_key(name) <==> exists|i: int|
            0 <= i < entries.len() && (#[trigger] entries[i]).0 == name,
    decreases entries.len(),
{
    if entries.len() > 0 {
        let init = entries.drop_last();
        lemma_table_names(init, name);
        if entries.last().0 != name {
            if exists|i: int| 0 <= i < entries.len() && (#[trigger] entries[i]).0 == name {
                let i = choose|i: int| 0 <= i < entries.len() && (#[trigger] entries[i]).0 == name;
                assert(init[i].0 == name);
            }
        }
    }
}

/// Under a name a table holds the text of the last entry that has the name.
pub proof fn lemma_table_last_wins(entries: Seq<(Seq<char>, Seq<char>)>, i: int)
    requires
        0 <= i < entries.len(),
        forall|j: int| i < j < entries.len() ==> (#[trigger] entries[j]).0 != entries[i].0,
    ensures
        table_of(entries).contains_key(entries[i].0),
        table_of(entries)[entries[i].0] == entries[i].1,
    decreases entries.len(),
{
    if i < entries.len() - 1 {
        let init = entries.drop_last();
        lemma_table_last_wins(init, i);
    }
}

impl View for PackageMap {
    type V = Map<Seq<char>, Seq<char>>;

    closed spec fn view(&self) -> Map<Seq<char>, Seq<char>> {
        Map::new(
            |name: Seq<char>| self.index@.contains_key(name),
            |name: Seq<char>| self.entries@[self.index@[name] as int].1@,
        )
    }
}

impl PackageMap {
    /// The index leads from each name to its entry, and to nothing else.
    #[verifier::type_invariant]
    spec fn well_formed(self) -> bool {
        &&& forall|i: int|
            0 <= i < self.entries@.len() ==> self.index@.contains_key(
                (#[trigger] self.entries@[i]).0@,
            ) && self.index@[self.entries@[i].0@] == i
        &&& forall|name: Seq<char>| #[trigger]
            self.index@.contains_key(name) ==> self.index@[name] < self.entries@.len()
                && self.entries@[self.index@[name] as int].0@ == name
    }

    /// The names of the table, in the order in which they were first inserted.
    pub closed spec fn names(&self) -> Seq<Seq<char>> {
        Seq::new(self.entries@.len(), |i: int| self.entries@[i].0@)
    }

    /// The names of a table are its keys, each once.
    proof fn lemma_names(self)
        requires
            self.well_formed(),
        ensures
            self.names().no_duplicates(),
            self.names().to_set() == self@.dom(),
            self@.dom().finite(),
            self@.len() == self.names().len(),
    {
        let names = self.names();
        assert forall|i: int, j: int|
            0 <= i < names.len() && 0 <= j < names.len() && i != j implies names[i] != names[j] by {
            assert(self.index@[self.entries@[i].0@] == i);
            assert(self.index@[self.entries@[j].0@] == j);
        }
        assert forall|name: Seq<char>| names.to_set().contains(name) <==> self@.dom().contains(
            name,
        ) by {
            if self@.dom().contains(name) {
                assert(names[self.index@[name] as int] == name);
            }
        }
        assert(names.to_set() =~= self@.dom());
        names.unique_seq_to_set();
        vstd::seq_lib::seq_to_set_is_finite(names);
    }

    /// A table without entries.
    pub fn new() -> (m: Self)
        ensures
            m@ == Map::<Seq<char>, Seq<char>>::empty(),
            m.names() == Seq::<Seq<char>>::empty(),
    {
        let m = PackageMap { entries: Vec::new(), index: StringHashMap::new() };
        m
    }

    /// The number of entries. The names are the keys of the table, each once.
    pub fn len(&self) -> (n: usize)
        ensures
            n == self.names().len(),
            n == self@.len(),
            self@.dom().finite(),
            self.names().no_duplicates(),
            self.names().to_set() == self@.dom(),
    {
        proof {
            use_type_invariant(self);
            self.lemma_names();
        }
        self.entries.len()
    }

    /// The text that stands under `name`.
    pub fn get(&self, name: &str) -> (r: Option<&String>)
        ensures
            r is Some <==> self@.contains_key(name@),
            r matches Some(text) ==> text@ == self@[name@],
    {
        proof {
            use_type_invariant(self);
        }
        match self.index.get(name) {
            Some(i) => Some(&self.entries[*i].1),
            None => None,
        }
    }

    /// The `i`-th name, in the order of `names`, and the text under it.
    pub fn entry(&self, i: usize) -> (r: (&String, &String))
        requires
            i < self.names().len(),
        ensures
            r.0@ == self.names()[i as int],
            self@.contains_key(r.0@),
            r.1@ == self@[r.0@],
    {
        proof {
            use_type_invariant(self);
        }
        let e = &self.entries[i];
        (&e.0, &e.1)
    }

    /// Puts `text` under `name`, in place of what stood there.
    pub fn insert(&mut self, name: String, text: String)
        ensures
            final(self)@ == old(self)@.insert(name@, text@),
            final(self).names() == if old(self)@.contains_key(name@) {
                old(self).names()
            } else {
                old(self).names().push(name@)
            },
    {
        proof {
            use_type_invariant(&*self);
        }
        let ghost before = *self;
        let mut taken = PackageMap::new();
        std::mem::swap(self, &mut taken);
        let PackageMap { mut entries, mut index } = taken;
        match index.get(name.as_str()) {
            Some(i) => {
                let i = *i;
                entries.set(i, (name, text));
            },
            None => {
                index.insert(name.clone(), entries.len());
                entries.push((name, text));
            },
        }
        *self = PackageMap { entries, index };
        assert(self.names() =~= if before@.contains_key(name@) {
            before.names()
        } else {
            before.names().push(name@)
        });
    }

    /// The entries, in the order of `names`.
    pub fn pairs(&self) -> (out: Vec<(String, String)>)
        ensures
            out@.len() == self.names().len(),
            forall|i: int|
                0 <= i < out@.len() ==> (#[trigger] out@[i]).0@ == self.names()[i] && out@[i].1@
                    == self@[self.names()[i]],
    {
        let mut out: Vec<(String, String)> = Vec::new();
        let n = self.len();
        let mut i: usize = 0;
        while i < n
            invariant
                i <= n,
                n == self.names().len(),
                out@.len() == i,
                forall|j: int|
                    0 <= j < i ==> (#[trigger] out@[j]).0@ == self.names()[j] && out@[j].1@
                        == self@[self.names()[j]],
            decreases n - i,
        {
            let (name, text) = self.entry(i);
            out.push((name.clone(), text.clone()));
            i += 1;
        }
        out
    }
}

} // verus!
