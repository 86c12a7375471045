//! The configuration mapping: command names to command records.
//!
//! A mapping keeps its entries in the strict order of their names, so no
//! name occurs twice and the entries come out in one fixed order whatever
//! the order in which they were put in.

use vstd::prelude::*;
use crate::names::{compare, lemma_name_irreflexive, lemma_name_transitive, name_before, Order};
use crate::record::{Command, CommandView};

verus! {

/// One named command of a mapping.
#[derive(Debug, PartialEq, Eq)]
pub struct Entry {
    pub name: String,
    pub command: Command,
}

impl Clone for Entry {
    fn clone(&self) -> (copy: Self)
        ensures
            copy.name@ == self.name@,
            copy.command@ == self.command@,
    {
        Entry { name: self.name.clone(), command: self.command.clone() }
    }
}

/// The names of `s` stand in strict order.
pub open spec fn ascending(s: Seq<Entry>) -> bool {
    forall|i: int, j: int|
        #![trigger s[i], s[j]]
        0 <= i < j < s.len() ==> name_before(s[i].name@, s[j].name@)
}

/// Entry `i` of `s` carries `name`.
pub open spec fn names_entry(s: Seq<Entry>, i: int, name: Seq<char>) -> bool {
    0 <= i < s.len() && s[i].name@ == name
}

/// Some entry of `s` carries `name`.
pub open spec fn holds(s: Seq<Entry>, name: Seq<char>) -> bool {
    exists|i: int| names_entry(s, i, name)
}

/// The place of the entry of `s` that carries `name`.
pub open spec fn place_of(s: Seq<Entry>, name: Seq<char>) -> int {
    choose|i: int| names_entry(s, i, name)
}

/// The mapping that a list of entries stands for.
pub open spec fn mapping_of(s: Seq<Entry>) -> Map<Seq<char>, CommandView> {
    Map::new(|k: Seq<char>| holds(s, k), |k: Seq<char>| s[place_of(s, k)].command@)
}

/// In a list in strict order, a name has one place only.
pub proof fn lemma_one_place(s: Seq<Entry>, i: int)
    requires
        ascending(s),
        0 <= i < s.len(),
    ensures
        holds(s, s[i].name@),
        place_of(s, s[i].name@) == i,
        mapping_of(s).contains_key(s[i].name@),
        mapping_of(s)[s[i].name@] == s[i].command@,
{
    assert(names_entry(s, i, s[i].name@));
    let j = place_of(s, s[i].name@);
    if j < i {
        assert(name_before(s[j].name@, s[i].name@));
        lemma_name_irreflexive(s[j].name@, s[i].name@);
    } else if i < j {
        assert(name_before(s[i].name@, s[j].name@));
        lemma_name_irreflexive(s[i].name@, s[j].name@);
    }
}

/// A name that falls strictly between entry `p - 1` and entry `p` is none
/// of the list's names.
pub proof fn lemma_gap_is_absent(s: Seq<Entry>, name: Seq<char>, p: int)
    requires
        ascending(s),
        0 <= p <= s.len(),
        forall|j: int| 0 <= j < p ==> name_before(#[trigger] s[j].name@, name),
        p == s.len() || name_before(name, s[p].name@),
    ensures
        !holds(s, name),
        forall|j: int| p <= j < s.len() ==> name_before(name, #[trigger] s[j].name@),
{
    assert forall|j: int| p <= j < s.len() implies name_before(name, #[trigger] s[j].name@) by {
        if p < j {
            assert(name_before(s[p].name@, s[j].name@));
            lemma_name_transitive(name, s[p].name@, s[j].name@);
        }
    }
    if holds(s, name) {
        let i = place_of(s, name);
        assert(names_entry(s, i, name));
        if i < p {
            lemma_name_irreflexive(s[i].name@, name);
        } else {
            lemma_name_irreflexive(name, s[i].name@);
        }
    }
}

/// Putting a new name into its gap keeps the order and adds one binding.
pub proof fn lemma_insert(s: Seq<Entry>, e: Entry, p: int)
    requires
        ascending(s),
        0 <= p <= s.len(),
        forall|j: int| 0 <= j < p ==> name_before(#[trigger] s[j].name@, e.name@),
        p == s.len() || name_before(e.name@, s[p].name@),
    ensures
        ascending(s.insert(p, e)),
        mapping_of(s.insert(p, e)) == mapping_of(s).insert(e.name@, e.command@),
{
    let t = s.insert(p, e);
    lemma_gap_is_absent(s, e.name@, p);
    assert forall|i: int, j: int| 0 <= i < j < t.len() implies name_before(
        t[i].name@,
        t[j].name@,
    ) by {
        if j < p {
            assert(name_before(s[i].name@, s[j].name@));
        } else if j == p {
            assert(name_before(s[i].name@, e.name@));
        } else if i < p {
            assert(name_before(s[i].name@, s[j - 1].name@));
        } else if i == p {
            assert(name_before(e.name@, s[j - 1].name@));
        } else {
            assert(name_before(s[i - 1].name@, s[j - 1].name@));
        }
    }
    let m = mapping_of(s).insert(e.name@, e.command@);
    assert forall|k: Seq<char>| mapping_of(t).contains_key(k) <==> m.contains_key(k) by {
        if holds(t, k) {
            let i = place_of(t, k);
            assert(names_entry(t, i, k));
            if i < p {
                assert(names_entry(s, i, k));
            } else if i > p {
                assert(names_entry(s, i - 1, k));
            }
        }
        if holds(s, k) {
            let i = place_of(s, k);
            assert(names_entry(s, i, k));
            if i < p {
                assert(names_entry(t, i, k));
            } else {
                assert(names_entry(t, i + 1, k));
            }
        }
        if k == e.name@ {
            assert(names_entry(t, p, k));
        }
    }
    assert forall|k: Seq<char>| mapping_of(t).contains_key(k) implies mapping_of(t)[k] == m[k] by {
        let i = place_of(t, k);
        assert(names_entry(t, i, k));
        lemma_one_place(t, i);
        if i < p {
            lemma_one_place(s, i);
        } else if i > p {
            lemma_one_place(s, i - 1);
        }
    }
    assert(mapping_of(t) =~= m);
}

/// Taking an entry out keeps the order and drops its binding.
pub proof fn lemma_remove(s: Seq<Entry>, p: int)
    requires
        ascending(s),
        0 <= p < s.len(),
    ensures
        ascending(s.remove(p)),
        mapping_of(s.remove(p)) == mapping_of(s).remove(s[p].name@),
{
    let t = s.remove(p);
    let m = mapping_of(s).remove(s[p].name@);
    assert forall|i: int, j: int| 0 <= i < j < t.len() implies name_before(
        t[i].name@,
        t[j].name@,
    ) by {
        let a = if i < p { i } else { i + 1 };
        let b = if j < p { j } else { j + 1 };
        assert(name_before(s[a].name@, s[b].name@));
    }
    assert forall|k: Seq<char>| mapping_of(t).contains_key(k) <==> m.contains_key(k) by {
        if holds(t, k) {
            let i = place_of(t, k);
            assert(names_entry(t, i, k));
            let a = if i < p { i } else { i + 1 };
            assert(names_entry(s, a, k));
            lemma_one_place(s, a);
            lemma_one_place(s, p);
        }
        if holds(s, k) && k != s[p].name@ {
            let i = place_of(s, k);
            assert(names_entry(s, i, k));
            let a = if i < p { i } else { i - 1 };
            assert(names_entry(t, a, k));
        }
    }
    assert forall|k: Seq<char>| mapping_of(t).contains_key(k) implies mapping_of(t)[k] == m[k] by {
        let i = place_of(t, k);
        assert(names_entry(t, i, k));
        lemma_one_place(t, i);
        let a = if i < p { i } else { i + 1 };
        lemma_one_place(s, a);
    }
    assert(mapping_of(t) =~= m);
}

/// A list in strict order stands for a finite mapping with one binding for
/// each entry.
pub proof fn lemma_size(s: Seq<Entry>)
    requires
        ascending(s),
    ensures
        mapping_of(s).dom().finite(),
        mapping_of(s).dom().len() == s.len(),
    decreases s.len(),
{
    if s.len() == 0 {
        assert(mapping_of(s).dom() =~= Set::<Seq<char>>::empty()) by {
            assert forall|k: Seq<char>| !holds(s, k) by {
                if holds(s, k) {
                    assert(names_entry(s, place_of(s, k), k));
                }
            }
        }
    } else {
        let p = s.len() - 1;
        let t = s.remove(p);
        lemma_remove(s, p);
        lemma_size(t);
        lemma_one_place(s, p);
        assert(mapping_of(s).dom() =~= mapping_of(t).dom().insert(s[p].name@));
    }
}

/// Two lists that agree entry by entry stand for the same mapping.
pub proof fn lemma_same_entries(s: Seq<Entry>, t: Seq<Entry>)
    requires
        s.len() == t.len(),
        forall|i: int|
            0 <= i < s.len() ==> (#[trigger] t[i]).name@ == s[i].name@ && t[i].command@
                == s[i].command@,
    ensures
        ascending(s) ==> ascending(t),
        ascending(s) ==> mapping_of(t) == mapping_of(s),
{
    if ascending(s) {
        assert forall|i: int, j: int| 0 <= i < j < t.len() implies name_before(
            t[i].name@,
            t[j].name@,
        ) by {
            assert(name_before(s[i].name@, s[j].name@));
        }
        assert forall|k: Seq<char>| mapping_of(t).contains_key(k) <==> mapping_of(s).contains_key(
            k,
        ) by {
            if holds(t, k) {
                assert(names_entry(s, place_of(t, k), k));
            }
            if holds(s, k) {
                assert(names_entry(t, place_of(s, k), k));
            }
        }
        assert forall|k: Seq<char>| mapping_of(t).contains_key(k) implies mapping_of(t)[k]
            == mapping_of(s)[k] by {
            let i = place_of(t, k);
            assert(names_entry(t, i, k));
            lemma_one_place(t, i);
            lemma_one_place(s, i);
        }
        assert(mapping_of(t) =~= mapping_of(s));
    }
}

/// Finds where `name` stands among `entries`, or the gap where it belongs,
/// by halving the stretch in which it can stand.
fn position(entries: &Vec<Entry>, name: &str) -> (r: (usize, bool))
    requires
        ascending(entries@),
    ensures
        r.0 <= entries.len(),
        forall|j: int| 0 <= j < r.0 ==> name_before(#[trigger] entries@[j].name@, name@),
        r.1 ==> r.0 < entries.len() && entries@[r.0 as int].name@ == name@,
        !r.1 ==> r.0 == entries.len() || name_before(name@, entries@[r.0 as int].name@),
        r.1 == holds(entries@, name@),
{
    let mut low: usize = 0;
    let mut high: usize = entries.len();
    while low < high
        invariant
            low <= high <= entries.len(),
            ascending(entries@),
            forall|j: int| 0 <= j < low ==> name_before(#[trigger] entries@[j].name@, name@),
            forall|j: int|
                high <= j < entries.len() ==> name_before(name@, #[trigger] entries@[j].name@),
        decreases high - low,
    {
        let mid = low + (high - low) / 2;
        match compare(entries[mid].name.as_str(), name) {
            Order::Before => {
                proof {
                    assert forall|j: int| 0 <= j < mid + 1 implies name_before(
                        #[trigger] entries@[j].name@,
                        name@,
                    ) by {
                        if j < mid {
                            assert(name_before(entries@[j].name@, entries@[mid as int].name@));
                            lemma_name_transitive(
                                entries@[j].name@,
                                entries@[mid as int].name@,
                                name@,
                            );
                        }
                    }
                }
                low = mid + 1;
            },
            Order::Same => {
                proof {
                    assert(names_entry(entries@, mid as int, name@));
                    assert forall|j: int| 0 <= j < mid implies name_before(
                        #[trigger] entries@[j].name@,
                        name@,
                    ) by {
                        assert(name_before(entries@[j].name@, entries@[mid as int].name@));
                    }
                }
                return (mid, true);
            },
            Order::After => {
                proof {
                    assert forall|j: int| mid <= j < entries.len() implies name_before(
                        name@,
                        #[trigger] entries@[j].name@,
                    ) by {
                        if mid < j {
                            assert(name_before(entries@[mid as int].name@, entries@[j].name@));
                            lemma_name_transitive(
                                name@,
                                entries@[mid as int].name@,
                                entries@[j].name@,
                            );
                        }
                    }
                }
                high = mid;
            },
        }
    }
    proof {
        lemma_gap_is_absent(entries@, name@, low as int);
    }
    (low, false)
}

/// A mapping from command names to command records.
#[derive(Debug, PartialEq, Eq)]
pub struct CommandMap {
    entries: Vec<Entry>,
}

impl View for CommandMap {
    type V = Map<Seq<char>, CommandView>;

    closed spec fn view(&self) -> Map<Seq<char>, CommandView> {
        mapping_of(self.entries@)
    }
}

impl Clone for CommandMap {
    fn clone(&self) -> (copy: Self)
        ensures
            copy@ == self@,
    {
        proof {
            use_type_invariant(self);
        }
        let mut entries: Vec<Entry> = Vec::new();
        let mut i: usize = 0;
        while i < self.entries.len()
            invariant
                i <= self.entries.len(),
                entries.len() == i,
                forall|j: int|
                    0 <= j < i ==> (#[trigger] entries@[j]).name@ == self.entries@[j].name@
                        && entries@[j].command@ == self.entries@[j].command@,
            decreases self.entries.len() - i,
        {
            entries.push(self.entries[i].clone());
            i += 1;
        }
        proof {
            lemma_same_entries(self.entries@, entries@);
        }
        CommandMap { entries }
    }
}

impl CommandMap {
    #[verifier::type_invariant]
    spec fn in_order(self) -> bool {
        ascending(self.entries@)
    }

    /// The empty mapping.
    pub fn new() -> (m: Self)
        ensures
            m@ == Map::<Seq<char>, CommandView>::empty(),
    {
        let m = CommandMap { entries: Vec::new() };
        proof {
            lemma_size(m.entries@);
            assert(m@ =~= Map::<Seq<char>, CommandView>::empty());
        }
        m
    }

    /// The number of names defined.
    pub fn len(&self) -> (n: usize)
        ensures
            self@.dom().finite(),
            n == self@.len(),
    {
        proof {
            use_type_invariant(self);
            lemma_size(self.entries@);
        }
        self.entries.len()
    }

    /// Whether no name is defined.
    pub fn is_empty(&self) -> (b: bool)
        ensures
            b == (self@ == Map::<Seq<char>, CommandView>::empty()),
    {
        proof {
            use_type_invariant(self);
            lemma_size(self.entries@);
            if self.entries@.len() == 0 {
                assert(self@ =~= Map::<Seq<char>, CommandView>::empty());
            }
        }
        self.entries.len() == 0
    }

    /// Whether `name` is defined.
    pub fn contains_key(&self, name: &str) -> (b: bool)
        ensures
            b == self@.contains_key(name@),
    {
        proof {
            use_type_invariant(self);
        }
        let (_, found) = position(&self.entries, name);
        found
    }

    /// The record that `name` stands for.
    pub fn get(&self, name: &str) -> (found: Option<&Command>)
        ensures
            match found {
                Some(c) => self@.contains_key(name@) && c@ == self@[name@],
                None => !self@.contains_key(name@),
            },
    {
        proof {
            use_type_invariant(self);
        }
        let (at, found) = position(&self.entries, name);
        if found {
            proof {
                lemma_one_place(self.entries@, at as int);
            }
            Some(&self.entries[at].command)
        } else {
            None
        }
    }

    /// Binds `name` to `command`, and hands back the record it stood for.
    pub fn insert(&mut self, name: String, command: Command) -> (previous: Option<Command>)
        ensures
            final(self)@ == old(self)@.insert(name@, command@),
            match previous {
                Some(c) => old(self)@.contains_key(name@) && c@ == old(self)@[name@],
                None => !old(self)@.contains_key(name@),
            },
    {
        proof {
            use_type_invariant(&*self);
        }
        let mut entries: Vec<Entry> = Vec::new();
        std::mem::swap(&mut entries, &mut self.entries);
        let ghost before = entries@;
        let (at, found) = position(&entries, name.as_str());
        let previous = if found {
            proof {
                lemma_one_place(before, at as int);
                lemma_remove(before, at as int);
            }
            let taken = entries.remove(at);
            Some(taken.command)
        } else {
            None
        };
        let entry = Entry { name, command };
        proof {
            lemma_insert(entries@, entry, at as int);
            assert(mapping_of(entries@.insert(at as int, entry)) =~= mapping_of(before).insert(
                entry.name@,
                entry.command@,
            ));
        }
        entries.insert(at, entry);
        self.entries = entries;
        previous
    }

    /// Drops the binding of `name`, and hands back the record it stood for.
    pub fn remove(&mut self, name: &str) -> (removed: Option<Command>)
        ensures
            final(self)@ == old(self)@.remove(name@),
            match removed {
                Some(c) => old(self)@.contains_key(name@) && c@ == old(self)@[name@],
                None => !old(self)@.contains_key(name@),
            },
    {
        proof {
            use_type_invariant(&*self);
        }
        let (at, found) = position(&self.entries, name);
        if found {
            let mut entries: Vec<Entry> = Vec::new();
            std::mem::swap(&mut entries, &mut self.entries);
            proof {
                lemma_one_place(entries@, at as int);
                lemma_remove(entries@, at as int);
            }
            let taken = entries.remove(at);
            self.entries = entries;
            Some(taken.command)
        } else {
            proof {
                assert(self@ =~= self@.remove(name@));
            }
            None
        }
    }

    /// The entries, in the order of their names.
    pub fn entries(&self) -> (list: &Vec<Entry>)
        ensures
            ascending(list@),
            mapping_of(list@) == self@,
    {
        proof {
            use_type_invariant(self);
        }
        &self.entries
    }
}

} // verus!
