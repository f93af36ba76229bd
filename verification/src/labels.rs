//! A table from label names to values; a later definition of a name
//! replaces the earlier one.
use vstd::prelude::*;

verus! {

/// Label names and their values, each name at most once.
#[derive(Debug, Clone)]
pub struct LabelMap<V> {
    entries: Vec<(Vec<char>, V)>,
}

/// The map that a list of entries denotes, later entries taking precedence.
pub open spec fn spec_entries_map<V>(entries: Seq<(Seq<char>, V)>) -> Map<Seq<char>, V>
    decreases entries.len(),
{
    if entries.len() == 0 {
        Map::empty()
    } else {
        spec_entries_map(entries.drop_last()).insert(entries.last().0, entries.last().1)
    }
}

impl<V: Copy> LabelMap<V> {
    /// The names and values of the entries.
    pub closed spec fn entry_seq(&self) -> Seq<(Seq<char>, V)> {
        self.entries@.map_values(|e: (Vec<char>, V)| (e.0@, e.1))
    }

    /// Each name occurs in at most one entry.
    pub closed spec fn wf(&self) -> bool {
        forall|i: int, j: int|
            0 <= i < j < self.entries@.len() ==> #[trigger] self.entries@[i].0@ != #[trigger] self.entries@[j].0@
    }

    /// The map from names to values.
    pub closed spec fn view(&self) -> Map<Seq<char>, V> {
        spec_entries_map(self.entry_seq())
    }

    proof fn lemma_view(&self, i: int)
        requires
            self.wf(),
            0 <= i < self.entries@.len(),
        ensures
            self@.contains_key(self.entries@[i].0@),
            self@[self.entries@[i].0@] == self.entries@[i].1,
    {
        lemma_entries_map_at(self.entry_seq(), i);
    }

    proof fn lemma_view_absent(&self, k: Seq<char>)
        requires
            forall|i: int| 0 <= i < self.entries@.len() ==> self.entries@[i].0@ != k,
        ensures
            !self@.contains_key(k),
    {
        lemma_entries_map_absent(self.entry_seq(), k);
    }

    /// An empty table.
    pub fn new() -> (r: Self)
        ensures
            r.wf(),
            r@ == Map::<Seq<char>, V>::empty(),
    {
        let r = LabelMap { entries: Vec::new() };
        assert(r.entry_seq() =~= Seq::<(Seq<char>, V)>::empty());
        r
    }

    fn position(&self, name: &Vec<char>) -> (r: Option<usize>)
        requires
            self.wf(),
        ensures
            match r {
                Some(i) => i < self.entries@.len() && self.entries@[i as int].0@ == name@,
                None => forall|i: int| 0 <= i < self.entries@.len() ==> self.entries@[i].0@ != name@,
            },
    {
        let mut i: usize = 0;
        while i < self.entries.len()
            invariant
                i <= self.entries@.len(),
                forall|k: int| 0 <= k < i ==> self.entries@[k].0@ != name@,
            decreases self.entries.len() - i,
        {
            if vec_chars_equal(&self.entries[i].0, name) {
                return Some(i);
            }
            i = i + 1;
        }
        None
    }

    /// The value of `name`, if it has one.
    pub fn get(&self, name: &Vec<char>) -> (r: Option<V>)
        requires
            self.wf(),
        ensures
            r == (if self@.contains_key(name@) { Some(self@[name@]) } else { None }),
    {
        match self.position(name) {
            Some(i) => {
                proof { self.lemma_view(i as int); }
                Some(self.entries[i].1)
            },
            None => {
                proof { self.lemma_view_absent(name@); }
                None
            },
        }
    }

    /// Whether `name` has a value.
    pub fn contains_key(&self, name: &Vec<char>) -> (r: bool)
        requires
            self.wf(),
        ensures
            r == self@.contains_key(name@),
    {
        self.get(name).is_some()
    }

    /// Gives `name` the value `value`, replacing any earlier one.
    pub fn insert(&mut self, name: Vec<char>, value: V)
        requires
            old(self).wf(),
        ensures
            final(self).wf(),
            final(self)@ == old(self)@.insert(name@, value),
    {
        let ghost old_entries = self.entry_seq();
        match self.position(&name) {
            Some(i) => {
                let ghost key = name@;
                self.entries.set(i, (name, value));
                proof {
                    assert(self.entry_seq() =~= old_entries.update(i as int, (key, value)));
                    lemma_entries_map_update(old_entries, i as int, key, value);
                }
            },
            None => {
                let ghost key = name@;
                self.entries.push((name, value));
                proof {
                    assert(self.entry_seq().drop_last() =~= old_entries);
                }
            },
        }
    }
}

/// Whether two character vectors are equal.
pub fn vec_chars_equal(a: &Vec<char>, b: &Vec<char>) -> (r: bool)
    ensures
        r == (a@ == b@),
{
    if a.len() != b.len() {
        return false;
    }
    let mut i: usize = 0;
    while i < a.len()
        invariant
            a@.len() == b@.len(),
            i <= a@.len(),
            forall|k: int| 0 <= k < i ==> a@[k] == b@[k],
        decreases a.len() - i,
    {
        if a[i] != b[i] {
            return false;
        }
        i = i + 1;
    }
    assert(a@ =~= b@);
    true
}

proof fn lemma_entries_map_at<V>(entries: Seq<(Seq<char>, V)>, i: int)
    requires
        0 <= i < entries.len(),
        forall|a: int, b: int| 0 <= a < b < entries.len() ==> entries[a].0 != entries[b].0,
    ensures
        spec_entries_map(entries).contains_key(entries[i].0),
        spec_entries_map(entries)[entries[i].0] == entries[i].1,
    decreases entries.len(),
{
    if i < entries.len() - 1 {
        lemma_entries_map_at(entries.drop_last(), i);
    }
}

proof fn lemma_entries_map_absent<V>(entries: Seq<(Seq<char>, V)>, k: Seq<char>)
    requires
        forall|i: int| 0 <= i < entries.len() ==> entries[i].0 != k,
    ensures
        !spec_entries_map(entries).contains_key(k),
    decreases entries.len(),
{
    if entries.len() > 0 {
        lemma_entries_map_absent(entries.drop_last(), k);
    }
}

proof fn lemma_entries_map_update<V>(entries: Seq<(Seq<char>, V)>, i: int, k: Seq<char>, v: V)
    requires
        0 <= i < entries.len(),
        entries[i].0 == k,
        forall|a: int, b: int| 0 <= a < b < entries.len() ==> entries[a].0 != entries[b].0,
    ensures
        spec_entries_map(entries.update(i, (k, v))) == spec_entries_map(entries).insert(k, v),
    decreases entries.len(),
{
    let u = entries.update(i, (k, v));
    if i == entries.len() - 1 {
        assert(u.drop_last() =~= entries.drop_last());
        assert(spec_entries_map(entries).insert(k, v) =~= spec_entries_map(entries.drop_last()).insert(k, v));
    } else {
        assert(u.drop_last() =~= entries.drop_last().update(i, (k, v)));
        lemma_entries_map_update(entries.drop_last(), i, k, v);
        assert(spec_entries_map(u) =~= spec_entries_map(entries).insert(k, v));
    }
}

} // verus!
