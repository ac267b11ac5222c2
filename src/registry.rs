use vstd::prelude::*;

use crate::text::same_text;

verus! {

/// The map that a list of (name, path) pairs gives when each pair is
/// inserted in turn, so that a later pair for a name overrides an earlier one.
spec fn entries_map(e: Seq<(String, String)>) -> Map<Seq<char>, Seq<char>>
    decreases e.len(),
{
    if e.len() == 0 {
        Map::empty()
    } else {
        entries_map(e.drop_last()).insert(e.last().0@, e.last().1@)
    }
}

/// `m` with each (name, path) pair of `e` inserted in turn.
pub open spec fn insert_all(m: Map<Seq<char>, Seq<char>>, e: Seq<(String, String)>) -> Map<
    Seq<char>,
    Seq<char>,
>
    decreases e.len(),
{
    if e.len() == 0 {
        m
    } else {
        insert_all(m, e.drop_last()).insert(e.last().0@, e.last().1@)
    }
}

/// Executable names found in the search path, each with its absolute path.
pub struct Registry {
    entries: Vec<(String, String)>,
}

impl View for Registry {
    type V = Map<Seq<char>, Seq<char>>;

    closed spec fn view(&self) -> Map<Seq<char>, Seq<char>> {
        entries_map(self.entries@)
    }
}

/// Entries at or after index `i` do not name `k`, so the map of the
/// whole list agrees on `k` with the map of its first `i` entries.
proof fn lemma_tail_without(e: Seq<(String, String)>, i: int, k: Seq<char>)
    requires
        0 <= i <= e.len(),
        forall|j: int| i <= j < e.len() ==> (#[trigger] e[j]).0@ != k,
    ensures
        entries_map(e).contains_key(k) == entries_map(e.take(i)).contains_key(k),
        entries_map(e).contains_key(k) ==> entries_map(e)[k] == entries_map(e.take(i))[k],
    decreases e.len() - i,
{
    if i < e.len() {
        let d = e.drop_last();
        assert forall|j: int| i <= j < d.len() implies (#[trigger] d[j]).0@ != k by {
            assert(d[j] == e[j]);
        }
        assert(e.last() == e[e.len() - 1]);
        lemma_tail_without(d, i, k);
        assert(d.take(i) =~= e.take(i));
    } else {
        assert(e.take(i) =~= e);
    }
}

impl Registry {
    /// A registry with no entries.
    pub fn new() -> (r: Registry)
        ensures
            r@ == Map::<Seq<char>, Seq<char>>::empty(),
    {
        Registry { entries: Vec::new() }
    }

    /// Records `path` for `name`, replacing what was recorded for it.
    pub fn insert(&mut self, name: String, path: String)
        ensures
            final(self)@ == old(self)@.insert(name@, path@),
    {
        let ghost old_entries = self.entries@;
        self.entries.push((name, path));
        assert(self.entries@.drop_last() =~= old_entries);
    }

    /// Records each (name, path) pair in order; a later pair for a name wins.
    pub fn refresh(&mut self, found: Vec<(String, String)>)
        ensures
            final(self)@ == insert_all(old(self)@, found@),
    {
        let ghost start = self@;
        let ghost all = found@;
        for pair in it: found
            invariant
                it.seq() == all,
                self@ == insert_all(start, all.take(it.index() as int)),
        {
            self.insert(pair.0, pair.1);
            assert(all.take(it.index() + 1).drop_last() =~= all.take(it.index() as int));
        }
        assert(all.take(all.len() as int) =~= all);
    }

    /// The path recorded for `name`, if any.
    pub fn lookup(&self, name: &str) -> (r: Option<&String>)
        ensures
            r is Some == self@.contains_key(name@),
            r is Some ==> r.unwrap()@ == self@[name@],
    {
        let mut i = self.entries.len();
        while i > 0
            invariant
                i <= self.entries@.len(),
                forall|j: int| i <= j < self.entries@.len() ==> (#[trigger] self.entries@[j]).0@
                    != name@,
            decreases i,
        {
            let entry = &self.entries[i - 1];
            if same_text(entry.0.as_str(), name) {
                proof {
                    let e = self.entries@;
                    lemma_tail_without(e, i as int, name@);
                    assert(e.take(i as int).drop_last() =~= e.take(i - 1));
                    assert(e.take(i as int).last() == e[i - 1]);
                }
                return Some(&entry.1);
            }
            i = i - 1;
        }
        proof {
            lemma_tail_without(self.entries@, 0, name@);
        }
        None
    }
}

} // verus!
