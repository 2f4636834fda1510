//! Response headers: a table from name to value in which no name occurs
//! twice. A value set again replaces the one that was there.

use crate::text::same;
use vstd::prelude::*;

verus! {

/// A header table. Its view is the map from each name to its value.
#[derive(Debug)]
pub struct Headers {
    entries: Vec<(String, String)>,
}

/// The entries as pairs of character sequences.
pub open spec fn pairs(entries: Seq<(String, String)>) -> Seq<(Seq<char>, Seq<char>)> {
    Seq::new(entries.len(), |i: int| (entries[i].0@, entries[i].1@))
}

/// No name occurs twice.
pub open spec fn distinct(pairs: Seq<(Seq<char>, Seq<char>)>) -> bool {
    forall|i: int, j: int| 0 <= i < j < pairs.len() ==> (#[trigger] pairs[i]).0 != (
    #[trigger] pairs[j]).0
}

/// The map that a sequence of pairs stands for: each pair in turn is set,
/// so of two pairs with one name the later one counts.
pub open spec fn table(pairs: Seq<(Seq<char>, Seq<char>)>) -> Map<Seq<char>, Seq<char>>
    decreases pairs.len(),
{
    if pairs.len() == 0 {
        Map::empty()
    } else {
        table(pairs.drop_last()).insert(pairs.last().0, pairs.last().1)
    }
}

/// A name is in the table exactly if a pair has it.
pub proof fn lemma_table_domain(pairs: Seq<(Seq<char>, Seq<char>)>, name: Seq<char>)
    ensures
        table(pairs).contains_key(name) <==> exists|i: int|
            0 <= i < pairs.len() && (#[trigger] pairs[i]).0 == name,
    decreases pairs.len(),
{
    if pairs.len() > 0 {
        let front = pairs.drop_last();
        lemma_table_domain(front, name);
        if table(front).contains_key(name) {
            let i = choose|i: int| 0 <= i < front.len() && (#[trigger] front[i]).0 == name;
            assert(pairs[i].0 == name);
        }
        if exists|i: int| 0 <= i < pairs.len() && (#[trigger] pairs[i]).0 == name {
            let i = choose|i: int| 0 <= i < pairs.len() && (#[trigger] pairs[i]).0 == name;
            if i < pairs.len() - 1 {
                assert(front[i].0 == name);
            }
        }
    }
}

/// Where no name occurs twice, the table gives each pair's name its value.
pub proof fn lemma_table_value(pairs: Seq<(Seq<char>, Seq<char>)>, i: int)
    requires
        distinct(pairs),
        0 <= i < pairs.len(),
    ensures
        table(pairs).contains_key(pairs[i].0),
        table(pairs)[pairs[i].0] == pairs[i].1,
    decreases pairs.len(),
{
    let front = pairs.drop_last();
    if i < pairs.len() - 1 {
        assert(distinct(front));
        lemma_table_value(front, i);
    }
}

/// Where no name occurs twice, giving a pair a new value sets that value
/// for the pair's name and changes nothing else.
pub proof fn lemma_table_update(pairs: Seq<(Seq<char>, Seq<char>)>, i: int, value: Seq<char>)
    requires
        distinct(pairs),
        0 <= i < pairs.len(),
    ensures
        table(pairs.update(i, (pairs[i].0, value))) == table(pairs).insert(pairs[i].0, value),
    decreases pairs.len(),
{
    let name = pairs[i].0;
    let after = pairs.update(i, (name, value));
    let front = pairs.drop_last();
    if i == pairs.len() - 1 {
        assert(after.drop_last() == front);
    } else {
        assert(distinct(front));
        lemma_table_update(front, i, value);
        assert(after.drop_last() == front.update(i, (name, value)));
    }
}

impl View for Headers {
    type V = Map<Seq<char>, Seq<char>>;

    closed spec fn view(&self) -> Map<Seq<char>, Seq<char>> {
        table(pairs(self.entries@))
    }
}

impl Headers {
    /// No name occurs twice among the entries.
    #[verifier::type_invariant]
    spec fn no_name_twice(self) -> bool {
        distinct(pairs(self.entries@))
    }

    /// The empty table.
    pub fn new() -> (headers: Headers)
        ensures
            headers@ == Map::<Seq<char>, Seq<char>>::empty(),
    {
        Headers { entries: Vec::new() }
    }

    /// Where `name` stands among the entries.
    fn locate(&self, name: &str) -> (at: Option<usize>)
        ensures
            match at {
                Some(i) => i < self.entries.len() && self.entries@[i as int].0@ == name@,
                None => !self@.contains_key(name@),
            },
    {
        let mut i: usize = 0;
        while i < self.entries.len()
            invariant
                i <= self.entries.len(),
                forall|j: int| 0 <= j < i ==> (#[trigger] self.entries@[j]).0@ != name@,
            decreases self.entries.len() - i,
        {
            if same(self.entries[i].0.as_str(), name) {
                return Some(i);
            }
            i += 1;
        }
        proof {
            let all = pairs(self.entries@);
            lemma_table_domain(all, name@);
            if exists|j: int| 0 <= j < all.len() && (#[trigger] all[j]).0 == name@ {
                let j = choose|j: int| 0 <= j < all.len() && (#[trigger] all[j]).0 == name@;
                assert(self.entries@[j].0@ == name@);
            }
        }
        None
    }

    /// Whether the table has a value for `name`.
    pub fn contains_key(&self, name: &str) -> (found: bool)
        ensures
            found == self@.contains_key(name@),
    {
        match self.locate(name) {
            Some(i) => {
                proof {
                    use_type_invariant(self);
                    let all = pairs(self.entries@);
                    lemma_table_value(all, i as int);
                }
                true
            },
            None => false,
        }
    }

    /// The value of `name`, if the table has one.
    pub fn get(&self, name: &str) -> (value: Option<&String>)
        ensures
            match value {
                Some(v) => self@.contains_key(name@) && self@[name@] == v@,
                None => !self@.contains_key(name@),
            },
    {
        match self.locate(name) {
            Some(i) => {
                proof {
                    use_type_invariant(self);
                    let all = pairs(self.entries@);
                    lemma_table_value(all, i as int);
                }
                Some(&self.entries[i].1)
            },
            None => None,
        }
    }

    /// Sets the value of `name`. A value that `name` had is replaced.
    pub fn insert(&mut self, name: String, value: String)
        ensures
            final(self)@ == old(self)@.insert(name@, value@),
    {
        proof {
            use_type_invariant(&*self);
        }
        let ghost before = pairs(self.entries@);
        let at = self.locate(name.as_str());
        let mut entries: Vec<(String, String)> = Vec::new();
        core::mem::swap(&mut self.entries, &mut entries);
        match at {
            Some(i) => {
                entries.set(i, (name, value));
                proof {
                    let after = pairs(entries@);
                    assert(after =~= before.update(i as int, (name@, value@)));
                    lemma_table_update(before, i as int, value@);
                }
            },
            None => {
                entries.push((name, value));
                proof {
                    let after = pairs(entries@);
                    assert(after.drop_last() =~= before);
                    lemma_table_domain(before, name@);
                    assert forall|a: int, b: int| 0 <= a < b < after.len() implies (
                    #[trigger] after[a]).0 != (#[trigger] after[b]).0 by {
                        if b < before.len() {
                            assert(before[a].0 != before[b].0);
                        } else {
                            assert(before[a].0 != name@);
                        }
                    }
                }
            },
        }
        self.entries = entries;
    }

    /// How many names the table holds.
    pub fn len(&self) -> (n: usize)
        ensures
            n == self@.dom().len(),
            self@.dom().finite(),
    {
        proof {
            use_type_invariant(self);
            lemma_table_size(pairs(self.entries@));
        }
        self.entries.len()
    }
}

/// Where no name occurs twice, the table holds as many names as there are
/// pairs.
pub proof fn lemma_table_size(pairs: Seq<(Seq<char>, Seq<char>)>)
    requires
        distinct(pairs),
    ensures
        table(pairs).dom().finite(),
        table(pairs).dom().len() == pairs.len(),
    decreases pairs.len(),
{
    if pairs.len() > 0 {
        let front = pairs.drop_last();
        assert(distinct(front));
        lemma_table_size(front);
        lemma_table_domain(front, pairs.last().0);
        if table(front).contains_key(pairs.last().0) {
            let i = choose|i: int| 0 <= i < front.len() && (#[trigger] front[i]).0 == pairs.last().0;
            assert(pairs[i].0 != pairs[pairs.len() - 1].0);
        }
    }
}

} // verus!
