use vstd::prelude::*;

verus! {

/// How many children of one name an element has had so far.
pub struct Counter {
    name: String,
    count: usize,
}

/// The counters of one open element: for each child name seen under it, how
/// many children of that name have been opened.
pub struct SiblingCounters {
    counters: Vec<Counter>,
    total: Ghost<nat>,
}

/// The count that `m` holds for `name`, zero where it holds none.
pub open spec fn ordinal_in(m: Map<Seq<char>, nat>, name: Seq<char>) -> nat {
    if m.dom().contains(name) {
        m[name]
    } else {
        0
    }
}

spec fn level_map(cs: Seq<Counter>) -> Map<Seq<char>, nat>
    decreases cs.len(),
{
    if cs.len() == 0 {
        Map::empty()
    } else {
        level_map(cs.drop_last()).insert(cs.last().name@, cs.last().count as nat)
    }
}

spec fn distinct_names(cs: Seq<Counter>) -> bool {
    forall|i: int, j: int| 0 <= i < j < cs.len() ==> cs[i].name@ != cs[j].name@
}

proof fn lemma_absent(cs: Seq<Counter>, name: Seq<char>)
    requires
        forall|i: int| 0 <= i < cs.len() ==> cs[i].name@ != name,
    ensures
        !level_map(cs).dom().contains(name),
    decreases cs.len(),
{
    if cs.len() > 0 {
        lemma_absent(cs.drop_last(), name);
    }
}

proof fn lemma_present(cs: Seq<Counter>, i: int)
    requires
        distinct_names(cs),
        0 <= i < cs.len(),
    ensures
        level_map(cs).dom().contains(cs[i].name@),
        level_map(cs)[cs[i].name@] == cs[i].count,
    decreases cs.len(),
{
    if i < cs.len() - 1 {
        lemma_present(cs.drop_last(), i);
    }
}

proof fn lemma_replace(cs: Seq<Counter>, i: int, c: Counter)
    requires
        distinct_names(cs),
        0 <= i < cs.len(),
        c.name@ == cs[i].name@,
    ensures
        distinct_names(cs.update(i, c)),
        level_map(cs.update(i, c)) == level_map(cs).insert(c.name@, c.count as nat),
    decreases cs.len(),
{
    let after = cs.update(i, c);
    if i == cs.len() - 1 {
        assert(after.drop_last() == cs.drop_last());
    } else {
        lemma_replace(cs.drop_last(), i, c);
        assert(after.drop_last() == cs.drop_last().update(i, c));
        assert(after.last() == cs.last());
    }
    assert(level_map(after) =~= level_map(cs).insert(c.name@, c.count as nat));
}

impl View for SiblingCounters {
    type V = Map<Seq<char>, nat>;

    closed spec fn view(&self) -> Map<Seq<char>, nat> {
        level_map(self.counters@)
    }
}

impl SiblingCounters {
    /// How many children have been counted in all.
    pub closed spec fn total(&self) -> nat {
        self.total@
    }

    /// No name is held twice, and no count is above the total.
    pub closed spec fn wf(&self) -> bool {
        &&& distinct_names(self.counters@)
        &&& forall|i: int| 0 <= i < self.counters@.len() ==> self.counters@[i].count <= self.total@
    }

    /// The counters of an element that has had no child yet.
    pub fn fresh() -> (r: Self)
        ensures
            r.wf(),
            r@ == Map::<Seq<char>, nat>::empty(),
            r.total() == 0,
    {
        SiblingCounters { counters: Vec::new(), total: Ghost(0) }
    }

    /// Counts one more child named `name` and gives its ordinal: how many
    /// children of that name came before it.
    pub fn assign(&mut self, name: &str) -> (ordinal: usize)
        requires
            old(self).wf(),
            old(self).total() < usize::MAX,
        ensures
            final(self).wf(),
            ordinal == ordinal_in(old(self)@, name@),
            final(self)@ == old(self)@.insert(name@, (ordinal + 1) as nat),
            final(self).total() == old(self).total() + 1,
    {
        let key = name.to_owned();
        let mut i: usize = 0;
        while i < self.counters.len()
            invariant
                key@ == name@,
                *self == *old(self),
                self.wf(),
                self.total() < usize::MAX,
                i <= self.counters.len(),
                forall|j: int| 0 <= j < i ==> self.counters@[j].name@ != name@,
            decreases self.counters.len() - i,
        {
            if self.counters[i].name == key {
                let ordinal = self.counters[i].count;
                proof {
                    lemma_present(self.counters@, i as int);
                }
                let next = Counter { name: key, count: ordinal + 1 };
                proof {
                    lemma_replace(self.counters@, i as int, next);
                }
                self.counters.set(i, next);
                self.total = Ghost((self.total@ + 1) as nat);
                return ordinal;
            }
            i = i + 1;
        }
        proof {
            lemma_absent(self.counters@, name@);
            assert(self.counters@.push(Counter { name: key, count: 1 }).drop_last()
                == self.counters@);
        }
        self.counters.push(Counter { name: key, count: 1 });
        self.total = Ghost((self.total@ + 1) as nat);
        0
    }
}

} // verus!
