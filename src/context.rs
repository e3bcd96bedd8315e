//! The flat mapping from variable names to values that a render call reads.
use vstd::prelude::*;

verus! {

/// The map that inserting the pairs of `p` in order builds; a later pair wins
/// over an earlier one with the same key.
pub open spec fn pairs_map(p: Seq<(Seq<char>, Seq<char>)>) -> Map<Seq<char>, Seq<char>>
    decreases p.len(),
{
    if p.len() == 0 {
        Map::empty()
    } else {
        pairs_map(p.drop_last()).insert(p.last().0, p.last().1)
    }
}

proof fn lemma_pairs_map_absent(p: Seq<(Seq<char>, Seq<char>)>, k: Seq<char>)
    requires
        forall|j: int| 0 <= j < p.len() ==> p[j].0 != k,
    ensures
        !pairs_map(p).contains_key(k),
    decreases p.len(),
{
    if p.len() > 0 {
        lemma_pairs_map_absent(p.drop_last(), k);
    }
}

proof fn lemma_pairs_map_last(p: Seq<(Seq<char>, Seq<char>)>, i: int, k: Seq<char>)
    requires
        0 <= i < p.len(),
        p[i].0 == k,
        forall|j: int| i < j < p.len() ==> p[j].0 != k,
    ensures
        pairs_map(p).contains_key(k),
        pairs_map(p)[k] == p[i].1,
    decreases p.len(),
{
    if i < p.len() - 1 {
        lemma_pairs_map_last(p.drop_last(), i, k);
    }
}

proof fn lemma_pairs_map_update(
    p: Seq<(Seq<char>, Seq<char>)>,
    i: int,
    k: Seq<char>,
    v: Seq<char>,
)
    requires
        0 <= i < p.len(),
        p[i].0 == k,
        forall|j: int| i < j < p.len() ==> p[j].0 != k,
    ensures
        pairs_map(p.update(i, (k, v))) == pairs_map(p).insert(k, v),
    decreases p.len(),
{
    let q = p.update(i, (k, v));
    if i == p.len() - 1 {
        assert(q.drop_last() =~= p.drop_last());
        assert(pairs_map(q) =~= pairs_map(p).insert(k, v));
    } else {
        lemma_pairs_map_update(p.drop_last(), i, k, v);
        assert(q.drop_last() =~= p.drop_last().update(i, (k, v)));
        assert(pairs_map(q) =~= pairs_map(p).insert(k, v));
    }
}

/// Variable names and their values. Names are case-sensitive, and each has at
/// most one value.
#[derive(Debug, Clone)]
pub struct VariableContext {
    entries: Vec<(String, String)>,
}

impl View for VariableContext {
    type V = Map<Seq<char>, Seq<char>>;

    closed spec fn view(&self) -> Map<Seq<char>, Seq<char>> {
        pairs_map(self.pairs())
    }
}

impl VariableContext {
    spec fn pairs(&self) -> Seq<(Seq<char>, Seq<char>)> {
        Seq::new(self.entries.len() as nat, |i: int| (self.entries[i].0@, self.entries[i].1@))
    }

    /// A context with no variables.
    pub fn new() -> (r: VariableContext)
        ensures
            r@ == Map::<Seq<char>, Seq<char>>::empty(),
    {
        let r = VariableContext { entries: Vec::new() };
        assert(r.pairs() =~= Seq::empty());
        r
    }

    /// Where the pair for `name` stands, if there is one.
    fn position(&self, name: &String) -> (r: Option<usize>)
        ensures
            r matches Some(i) ==> i < self.entries.len() && self.pairs()[i as int].0 == name@
                && forall|j: int| i < j < self.entries.len() ==> self.pairs()[j].0 != name@,
            r is None ==> forall|j: int| 0 <= j < self.entries.len() ==> self.pairs()[j].0 != name@,
    {
        let mut k: usize = self.entries.len();
        while k > 0
            invariant
                k <= self.entries.len(),
                forall|j: int| k <= j < self.entries.len() ==> self.pairs()[j].0 != name@,
            decreases k,
        {
            if self.entries[k - 1].0 == *name {
                return Some(k - 1);
            }
            k = k - 1;
        }
        None
    }

    /// Gives `name` the value `value`, replacing any value it had.
    pub fn insert(&mut self, name: String, value: String)
        ensures
            final(self)@ == old(self)@.insert(name@, value@),
    {
        let ghost p = self.pairs();
        match self.position(&name) {
            Some(i) => {
                proof {
                    lemma_pairs_map_update(p, i as int, name@, value@);
                }
                self.entries.set(i, (name, value));
                assert(self.pairs() =~= p.update(i as int, (name@, value@)));
            },
            None => {
                let ghost k = name@;
                let ghost v = value@;
                self.entries.push((name, value));
                assert(self.pairs().drop_last() =~= p);
                assert(self.pairs().last() == (k, v));
            },
        }
    }

    /// The value of `name`, if it has one.
    pub fn get(&self, name: &String) -> (r: Option<&String>)
        ensures
            r is Some <==> self@.contains_key(name@),
            r matches Some(v) ==> v@ == self@[name@],
    {
        match self.position(name) {
            Some(i) => {
                proof {
                    lemma_pairs_map_last(self.pairs(), i as int, name@);
                }
                Some(&self.entries[i].1)
            },
            None => {
                proof {
                    lemma_pairs_map_absent(self.pairs(), name@);
                }
                None
            },
        }
    }

    /// Whether `name` has a value.
    pub fn contains_key(&self, name: &String) -> (r: bool)
        ensures
            r == self@.contains_key(name@),
    {
        self.get(name).is_some()
    }
}

} // verus!
