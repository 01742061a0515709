use vstd::prelude::*;

verus! {

/// The map that a list of (name, value) pairs describes: a later pair for a
/// name overrides an earlier one.
pub open spec fn map_of(s: Seq<(Seq<char>, Seq<char>)>) -> Map<Seq<char>, Seq<char>>
    decreases s.len(),
{
    if s.len() == 0 {
        Map::empty()
    } else {
        map_of(s.drop_last()).insert(s.last().0, s.last().1)
    }
}

/// Header fields by name, kept in the order in which names were first added.
pub struct Headers {
    entries: Vec<(String, String)>,
}

impl Headers {
    /// The fields in their stored order.
    pub closed spec fn pairs(&self) -> Seq<(Seq<char>, Seq<char>)> {
        self.entries@.map_values(|e: (String, String)| (e.0@, e.1@))
    }

    /// Each name occurs at most once among the stored fields.
    pub open spec fn names_distinct(&self) -> bool {
        forall|i: int, j: int|
            0 <= i < j < self.pairs().len() ==> #[trigger] self.pairs()[i].0
                != #[trigger] self.pairs()[j].0
    }

    /// A map without fields.
    pub fn new() -> (r: Headers)
        ensures
            r.pairs() == Seq::<(Seq<char>, Seq<char>)>::empty(),
            r@ == Map::<Seq<char>, Seq<char>>::empty(),
    {
        let r = Headers { entries: Vec::new() };
        assert(r.pairs() =~= Seq::<(Seq<char>, Seq<char>)>::empty());
        r
    }

    /// Number of stored fields.
    pub fn len(&self) -> (r: usize)
        ensures
            r == self.pairs().len(),
    {
        self.entries.len()
    }

    /// Name of the field at position `i`.
    pub fn name_at(&self, i: usize) -> (r: &String)
        requires
            i < self.pairs().len(),
        ensures
            r@ == self.pairs()[i as int].0,
    {
        &self.entries[i].0
    }

    /// Value of the field at position `i`.
    pub fn value_at(&self, i: usize) -> (r: &String)
        requires
            i < self.pairs().len(),
        ensures
            r@ == self.pairs()[i as int].1,
    {
        &self.entries[i].1
    }

    /// Position of the last field named `name`, if any.
    fn find(&self, name: &String) -> (r: Option<usize>)
        ensures
            match r {
                Some(i) => {
                    &&& i < self.pairs().len()
                    &&& self.pairs()[i as int].0 == name@
                    &&& forall|j: int| i < j < self.pairs().len() ==> self.pairs()[j].0 != name@
                },
                None => forall|j: int| 0 <= j < self.pairs().len() ==> self.pairs()[j].0 != name@,
            },
    {
        let mut i: usize = self.entries.len();
        while i > 0
            invariant
                i <= self.entries.len(),
                self.pairs().len() == self.entries.len(),
                forall|j: int| i <= j < self.pairs().len() ==> self.pairs()[j].0 != name@,
            decreases i,
        {
            if self.entries[i - 1].0 == *name {
                return Some(i - 1);
            }
            i = i - 1;
        }
        None
    }

    /// The value stored under `name`.
    pub fn get(&self, name: &String) -> (r: Option<&String>)
        ensures
            match r {
                Some(v) => self@.contains_key(name@) && self@[name@] == v@,
                None => !self@.contains_key(name@),
            },
    {
        match self.find(name) {
            Some(i) => {
                proof {
                    lemma_map_of_last(self.pairs(), i as int);
                }
                Some(&self.entries[i].1)
            },
            None => {
                proof {
                    lemma_map_of_absent(self.pairs(), name@);
                }
                None
            },
        }
    }

    /// Stores `value` under `name`: in place of the field of that name, or as a
    /// new last field.
    pub fn insert(&mut self, name: String, value: String)
        ensures
            final(self)@ == old(self)@.insert(name@, value@),
            old(self)@.contains_key(name@) ==> final(self).pairs().len() == old(self).pairs().len(),
            !old(self)@.contains_key(name@) ==> final(self).pairs() == old(self).pairs().push(
                (name@, value@),
            ),
            old(self).names_distinct() ==> final(self).names_distinct(),
    {
        match self.find(&name) {
            Some(i) => {
                proof {
                    lemma_map_of_update(self.pairs(), i as int, value@);
                    lemma_map_of_last(self.pairs(), i as int);
                }
                self.entries.set(i, (name, value));
                proof {
                    assert(self.pairs() =~= old(self).pairs().update(
                        i as int,
                        (old(self).pairs()[i as int].0, value@),
                    ));
                }
            },
            None => {
                proof {
                    lemma_map_of_absent(self.pairs(), name@);
                }
                let ghost nm = name@;
                let ghost vl = value@;
                self.entries.push((name, value));
                proof {
                    assert(self.pairs() =~= old(self).pairs().push((nm, vl)));
                    assert(self.pairs().drop_last() =~= old(self).pairs());
                }
            },
        }
    }
}

impl View for Headers {
    type V = Map<Seq<char>, Seq<char>>;

    open spec fn view(&self) -> Map<Seq<char>, Seq<char>> {
        map_of(self.pairs())
    }
}

/// The last pair with a name gives that name's value.
pub proof fn lemma_map_of_last(s: Seq<(Seq<char>, Seq<char>)>, i: int)
    requires
        0 <= i < s.len(),
        forall|j: int| i < j < s.len() ==> s[j].0 != s[i].0,
    ensures
        map_of(s).contains_key(s[i].0),
        map_of(s)[s[i].0] == s[i].1,
    decreases s.len(),
{
    if i < s.len() - 1 {
        lemma_map_of_last(s.drop_last(), i);
    }
}

/// A name that no pair carries is not in the map.
pub proof fn lemma_map_of_absent(s: Seq<(Seq<char>, Seq<char>)>, k: Seq<char>)
    requires
        forall|j: int| 0 <= j < s.len() ==> s[j].0 != k,
    ensures
        !map_of(s).contains_key(k),
    decreases s.len(),
{
    if s.len() > 0 {
        lemma_map_of_absent(s.drop_last(), k);
    }
}

/// Changing the value of the last pair with a name changes the map at that name.
pub proof fn lemma_map_of_update(s: Seq<(Seq<char>, Seq<char>)>, i: int, v: Seq<char>)
    requires
        0 <= i < s.len(),
        forall|j: int| i < j < s.len() ==> s[j].0 != s[i].0,
    ensures
        map_of(s.update(i, (s[i].0, v))) == map_of(s).insert(s[i].0, v),
    decreases s.len(),
{
    let t = s.update(i, (s[i].0, v));
    if i == s.len() - 1 {
        assert(t.drop_last() =~= s.drop_last());
        assert(map_of(t) =~= map_of(s).insert(s[i].0, v));
    } else {
        lemma_map_of_update(s.drop_last(), i, v);
        assert(t.drop_last() =~= s.drop_last().update(i, (s[i].0, v)));
        assert(map_of(t) =~= map_of(s).insert(s[i].0, v));
    }
}

} // verus!
