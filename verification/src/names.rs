//! A map from names to values, kept as a list of entries in which no name
//! occurs twice.

use vstd::prelude::*;

verus! {

/// Whether two texts hold the same characters.
pub fn str_eq(a: &str, b: &str) -> (r: bool)
    ensures
        r == (a@ == b@),
{
    let n = a.unicode_len();
    if b.unicode_len() != n {
        return false;
    }
    let mut i: usize = 0;
    while i < n
        invariant
            i <= n,
            n == a@.len(),
            n == b@.len(),
            forall|j: int| 0 <= j < i ==> a@[j] == b@[j],
        decreases n - i,
    {
        if a.get_char(i) != b.get_char(i) {
            assert(a@[i as int] != b@[i as int]);
            return false;
        }
        i = i + 1;
    }
    assert(a@ =~= b@);
    true
}

/// A map from names to values.
#[derive(Debug)]
pub struct NameMap<'a, V> {
    pub keys: Vec<&'a str>,
    pub values: Vec<V>,
}

/// The position of `name` among `keys`, if it occurs there.
pub open spec fn position(keys: Seq<&str>, name: Seq<char>) -> Option<int> {
    if exists|i: int| 0 <= i < keys.len() && (#[trigger] keys[i])@ == name {
        Some(choose|i: int| 0 <= i < keys.len() && (#[trigger] keys[i])@ == name)
    } else {
        None
    }
}

impl<'a, V> NameMap<'a, V> {
    /// The invariant: as many values as names, and no name twice.
    pub open spec fn wf(&self) -> bool {
        &&& self.keys@.len() == self.values@.len()
        &&& forall|i: int, j: int|
            0 <= i < j < self.keys@.len() ==> (#[trigger] self.keys@[i])@ != (
            #[trigger] self.keys@[j])@
    }

    /// Whether `name` has a value.
    pub open spec fn has(&self, name: Seq<char>) -> bool {
        position(self.keys@, name) is Some
    }

    /// The value of `name`, which must have one.
    pub open spec fn value_of(&self, name: Seq<char>) -> V {
        self.values@[position(self.keys@, name)->0]
    }

    /// The value of `name`, if it has one.
    pub open spec fn lookup(&self, name: Seq<char>) -> Option<V> {
        if self.has(name) {
            Some(self.value_of(name))
        } else {
            None
        }
    }

    /// The map as a mathematical map.
    pub open spec fn as_map(&self) -> Map<Seq<char>, V> {
        Map::new(|k: Seq<char>| self.has(k), |k: Seq<char>| self.value_of(k))
    }

    /// In a well-formed map the name at position `i` is found at `i`.
    pub proof fn lemma_position(&self, i: int)
        requires
            self.wf(),
            0 <= i < self.keys@.len(),
        ensures
            position(self.keys@, self.keys@[i]@) == Some(i),
            self.has(self.keys@[i]@),
            self.value_of(self.keys@[i]@) == self.values@[i],
    {
        let name = self.keys@[i]@;
        let j = choose|j: int| 0 <= j < self.keys@.len() && (#[trigger] self.keys@[j])@ == name;
        assert(j == i);
    }

    pub fn new() -> (r: Self)
        ensures
            r.wf(),
            r.keys@.len() == 0,
            r.values@.len() == 0,
            forall|name: Seq<char>| !r.has(name),
            r.as_map() == Map::<Seq<char>, V>::empty(),
    {
        let r = NameMap { keys: Vec::new(), values: Vec::new() };
        assert(r.as_map() =~= Map::<Seq<char>, V>::empty());
        r
    }

    /// The position of `name`, if it has a value.
    pub fn find(&self, name: &str) -> (r: Option<usize>)
        requires
            self.wf(),
        ensures
            match r {
                Some(i) => i < self.keys@.len() && position(self.keys@, name@) == Some(i as int),
                None => !self.has(name@),
            },
    {
        let mut i: usize = 0;
        while i < self.keys.len()
            invariant
                i <= self.keys@.len(),
                self.wf(),
                forall|j: int| 0 <= j < i ==> (#[trigger] self.keys@[j])@ != name@,
            decreases self.keys@.len() - i,
        {
            if str_eq(self.keys[i], name) {
                proof {
                    self.lemma_position(i as int);
                }
                return Some(i);
            }
            i = i + 1;
        }
        None
    }

    /// The number of names that have a value.
    pub fn len(&self) -> (r: usize)
        requires
            self.wf(),
        ensures
            r == self.keys@.len(),
    {
        self.keys.len()
    }

    pub fn contains_key(&self, name: &str) -> (r: bool)
        requires
            self.wf(),
        ensures
            r == self.has(name@),
    {
        self.find(name).is_some()
    }

    pub fn get(&self, name: &str) -> (r: Option<&V>)
        requires
            self.wf(),
        ensures
            match r {
                Some(v) => self.lookup(name@) == Some(*v),
                None => self.lookup(name@) is None,
            },
    {
        match self.find(name) {
            Some(i) => Some(&self.values[i]),
            None => None,
        }
    }

    /// Gives `name` the value `value`, whether or not it had one.
    pub fn insert(&mut self, name: &'a str, value: V)
        requires
            old(self).wf(),
        ensures
            final(self).wf(),
            final(self).has(name@),
            final(self).value_of(name@) == value,
            forall|other: Seq<char>|
                other != name@ ==> final(self).lookup(other) == old(self).lookup(other),
            final(self).as_map() == old(self).as_map().insert(name@, value),
    {
        match self.find(name) {
            Some(i) => {
                self.values.set(i, value);
                proof {
                    final(self).lemma_position(i as int);
                    assert forall|other: Seq<char>| other != name@ implies final(self).lookup(other)
                        == old(self).lookup(other) by {
                        if old(self).has(other) {
                            let j = position(old(self).keys@, other)->0;
                            old(self).lemma_position(j);
                            final(self).lemma_position(j);
                        }
                    }
                }
            },
            None => {
                self.keys.push(name);
                self.values.push(value);
                proof {
                    let n = old(self).keys@.len() as int;
                    assert forall|i: int, j: int| 0 <= i < j < final(self).keys@.len() implies (
                    #[trigger] final(self).keys@[i])@ != (#[trigger] final(self).keys@[j])@ by {
                        if j == n {
                            assert(old(self).keys@[i]@ != name@);
                        } else {
                            assert(old(self).keys@[i]@ != old(self).keys@[j]@);
                        }
                    }
                    final(self).lemma_position(n);
                    assert forall|other: Seq<char>| other != name@ implies final(self).lookup(other)
                        == old(self).lookup(other) by {
                        if old(self).has(other) {
                            let j = position(old(self).keys@, other)->0;
                            old(self).lemma_position(j);
                            final(self).lemma_position(j);
                        } else {
                            if final(self).has(other) {
                                let j = position(final(self).keys@, other)->0;
                                if j < n {
                                    old(self).lemma_position(j);
                                }
                            }
                        }
                    }
                }
            },
        }
        assert(final(self).as_map() =~= old(self).as_map().insert(name@, value)) by {
            assert forall|k: Seq<char>| final(self).has(k) == (old(self).has(k) || k == name@) by {
                if k != name@ {
                    assert(final(self).lookup(k) == old(self).lookup(k));
                }
            }
            assert forall|k: Seq<char>| final(self).has(k) && k != name@ implies final(self).value_of(k)
                == old(self).value_of(k) by {
                assert(final(self).lookup(k) == old(self).lookup(k));
            }
        }
    }
}

} // verus!
