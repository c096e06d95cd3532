//! Variable bindings during evaluation.
use vstd::prelude::*;

verus! {

/// The bindings that a list of entries makes: later entries override
/// earlier ones.
pub open spec fn bindings_of<V>(entries: Seq<(String, V)>) -> Map<Seq<char>, V>
    decreases entries.len(),
{
    if entries.len() == 0 {
        Map::empty()
    } else {
        bindings_of(entries.drop_last()).insert(entries.last().0@, entries.last().1)
    }
}

/// Variables and their values (for a formula, their series).
pub struct Environment<V> {
    entries: Vec<(String, V)>,
}

proof fn lemma_bindings_of_last<V>(entries: Seq<(String, V)>, k: Seq<char>, i: int)
    requires
        0 <= i < entries.len(),
        entries[i].0@ == k,
        forall|j: int| i < j < entries.len() ==> (#[trigger] entries[j]).0@ != k,
    ensures
        bindings_of(entries).contains_key(k),
        bindings_of(entries)[k] == entries[i].1,
    decreases entries.len(),
{
    if i < entries.len() - 1 {
        lemma_bindings_of_last(entries.drop_last(), k, i);
    }
}

proof fn lemma_bindings_of_absent<V>(entries: Seq<(String, V)>, k: Seq<char>)
    requires
        forall|j: int| 0 <= j < entries.len() ==> (#[trigger] entries[j]).0@ != k,
    ensures
        !bindings_of(entries).contains_key(k),
    decreases entries.len(),
{
    if entries.len() > 0 {
        lemma_bindings_of_absent(entries.drop_last(), k);
    }
}

impl<V> Environment<V> {
    /// The variables bound and their values.
    pub closed spec fn bindings(&self) -> Map<Seq<char>, V> {
        bindings_of(self.entries@)
    }

    /// An environment with no bindings.
    pub fn new() -> (env: Self)
        ensures
            env.bindings() == Map::<Seq<char>, V>::empty(),
    {
        Environment { entries: Vec::new() }
    }

    /// Binds `name` to `value`, replacing any earlier binding of `name`.
    pub fn insert(&mut self, name: String, value: V)
        ensures
            final(self).bindings() == old(self).bindings().insert(name@, value),
    {
        let ghost before = self.entries@;
        self.entries.push((name, value));
        assert(self.entries@.drop_last() =~= before);
    }

    /// The value bound to `name`, if any.
    pub fn get(&self, name: &String) -> (r: Option<&V>)
        ensures
            r.is_some() == self.bindings().contains_key(name@),
            r matches Some(v) ==> *v == self.bindings()[name@],
    {
        let n: usize = self.entries.len();
        let mut i: usize = n;
        while i > 0
            invariant
                i <= n == self.entries@.len(),
                forall|j: int| i <= j < n ==> (#[trigger] self.entries@[j]).0@ != name@,
            decreases i,
        {
            let k: usize = i - 1;
            if self.entries[k].0 == *name {
                proof {
                    lemma_bindings_of_last(self.entries@, name@, k as int);
                }
                return Some(&self.entries[k].1);
            }
            i = k;
        }
        proof {
            lemma_bindings_of_absent(self.entries@, name@);
        }
        None
    }
}

impl<V> Environment<V> {
    /// The names of the variables bound (a name may be listed more than once).
    pub fn names(&self) -> (r: Vec<String>)
        ensures
            forall|k: Seq<char>| #![auto] r@.map_values(|s: String| s@).contains(k)
                == self.bindings().contains_key(k),
    {
        let mut r: Vec<String> = Vec::new();
        let mut i: usize = 0;
        while i < self.entries.len()
            invariant
                i <= self.entries@.len(),
                r@.len() == i,
                forall|j: int| 0 <= j < i ==> (#[trigger] r@[j])@ == self.entries@[j].0@,
            decreases self.entries.len() - i,
        {
            r.push(self.entries[i].0.clone());
            i = i + 1;
        }
        proof {
            let names = r@.map_values(|s: String| s@);
            assert forall|k: Seq<char>| #![auto] names.contains(k) == self.bindings().contains_key(
                k,
            ) by {
                if names.contains(k) {
                    let j = choose|j: int| 0 <= j < names.len() && names[j] == k;
                    assert(self.entries@[j].0@ == k);
                    lemma_bindings_of_has(self.entries@, k, j);
                } else {
                    assert forall|j: int| 0 <= j < self.entries@.len() implies (
                    #[trigger] self.entries@[j]).0@ != k by {
                        assert(names[j] == r@[j]@);
                    }
                    lemma_bindings_of_absent(self.entries@, k);
                }
            }
        }
        r
    }
}

proof fn lemma_bindings_of_has<V>(entries: Seq<(String, V)>, k: Seq<char>, i: int)
    requires
        0 <= i < entries.len(),
        entries[i].0@ == k,
    ensures
        bindings_of(entries).contains_key(k),
    decreases entries.len(),
{
    if i < entries.len() - 1 {
        lemma_bindings_of_has(entries.drop_last(), k, i);
    }
}

/// The value of a variable is the one its latest assignment gave it, and an
/// assignment leaves the other variables as they were.
pub proof fn lemma_read_after_write<V>(
    env: Map<Seq<char>, V>,
    name: Seq<char>,
    value: V,
    other: Seq<char>,
)
    ensures
        env.insert(name, value).contains_key(name),
        env.insert(name, value)[name] == value,
        other != name ==> env.insert(name, value).contains_key(other) == env.contains_key(other),
        other != name && env.contains_key(other) ==> env.insert(name, value)[other] == env[other],
{
}

} // verus!
