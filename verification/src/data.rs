//! Named values that an application keeps in its state: each entry has a
//! name and a value, and entries are looked up by name in the order they were
//! added.

use vstd::prelude::*;

verus! {

/// A named value. The value's type is left to the application (the engine
/// stores boxed values of any type).
pub struct AppStateData<V> {
    name: String,
    value: V,
}

impl<V> View for AppStateData<V> {
    type V = (Seq<char>, V);

    closed spec fn view(&self) -> (Seq<char>, V) {
        (self.name@, self.value)
    }
}

/// A list of entries as names and values.
pub open spec fn store_view<V>(store: Seq<AppStateData<V>>) -> Seq<(Seq<char>, V)> {
    store.map_values(|d: AppStateData<V>| d@)
}

/// `i` is the first index of an entry named `name`.
pub open spec fn is_first_named<V>(s: Seq<(Seq<char>, V)>, name: Seq<char>, i: int) -> bool {
    &&& 0 <= i < s.len()
    &&& s[i].0 == name
    &&& forall|j: int| 0 <= j < i ==> s[j].0 != name
}

/// The first index of an entry named `name`, if there is one.
pub open spec fn first_named<V>(s: Seq<(Seq<char>, V)>, name: Seq<char>) -> Option<int> {
    if exists|i: int| is_first_named(s, name, i) {
        Some(choose|i: int| is_first_named(s, name, i))
    } else {
        None
    }
}

/// The entries after setting `name` to `value`: the first entry of that name
/// gets the value, or a new entry is added at the end if there is none.
pub open spec fn set_named<V>(s: Seq<(Seq<char>, V)>, name: Seq<char>, value: V) -> Seq<(Seq<char>, V)> {
    match first_named(s, name) {
        Some(i) => s.update(i, (name, value)),
        None => s.push((name, value)),
    }
}

/// There is at most one first index of a name.
pub proof fn lemma_first_named_unique<V>(s: Seq<(Seq<char>, V)>, name: Seq<char>, i: int)
    requires
        is_first_named(s, name, i),
    ensures
        first_named(s, name) == Some(i),
{
    let k = choose|k: int| is_first_named(s, name, k);
    assert(is_first_named(s, name, k));
    if k < i {
        assert(s[k].0 != name);
    } else if i < k {
        assert(s[i].0 != name);
    }
}

/// With no entry named `name`, there is no first index of it.
pub proof fn lemma_first_named_none<V>(s: Seq<(Seq<char>, V)>, name: Seq<char>)
    requires
        forall|j: int| 0 <= j < s.len() ==> s[j].0 != name,
    ensures
        first_named(s, name) is None,
{
}

/// A first index, where there is one, is an index of an entry of that name
/// before which no entry has it.
pub proof fn lemma_first_named_some<V>(s: Seq<(Seq<char>, V)>, name: Seq<char>)
    requires
        first_named(s, name) is Some,
    ensures
        is_first_named(s, name, first_named(s, name)->0),
{
}

/// A value read back after it was set: after `name` is set to `value`, the
/// first entry named `name` holds `value`, and each other name is found where
/// it was found before, with the value it had.
pub proof fn lemma_get_after_set<V>(s: Seq<(Seq<char>, V)>, name: Seq<char>, value: V, other: Seq<char>)
    requires
        other != name,
    ensures
        first_named(set_named(s, name, value), name) is Some,
        set_named(s, name, value)[first_named(set_named(s, name, value), name)->0] == (name, value),
        first_named(set_named(s, name, value), other) == first_named(s, other),
        first_named(s, other) matches Some(k) ==> set_named(s, name, value)[k] == s[k],
{
    let t = set_named(s, name, value);
    match first_named(s, name) {
        Some(i) => {
            lemma_first_named_some(s, name);
            assert(is_first_named(t, name, i));
            lemma_first_named_unique(t, name, i);
        },
        None => {
            assert forall|j: int| 0 <= j < s.len() implies s[j].0 != name by {
                if s[j].0 == name {
                    lemma_least_named(s, name, j);
                }
            }
            assert(is_first_named(t, name, s.len() as int));
            lemma_first_named_unique(t, name, s.len() as int);
        },
    }
    match first_named(s, other) {
        Some(k) => {
            lemma_first_named_some(s, other);
            assert(is_first_named(t, other, k));
            lemma_first_named_unique(t, other, k);
        },
        None => {
            assert forall|j: int| 0 <= j < t.len() implies t[j].0 != other by {
                if j < s.len() && s[j].0 == other {
                    lemma_least_named(s, other, j);
                }
            }
        },
    }
}

/// If some entry has the name, there is a first one.
pub proof fn lemma_least_named<V>(s: Seq<(Seq<char>, V)>, name: Seq<char>, j: int)
    requires
        0 <= j < s.len(),
        s[j].0 == name,
    ensures
        first_named(s, name) is Some,
    decreases j,
{
    if exists|k: int| 0 <= k < j && s[k].0 == name {
        let k = choose|k: int| 0 <= k < j && s[k].0 == name;
        lemma_least_named(s, name, k);
    } else {
        assert(is_first_named(s, name, j));
    }
}

impl<V> AppStateData<V> {
    pub fn new(name: &str, value: V) -> (r: Self)
        ensures
            r@ == (name@, value),
    {
        AppStateData { name: name.to_owned(), value }
    }

    pub fn get_name(&self) -> (r: &str)
        ensures
            r@ == self@.0,
    {
        self.name.as_str()
    }

    pub fn get_value(&self) -> (r: &V)
        ensures
            *r == self@.1,
    {
        &self.value
    }

    /// The value, to be changed in place; the name stays.
    pub fn get_value_mut(&mut self) -> (r: &mut V)
        ensures
            *r == old(self)@.1,
            final(self)@ == (old(self)@.0, *final(r)),
    {
        &mut self.value
    }

    /// Replaces the value, keeping the name.
    pub fn set_value(&mut self, value: V)
        ensures
            final(self)@ == (old(self)@.0, value),
    {
        self.value = value;
    }
}

/// Compares two string slices by their characters.
fn same_name(a: &str, b: &str) -> (r: bool)
    ensures
        r == (a@ == b@),
{
    let x: String = a.to_owned();
    let y: String = b.to_owned();
    x == y
}

/// Adds an entry at the end.
pub fn add_state_data<V>(store: &mut Vec<AppStateData<V>>, name: &str, value: V)
    ensures
        store_view(final(store)@) == store_view(old(store)@).push((name@, value)),
{
    store.push(AppStateData::new(name, value));
    assert(store_view(final(store)@) =~= store_view(old(store)@).push((name@, value)));
}

/// Sets the value of the first entry named `name`, or adds an entry with that
/// name and value at the end if there is none.
pub fn set_state_data_value<V>(store: &mut Vec<AppStateData<V>>, name: &str, value: V)
    ensures
        store_view(final(store)@) == set_named(store_view(old(store)@), name@, value),
{
    let ghost s = store_view(store@);
    let n = store.len();
    let mut i: usize = 0;
    while i < n
        invariant
            n == store@.len(),
            s == store_view(store@),
            store@ == old(store)@,
            0 <= i <= n,
            forall|j: int| 0 <= j < i ==> s[j].0 != name@,
        decreases n - i,
    {
        if same_name(store[i].get_name(), name) {
            let ghost before = store@;
            store[i].set_value(value);
            proof {
                assert(is_first_named(s, name@, i as int));
                lemma_first_named_unique(s, name@, i as int);
                assert(store_view(final(store)@) =~= s.update(i as int, (name@, value)));
            }
            return;
        }
        i = i + 1;
    }
    proof {
        lemma_first_named_none(s, name@);
    }
    add_state_data(store, name, value);
}

/// The indices of the entries named `name`, in increasing order: the order in
/// which the engine tries them when it looks a value up by name and type.
pub fn state_data_indices<V>(store: &Vec<AppStateData<V>>, name: &str) -> (r: Vec<usize>)
    ensures
        forall|k: int| 0 <= k < r@.len() ==> r@[k] < store@.len() && store@[r@[k] as int]@.0 == name@,
        forall|k: int, l: int| 0 <= k < l < r@.len() ==> r@[k] < r@[l],
        forall|i: int| 0 <= i < store@.len() && store@[i]@.0 == name@ ==> r@.contains(i as usize),
{
    let mut r: Vec<usize> = Vec::new();
    let n = store.len();
    let mut i: usize = 0;
    while i < n
        invariant
            n == store@.len(),
            0 <= i <= n,
            forall|k: int| 0 <= k < r@.len() ==> r@[k] < i && store@[r@[k] as int]@.0 == name@,
            forall|k: int, l: int| 0 <= k < l < r@.len() ==> r@[k] < r@[l],
            forall|j: int| 0 <= j < i && store@[j]@.0 == name@ ==> r@.contains(j as usize),
        decreases n - i,
    {
        if same_name(store[i].get_name(), name) {
            let ghost old_r = r@;
            r.push(i);
            proof {
                assert forall|j: int| 0 <= j < i + 1 && store@[j]@.0 == name@ implies r@.contains(j as usize) by {
                    if j == i {
                        assert(r@[r@.len() - 1] == i);
                    } else {
                        assert(old_r.contains(j as usize));
                        let k = choose|k: int| 0 <= k < old_r.len() && old_r[k] == j as usize;
                        assert(r@[k] == j as usize);
                    }
                }
            }
        }
        i = i + 1;
    }
    r
}

} // verus!
