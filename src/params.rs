use vstd::prelude::*;
use vstd::string::StrSliceExecFns;

verus! {

/// Description of one declared parameter of a callable.
#[derive(Debug)]
pub struct ParamDescription<'a> {
    /// The name of the parameter.
    pub name: &'a str,
    /// Whether the parameter may be omitted.
    pub is_optional: bool,
    /// Whether the parameter may only be given by keyword.
    pub kw_only: bool,
}

/// Compares two strings character by character.
pub fn names_equal(a: &str, b: &str) -> (r: bool)
    ensures
        r == (a@ == b@),
{
    let n = a.unicode_len();
    let m = b.unicode_len();
    if n != m {
        return false;
    }
    let mut i: usize = 0;
    while i < n
        invariant
            n == a@.len(),
            m == b@.len(),
            n == m,
            i <= n,
            a@.subrange(0, i as int) == b@.subrange(0, i as int),
        decreases n - i,
    {
        if a.get_char(i) != b.get_char(i) {
            return false;
        }
        proof {
            assert(a@.subrange(0, i + 1) =~= a@.subrange(0, i as int).push(a@[i as int]));
            assert(b@.subrange(0, i + 1) =~= b@.subrange(0, i as int).push(b@[i as int]));
        }
        i = i + 1;
    }
    proof {
        assert(a@ =~= a@.subrange(0, n as int));
        assert(b@ =~= b@.subrange(0, n as int));
    }
    true
}

/// True when `j` is the first entry whose key is `name`.
pub open spec fn first_with_key<V>(kws: Seq<(Seq<char>, V)>, name: Seq<char>, j: int) -> bool {
    &&& 0 <= j < kws.len()
    &&& kws[j].0 == name
    &&& forall|k: int| 0 <= k < j ==> kws[k].0 != name
}

/// True when some entry has the key `name`.
pub open spec fn has_key<V>(kws: Seq<(Seq<char>, V)>, name: Seq<char>) -> bool {
    exists|j: int| first_with_key(kws, name, j)
}

/// The value of the first entry with key `name`, if any.
pub open spec fn lookup<'x, V>(kws: Seq<(Seq<char>, V)>, name: Seq<char>) -> Option<&'x V> {
    if has_key(kws, name) {
        Some(&kws[choose|j: int| first_with_key(kws, name, j)].1)
    } else {
        None
    }
}

/// Any entry with key `name` shows that the key is present.
pub proof fn lemma_has_key<V>(kws: Seq<(Seq<char>, V)>, name: Seq<char>, j: int)
    requires
        0 <= j < kws.len(),
        kws[j].0 == name,
    ensures
        has_key(kws, name),
    decreases j,
{
    if forall|k: int| 0 <= k < j ==> kws[k].0 != name {
        assert(first_with_key(kws, name, j));
    } else {
        let k = choose|k: int| 0 <= k < j && kws[k].0 == name;
        lemma_has_key(kws, name, k);
    }
}

/// Keyword arguments of one call: a mapping from names to values that
/// keeps the order in which the names were first inserted.
pub struct KeywordArgs<'a, V> {
    entries: Vec<(&'a str, V)>,
}

impl<'a, V> View for KeywordArgs<'a, V> {
    type V = Seq<(Seq<char>, V)>;

    closed spec fn view(&self) -> Seq<(Seq<char>, V)> {
        self.entries@.map_values(|e: (&'a str, V)| (e.0@, e.1))
    }
}

impl<'a, V> KeywordArgs<'a, V> {
    /// An empty mapping.
    pub fn new() -> (r: Self)
        ensures
            r@ == Seq::<(Seq<char>, V)>::empty(),
    {
        let r = KeywordArgs { entries: Vec::new() };
        assert(r@ =~= Seq::<(Seq<char>, V)>::empty());
        r
    }

    /// The number of entries.
    pub fn len(&self) -> (r: usize)
        ensures
            r == self@.len(),
    {
        self.entries.len()
    }

    /// The position of the entry with key `key`, if any.
    fn position(&self, key: &str) -> (r: Option<usize>)
        ensures
            match r {
                Some(j) => first_with_key(self@, key@, j as int),
                None => forall|k: int| 0 <= k < self@.len() ==> self@[k].0 != key@,
            },
    {
        let mut j: usize = 0;
        while j < self.entries.len()
            invariant
                j <= self.entries@.len(),
                self@.len() == self.entries@.len(),
                forall|k: int| 0 <= k < j ==> self@[k].0 != key@,
            decreases self.entries@.len() - j,
        {
            if names_equal(self.entries[j].0, key) {
                return Some(j);
            }
            j = j + 1;
        }
        None
    }

    /// The value stored under `key`, if any.
    pub fn get_item(&self, key: &str) -> (r: Option<&V>)
        ensures
            r == lookup(self@, key@),
    {
        match self.position(key) {
            Some(j) => {
                assert(first_with_key(self@, key@, j as int));
                let ghost c = choose|k: int| first_with_key(self@, key@, k);
                assert(c == j);
                Some(&self.entries[j].1)
            },
            None => None,
        }
    }

    /// The key of the entry at `index`, in insertion order.
    pub fn key_at(&self, index: usize) -> (r: &'a str)
        requires
            index < self@.len(),
        ensures
            r@ == self@[index as int].0,
    {
        self.entries[index].0
    }

    /// Stores `value` under `key`, replacing the value of an entry that has
    /// that key already and appending a new entry otherwise.
    pub fn insert(&mut self, key: &'a str, value: V)
        ensures
            has_key(old(self)@, key@) ==> exists|j: int|
                first_with_key(old(self)@, key@, j) && final(self)@ == old(self)@.update(
                    j,
                    (key@, value),
                ),
            !has_key(old(self)@, key@) ==> final(self)@ == old(self)@.push((key@, value)),
    {
        match self.position(key) {
            Some(j) => {
                self.entries.set(j, (key, value));
                proof {
                    assert(self@ =~= old(self)@.update(j as int, (key@, value)));
                }
            },
            None => {
                self.entries.push((key, value));
                proof {
                    assert(self@ =~= old(self)@.push((key@, value)));
                }
            },
        }
    }
}

} // verus!
