use vstd::prelude::*;

verus! {

/// A value of the settings document, as TOML types it.
pub enum ConfigValue {
    Str(String),
    Integer(i64),
    /// A floating-point number, kept in its decimal rendering.
    Float(String),
    Boolean(bool),
    /// A date and/or time, kept in its TOML rendering.
    Datetime(String),
    Array(Vec<ConfigValue>),
    Table(ConfigTable),
}

/// A table of the settings document: keys with their values, in the order in
/// which the document's parser yields them.
pub struct ConfigTable {
    pub(crate) entries: Vec<(String, ConfigValue)>,
}

impl View for ConfigTable {
    type V = Seq<(String, ConfigValue)>;

    closed spec fn view(&self) -> Seq<(String, ConfigValue)> {
        self.entries@
    }
}

/// `i` is the first position of `e` whose key is `key`.
pub open spec fn first_at(e: Seq<(String, ConfigValue)>, key: Seq<char>, i: int) -> bool {
    &&& 0 <= i < e.len()
    &&& e[i].0@ == key
    &&& forall|j: int| 0 <= j < i ==> e[j].0@ != key
}

/// The value stored under `key`, taken from its first occurrence.
pub open spec fn lookup(e: Seq<(String, ConfigValue)>, key: Seq<char>) -> Option<ConfigValue> {
    if exists|i: int| first_at(e, key, i) {
        Some(e[choose|i: int| first_at(e, key, i)].1)
    } else {
        None
    }
}

/// No key occurs twice.
pub open spec fn keys_distinct(e: Seq<(String, ConfigValue)>) -> bool {
    forall|i: int, j: int| 0 <= i < e.len() && 0 <= j < e.len() && i != j ==> e[i].0@ != e[j].0@
}

/// With distinct keys, the entry at `i` is the one found under its key.
pub proof fn lemma_lookup_distinct(e: Seq<(String, ConfigValue)>, i: int)
    requires
        keys_distinct(e),
        0 <= i < e.len(),
    ensures
        lookup(e, e[i].0@) == Some(e[i].1),
{
    assert(first_at(e, e[i].0@, i));
    let k = choose|k: int| first_at(e, e[i].0@, k);
    assert(k == i);
}

/// A key absent from every entry is found nowhere.
pub proof fn lemma_lookup_absent(e: Seq<(String, ConfigValue)>, key: Seq<char>)
    requires
        forall|j: int| 0 <= j < e.len() ==> e[j].0@ != key,
    ensures
        lookup(e, key) == None::<ConfigValue>,
{
}

impl ConfigTable {
    /// Every key of the table occurs once.
    pub open spec fn wf(&self) -> bool {
        keys_distinct(self@)
    }

    /// An empty table.
    pub fn new() -> (r: ConfigTable)
        ensures
            r@ == Seq::<(String, ConfigValue)>::empty(),
            r.wf(),
    {
        ConfigTable { entries: Vec::new() }
    }

    /// The number of entries.
    pub fn len(&self) -> (r: usize)
        ensures
            r == self@.len(),
    {
        self.entries.len()
    }

    /// The entry at position `i`.
    pub fn entry(&self, i: usize) -> (r: (&String, &ConfigValue))
        requires
            i < self@.len(),
        ensures
            *r.0 == self@[i as int].0,
            *r.1 == self@[i as int].1,
    {
        let e = &self.entries[i];
        (&e.0, &e.1)
    }

    /// The position of the first entry under `key`, if there is one.
    fn position(&self, key: &str) -> (r: Option<usize>)
        ensures
            match r {
                Some(i) => first_at(self@, key@, i as int),
                None => forall|j: int| 0 <= j < self@.len() ==> self@[j].0@ != key@,
            },
    {
        let k = String::from_str(key);
        let mut i: usize = 0;
        while i < self.entries.len()
            invariant
                i <= self@.len(),
                k@ == key@,
                forall|j: int| 0 <= j < i ==> self@[j].0@ != key@,
            decreases self@.len() - i,
        {
            if self.entries[i].0 == k {
                return Some(i);
            }
            i = i + 1;
        }
        None
    }

    /// The value stored under `key`.
    pub fn get(&self, key: &str) -> (r: Option<&ConfigValue>)
        ensures
            match r {
                Some(v) => lookup(self@, key@) == Some(*v),
                None => lookup(self@, key@) == None::<ConfigValue>,
            },
    {
        match self.position(key) {
            Some(i) => {
                proof {
                    let k = choose|k: int| first_at(self@, key@, k);
                    assert(k == i);
                }
                Some(&self.entries[i].1)
            },
            None => None,
        }
    }

    /// Stores `value` under `key`, replacing what was stored there.
    pub fn insert(&mut self, key: String, value: ConfigValue)
        requires
            old(self).wf(),
        ensures
            final(self).wf(),
            lookup(final(self)@, key@) == Some(value),
            forall|k: Seq<char>| k != key@ ==> lookup(final(self)@, k) == lookup(old(self)@, k),
    {
        let ghost k0 = key@;
        match self.position(key.as_str()) {
            Some(i) => {
                self.entries.set(i, (key, value));
            },
            None => {
                self.entries.push((key, value));
            },
        }
        proof {
            let e = self@;
            let o = old(self)@;
            assert(keys_distinct(e));
            let n: int = if e.len() == o.len() { choose|i: int| first_at(o, k0, i) } else { o.len() as int };
            assert(e[n].0@ == k0);
            lemma_lookup_distinct(e, n);
            assert forall|k: Seq<char>| k != k0 implies lookup(e, k) == lookup(o, k) by {
                if exists|i: int| 0 <= i < o.len() && o[i].0@ == k {
                    let i = choose|i: int| 0 <= i < o.len() && o[i].0@ == k;
                    lemma_lookup_distinct(o, i);
                    lemma_lookup_distinct(e, i);
                } else {
                    lemma_lookup_absent(o, k);
                    lemma_lookup_absent(e, k);
                }
            }
        }
    }
}

} // verus!
