use vstd::prelude::*;

verus! {

/// A parsed TOML document: scalars, arrays and tables.
#[derive(PartialEq, Debug)]
pub enum Value {
    String(String),
    Integer(i64),
    /// A floating-point number, held as its IEEE-754 binary64 bit pattern.
    Float(u64),
    Boolean(bool),
    Datetime(String),
    Array(Vec<Value>),
    Table(Table),
}

impl Value {
    /// The tag that names this value's kind in error messages.
    pub open spec fn tag(&self) -> &'static str {
        match self {
            Value::String(_) => "string",
            Value::Integer(_) => "integer",
            Value::Float(_) => "float",
            Value::Boolean(_) => "boolean",
            Value::Datetime(_) => "datetime",
            Value::Array(_) => "array",
            Value::Table(_) => "table",
        }
    }

    /// Returns the name of this value's kind: "string", "integer", "float",
    /// "boolean", "datetime", "array" or "table".
    pub fn type_str(&self) -> (r: &'static str)
        ensures
            r == self.tag(),
    {
        match self {
            Value::String(_) => "string",
            Value::Integer(_) => "integer",
            Value::Float(_) => "float",
            Value::Boolean(_) => "boolean",
            Value::Datetime(_) => "datetime",
            Value::Array(_) => "array",
            Value::Table(_) => "table",
        }
    }

    /// Tells whether this value is a string.
    pub fn is_string(&self) -> (r: bool)
        ensures
            r == self is String,
    {
        match self {
            Value::String(_) => true,
            _ => false,
        }
    }
}

/// Compares two strings character by character.
pub fn str_eq(a: &str, b: &str) -> (r: bool)
    ensures
        r == (a@ == b@),
{
    let n = a.unicode_len();
    if n != b.unicode_len() {
        return false;
    }
    let mut i: usize = 0;
    while i < n
        invariant
            n == a@.len(),
            n == b@.len(),
            i <= n,
            forall|j: int| 0 <= j < i ==> a@[j] == b@[j],
        decreases n - i,
    {
        if a.get_char(i) != b.get_char(i) {
            return false;
        }
        i = i + 1;
    }
    assert(a@ =~= b@);
    true
}

/// Entry `i` is the first entry of `t` under key `k`; in a table, whose
/// keys are distinct, it is the only one.
pub open spec fn first_key(t: Seq<(String, Value)>, k: Seq<char>, i: int) -> bool {
    &&& 0 <= i < t.len()
    &&& t[i].0@ == k
    &&& forall|j: int| 0 <= j < i ==> t[j].0@ != k
}

/// Some entry of `t` has key `k`.
pub open spec fn has_key(t: Seq<(String, Value)>, k: Seq<char>) -> bool {
    exists|i: int| 0 <= i < t.len() && t[i].0@ == k
}

/// No two entries of `t` share a key.
pub open spec fn distinct_keys(t: Seq<(String, Value)>) -> bool {
    forall|i: int, j: int| 0 <= i < t.len() && 0 <= j < t.len() && i != j ==> t[i].0@ != t[j].0@
}

/// Returns the index of the first entry of `t` under key `k`.
fn find_entry(t: &Vec<(String, Value)>, k: &str) -> (r: Option<usize>)
    ensures
        match r {
            Some(i) => first_key(t@, k@, i as int),
            None => !has_key(t@, k@),
        },
{
    let n = t.len();
    let mut i: usize = 0;
    while i < n
        invariant
            n == t@.len(),
            i <= n,
            forall|j: int| 0 <= j < i ==> t@[j].0@ != k@,
        decreases n - i,
    {
        if str_eq(t[i].0.as_str(), k) {
            return Some(i);
        }
        i = i + 1;
    }
    None
}

/// A TOML table: a mapping from keys to values, which keeps its entries in
/// the order they were first inserted. No key occurs twice.
#[derive(PartialEq, Debug)]
pub struct Table {
    entries: Vec<(String, Value)>,
}

impl Table {
    #[verifier::type_invariant]
    spec fn keys_are_distinct(self) -> bool {
        distinct_keys(self.entries@)
    }

    /// The entries of the table, in order.
    pub closed spec fn entries(&self) -> Seq<(String, Value)> {
        self.entries@
    }

    /// Creates an empty table.
    pub fn new() -> (r: Table)
        ensures
            r.entries() == Seq::<(String, Value)>::empty(),
    {
        Table { entries: Vec::new() }
    }

    /// The number of entries.
    pub fn len(&self) -> (r: usize)
        ensures
            r == self.entries().len(),
    {
        self.entries.len()
    }

    /// Tells whether the table holds key `k`.
    pub fn contains_key(&self, k: &str) -> (r: bool)
        ensures
            r == has_key(self.entries(), k@),
    {
        find_entry(&self.entries, k).is_some()
    }

    /// The keys of the table, in order.
    pub fn keys(&self) -> (r: Vec<String>)
        ensures
            r@.len() == self.entries().len(),
            forall|i: int| 0 <= i < r@.len() ==> r@[i]@ == self.entries()[i].0@,
    {
        let mut ks: Vec<String> = Vec::new();
        let n = self.entries.len();
        let mut i: usize = 0;
        while i < n
            invariant
                n == self.entries@.len(),
                i <= n,
                ks@.len() == i,
                forall|j: int| 0 <= j < i ==> ks@[j]@ == self.entries@[j].0@,
            decreases n - i,
        {
            ks.push(self.entries[i].0.clone());
            i = i + 1;
        }
        ks
    }

    /// Sets the value under `key`. An entry already under the key keeps its
    /// place and gets the new value, and the old value is returned;
    /// otherwise the entry is added at the end.
    pub fn insert(&mut self, key: String, value: Value) -> (r: Option<Value>)
        ensures
            has_key(old(self).entries(), key@) ==> exists|i: int|
                first_key(old(self).entries(), key@, i) && r == Some(old(self).entries()[i].1)
                    && final(self).entries() == old(self).entries().update(i, (key, value)),
            !has_key(old(self).entries(), key@) ==> r is None && final(self).entries() == old(
                self,
            ).entries().push((key, value)),
    {
        let mut entries = self.take_entries();
        let r = match find_entry(&entries, key.as_str()) {
            Some(i) => {
                let mut e = (key, value);
                entries.set_and_swap(i, &mut e);
                Some(e.1)
            },
            None => {
                entries.push((key, value));
                None
            },
        };
        assert(distinct_keys(entries@));
        *self = Table { entries };
        r
    }

    /// Removes the entry under `k` and returns its value.
    pub fn remove(&mut self, k: &str) -> (r: Option<Value>)
        ensures
            has_key(old(self).entries(), k@) ==> exists|i: int|
                first_key(old(self).entries(), k@, i) && r == Some(old(self).entries()[i].1)
                    && final(self).entries() == old(self).entries().remove(i),
            !has_key(old(self).entries(), k@) ==> r is None && *final(self) == *old(self),
    {
        if !self.contains_key(k) {
            return None;
        }
        let mut entries = self.take_entries();
        let r = match find_entry(&entries, k) {
            Some(i) => {
                let (_, v) = entries.remove(i);
                Some(v)
            },
            None => None,
        };
        assert(distinct_keys(entries@));
        *self = Table { entries };
        r
    }

    /// Moves the entries out, leaving the table empty.
    fn take_entries(&mut self) -> (r: Vec<(String, Value)>)
        ensures
            r@ == old(self).entries(),
            distinct_keys(r@),
            final(self).entries() == Seq::<(String, Value)>::empty(),
    {
        proof {
            use_type_invariant(&*self);
        }
        let mut t = Table::new();
        core::mem::swap(self, &mut t);
        proof {
            use_type_invariant(&t);
        }
        let Table { entries } = t;
        entries
    }
}

} // verus!
