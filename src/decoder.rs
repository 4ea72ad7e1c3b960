use vstd::prelude::*;

use crate::error::{kind_message, message, DecodeError, DecodeErrorKind};
use crate::value::{first_key, has_key, str_eq, Value};

verus! {

/// The view of an optional string.
pub open spec fn opt_view(p: Option<String>) -> Option<Seq<char>> {
    match p {
        Some(s) => Some(s@),
        None => None,
    }
}

/// The path of a child reached through field `f` from a decoder at path `p`:
/// `p.f`, or `f` alone at the root. An empty field name keeps the path.
pub open spec fn extend_path(p: Option<Seq<char>>, f: Seq<char>) -> Option<Seq<char>> {
    if f.len() == 0 {
        p
    } else {
        match p {
            None => Some(f),
            Some(s) => Some(s + seq!['.'] + f),
        }
    }
}

/// The value under key `k` among entries `t`, or `None` where no entry has
/// the key.
pub open spec fn child_value(t: Seq<(String, Value)>, k: Seq<char>) -> Option<Value> {
    if has_key(t, k) {
        Some(t[choose|i: int| first_key(t, k, i)].1)
    } else {
        None
    }
}

/// A table with entries `s` stands in `o`.
pub open spec fn is_table_of(o: Option<Value>, s: Seq<(String, Value)>) -> bool {
    match o {
        Some(Value::Table(t)) => t.entries() == s,
        _ => false,
    }
}

/// An array with elements `s` stands in `o`.
pub open spec fn is_array_of(o: Option<Value>, s: Seq<Value>) -> bool {
    match o {
        Some(Value::Array(a)) => a@ == s,
        _ => false,
    }
}

/// Nothing, or an empty string, stands in `o`.
pub open spec fn is_unit(o: Option<Value>) -> bool {
    match o {
        None => true,
        Some(Value::String(s)) => s@.len() == 0,
        Some(_) => false,
    }
}

/// `v` selects the variant named `n`: it is that name as a string, or a
/// table that holds it as a key.
pub open spec fn names_variant(n: Seq<char>, v: Value) -> bool {
    match v {
        Value::String(s) => s@ == n,
        Value::Table(t) => has_key(t.entries(), n),
        _ => false,
    }
}

/// Name `i` is the first of `names` that `v` selects.
pub open spec fn first_variant(names: Seq<&str>, v: Value, i: int) -> bool {
    &&& 0 <= i < names.len()
    &&& names_variant(names[i]@, v)
    &&& forall|j: int| 0 <= j < i ==> !names_variant(names[j]@, v)
}

/// The error kind for a value that selects none of the variants offered.
pub open spec fn unknown_variant_kind(v: Value) -> DecodeErrorKind {
    match v {
        Value::String(_) | Value::Table(_) => DecodeErrorKind::ExpectedField(None),
        _ => mismatch_kind("string", Some(v)),
    }
}

/// Returns the index of the first of `names` that `v` selects.
fn variant_index(names: &[&str], v: &Value) -> (r: Option<usize>)
    ensures
        match r {
            Some(i) => first_variant(names@, *v, i as int),
            None => forall|i: int| 0 <= i < names@.len() ==> !names_variant(names@[i]@, *v),
        },
{
    let n = names.len();
    let mut i: usize = 0;
    while i < n
        invariant
            n == names@.len(),
            i <= n,
            forall|j: int| 0 <= j < i ==> !names_variant(names@[j]@, *v),
        decreases n - i,
    {
        let hit = match v {
            Value::String(s) => str_eq(s.as_str(), names[i]),
            Value::Table(t) => t.contains_key(names[i]),
            _ => false,
        };
        if hit {
            return Some(i);
        }
        i = i + 1;
    }
    None
}

/// The kind of the error that a request for a value of type `expected`
/// gives where `found` stands.
pub open spec fn mismatch_kind(expected: &'static str, found: Option<Value>) -> DecodeErrorKind {
    match found {
        Some(v) => DecodeErrorKind::ExpectedType(expected, v.tag()),
        None => DecodeErrorKind::ExpectedField(Some(expected)),
    }
}

/// `r` is an error of kind `kind` at path `path`.
pub open spec fn fails_with<T>(r: Result<T, DecodeError>, path: Option<Seq<char>>, kind: DecodeErrorKind) -> bool {
    match r {
        Ok(_) => false,
        Err(e) => opt_view(e.field) == path && e.kind == kind,
    }
}

/// What a request for a scalar of type `expected` gives where `found`
/// stands: the value itself if its tag is `expected`, else the mismatch.
pub open spec fn take_outcome(found: Option<Value>, expected: &'static str) -> Result<Value, DecodeErrorKind> {
    match found {
        Some(v) => if v.tag()@ == expected@ {
            Ok(v)
        } else {
            Err(mismatch_kind(expected, found))
        },
        None => Err(mismatch_kind(expected, found)),
    }
}

/// A cursor over a TOML value that answers the requests of a decoding
/// routine, keeping the dotted path of fields walked so far.
///
/// Values are moved out of the tree as they are decoded: what is left in
/// `toml` after decoding shows which parts were not read.
#[derive(Debug)]
pub struct Decoder {
    /// The TOML value left over after decoding.
    pub toml: Option<Value>,
    /// The dotted path of the field this decoder stands at; `None` at the root.
    pub cur_field: Option<String>,
}

impl Decoder {
    /// The dotted path of the field this decoder stands at; `None` at the root.
    pub open spec fn path(&self) -> Option<Seq<char>> {
        opt_view(self.cur_field)
    }

    /// The value this decoder has still to decode.
    pub open spec fn remaining(&self) -> Option<Value> {
        self.toml
    }

    /// Creates a decoder at the root of `toml`.
    pub fn new(toml: Value) -> (r: Decoder)
        ensures
            r.remaining() == Some(toml),
            r.path() == None::<Seq<char>>,
    {
        Decoder { toml: Some(toml), cur_field: None }
    }

    /// The value this decoder has still to decode.
    pub fn remaining_toml(&self) -> (r: &Option<Value>)
        ensures
            *r == self.remaining(),
    {
        &self.toml
    }

    /// The dotted path of the field this decoder stands at.
    pub fn cur_field(&self) -> (r: Option<String>)
        ensures
            opt_view(r) == self.path(),
    {
        match &self.cur_field {
            Some(s) => Some(s.clone()),
            None => None,
        }
    }

    /// A decoder over `toml` whose path is this one's extended by `field`.
    pub fn sub_decoder(&self, toml: Option<Value>, field: &str) -> (r: Decoder)
        ensures
            r.remaining() == toml,
            r.path() == extend_path(self.path(), field@),
    {
        let cur_field = if field.is_empty() {
            self.cur_field()
        } else {
            match &self.cur_field {
                None => Some(String::from_str(field)),
                Some(s) => {
                    let mut p = s.clone();
                    p.append(".");
                    p.append(field);
                    proof {
                        reveal_strlit(".");
                    }
                    assert(p@ =~= s@ + seq!['.'] + field@);
                    Some(p)
                },
            }
        };
        Decoder { toml, cur_field }
    }

    /// An error of the given kind at this decoder's path.
    pub fn err(&self, kind: DecodeErrorKind) -> (r: DecodeError)
        ensures
            opt_view(r.field) == self.path(),
            r.kind == kind,
    {
        DecodeError { field: self.cur_field(), kind }
    }

    /// The error for a request of type `expected` where `found` stands:
    /// a type mismatch, or a missing field where nothing stands.
    pub fn mismatch(&self, expected: &'static str, found: &Option<Value>) -> (r: DecodeError)
        ensures
            opt_view(r.field) == self.path(),
            r.kind == mismatch_kind(expected, *found),
    {
        match found {
            Some(v) => self.err(DecodeErrorKind::ExpectedType(expected, v.type_str())),
            None => self.err(DecodeErrorKind::ExpectedField(Some(expected))),
        }
    }

    /// Descends into field `name` of the table this decoder stands at.
    ///
    /// The child's path is this one's extended by `name`. Where the table
    /// holds the key, its entry leaves the table and its value moves into
    /// the child; where it does not, the child stands at nothing.
    /// Where no table stands here, this fails with a mismatch against
    /// "table" and nothing changes.
    pub fn field(&mut self, name: &str) -> (r: Result<Decoder, DecodeError>)
        ensures
            final(self).path() == old(self).path(),
            match old(self).remaining() {
                Some(Value::Table(t)) => match r {
                    Ok(d) => {
                        &&& d.path() == extend_path(old(self).path(), name@)
                        &&& d.remaining() == child_value(t.entries(), name@)
                        &&& has_key(t.entries(), name@) ==> exists|i: int|
                            first_key(t.entries(), name@, i) && is_table_of(
                                final(self).remaining(),
                                t.entries().remove(i),
                            )
                        &&& !has_key(t.entries(), name@) ==> final(self).remaining() == old(
                            self,
                        ).remaining()
                    },
                    Err(_) => false,
                },
                found => fails_with(r, old(self).path(), mismatch_kind("table", found))
                    && final(self).remaining() == found,
            },
    {
        let cur = self.toml.take();
        match cur {
            Some(Value::Table(mut t)) => {
                let ghost before = t.entries();
                let v = t.remove(name);
                proof {
                    if has_key(before, name@) {
                        let i = choose|i: int|
                            first_key(before, name@, i) && v == Some(before[i].1)
                                && t.entries() == before.remove(i);
                        let j = choose|j: int| first_key(before, name@, j);
                        lemma_first_key_unique(before, name@, i, j);
                    }
                }
                let d = self.sub_decoder(v, name);
                self.toml = Some(Value::Table(t));
                Ok(d)
            },
            other => {
                let e = self.mismatch("table", &other);
                self.toml = other;
                Err(e)
            },
        }
    }

    /// Descends into element `idx` of the array this decoder stands at.
    ///
    /// The child keeps this decoder's path: an index is no segment of it.
    /// The element moves out into the child, and its slot holds
    /// `Integer(0)` afterwards. Past the end this fails with
    /// `ExpectedMapElement(idx)`; where no array stands here, with a
    /// mismatch against "array". A failure changes nothing.
    pub fn element(&mut self, idx: usize) -> (r: Result<Decoder, DecodeError>)
        ensures
            final(self).path() == old(self).path(),
            match old(self).remaining() {
                Some(Value::Array(a)) => if idx < a@.len() {
                    &&& r matches Ok(d)
                    &&& d.remaining() == Some(a@[idx as int])
                    &&& d.path() == old(self).path()
                    &&& is_array_of(
                        final(self).remaining(),
                        a@.update(idx as int, Value::Integer(0)),
                    )
                } else {
                    fails_with(r, old(self).path(), DecodeErrorKind::ExpectedMapElement(idx))
                        && final(self).remaining() == old(self).remaining()
                },
                found => fails_with(r, old(self).path(), mismatch_kind("array", found))
                    && final(self).remaining() == found,
            },
    {
        let cur = self.toml.take();
        match cur {
            Some(Value::Array(mut a)) => {
                if idx < a.len() {
                    let mut v = Value::Integer(0);
                    a.set_and_swap(idx, &mut v);
                    let d = Decoder { toml: Some(v), cur_field: self.cur_field() };
                    self.toml = Some(Value::Array(a));
                    Ok(d)
                } else {
                    let e = self.err(DecodeErrorKind::ExpectedMapElement(idx));
                    self.toml = Some(Value::Array(a));
                    Err(e)
                }
            },
            other => {
                let e = self.mismatch("array", &other);
                self.toml = other;
                Err(e)
            },
        }
    }

    /// Takes the value this decoder stands at, which must be of type `string`.
    /// A string moves out and leaves nothing behind; anything else
    /// fails with a mismatch against "string" and stays.
    pub fn read_str(&mut self) -> (r: Result<String, DecodeError>)
        ensures
            final(self).path() == old(self).path(),
            match old(self).remaining() {
                Some(Value::String(x)) => r == Ok::<String, DecodeError>(x)
                    && final(self).remaining() is None,
                found => fails_with(r, old(self).path(), mismatch_kind("string", found))
                    && final(self).remaining() == found,
            },
    {
        let cur = self.toml.take();
        match cur {
            Some(Value::String(x)) => Ok(x),
            other => {
                let e = self.mismatch("string", &other);
                self.toml = other;
                Err(e)
            },
        }
    }

    /// Takes the value this decoder stands at, which must be of type `integer`.
    /// An integer moves out and leaves nothing behind; anything else
    /// fails with a mismatch against "integer" and stays.
    pub fn read_i64(&mut self) -> (r: Result<i64, DecodeError>)
        ensures
            final(self).path() == old(self).path(),
            match old(self).remaining() {
                Some(Value::Integer(x)) => r == Ok::<i64, DecodeError>(x)
                    && final(self).remaining() is None,
                found => fails_with(r, old(self).path(), mismatch_kind("integer", found))
                    && final(self).remaining() == found,
            },
    {
        let cur = self.toml.take();
        match cur {
            Some(Value::Integer(x)) => Ok(x),
            other => {
                let e = self.mismatch("integer", &other);
                self.toml = other;
                Err(e)
            },
        }
    }

    /// Takes the value this decoder stands at, which must be of type `float`.
    /// A float, as its IEEE-754 binary64 bit pattern, moves out and leaves nothing behind; anything else
    /// fails with a mismatch against "float" and stays.
    pub fn read_f64_bits(&mut self) -> (r: Result<u64, DecodeError>)
        ensures
            final(self).path() == old(self).path(),
            match old(self).remaining() {
                Some(Value::Float(x)) => r == Ok::<u64, DecodeError>(x)
                    && final(self).remaining() is None,
                found => fails_with(r, old(self).path(), mismatch_kind("float", found))
                    && final(self).remaining() == found,
            },
    {
        let cur = self.toml.take();
        match cur {
            Some(Value::Float(x)) => Ok(x),
            other => {
                let e = self.mismatch("float", &other);
                self.toml = other;
                Err(e)
            },
        }
    }

    /// Takes the value this decoder stands at, which must be of type `boolean`.
    /// A boolean moves out and leaves nothing behind; anything else
    /// fails with a mismatch against "boolean" and stays.
    pub fn read_bool(&mut self) -> (r: Result<bool, DecodeError>)
        ensures
            final(self).path() == old(self).path(),
            match old(self).remaining() {
                Some(Value::Boolean(x)) => r == Ok::<bool, DecodeError>(x)
                    && final(self).remaining() is None,
                found => fails_with(r, old(self).path(), mismatch_kind("boolean", found))
                    && final(self).remaining() == found,
            },
    {
        let cur = self.toml.take();
        match cur {
            Some(Value::Boolean(x)) => Ok(x),
            other => {
                let e = self.mismatch("boolean", &other);
                self.toml = other;
                Err(e)
            },
        }
    }

    /// Takes the value this decoder stands at, which must be of type `datetime`.
    /// A datetime, in its written form, moves out and leaves nothing behind; anything else
    /// fails with a mismatch against "datetime" and stays.
    pub fn read_datetime(&mut self) -> (r: Result<String, DecodeError>)
        ensures
            final(self).path() == old(self).path(),
            match old(self).remaining() {
                Some(Value::Datetime(x)) => r == Ok::<String, DecodeError>(x)
                    && final(self).remaining() is None,
                found => fails_with(r, old(self).path(), mismatch_kind("datetime", found))
                    && final(self).remaining() == found,
            },
    {
        let cur = self.toml.take();
        match cur {
            Some(Value::Datetime(x)) => Ok(x),
            other => {
                let e = self.mismatch("datetime", &other);
                self.toml = other;
                Err(e)
            },
        }
    }

    /// Takes the value this decoder stands at if its type is `expected`,
    /// leaving nothing behind; otherwise fails with the mismatch and
    /// changes nothing. No value is converted to another type.
    pub fn take_scalar(&mut self, expected: &'static str) -> (r: Result<Value, DecodeError>)
        ensures
            final(self).path() == old(self).path(),
            match take_outcome(old(self).remaining(), expected) {
                Ok(v) => r == Ok::<Value, DecodeError>(v) && final(self).remaining() is None,
                Err(k) => fails_with(r, old(self).path(), k) && final(self).remaining() == old(
                    self,
                ).remaining(),
            },
    {
        let cur = self.toml.take();
        match cur {
            Some(v) => {
                if str_eq(v.type_str(), expected) {
                    Ok(v)
                } else {
                    let found = Some(v);
                    let e = self.mismatch(expected, &found);
                    self.toml = found;
                    Err(e)
                }
            },
            None => Err(self.mismatch(expected, &None)),
        }
    }

    /// Takes the unit value: nothing, or an empty string, which is then
    /// consumed. Anything else fails with `NilTooLong` and stays.
    pub fn read_nil(&mut self) -> (r: Result<(), DecodeError>)
        ensures
            final(self).path() == old(self).path(),
            is_unit(old(self).remaining()) ==> r is Ok && final(self).remaining() is None,
            !is_unit(old(self).remaining()) ==> fails_with(
                r,
                old(self).path(),
                DecodeErrorKind::NilTooLong,
            ) && final(self).remaining() == old(self).remaining(),
    {
        let unit = match &self.toml {
            None => true,
            Some(Value::String(s)) => s.as_str().is_empty(),
            Some(_) => false,
        };
        if unit {
            self.toml = None;
            Ok(())
        } else {
            Err(self.err(DecodeErrorKind::NilTooLong))
        }
    }

    /// The keys of the table this decoder stands at, in the table's order.
    /// Where no table stands here, fails with a mismatch against "table".
    pub fn map_keys(&self) -> (r: Result<Vec<String>, DecodeError>)
        ensures
            match self.remaining() {
                Some(Value::Table(t)) => {
                    &&& r matches Ok(ks)
                    &&& ks@.len() == t.entries().len()
                    &&& forall|i: int| 0 <= i < t.entries().len() ==> ks@[i]@ == t.entries()[i].0@
                },
                found => fails_with(r, self.path(), mismatch_kind("table", found)),
            },
    {
        match &self.toml {
            Some(Value::Table(t)) => Ok(t.keys()),
            other => Err(self.mismatch("table", other)),
        }
    }

    /// The number of elements of the array this decoder stands at. Where no
    /// array stands here, fails with a mismatch against "array".
    pub fn seq_len(&self) -> (r: Result<usize, DecodeError>)
        ensures
            match self.remaining() {
                Some(Value::Array(a)) => r == Ok::<usize, DecodeError>(a@.len() as usize),
                found => fails_with(r, self.path(), mismatch_kind("array", found)),
            },
    {
        match &self.toml {
            Some(Value::Array(a)) => Ok(a.len()),
            other => Err(self.mismatch("array", other)),
        }
    }

    /// Picks the variant of an enum among `names` by the value this decoder
    /// stands at: a string names a variant without payload and is consumed;
    /// a table that holds a variant's name as a key carries that variant's
    /// payload and stays, for the caller to descend into. The first name
    /// that matches wins. With no names this fails with `NoEnumVariants`; a
    /// string or table that names none fails with `ExpectedField(None)`;
    /// anything else with a mismatch against "string".
    pub fn read_enum_variant(&mut self, names: &[&str]) -> (r: Result<usize, DecodeError>)
        ensures
            final(self).path() == old(self).path(),
            names@.len() == 0 ==> fails_with(r, old(self).path(), DecodeErrorKind::NoEnumVariants)
                && final(self).remaining() == old(self).remaining(),
            names@.len() > 0 ==> match old(self).remaining() {
                Some(v) => if exists|i: int| 0 <= i < names@.len() && names_variant(names@[i]@, v) {
                    &&& r matches Ok(i)
                    &&& first_variant(names@, v, i as int)
                    &&& final(self).remaining() == (if v is String {
                        None
                    } else {
                        Some(v)
                    })
                } else {
                    fails_with(r, old(self).path(), unknown_variant_kind(v))
                        && final(self).remaining() == Some(v)
                },
                None => fails_with(r, old(self).path(), mismatch_kind("string", None))
                    && final(self).remaining() is None,
            },
    {
        if names.len() == 0 {
            return Err(self.err(DecodeErrorKind::NoEnumVariants));
        }
        let found = match &self.toml {
            Some(v) => match variant_index(names, v) {
                Some(i) => Ok((i, v.is_string())),
                None => match v {
                    Value::String(_) | Value::Table(_) => Err(
                        self.err(DecodeErrorKind::ExpectedField(None)),
                    ),
                    _ => Err(self.err(DecodeErrorKind::ExpectedType("string", v.type_str()))),
                },
            },
            None => Err(self.mismatch("string", &None)),
        };
        match found {
            Ok((i, consumed)) => {
                if consumed {
                    self.toml = None;
                }
                Ok(i)
            },
            Err(e) => Err(e),
        }
    }
}

/// A type that can be decoded from a TOML value by driving a `Decoder`.
pub trait Decodable: Sized {
    /// Decoding the value `v`, found at path `p` (`None` at the root), may
    /// give the outcome `r`. A type that states nothing of its decoding
    /// keeps the default, which admits every outcome.
    open spec fn decodes(v: Option<Value>, p: Option<Seq<char>>, r: Result<Self, DecodeError>) -> bool {
        true
    }

    /// Reads a value of this type from `d`, or reports the first failure.
    fn decode(d: &mut Decoder) -> (r: Result<Self, DecodeError>)
        ensures
            Self::decodes(old(d).remaining(), old(d).path(), r),
    ;
}

/// A `i64` decodes from a TOML integer, and from nothing else.
impl Decodable for i64 {
    open spec fn decodes(v: Option<Value>, p: Option<Seq<char>>, r: Result<i64, DecodeError>) -> bool {
        match v {
            Some(Value::Integer(x)) => r == Ok::<i64, DecodeError>(x),
            found => fails_with(r, p, mismatch_kind("integer", found)),
        }
    }

    fn decode(d: &mut Decoder) -> (r: Result<i64, DecodeError>) {
        d.read_i64()
    }
}

/// A `bool` decodes from a TOML boolean, and from nothing else.
impl Decodable for bool {
    open spec fn decodes(v: Option<Value>, p: Option<Seq<char>>, r: Result<bool, DecodeError>) -> bool {
        match v {
            Some(Value::Boolean(x)) => r == Ok::<bool, DecodeError>(x),
            found => fails_with(r, p, mismatch_kind("boolean", found)),
        }
    }

    fn decode(d: &mut Decoder) -> (r: Result<bool, DecodeError>) {
        d.read_bool()
    }
}

/// A `String` decodes from a TOML string, and from nothing else.
impl Decodable for String {
    open spec fn decodes(v: Option<Value>, p: Option<Seq<char>>, r: Result<String, DecodeError>) -> bool {
        match v {
            Some(Value::String(x)) => r == Ok::<String, DecodeError>(x),
            found => fails_with(r, p, mismatch_kind("string", found)),
        }
    }

    fn decode(d: &mut Decoder) -> (r: Result<String, DecodeError>) {
        d.read_str()
    }
}

/// Decodes a TOML value into a value of type `T`, consuming it, by running
/// `T`'s decoding on a decoder at the root of `toml`. Its value comes back
/// as `Some`, and any failure as `None`; drive a `Decoder` directly to learn
/// which error occurred.
pub fn decode<T: Decodable>(toml: Value) -> (r: Option<T>)
    ensures
        match r {
            Some(t) => T::decodes(Some(toml), None, Ok::<T, DecodeError>(t)),
            None => exists|e: DecodeError| T::decodes(Some(toml), None, Err::<T, DecodeError>(e)),
        },
{
    let mut d = Decoder::new(toml);
    match T::decode(&mut d) {
        Ok(t) => Some(t),
        Err(_) => None,
    }
}

/// Only one entry of `t` is the first under key `k`.
proof fn lemma_first_key_unique(t: Seq<(String, Value)>, k: Seq<char>, i: int, j: int)
    requires
        first_key(t, k, i),
        first_key(t, k, j),
    ensures
        i == j,
{
}

/// Where some entry of `t` has key `k`, one of them is the first.
proof fn lemma_first_key_below(t: Seq<(String, Value)>, k: Seq<char>, j: int)
    requires
        0 <= j < t.len(),
        t[j].0@ == k,
    ensures
        exists|i: int| first_key(t, k, i),
    decreases j,
{
    if exists|m: int| 0 <= m < j && t[m].0@ == k {
        let m = choose|m: int| 0 <= m < j && t[m].0@ == k;
        lemma_first_key_below(t, k, m);
    } else {
        assert(first_key(t, k, j));
    }
}

/// A key that a table holds leads back to its value unchanged: the child
/// for the key stands at the value of the key's entry, and a request
/// for a value of that value's own type returns it as it is.
pub proof fn lemma_field_round_trip(t: Seq<(String, Value)>, k: Seq<char>)
    requires
        has_key(t, k),
    ensures
        exists|i: int| first_key(t, k, i) && child_value(t, k) == Some(t[i].1),
        child_value(t, k) matches Some(v) && take_outcome(Some(v), v.tag()) == Ok::<
            Value,
            DecodeErrorKind,
        >(v),
{
    let j = choose|j: int| 0 <= j < t.len() && t[j].0@ == k;
    lemma_first_key_below(t, k, j);
    let i = choose|i: int| first_key(t, k, i);
    assert(first_key(t, k, i));
}

/// An error raised at a child reached through a non-empty field `f` names
/// the path `p.f`, or `f` alone where the parent stands at the root.
pub proof fn lemma_child_path_message(p: Option<Seq<char>>, f: Seq<char>, e: DecodeError)
    requires
        f.len() > 0,
        opt_view(e.field) == extend_path(p, f),
    ensures
        message(e) == kind_message(e.kind) + " for the key `"@ + (match p {
            Some(s) => s + "."@ + f,
            None => f,
        }) + "`"@,
{
    reveal_strlit(".");
    assert(seq!['.'] =~= "."@);
}

} // verus!
