//! A self-contained model of JSON values.
//!
//! Agent CLIs emit JSON per line; the normalizer inspects those values and
//! builds new ones. This module holds the crate's own JSON datatype, its
//! mathematical view, and the lookup helpers the normalizer needs. Decoding
//! text into a value and rendering a value back to text are done by
//! `serde_json` behind trusted wrappers.

use vstd::prelude::*;

verus! {

/// A JSON value. Numbers that fit in `i64` are held exactly; any other
/// number keeps its source text in `Num`, so a value can round-trip without
/// the crate holding floating point.
#[derive(Debug, PartialEq)]
pub enum JsonValue {
    Null,
    Bool(bool),
    Int(i64),
    Num(String),
    Str(String),
    Arr(Vec<JsonValue>),
    Obj(Vec<(String, JsonValue)>),
}

/// The mathematical shape of a `JsonValue`: strings as `Seq<char>`,
/// collections as `Seq`.
pub enum JsonVal {
    Null,
    Bool(bool),
    Int(int),
    Num(Seq<char>),
    Str(Seq<char>),
    Arr(Seq<JsonVal>),
    Obj(Seq<(Seq<char>, JsonVal)>),
}

impl JsonValue {
    /// The view of a value: the same tree over sequences.
    pub open spec fn dv(self) -> JsonVal
        decreases self, 1int,
    {
        match self {
            JsonValue::Null => JsonVal::Null,
            JsonValue::Bool(b) => JsonVal::Bool(b),
            JsonValue::Int(i) => JsonVal::Int(i as int),
            JsonValue::Num(s) => JsonVal::Num(s@),
            JsonValue::Str(s) => JsonVal::Str(s@),
            JsonValue::Arr(a) => JsonVal::Arr(dv_seq(a@)),
            JsonValue::Obj(o) => JsonVal::Obj(dv_pairs(o@)),
        }
    }
}

/// The views of the elements of a sequence of values.
pub open spec fn dv_seq(s: Seq<JsonValue>) -> Seq<JsonVal>
    decreases s, 0int,
{
    if s.len() == 0 {
        Seq::empty()
    } else {
        dv_seq(s.subrange(0, s.len() - 1)).push(s[s.len() - 1].dv())
    }
}

/// The views of the bindings of an object.
pub open spec fn dv_pairs(s: Seq<(String, JsonValue)>) -> Seq<(Seq<char>, JsonVal)>
    decreases s, 0int,
{
    if s.len() == 0 {
        Seq::empty()
    } else {
        dv_pairs(s.subrange(0, s.len() - 1)).push(
            (s[s.len() - 1].0@, s[s.len() - 1].1.dv()),
        )
    }
}

/// `dv_seq` maps the view pointwise.
pub proof fn lemma_dv_seq(s: Seq<JsonValue>)
    ensures
        dv_seq(s).len() == s.len(),
        forall|i: int| 0 <= i < s.len() ==> #[trigger] dv_seq(s)[i] == s[i].dv(),
    decreases s.len(),
{
    if s.len() > 0 {
        lemma_dv_seq(s.subrange(0, s.len() - 1));
        assert(forall|i: int|
            0 <= i < s.len() - 1 ==> s.subrange(0, s.len() - 1)[i] == #[trigger] s[i]);
    }
}

/// `dv_pairs` maps the view pointwise.
pub proof fn lemma_dv_pairs(s: Seq<(String, JsonValue)>)
    ensures
        dv_pairs(s).len() == s.len(),
        forall|i: int|
            0 <= i < s.len() ==> #[trigger] dv_pairs(s)[i] == (s[i].0@, s[i].1.dv()),
    decreases s.len(),
{
    if s.len() > 0 {
        lemma_dv_pairs(s.subrange(0, s.len() - 1));
        assert(forall|i: int|
            0 <= i < s.len() - 1 ==> s.subrange(0, s.len() - 1)[i] == #[trigger] s[i]);
    }
}

/// The value under the first binding of `key`, scanning left to right.
/// JSON objects carry each key once, so the first binding is the binding.
pub open spec fn lookup(o: Seq<(Seq<char>, JsonVal)>, key: Seq<char>) -> Option<JsonVal>
    decreases o.len(),
{
    if o.len() == 0 {
        None
    } else if o[0].0 == key {
        Some(o[0].1)
    } else {
        lookup(o.subrange(1, o.len() as int), key)
    }
}

impl JsonVal {
    /// The binding of `key`, if the value is an object and carries one.
    pub open spec fn get(self, key: Seq<char>) -> Option<JsonVal> {
        match self {
            JsonVal::Obj(o) => lookup(o, key),
            _ => None,
        }
    }

    /// The string content, if the value is a string.
    pub open spec fn as_str(self) -> Option<Seq<char>> {
        match self {
            JsonVal::Str(s) => Some(s),
            _ => None,
        }
    }

    /// The integer content, if the value is an integer.
    pub open spec fn as_int(self) -> Option<int> {
        match self {
            JsonVal::Int(i) => Some(i),
            _ => None,
        }
    }

    /// The boolean content, if the value is a boolean.
    pub open spec fn as_bool(self) -> Option<bool> {
        match self {
            JsonVal::Bool(b) => Some(b),
            _ => None,
        }
    }

    /// The elements, if the value is an array.
    pub open spec fn as_arr(self) -> Option<Seq<JsonVal>> {
        match self {
            JsonVal::Arr(a) => Some(a),
            _ => None,
        }
    }

    /// The bindings, if the value is an object.
    pub open spec fn as_obj(self) -> Option<Seq<(Seq<char>, JsonVal)>> {
        match self {
            JsonVal::Obj(o) => Some(o),
            _ => None,
        }
    }

    /// `get` composed with `as_str`: the string under `key`.
    pub open spec fn get_str(self, key: Seq<char>) -> Option<Seq<char>> {
        match self.get(key) {
            Some(v) => v.as_str(),
            None => None,
        }
    }
}

/// Looks `key` up among the bindings of an object, first match wins.
#[verifier::loop_isolation(false)]
pub fn obj_lookup<'a>(o: &'a Vec<(String, JsonValue)>, key: &str) -> (r: Option<&'a JsonValue>)
    ensures
        match r {
            Some(v) => lookup(dv_pairs(o@), key@) == Some(v.dv()),
            None => lookup(dv_pairs(o@), key@) is None,
        },
{
    proof {
        lemma_dv_pairs(o@);
        assert(dv_pairs(o@).subrange(0, o@.len() as int) =~= dv_pairs(o@));
    }
    let mut i: usize = 0;
    while i < o.len()
        invariant
            0 <= i <= o@.len(),
            dv_pairs(o@).len() == o@.len(),
            forall|j: int|
                0 <= j < o@.len() ==> #[trigger] dv_pairs(o@)[j] == (o@[j].0@, o@[j].1.dv()),
            lookup(dv_pairs(o@), key@) == lookup(
                dv_pairs(o@).subrange(i as int, o@.len() as int),
                key@,
            ),
        decreases o@.len() - i,
    {
        proof {
            assert(dv_pairs(o@).subrange(i as int, o@.len() as int).len() == o@.len() - i);
            assert(dv_pairs(o@).subrange(i as int, o@.len() as int)[0] == dv_pairs(o@)[i as int]);
        }
        if crate::strutil::str_eq(o[i].0.as_str(), key) {
            proof {
                assert(lookup(dv_pairs(o@), key@) == Some(o@[i as int].1.dv()));
            }
            return Some(&o[i].1);
        }
        proof {
            assert(dv_pairs(o@).subrange(i as int, o@.len() as int).subrange(
                1,
                (o@.len() - i) as int,
            ) =~= dv_pairs(o@).subrange(i + 1, o@.len() as int));
        }
        i += 1;
    }
    proof {
        assert(dv_pairs(o@).subrange(o@.len() as int, o@.len() as int)
            =~= Seq::<(Seq<char>, JsonVal)>::empty());
    }
    None
}

impl JsonValue {
    /// Looks up `key`, if this value is an object holding it.
    pub fn get<'a>(&'a self, key: &str) -> (r: Option<&'a JsonValue>)
        ensures
            match r {
                Some(v) => self.dv().get(key@) == Some(v.dv()),
                None => self.dv().get(key@) is None,
            },
    {
        match self {
            JsonValue::Obj(o) => obj_lookup(o, key),
            _ => None,
        }
    }

    /// The string content, if this value is a string.
    pub fn as_string<'a>(&'a self) -> (r: Option<&'a String>)
        ensures
            match r {
                Some(s) => self.dv().as_str() == Some(s@),
                None => self.dv().as_str() is None,
            },
    {
        match self {
            JsonValue::Str(s) => Some(s),
            _ => None,
        }
    }

    /// The integer content, if this value is an integer.
    pub fn as_i64(&self) -> (r: Option<i64>)
        ensures
            match r {
                Some(i) => self.dv().as_int() == Some(i as int),
                None => self.dv().as_int() is None,
            },
    {
        match self {
            JsonValue::Int(i) => Some(*i),
            _ => None,
        }
    }

    /// The boolean content, if this value is a boolean.
    pub fn as_bool(&self) -> (r: Option<bool>)
        ensures
            match r {
                Some(b) => self.dv().as_bool() == Some(b),
                None => self.dv().as_bool() is None,
            },
    {
        match self {
            JsonValue::Bool(b) => Some(*b),
            _ => None,
        }
    }

    /// The elements, if this value is an array.
    pub fn as_arr<'a>(&'a self) -> (r: Option<&'a Vec<JsonValue>>)
        ensures
            match r {
                Some(a) => self.dv().as_arr() == Some(dv_seq(a@)),
                None => self.dv().as_arr() is None,
            },
    {
        match self {
            JsonValue::Arr(a) => Some(a),
            _ => None,
        }
    }

    /// The bindings, if this value is an object.
    pub fn as_obj<'a>(&'a self) -> (r: Option<&'a Vec<(String, JsonValue)>>)
        ensures
            match r {
                Some(o) => self.dv().as_obj() == Some(dv_pairs(o@)),
                None => self.dv().as_obj() is None,
            },
    {
        match self {
            JsonValue::Obj(o) => Some(o),
            _ => None,
        }
    }

    /// The string under `key`, if this value is an object holding one.
    pub fn get_string<'a>(&'a self, key: &str) -> (r: Option<&'a String>)
        ensures
            match r {
                Some(s) => self.dv().get_str(key@) == Some(s@),
                None => self.dv().get_str(key@) is None,
            },
    {
        match self.get(key) {
            Some(v) => v.as_string(),
            None => None,
        }
    }

    /// Whether this value is an object or an array.
    pub fn is_container(&self) -> (r: bool)
        ensures
            r == (self.dv() is Obj || self.dv() is Arr),
    {
        match self {
            JsonValue::Obj(_) => true,
            JsonValue::Arr(_) => true,
            _ => false,
        }
    }
}

/// An empty detail object under construction.
pub fn pairs0() -> (r: Vec<(String, JsonValue)>)
    ensures
        dv_pairs(r@) == Seq::<(Seq<char>, JsonVal)>::empty(),
{
    let r: Vec<(String, JsonValue)> = Vec::new();
    proof {
        assert(dv_pairs(r@) =~= Seq::<(Seq<char>, JsonVal)>::empty());
    }
    r
}

/// Appends a binding to an object under construction.
pub fn push_pair(d: &mut Vec<(String, JsonValue)>, k: &str, v: JsonValue)
    ensures
        dv_pairs(final(d)@) == dv_pairs(old(d)@).push((k@, v.dv())),
{
    let ghost g = v.dv();
    d.push((k.to_owned(), v));
    proof {
        lemma_dv_pairs(d@);
        lemma_dv_pairs(old(d)@);
        assert(dv_pairs(d@) =~= dv_pairs(old(d)@).push((k@, g)));
    }
}

/// A deep copy of an object's bindings, with the same views.
pub fn dup_pairs(o: &Vec<(String, JsonValue)>) -> (r: Vec<(String, JsonValue)>)
    ensures
        dv_pairs(r@) == dv_pairs(o@),
{
    let mut out: Vec<(String, JsonValue)> = Vec::new();
    let mut i: usize = 0;
    while i < o.len()
        invariant
            0 <= i <= o@.len(),
            out@.len() == i,
            forall|j: int|
                0 <= j < i
                    ==> #[trigger] out@[j].0@ == o@[j].0@ && out@[j].1.dv() == o@[j].1.dv(),
        decreases o@.len() - i,
    {
        let k = o[i].0.clone();
        let v = o[i].1.dup();
        out.push((k, v));
        i += 1;
    }
    proof {
        lemma_dv_pairs(out@);
        lemma_dv_pairs(o@);
        assert(dv_pairs(out@) =~= dv_pairs(o@));
    }
    out
}

impl JsonValue {
    /// A deep copy with the same view.
    #[verifier::loop_isolation(false)]
    pub fn dup(&self) -> (r: JsonValue)
        ensures
            r.dv() == self.dv(),
        decreases self,
    {
        match self {
            JsonValue::Null => JsonValue::Null,
            JsonValue::Bool(b) => JsonValue::Bool(*b),
            JsonValue::Int(i) => JsonValue::Int(*i),
            JsonValue::Num(s) => JsonValue::Num(s.clone()),
            JsonValue::Str(s) => JsonValue::Str(s.clone()),
            JsonValue::Arr(a) => {
                let mut out: Vec<JsonValue> = Vec::new();
                let mut i: usize = 0;
                while i < a.len()
                    invariant
                        0 <= i <= a@.len(),
                        out@.len() == i,
                        forall|j: int| 0 <= j < i ==> #[trigger] out@[j].dv() == a@[j].dv(),
                    decreases a@.len() - i,
                {
                    proof {
                        assert(decreases_to!(*self => self->Arr_0));
                        assert(self->Arr_0 == *a);
                        assert(decreases_to!(*a => a@));
                        assert(decreases_to!(a@ => a@[i as int]));
                        assert(decreases_to!(*self => a@[i as int]));
                    }
                    let e = a[i].dup();
                    out.push(e);
                    i += 1;
                }
                proof {
                    lemma_dv_seq(a@);
                    lemma_dv_seq(out@);
                    assert(dv_seq(out@) =~= dv_seq(a@));
                }
                JsonValue::Arr(out)
            },
            JsonValue::Obj(o) => {
                let mut out: Vec<(String, JsonValue)> = Vec::new();
                let mut i: usize = 0;
                while i < o.len()
                    invariant
                        0 <= i <= o@.len(),
                        out@.len() == i,
                        forall|j: int|
                            0 <= j < i
                                ==> #[trigger] out@[j].0@ == o@[j].0@ && out@[j].1.dv()
                                == o@[j].1.dv(),
                    decreases o@.len() - i,
                {
                    proof {
                        assert(decreases_to!(*self => self->Obj_0));
                        assert(self->Obj_0 == *o);
                        assert(decreases_to!(*o => o@));
                        assert(decreases_to!(o@ => o@[i as int]));
                        assert(decreases_to!(o@[i as int] => o@[i as int].1));
                        assert(decreases_to!(*self => o@[i as int].1));
                    }
                    let k = o[i].0.clone();
                    let v = o[i].1.dup();
                    out.push((k, v));
                    i += 1;
                }
                proof {
                    lemma_dv_pairs(o@);
                    lemma_dv_pairs(out@);
                    assert(dv_pairs(out@) =~= dv_pairs(o@));
                }
                JsonValue::Obj(out)
            },
        }
    }
}

} // verus!
