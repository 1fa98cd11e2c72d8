//! A JSON document as plain values: what the Qobuz, Last.fm and Workers AI
//! answers are read from. Numbers keep what the readers look at: whether
//! they are non-negative integers, negative integers, or something else.
use vstd::prelude::*;

use crate::text::str_eq;

verus! {

/// A JSON number.
#[derive(Clone, Debug)]
pub enum JsonNumber {
    /// A non-negative integer.
    PosInt(u64),
    /// A negative integer.
    NegInt(i64),
    /// A number with a fraction or an exponent.
    Float,
}

/// A JSON value. Object members keep the document's order; keys are unique.
pub enum JsonValue {
    Null,
    Bool(bool),
    Number(JsonNumber),
    Str(String),
    Array(Vec<JsonValue>),
    Object(Vec<(String, JsonValue)>),
}

/// The first member of `entries` named `key`.
pub open spec fn lookup(entries: Seq<(String, JsonValue)>, key: Seq<char>) -> Option<JsonValue>
    decreases entries.len(),
{
    if entries.len() == 0 {
        None
    } else if entries[0].0@ == key {
        Some(entries[0].1)
    } else {
        lookup(entries.drop_first(), key)
    }
}

impl JsonValue {
    /// The member `key` of an object (`serde_json::Value::get` with a string).
    pub open spec fn field(self, key: Seq<char>) -> Option<JsonValue> {
        match self {
            JsonValue::Object(entries) => lookup(entries@, key),
            _ => None,
        }
    }

    /// The text of a string (`as_str`).
    pub open spec fn text(self) -> Option<Seq<char>> {
        match self {
            JsonValue::Str(s) => Some(s@),
            _ => None,
        }
    }

    /// An integer that fits in `i64` (`as_i64`).
    pub open spec fn int64(self) -> Option<i64> {
        match self {
            JsonValue::Number(JsonNumber::PosInt(u)) => if u <= i64::MAX {
                Some(u as i64)
            } else {
                None
            },
            JsonValue::Number(JsonNumber::NegInt(i)) => Some(i),
            _ => None,
        }
    }

    /// A non-negative integer (`as_u64`).
    pub open spec fn uint64(self) -> Option<u64> {
        match self {
            JsonValue::Number(JsonNumber::PosInt(u)) => Some(u),
            _ => None,
        }
    }

    /// The elements of an array (`as_array`).
    pub open spec fn elements(self) -> Option<Seq<JsonValue>> {
        match self {
            JsonValue::Array(items) => Some(items@),
            _ => None,
        }
    }

    /// `self.get(key)`.
    pub fn get(&self, key: &str) -> (r: Option<&JsonValue>)
        ensures
            match r {
                Some(v) => self.field(key@) == Some(*v),
                None => self.field(key@) is None,
            },
    {
        match self {
            JsonValue::Object(entries) => {
                let mut i: usize = 0;
                assert(entries@.skip(0) == entries@);
                while i < entries.len()
                    invariant
                        i <= entries@.len(),
                        self.field(key@) == lookup(entries@, key@),
                        lookup(entries@, key@) == lookup(entries@.skip(i as int), key@),
                    decreases entries.len() - i,
                {
                    assert(entries@.skip(i as int)[0] == entries@[i as int]);
                    assert(entries@.skip(i as int).drop_first() == entries@.skip(i + 1));
                    if str_eq(entries[i].0.as_str(), key) {
                        assert(entries@.skip(i as int).len() > 0);
                        assert(lookup(entries@.skip(i as int), key@) == Some(entries@[i as int].1));
                        return Some(&entries[i].1);
                    }
                    i = i + 1;
                }
                assert(entries@.skip(i as int).len() == 0);
                None
            },
            _ => None,
        }
    }

    /// `self.as_str()`, copied out.
    pub fn as_str(&self) -> (r: Option<String>)
        ensures
            match r {
                Some(s) => self.text() == Some(s@),
                None => self.text() is None,
            },
    {
        match self {
            JsonValue::Str(s) => Some(s.clone()),
            _ => None,
        }
    }

    /// `self.as_i64()`.
    pub fn as_i64(&self) -> (r: Option<i64>)
        ensures
            r == self.int64(),
    {
        match self {
            JsonValue::Number(JsonNumber::PosInt(u)) => {
                if *u <= i64::MAX as u64 {
                    Some(*u as i64)
                } else {
                    None
                }
            },
            JsonValue::Number(JsonNumber::NegInt(i)) => Some(*i),
            _ => None,
        }
    }

    /// `self.as_u64()`.
    pub fn as_u64(&self) -> (r: Option<u64>)
        ensures
            r == self.uint64(),
    {
        match self {
            JsonValue::Number(JsonNumber::PosInt(u)) => Some(*u),
            _ => None,
        }
    }

    /// `self.as_array()`.
    pub fn as_array(&self) -> (r: Option<&Vec<JsonValue>>)
        ensures
            match r {
                Some(v) => self.elements() == Some(v@),
                None => self.elements() is None,
            },
    {
        match self {
            JsonValue::Array(items) => Some(items),
            _ => None,
        }
    }
}

/// `o.and_then(|v| v.get(key))`.
pub open spec fn field_of(o: Option<JsonValue>, key: Seq<char>) -> Option<JsonValue> {
    match o {
        Some(v) => v.field(key),
        None => None,
    }
}

/// `o.and_then(|v| v.as_str())`.
pub open spec fn text_of(o: Option<JsonValue>) -> Option<Seq<char>> {
    match o {
        Some(v) => v.text(),
        None => None,
    }
}

/// `o.and_then(|v| v.as_i64())`.
pub open spec fn int64_of(o: Option<JsonValue>) -> Option<i64> {
    match o {
        Some(v) => v.int64(),
        None => None,
    }
}

/// `o.and_then(|v| v.as_u64())`.
pub open spec fn uint64_of(o: Option<JsonValue>) -> Option<u64> {
    match o {
        Some(v) => v.uint64(),
        None => None,
    }
}

/// `o.and_then(|v| v.as_array())`.
pub open spec fn elements_of(o: Option<JsonValue>) -> Option<Seq<JsonValue>> {
    match o {
        Some(v) => v.elements(),
        None => None,
    }
}

/// The text of an optional string, or the empty text (`unwrap_or("")`).
pub open spec fn text_or_empty(o: Option<Seq<char>>) -> Seq<char> {
    match o {
        Some(t) => t,
        None => Seq::empty(),
    }
}

/// `o.and_then(|v| v.get(key))` on references.
pub fn get_in<'a>(o: Option<&'a JsonValue>, key: &str) -> (r: Option<&'a JsonValue>)
    ensures
        match r {
            Some(v) => field_of(opt_deref(o), key@) == Some(*v),
            None => field_of(opt_deref(o), key@) is None,
        },
{
    match o {
        Some(v) => v.get(key),
        None => None,
    }
}

/// The value an optional reference points to.
pub open spec fn opt_deref(o: Option<&JsonValue>) -> Option<JsonValue> {
    match o {
        Some(v) => Some(*v),
        None => None,
    }
}

/// `o.and_then(|v| v.as_str())` on references.
pub fn str_in(o: Option<&JsonValue>) -> (r: Option<String>)
    ensures
        match r {
            Some(s) => text_of(opt_deref(o)) == Some(s@),
            None => text_of(opt_deref(o)) is None,
        },
{
    match o {
        Some(v) => v.as_str(),
        None => None,
    }
}

/// `o.and_then(|v| v.as_i64())` on references.
pub fn i64_in(o: Option<&JsonValue>) -> (r: Option<i64>)
    ensures
        r == int64_of(opt_deref(o)),
{
    match o {
        Some(v) => v.as_i64(),
        None => None,
    }
}

/// `o.and_then(|v| v.as_u64())` on references.
pub fn u64_in(o: Option<&JsonValue>) -> (r: Option<u64>)
    ensures
        r == uint64_of(opt_deref(o)),
{
    match o {
        Some(v) => v.as_u64(),
        None => None,
    }
}

/// `o.and_then(|v| v.as_array())` on references.
pub fn array_in<'a>(o: Option<&'a JsonValue>) -> (r: Option<&'a Vec<JsonValue>>)
    ensures
        match r {
            Some(v) => elements_of(opt_deref(o)) == Some(v@),
            None => elements_of(opt_deref(o)) is None,
        },
{
    match o {
        Some(v) => v.as_array(),
        None => None,
    }
}

/// `o.and_then(|v| v.as_str()).unwrap_or("")`, owned.
pub fn str_in_or_empty(o: Option<&JsonValue>) -> (r: String)
    ensures
        r@ == text_or_empty(text_of(opt_deref(o))),
{
    match str_in(o) {
        Some(s) => s,
        None => String::new(),
    }
}

/// The values kept by `f` from `s`, in order (`filter_map`).
pub open spec fn filter_map<A, B>(s: Seq<A>, f: spec_fn(A) -> Option<B>) -> Seq<B>
    decreases s.len(),
{
    if s.len() == 0 {
        Seq::empty()
    } else {
        filter_map(s.drop_last(), f) + match f(s.last()) {
            Some(b) => seq![b],
            None => Seq::empty(),
        }
    }
}

/// One step of `filter_map` over a growing prefix.
pub proof fn lemma_filter_map_step<A, B>(s: Seq<A>, f: spec_fn(A) -> Option<B>, i: int)
    requires
        0 <= i < s.len(),
    ensures
        filter_map(s.take(i + 1), f) == filter_map(s.take(i), f) + match f(s[i]) {
            Some(b) => seq![b],
            None => Seq::empty(),
        },
{
    assert(s.take(i + 1).drop_last() == s.take(i));
    assert(s.take(i + 1).last() == s[i]);
}


/// Every value that `f` keeps from `s` is in `filter_map(s, f)`.
pub proof fn lemma_filter_map_keeps<A, B>(s: Seq<A>, f: spec_fn(A) -> Option<B>, i: int)
    requires
        0 <= i < s.len(),
        f(s[i]) is Some,
    ensures
        filter_map(s, f).contains(f(s[i])->0),
    decreases s.len(),
{
    let p = s.drop_last();
    if i == s.len() - 1 {
        let fm = filter_map(s, f);
        assert(fm[fm.len() - 1] == f(s[i])->0);
    } else {
        assert(p[i] == s[i]);
        lemma_filter_map_keeps(p, f, i);
        let k = choose|k: int| 0 <= k < filter_map(p, f).len() && filter_map(p, f)[k] == f(s[i])->0;
        assert(filter_map(s, f)[k] == filter_map(p, f)[k]);
    }
}

/// Every value of `filter_map(s, f)` is what `f` keeps of some item of `s`.
pub proof fn lemma_filter_map_source<A, B>(s: Seq<A>, f: spec_fn(A) -> Option<B>, k: int)
    requires
        0 <= k < filter_map(s, f).len(),
    ensures
        exists|i: int| 0 <= i < s.len() && f(s[i]) == Some(filter_map(s, f)[k]),
    decreases s.len(),
{
    let p = s.drop_last();
    let fp = filter_map(p, f);
    if k < fp.len() {
        assert(filter_map(s, f)[k] == fp[k]);
        lemma_filter_map_source(p, f, k);
        let i = choose|i: int| 0 <= i < p.len() && f(p[i]) == Some(fp[k]);
        assert(s[i] == p[i]);
    } else {
        assert(f(s[s.len() - 1]) == Some(filter_map(s, f)[k]));
    }
}

} // verus!
