//! The JSON value tree that the codec reads and writes.
//!
//! The tree is fully materialized: an object is an ordered list of
//! key/value entries, an array an ordered list of values.  A number is
//! carried opaquely — the codec never computes with it — as either an
//! integer or the bit pattern of a binary64 float.

use vstd::prelude::*;

verus! {

/// A JSON number, carried through the codec without interpretation.
#[derive(Clone, Copy, Debug, PartialEq, Eq)]
pub enum JsonNum {
    /// A non-negative integer literal.
    PosInt(u64),
    /// A negative integer literal.
    NegInt(i64),
    /// A float literal, stored as the bit pattern of a binary64 value.
    Float(u64),
}

/// A JSON value.
#[derive(Debug, PartialEq)]
pub enum JsonValue {
    Null,
    Bool(bool),
    Num(JsonNum),
    Str(String),
    Arr(Vec<JsonValue>),
    Obj(JsonObject),
}

/// A JSON object: an ordered list of key/value entries.
#[derive(Debug, PartialEq)]
pub struct JsonObject {
    pub entries: Vec<(String, JsonValue)>,
}

/// The mathematical shape of a JSON value.
#[verifier::ext_equal]
pub enum JsonView {
    Null,
    Bool(bool),
    Num(JsonNum),
    Str(Seq<char>),
    Arr(Seq<JsonView>),
    Obj(Seq<(Seq<char>, JsonView)>),
}

/// The mathematical shape of a JSON object: its entries in order.
pub type JsonObjectView = Seq<(Seq<char>, JsonView)>;

/// The shape of a JSON value.
pub open spec fn jview(j: JsonValue) -> JsonView
    decreases j,
{
    match j {
        JsonValue::Null => JsonView::Null,
        JsonValue::Bool(b) => JsonView::Bool(b),
        JsonValue::Num(n) => JsonView::Num(n),
        JsonValue::Str(s) => JsonView::Str(s@),
        JsonValue::Arr(a) => JsonView::Arr(jview_seq(a@)),
        JsonValue::Obj(o) => JsonView::Obj(jview_entries(o.entries@)),
    }
}

/// The shapes of the values of `s`, in order.
pub open spec fn jview_seq(s: Seq<JsonValue>) -> Seq<JsonView>
    decreases s,
{
    if s.len() == 0 {
        Seq::empty()
    } else {
        seq![jview(s[0])] + jview_seq(s.subrange(1, s.len() as int))
    }
}

/// The shapes of the entries of `s`, in order.
pub open spec fn jview_entries(s: Seq<(String, JsonValue)>) -> JsonObjectView
    decreases s,
{
    if s.len() == 0 {
        Seq::empty()
    } else {
        seq![(s[0].0@, jview(s[0].1))] + jview_entries(s.subrange(1, s.len() as int))
    }
}

/// `jview_seq` maps the value shape over the sequence pointwise.
pub proof fn lemma_jview_seq(s: Seq<JsonValue>)
    ensures
        jview_seq(s).len() == s.len(),
        forall|i: int| 0 <= i < s.len() ==> jview_seq(s)[i] == jview(s[i]),
    decreases s.len(),
{
    if s.len() > 0 {
        lemma_jview_seq(s.subrange(1, s.len() as int));
        assert forall|i: int| 0 <= i < s.len() implies jview_seq(s)[i] == jview(s[i]) by {
            if i > 0 {
                assert(s.subrange(1, s.len() as int)[i - 1] == s[i]);
            }
        }
    }
}

/// `jview_entries` maps the entry shape over the sequence pointwise.
pub proof fn lemma_jview_entries(s: Seq<(String, JsonValue)>)
    ensures
        jview_entries(s).len() == s.len(),
        forall|i: int| 0 <= i < s.len() ==> jview_entries(s)[i] == (s[i].0@, jview(s[i].1)),
    decreases s.len(),
{
    if s.len() > 0 {
        lemma_jview_entries(s.subrange(1, s.len() as int));
        assert forall|i: int| 0 <= i < s.len() implies jview_entries(s)[i] == (
            s[i].0@,
            jview(s[i].1),
        ) by {
            if i > 0 {
                assert(s.subrange(1, s.len() as int)[i - 1] == s[i]);
            }
        }
    }
}

impl View for JsonValue {
    type V = JsonView;

    open spec fn view(&self) -> JsonView {
        jview(*self)
    }
}

impl View for JsonObject {
    type V = JsonObjectView;

    open spec fn view(&self) -> JsonObjectView {
        jview_entries(self.entries@)
    }
}

/// Index of the first entry of `s` whose key is `k`, or `-1` if there is none.
pub open spec fn key_first_index(s: JsonObjectView, k: Seq<char>) -> int
    decreases s.len(),
{
    if s.len() == 0 {
        -1
    } else if s[0].0 == k {
        0
    } else {
        let r = key_first_index(s.skip(1), k);
        if r == -1 {
            -1
        } else {
            r + 1
        }
    }
}

/// Whether some entry of `s` has key `k`.
pub open spec fn obj_has_key(s: JsonObjectView, k: Seq<char>) -> bool {
    key_first_index(s, k) >= 0
}

/// The value of the first entry of `s` with key `k`.
pub open spec fn obj_lookup(s: JsonObjectView, k: Seq<char>) -> JsonView {
    s[key_first_index(s, k)].1
}

/// `s` with the first entry keyed `k` taken out.
pub open spec fn obj_without(s: JsonObjectView, k: Seq<char>) -> JsonObjectView {
    s.remove(key_first_index(s, k))
}

/// `s` with the first entry keyed `k` taken out if there is one, else
/// `s` unchanged: the state an extractor leaves behind whatever it finds.
pub open spec fn obj_after_remove(s: JsonObjectView, k: Seq<char>) -> JsonObjectView {
    if obj_has_key(s, k) {
        obj_without(s, k)
    } else {
        s
    }
}

/// `key_first_index` finds the first matching entry, and `-1` exactly
/// when no entry matches.
pub proof fn lemma_key_first_index(s: JsonObjectView, k: Seq<char>)
    ensures
        key_first_index(s, k) == -1 ==> forall|i: int| 0 <= i < s.len() ==> s[i].0 != k,
        key_first_index(s, k) != -1 ==> {
            let f = key_first_index(s, k);
            &&& 0 <= f < s.len()
            &&& s[f].0 == k
            &&& forall|i: int| 0 <= i < f ==> s[i].0 != k
        },
    decreases s.len(),
{
    if s.len() == 0 {
    } else if s[0].0 == k {
    } else {
        lemma_key_first_index(s.skip(1), k);
        let r = key_first_index(s.skip(1), k);
        if r == -1 {
            assert forall|i: int| 0 <= i < s.len() implies s[i].0 != k by {
                if i > 0 {
                    assert(s.skip(1)[i - 1] == s[i]);
                }
            }
        } else {
            assert(s.skip(1)[r] == s[r + 1]);
            assert forall|i: int| 0 <= i < r + 1 implies s[i].0 != k by {
                if i > 0 {
                    assert(s.skip(1)[i - 1] == s[i]);
                }
            }
        }
    }
}

impl JsonObject {
    /// The empty object.
    pub fn new() -> (r: JsonObject)
        ensures
            r@ == Seq::<(Seq<char>, JsonView)>::empty(),
    {
        let r = JsonObject { entries: Vec::new() };
        proof {
            assert(r@ =~= Seq::<(Seq<char>, JsonView)>::empty());
        }
        r
    }

    /// How many entries the object holds.
    pub fn len(&self) -> (r: usize)
        ensures
            r == self@.len(),
    {
        proof {
            lemma_jview_entries(self.entries@);
        }
        self.entries.len()
    }

    /// Whether the object holds no entry.
    pub fn is_empty(&self) -> (r: bool)
        ensures
            r == (self@.len() == 0),
    {
        proof {
            lemma_jview_entries(self.entries@);
        }
        self.entries.len() == 0
    }

    /// Appends an entry at the end.
    pub fn insert(&mut self, key: String, value: JsonValue)
        ensures
            final(self)@ == old(self)@.push((key@, value@)),
    {
        self.entries.push((key, value));
        proof {
            lemma_jview_entries(old(self).entries@);
            lemma_jview_entries(self.entries@);
            assert(self@ =~= old(self)@.push((key@, value@)));
        }
    }

    /// Borrows the value of the first entry keyed `key`, if there is one.
    pub fn get(&self, key: &str) -> (r: Option<&JsonValue>)
        ensures
            obj_has_key(self@, key@) ==> (r matches Some(v) && v@ == obj_lookup(self@, key@)),
            !obj_has_key(self@, key@) ==> r is None,
    {
        let k: String = key.to_owned();
        let ghost s = self@;
        let n = self.entries.len();
        let mut i: usize = 0;
        while i < n
            invariant
                0 <= i <= n,
                n == self.entries.len(),
                k@ == key@,
                s == self@,
                forall|j: int| 0 <= j < i ==> s[j].0 != key@,
            decreases n - i,
        {
            proof {
                lemma_jview_entries(self.entries@);
            }
            if self.entries[i].0 == k {
                proof {
                    lemma_jview_entries(self.entries@);
                    lemma_key_first_index(s, key@);
                    assert(s[i as int].0 == key@);
                    assert(key_first_index(s, key@) == i as int);
                }
                return Some(&self.entries[i].1);
            }
            i += 1;
        }
        proof {
            lemma_jview_entries(self.entries@);
            lemma_key_first_index(s, key@);
        }
        None
    }

    /// Moves every entry of `other` to the end, in order.
    pub fn append(&mut self, other: JsonObject)
        ensures
            final(self)@ == old(self)@ + other@,
    {
        let ghost oe = other.entries@;
        let mut other = other;
        self.entries.append(&mut other.entries);
        proof {
            lemma_jview_entries(old(self).entries@);
            lemma_jview_entries(oe);
            lemma_jview_entries(self.entries@);
            assert(self@ =~= old(self)@ + jview_entries(oe));
        }
    }

    /// Takes out the first entry keyed `key` and returns its value, if
    /// there is one; the remaining entries keep their order.
    pub fn remove(&mut self, key: &str) -> (r: Option<JsonValue>)
        ensures
            obj_has_key(old(self)@, key@) ==> {
                &&& r matches Some(v) && v@ == obj_lookup(old(self)@, key@)
                &&& final(self)@ == obj_without(old(self)@, key@)
            },
            !obj_has_key(old(self)@, key@) ==> r is None && final(self)@ == old(self)@,
    {
        let k: String = key.to_owned();
        let ghost s = old(self)@;
        let n = self.entries.len();
        let mut i: usize = 0;
        while i < n
            invariant
                0 <= i <= n,
                n == self.entries.len(),
                k@ == key@,
                s == self@,
                s == old(self)@,
                forall|j: int| 0 <= j < i ==> s[j].0 != key@,
            decreases n - i,
        {
            proof {
                lemma_jview_entries(self.entries@);
            }
            if self.entries[i].0 == k {
                proof {
                    lemma_jview_entries(self.entries@);
                    lemma_key_first_index(s, key@);
                    assert(s[i as int].0 == key@);
                    assert(key_first_index(s, key@) == i as int);
                }
                let e = self.entries.remove(i);
                proof {
                    lemma_jview_entries(self.entries@);
                    assert(self@ =~= s.remove(i as int));
                }
                return Some(e.1);
            }
            i += 1;
        }
        proof {
            lemma_jview_entries(self.entries@);
            lemma_key_first_index(s, key@);
        }
        None
    }
}

/// Deep copies of the values of `a` from index `i` on.
fn clone_json_vec_from(a: &Vec<JsonValue>, i: usize) -> (r: Vec<JsonValue>)
    requires
        i <= a@.len(),
    ensures
        jview_seq(r@) == jview_seq(a@).skip(i as int),
    decreases jview_seq(a@), 0nat, a@.len() - i,
{
    proof {
        lemma_jview_seq(a@);
    }
    let ghost s = jview_seq(a@).skip(i as int);
    if i == a.len() {
        let r: Vec<JsonValue> = Vec::new();
        proof {
            assert(jview_seq(r@) =~= s);
        }
        r
    } else {
        proof {
            assert(s[0] == jview_seq(a@)[i as int]);
            assert(decreases_to!(jview_seq(a@) => jview_seq(a@)[i as int]));
        }
        let x = a[i].clone();
        proof {
            assert(x@ == a@[i as int]@);
        }
        let mut rest = clone_json_vec_from(a, i + 1);
        let ghost r0 = rest@;
        rest.insert(0, x);
        proof {
            assert(jview_seq(a@).skip(i as int + 1) =~= s.skip(1));
            assert(rest@ =~= seq![x] + r0);
            lemma_jview_seq(rest@);
            lemma_jview_seq(r0);
            assert(jview_seq(rest@) =~= seq![x@] + jview_seq(r0));
            assert(seq![x@] + jview_seq(r0) =~= s);
        }
        rest
    }
}

/// Deep copies of the entries of `e` from index `i` on.
fn clone_entries_from(e: &Vec<(String, JsonValue)>, i: usize) -> (r: Vec<(String, JsonValue)>)
    requires
        i <= e@.len(),
    ensures
        jview_entries(r@) == jview_entries(e@).skip(i as int),
    decreases jview_entries(e@), 0nat, e@.len() - i,
{
    proof {
        lemma_jview_entries(e@);
    }
    let ghost s = jview_entries(e@).skip(i as int);
    if i == e.len() {
        let r: Vec<(String, JsonValue)> = Vec::new();
        proof {
            assert(jview_entries(r@) =~= s);
        }
        r
    } else {
        proof {
            assert(s[0] == jview_entries(e@)[i as int]);
            assert(decreases_to!(jview_entries(e@) => jview_entries(e@)[i as int]));
            assert(decreases_to!(jview_entries(e@)[i as int] => jview_entries(e@)[i as int].1));
        }
        let pair = &e[i];
        let k = pair.0.clone();
        let v = pair.1.clone();
        let mut rest = clone_entries_from(e, i + 1);
        let ghost r0 = rest@;
        rest.insert(0, (k, v));
        proof {
            assert(jview_entries(e@).skip(i as int + 1) =~= s.skip(1));
            assert(rest@ =~= seq![(k, v)] + r0);
            lemma_jview_entries(rest@);
            lemma_jview_entries(r0);
            assert(jview_entries(rest@) =~= seq![(k@, v@)] + jview_entries(r0));
            assert(seq![(k@, v@)] + jview_entries(r0) =~= s);
        }
        rest
    }
}

impl Clone for JsonValue {
    /// A deep copy with the same shape.
    fn clone(&self) -> (r: JsonValue)
        ensures
            r@ == self@,
        decreases self@, 0nat, 0nat,
    {
        match self {
            JsonValue::Null => JsonValue::Null,
            JsonValue::Bool(b) => JsonValue::Bool(*b),
            JsonValue::Num(n) => JsonValue::Num(*n),
            JsonValue::Str(s) => JsonValue::Str(s.clone()),
            JsonValue::Arr(a) => {
                proof {
                    assert(decreases_to!(self@ => self@->Arr_0));
                }
                let r = clone_json_vec_from(a, 0);
                proof {
                    assert(jview_seq(a@).skip(0) =~= jview_seq(a@));
                }
                JsonValue::Arr(r)
            },
            JsonValue::Obj(o) => {
                proof {
                    assert(decreases_to!(self@ => self@->Obj_0));
                }
                JsonValue::Obj(o.clone())
            },
        }
    }
}

impl Clone for JsonObject {
    /// A deep copy with the same entries.
    fn clone(&self) -> (r: JsonObject)
        ensures
            r@ == self@,
        decreases self@, 1nat, 0nat,
    {
        let entries = clone_entries_from(&self.entries, 0);
        proof {
            assert(jview_entries(self.entries@).skip(0) =~= jview_entries(self.entries@));
        }
        JsonObject { entries }
    }
}

} // verus!
