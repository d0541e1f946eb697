//! JSON values: the library's own tree of plain values, what it means, and the
//! passage to and from text through `serde_json`.

use vstd::prelude::*;
use crate::text::{same_text, trimmed};

verus! {

/// A number that is no integer of 64 bits, carried through unread. It holds a
/// `serde_json::Number` for which neither `as_u64` nor `as_i64` gives a number; only
/// [`open_value`] makes one, and [`copy_fraction`] another of the same.
#[verifier::external_body]
pub struct Fraction {
    n: serde_json::Number,
}

/// The opaque JSON value of `serde_json`.
#[verifier::external_type_specification]
#[verifier::external_body]
pub struct ExValue(serde_json::Value);

/// A JSON value. A key that occurs twice in an `Object` stands for its last value.
pub enum Json {
    Null,
    Bool(bool),
    Uint(u64),
    Int(i64),
    Real(Fraction),
    Str(String),
    Array(Vec<Json>),
    Object(Vec<(String, Json)>),
}

/// What a JSON value means: numbers are integers (or opaque fractions), strings are
/// sequences of characters, and an object is its members in order of first insertion.
pub enum JsonTree {
    Null,
    Bool(bool),
    Int(int),
    Real(Fraction),
    Str(Seq<char>),
    Arr(Seq<JsonTree>),
    Obj(Seq<(Seq<char>, JsonTree)>),
}

/// The members of an object once `k` has been set to `t`: in place where `k` was there
/// already, at the end otherwise.
pub open spec fn members_put(
    o: Seq<(Seq<char>, JsonTree)>,
    k: Seq<char>,
    t: JsonTree,
) -> Seq<(Seq<char>, JsonTree)>
    decreases o.len(),
{
    if o.len() == 0 {
        seq![(k, t)]
    } else if o[0].0 == k {
        seq![(k, t)] + o.drop_first()
    } else {
        seq![o[0]] + members_put(o.drop_first(), k, t)
    }
}

/// The value of member `k`, if the members hold one.
pub open spec fn members_get(o: Seq<(Seq<char>, JsonTree)>, k: Seq<char>) -> Option<JsonTree>
    decreases o.len(),
{
    if o.len() == 0 {
        None
    } else if o[0].0 == k {
        Some(o[0].1)
    } else {
        members_get(o.drop_first(), k)
    }
}

/// The members that result from setting the pairs one after the other.
pub open spec fn members_of(pairs: Seq<(Seq<char>, JsonTree)>) -> Seq<(Seq<char>, JsonTree)>
    decreases pairs.len(),
{
    if pairs.len() == 0 {
        Seq::empty()
    } else {
        members_put(members_of(pairs.drop_last()), pairs.last().0, pairs.last().1)
    }
}

/// No key occurs twice.
pub open spec fn distinct_keys(o: Seq<(Seq<char>, JsonTree)>) -> bool {
    forall|i: int, j: int| 0 <= i < j < o.len() ==> (#[trigger] o[i]).0 != (#[trigger] o[j]).0
}

impl JsonTree {
    /// The object without members.
    pub open spec fn object() -> JsonTree {
        JsonTree::Obj(Seq::empty())
    }

    /// The object with member `k` set to `t`. What is not an object stays as it is.
    pub open spec fn put(self, k: Seq<char>, t: JsonTree) -> JsonTree {
        match self {
            JsonTree::Obj(o) => JsonTree::Obj(members_put(o, k, t)),
            _ => self,
        }
    }

    /// Member `k` of an object.
    pub open spec fn get(self, k: Seq<char>) -> Option<JsonTree> {
        match self {
            JsonTree::Obj(o) => members_get(o, k),
            _ => None,
        }
    }

    /// The text of a string value.
    pub open spec fn as_str(self) -> Option<Seq<char>> {
        match self {
            JsonTree::Str(s) => Some(s),
            _ => None,
        }
    }

    /// The truth value of a boolean.
    pub open spec fn as_bool(self) -> Option<bool> {
        match self {
            JsonTree::Bool(b) => Some(b),
            _ => None,
        }
    }

    /// The number, where it is an integer that 64 unsigned bits hold.
    pub open spec fn as_u64(self) -> Option<u64> {
        match self {
            JsonTree::Int(n) => if 0 <= n <= u64::MAX {
                Some(n as u64)
            } else {
                None
            },
            _ => None,
        }
    }

    /// The number, where it is an integer that 64 signed bits hold.
    pub open spec fn as_i64(self) -> Option<i64> {
        match self {
            JsonTree::Int(n) => if i64::MIN <= n <= i64::MAX {
                Some(n as i64)
            } else {
                None
            },
            _ => None,
        }
    }

    /// The items of an array.
    pub open spec fn as_array(self) -> Option<Seq<JsonTree>> {
        match self {
            JsonTree::Arr(a) => Some(a),
            _ => None,
        }
    }

    /// The string member `k`: `None` where it is missing or no string.
    pub open spec fn get_str(self, k: Seq<char>) -> Option<Seq<char>> {
        match self.get(k) {
            Some(t) => t.as_str(),
            None => None,
        }
    }

    /// The boolean member `k`: `None` where it is missing or no boolean.
    pub open spec fn get_bool(self, k: Seq<char>) -> Option<bool> {
        match self.get(k) {
            Some(t) => t.as_bool(),
            None => None,
        }
    }

    /// No fraction occurs, and arrays and objects are nested at most `n` deep.
    pub open spec fn plain(self, n: nat) -> bool
        decreases self,
    {
        match self {
            JsonTree::Real(_) => false,
            JsonTree::Arr(a) => n > 0 && forall|i: int|
                0 <= i < a.len() ==> (#[trigger] a[i]).plain((n - 1) as nat),
            JsonTree::Obj(o) => n > 0 && forall|i: int|
                0 <= i < o.len() ==> (#[trigger] o[i]).1.plain((n - 1) as nat),
            _ => true,
        }
    }
}

impl View for Json {
    type V = JsonTree;

    open spec fn view(&self) -> JsonTree {
        tree_of(*self)
    }
}

/// What a `Json` means.
pub open spec fn tree_of(j: Json) -> JsonTree
    decreases j,
{
    match j {
        Json::Null => JsonTree::Null,
        Json::Bool(b) => JsonTree::Bool(b),
        Json::Uint(n) => JsonTree::Int(n as int),
        Json::Int(n) => JsonTree::Int(n as int),
        Json::Real(f) => JsonTree::Real(f),
        Json::Str(s) => JsonTree::Str(s@),
        Json::Array(a) => JsonTree::Arr(
            Seq::new(
                a@.len(),
                |i: int|
                    if 0 <= i < a@.len() {
                        tree_of(a@[i])
                    } else {
                        JsonTree::Null
                    },
            ),
        ),
        Json::Object(o) => JsonTree::Obj(
            members_of(
                Seq::new(o@.len(), pair_at(o)),
            ),
        ),
    }
}

/// What the pair at each place of an object means.
pub open spec fn pair_at(o: Vec<(String, Json)>) -> spec_fn(int) -> (Seq<char>, JsonTree)
    decreases o,
{
    |i: int|
        if 0 <= i < o@.len() {
            (o@[i].0@, tree_of(o@[i].1))
        } else {
            (Seq::empty(), JsonTree::Null)
        }
}

/// What each item of a sequence means.
pub open spec fn trees_of(a: Seq<Json>) -> Seq<JsonTree> {
    Seq::new(a.len(), |i: int| a[i]@)
}

/// What each pair of a sequence means.
pub open spec fn pairs_of(o: Seq<(String, Json)>) -> Seq<(Seq<char>, JsonTree)> {
    Seq::new(o.len(), |i: int| (o[i].0@, o[i].1@))
}

/// An array means the sequence of what its items mean.
pub proof fn lemma_array_tree(a: Vec<Json>)
    ensures
        Json::Array(a)@ == JsonTree::Arr(trees_of(a@)),
{
    assert(Json::Array(a)@->Arr_0 =~= trees_of(a@));
}

/// An object means what setting its pairs one after the other gives.
pub proof fn lemma_object_tree(o: Vec<(String, Json)>)
    ensures
        Json::Object(o)@ == JsonTree::Obj(members_of(pairs_of(o@))),
{
    assert(Seq::new(o@.len(), pair_at(o)) =~= pairs_of(o@));
}

/// Adding an item adds what it means.
proof fn lemma_trees_push(a: Seq<Json>, x: Json)
    ensures
        trees_of(a.push(x)) == trees_of(a).push(x@),
{
    assert(trees_of(a.push(x)) =~= trees_of(a).push(x@));
}

/// Adding a pair adds what it means.
proof fn lemma_pairs_push(o: Seq<(String, Json)>, x: (String, Json))
    ensures
        pairs_of(o.push(x)) == pairs_of(o).push((x.0@, x.1@)),
{
    assert(pairs_of(o.push(x)) =~= pairs_of(o).push((x.0@, x.1@)));
}

/// Reading back a member: what was put under `k` is found under `k`, and every other
/// member is what it was.
pub proof fn lemma_members_put_get(
    o: Seq<(Seq<char>, JsonTree)>,
    k: Seq<char>,
    t: JsonTree,
    q: Seq<char>,
)
    ensures
        members_get(members_put(o, k, t), q) == if q == k {
            Some(t)
        } else {
            members_get(o, q)
        },
    decreases o.len(),
{
    reveal_with_fuel(members_get, 2);
    if o.len() == 0 {
        assert(seq![(k, t)].drop_first() =~= Seq::<(Seq<char>, JsonTree)>::empty());
    } else if o[0].0 == k {
        assert((seq![(k, t)] + o.drop_first()).drop_first() =~= o.drop_first());
    } else {
        let rest = members_put(o.drop_first(), k, t);
        assert((seq![o[0]] + rest).drop_first() =~= rest);
        lemma_members_put_get(o.drop_first(), k, t, q);
    }
}

/// Putting member `k` of an object and reading member `q`.
pub broadcast proof fn lemma_put_get(j: JsonTree, k: Seq<char>, t: JsonTree, q: Seq<char>)
    requires
        j is Obj,
    ensures
        (#[trigger] j.put(k, t).get(q)) == if q == k {
            Some(t)
        } else {
            j.get(q)
        },
{
    lemma_members_put_get(j->Obj_0, k, t, q);
}

/// Every member is plain.
pub open spec fn plain_members(o: Seq<(Seq<char>, JsonTree)>, n: nat) -> bool {
    forall|i: int| 0 <= i < o.len() ==> (#[trigger] o[i]).1.plain(n)
}

/// Putting a plain value among plain members leaves them plain.
proof fn lemma_members_put_plain(
    o: Seq<(Seq<char>, JsonTree)>,
    k: Seq<char>,
    t: JsonTree,
    n: nat,
)
    requires
        plain_members(o, n),
        t.plain(n),
    ensures
        plain_members(members_put(o, k, t), n),
    decreases o.len(),
{
    if o.len() > 0 && o[0].0 != k {
        lemma_members_put_plain(o.drop_first(), k, t, n);
        let rest = members_put(o.drop_first(), k, t);
        assert forall|i: int| 0 <= i < members_put(o, k, t).len() implies (#[trigger] members_put(
            o,
            k,
            t,
        )[i]).1.plain(n) by {
            if i > 0 {
                assert(members_put(o, k, t)[i] == rest[i - 1]);
            }
        }
    }
}

/// The object without members is plain.
pub broadcast proof fn lemma_object_plain(n: nat)
    requires
        n > 0,
    ensures
        #[trigger] JsonTree::object().plain(n),
{
}

/// Putting a plain value into a plain object leaves it plain.
pub broadcast proof fn lemma_put_plain(j: JsonTree, k: Seq<char>, t: JsonTree, n: nat)
    requires
        j is Obj,
        n > 0,
        j.plain(n),
        t.plain((n - 1) as nat),
    ensures
        #[trigger] j.put(k, t).plain(n),
        j.put(k, t) is Obj,
{
    lemma_members_put_plain(j->Obj_0, k, t, (n - 1) as nat);
}

/// Pairs with distinct keys are the members that they build.
proof fn lemma_members_of_distinct(pairs: Seq<(Seq<char>, JsonTree)>)
    requires
        distinct_keys(pairs),
    ensures
        members_of(pairs) == pairs,
    decreases pairs.len(),
{
    if pairs.len() > 0 {
        lemma_members_of_distinct(pairs.drop_last());
        lemma_members_put_fresh(pairs.drop_last(), pairs.last().0, pairs.last().1);
        assert(pairs.drop_last().push(pairs.last()) =~= pairs);
    }
}

/// A key that does not occur is put at the end.
proof fn lemma_members_put_fresh(o: Seq<(Seq<char>, JsonTree)>, k: Seq<char>, t: JsonTree)
    requires
        forall|i: int| 0 <= i < o.len() ==> (#[trigger] o[i]).0 != k,
    ensures
        members_put(o, k, t) == o.push((k, t)),
    decreases o.len(),
{
    if o.len() == 0 {
        assert(members_put(o, k, t) =~= o.push((k, t)));
    } else {
        lemma_members_put_fresh(o.drop_first(), k, t);
        assert(members_put(o, k, t) =~= o.push((k, t)));
    }
}

/// The value under `k` in built members is that of the last pair with key `k`.
proof fn lemma_members_of_get(pairs: Seq<(Seq<char>, JsonTree)>, k: Seq<char>, n: int)
    requires
        0 <= n <= pairs.len(),
        forall|i: int| n <= i < pairs.len() ==> (#[trigger] pairs[i]).0 != k,
    ensures
        members_get(members_of(pairs), k) == if n == 0 {
            None
        } else {
            members_get(members_of(pairs.take(n)), k)
        },
    decreases pairs.len(),
{
    if n < pairs.len() {
        let init = pairs.drop_last();
        lemma_members_of_get(init, k, n);
        lemma_members_put_get(members_of(init), pairs.last().0, pairs.last().1, k);
        assert(init.take(n) =~= pairs.take(n));
    } else {
        assert(pairs.take(n) =~= pairs);
    }
}

impl Json {
    /// The object without members.
    pub fn object() -> (r: Json)
        ensures
            r@ == JsonTree::object(),
            r is Object,
    {
        let o: Vec<(String, Json)> = Vec::new();
        proof {
            lemma_object_tree(o);
            assert(pairs_of(o@) =~= Seq::empty());
        }
        Json::Object(o)
    }

    /// Sets member `key`. What is not an object stays as it is.
    pub fn put(self, key: &str, value: Json) -> (r: Json)
        ensures
            r@ == self@.put(key@, value@),
            self is Object ==> r is Object,
    {
        match self {
            Json::Object(mut o) => {
                let ghost before = o;
                o.push((key.to_owned(), value));
                proof {
                    lemma_object_tree(before);
                    lemma_object_tree(o);
                    assert(pairs_of(o@).drop_last() =~= pairs_of(before@));
                }
                Json::Object(o)
            },
            other => other,
        }
    }

    /// A string value.
    pub fn text(s: &str) -> (r: Json)
        ensures
            r@ == JsonTree::Str(s@),
    {
        Json::Str(s.to_owned())
    }

    /// Member `key` of an object.
    pub fn get(&self, key: &str) -> (r: Option<&Json>)
        ensures
            match r {
                Some(j) => self@.get(key@) == Some(j@),
                None => self@.get(key@) is None,
            },
    {
        match self {
            Json::Object(o) => {
                proof {
                    lemma_object_tree(*o);
                }
                let ghost pairs = pairs_of(o@);
                let mut n: usize = o.len();
                while n > 0
                    invariant
                        n <= o.len(),
                        pairs == pairs_of(o@),
                        self@ == JsonTree::Obj(members_of(pairs)),
                        forall|i: int| n <= i < pairs.len() ==> (#[trigger] pairs[i]).0 != key@,
                    decreases n,
                {
                    if same_text(o[n - 1].0.as_str(), key) {
                        proof {
                            lemma_members_of_get(pairs, key@, n as int);
                            let upto = pairs.take(n as int);
                            lemma_members_put_get(
                                members_of(upto.drop_last()),
                                upto.last().0,
                                upto.last().1,
                                key@,
                            );
                        }
                        return Some(&o[n - 1].1);
                    }
                    n = n - 1;
                }
                proof {
                    lemma_members_of_get(pairs, key@, 0);
                }
                None
            },
            _ => None,
        }
    }

    /// The text of a string value.
    pub fn as_str(&self) -> (r: Option<&str>)
        ensures
            match r {
                Some(s) => self@.as_str() == Some(s@),
                None => self@.as_str() is None,
            },
    {
        match self {
            Json::Str(s) => Some(s.as_str()),
            _ => None,
        }
    }

    /// The truth value of a boolean.
    pub fn as_bool(&self) -> (r: Option<bool>)
        ensures
            r == self@.as_bool(),
    {
        match self {
            Json::Bool(b) => Some(*b),
            _ => None,
        }
    }

    /// The number, where it is an integer that 64 unsigned bits hold.
    pub fn as_u64(&self) -> (r: Option<u64>)
        ensures
            r == self@.as_u64(),
    {
        match self {
            Json::Uint(n) => Some(*n),
            Json::Int(n) => if *n >= 0 {
                Some(*n as u64)
            } else {
                None
            },
            _ => None,
        }
    }

    /// The number, where it is an integer that 64 signed bits hold.
    pub fn as_i64(&self) -> (r: Option<i64>)
        ensures
            r == self@.as_i64(),
    {
        match self {
            Json::Int(n) => Some(*n),
            Json::Uint(n) => if *n <= i64::MAX as u64 {
                Some(*n as i64)
            } else {
                None
            },
            _ => None,
        }
    }

    /// The items of an array.
    pub fn as_array(&self) -> (r: Option<&Vec<Json>>)
        ensures
            match r {
                Some(a) => self@.as_array() == Some(trees_of(a@)),
                None => self@.as_array() is None,
            },
    {
        match self {
            Json::Array(a) => {
                proof {
                    lemma_array_tree(*a);
                }
                Some(a)
            },
            _ => None,
        }
    }

    /// The string member `key`: `None` where it is missing or no string.
    pub fn get_str(&self, key: &str) -> (r: Option<&str>)
        ensures
            match r {
                Some(s) => self@.get_str(key@) == Some(s@),
                None => self@.get_str(key@) is None,
            },
    {
        match self.get(key) {
            Some(j) => j.as_str(),
            None => None,
        }
    }

    /// The boolean member `key`: `None` where it is missing or no boolean.
    pub fn get_bool(&self, key: &str) -> (r: Option<bool>)
        ensures
            r == self@.get_bool(key@),
    {
        match self.get(key) {
            Some(j) => j.as_bool(),
            None => None,
        }
    }

    /// Another value that means the same.
    #[verifier::loop_isolation(false)]
    pub fn copy(&self) -> (r: Json)
        ensures
            r@ == self@,
        decreases self,
    {
        match self {
            Json::Null => Json::Null,
            Json::Bool(b) => Json::Bool(*b),
            Json::Uint(n) => Json::Uint(*n),
            Json::Int(n) => Json::Int(*n),
            Json::Real(f) => Json::Real(copy_fraction(f)),
            Json::Str(s) => Json::Str(s.clone()),
            Json::Array(a) => {
                let mut out: Vec<Json> = Vec::new();
                let mut i: usize = 0;
                while i < a.len()
                    invariant
                        i <= a.len(),
                        *self == Json::Array(*a),
                        trees_of(out@) == trees_of(a@).take(i as int),
                    decreases a.len() - i,
                {
                    let item = a[i].copy();
                    proof {
                        lemma_trees_push(out@, item);
                    }
                    out.push(item);
                    i = i + 1;
                    assert(trees_of(out@) =~= trees_of(a@).take(i as int));
                }
                proof {
                    lemma_array_tree(*a);
                    lemma_array_tree(out);
                    assert(trees_of(a@).take(i as int) =~= trees_of(a@));
                }
                Json::Array(out)
            },
            Json::Object(o) => {
                let mut out: Vec<(String, Json)> = Vec::new();
                let mut i: usize = 0;
                while i < o.len()
                    invariant
                        i <= o.len(),
                        *self == Json::Object(*o),
                        pairs_of(out@) == pairs_of(o@).take(i as int),
                    decreases o.len() - i,
                {
                    let key = o[i].0.clone();
                    let item = o[i].1.copy();
                    proof {
                        lemma_pairs_push(out@, (key, item));
                    }
                    out.push((key, item));
                    i = i + 1;
                    assert(pairs_of(out@) =~= pairs_of(o@).take(i as int));
                }
                proof {
                    lemma_object_tree(*o);
                    lemma_object_tree(out);
                    assert(pairs_of(o@).take(i as int) =~= pairs_of(o@));
                }
                Json::Object(out)
            },
        }
    }
}

/// A record in JSON is an object, or an array of its members' values in the order of their
/// names, the last of which may be missing: what it is as an object. What is neither stays as
/// it is.
pub open spec fn as_record(t: JsonTree, names: Seq<&'static str>) -> JsonTree {
    match t {
        JsonTree::Arr(a) => if a.len() <= names.len() {
            JsonTree::Obj(members_of(Seq::new(a.len(), |i: int| (names[i]@, a[i]))))
        } else {
            t
        },
        _ => t,
    }
}

/// A record as an object.
pub fn record(j: &Json, names: &[&'static str]) -> (r: Json)
    ensures
        r@ == as_record(j@, names@),
{
    match j {
        Json::Array(a) => {
            proof {
                lemma_array_tree(*a);
            }
            if a.len() > names.len() {
                return j.copy();
            }
            let ghost all = Seq::new(a@.len(), |i: int| (names@[i]@, trees_of(a@)[i]));
            let mut out: Vec<(String, Json)> = Vec::new();
            let mut i: usize = 0;
            assert(pairs_of(out@) =~= all.take(0));
            while i < a.len()
                invariant
                    i <= a@.len() <= names@.len(),
                    all == Seq::new(a@.len(), |i: int| (names@[i]@, trees_of(a@)[i])),
                    pairs_of(out@) == all.take(i as int),
                decreases a.len() - i,
            {
                let key = names[i].to_owned();
                let item = a[i].copy();
                proof {
                    lemma_pairs_push(out@, (key, item));
                }
                out.push((key, item));
                i = i + 1;
                assert(pairs_of(out@) =~= all.take(i as int));
            }
            assert(all.take(i as int) =~= all);
            proof {
                lemma_object_tree(out);
            }
            Json::Object(out)
        },
        _ => j.copy(),
    }
}

/// `serde_json::Number::clone`: the copy is the same number.
#[verifier::external_body]
fn copy_fraction(f: &Fraction) -> (r: Fraction)
    ensures
        r == *f,
{
    Fraction { n: f.n.clone() }
}

/// What a `serde_json::Value` holds.
pub uninterp spec fn value_tree(v: serde_json::Value) -> JsonTree;

/// What a `serde_json::Value` is made of, one level deep.
pub enum ValueParts {
    Null,
    Bool(bool),
    Uint(u64),
    Int(i64),
    Real(Fraction),
    Str(String),
    Array(Vec<serde_json::Value>),
    Object(Vec<(String, serde_json::Value)>),
}

/// What the parts of a value mean.
pub open spec fn parts_tree(p: ValueParts) -> JsonTree {
    match p {
        ValueParts::Null => JsonTree::Null,
        ValueParts::Bool(b) => JsonTree::Bool(b),
        ValueParts::Uint(n) => JsonTree::Int(n as int),
        ValueParts::Int(n) => JsonTree::Int(n as int),
        ValueParts::Real(f) => JsonTree::Real(f),
        ValueParts::Str(s) => JsonTree::Str(s@),
        ValueParts::Array(a) => JsonTree::Arr(value_trees(a@)),
        ValueParts::Object(o) => JsonTree::Obj(members_of(value_pairs(o@))),
    }
}

/// What each value of a sequence holds.
pub open spec fn value_trees(a: Seq<serde_json::Value>) -> Seq<JsonTree> {
    Seq::new(a.len(), |i: int| value_tree(a[i]))
}

/// What each named value of a sequence holds.
pub open spec fn value_pairs(o: Seq<(String, serde_json::Value)>) -> Seq<(Seq<char>, JsonTree)> {
    Seq::new(o.len(), |i: int| (o[i].0@, value_tree(o[i].1)))
}

/// Takes a `serde_json::Value` apart: one part for each variant, the members of an
/// object in the order of its map (`serde_json::Map::into_iter`), no key twice. A number
/// is told apart by `Number::as_u64` and `Number::as_i64`; one for which neither gives a
/// number is a fraction.
#[verifier::external_body]
fn open_value(v: serde_json::Value) -> (r: ValueParts)
    ensures
        parts_tree(r) == value_tree(v),
        r matches ValueParts::Object(o) ==> distinct_keys(value_pairs(o@)),
{
    match v {
        serde_json::Value::Null => ValueParts::Null,
        serde_json::Value::Bool(b) => ValueParts::Bool(b),
        serde_json::Value::Number(n) => match (n.as_u64(), n.as_i64()) {
            (Some(u), _) => ValueParts::Uint(u),
            (None, Some(i)) => ValueParts::Int(i),
            (None, None) => ValueParts::Real(Fraction { n }),
        },
        serde_json::Value::String(s) => ValueParts::Str(s),
        serde_json::Value::Array(a) => ValueParts::Array(a),
        serde_json::Value::Object(m) => ValueParts::Object(m.into_iter().collect()),
    }
}

/// Puts a `serde_json::Value` together from its parts: one variant for each part. An
/// object is built by `serde_json::Map::from_iter`, which sets the pairs one after the
/// other; an integer by `Number::from`; a fraction's number is taken as it is.
#[verifier::external_body]
fn build_value(p: ValueParts) -> (r: serde_json::Value)
    ensures
        value_tree(r) == parts_tree(p),
{
    match p {
        ValueParts::Null => serde_json::Value::Null,
        ValueParts::Bool(b) => serde_json::Value::Bool(b),
        ValueParts::Uint(n) => serde_json::Value::Number(n.into()),
        ValueParts::Int(n) => serde_json::Value::Number(n.into()),
        ValueParts::Real(f) => serde_json::Value::Number(f.n),
        ValueParts::Str(s) => serde_json::Value::String(s),
        ValueParts::Array(a) => serde_json::Value::Array(a),
        ValueParts::Object(o) => serde_json::Value::Object(o.into_iter().collect()),
    }
}

/// What `serde_json::from_str` makes of a text: the value that it reads, or what is wrong
/// with the text, in the words of `serde_json::Error`.
pub uninterp spec fn text_reading(text: Seq<char>) -> Result<JsonTree, Seq<char>>;

/// The value that a text is read as: `None` where it is no JSON.
pub open spec fn text_tree(text: Seq<char>) -> Option<JsonTree> {
    match text_reading(text) {
        Ok(t) => Some(t),
        Err(_) => None,
    }
}

/// The compact text of a value, as `serde_json::Value` displays itself.
pub uninterp spec fn tree_text(t: JsonTree) -> Seq<char>;

/// The indented text of a value, as `serde_json::Value` displays itself in its alternate form.
pub uninterp spec fn tree_pretty_text(t: JsonTree) -> Seq<char>;

/// `serde_json::from_str::<serde_json::Value>`, with the error in its own words
/// (`serde_json::Error`'s `Display`): which texts it accepts, what it reads from them, and
/// what it says of the others, is a function of the text.
#[verifier::external_body]
fn parse_value(text: &str) -> (r: Result<serde_json::Value, String>)
    ensures
        match r {
            Ok(v) => text_reading(text@) == Ok::<JsonTree, Seq<char>>(value_tree(v)),
            Err(e) => text_reading(text@) == Err::<JsonTree, Seq<char>>(e@),
        },
{
    serde_json::from_str::<serde_json::Value>(text).map_err(|e| e.to_string())
}

/// How deep `serde_json::from_str` lets arrays and objects nest.
pub const PARSE_DEPTH: usize = 127;

/// The `Display` of `serde_json::Value`, which writes the compact text of
/// `serde_json::to_string` and cannot fail. The text is not empty and has no line break and
/// no carriage return, since a string's control characters are written as escapes, and no
/// white space around it. Read back, it gives the same value, as long as the nesting is
/// within what the parser takes and no fraction is in it; of a fraction nothing is claimed.
#[verifier::external_body]
fn render_value(v: &serde_json::Value) -> (r: String)
    ensures
        r@ == tree_text(value_tree(*v)),
        !r@.contains('\n'),
        !r@.contains('\r'),
        trimmed(r@) == r@,
        r@.len() > 0,
        value_tree(*v).plain(PARSE_DEPTH as nat) ==> text_tree(r@) == Some(value_tree(*v)),
{
    v.to_string()
}

/// The alternate form of `serde_json::Value`'s `Display`, which is what
/// `serde_json::to_string_pretty` writes. Read back, it gives the same value, under the
/// same conditions as the compact text.
#[verifier::external_body]
fn render_value_pretty(v: &serde_json::Value) -> (r: String)
    ensures
        r@ == tree_pretty_text(value_tree(*v)),
        value_tree(*v).plain(PARSE_DEPTH as nat) ==> text_tree(r@) == Some(value_tree(*v)),
{
    format!("{:#}", v)
}

/// The library's own value for a `serde_json::Value`.
#[verifier::loop_isolation(false)]
fn json_of_value(v: serde_json::Value) -> (r: Json)
    ensures
        r@ == value_tree(v),
    decreases value_tree(v),
{
    let ghost t = value_tree(v);
    match open_value(v) {
        ValueParts::Null => Json::Null,
        ValueParts::Bool(b) => Json::Bool(b),
        ValueParts::Uint(n) => Json::Uint(n),
        ValueParts::Int(n) => Json::Int(n),
        ValueParts::Real(f) => Json::Real(f),
        ValueParts::Str(s) => Json::Str(s),
        ValueParts::Array(a) => {
            let ghost all = a@;
            let mut out: Vec<Json> = Vec::new();
            for item in it: a
                invariant
                    it.seq() == all,
                    t == JsonTree::Arr(value_trees(all)),
                    trees_of(out@) == value_trees(all).take(it.index() as int),
            {
                let ghost n = it.index() as int;
                assert(value_trees(all)[n] == value_tree(item));
                assert(decreases_to!(t => t->Arr_0));
                assert(decreases_to!(t->Arr_0 => t->Arr_0[n]));
                let j = json_of_value(item);
                proof {
                    lemma_trees_push(out@, j);
                }
                out.push(j);
                assert(trees_of(out@) =~= value_trees(all).take(n + 1));
            }
            proof {
                lemma_array_tree(out);
                assert(value_trees(all).take(all.len() as int) =~= value_trees(all));
            }
            Json::Array(out)
        },
        ValueParts::Object(o) => {
            let ghost all = o@;
            let ghost pairs = value_pairs(all);
            proof {
                lemma_members_of_distinct(pairs);
            }
            let mut out: Vec<(String, Json)> = Vec::new();
            for item in it: o
                invariant
                    it.seq() == all,
                    pairs == value_pairs(all),
                    t == JsonTree::Obj(pairs),
                    pairs_of(out@) == pairs.take(it.index() as int),
            {
                let ghost n = it.index() as int;
                let (key, val) = item;
                assert(pairs[n] == (key@, value_tree(val)));
                assert(decreases_to!(t => t->Obj_0));
                assert(decreases_to!(t->Obj_0 => t->Obj_0[n]));
                assert(decreases_to!(t->Obj_0[n] => t->Obj_0[n].1));
                let j = json_of_value(val);
                proof {
                    lemma_pairs_push(out@, (key, j));
                }
                out.push((key, j));
                assert(pairs_of(out@) =~= pairs.take(n + 1));
            }
            proof {
                lemma_object_tree(out);
                assert(pairs.take(all.len() as int) =~= pairs);
            }
            Json::Object(out)
        },
    }
}

/// The `serde_json::Value` for a value of the library.
#[verifier::loop_isolation(false)]
fn value_of_json(j: &Json) -> (r: serde_json::Value)
    ensures
        value_tree(r) == j@,
    decreases j,
{
    let parts = match j {
        Json::Null => ValueParts::Null,
        Json::Bool(b) => ValueParts::Bool(*b),
        Json::Uint(n) => ValueParts::Uint(*n),
        Json::Int(n) => ValueParts::Int(*n),
        Json::Real(f) => ValueParts::Real(copy_fraction(f)),
        Json::Str(s) => ValueParts::Str(s.clone()),
        Json::Array(a) => {
            let mut out: Vec<serde_json::Value> = Vec::new();
            let mut i: usize = 0;
            while i < a.len()
                invariant
                    i <= a.len(),
                    *j == Json::Array(*a),
                    value_trees(out@) == trees_of(a@).take(i as int),
                decreases a.len() - i,
            {
                let item = value_of_json(&a[i]);
                let ghost before = out@;
                out.push(item);
                i = i + 1;
                assert(value_trees(out@) =~= value_trees(before).push(value_tree(item)));
                assert(value_trees(out@) =~= trees_of(a@).take(i as int));
            }
            proof {
                lemma_array_tree(*a);
                assert(trees_of(a@).take(i as int) =~= trees_of(a@));
            }
            ValueParts::Array(out)
        },
        Json::Object(o) => {
            let mut out: Vec<(String, serde_json::Value)> = Vec::new();
            let mut i: usize = 0;
            while i < o.len()
                invariant
                    i <= o.len(),
                    *j == Json::Object(*o),
                    value_pairs(out@) == pairs_of(o@).take(i as int),
                decreases o.len() - i,
            {
                let key = o[i].0.clone();
                let item = value_of_json(&o[i].1);
                let ghost before = out@;
                out.push((key, item));
                i = i + 1;
                assert(value_pairs(out@) =~= value_pairs(before).push((key@, value_tree(item))));
                assert(value_pairs(out@) =~= pairs_of(o@).take(i as int));
            }
            proof {
                lemma_object_tree(*o);
                assert(pairs_of(o@).take(i as int) =~= pairs_of(o@));
            }
            ValueParts::Object(out)
        },
    };
    build_value(parts)
}

/// Reads a JSON text.
pub fn parse_json(text: &str) -> (r: Option<Json>)
    ensures
        match r {
            Some(j) => text_tree(text@) == Some(j@),
            None => text_tree(text@) is None,
        },
{
    match parse_value(text) {
        Ok(v) => Some(json_of_value(v)),
        Err(_) => None,
    }
}

/// Reads a JSON text; what is wrong with it, in words, where it is none.
pub fn parse_json_or_fault(text: &str) -> (r: Result<Json, String>)
    ensures
        match r {
            Ok(j) => text_reading(text@) == Ok::<JsonTree, Seq<char>>(j@),
            Err(e) => text_reading(text@) == Err::<JsonTree, Seq<char>>(e@),
        },
{
    match parse_value(text) {
        Ok(v) => Ok(json_of_value(v)),
        Err(e) => Err(e),
    }
}

/// Writes a value as compact JSON text, on one line. A plain value can be read back.
pub fn write_json(j: &Json) -> (r: String)
    ensures
        r@ == tree_text(j@),
        !r@.contains('\n'),
        !r@.contains('\r'),
        trimmed(r@) == r@,
        r@.len() > 0,
        j@.plain(PARSE_DEPTH as nat) ==> text_tree(r@) == Some(j@),
{
    let v = value_of_json(j);
    render_value(&v)
}

/// Writes a value as indented JSON text. A plain value can be read back.
pub fn write_json_pretty(j: &Json) -> (r: String)
    ensures
        r@ == tree_pretty_text(j@),
        j@.plain(PARSE_DEPTH as nat) ==> text_tree(r@) == Some(j@),
{
    let v = value_of_json(j);
    render_value_pretty(&v)
}

/// An object holds under a key what stands last under it, and nothing under a key that does
/// not stand in it.
pub proof fn law_last_value_of_a_key_counts(o: Vec<(String, Json)>, k: Seq<char>, i: int)
    requires
        -1 <= i < o@.len(),
        i >= 0 ==> o@[i].0@ == k,
        forall|n: int| i < n < o@.len() ==> (#[trigger] o@[n]).0@ != k,
    ensures
        i >= 0 ==> Json::Object(o)@.get(k) == Some(o@[i].1@),
        i < 0 ==> Json::Object(o)@.get(k) is None,
{
    lemma_object_tree(o);
    let pairs = pairs_of(o@);
    lemma_members_of_get(pairs, k, i + 1);
    if i >= 0 {
        let upto = pairs.take(i + 1);
        lemma_members_put_get(members_of(upto.drop_last()), upto.last().0, upto.last().1, k);
    }
}

/// Of an object, what was put under a key is found under it, and the rest stays as it was; a
/// new object is empty, and what is no object has no members and takes none.
pub proof fn law_members_are_found_where_they_were_put(
    j: JsonTree,
    k: Seq<char>,
    t: JsonTree,
    q: Seq<char>,
)
    ensures
        j is Obj ==> j.put(k, t) is Obj && j.put(k, t).get(k) == Some(t),
        j is Obj && q != k ==> j.put(k, t).get(q) == j.get(q),
        JsonTree::object() is Obj && JsonTree::object().get(q) is None,
        !(j is Obj) ==> j.get(q) is None && j.put(k, t) == j,
{
    if j is Obj {
        lemma_put_get(j, k, t, k);
        lemma_put_get(j, k, t, q);
    }
}

/// A value is read as what it is, and as nothing else: a text as a text, a truth value as a
/// truth value, an array as its items, a whole number as a number of 64 bits where it fits.
pub proof fn law_values_are_read_as_what_they_are(
    t: JsonTree,
    k: Seq<char>,
    s: Seq<char>,
    b: bool,
    a: Seq<JsonTree>,
    u: u64,
    i: i64,
)
    ensures
        t.as_str() == Some(s) <==> t == JsonTree::Str(s),
        t.as_bool() == Some(b) <==> t == JsonTree::Bool(b),
        t.as_array() == Some(a) <==> t == JsonTree::Arr(a),
        t.as_u64() == Some(u) <==> t == JsonTree::Int(u as int),
        t.as_i64() == Some(i) <==> t == JsonTree::Int(i as int),
        t.get_str(k) == Some(s) <==> t.get(k) == Some(JsonTree::Str(s)),
        t.get_bool(k) == Some(b) <==> t.get(k) == Some(JsonTree::Bool(b)),
{
}

/// A value means the same number, text or truth value that it holds, and an array means its
/// items, in order.
pub proof fn law_values_mean_what_they_hold(n: u64, i: i64, b: bool, s: String, a: Vec<Json>)
    ensures
        Json::Null@ == JsonTree::Null,
        Json::Bool(b)@ == JsonTree::Bool(b),
        Json::Uint(n)@ == JsonTree::Int(n as int),
        Json::Int(i)@ == JsonTree::Int(i as int),
        Json::Str(s)@ == JsonTree::Str(s@),
        Json::Array(a)@ matches JsonTree::Arr(ts) && ts.len() == a@.len() && forall|x: int|
            0 <= x < a@.len() ==> ts[x] == (#[trigger] a@[x])@,
{
    lemma_array_tree(a);
}

/// A record may be given as the values of its members in the order of their names: each value
/// is found under the name of its place, and the names that are left over are missing.
pub proof fn law_record_members_go_by_place(
    a: Seq<JsonTree>,
    names: Seq<&'static str>,
    i: int,
)
    requires
        a.len() <= names.len(),
        0 <= i < names.len(),
        forall|x: int, y: int|
            0 <= x < y < names.len() ==> (#[trigger] names[x])@ != (#[trigger] names[y])@,
    ensures
        i < a.len() ==> as_record(JsonTree::Arr(a), names).get(names[i]@) == Some(a[i]),
        i >= a.len() ==> as_record(JsonTree::Arr(a), names).get(names[i]@) is None,
{
    let pairs = Seq::new(a.len(), |n: int| (names[n]@, a[n]));
    if i < a.len() {
        lemma_members_of_get(pairs, names[i]@, i + 1);
        let upto = pairs.take(i + 1);
        lemma_members_put_get(
            members_of(upto.drop_last()),
            upto.last().0,
            upto.last().1,
            names[i]@,
        );
    } else {
        lemma_members_of_get(pairs, names[i]@, 0);
    }
}

/// What is no array is a record as it stands, and so is an array with more values than names.
pub proof fn law_other_values_stay_records(t: JsonTree, names: Seq<&'static str>)
    ensures
        !(t is Arr) ==> as_record(t, names) == t,
        t matches JsonTree::Arr(a) && a.len() > names.len() ==> as_record(t, names) == t,
{
}

/// A value is plain where no fraction is in it and it is not nested too deep: a number, a text, a
/// truth value or null always is, an array or an object where all in it is, one level less deep.
pub proof fn law_plain_values(t: JsonTree, n: nat)
    ensures
        t is Null || t is Bool || t is Int || t is Str ==> t.plain(n),
        t is Real ==> !t.plain(n),
        t is Arr || t is Obj ==> !t.plain(0),
        t matches JsonTree::Arr(a) ==> (t.plain(n + 1) <==> forall|i: int|
            0 <= i < a.len() ==> (#[trigger] a[i]).plain(n)),
        t matches JsonTree::Obj(o) ==> (t.plain(n + 1) <==> forall|i: int|
            0 <= i < o.len() ==> (#[trigger] o[i]).1.plain(n)),
        PARSE_DEPTH == 127,
{
}

} // verus!
