//! A closed JSON-like value union and the operations capability documents
//! need: lookup, insert-or-overwrite, and recursive (deep) merge.

use vstd::prelude::*;
use vstd::string::StrSliceExecFns;

verus! {

/// A JSON-like value: the closed set of shapes a capability document can hold.
#[derive(Debug, PartialEq)]
pub enum JsonValue {
    Null,
    Bool(bool),
    Int(i64),
    Str(String),
    Array(Vec<JsonValue>),
    Object(Vec<(String, JsonValue)>),
}

/// The mathematical model of a `JsonValue`. An object is a map from key to
/// model value: insertion order is irrelevant, and a later binding for a key
/// overwrites an earlier one.
#[verifier::ext_equal]
pub enum SpecJson {
    Null,
    Bool(bool),
    Int(int),
    Str(Seq<char>),
    Arr(Seq<SpecJson>),
    Obj(Map<Seq<char>, SpecJson>),
}

/// The model of a value: every contract about document contents is stated
/// over this view.
pub open spec fn jview(v: JsonValue) -> SpecJson
    decreases v,
{
    match v {
        JsonValue::Null => SpecJson::Null,
        JsonValue::Bool(b) => SpecJson::Bool(b),
        JsonValue::Int(i) => SpecJson::Int(i as int),
        JsonValue::Str(s) => SpecJson::Str(s@),
        JsonValue::Array(els) => SpecJson::Arr(jview_arr(els@)),
        JsonValue::Object(es) => SpecJson::Obj(jview_obj(es@)),
    }
}

/// The model of an array body: the models of its elements, in order.
pub open spec fn jview_arr(s: Seq<JsonValue>) -> Seq<SpecJson>
    decreases s,
{
    if s.len() == 0 {
        Seq::empty()
    } else {
        jview_arr(s.drop_last()).push(jview(s.last()))
    }
}

/// The model of an object body: a map in which a later entry for a key
/// overwrites an earlier one.
pub open spec fn jview_obj(s: Seq<(String, JsonValue)>) -> Map<Seq<char>, SpecJson>
    decreases s,
{
    if s.len() == 0 {
        Map::empty()
    } else {
        jview_obj(s.drop_last()).insert(s.last().0@, jview(s.last().1))
    }
}

impl View for JsonValue {
    type V = SpecJson;

    open spec fn view(&self) -> SpecJson {
        jview(*self)
    }
}

/// No two entries of an object body bind the same key.
pub open spec fn keys_unique(s: Seq<(String, JsonValue)>) -> bool {
    forall|i: int, j: int| 0 <= i < j < s.len() ==> s[i].0@ != s[j].0@
}

/// A value is well formed when every object in it binds each key once.
pub open spec fn jwf(v: JsonValue) -> bool
    decreases v,
{
    match v {
        JsonValue::Null => true,
        JsonValue::Bool(_) => true,
        JsonValue::Int(_) => true,
        JsonValue::Str(_) => true,
        JsonValue::Array(els) => forall|i: int| 0 <= i < els@.len() ==> jwf(#[trigger] els@[i]),
        JsonValue::Object(es) => keys_unique(es@) && forall|i: int|
            0 <= i < es@.len() ==> jwf(#[trigger] es@[i].1),
    }
}

/// The deep-merge rule: where both sides are objects the entries are merged
/// recursively; everywhere else the incoming value replaces the existing one.
pub open spec fn spec_merge(a: SpecJson, b: SpecJson) -> SpecJson
    decreases b,
{
    match (a, b) {
        (SpecJson::Obj(ma), SpecJson::Obj(mb)) => SpecJson::Obj(
            Map::new(
                |k: Seq<char>| ma.contains_key(k) || mb.contains_key(k),
                |k: Seq<char>|
                    if mb.contains_key(k) {
                        if ma.contains_key(k) {
                            spec_merge(ma[k], mb[k])
                        } else {
                            mb[k]
                        }
                    } else {
                        ma[k]
                    },
            ),
        ),
        (_, bb) => bb,
    }
}

/// Equality of string slices, decided character by character.
pub fn str_eq(a: &str, b: &str) -> (r: bool)
    ensures
        r == (a@ == b@),
{
    let alen = a.unicode_len();
    if alen != b.unicode_len() {
        return false;
    }
    let mut i: usize = 0;
    while i < alen
        invariant
            i <= alen,
            a@.len() == alen as int,
            b@.len() == alen as int,
            forall|j: int| 0 <= j < i ==> a@[j] == b@[j],
        decreases alen - i,
    {
        if a.get_char(i) != b.get_char(i) {
            return false;
        }
        i += 1;
    }
    proof {
        assert(a@ =~= b@);
    }
    true
}

/// Membership in an object body's model is witnessed by an entry.
pub proof fn lemma_jview_obj_contains(s: Seq<(String, JsonValue)>, k: Seq<char>)
    ensures
        jview_obj(s).contains_key(k) <==> exists|i: int| 0 <= i < s.len() && s[i].0@ == k,
    decreases s.len(),
{
    if s.len() > 0 {
        lemma_jview_obj_contains(s.drop_last(), k);
        if s.last().0@ == k {
            assert(s[s.len() - 1].0@ == k);
        } else {
            if exists|i: int| 0 <= i < s.drop_last().len() && s.drop_last()[i].0@ == k {
                let i = choose|i: int| 0 <= i < s.drop_last().len() && s.drop_last()[i].0@ == k;
                assert(s[i].0@ == k);
            }
            if exists|i: int| 0 <= i < s.len() && s[i].0@ == k {
                let i = choose|i: int| 0 <= i < s.len() && s[i].0@ == k;
                assert(s.drop_last()[i].0@ == k);
            }
        }
    }
}

/// With unique keys, the model's value for a key is the value of its entry.
pub proof fn lemma_jview_obj_value(s: Seq<(String, JsonValue)>, i: int)
    requires
        keys_unique(s),
        0 <= i < s.len(),
    ensures
        jview_obj(s).contains_key(s[i].0@),
        jview_obj(s)[s[i].0@] == jview(s[i].1),
    decreases s.len(),
{
    lemma_jview_obj_contains(s, s[i].0@);
    if i == s.len() - 1 {
    } else {
        assert(keys_unique(s.drop_last()));
        assert(s.drop_last()[i] == s[i]);
        lemma_jview_obj_value(s.drop_last(), i);
        assert(s.last().0@ != s[i].0@);
    }
}

/// Appending an entry inserts its binding into the model.
pub proof fn lemma_jview_obj_push(s: Seq<(String, JsonValue)>, k: String, v: JsonValue)
    ensures
        jview_obj(s.push((k, v))) == jview_obj(s).insert(k@, jview(v)),
{
    assert(s.push((k, v)).drop_last() =~= s);
    assert(s.push((k, v)).last() == (k, v));
}

/// With unique keys, replacing the value of an entry in place updates the
/// model at that entry's key.
pub proof fn lemma_jview_obj_update(s: Seq<(String, JsonValue)>, i: int, v: JsonValue)
    requires
        keys_unique(s),
        0 <= i < s.len(),
    ensures
        jview_obj(s.update(i, (s[i].0, v))) == jview_obj(s).insert(s[i].0@, jview(v)),
    decreases s.len(),
{
    let t = s.update(i, (s[i].0, v));
    if i == s.len() - 1 {
        assert(t.drop_last() =~= s.drop_last());
        assert(t.last() == (s[i].0, v));
    } else {
        assert(keys_unique(s.drop_last()));
        assert(s.drop_last()[i] == s[i]);
        lemma_jview_obj_update(s.drop_last(), i, v);
        assert(t.drop_last() =~= s.drop_last().update(i, (s[i].0, v)));
        assert(t.last() == s.last());
        assert(s.last().0@ != s[i].0@);
        assert(jview_obj(t) =~= jview_obj(s).insert(s[i].0@, jview(v)));
    }
}

/// Pointwise equal models give equal array models.
pub proof fn lemma_jview_arr_pointwise(s1: Seq<JsonValue>, s2: Seq<JsonValue>)
    requires
        s1.len() == s2.len(),
        forall|j: int| 0 <= j < s1.len() ==> jview(#[trigger] s1[j]) == jview(s2[j]),
    ensures
        jview_arr(s1) == jview_arr(s2),
    decreases s1.len(),
{
    if s1.len() > 0 {
        lemma_jview_arr_pointwise(s1.drop_last(), s2.drop_last());
        assert(jview_arr(s1) =~= jview_arr(s2));
    } else {
        assert(jview_arr(s1) =~= jview_arr(s2));
    }
}

/// Pointwise equal keys and value models give equal object models.
pub proof fn lemma_jview_obj_pointwise(s1: Seq<(String, JsonValue)>, s2: Seq<(String, JsonValue)>)
    requires
        s1.len() == s2.len(),
        forall|j: int| 0 <= j < s1.len() ==> (#[trigger] s1[j]).0@ == s2[j].0@,
        forall|j: int| 0 <= j < s1.len() ==> jview((#[trigger] s1[j]).1) == jview(s2[j].1),
    ensures
        jview_obj(s1) == jview_obj(s2),
    decreases s1.len(),
{
    if s1.len() > 0 {
        lemma_jview_obj_pointwise(s1.drop_last(), s2.drop_last());
        assert(jview_obj(s1) =~= jview_obj(s2));
    } else {
        assert(jview_obj(s1) =~= jview_obj(s2));
    }
}

impl JsonValue {
    /// A structural copy: the copy has the same model and is well formed
    /// whenever the original is.
    pub fn deep_clone(&self) -> (r: Self)
        ensures
            r@ == self@,
            jwf(*self) ==> jwf(r),
        decreases *self,
    {
        match self {
            JsonValue::Null => JsonValue::Null,
            JsonValue::Bool(b) => JsonValue::Bool(*b),
            JsonValue::Int(i) => JsonValue::Int(*i),
            JsonValue::Str(s) => JsonValue::Str(s.clone()),
            JsonValue::Array(els) => {
                let mut out: Vec<JsonValue> = Vec::new();
                let mut i: usize = 0;
                while i < els.len()
                    invariant
                        i <= els@.len(),
                        out@.len() == i as int,
                        forall|j: int| 0 <= j < i ==> jview(#[trigger] out@[j]) == jview(els@[j]),
                        forall|j: int| 0 <= j < i ==> (jwf(els@[j]) ==> jwf(#[trigger] out@[j])),
                        *self == JsonValue::Array(*els),
                    decreases els@.len() - i,
                {
                    proof {
                        assert(decreases_to!(*self => (*self)->Array_0));
                        assert((*self)->Array_0 == *els);
                        assert(decreases_to!(*els => els[i as int]));
                    }
                    let c = els[i].deep_clone();
                    out.push(c);
                    i += 1;
                }
                proof {
                    lemma_jview_arr_pointwise(out@, els@);
                }
                JsonValue::Array(out)
            },
            JsonValue::Object(es) => {
                let mut out: Vec<(String, JsonValue)> = Vec::new();
                let mut i: usize = 0;
                while i < es.len()
                    invariant
                        i <= es@.len(),
                        out@.len() == i as int,
                        forall|j: int| 0 <= j < i ==> (#[trigger] out@[j]).0@ == es@[j].0@,
                        forall|j: int| 0 <= j < i ==> jview((#[trigger] out@[j]).1) == jview(
                            es@[j].1,
                        ),
                        forall|j: int| 0 <= j < i ==> (jwf(es@[j].1) ==> jwf(
                            (#[trigger] out@[j]).1,
                        )),
                        *self == JsonValue::Object(*es),
                    decreases es@.len() - i,
                {
                    proof {
                        assert(decreases_to!(*self => (*self)->Object_0));
                        assert((*self)->Object_0 == *es);
                        assert(decreases_to!(*es => es[i as int]));
                        assert(decreases_to!(es[i as int] => es[i as int].1));
                    }
                    let k = es[i].0.clone();
                    let v = es[i].1.deep_clone();
                    out.push((k, v));
                    i += 1;
                }
                proof {
                    lemma_jview_obj_pointwise(out@, es@);
                    if jwf(*self) {
                        assert(keys_unique(out@));
                    }
                }
                JsonValue::Object(out)
            },
        }
    }
}

impl Clone for JsonValue {
    /// The clone has the same model and is well formed whenever the
    /// original is.
    fn clone(&self) -> (r: Self)
        ensures
            r@ == self@,
            jwf(*self) ==> jwf(r),
    {
        self.deep_clone()
    }
}

/// The index of an entry binding `key`, if any.
pub fn obj_find(es: &Vec<(String, JsonValue)>, key: &str) -> (r: Option<usize>)
    ensures
        match r {
            Some(i) => i < es@.len() && es@[i as int].0@ == key@,
            None => forall|j: int| 0 <= j < es@.len() ==> (#[trigger] es@[j]).0@ != key@,
        },
{
    let mut i: usize = 0;
    while i < es.len()
        invariant
            i <= es@.len(),
            forall|j: int| 0 <= j < i ==> (#[trigger] es@[j]).0@ != key@,
        decreases es@.len() - i,
    {
        if str_eq(es[i].0.as_str(), key) {
            return Some(i);
        }
        i += 1;
    }
    None
}

/// Bind `key` to `value` in an object body, overwriting an existing binding.
pub fn obj_set(es: &mut Vec<(String, JsonValue)>, key: String, value: JsonValue)
    requires
        keys_unique(old(es)@),
    ensures
        jview_obj(final(es)@) == jview_obj(old(es)@).insert(key@, jview(value)),
        keys_unique(final(es)@),
        ((forall|i: int| 0 <= i < old(es)@.len() ==> jwf((#[trigger] old(es)@[i]).1)) && jwf(value))
            ==> (forall|i: int| 0 <= i < final(es)@.len() ==> jwf((#[trigger] final(es)@[i]).1)),
{
    let found = obj_find(es, key.as_str());
    match found {
        Some(i) => {
            let ghost s0 = es@;
            let (k0, _old_value) = es.remove(i);
            es.insert(i, (k0, value));
            proof {
                assert(es@ =~= s0.update(i as int, (s0[i as int].0, value)));
                lemma_jview_obj_update(s0, i as int, value);
                assert(jview_obj(es@) == jview_obj(s0).insert(key@, jview(value)));
            }
        },
        None => {
            let ghost s0 = es@;
            proof {
                lemma_jview_obj_push(s0, key, value);
            }
            es.push((key, value));
        },
    }
}

/// The value bound to `key` in an object body with unique keys.
pub fn obj_get<'a>(es: &'a Vec<(String, JsonValue)>, key: &str) -> (r: Option<&'a JsonValue>)
    requires
        keys_unique(es@),
    ensures
        match r {
            Some(v) => jview_obj(es@).contains_key(key@) && jview(*v) == jview_obj(es@)[key@]
                && ((forall|j: int| 0 <= j < es@.len() ==> jwf((#[trigger] es@[j]).1)) ==> jwf(*v)),
            None => !jview_obj(es@).contains_key(key@),
        },
{
    proof {
        lemma_jview_obj_contains(es@, key@);
    }
    match obj_find(es, key) {
        Some(i) => {
            proof {
                lemma_jview_obj_value(es@, i as int);
            }
            Some(&es[i].1)
        },
        None => None,
    }
}

/// Extending the incoming side of a merge by a fresh binding inserts the
/// merged binding into the result.
pub proof fn lemma_spec_merge_insert(
    ma: Map<Seq<char>, SpecJson>,
    mb: Map<Seq<char>, SpecJson>,
    k: Seq<char>,
    vv: SpecJson,
)
    requires
        !mb.contains_key(k),
    ensures
        spec_merge(SpecJson::Obj(ma), SpecJson::Obj(mb.insert(k, vv))) == SpecJson::Obj(
            spec_merge(SpecJson::Obj(ma), SpecJson::Obj(mb))->Obj_0.insert(
                k,
                if ma.contains_key(k) {
                    spec_merge(ma[k], vv)
                } else {
                    vv
                },
            ),
        ),
{
    let lhs = spec_merge(SpecJson::Obj(ma), SpecJson::Obj(mb.insert(k, vv)))->Obj_0;
    let rhs = spec_merge(SpecJson::Obj(ma), SpecJson::Obj(mb))->Obj_0.insert(
        k,
        if ma.contains_key(k) {
            spec_merge(ma[k], vv)
        } else {
            vv
        },
    );
    assert(lhs =~= rhs);
}

/// Merge two values: where both are objects, entries are combined
/// recursively with the incoming side winning; everywhere else the incoming
/// value replaces the existing one.
#[verifier::loop_isolation(false)]
pub fn merge(a: JsonValue, b: JsonValue) -> (r: JsonValue)
    requires
        jwf(a),
        jwf(b),
    ensures
        r@ == spec_merge(a@, b@),
        jwf(r),
    decreases b,
{
    let ghost awhole = a;
    let ghost bwhole = b;
    match (a, b) {
        (JsonValue::Object(mut ae), JsonValue::Object(mut be)) => {
            let ghost be0 = be;
            let ghost ma0 = jview_obj(ae@);
            let ghost n = be0@.len() as int;
            proof {
                assert(be0@.take(0) =~= Seq::<(String, JsonValue)>::empty());
                assert(jview_obj(be0@.take(0)) == Map::<Seq<char>, SpecJson>::empty());
                assert(spec_merge(
                    SpecJson::Obj(ma0),
                    SpecJson::Obj(Map::<Seq<char>, SpecJson>::empty()),
                )->Obj_0 =~= ma0);
            }
            let ghost mut i: int = 0;
            while be.len() > 0
                invariant
                    0 <= i <= n,
                    n == be0@.len(),
                    be@ =~= be0@.subrange(i, n),
                    bwhole == JsonValue::Object(be0),
                    keys_unique(be0@),
                    forall|j: int| 0 <= j < be0@.len() ==> jwf((#[trigger] be0@[j]).1),
                    keys_unique(ae@),
                    forall|j: int| 0 <= j < ae@.len() ==> jwf((#[trigger] ae@[j]).1),
                    SpecJson::Obj(jview_obj(ae@)) == spec_merge(
                        SpecJson::Obj(ma0),
                        SpecJson::Obj(jview_obj(be0@.take(i))),
                    ),
                decreases be@.len(),
            {
                let (k, v) = be.remove(0);
                proof {
                    assert(k == be0@[i].0);
                    assert(v == be0@[i].1);
                    assert(decreases_to!(bwhole => bwhole->Object_0));
                    assert(bwhole->Object_0 == be0);
                    assert(decreases_to!(be0 => be0[i]));
                    assert(decreases_to!(be0[i] => be0[i].1));
                    assert(decreases_to!(bwhole => v));
                }
                let ghost mprev = jview_obj(be0@.take(i));
                proof {
                    // The incoming key is fresh among the entries already folded in.
                    lemma_jview_obj_contains(be0@.take(i), k@);
                    assert(forall|j: int|
                        0 <= j < i ==> (#[trigger] be0@.take(i)[j]).0@ == be0@[j].0@);
                    assert(!mprev.contains_key(k@));
                    lemma_spec_merge_insert(ma0, mprev, k@, jview(v));
                    lemma_jview_obj_contains(ae@, k@);
                }
                let found = obj_find(&ae, k.as_str());
                match found {
                    Some(jdx) => {
                        proof {
                            lemma_jview_obj_value(ae@, jdx as int);
                            assert(jview_obj(ae@) == spec_merge(
                                SpecJson::Obj(ma0),
                                SpecJson::Obj(mprev),
                            )->Obj_0);
                            assert(ma0.contains_key(k@));
                            assert(jview_obj(ae@)[k@] == ma0[k@]);
                        }
                        let ghost s0 = ae@;
                        let (k0, old_value) = ae.remove(jdx);
                        let merged = merge(old_value, v);
                        ae.insert(jdx, (k0, merged));
                        proof {
                            assert(ae@ =~= s0.update(jdx as int, (s0[jdx as int].0, merged)));
                            lemma_jview_obj_update(s0, jdx as int, merged);
                        }
                    },
                    None => {
                        proof {
                            assert(!ma0.contains_key(k@)) by {
                                assert(jview_obj(ae@) == spec_merge(
                                    SpecJson::Obj(ma0),
                                    SpecJson::Obj(mprev),
                                )->Obj_0);
                                lemma_jview_obj_contains(ae@, k@);
                            }
                            lemma_jview_obj_push(ae@, k, v);
                        }
                        ae.push((k, v));
                    },
                }
                proof {
                    assert(be0@.take(i + 1).drop_last() =~= be0@.take(i));
                    assert(be0@.take(i + 1).last() == be0@[i]);
                    assert(jview_obj(be0@.take(i + 1)) == mprev.insert(k@, jview(v)));
                    assert(SpecJson::Obj(jview_obj(ae@)) == spec_merge(
                        SpecJson::Obj(ma0),
                        SpecJson::Obj(jview_obj(be0@.take(i + 1))),
                    ));
                }
                proof {
                    i = i + 1;
                }
            }
            proof {
                assert(be0@.take(n) =~= be0@);
                assert(i as int == n);
            }
            JsonValue::Object(ae)
        },
        (other_a, other_b) => {
            proof {
                assert(other_b@ == spec_merge(awhole@, bwhole@));
            }
            other_b
        },
    }
}

/// Merging a value into itself gives it back unchanged.
pub proof fn lemma_merge_self(a: SpecJson)
    ensures
        spec_merge(a, a) == a,
    decreases a,
{
    match a {
        SpecJson::Obj(m) => {
            assert forall|k: Seq<char>| m.contains_key(k) implies #[trigger] spec_merge(
                a,
                a,
            )->Obj_0[k] == m[k] by {
                lemma_merge_self(m[k]);
            }
            assert(spec_merge(a, a)->Obj_0 =~= m);
        },
        _ => {},
    }
}

/// Merging a document in twice leaves what one merge produced: the second
/// merge of the same incoming value changes nothing.
pub proof fn lemma_merge_idempotent(a: SpecJson, b: SpecJson)
    ensures
        spec_merge(spec_merge(a, b), b) == spec_merge(a, b),
    decreases b,
{
    match b {
        SpecJson::Obj(mb) => {
            if a is Obj {
                let ma = a->Obj_0;
                let m1 = spec_merge(a, b)->Obj_0;
                let m2 = spec_merge(spec_merge(a, b), b)->Obj_0;
                assert forall|k: Seq<char>| m2.dom().contains(k) implies #[trigger] m2[k]
                    == m1[k] by {
                    if mb.contains_key(k) {
                        if ma.contains_key(k) {
                            lemma_merge_idempotent(ma[k], mb[k]);
                        } else {
                            lemma_merge_self(mb[k]);
                        }
                    }
                }
                assert(m2 =~= m1);
            } else {
                lemma_merge_self(b);
            }
        },
        _ => {},
    }
}

} // verus!
