//! The capability document and the dialect normalizer: a generic capability
//! container with typed setters and deep merge, and the pure function that
//! wraps a document into the dual-dialect negotiation envelope.

use crate::error::WebDriverResult;
use crate::proxy::{proxy_wire, AlertBehaviour, Proxy, ScrollBehaviour};
use crate::value::{
    jview, jview_arr, jview_obj, jwf, keys_unique, lemma_jview_obj_contains, lemma_jview_obj_push,
    lemma_jview_obj_value, merge, obj_get, obj_set, spec_merge, str_eq, JsonValue, SpecJson,
};
use vstd::prelude::*;
use vstd::string::StrSliceExecFns;

verus! {

/// The standardized capability names that pass into the envelope unchanged.
pub open spec fn is_w3c_name(k: Seq<char>) -> bool {
    ||| k == "acceptInsecureCerts"@
    ||| k == "browserName"@
    ||| k == "browserVersion"@
    ||| k == "platformName"@
    ||| k == "pageLoadStrategy"@
    ||| k == "proxy"@
    ||| k == "setWindowRect"@
    ||| k == "timeouts"@
    ||| k == "unhandledPromptBehavior"@
    ||| k == "strictFileInteractability"@
}

/// The conversion table from a legacy capability name to its standardized
/// counterpart.
pub open spec fn oss_to_w3c(k: Seq<char>) -> Option<Seq<char>> {
    if k == "acceptSslCerts"@ {
        Some("acceptInsecureCerts"@)
    } else if k == "version"@ {
        Some("browserVersion"@)
    } else if k == "platform"@ {
        Some("platformName"@)
    } else {
        None
    }
}

/// A key holding a colon is a vendor-namespaced extension key.
pub open spec fn contains_colon(k: Seq<char>) -> bool {
    exists|i: int| 0 <= i < k.len() && k[i] == ':'
}

/// A key that passes into the envelope unchanged: a standardized name, or a
/// vendor-namespaced extension key.
pub open spec fn passes_through(k: Seq<char>) -> bool {
    is_w3c_name(k) || contains_colon(k)
}

/// How one document entry contributes to `alwaysMatch`: a null value is
/// dropped; otherwise the conversion table and the passthrough rule fire
/// independently, and a key that neither covers is dropped.
pub open spec fn always_match_step(
    m: Map<Seq<char>, SpecJson>,
    k: Seq<char>,
    v: SpecJson,
) -> Map<Seq<char>, SpecJson> {
    if v is Null {
        m
    } else {
        let m1 = match oss_to_w3c(k) {
            Some(t) => m.insert(t, v),
            None => m,
        };
        if passes_through(k) {
            m1.insert(k, v)
        } else {
            m1
        }
    }
}

/// The `alwaysMatch` document built from the input document's entries, in
/// order.
pub open spec fn spec_always_match(s: Seq<(String, JsonValue)>) -> Map<Seq<char>, SpecJson>
    decreases s,
{
    if s.len() == 0 {
        Map::empty()
    } else {
        always_match_step(spec_always_match(s.drop_last()), s.last().0@, jview(s.last().1))
    }
}

/// The entries a document contributes to negotiation: those of an object,
/// nothing otherwise.
pub open spec fn spec_entries(v: JsonValue) -> Seq<(String, JsonValue)> {
    match v {
        JsonValue::Object(es) => es@,
        _ => Seq::empty(),
    }
}

/// The model of the full negotiation envelope for an input document.
pub open spec fn spec_w3c_envelope(input: JsonValue) -> SpecJson {
    SpecJson::Obj(
        Map::empty().insert(
            "firstMatch"@,
            SpecJson::Arr(Seq::empty().push(SpecJson::Obj(Map::empty()))),
        ).insert("alwaysMatch"@, SpecJson::Obj(spec_always_match(spec_entries(input)))),
    )
}

/// Whether a key slice holds a colon.
fn contains_colon_exec(s: &str) -> (r: bool)
    ensures
        r == contains_colon(s@),
{
    let n = s.unicode_len();
    let mut i: usize = 0;
    while i < n
        invariant
            i <= n,
            n == s@.len(),
            forall|j: int| 0 <= j < i ==> s@[j] != ':',
        decreases n - i,
    {
        if s.get_char(i) == ':' {
            return true;
        }
        i += 1;
    }
    false
}

/// Whether a key is one of the standardized capability names.
fn is_w3c_name_exec(k: &str) -> (r: bool)
    ensures
        r == is_w3c_name(k@),
{
    str_eq(k, "acceptInsecureCerts") || str_eq(k, "browserName") || str_eq(k, "browserVersion")
        || str_eq(k, "platformName") || str_eq(k, "pageLoadStrategy") || str_eq(k, "proxy")
        || str_eq(k, "setWindowRect") || str_eq(k, "timeouts") || str_eq(
        k,
        "unhandledPromptBehavior",
    ) || str_eq(k, "strictFileInteractability")
}

/// Wrap a capability document into the dual-dialect negotiation envelope:
/// `firstMatch` is a one-element sequence holding an empty mapping, and
/// `alwaysMatch` holds every non-null entry reachable through the conversion
/// table or the passthrough rule.
pub fn make_w3c_caps(caps: &JsonValue) -> (r: JsonValue)
    ensures
        r@ == spec_w3c_envelope(*caps),
        jwf(*caps) ==> jwf(r),
{
    let mut am: Vec<(String, JsonValue)> = Vec::new();
    match caps {
        JsonValue::Object(es) => {
            let n = es.len();
            let mut i: usize = 0;
            proof {
                assert(es@.take(0) =~= Seq::<(String, JsonValue)>::empty());
            }
            while i < n
                invariant
                    i <= n,
                    n == es@.len(),
                    *caps == JsonValue::Object(*es),
                    keys_unique(am@),
                    jview_obj(am@) == spec_always_match(es@.take(i as int)),
                    (jwf(*caps) ==> forall|j: int|
                        0 <= j < am@.len() ==> jwf((#[trigger] am@[j]).1)),
                decreases n - i,
            {
                let k = &es[i].0;
                let v = &es[i].1;
                let ghost mprev = jview_obj(am@);
                let is_null = matches!(v, JsonValue::Null);
                proof {
                    assert(is_null == (jview(es@[i as int].1) is Null));
                }
                if !is_null {
                    if str_eq(k.as_str(), "acceptSslCerts") {
                        obj_set(&mut am, "acceptInsecureCerts".to_owned(), v.deep_clone());
                    } else if str_eq(k.as_str(), "version") {
                        obj_set(&mut am, "browserVersion".to_owned(), v.deep_clone());
                    } else if str_eq(k.as_str(), "platform") {
                        obj_set(&mut am, "platformName".to_owned(), v.deep_clone());
                    }
                    if is_w3c_name_exec(k.as_str()) || contains_colon_exec(k.as_str()) {
                        obj_set(&mut am, k.clone(), v.deep_clone());
                    }
                }
                proof {
                    assert(jview_obj(am@) == always_match_step(
                        mprev,
                        es@[i as int].0@,
                        jview(es@[i as int].1),
                    ));
                    assert(es@.take(i as int + 1).drop_last() =~= es@.take(i as int));
                    assert(es@.take(i as int + 1).last() == es@[i as int]);
                }
                i += 1;
            }
            proof {
                assert(es@.take(n as int) =~= es@);
            }
        },
        _ => {
            proof {
                assert(spec_entries(*caps) =~= Seq::<(String, JsonValue)>::empty());
            }
        },
    }
    let empty_obj: Vec<(String, JsonValue)> = Vec::new();
    let mut first_match: Vec<JsonValue> = Vec::new();
    proof {
        assert(jview_obj(empty_obj@) =~= Map::<Seq<char>, SpecJson>::empty());
    }
    first_match.push(JsonValue::Object(empty_obj));
    let ghost g_first = first_match@;
    let mut top: Vec<(String, JsonValue)> = Vec::new();
    let fm_key = "firstMatch".to_owned();
    let fm_val = JsonValue::Array(first_match);
    proof {
        lemma_jview_obj_push(top@, fm_key, fm_val);
    }
    top.push((fm_key, fm_val));
    let ghost g_am = am@;
    let am_key = "alwaysMatch".to_owned();
    let am_val = JsonValue::Object(am);
    proof {
        lemma_jview_obj_push(top@, am_key, am_val);
    }
    top.push((am_key, am_val));
    let r = JsonValue::Object(top);
    proof {
        assert(g_first.drop_last() =~= Seq::<JsonValue>::empty());
        assert(g_first[0]->Object_0@ =~= Seq::<(String, JsonValue)>::empty());
        assert(jview_obj(g_first[0]->Object_0@) =~= Map::<Seq<char>, SpecJson>::empty());
        assert(jview(g_first[0]) == SpecJson::Obj(jview_obj(g_first[0]->Object_0@)));
        assert(g_first.last() == g_first[0]);
        assert(jview_arr(g_first) == jview_arr(g_first.drop_last()).push(jview(g_first.last())));
        assert(jview_arr(g_first.drop_last()) =~= Seq::<SpecJson>::empty());
        assert(jview_arr(g_first) =~~= Seq::<SpecJson>::empty().push(SpecJson::Obj(Map::empty())));
        reveal_strlit("firstMatch");
        reveal_strlit("alwaysMatch");
        assert("firstMatch"@.len() == 10);
        assert("alwaysMatch"@.len() == 11);
        assert("firstMatch"@ != "alwaysMatch"@);
        assert(r@ =~~= spec_w3c_envelope(*caps));
        if jwf(*caps) {
            assert(keys_unique(top@));
            assert(jwf(top@[0].1)) by {
                assert(top@[0].1->Array_0@ == g_first);
                assert(forall|j: int| 0 <= j < g_first.len() ==> jwf(#[trigger] g_first[j]));
            }
            assert(jwf(top@[1].1)) by {
                assert(top@[1].1->Object_0@ == g_am);
            }
            assert(forall|j: int| 0 <= j < top@.len() ==> jwf((#[trigger] top@[j]).1));
        }
    }
    r
}

/// Whether a document entry with key `k` and value `v` writes the envelope
/// key `k2`: null values write nothing; otherwise the conversion table
/// writes the converted name and the passthrough rule the key itself.
pub open spec fn entry_yields(k: Seq<char>, v: SpecJson, k2: Seq<char>) -> bool {
    !(v is Null) && (oss_to_w3c(k) == Some(k2) || (passes_through(k) && k == k2))
}

/// `alwaysMatch` binds exactly the keys that some input entry yields.
pub proof fn lemma_always_match_dom(s: Seq<(String, JsonValue)>, k2: Seq<char>)
    ensures
        spec_always_match(s).contains_key(k2) <==> exists|i: int|
            0 <= i < s.len() && #[trigger] entry_yields(s[i].0@, jview(s[i].1), k2),
    decreases s.len(),
{
    if s.len() > 0 {
        lemma_always_match_dom(s.drop_last(), k2);
        let last = s.len() - 1;
        if entry_yields(s[last].0@, jview(s[last].1), k2) {
            assert(spec_always_match(s).contains_key(k2));
        } else {
            if exists|i: int| 0 <= i < s.drop_last().len() && entry_yields(
                #[trigger] s.drop_last()[i].0@,
                jview(s.drop_last()[i].1),
                k2,
            ) {
                let i = choose|i: int|
                    0 <= i < s.drop_last().len() && entry_yields(
                        #[trigger] s.drop_last()[i].0@,
                        jview(s.drop_last()[i].1),
                        k2,
                    );
                assert(entry_yields(s[i].0@, jview(s[i].1), k2));
            }
            if exists|i: int| 0 <= i < s.len() && entry_yields(
                #[trigger] s[i].0@,
                jview(s[i].1),
                k2,
            ) {
                let i = choose|i: int|
                    0 <= i < s.len() && entry_yields(#[trigger] s[i].0@, jview(s[i].1), k2);
                assert(entry_yields(s.drop_last()[i].0@, jview(s.drop_last()[i].1), k2));
            }
        }
    }
}

/// Where exactly one input entry yields an envelope key, `alwaysMatch`
/// binds that key to that entry's value.
pub proof fn lemma_always_match_value(s: Seq<(String, JsonValue)>, i: int, k2: Seq<char>)
    requires
        0 <= i < s.len(),
        entry_yields(s[i].0@, jview(s[i].1), k2),
        forall|j: int| 0 <= j < s.len() && j != i ==> !entry_yields(
            #[trigger] s[j].0@,
            jview(s[j].1),
            k2,
        ),
    ensures
        spec_always_match(s).contains_key(k2),
        spec_always_match(s)[k2] == jview(s[i].1),
    decreases s.len(),
{
    let last = s.len() - 1;
    if i == last {
    } else {
        assert(s.drop_last()[i] == s[i]);
        assert(forall|j: int| 0 <= j < s.drop_last().len() && j != i ==> !entry_yields(
            (#[trigger] s.drop_last()[j]).0@,
            jview(s.drop_last()[j].1),
            k2,
        ));
        lemma_always_match_value(s.drop_last(), i, k2);
        assert(!entry_yields(s[last].0@, jview(s[last].1), k2));
    }
}

/// The capability mapping a document value denotes: the entries of an
/// object, nothing otherwise.
pub open spec fn spec_doc_map(v: SpecJson) -> Map<Seq<char>, SpecJson> {
    match v {
        SpecJson::Obj(m) => m,
        _ => Map::empty(),
    }
}

/// Whether some binding of a capability mapping yields the envelope key
/// `k2` under the conversion or passthrough rule.
pub open spec fn map_yields(m: Map<Seq<char>, SpecJson>, k2: Seq<char>) -> bool {
    exists|k: Seq<char>| #[trigger] m.contains_key(k) && entry_yields(k, m[k], k2)
}

/// For a well-formed document, the envelope's `alwaysMatch` binds exactly
/// the keys that some binding of the document's mapping yields: membership
/// does not depend on the order the document stores its entries in.
pub proof fn lemma_envelope_dom(doc: JsonValue, k2: Seq<char>)
    requires
        jwf(doc),
    ensures
        spec_always_match(spec_entries(doc)).contains_key(k2) <==> map_yields(
            spec_doc_map(jview(doc)),
            k2,
        ),
{
    lemma_always_match_dom(spec_entries(doc), k2);
    match doc {
        JsonValue::Object(es) => {
            let m = jview_obj(es@);
            if exists|i: int| 0 <= i < es@.len() && entry_yields(
                (#[trigger] es@[i]).0@,
                jview(es@[i].1),
                k2,
            ) {
                let i = choose|i: int|
                    0 <= i < es@.len() && entry_yields(
                        (#[trigger] es@[i]).0@,
                        jview(es@[i].1),
                        k2,
                    );
                lemma_jview_obj_value(es@, i);
                assert(m.contains_key(es@[i].0@) && entry_yields(es@[i].0@, m[es@[i].0@], k2));
            }
            if map_yields(m, k2) {
                let k = choose|k: Seq<char>| #[trigger] m.contains_key(k) && entry_yields(
                    k,
                    m[k],
                    k2,
                );
                lemma_jview_obj_contains(es@, k);
                let i = choose|i: int| 0 <= i < es@.len() && (#[trigger] es@[i]).0@ == k;
                lemma_jview_obj_value(es@, i);
                assert(entry_yields(es@[i].0@, jview(es@[i].1), k2));
            }
        },
        _ => {
            assert(spec_entries(doc) =~= Seq::<(String, JsonValue)>::empty());
        },
    }
}

/// For a well-formed document, where exactly one binding of the document's
/// mapping yields an envelope key, `alwaysMatch` binds that key to that
/// binding's value, whatever order the document stores its entries in.
pub proof fn lemma_envelope_value(doc: JsonValue, k: Seq<char>, k2: Seq<char>)
    requires
        jwf(doc),
        spec_doc_map(jview(doc)).contains_key(k),
        entry_yields(k, spec_doc_map(jview(doc))[k], k2),
        forall|k3: Seq<char>|
            spec_doc_map(jview(doc)).contains_key(k3) && k3 != k ==> !entry_yields(
                k3,
                #[trigger] spec_doc_map(jview(doc))[k3],
                k2,
            ),
    ensures
        spec_always_match(spec_entries(doc)).contains_key(k2),
        spec_always_match(spec_entries(doc))[k2] == spec_doc_map(jview(doc))[k],
{
    match doc {
        JsonValue::Object(es) => {
            let m = jview_obj(es@);
            lemma_jview_obj_contains(es@, k);
            let i = choose|i: int| 0 <= i < es@.len() && (#[trigger] es@[i]).0@ == k;
            lemma_jview_obj_value(es@, i);
            assert(entry_yields(es@[i].0@, jview(es@[i].1), k2));
            assert forall|j: int| 0 <= j < es@.len() && j != i implies !entry_yields(
                (#[trigger] es@[j]).0@,
                jview(es@[j].1),
                k2,
            ) by {
                lemma_jview_obj_value(es@, j);
                assert(es@[j].0@ != k);
                assert(m.contains_key(es@[j].0@) && m[es@[j].0@] == jview(es@[j].1));
            }
            lemma_always_match_value(es@, i, k2);
        },
        _ => {
            assert(!spec_doc_map(jview(doc)).contains_key(k));
        },
    }
}

/// A valid capability container: a well-formed object, or null (treated as
/// the empty mapping until the first insertion).
pub open spec fn doc_wf(v: JsonValue) -> bool {
    jwf(v) && (v is Object || v is Null)
}

/// The nested mapping after binding `sk` under `k`: a fresh one-entry
/// mapping where `k` was absent or null, the extended existing mapping
/// where `k` held an object.
pub open spec fn spec_add_subkey(
    m: Map<Seq<char>, SpecJson>,
    k: Seq<char>,
    sk: Seq<char>,
    v: SpecJson,
) -> Map<Seq<char>, SpecJson> {
    if m.contains_key(k) && m[k] is Obj {
        m.insert(k, SpecJson::Obj(m[k]->Obj_0.insert(sk, v)))
    } else {
        m.insert(k, SpecJson::Obj(Map::empty().insert(sk, v)))
    }
}

/// The boolean capability bound to `k`, if any: absent or non-boolean
/// values give nothing.
pub open spec fn spec_bool_cap(m: Map<Seq<char>, SpecJson>, k: Seq<char>) -> Option<bool> {
    if m.contains_key(k) && m[k] is Bool {
        Some(m[k]->Bool_0)
    } else {
        None
    }
}

/// A generic, order-preserving capability container. Built directly or by a
/// browser-preset builder, mutated through typed setters and bulk merge, and
/// consumed at request-build time.
#[derive(Debug, PartialEq)]
pub struct DesiredCapabilities {
    capabilities: JsonValue,
}

impl Clone for DesiredCapabilities {
    /// The clone holds the same capability mapping.
    fn clone(&self) -> (r: Self)
        ensures
            r.cap_map() == self.cap_map(),
            self.wf() ==> r.wf(),
    {
        DesiredCapabilities { capabilities: self.capabilities.clone() }
    }
}

impl DesiredCapabilities {
    /// The capability mapping this container holds.
    pub closed spec fn cap_map(&self) -> Map<Seq<char>, SpecJson> {
        spec_doc_map(self.capabilities@)
    }

    /// The container holds a valid document.
    pub closed spec fn wf(&self) -> bool {
        doc_wf(self.capabilities)
    }

    /// Create a container around a caller-supplied document.
    pub fn new(capabilities: JsonValue) -> (r: Self)
        ensures
            r.cap_map() == spec_doc_map(capabilities@),
            r.wf() == doc_wf(capabilities),
    {
        DesiredCapabilities { capabilities }
    }

    /// The underlying document, by reference.
    pub fn get(&self) -> (r: &JsonValue)
        ensures
            spec_doc_map((*r)@) == self.cap_map(),
            self.wf() ==> doc_wf(*r),
    {
        &self.capabilities
    }

    /// Bind `key` to `value`, overwriting an existing binding. Every value
    /// of the document model can be represented, so this always succeeds.
    pub fn add(&mut self, key: &str, value: JsonValue) -> (r: WebDriverResult<()>)
        requires
            old(self).wf(),
            jwf(value),
        ensures
            r is Ok,
            final(self).wf(),
            final(self).cap_map() == old(self).cap_map().insert(key@, value@),
    {
        let mut doc = JsonValue::Null;
        core::mem::swap(&mut doc, &mut self.capabilities);
        match doc {
            JsonValue::Object(mut es) => {
                obj_set(&mut es, key.to_owned(), value);
                self.capabilities = JsonValue::Object(es);
            },
            _ => {
                let mut es: Vec<(String, JsonValue)> = Vec::new();
                proof {
                    assert(jview_obj(es@) =~= Map::<Seq<char>, SpecJson>::empty());
                }
                obj_set(&mut es, key.to_owned(), value);
                self.capabilities = JsonValue::Object(es);
            },
        }
        Ok(())
    }

    /// Bind `subkey` to `value` inside the nested mapping under `key`: where
    /// `key` is absent or null a fresh one-entry mapping is created, where it
    /// holds an object that object is extended. Always succeeds on those
    /// documents.
    pub fn add_subkey(&mut self, key: &str, subkey: &str, value: JsonValue) -> (r: WebDriverResult<
        (),
    >)
        requires
            old(self).wf(),
            jwf(value),
            old(self).cap_map().contains_key(key@) ==> (old(self).cap_map()[key@] is Obj || old(
                self,
            ).cap_map()[key@] is Null),
        ensures
            r is Ok,
            final(self).wf(),
            final(self).cap_map() == spec_add_subkey(old(self).cap_map(), key@, subkey@, value@),
    {
        let mut ns: Vec<(String, JsonValue)> = Vec::new();
        proof {
            assert(jview_obj(ns@) =~= Map::<Seq<char>, SpecJson>::empty());
        }
        match &self.capabilities {
            JsonValue::Object(es) => {
                match obj_get(es, key) {
                    Some(v) => {
                        match v {
                            JsonValue::Object(_) => {
                                let cloned = v.deep_clone();
                                match cloned {
                                    JsonValue::Object(nsv) => {
                                        ns = nsv;
                                    },
                                    _ => {
                                        proof {
                                            assert(false);
                                        }
                                    },
                                }
                            },
                            JsonValue::Null => {},
                            _ => {
                                // Ruled out by the precondition on the value under `key`.
                                proof {
                                    assert(false);
                                }
                            },
                        }
                    },
                    None => {},
                }
            },
            _ => {},
        }
        obj_set(&mut ns, subkey.to_owned(), value);
        self.add(key, JsonValue::Object(ns))
    }

    /// Deep-merge an incoming document into this one: nested objects are
    /// merged recursively, every other incoming value replaces the existing
    /// one. The incoming value must itself be a mapping.
    pub fn update(&mut self, value: JsonValue)
        requires
            old(self).wf(),
            jwf(value),
            value is Object,
        ensures
            final(self).wf(),
            SpecJson::Obj(final(self).cap_map()) == spec_merge(
                SpecJson::Obj(old(self).cap_map()),
                value@,
            ),
    {
        let mut doc = JsonValue::Null;
        core::mem::swap(&mut doc, &mut self.capabilities);
        let ghost gdoc = doc;
        let merged = merge(doc, value);
        proof {
            if gdoc is Null {
                assert(spec_merge(SpecJson::Obj(Map::empty()), value@)->Obj_0 =~= value@->Obj_0);
                assert(merged@ == spec_merge(SpecJson::Obj(spec_doc_map(gdoc@)), value@));
            }
        }
        self.capabilities = merged;
    }

    /// Set the desired browser version, under its legacy-dialect key.
    pub fn set_version(&mut self, version: &str) -> (r: WebDriverResult<()>)
        requires
            old(self).wf(),
        ensures
            r is Ok,
            final(self).wf(),
            final(self).cap_map() == old(self).cap_map().insert(
                "version"@,
                SpecJson::Str(version@),
            ),
    {
        self.add("version", JsonValue::Str(version.to_owned()))
    }

    /// Set the desired platform, under its legacy-dialect key.
    pub fn set_platform(&mut self, platform: &str) -> (r: WebDriverResult<()>)
        requires
            old(self).wf(),
        ensures
            r is Ok,
            final(self).wf(),
            final(self).cap_map() == old(self).cap_map().insert(
                "platform"@,
                SpecJson::Str(platform@),
            ),
    {
        self.add("platform", JsonValue::Str(platform.to_owned()))
    }

    /// Set whether the session supports executing user-supplied Javascript.
    pub fn set_javascript_enabled(&mut self, enabled: bool) -> (r: WebDriverResult<()>)
        requires
            old(self).wf(),
        ensures
            r is Ok,
            final(self).wf(),
            final(self).cap_map() == old(self).cap_map().insert(
                "javascriptEnabled"@,
                SpecJson::Bool(enabled),
            ),
    {
        self.add("javascriptEnabled", JsonValue::Bool(enabled))
    }

    /// Set whether the session can interact with database storage.
    pub fn set_database_enabled(&mut self, enabled: bool) -> (r: WebDriverResult<()>)
        requires
            old(self).wf(),
        ensures
            r is Ok,
            final(self).wf(),
            final(self).cap_map() == old(self).cap_map().insert(
                "databaseEnabled"@,
                SpecJson::Bool(enabled),
            ),
    {
        self.add("databaseEnabled", JsonValue::Bool(enabled))
    }

    /// Set whether the session can set and query the browser's location.
    pub fn set_location_context_enabled(&mut self, enabled: bool) -> (r: WebDriverResult<()>)
        requires
            old(self).wf(),
        ensures
            r is Ok,
            final(self).wf(),
            final(self).cap_map() == old(self).cap_map().insert(
                "locationContextEnabled"@,
                SpecJson::Bool(enabled),
            ),
    {
        self.add("locationContextEnabled", JsonValue::Bool(enabled))
    }

    /// Set whether the session can interact with the application cache.
    pub fn set_application_cache_enabled(&mut self, enabled: bool) -> (r: WebDriverResult<()>)
        requires
            old(self).wf(),
        ensures
            r is Ok,
            final(self).wf(),
            final(self).cap_map() == old(self).cap_map().insert(
                "applicationCacheEnabled"@,
                SpecJson::Bool(enabled),
            ),
    {
        self.add("applicationCacheEnabled", JsonValue::Bool(enabled))
    }

    /// Set whether the session can query and disable browser connectivity.
    pub fn set_browser_connection_enabled(&mut self, enabled: bool) -> (r: WebDriverResult<()>)
        requires
            old(self).wf(),
        ensures
            r is Ok,
            final(self).wf(),
            final(self).cap_map() == old(self).cap_map().insert(
                "browserConnectionEnabled"@,
                SpecJson::Bool(enabled),
            ),
    {
        self.add("browserConnectionEnabled", JsonValue::Bool(enabled))
    }

    /// Set whether the session supports interacting with local storage.
    pub fn set_web_storage_enabled(&mut self, enabled: bool) -> (r: WebDriverResult<()>)
        requires
            old(self).wf(),
        ensures
            r is Ok,
            final(self).wf(),
            final(self).cap_map() == old(self).cap_map().insert(
                "webStorageEnabled"@,
                SpecJson::Bool(enabled),
            ),
    {
        self.add("webStorageEnabled", JsonValue::Bool(enabled))
    }

    /// Set whether the session accepts all SSL certificates by default,
    /// under its legacy-dialect key.
    pub fn accept_ssl_certs(&mut self, enabled: bool) -> (r: WebDriverResult<()>)
        requires
            old(self).wf(),
        ensures
            r is Ok,
            final(self).wf(),
            final(self).cap_map() == old(self).cap_map().insert(
                "acceptSslCerts"@,
                SpecJson::Bool(enabled),
            ),
    {
        self.add("acceptSslCerts", JsonValue::Bool(enabled))
    }

    /// Set whether the session can rotate the page between portrait and
    /// landscape. Only applies to mobile platforms.
    pub fn set_rotatable(&mut self, enabled: bool) -> (r: WebDriverResult<()>)
        requires
            old(self).wf(),
        ensures
            r is Ok,
            final(self).wf(),
            final(self).cap_map() == old(self).cap_map().insert(
                "rotatable"@,
                SpecJson::Bool(enabled),
            ),
    {
        self.add("rotatable", JsonValue::Bool(enabled))
    }

    /// Set whether the session generates native events for simulated input.
    pub fn set_native_events(&mut self, enabled: bool) -> (r: WebDriverResult<()>)
        requires
            old(self).wf(),
        ensures
            r is Ok,
            final(self).wf(),
            final(self).cap_map() == old(self).cap_map().insert(
                "nativeEvents"@,
                SpecJson::Bool(enabled),
            ),
    {
        self.add("nativeEvents", JsonValue::Bool(enabled))
    }

    /// Set the proxy to use, in its fixed wire shape.
    pub fn set_proxy(&mut self, proxy: Proxy) -> (r: WebDriverResult<()>)
        requires
            old(self).wf(),
        ensures
            r is Ok,
            final(self).wf(),
            final(self).cap_map() == old(self).cap_map().insert("proxy"@, proxy_wire(proxy)),
    {
        let value = proxy.to_json();
        self.add("proxy", value)
    }

    /// Set the policy followed when an unexpected alert is encountered.
    pub fn set_unexpected_alert_behaviour(&mut self, behaviour: AlertBehaviour) -> (r:
        WebDriverResult<()>)
        requires
            old(self).wf(),
        ensures
            r is Ok,
            final(self).wf(),
            final(self).cap_map() == old(self).cap_map().insert(
                "unexpectedAlertBehaviour"@,
                SpecJson::Str(behaviour.wire()),
            ),
    {
        let value = behaviour.to_json();
        self.add("unexpectedAlertBehaviour", value)
    }

    /// Set whether elements scroll to align with the top or the bottom of
    /// the viewport for interaction. The default aligns with the top.
    pub fn set_element_scroll_behaviour(&mut self, behaviour: ScrollBehaviour) -> (r:
        WebDriverResult<()>)
        requires
            old(self).wf(),
        ensures
            r is Ok,
            final(self).wf(),
            final(self).cap_map() == old(self).cap_map().insert(
                "elementScrollBehavior"@,
                SpecJson::Int(behaviour.wire()),
            ),
    {
        let value = behaviour.to_json();
        self.add("elementScrollBehavior", value)
    }

    /// Whether the session can interact with modal popups, if stated as a
    /// boolean capability.
    pub fn handles_alerts(&self) -> (r: Option<bool>)
        requires
            self.wf(),
        ensures
            r == spec_bool_cap(self.cap_map(), "handlesAlerts"@),
    {
        self.bool_cap("handlesAlerts")
    }

    /// Whether the session supports CSS selectors when searching for
    /// elements, if stated as a boolean capability.
    pub fn css_selectors_enabled(&self) -> (r: Option<bool>)
        requires
            self.wf(),
        ensures
            r == spec_bool_cap(self.cap_map(), "cssSelectorsEnabled"@),
    {
        self.bool_cap("cssSelectorsEnabled")
    }

    /// The boolean capability bound to `key`, if any.
    fn bool_cap(&self, key: &str) -> (r: Option<bool>)
        requires
            self.wf(),
        ensures
            r == spec_bool_cap(self.cap_map(), key@),
    {
        match &self.capabilities {
            JsonValue::Object(es) => {
                match obj_get(es, key) {
                    Some(v) => match v {
                        JsonValue::Bool(b) => Some(*b),
                        _ => None,
                    },
                    _ => None,
                }
            },
            _ => None,
        }
    }
}

} // verus!
