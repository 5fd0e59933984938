//! The normalized configuration document.
//!
//! A provider's configuration and a tool's live configuration are both
//! held as a [`Doc`]: a JSON-like value restricted to what the engine
//! actually inspects.  Objects are association lists with unique keys;
//! every value the engine never looks inside (numbers, booleans,
//! arrays) is carried opaquely as its serialized text in
//! [`Doc::Literal`].  The mathematical model is the mirror datatype
//! [`DocV`] over character sequences.

use vstd::prelude::*;
use crate::strutil::str_eq;

verus! {

/// The mathematical model of a document value.
pub enum DocV {
    Null,
    Text(Seq<char>),
    Literal(Seq<char>),
    Obj(ObjV),
}

/// The mathematical model of a document object: an association list.
pub enum ObjV {
    Nil,
    Entry(Seq<char>, Box<DocV>, Box<ObjV>),
}

impl ObjV {
    /// The value bound to `k`, taking the first matching entry.
    pub open spec fn lookup(self, k: Seq<char>) -> Option<DocV>
        decreases self,
    {
        match self {
            ObjV::Nil => None,
            ObjV::Entry(key, v, rest) => if key == k {
                Some(*v)
            } else {
                rest.lookup(k)
            },
        }
    }

    pub open spec fn contains_key(self, k: Seq<char>) -> bool {
        self.lookup(k) is Some
    }

    /// Replaces the binding of `k` in place, or appends it at the end.
    pub open spec fn upsert(self, k: Seq<char>, v: DocV) -> ObjV
        decreases self,
    {
        match self {
            ObjV::Nil => ObjV::Entry(k, Box::new(v), Box::new(ObjV::Nil)),
            ObjV::Entry(key, val, rest) => if key == k {
                ObjV::Entry(key, Box::new(v), rest)
            } else {
                ObjV::Entry(key, val, Box::new(rest.upsert(k, v)))
            },
        }
    }

    /// Removes the binding of `k`, if any.
    pub open spec fn remove(self, k: Seq<char>) -> ObjV
        decreases self,
    {
        match self {
            ObjV::Nil => ObjV::Nil,
            ObjV::Entry(key, val, rest) => if key == k {
                *rest
            } else {
                ObjV::Entry(key, val, Box::new(rest.remove(k)))
            },
        }
    }

    /// Well-formed: keys are unique and every value is well-formed.
    pub open spec fn wf(self) -> bool
        decreases self,
    {
        match self {
            ObjV::Nil => true,
            ObjV::Entry(key, val, rest) => !rest.contains_key(key) && val.wf() && rest.wf(),
        }
    }
}

impl DocV {
    /// The value bound to `k` when this is an object, else nothing.
    pub open spec fn get(self, k: Seq<char>) -> Option<DocV> {
        match self {
            DocV::Obj(o) => o.lookup(k),
            _ => None,
        }
    }

    pub open spec fn is_object(self) -> bool {
        self is Obj
    }

    /// Well-formed: every object in the document has unique keys.
    pub open spec fn wf(self) -> bool
        decreases self,
    {
        match self {
            DocV::Obj(o) => o.wf(),
            _ => true,
        }
    }
}

/// A JSON-like configuration document.
#[derive(Debug)]
pub enum Doc {
    Null,
    /// A JSON string value.
    Text(String),
    /// Any other non-object value (number, boolean, array), carried
    /// opaquely as its serialized text.
    Literal(String),
    Obj(DocObj),
}

/// An object: an association list of keys and documents.
#[derive(Debug)]
pub enum DocObj {
    Nil,
    Entry(String, Box<Doc>, Box<DocObj>),
}

pub open spec fn view_doc(d: Doc) -> DocV
    decreases d,
{
    match d {
        Doc::Null => DocV::Null,
        Doc::Text(s) => DocV::Text(s@),
        Doc::Literal(s) => DocV::Literal(s@),
        Doc::Obj(o) => DocV::Obj(view_obj(o)),
    }
}

pub open spec fn view_obj(o: DocObj) -> ObjV
    decreases o,
{
    match o {
        DocObj::Nil => ObjV::Nil,
        DocObj::Entry(k, v, rest) => ObjV::Entry(
            k@,
            Box::new(view_doc(*v)),
            Box::new(view_obj(*rest)),
        ),
    }
}

impl View for Doc {
    type V = DocV;

    open spec fn view(&self) -> DocV {
        view_doc(*self)
    }
}

impl View for DocObj {
    type V = ObjV;

    open spec fn view(&self) -> ObjV {
        view_obj(*self)
    }
}

impl Clone for DocObj {
    fn clone(&self) -> (r: Self)
        ensures
            r@ == self@,
        decreases *self,
    {
        match self {
            DocObj::Nil => DocObj::Nil,
            DocObj::Entry(k, v, rest) => DocObj::Entry(
                k.clone(),
                Box::new((**v).clone()),
                Box::new((**rest).clone()),
            ),
        }
    }
}

impl Clone for Doc {
    fn clone(&self) -> (r: Self)
        ensures
            r@ == self@,
        decreases *self,
    {
        match self {
            Doc::Null => Doc::Null,
            Doc::Text(s) => Doc::Text(s.clone()),
            Doc::Literal(s) => Doc::Literal(s.clone()),
            Doc::Obj(o) => Doc::Obj(o.clone()),
        }
    }
}

impl DocObj {
    /// The empty object.
    pub fn empty() -> (r: DocObj)
        ensures
            r@ == ObjV::Nil,
    {
        DocObj::Nil
    }

    /// The value bound to `key`, taking the first matching entry.
    pub fn get<'a>(&'a self, key: &str) -> (r: Option<&'a Doc>)
        ensures
            match r {
                Some(v) => self@.lookup(key@) == Some(v@),
                None => self@.lookup(key@) is None,
            },
        decreases *self,
    {
        match self {
            DocObj::Nil => None,
            DocObj::Entry(k, v, rest) => if str_eq(k.as_str(), key) {
                Some(&**v)
            } else {
                rest.get(key)
            },
        }
    }

    /// Replaces the binding of `key` in place, or appends it at the end.
    pub fn upsert(self, key: String, val: Doc) -> (r: DocObj)
        ensures
            r@ == self@.upsert(key@, val@),
        decreases self,
    {
        match self {
            DocObj::Nil => DocObj::Entry(key, Box::new(val), Box::new(DocObj::Nil)),
            DocObj::Entry(k, v, rest) => if str_eq(k.as_str(), key.as_str()) {
                DocObj::Entry(k, Box::new(val), rest)
            } else {
                DocObj::Entry(k, v, Box::new(rest.upsert(key, val)))
            },
        }
    }

    /// Removes the binding of `key`, if any.
    pub fn remove(self, key: &str) -> (r: DocObj)
        ensures
            r@ == self@.remove(key@),
        decreases self,
    {
        match self {
            DocObj::Nil => DocObj::Nil,
            DocObj::Entry(k, v, rest) => if str_eq(k.as_str(), key) {
                *rest
            } else {
                DocObj::Entry(k, v, Box::new(rest.remove(key)))
            },
        }
    }
}

impl Doc {
    /// The empty object document.
    pub fn empty_object() -> (r: Doc)
        ensures
            r@ == DocV::Obj(ObjV::Nil),
    {
        Doc::Obj(DocObj::Nil)
    }

    pub fn is_object(&self) -> (r: bool)
        ensures
            r == self@.is_object(),
    {
        match self {
            Doc::Obj(_) => true,
            _ => false,
        }
    }

    pub fn is_null(&self) -> (r: bool)
        ensures
            r == (self@ is Null),
    {
        match self {
            Doc::Null => true,
            _ => false,
        }
    }

    /// The string content when this is a JSON string value.
    pub fn as_text<'a>(&'a self) -> (r: Option<&'a String>)
        ensures
            match r {
                Some(s) => self@ == DocV::Text(s@),
                None => !(self@ is Text),
            },
    {
        match self {
            Doc::Text(s) => Some(s),
            _ => None,
        }
    }

    /// The object content when this is an object.
    pub fn as_object<'a>(&'a self) -> (r: Option<&'a DocObj>)
        ensures
            match r {
                Some(o) => self@ == DocV::Obj(o@),
                None => !(self@ is Obj),
            },
    {
        match self {
            Doc::Obj(o) => Some(o),
            _ => None,
        }
    }

    /// The value bound to `key` when this is an object.
    pub fn get<'a>(&'a self, key: &str) -> (r: Option<&'a Doc>)
        ensures
            match r {
                Some(v) => self@.get(key@) == Some(v@),
                None => self@.get(key@) is None,
            },
    {
        match self {
            Doc::Obj(o) => o.get(key),
            _ => None,
        }
    }
}

/// Character-wise document equality, decided executably.
pub fn doc_eq(a: &Doc, b: &Doc) -> (r: bool)
    ensures
        r == (a@ == b@),
    decreases *a,
{
    match (a, b) {
        (Doc::Null, Doc::Null) => true,
        (Doc::Text(x), Doc::Text(y)) => str_eq(x.as_str(), y.as_str()),
        (Doc::Literal(x), Doc::Literal(y)) => str_eq(x.as_str(), y.as_str()),
        (Doc::Obj(x), Doc::Obj(y)) => obj_eq(x, y),
        _ => {
            assert(a@ != b@);
            false
        },
    }
}

/// Character-wise object equality, decided executably.
pub fn obj_eq(a: &DocObj, b: &DocObj) -> (r: bool)
    ensures
        r == (a@ == b@),
    decreases *a,
{
    match (a, b) {
        (DocObj::Nil, DocObj::Nil) => true,
        (DocObj::Entry(ka, va, ra), DocObj::Entry(kb, vb, rb)) => str_eq(
            ka.as_str(),
            kb.as_str(),
        ) && doc_eq(&**va, &**vb) && obj_eq(&**ra, &**rb),
        _ => {
            assert(a@ != b@);
            false
        },
    }
}

/// Recursive object-wise merge: where both sides bind a key to an
/// object the two are merged recursively, otherwise the patch value
/// wins; keys only in the base are kept.
pub open spec fn merge_doc(base: DocV, next: DocV) -> DocV
    decreases next,
{
    match (base, next) {
        (DocV::Obj(b), DocV::Obj(n)) => DocV::Obj(merge_obj(b, n)),
        _ => next,
    }
}

/// The object half of [`merge_doc`]: folds the patch entries into the
/// base, left to right.
pub open spec fn merge_obj(base: ObjV, next: ObjV) -> ObjV
    decreases next,
{
    match next {
        ObjV::Nil => base,
        ObjV::Entry(k, v, rest) => {
            let merged = match base.lookup(k) {
                Some(bv) => merge_doc(bv, *v),
                None => *v,
            };
            merge_obj(base.upsert(k, merged), *rest)
        },
    }
}

fn merge_obj_exec(base: DocObj, next: &DocObj) -> (r: DocObj)
    ensures
        r@ == merge_obj(base@, next@),
    decreases *next,
{
    match next {
        DocObj::Nil => base,
        DocObj::Entry(k, v, rest) => {
            let merged = match base.get(k.as_str()) {
                Some(bv) => deep_merge_json(bv, &**v),
                None => (**v).clone(),
            };
            let folded = base.upsert(k.clone(), merged);
            merge_obj_exec(folded, &**rest)
        },
    }
}

/// Recursive object-wise deep merge of two documents; the patch wins
/// wherever the two sides are not both objects.
pub fn deep_merge_json(base: &Doc, next: &Doc) -> (r: Doc)
    ensures
        r@ == merge_doc(base@, next@),
    decreases *next,
{
    match (base, next) {
        (Doc::Obj(b), Doc::Obj(n)) => Doc::Obj(merge_obj_exec(b.clone(), n)),
        _ => next.clone(),
    }
}

/// Every entry of `sub` is bound, to the same value, in `base`.
pub open spec fn entries_within(sub: ObjV, base: ObjV) -> bool
    decreases sub,
{
    match sub {
        ObjV::Nil => true,
        ObjV::Entry(k, v, rest) => base.lookup(k) == Some(*v) && entries_within(*rest, base),
    }
}

/// Upserting binds the key and leaves every other binding alone.
pub proof fn lemma_upsert_lookup(o: ObjV, k: Seq<char>, v: DocV)
    ensures
        o.upsert(k, v).lookup(k) == Some(v),
        forall|k2: Seq<char>| k2 != k ==> #[trigger] o.upsert(k, v).lookup(k2) == o.lookup(k2),
    decreases o,
{
    match o {
        ObjV::Nil => {
            assert forall|k2: Seq<char>| k2 != k implies #[trigger] o.upsert(k, v).lookup(k2)
                == o.lookup(k2) by {
                assert(o.upsert(k, v) == ObjV::Entry(k, Box::new(v), Box::new(ObjV::Nil)));
            }
        },
        ObjV::Entry(key, val, rest) => {
            if key == k {
                assert forall|k2: Seq<char>| k2 != k implies #[trigger] o.upsert(k, v).lookup(
                    k2,
                ) == o.lookup(k2) by {
                    assert(o.upsert(k, v) == ObjV::Entry(key, Box::new(v), rest));
                }
            } else {
                lemma_upsert_lookup(*rest, k, v);
                assert(o.upsert(k, v) == ObjV::Entry(key, val, Box::new(rest.upsert(k, v))));
                assert forall|k2: Seq<char>| k2 != k implies #[trigger] o.upsert(k, v).lookup(
                    k2,
                ) == o.lookup(k2) by {
                    if k2 != key {
                        assert(rest.upsert(k, v).lookup(k2) == rest.lookup(k2));
                    }
                }
            }
        },
    }
}

/// Re-binding a key to the value it already has changes nothing.
pub proof fn lemma_upsert_identity(o: ObjV, k: Seq<char>, v: DocV)
    requires
        o.lookup(k) == Some(v),
    ensures
        o.upsert(k, v) == o,
    decreases o,
{
    match o {
        ObjV::Nil => {},
        ObjV::Entry(key, val, rest) => {
            if key != k {
                lemma_upsert_identity(*rest, k, v);
            }
        },
    }
}

/// Folding entries into a base that already binds each of them to the
/// same, self-merge-stable value leaves the base unchanged.
pub proof fn lemma_merge_obj_within(base: ObjV, next: ObjV)
    requires
        entries_within(next, base),
        next.wf(),
    ensures
        merge_obj(base, next) == base,
    decreases next,
{
    match next {
        ObjV::Nil => {},
        ObjV::Entry(k, v, rest) => {
            lemma_merge_doc_self(*v);
            lemma_upsert_identity(base, k, *v);
            lemma_merge_obj_within(base, *rest);
        },
    }
}

/// Merging a well-formed document with itself gives it back.
pub proof fn lemma_merge_doc_self(d: DocV)
    requires
        d.wf(),
    ensures
        merge_doc(d, d) == d,
    decreases d,
{
    match d {
        DocV::Obj(o) => {
            lemma_entries_within_self(o, o);
            lemma_merge_obj_within(o, o);
        },
        _ => {},
    }
}

/// A well-formed object's own entries are all bound in any object that
/// extends it entry-wise; in particular in itself.
proof fn lemma_entries_within_self(sub: ObjV, base: ObjV)
    requires
        sub.wf(),
        forall|k: Seq<char>| sub.contains_key(k) ==> #[trigger] base.lookup(k) == sub.lookup(k),
    ensures
        entries_within(sub, base),
    decreases sub,
{
    match sub {
        ObjV::Nil => {},
        ObjV::Entry(k, v, rest) => {
            assert(sub.lookup(k) == Some(*v));
            assert(base.lookup(k) == Some(*v));
            assert forall|k2: Seq<char>| rest.contains_key(k2) implies #[trigger] base.lookup(k2)
                == rest.lookup(k2) by {
                assert(k2 != k);
                assert(sub.lookup(k2) == rest.lookup(k2));
            }
            lemma_entries_within_self(*rest, base);
        },
    }
}

/// Entries of a well-formed object survive removal of another key, so
/// the remainder still lies entry-wise within the original.
pub proof fn lemma_remove_within(o: ObjV, k: Seq<char>)
    requires
        o.wf(),
    ensures
        entries_within(o.remove(k), o),
        o.remove(k).wf(),
    decreases o,
{
    lemma_remove_lookup(o, k);
    lemma_remove_wf(o, k);
    assert forall|k2: Seq<char>| o.remove(k).contains_key(k2) implies #[trigger] o.lookup(k2)
        == o.remove(k).lookup(k2) by {
        lemma_remove_lookup(o, k);
    }
    lemma_entries_within_self(o.remove(k), o);
}

/// After removing `k` from a well-formed object, `k` is unbound and
/// every other key keeps its binding.
pub proof fn lemma_remove_lookup(o: ObjV, k: Seq<char>)
    requires
        o.wf(),
    ensures
        o.remove(k).lookup(k) is None,
        forall|k2: Seq<char>| k2 != k ==> #[trigger] o.remove(k).lookup(k2) == o.lookup(k2),
    decreases o,
{
    match o {
        ObjV::Nil => {
            assert(o.remove(k) == ObjV::Nil);
        },
        ObjV::Entry(key, val, rest) => {
            lemma_remove_lookup(*rest, k);
            if key == k {
                lemma_not_contains_lookup(*rest, key);
                assert(o.remove(k) == *rest);
            } else {
                assert(o.remove(k) == ObjV::Entry(key, val, Box::new(rest.remove(k))));
                assert forall|k2: Seq<char>| k2 != k implies #[trigger] o.remove(k).lookup(k2)
                    == o.lookup(k2) by {
                    if k2 != key {
                        assert(o.remove(k).lookup(k2) == rest.remove(k).lookup(k2));
                        assert(rest.remove(k).lookup(k2) == rest.lookup(k2));
                    }
                }
            }
        },
    }
}

proof fn lemma_not_contains_lookup(o: ObjV, k: Seq<char>)
    requires
        !o.contains_key(k),
    ensures
        o.lookup(k) is None,
{
}

/// Removal preserves well-formedness.
pub proof fn lemma_remove_wf(o: ObjV, k: Seq<char>)
    requires
        o.wf(),
    ensures
        o.remove(k).wf(),
    decreases o,
{
    match o {
        ObjV::Nil => {},
        ObjV::Entry(key, val, rest) => {
            if key != k {
                lemma_remove_wf(*rest, k);
                lemma_remove_lookup(*rest, k);
            }
        },
    }
}

} // verus!
