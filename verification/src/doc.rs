//! The generic document value that the filter walks: a closed sum over the
//! shapes a JSON-like tree can take, together with its mathematical model.

use vstd::prelude::*;

verus! {

/// A generic document value.
///
/// Object fields keep their order, so a document can be emitted again without
/// reshuffling its keys. A number is carried as its literal text: the filter
/// never interprets numbers, it only moves them through unchanged.
#[derive(Debug, PartialEq)]
pub enum DocValue {
    Null,
    Bool(bool),
    Num(String),
    Str(String),
    Arr(Vec<DocValue>),
    Obj(Vec<(String, DocValue)>),
}

/// The mathematical model of a document value: the same tree over `Seq`.
pub enum SpecDoc {
    Null,
    Bool(bool),
    Num(Seq<char>),
    Str(Seq<char>),
    Arr(Seq<SpecDoc>),
    Obj(Seq<(Seq<char>, SpecDoc)>),
}

/// The model of a sequence of document values.
pub open spec fn docs_model(s: Seq<DocValue>) -> Seq<SpecDoc>
    decreases s,
{
    if s.len() == 0 {
        Seq::empty()
    } else {
        seq![view_of_doc(s[0])] + docs_model(s.subrange(1, s.len() as int))
    }
}

/// The model of an object's field list: each key as a sequence of characters,
/// each value as its model, in the object's own order.
pub open spec fn fields_model(s: Seq<(String, DocValue)>) -> Seq<(Seq<char>, SpecDoc)>
    decreases s,
{
    if s.len() == 0 {
        Seq::empty()
    } else {
        seq![(s[0].0@, view_of_doc(s[0].1))] + fields_model(s.subrange(1, s.len() as int))
    }
}

/// The model of a value sequence is the sequence of the values' models.
pub proof fn lemma_docs_model(s: Seq<DocValue>)
    ensures
        docs_model(s).len() == s.len(),
        forall|i: int| 0 <= i < s.len() ==> docs_model(s)[i] == view_of_doc(s[i]),
    decreases s.len(),
{
    if s.len() > 0 {
        lemma_docs_model(s.subrange(1, s.len() as int));
    }
}

/// The model of a field list pairs each key's characters with its value's model.
pub proof fn lemma_fields_model(s: Seq<(String, DocValue)>)
    ensures
        fields_model(s).len() == s.len(),
        forall|i: int|
            0 <= i < s.len() ==> fields_model(s)[i] == (s[i].0@, view_of_doc(s[i].1)),
    decreases s.len(),
{
    if s.len() > 0 {
        lemma_fields_model(s.subrange(1, s.len() as int));
    }
}

/// The model of one document value.
pub open spec fn view_of_doc(d: DocValue) -> SpecDoc
    decreases d,
{
    match d {
        DocValue::Null => SpecDoc::Null,
        DocValue::Bool(b) => SpecDoc::Bool(b),
        DocValue::Num(s) => SpecDoc::Num(s@),
        DocValue::Str(s) => SpecDoc::Str(s@),
        DocValue::Arr(elems) => SpecDoc::Arr(docs_model(elems@)),
        DocValue::Obj(fields) => SpecDoc::Obj(fields_model(fields@)),
    }
}

impl View for DocValue {
    type V = SpecDoc;

    open spec fn view(&self) -> SpecDoc {
        view_of_doc(*self)
    }
}

/// The first value bound to `key` in a field list, if any: the lookup that
/// the walker uses to read an object's tag and content.
pub open spec fn spec_lookup(fields: Seq<(Seq<char>, SpecDoc)>, key: Seq<char>) -> Option<SpecDoc>
    decreases fields,
{
    if fields.len() == 0 {
        None
    } else if fields[0].0 == key {
        Some(fields[0].1)
    } else {
        spec_lookup(fields.subrange(1, fields.len() as int), key)
    }
}

/// If position `i` holds the first binding of `key`, the lookup returns it.
pub proof fn lemma_lookup_at(fields: Seq<(Seq<char>, SpecDoc)>, key: Seq<char>, i: int)
    requires
        0 <= i < fields.len(),
        fields[i].0 == key,
        forall|j: int| 0 <= j < i ==> fields[j].0 != key,
    ensures
        spec_lookup(fields, key) == Some(fields[i].1),
    decreases i,
{
    if i == 0 {
    } else {
        let rest = fields.subrange(1, fields.len() as int);
        assert(fields[0].0 != key);
        lemma_lookup_at(rest, key, i - 1);
        assert(rest[i - 1] == fields[i]);
    }
}

/// If no position binds `key`, the lookup returns nothing.
pub proof fn lemma_lookup_absent(fields: Seq<(Seq<char>, SpecDoc)>, key: Seq<char>)
    requires
        forall|j: int| 0 <= j < fields.len() ==> fields[j].0 != key,
    ensures
        spec_lookup(fields, key) is None,
    decreases fields.len(),
{
    if fields.len() == 0 {
    } else {
        let rest = fields.subrange(1, fields.len() as int);
        assert(forall|j: int| 0 <= j < rest.len() ==> rest[j] == fields[j + 1]);
        lemma_lookup_absent(rest, key);
    }
}

/// The first value bound to `key` in an object's fields, if any.
pub fn lookup_field<'a>(fields: &'a Vec<(String, DocValue)>, key: &String) -> (r: Option<
    &'a DocValue,
>)
    ensures
        match r {
            Some(d) => spec_lookup(fields_model(fields@), key@) == Some(d@),
            None => spec_lookup(fields_model(fields@), key@) is None,
        },
{
    let ghost fm = fields_model(fields@);
    proof {
        lemma_fields_model(fields@);
    }
    let mut i: usize = 0;
    while i < fields.len()
        invariant
            i <= fields.len(),
            fm == fields_model(fields@),
            fm.len() == fields@.len(),
            forall|j: int| 0 <= j < fields@.len() ==> fm[j] == (fields@[j].0@, view_of_doc(fields@[j].1)),
            forall|j: int| 0 <= j < i ==> fm[j].0 != key@,
        decreases fields.len() - i,
    {
        if fields[i].0 == *key {
            proof {
                lemma_lookup_at(fm, key@, i as int);
            }
            return Some(&fields[i].1);
        }
        i += 1;
    }
    proof {
        lemma_lookup_absent(fm, key@);
    }
    None
}

} // verus!
