//! The generic attribute value: the recursively-typed wire shape under which a
//! record is persisted (string, number-as-text, boolean, mapping, list), and
//! the ordered association list used for the mapping shape.
//!
//! Absence of an optional field is represented by omitting its entry from the
//! mapping, never by a placeholder value.

use vstd::prelude::*;

verus! {

/// An attribute value as stored. Numbers travel as decimal text.
pub enum AttributeValue {
    S(String),
    N(String),
    Bool(bool),
    M(AttributeMap),
    L(Vec<AttributeValue>),
}

/// A mapping from field names to attribute values, as an ordered association
/// list. A well-formed mapping binds each name at most once; lookups take the
/// first binding.
pub type AttributeMap = Vec<(String, AttributeValue)>;

/// The mathematical shape of an attribute value.
#[verifier::ext_equal]
pub ghost enum AttrV {
    S(Seq<char>),
    N(Seq<char>),
    Bool(bool),
    M(Seq<(Seq<char>, AttrV)>),
    L(Seq<AttrV>),
}

/// The view of an attribute value, defined by structural recursion.
pub open spec fn av_view(v: AttributeValue) -> AttrV
    decreases v, 0int,
{
    match v {
        AttributeValue::S(s) => AttrV::S(s@),
        AttributeValue::N(s) => AttrV::N(s@),
        AttributeValue::Bool(b) => AttrV::Bool(b),
        AttributeValue::M(m) => AttrV::M(entries_rec(m@, 0)),
        AttributeValue::L(items) => AttrV::L(items_rec(items@, 0)),
    }
}

/// The views of the entries from position `i` on.
pub open spec fn entries_rec(es: Seq<(String, AttributeValue)>, i: int) -> Seq<
    (Seq<char>, AttrV),
>
    decreases es, es.len() - i,
{
    if i < 0 || i >= es.len() {
        Seq::empty()
    } else {
        seq![(es[i].0@, av_view(es[i].1))] + entries_rec(es, i + 1)
    }
}

/// The views of the items from position `i` on.
pub open spec fn items_rec(s: Seq<AttributeValue>, i: int) -> Seq<AttrV>
    decreases s, s.len() - i,
{
    if i < 0 || i >= s.len() {
        Seq::empty()
    } else {
        seq![av_view(s[i])] + items_rec(s, i + 1)
    }
}

impl View for AttributeValue {
    type V = AttrV;

    open spec fn view(&self) -> AttrV {
        av_view(*self)
    }
}

/// The mathematical shape of an association list.
pub open spec fn entries_view(es: Seq<(String, AttributeValue)>) -> Seq<(Seq<char>, AttrV)> {
    Seq::new(es.len(), |i: int| (es[i].0@, es[i].1@))
}

/// The mathematical shape of a list of attribute values.
pub open spec fn list_view(s: Seq<AttributeValue>) -> Seq<AttrV> {
    Seq::new(s.len(), |i: int| s[i]@)
}

/// From position `i` on, the recursive entry views are the tail of the
/// entries' view.
pub proof fn lemma_entries_rec(es: Seq<(String, AttributeValue)>, i: int)
    requires
        0 <= i <= es.len(),
    ensures
        entries_rec(es, i) =~= entries_view(es).skip(i),
    decreases es.len() - i,
{
    if i == es.len() {
        assert(entries_view(es).skip(i) =~= Seq::<(Seq<char>, AttrV)>::empty());
    } else {
        lemma_entries_rec(es, i + 1);
        assert(entries_view(es).skip(i) =~= seq![(es[i].0@, av_view(es[i].1))] + entries_view(
            es,
        ).skip(i + 1));
    }
}

/// From position `i` on, the recursive item views are the tail of the list's
/// view.
pub proof fn lemma_items_rec(s: Seq<AttributeValue>, i: int)
    requires
        0 <= i <= s.len(),
    ensures
        items_rec(s, i) =~= list_view(s).skip(i),
    decreases s.len() - i,
{
    if i == s.len() {
        assert(list_view(s).skip(i) =~= Seq::<AttrV>::empty());
    } else {
        lemma_items_rec(s, i + 1);
        assert(list_view(s).skip(i) =~= seq![av_view(s[i])] + list_view(s).skip(i + 1));
    }
}

/// The view of a mapping value is the view of its entries.
pub proof fn lemma_m_view(m: AttributeMap)
    ensures
        AttributeValue::M(m)@ == AttrV::M(entries_view(m@)),
{
    lemma_entries_rec(m@, 0);
    assert(entries_view(m@).skip(0) =~= entries_view(m@));
}

/// The view of a list value is the views of its items.
pub proof fn lemma_l_view(items: Vec<AttributeValue>)
    ensures
        AttributeValue::L(items)@ == AttrV::L(list_view(items@)),
{
    lemma_items_rec(items@, 0);
    assert(list_view(items@).skip(0) =~= list_view(items@));
}

/// First binding of `key` in the entries, if any.
pub open spec fn spec_lookup(es: Seq<(Seq<char>, AttrV)>, key: Seq<char>) -> Option<AttrV>
    decreases es.len(),
{
    if es.len() == 0 {
        None
    } else if es[0].0 == key {
        Some(es[0].1)
    } else {
        spec_lookup(es.drop_first(), key)
    }
}

/// A key bound first at position `j` looks up to the value at `j`.
pub proof fn lemma_lookup_first_match(es: Seq<(Seq<char>, AttrV)>, key: Seq<char>, j: int)
    requires
        0 <= j < es.len(),
        es[j].0 == key,
        forall|i: int| 0 <= i < j ==> (#[trigger] es[i]).0 != key,
    ensures
        spec_lookup(es, key) == Some(es[j].1),
    decreases j,
{
    if j > 0 {
        assert(es[0].0 != key);
        assert forall|i: int| 0 <= i < j - 1 implies (#[trigger] es.drop_first()[i]).0 != key by {
            assert(es.drop_first()[i] == es[i + 1]);
        }
        assert(es.drop_first()[j - 1] == es[j]);
        lemma_lookup_first_match(es.drop_first(), key, j - 1);
    }
}

/// A key bound nowhere looks up to nothing.
pub proof fn lemma_lookup_absent(es: Seq<(Seq<char>, AttrV)>, key: Seq<char>)
    requires
        forall|i: int| 0 <= i < es.len() ==> (#[trigger] es[i]).0 != key,
    ensures
        spec_lookup(es, key) is None,
    decreases es.len(),
{
    if es.len() > 0 {
        assert forall|i: int|
            0 <= i < es.drop_first().len() implies (#[trigger] es.drop_first()[i]).0 != key by {
            assert(es.drop_first()[i] == es[i + 1]);
        }
        lemma_lookup_absent(es.drop_first(), key);
    }
}

/// Look a field up in a mapping: the first binding of `key`, if any.
pub fn map_get<'a>(m: &'a AttributeMap, key: &String) -> (r: Option<&'a AttributeValue>)
    ensures
        match r {
            Some(v) => spec_lookup(entries_view(m@), key@) == Some(v@),
            None => spec_lookup(entries_view(m@), key@) is None,
        },
{
    let ghost full = entries_view(m@);
    proof {
        assert(full.skip(0) =~= full);
    }
    let mut i: usize = 0;
    while i < m.len()
        invariant
            0 <= i <= m@.len(),
            full == entries_view(m@),
            spec_lookup(full, key@) == spec_lookup(full.skip(i as int), key@),
        decreases m@.len() - i,
    {
        proof {
            assert(full.skip(i as int).len() == full.len() - i);
            assert(full.skip(i as int)[0] == full[i as int]);
            assert(full[i as int] == (m@[i as int].0@, m@[i as int].1@));
        }
        if m[i].0 == *key {
            return Some(&m[i].1);
        }
        proof {
            assert(full.skip(i as int).drop_first() =~= full.skip(i as int + 1));
        }
        i = i + 1;
    }
    proof {
        assert(full.skip(i as int) =~= Seq::<(Seq<char>, AttrV)>::empty());
    }
    None
}

} // verus!
