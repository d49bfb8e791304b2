//! Attribute maps: string keys to scalar or text values, as shapes and
//! styles hand them to a markup writer.

use vstd::prelude::*;
use vstd::string::StringExecFns;
use crate::scalar::Scalar;
use crate::text::{scalar_text, scalar_to_text};

verus! {

/// An attribute value.
#[derive(Clone, Debug, PartialEq)]
pub enum Attribute {
    Scalar(Scalar),
    String(String),
}

/// What an attribute value is, for contracts.
pub enum AttributeModel {
    Scalar(int),
    Text(Seq<char>),
}

impl Attribute {
    pub open spec fn model(&self) -> AttributeModel {
        match self {
            Attribute::Scalar(v) => AttributeModel::Scalar(*v as int),
            Attribute::String(s) => AttributeModel::Text(s@),
        }
    }

    /// The text of the value in markup: a scalar in shortest decimal form.
    pub fn text(&self) -> (r: String)
        ensures
            r@ == model_text(self.model()),
    {
        match self {
            Attribute::Scalar(v) => scalar_to_text(*v),
            Attribute::String(s) => s.clone(),
        }
    }
}

impl Attribute {
    /// A copy of the value.
    pub fn copy(&self) -> (r: Attribute)
        ensures
            r.model() == self.model(),
    {
        match self {
            Attribute::Scalar(v) => Attribute::Scalar(*v),
            Attribute::String(s) => Attribute::String(s.clone()),
        }
    }
}

pub open spec fn model_text(m: AttributeModel) -> Seq<char> {
    match m {
        AttributeModel::Scalar(v) => scalar_text(v),
        AttributeModel::Text(t) => t,
    }
}

/// The map that a sequence of entries describes; a later entry wins.
pub open spec fn to_map(s: Seq<(String, Attribute)>) -> Map<Seq<char>, AttributeModel>
    decreases s.len(),
{
    if s.len() == 0 {
        Map::empty()
    } else {
        to_map(s.drop_last()).insert(s.last().0@, s.last().1.model())
    }
}

/// No two entries share a key.
pub open spec fn unique_keys(s: Seq<(String, Attribute)>) -> bool {
    forall|i: int, j: int| 0 <= i < j < s.len() ==> (#[trigger] s[i]).0@ != (#[trigger] s[j]).0@
}

proof fn lemma_to_map_lookup(s: Seq<(String, Attribute)>, k: Seq<char>)
    requires
        unique_keys(s),
    ensures
        forall|i: int| 0 <= i < s.len() && (#[trigger] s[i]).0@ == k ==> to_map(s).contains_key(k)
            && to_map(s)[k] == s[i].1.model(),
        (forall|i: int| 0 <= i < s.len() ==> (#[trigger] s[i]).0@ != k) ==> !to_map(s).contains_key(
            k,
        ),
    decreases s.len(),
{
    if s.len() > 0 {
        let t = s.drop_last();
        assert(unique_keys(t)) by {
            assert forall|i: int, j: int| 0 <= i < j < t.len() implies (#[trigger] t[i]).0@ != (
            #[trigger] t[j]).0@ by {
                assert(t[i] == s[i] && t[j] == s[j]);
            }
        }
        lemma_to_map_lookup(t, k);
        assert forall|i: int| 0 <= i < s.len() && (#[trigger] s[i]).0@ == k implies to_map(
            s,
        ).contains_key(k) && to_map(s)[k] == s[i].1.model() by {
            if i < s.len() - 1 {
                assert(t[i] == s[i]);
                assert(s[i].0@ != s[s.len() - 1].0@);
            }
        }
        if forall|i: int| 0 <= i < s.len() ==> (#[trigger] s[i]).0@ != k {
            assert forall|i: int| 0 <= i < t.len() implies (#[trigger] t[i]).0@ != k by {
                assert(t[i] == s[i]);
            }
            assert(s[s.len() - 1].0@ != k);
        }
    }
}

proof fn lemma_to_map_len(s: Seq<(String, Attribute)>)
    requires
        unique_keys(s),
    ensures
        to_map(s).dom().finite(),
        to_map(s).dom().len() == s.len(),
    decreases s.len(),
{
    if s.len() > 0 {
        let t = s.drop_last();
        assert(unique_keys(t)) by {
            assert forall|i: int, j: int| 0 <= i < j < t.len() implies (#[trigger] t[i]).0@ != (
            #[trigger] t[j]).0@ by {
                assert(t[i] == s[i] && t[j] == s[j]);
            }
        }
        lemma_to_map_len(t);
        lemma_to_map_lookup(t, s.last().0@);
        assert forall|i: int| 0 <= i < t.len() implies (#[trigger] t[i]).0@ != s.last().0@ by {
            assert(t[i] == s[i]);
        }
        assert(to_map(s).dom() =~= to_map(t).dom().insert(s.last().0@));
    }
}

proof fn lemma_to_map_update(s: Seq<(String, Attribute)>, i: int, e: (String, Attribute))
    requires
        unique_keys(s),
        0 <= i < s.len(),
        s[i].0@ == e.0@,
    ensures
        to_map(s.update(i, e)) == to_map(s).insert(e.0@, e.1.model()),
        unique_keys(s.update(i, e)),
    decreases s.len(),
{
    let u = s.update(i, e);
    let t = s.drop_last();
    assert(unique_keys(u)) by {
        assert forall|a: int, b: int| 0 <= a < b < u.len() implies (#[trigger] u[a]).0@ != (
        #[trigger] u[b]).0@ by {
            assert(s[a].0@ != s[b].0@);
        }
    }
    assert(unique_keys(t)) by {
        assert forall|a: int, b: int| 0 <= a < b < t.len() implies (#[trigger] t[a]).0@ != (
        #[trigger] t[b]).0@ by {
            assert(t[a] == s[a] && t[b] == s[b]);
        }
    }
    if i == s.len() - 1 {
        assert(u.drop_last() =~= t);
        assert(to_map(u) =~= to_map(s).insert(e.0@, e.1.model()));
    } else {
        lemma_to_map_update(t, i, e);
        assert(u.drop_last() =~= t.update(i, e));
        assert(s.last().0@ != e.0@);
        assert(to_map(u) =~= to_map(s).insert(e.0@, e.1.model()));
    }
}

/// A map from attribute names to values; each name appears once.
#[derive(Debug)]
pub struct Attributes {
    entries: Vec<(String, Attribute)>,
}

impl View for Attributes {
    type V = Map<Seq<char>, AttributeModel>;

    closed spec fn view(&self) -> Map<Seq<char>, AttributeModel> {
        to_map(self.entries@)
    }
}

impl Attributes {
    pub closed spec fn wf(&self) -> bool {
        unique_keys(self.entries@)
    }

    /// An empty map.
    pub fn new() -> (r: Attributes)
        ensures
            r@ == Map::<Seq<char>, AttributeModel>::empty(),
            r.wf(),
    {
        Attributes { entries: Vec::new() }
    }

    /// The number of keys.
    pub fn len(&self) -> (r: usize)
        requires
            self.wf(),
        ensures
            r == self@.dom().len(),
    {
        proof {
            lemma_to_map_len(self.entries@);
        }
        self.entries.len()
    }

    /// Whether there is no key.
    pub fn is_empty(&self) -> (r: bool)
        requires
            self.wf(),
        ensures
            r == (self@.dom().len() == 0),
    {
        self.len() == 0
    }

    /// The index of the entry named `key`, if there is one.
    fn find(&self, key: &String) -> (r: Option<usize>)
        requires
            self.wf(),
        ensures
            r matches Some(i) ==> i < self.entries@.len() && self.entries@[i as int].0@ == key@,
            r is None ==> forall|i: int|
                0 <= i < self.entries@.len() ==> (#[trigger] self.entries@[i]).0@ != key@,
    {
        let mut i: usize = 0;
        while i < self.entries.len()
            invariant
                i <= self.entries@.len(),
                forall|j: int| 0 <= j < i ==> (#[trigger] self.entries@[j]).0@ != key@,
            decreases self.entries@.len() - i,
        {
            if self.entries[i].0 == *key {
                return Some(i);
            }
            i = i + 1;
        }
        None
    }

    /// Sets `key` to `attribute`, replacing an earlier value.
    pub fn insert(&mut self, key: &str, attribute: Attribute)
        requires
            old(self).wf(),
        ensures
            final(self).wf(),
            final(self)@ == old(self)@.insert(key@, attribute.model()),
    {
        let k = String::from_str(key);
        let ghost before = self.entries@;
        proof {
            lemma_to_map_lookup(before, key@);
        }
        match self.find(&k) {
            Some(i) => {
                let ghost e = (k, attribute);
                proof {
                    lemma_to_map_update(before, i as int, e);
                }
                self.entries.set(i, (k, attribute));
                assert(self.entries@ == before.update(i as int, e));
            },
            None => {
                self.entries.push((k, attribute));
                assert(self.entries@.drop_last() =~= before);
                assert(unique_keys(self.entries@)) by {
                    assert forall|a: int, b: int|
                        0 <= a < b < self.entries@.len() implies (#[trigger] self.entries@[a]).0@
                        != (#[trigger] self.entries@[b]).0@ by {
                        if b < before.len() {
                            assert(self.entries@[a] == before[a] && self.entries@[b] == before[b]);
                        } else {
                            assert(self.entries@[a] == before[a]);
                        }
                    }
                }
            },
        }
    }

    /// The value of `key`.
    pub fn get(&self, key: &str) -> (r: Option<&Attribute>)
        requires
            self.wf(),
        ensures
            r matches Some(a) ==> self@.contains_key(key@) && self@[key@] == a.model(),
            r is None ==> !self@.contains_key(key@),
    {
        let k = String::from_str(key);
        proof {
            lemma_to_map_lookup(self.entries@, key@);
        }
        match self.find(&k) {
            Some(i) => Some(&self.entries[i].1),
            None => None,
        }
    }

    /// The value of `key` when it is a scalar.
    pub fn get_scalar(&self, key: &str) -> (r: Option<Scalar>)
        requires
            self.wf(),
        ensures
            r == scalar_at(self@, key@),
    {
        match self.get(key) {
            Some(Attribute::Scalar(v)) => Some(*v),
            _ => None,
        }
    }

    /// A copy of the map.
    pub fn copy(&self) -> (r: Attributes)
        requires
            self.wf(),
        ensures
            r.wf(),
            r@ == self@,
    {
        let mut entries: Vec<(String, Attribute)> = Vec::new();
        let mut i: usize = 0;
        while i < self.entries.len()
            invariant
                i <= self.entries@.len(),
                unique_keys(self.entries@),
                entries@.len() == i,
                forall|j: int| 0 <= j < i ==> (#[trigger] entries@[j]).0@ == self.entries@[j].0@
                    && entries@[j].1.model() == self.entries@[j].1.model(),
                to_map(entries@) == to_map(self.entries@.take(i as int)),
            decreases self.entries@.len() - i,
        {
            let k = self.entries[i].0.clone();
            let a = self.entries[i].1.copy();
            let ghost before = entries@;
            entries.push((k, a));
            assert(entries@.drop_last() =~= before);
            assert(self.entries@.take(i + 1).drop_last() =~= self.entries@.take(i as int));
            i = i + 1;
        }
        assert(self.entries@.take(i as int) =~= self.entries@);
        assert(unique_keys(entries@)) by {
            assert forall|a: int, b: int| 0 <= a < b < entries@.len() implies (#[trigger] entries@[a]).0@
                != (#[trigger] entries@[b]).0@ by {
                assert(self.entries@[a].0@ != self.entries@[b].0@);
            }
        }
        Attributes { entries }
    }

    /// The entries, one per key.
    pub fn into_inner(self) -> (r: Vec<(String, Attribute)>)
        requires
            self.wf(),
        ensures
            to_map(r@) == self@,
            unique_keys(r@),
    {
        self.entries
    }

    /// Sets every key of `other` to its value there.
    pub fn extend(&mut self, other: Attributes)
        requires
            old(self).wf(),
            other.wf(),
        ensures
            final(self).wf(),
            final(self)@ == old(self)@.union_prefer_right(other@),
    {
        let ghost all = other.entries@;
        let ghost start = self@;
        let mut rest = other.entries;
        let ghost mut taken: int = 0;
        while rest.len() > 0
            invariant
                self.wf(),
                0 <= taken <= all.len(),
                rest@ == all.skip(taken),
                self@ == start.union_prefer_right(to_map(all.take(taken))),
            decreases rest@.len(),
        {
            let (k, a) = rest.remove(0);
            assert(all.take(taken + 1).drop_last() =~= all.take(taken));
            assert(all[taken] == (k, a));
            self.insert(k.as_str(), a);
            proof {
                taken = taken + 1;
            }
            assert(rest@ =~= all.skip(taken));
            assert(self@ =~= start.union_prefer_right(to_map(all.take(taken))));
        }
        assert(all.take(taken) =~= all);
    }

    /// Moves every entry into `attributes`, replacing values there.
    pub fn append_into(self, attributes: &mut Attributes)
        requires
            self.wf(),
            old(attributes).wf(),
        ensures
            final(attributes).wf(),
            final(attributes)@ == old(attributes)@.union_prefer_right(self@),
    {
        attributes.extend(self)
    }
}

impl Default for Attributes {
    fn default() -> (r: Attributes)
        ensures
            r@ == Map::<Seq<char>, AttributeModel>::empty(),
            r.wf(),
    {
        Attributes::new()
    }
}

/// The scalar stored under `k`, if any.
pub open spec fn scalar_at(m: Map<Seq<char>, AttributeModel>, k: Seq<char>) -> Option<Scalar> {
    if m.contains_key(k) {
        match m[k] {
            AttributeModel::Scalar(v) => if i64::MIN <= v <= i64::MAX { Some(v as i64) } else { None },
            _ => None,
        }
    } else {
        None
    }
}

} // verus!
