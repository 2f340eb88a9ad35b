//! Attribute mappings.
//!
//! A snapshot of an entity is an attribute mapping: attribute names to
//! structured values. A snapshot arrives as one structured value; it is
//! accepted as an attribute mapping exactly when it is a mapping with
//! pairwise distinct keys, and rejected otherwise.
use crate::value::AttrValue;
use crate::value::SpecValue;
use crate::value::lemma_model_variant;
use vstd::prelude::*;

verus! {

broadcast use vstd::std_specs::vec::group_vec_axioms, vstd::seq::group_seq_axioms;

/// The models of a sequence of (name, value) entries.
pub open spec fn pair_views(s: Seq<(String, AttrValue)>) -> Seq<(Seq<char>, SpecValue)> {
    Seq::new(s.len(), |i: int| (s[i].0@, s[i].1@))
}

/// All entry keys are pairwise distinct.
pub open spec fn keys_unique(s: Seq<(Seq<char>, SpecValue)>) -> bool {
    forall|i: int, j: int| 0 <= i < j < s.len() ==> s[i].0 != s[j].0
}

/// The mapping the entries denote, later entries taking precedence.
pub open spec fn map_of(s: Seq<(Seq<char>, SpecValue)>) -> Map<Seq<char>, SpecValue>
    decreases s.len(),
{
    if s.len() == 0 {
        Map::empty()
    } else {
        map_of(s.drop_last()).insert(s.last().0, s.last().1)
    }
}

/// A structured value of the shape an attribute mapping is parsed from:
/// a mapping with pairwise distinct keys.
pub open spec fn obj_shaped(v: SpecValue) -> bool {
    v is Obj && keys_unique(v->Obj_0)
}

/// A key occurs in the mapping exactly when some entry carries it.
pub proof fn lemma_map_of_contains(s: Seq<(Seq<char>, SpecValue)>, k: Seq<char>)
    ensures
        map_of(s).contains_key(k) <==> exists|i: int| 0 <= i < s.len() && s[i].0 == k,
    decreases s.len(),
{
    if s.len() > 0 {
        lemma_map_of_contains(s.drop_last(), k);
        if s.last().0 == k {
            assert(s[s.len() - 1].0 == k);
        } else if map_of(s).contains_key(k) {
            let i = choose|i: int| 0 <= i < s.drop_last().len() && s.drop_last()[i].0 == k;
            assert(s[i].0 == k);
        } else {
            assert forall|i: int| 0 <= i < s.len() implies s[i].0 != k by {
                if i < s.len() - 1 {
                    assert(s.drop_last()[i].0 == s[i].0);
                }
            }
        }
    }
}

/// With distinct keys, each entry is exactly what the mapping holds at its key.
pub proof fn lemma_map_of_at(s: Seq<(Seq<char>, SpecValue)>, i: int)
    requires
        keys_unique(s),
        0 <= i < s.len(),
    ensures
        map_of(s).contains_key(s[i].0),
        map_of(s)[s[i].0] == s[i].1,
    decreases s.len(),
{
    if i < s.len() - 1 {
        assert(keys_unique(s.drop_last())) by {
            assert(forall|p: int, q: int|
                0 <= p < q < s.len() - 1 ==> s.drop_last()[p].0 == s[p].0 && s.drop_last()[q].0
                    == s[q].0);
        }
        lemma_map_of_at(s.drop_last(), i);
        assert(s.drop_last()[i] == s[i]);
        assert(s.last().0 != s[i].0);
    }
}

/// An attribute mapping: entry order is the order the snapshot carried, and
/// well-formed mappings have pairwise distinct keys.
pub struct AttributeMap {
    pub entries: Vec<(String, AttrValue)>,
}

impl View for AttributeMap {
    type V = Map<Seq<char>, SpecValue>;

    open spec fn view(&self) -> Map<Seq<char>, SpecValue> {
        map_of(self.entry_views())
    }
}

impl AttributeMap {
    /// The models of the entries, in entry order.
    pub open spec fn entry_views(self) -> Seq<(Seq<char>, SpecValue)> {
        pair_views(self.entries@)
    }

    /// Well-formed: pairwise distinct keys.
    pub open spec fn wf(self) -> bool {
        keys_unique(self.entry_views())
    }

    /// Parse a structured value as an attribute mapping: accepted exactly
    /// when the value is a mapping with pairwise distinct keys.
    pub fn from_value(v: AttrValue) -> (r: Option<AttributeMap>)
        ensures
            r is Some <==> obj_shaped(v@),
            r is Some ==> r->0.wf() && r->0.entry_views() == v@->Obj_0,
    {
        match v {
            AttrValue::Obj(fields) => {
                proof {
                    assert(v@->Obj_0 =~= pair_views(fields@));
                }
                if keys_distinct(&fields) {
                    Some(AttributeMap { entries: fields })
                } else {
                    None
                }
            },
            _ => {
                proof {
                    lemma_model_variant(v);
                }
                None
            },
        }
    }

    /// Look an attribute up by name.
    pub fn get(&self, key: &String) -> (r: Option<&AttrValue>)
        requires
            self.wf(),
        ensures
            match r {
                Some(val) => self@.contains_key(key@) && self@[key@] == val@,
                None => !self@.contains_key(key@),
            },
    {
        proof {
            lemma_map_of_contains(self.entry_views(), key@);
        }
        let mut i: usize = 0;
        while i < self.entries.len()
            invariant
                self.wf(),
                i <= self.entries.len(),
                forall|j: int| 0 <= j < i ==> self.entries@[j].0@ != key@,
            decreases self.entries.len() - i,
        {
            let e = &self.entries[i];
            if e.0 == *key {
                proof {
                    lemma_map_of_at(self.entry_views(), i as int);
                }
                return Some(&e.1);
            }
            i += 1;
        }
        proof {
            assert(forall|j: int|
                0 <= j < self.entry_views().len() ==> self.entry_views()[j].0 != key@);
        }
        None
    }
}

/// All entry keys of `entries` are pairwise distinct.
fn keys_distinct(entries: &Vec<(String, AttrValue)>) -> (r: bool)
    ensures
        r == keys_unique(pair_views(entries@)),
{
    let ghost s = pair_views(entries@);
    let mut i: usize = 0;
    while i < entries.len()
        invariant
            i <= entries.len(),
            s == pair_views(entries@),
            forall|p: int, q: int| 0 <= p < q < i ==> s[p].0 != s[q].0,
        decreases entries.len() - i,
    {
        let mut j: usize = 0;
        while j < i
            invariant
                j <= i < entries.len(),
                s == pair_views(entries@),
                forall|p: int, q: int| 0 <= p < q < i ==> s[p].0 != s[q].0,
                forall|p: int| 0 <= p < j ==> s[p].0 != s[i as int].0,
            decreases i - j,
        {
            let a = &entries[j];
            let b = &entries[i];
            if a.0 == b.0 {
                proof {
                    assert(s[j as int].0 == s[i as int].0);
                }
                return false;
            }
            j += 1;
        }
        i += 1;
    }
    true
}

} // verus!
