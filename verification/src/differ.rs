//! The attribute differ.
//!
//! Pure comparison of two attribute mappings: the result holds exactly the
//! entries of the new snapshot whose key the old snapshot lacks or maps to
//! a structurally different value, in the order the new snapshot carries
//! them. Keys present only in the old snapshot are deliberately not
//! reported: the bridge forwards current-state updates only.
use crate::attrmap::AttributeMap;
use crate::attrmap::keys_unique;
use crate::attrmap::lemma_map_of_at;
use crate::attrmap::lemma_map_of_contains;
use crate::attrmap::map_of;
use crate::attrmap::pair_views;
use crate::value::AttrValue;
use crate::value::SpecValue;
use vstd::prelude::*;

verus! {

broadcast use vstd::std_specs::vec::group_vec_axioms, vstd::seq::group_seq_axioms;

/// A (key, value) pair of the new snapshot is a change with respect to the
/// old mapping: the key is absent there, or mapped to a different value.
pub open spec fn changed(old: Map<Seq<char>, SpecValue>, key: Seq<char>, val: SpecValue) -> bool {
    !old.contains_key(key) || old[key] != val
}

/// The entries of `news` that are changes with respect to `old`, in the
/// order `news` carries them.
pub open spec fn updated_entries(
    old: Map<Seq<char>, SpecValue>,
    news: Seq<(Seq<char>, SpecValue)>,
) -> Seq<(Seq<char>, SpecValue)>
    decreases news.len(),
{
    if news.len() == 0 {
        Seq::empty()
    } else {
        let rest = updated_entries(old, news.drop_last());
        if changed(old, news.last().0, news.last().1) {
            rest.push(news.last())
        } else {
            rest
        }
    }
}

/// Compare two attribute mappings and return the changed subset of the new
/// one: every entry whose key the old mapping lacks or maps to a different
/// value, in the new snapshot's entry order.
#[verifier::loop_isolation(false)]
pub fn diff(old: &AttributeMap, new: &AttributeMap) -> (r: Vec<(String, AttrValue)>)
    requires
        old.wf(),
    ensures
        pair_views(r@) == updated_entries(old@, new.entry_views()),
{
    let mut out: Vec<(String, AttrValue)> = Vec::new();
    let mut i: usize = 0;
    while i < new.entries.len()
        invariant
            i <= new.entries.len(),
            pair_views(out@) == updated_entries(old@, new.entry_views().take(i as int)),
        decreases new.entries.len() - i,
    {
        let e = &new.entries[i];
        let ghost prefix = new.entry_views().take(i as int);
        let ghost full = new.entry_views().take(i as int + 1);
        proof {
            assert(full.drop_last() =~= prefix);
            assert(full.last() == new.entry_views()[i as int]);
        }
        let is_change = match old.get(&e.0) {
            Some(prev) => !prev.deep_eq(&e.1),
            None => true,
        };
        if is_change {
            out.push((e.0.clone(), e.1.duplicate()));
            proof {
                assert(pair_views(out@) =~= updated_entries(old@, prefix).push(
                    new.entry_views()[i as int],
                ));
            }
        }
        i += 1;
    }
    proof {
        assert(new.entry_views().take(new.entries@.len() as int) =~= new.entry_views());
    }
    out
}

/// The diff holds a key exactly when the new snapshot holds it with a value
/// the old mapping lacks or differs on, and then it holds the new value.
pub proof fn lemma_diff_characterizes(
    old: Map<Seq<char>, SpecValue>,
    news: Seq<(Seq<char>, SpecValue)>,
    k: Seq<char>,
)
    requires
        keys_unique(news),
    ensures
        map_of(updated_entries(old, news)).contains_key(k) <==> (map_of(news).contains_key(k)
            && changed(old, k, map_of(news)[k])),
        map_of(updated_entries(old, news)).contains_key(k) ==> map_of(updated_entries(old, news))[k]
            == map_of(news)[k],
    decreases news.len(),
{
    if news.len() > 0 {
        let prev = news.drop_last();
        assert(keys_unique(prev)) by {
            assert(forall|p: int, q: int|
                0 <= p < q < prev.len() ==> prev[p].0 == news[p].0 && prev[q].0 == news[q].0);
        }
        lemma_diff_characterizes(old, prev, k);
        let lastp = news.last();
        let u_prev = updated_entries(old, prev);
        assert(map_of(news) == map_of(prev).insert(lastp.0, lastp.1));
        if changed(old, lastp.0, lastp.1) {
            assert(updated_entries(old, news) == u_prev.push(lastp));
            assert(u_prev.push(lastp).drop_last() =~= u_prev);
            assert(u_prev.push(lastp).last() == lastp);
            assert(map_of(u_prev.push(lastp)) == map_of(u_prev).insert(lastp.0, lastp.1));
        } else {
            assert(updated_entries(old, news) == u_prev);
        }
        if k == lastp.0 {
            assert(!map_of(prev).contains_key(k)) by {
                lemma_map_of_contains(prev, k);
                assert(forall|i: int| 0 <= i < prev.len() ==> prev[i].0 == news[i].0);
            }
        }
    }
}

/// Entries all of which the old mapping already holds unchanged yield an
/// empty diff.
proof fn lemma_diff_unchanged(old: Map<Seq<char>, SpecValue>, s: Seq<(Seq<char>, SpecValue)>)
    requires
        forall|i: int|
            0 <= i < s.len() ==> old.contains_key(#[trigger] s[i].0) && old[s[i].0] == s[i].1,
    ensures
        updated_entries(old, s) == Seq::<(Seq<char>, SpecValue)>::empty(),
    decreases s.len(),
{
    if s.len() > 0 {
        assert(forall|i: int| 0 <= i < s.len() - 1 ==> s.drop_last()[i] == s[i]);
        lemma_diff_unchanged(old, s.drop_last());
        assert(s[s.len() - 1] == s.last());
    }
}

/// Diffing a snapshot against itself yields nothing: an attribute whose
/// value did not change never appears in a diff.
pub proof fn lemma_diff_self(s: Seq<(Seq<char>, SpecValue)>)
    requires
        keys_unique(s),
    ensures
        updated_entries(map_of(s), s) == Seq::<(Seq<char>, SpecValue)>::empty(),
{
    assert forall|i: int| 0 <= i < s.len() implies map_of(s).contains_key(#[trigger] s[i].0)
        && map_of(s)[s[i].0] == s[i].1 by {
        lemma_map_of_at(s, i);
    }
    lemma_diff_unchanged(map_of(s), s);
}

} // verus!
