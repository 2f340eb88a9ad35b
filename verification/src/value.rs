//! Dynamically shaped attribute values.
//!
//! An entity attribute carries a structured value: null, boolean, number,
//! string, array, or nested mapping. The bridge only ever compares such
//! values for deep structural equality, so numbers are held by their
//! canonical decimal text, which keeps equality exact and deterministic.
use vstd::prelude::*;

verus! {

broadcast use vstd::std_specs::vec::group_vec_axioms, vstd::seq::group_seq_axioms;

/// Mathematical model of an attribute value.
#[verifier::ext_equal]
pub enum SpecValue {
    Null,
    Bool(bool),
    Num(Seq<char>),
    Str(Seq<char>),
    Arr(Seq<SpecValue>),
    Obj(Seq<(Seq<char>, SpecValue)>),
}

/// An attribute value: null, boolean, number (canonical decimal text),
/// string, array, or nested mapping (fields kept in a canonical order, so
/// that structural equality of two values is equality of their models).
pub enum AttrValue {
    Null,
    Bool(bool),
    Num(String),
    Str(String),
    Arr(Vec<AttrValue>),
    Obj(Vec<(String, AttrValue)>),
}

impl AttrValue {
    /// The model of this value: the same tree over `Seq` instead of `Vec`.
    pub open spec fn model(self) -> SpecValue
        decreases self,
    {
        match self {
            AttrValue::Null => SpecValue::Null,
            AttrValue::Bool(b) => SpecValue::Bool(b),
            AttrValue::Num(s) => SpecValue::Num(s@),
            AttrValue::Str(s) => SpecValue::Str(s@),
            AttrValue::Arr(items) => SpecValue::Arr(
                Seq::new(
                    items@.len(),
                    |i: int|
                        if 0 <= i < items@.len() {
                            items@[i].model()
                        } else {
                            SpecValue::Null
                        },
                ),
            ),
            AttrValue::Obj(fields) => SpecValue::Obj(
                Seq::new(
                    fields@.len(),
                    |i: int|
                        if 0 <= i < fields@.len() {
                            (fields@[i].0@, fields@[i].1.model())
                        } else {
                            (Seq::empty(), SpecValue::Null)
                        },
                ),
            ),
        }
    }
}

/// The model's constructor always mirrors the value's.
pub proof fn lemma_model_variant(v: AttrValue)
    ensures
        (v.model() is Null) == (v is Null),
        (v.model() is Bool) == (v is Bool),
        (v.model() is Num) == (v is Num),
        (v.model() is Str) == (v is Str),
        (v.model() is Arr) == (v is Arr),
        (v.model() is Obj) == (v is Obj),
{
}

impl View for AttrValue {
    type V = SpecValue;

    open spec fn view(&self) -> SpecValue {
        self.model()
    }
}

impl AttrValue {
    /// Deep structural equality: two values are equal exactly when their
    /// models are.
    #[verifier::loop_isolation(false)]
    pub fn deep_eq(&self, other: &AttrValue) -> (r: bool)
        ensures
            r == (self@ == other@),
        decreases *self,
    {
        match (self, other) {
            (AttrValue::Null, AttrValue::Null) => true,
            (AttrValue::Bool(a), AttrValue::Bool(b)) => *a == *b,
            (AttrValue::Num(a), AttrValue::Num(b)) => *a == *b,
            (AttrValue::Str(a), AttrValue::Str(b)) => *a == *b,
            (AttrValue::Arr(xs), AttrValue::Arr(ys)) => {
                if xs.len() != ys.len() {
                    proof {
                        assert(self@->Arr_0.len() == xs@.len());
                        assert(other@->Arr_0.len() == ys@.len());
                    }
                    return false;
                }
                let mut i: usize = 0;
                while i < xs.len()
                    invariant
                        i <= xs.len(),
                        xs.len() == ys.len(),
                        *self == AttrValue::Arr(*xs),
                        *other == AttrValue::Arr(*ys),
                        forall|j: int| 0 <= j < i ==> xs@[j]@ == ys@[j]@,
                    decreases xs.len() - i,
                {
                    let a = &xs[i];
                    let b = &ys[i];
                    if !a.deep_eq(b) {
                        proof {
                            assert(self@->Arr_0[i as int] == xs@[i as int]@);
                            assert(other@->Arr_0[i as int] == ys@[i as int]@);
                        }
                        return false;
                    }
                    i += 1;
                }
                proof {
                    let s1 = self@->Arr_0;
                    let s2 = other@->Arr_0;
                    assert forall|j: int| 0 <= j < s1.len() implies s1[j] == s2[j] by {
                        assert(s1[j] == xs@[j]@);
                        assert(s2[j] == ys@[j]@);
                    }
                    assert(s1 =~= s2);
                    assert(self@ =~= other@);
                }
                true
            },
            (AttrValue::Obj(xs), AttrValue::Obj(ys)) => {
                if xs.len() != ys.len() {
                    proof {
                        assert(self@->Obj_0.len() == xs@.len());
                        assert(other@->Obj_0.len() == ys@.len());
                    }
                    return false;
                }
                let mut i: usize = 0;
                while i < xs.len()
                    invariant
                        i <= xs.len(),
                        xs.len() == ys.len(),
                        *self == AttrValue::Obj(*xs),
                        *other == AttrValue::Obj(*ys),
                        forall|j: int| 0 <= j < i
                            ==> xs@[j].0@ == ys@[j].0@ && xs@[j].1@ == ys@[j].1@,
                    decreases xs.len() - i,
                {
                    let xe = &xs[i];
                    let ye = &ys[i];
                    if !(xe.0 == ye.0) || !xe.1.deep_eq(&ye.1) {
                        proof {
                            let ii = i as int;
                            assert(self@->Obj_0[ii] == (xs@[ii].0@, xs@[ii].1@));
                            assert(other@->Obj_0[ii] == (ys@[ii].0@, ys@[ii].1@));
                        }
                        return false;
                    }
                    i += 1;
                }
                proof {
                    let s1 = self@->Obj_0;
                    let s2 = other@->Obj_0;
                    assert forall|j: int| 0 <= j < s1.len() implies s1[j] == s2[j] by {
                        assert(s1[j] == (xs@[j].0@, xs@[j].1@));
                        assert(s2[j] == (ys@[j].0@, ys@[j].1@));
                    }
                    assert(s1 =~= s2);
                    assert(self@ =~= other@);
                }
                true
            },
            _ => {
                proof {
                    lemma_model_variant(*self);
                    lemma_model_variant(*other);
                }
                false
            },
        }
    }

    /// A copy whose model is the same as this value's.
    #[verifier::loop_isolation(false)]
    pub fn duplicate(&self) -> (r: AttrValue)
        ensures
            r@ == self@,
        decreases *self,
    {
        match self {
            AttrValue::Null => AttrValue::Null,
            AttrValue::Bool(b) => AttrValue::Bool(*b),
            AttrValue::Num(s) => AttrValue::Num(s.clone()),
            AttrValue::Str(s) => AttrValue::Str(s.clone()),
            AttrValue::Arr(xs) => {
                let mut out: Vec<AttrValue> = Vec::new();
                let mut i: usize = 0;
                while i < xs.len()
                    invariant
                        i <= xs.len(),
                        *self == AttrValue::Arr(*xs),
                        out@.len() == i,
                        forall|j: int| 0 <= j < i ==> out@[j]@ == xs@[j]@,
                    decreases xs.len() - i,
                {
                    let x = &xs[i];
                    out.push(x.duplicate());
                    i += 1;
                }
                proof {
                    let s1 = AttrValue::Arr(out)@->Arr_0;
                    let s2 = self@->Arr_0;
                    assert forall|j: int| 0 <= j < s1.len() implies s1[j] == s2[j] by {
                        assert(s1[j] == out@[j]@);
                        assert(s2[j] == xs@[j]@);
                    }
                    assert(s1 =~= s2);
                    assert(AttrValue::Arr(out)@ =~= self@);
                }
                AttrValue::Arr(out)
            },
            AttrValue::Obj(fields) => {
                let mut out: Vec<(String, AttrValue)> = Vec::new();
                let mut i: usize = 0;
                while i < fields.len()
                    invariant
                        i <= fields.len(),
                        *self == AttrValue::Obj(*fields),
                        out@.len() == i,
                        forall|j: int| 0 <= j < i
                            ==> out@[j].0@ == fields@[j].0@ && out@[j].1@ == fields@[j].1@,
                    decreases fields.len() - i,
                {
                    let (k, v) = &fields[i];
                    out.push((k.clone(), v.duplicate()));
                    i += 1;
                }
                proof {
                    let s1 = AttrValue::Obj(out)@->Obj_0;
                    let s2 = self@->Obj_0;
                    assert forall|j: int| 0 <= j < s1.len() implies s1[j] == s2[j] by {
                        assert(s1[j] == (out@[j].0@, out@[j].1@));
                        assert(s2[j] == (fields@[j].0@, fields@[j].1@));
                    }
                    assert(s1 =~= s2);
                    assert(AttrValue::Obj(out)@ =~= self@);
                }
                AttrValue::Obj(out)
            },
        }
    }
}

} // verus!
