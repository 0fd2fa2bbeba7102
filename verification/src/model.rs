//! Copies that keep what a value stands for.
use crate::binary64::Binary64;
use crate::json::Json;
use crate::text::{same_text, TextMap, TextSet};
use vstd::prelude::*;

verus! {

/// A value that can be copied without change to what it stands for.
pub trait Duplicate: DeepView + Sized {
    fn duplicate(&self) -> (r: Self)
        ensures
            r.deep_view() == self.deep_view(),
    ;
}

impl Duplicate for bool {
    fn duplicate(&self) -> (r: Self) {
        *self
    }
}

impl Duplicate for u8 {
    fn duplicate(&self) -> (r: Self) {
        *self
    }
}

impl Duplicate for u32 {
    fn duplicate(&self) -> (r: Self) {
        *self
    }
}

impl Duplicate for u64 {
    fn duplicate(&self) -> (r: Self) {
        *self
    }
}

impl Duplicate for u128 {
    fn duplicate(&self) -> (r: Self) {
        *self
    }
}

impl Duplicate for usize {
    fn duplicate(&self) -> (r: Self) {
        *self
    }
}

impl Duplicate for Binary64 {
    fn duplicate(&self) -> (r: Self) {
        *self
    }
}

impl Duplicate for String {
    fn duplicate(&self) -> (r: Self) {
        self.clone()
    }
}

impl Duplicate for Json {
    fn duplicate(&self) -> (r: Self) {
        self.clone()
    }
}

impl Duplicate for TextSet {
    fn duplicate(&self) -> (r: Self) {
        let r: TextSet = self.clone();
        assert(r.deep_view() =~= self.deep_view());
        r
    }
}

impl<T: Duplicate> Duplicate for Option<T> {
    fn duplicate(&self) -> (r: Self) {
        match self {
            Some(t) => Some(t.duplicate()),
            None => None,
        }
    }
}

impl<T: Duplicate> Duplicate for Vec<T> {
    fn duplicate(&self) -> (r: Self) {
        let mut out: Vec<T> = Vec::new();
        let mut i: usize = 0;
        while i < self.len()
            invariant
                i <= self@.len(),
                out@.len() == i,
                forall|j: int|
                    0 <= j < i ==> (#[trigger] out@[j]).deep_view() == self@[j].deep_view(),
            decreases self@.len() - i,
        {
            out.push(self[i].duplicate());
            i += 1;
        }
        assert(out.deep_view() =~= self.deep_view());
        out
    }
}

impl<V: Duplicate> Duplicate for TextMap<V> {
    fn duplicate(&self) -> (r: Self) {
        let n: usize = self.len();
        let mut out: TextMap<V> = TextMap::new();
        let mut i: usize = 0;
        while i < n
            invariant
                n == self.keys().len(),
                n == self.values().len(),
                i <= n,
                self.keys().no_duplicates(),
                forall|j: int|
                    0 <= j < n ==> self.spec_get(#[trigger] self.keys()[j]) == Some(
                        self.values()[j],
                    ),
                forall|t: Seq<char>| #[trigger] out.has(t) ==> self.has(t),
                forall|j: int| 0 <= j < i ==> out.has(#[trigger] self.keys()[j]),
                forall|j: int|
                    0 <= j < i ==> out.spec_get(#[trigger] self.keys()[j])->0.deep_view()
                        == self.values()[j].deep_view(),
            decreases n - i,
        {
            out.insert(self.key_at(i).clone(), self.value_at(i).duplicate());
            i += 1;
        }
        proof {
            assert forall|t: Seq<char>| self.has(t) implies out.has(t) && out.spec_get(
                t,
            )->0.deep_view() == self.spec_get(t)->0.deep_view() by {
                let k = choose|k: int| 0 <= k < self.keys().len() && self.keys()[k] == t;
                assert(self.keys()[k] == t);
            }
            assert(out.deep_view() =~= self.deep_view());
        }
        out
    }
}

/// A value that can be held against another of its type.
pub trait Comparable: DeepView + Sized {
    /// Whether both stand for the same.
    fn same(&self, other: &Self) -> (r: bool)
        ensures
            r == (self.deep_view() == other.deep_view()),
    ;
}

impl Comparable for String {
    fn same(&self, other: &Self) -> (r: bool) {
        same_text(self.as_str(), other.as_str())
    }
}

impl<T: Comparable> Comparable for Option<T> {
    fn same(&self, other: &Self) -> (r: bool) {
        match (self, other) {
            (Some(a), Some(b)) => a.same(b),
            (None, None) => true,
            _ => false,
        }
    }
}

impl<T: Comparable> Comparable for Vec<T> {
    fn same(&self, other: &Self) -> (r: bool) {
        let ghost a = self.deep_view();
        let ghost b = other.deep_view();
        if self.len() != other.len() {
            assert(a.len() != b.len());
            return false;
        }
        let mut i: usize = 0;
        while i < self.len()
            invariant
                i <= self@.len(),
                self@.len() == other@.len(),
                a == self.deep_view(),
                b == other.deep_view(),
                forall|j: int| 0 <= j < i ==> #[trigger] a[j] == b[j],
            decreases self@.len() - i,
        {
            assert(a[i as int] == self@[i as int].deep_view());
            assert(b[i as int] == other@[i as int].deep_view());
            if !self[i].same(&other[i]) {
                return false;
            }
            i += 1;
        }
        assert(a =~= b);
        true
    }
}

} // verus!
