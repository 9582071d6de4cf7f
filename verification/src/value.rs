//! What the values of the scene model have in common: they can be copied
//! out whole, and an edit is held against an equality of their own.

use std::sync::Arc;

use vstd::prelude::*;

use crate::bits::{Num, Vec2, Vec3};

verus! {

/// Values that can be copied out whole.
pub trait Duplicate: Sized {
    /// A copy of the value.
    fn duplicate(&self) -> (r: Self)
        ensures
            r == *self,
    ;
}

/// Values with an equality of their own, which an edit is held against.
/// It is not the identity: numbers compare as numbers, so a value that
/// holds what is no number differs from itself.
pub trait Same: Sized {
    /// The two are equal.
    spec fn same(self, other: Self) -> bool;

    /// Whether the two are equal.
    fn is_same(&self, other: &Self) -> (r: bool)
        ensures
            r == self.same(*other),
    ;

    /// What equals an equal is equal.
    proof fn same_chains(self, middle: Self, last: Self)
        requires
            self.same(middle),
            middle.same(last),
        ensures
            self.same(last),
    ;
}

/// Another owner of a shared payload.
///
/// Calls [`Arc::clone`], which makes another pointer to the same allocation:
/// what is behind the new pointer is what is behind the old one.
#[verifier::external_body]
pub(crate) fn share<T>(payload: &Arc<T>) -> (r: Arc<T>)
    ensures
        r == *payload,
{
    Arc::clone(payload)
}

/// What a shared payload is.
spec fn behind<T>(payload: Arc<T>) -> T {
    *payload
}

impl Duplicate for () {
    fn duplicate(&self) -> (r: ()) {
    }
}

impl<T> Duplicate for Arc<T> {
    fn duplicate(&self) -> (r: Arc<T>) {
        share(self)
    }
}

impl<T: Duplicate> Duplicate for Option<T> {
    fn duplicate(&self) -> (r: Option<T>) {
        match self {
            Some(value) => Some(value.duplicate()),
            None => None,
        }
    }
}

impl<T: Same> Same for Arc<T> {
    open spec fn same(self, other: Arc<T>) -> bool {
        (*self).same(*other)
    }

    fn is_same(&self, other: &Arc<T>) -> (r: bool) {
        (**self).is_same(&**other)
    }

    proof fn same_chains(self, middle: Arc<T>, last: Arc<T>) {
        behind(self).same_chains(behind(middle), behind(last));
    }
}

impl<T: Same> Same for Option<T> {
    open spec fn same(self, other: Option<T>) -> bool {
        match (self, other) {
            (Some(left), Some(right)) => left.same(right),
            (None, None) => true,
            _ => false,
        }
    }

    fn is_same(&self, other: &Option<T>) -> (r: bool) {
        match (self, other) {
            (Some(left), Some(right)) => left.is_same(right),
            (None, None) => true,
            _ => false,
        }
    }

    proof fn same_chains(self, middle: Option<T>, last: Option<T>) {
        if let (Some(left), Some(between), Some(right)) = (self, middle, last) {
            left.same_chains(between, right);
        }
    }
}

impl<T: Same> Same for Vec<T> {
    open spec fn same(self, other: Vec<T>) -> bool {
        self@.len() == other@.len() && forall|i: int|
            0 <= i < self@.len() ==> (#[trigger] self@[i]).same(other@[i])
    }

    fn is_same(&self, other: &Vec<T>) -> (r: bool) {
        if self.len() != other.len() {
            return false;
        }
        for i in 0..self.len()
            invariant
                self@.len() == other@.len(),
                forall|j: int| 0 <= j < i ==> (#[trigger] self@[j]).same(other@[j]),
        {
            if !self[i].is_same(&other[i]) {
                assert(!self@[i as int].same(other@[i as int]));
                return false;
            }
        }
        true
    }

    proof fn same_chains(self, middle: Vec<T>, last: Vec<T>) {
        assert forall|i: int| 0 <= i < self@.len() implies (#[trigger] self@[i]).same(last@[i]) by {
            self@[i].same_chains(middle@[i], last@[i]);
        }
    }
}

impl Same for u32 {
    open spec fn same(self, other: u32) -> bool {
        self == other
    }

    fn is_same(&self, other: &u32) -> (r: bool) {
        *self == *other
    }

    proof fn same_chains(self, middle: u32, last: u32) {
    }
}

impl Same for bool {
    open spec fn same(self, other: bool) -> bool {
        self == other
    }

    fn is_same(&self, other: &bool) -> (r: bool) {
        *self == *other
    }

    proof fn same_chains(self, middle: bool, last: bool) {
    }
}

impl Same for [u32; 2] {
    open spec fn same(self, other: [u32; 2]) -> bool {
        self@ == other@
    }

    fn is_same(&self, other: &[u32; 2]) -> (r: bool) {
        let r = self[0] == other[0] && self[1] == other[1];
        assert(r ==> self@ =~= other@);
        r
    }

    proof fn same_chains(self, middle: [u32; 2], last: [u32; 2]) {
    }
}

impl Same for [u32; 3] {
    open spec fn same(self, other: [u32; 3]) -> bool {
        self@ == other@
    }

    fn is_same(&self, other: &[u32; 3]) -> (r: bool) {
        let r = self[0] == other[0] && self[1] == other[1] && self[2] == other[2];
        assert(r ==> self@ =~= other@);
        r
    }

    proof fn same_chains(self, middle: [u32; 3], last: [u32; 3]) {
    }
}

impl Same for Num {
    open spec fn same(self, other: Num) -> bool {
        self.equal(other)
    }

    fn is_same(&self, other: &Num) -> (r: bool) {
        self.equals(other)
    }

    proof fn same_chains(self, middle: Num, last: Num) {
    }
}

impl Same for Vec2 {
    open spec fn same(self, other: Vec2) -> bool {
        self.equal(other)
    }

    fn is_same(&self, other: &Vec2) -> (r: bool) {
        self.equals(other)
    }

    proof fn same_chains(self, middle: Vec2, last: Vec2) {
    }
}

impl Same for Vec3 {
    open spec fn same(self, other: Vec3) -> bool {
        self.equal(other)
    }

    fn is_same(&self, other: &Vec3) -> (r: bool) {
        self.equals(other)
    }

    proof fn same_chains(self, middle: Vec3, last: Vec3) {
    }
}

} // verus!
