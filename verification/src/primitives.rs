//! The two kinds of value a module is configured with: identifiers, which are
//! only ever compared, and unsigned counters, which are only ever stepped,
//! added and subtracted within their range.

use vstd::prelude::*;

verus! {

/// An opaque identifier. Two identifiers denote the same thing exactly when
/// their views are equal; nothing else about them is ever inspected.
pub trait Identifier: View + Sized {
    /// Whether `self` and `other` denote the same thing.
    fn same(&self, other: &Self) -> (r: bool)
        ensures
            r == (self@ == other@),
    ;

    /// A second identifier for the same thing.
    fn duplicate(&self) -> (r: Self)
        ensures
            r@ == self@,
    ;
}

/// Whether two string slices hold the same characters, decided on their
/// UTF-8 encodings.
pub fn str_same(a: &str, b: &str) -> (r: bool)
    ensures
        r == (a@ == b@),
{
    let x = a.as_bytes();
    let y = b.as_bytes();
    proof {
        // Encoding is injective: decoding gives the characters back.
        vstd::utf8::encode_utf8_decode_utf8(a@);
        vstd::utf8::encode_utf8_decode_utf8(b@);
    }
    if x.len() != y.len() {
        return false;
    }
    let mut i: usize = 0;
    while i < x.len()
        invariant
            i <= x.len(),
            x.len() == y.len(),
            x@ == vstd::utf8::encode_utf8(a@),
            y@ == vstd::utf8::encode_utf8(b@),
            forall|j: int| 0 <= j < i ==> x@[j] == y@[j],
        decreases x.len() - i,
    {
        if x[i] != y[i] {
            return false;
        }
        i += 1;
    }
    assert(x@ =~= y@);
    true
}

impl Identifier for String {
    fn same(&self, other: &Self) -> (r: bool) {
        *self == *other
    }

    fn duplicate(&self) -> (r: Self) {
        self.clone()
    }
}

impl<'a> Identifier for &'a str {
    fn same(&self, other: &Self) -> (r: bool) {
        str_same(*self, *other)
    }

    fn duplicate(&self) -> (r: Self) {
        *self
    }
}

impl Identifier for u32 {
    fn same(&self, other: &Self) -> (r: bool) {
        *self == *other
    }

    fn duplicate(&self) -> (r: Self) {
        *self
    }
}

impl Identifier for u64 {
    fn same(&self, other: &Self) -> (r: bool) {
        *self == *other
    }

    fn duplicate(&self) -> (r: Self) {
        *self
    }
}

/// An unsigned counter with a largest value. All arithmetic is stated over
/// the natural number `value()`; nothing wraps.
pub trait Unsigned: Copy + Sized {
    /// The number this counter stands for.
    spec fn value(self) -> nat;

    /// The largest number the type can hold.
    spec fn limit() -> nat;

    /// Every counter is within the type's range.
    proof fn lemma_in_range(self)
        ensures
            self.value() <= Self::limit(),
    ;

    fn zero() -> (r: Self)
        ensures
            r.value() == 0,
    ;

    /// The next counter, staying at the limit once it is reached.
    fn saturating_next(self) -> (r: Self)
        ensures
            r.value() == next_up_to(self.value(), Self::limit()),
    ;

    /// `self + rhs`, or `None` when the sum is beyond the limit.
    fn checked_add(self, rhs: Self) -> (r: Option<Self>)
        ensures
            match r {
                Some(sum) => sum.value() == self.value() + rhs.value(),
                None => self.value() + rhs.value() > Self::limit(),
            },
    ;

    /// `self - rhs`, or `None` when `rhs` is the larger.
    fn checked_sub(self, rhs: Self) -> (r: Option<Self>)
        ensures
            match r {
                Some(diff) => diff.value() == self.value() - rhs.value(),
                None => self.value() < rhs.value(),
            },
    ;

    /// Whether `self` and `other` stand for the same number.
    fn same(self, other: Self) -> (r: bool)
        ensures
            r == (self.value() == other.value()),
    ;
}

/// `n + 1`, except that a counter already at `limit` stays there.
pub open spec fn next_up_to(n: nat, limit: nat) -> nat {
    if n < limit {
        n + 1
    } else {
        limit
    }
}

impl Unsigned for u8 {
    open spec fn value(self) -> nat {
        self as nat
    }

    open spec fn limit() -> nat {
        u8::MAX as nat
    }

    proof fn lemma_in_range(self) {
    }

    fn zero() -> (r: Self) {
        0
    }

    fn saturating_next(self) -> (r: Self) {
        if self < u8::MAX {
            self + 1
        } else {
            self
        }
    }

    fn checked_add(self, rhs: Self) -> (r: Option<Self>) {
        if rhs <= u8::MAX - self {
            Some(self + rhs)
        } else {
            None
        }
    }

    fn checked_sub(self, rhs: Self) -> (r: Option<Self>) {
        if rhs <= self {
            Some(self - rhs)
        } else {
            None
        }
    }

    fn same(self, other: Self) -> (r: bool) {
        self == other
    }
}

impl Unsigned for u32 {
    open spec fn value(self) -> nat {
        self as nat
    }

    open spec fn limit() -> nat {
        u32::MAX as nat
    }

    proof fn lemma_in_range(self) {
    }

    fn zero() -> (r: Self) {
        0
    }

    fn saturating_next(self) -> (r: Self) {
        if self < u32::MAX {
            self + 1
        } else {
            self
        }
    }

    fn checked_add(self, rhs: Self) -> (r: Option<Self>) {
        if rhs <= u32::MAX - self {
            Some(self + rhs)
        } else {
            None
        }
    }

    fn checked_sub(self, rhs: Self) -> (r: Option<Self>) {
        if rhs <= self {
            Some(self - rhs)
        } else {
            None
        }
    }

    fn same(self, other: Self) -> (r: bool) {
        self == other
    }
}

impl Unsigned for u64 {
    open spec fn value(self) -> nat {
        self as nat
    }

    open spec fn limit() -> nat {
        u64::MAX as nat
    }

    proof fn lemma_in_range(self) {
    }

    fn zero() -> (r: Self) {
        0
    }

    fn saturating_next(self) -> (r: Self) {
        if self < u64::MAX {
            self + 1
        } else {
            self
        }
    }

    fn checked_add(self, rhs: Self) -> (r: Option<Self>) {
        if rhs <= u64::MAX - self {
            Some(self + rhs)
        } else {
            None
        }
    }

    fn checked_sub(self, rhs: Self) -> (r: Option<Self>) {
        if rhs <= self {
            Some(self - rhs)
        } else {
            None
        }
    }

    fn same(self, other: Self) -> (r: bool) {
        self == other
    }
}

impl Unsigned for u128 {
    open spec fn value(self) -> nat {
        self as nat
    }

    open spec fn limit() -> nat {
        u128::MAX as nat
    }

    proof fn lemma_in_range(self) {
    }

    fn zero() -> (r: Self) {
        0
    }

    fn saturating_next(self) -> (r: Self) {
        if self < u128::MAX {
            self + 1
        } else {
            self
        }
    }

    fn checked_add(self, rhs: Self) -> (r: Option<Self>) {
        if rhs <= u128::MAX - self {
            Some(self + rhs)
        } else {
            None
        }
    }

    fn checked_sub(self, rhs: Self) -> (r: Option<Self>) {
        if rhs <= self {
            Some(self - rhs)
        } else {
            None
        }
    }

    fn same(self, other: Self) -> (r: bool) {
        self == other
    }
}

} // verus!
