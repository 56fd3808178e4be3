//! Page-aligned sizing of buffers of fixed-size elements.
//!
//! `round_up` rounds a byte count to a boundary, `page_aligned` rounds it to
//! a page, and `MemAlign<T>` describes how a page-aligned region sized for a
//! number of `T`s splits into whole elements and leftover bytes.
use vstd::prelude::*;

verus! {

use vstd::arithmetic::div_mod::{
    lemma_fundamental_div_mod,
    lemma_mod_bound,
    lemma_mod_multiples_vanish,
    lemma_mod_self_0,
};
use vstd::layout::size_of;

/// Bytes in a page: every reserved region is a multiple of this.
pub const PAGE_SIZE: usize = 4096;

/// `x` rounded up to a multiple of `to`. A value that is already a
/// multiple (zero included) is returned unchanged.
pub open spec fn round_up_spec(x: nat, to: nat) -> nat
    recommends
        to > 0,
{
    if x % to == 0 {
        x
    } else {
        (x - x % to + to) as nat
    }
}

/// `size` rounded up to a whole number of pages.
pub open spec fn page_aligned_spec(size: nat) -> nat {
    round_up_spec(size, PAGE_SIZE as nat)
}

/// The rounded value is a multiple of `to`, is at least `x`, and lies less
/// than `to` above it.
pub proof fn lemma_round_up_bounds(x: nat, to: nat)
    requires
        to > 0,
    ensures
        round_up_spec(x, to) % to == 0,
        x <= round_up_spec(x, to) < x + to,
        x % to <= x,
{
    let m = x % to;
    lemma_mod_bound(x as int, to as int);
    lemma_fundamental_div_mod(x as int, to as int);
    assert(to * (x as int / to as int) >= 0) by (nonlinear_arith)
        requires
            to > 0,
            x >= 0,
    ;
    if m != 0 {
        let q = x as int / to as int;
        assert(x - m + to == to * (q + 1)) by (nonlinear_arith)
            requires
                x == to * q + m,
        ;
        lemma_mod_multiples_vanish(q + 1, 0, to as int);
        lemma_mod_self_0(to as int);
        assert(0int % (to as int) == 0) by (nonlinear_arith)
            requires
                to > 0,
        ;
    }
}

/// Rounding any positive value up to `to` gives a multiple of `to`.
pub proof fn lemma_round_up_is_multiple(x: nat, to: nat)
    requires
        x >= 1,
        to > 0,
    ensures
        round_up_spec(x, to) % to == 0,
{
    lemma_round_up_bounds(x, to);
}

/// Zero stays zero: it is not advanced to `to`.
pub proof fn lemma_round_up_zero(to: nat)
    requires
        to > 0,
    ensures
        round_up_spec(0, to) == 0,
{
    assert(0nat % to == 0) by (nonlinear_arith)
        requires
            to > 0,
    ;
}

/// Rounding a second time changes nothing.
pub proof fn lemma_round_up_idempotent(x: nat, to: nat)
    requires
        to > 0,
    ensures
        round_up_spec(round_up_spec(x, to), to) == round_up_spec(x, to),
{
    lemma_round_up_bounds(x, to);
}

/// Rounds `x` up to a multiple of `to`; a multiple of `to` (zero included)
/// comes back unchanged. Because zero stays zero, a request for zero
/// elements yields a zero byte size, which `MemAlign::new` does not admit.
pub fn round_up(x: usize, to: usize) -> (r: usize)
    requires
        to > 0,
        round_up_spec(x as nat, to as nat) <= usize::MAX,
    ensures
        r == round_up_spec(x as nat, to as nat),
        r % to == 0,
        x <= r < x + to,
{
    proof {
        lemma_round_up_bounds(x as nat, to as nat);
    }
    let m = x % to;
    if m == 0 {
        x
    } else {
        x - m + to
    }
}

/// Rounds `size` up to a whole number of pages.
pub fn page_aligned(size: usize) -> (r: usize)
    requires
        page_aligned_spec(size as nat) <= usize::MAX,
    ensures
        r == page_aligned_spec(size as nat),
        r == round_up_spec(size as nat, 4096),
{
    round_up(size, PAGE_SIZE)
}

/// Sizing of a page-aligned region meant to hold elements of type `T`:
/// its size in bytes, how many whole `T`s fit in it, and how many bytes are
/// left after them. No value of `T` is held.
#[derive(PartialEq, Eq, Debug)]
pub struct MemAlign<T> {
    byte_size: usize,
    capacity: usize,
    remainder: usize,
    phantom: core::marker::PhantomData<T>,
}

impl<T> Clone for MemAlign<T> {
    fn clone(&self) -> (r: Self)
        ensures
            r == *self,
    {
        proof {
            use_type_invariant(self);
        }
        MemAlign {
            byte_size: self.byte_size,
            capacity: self.capacity,
            remainder: self.remainder,
            phantom: core::marker::PhantomData,
        }
    }
}

impl<T> Copy for MemAlign<T> {}

impl<T> MemAlign<T> {
    /// Bytes reserved.
    pub closed spec fn spec_byte_size(self) -> nat {
        self.byte_size as nat
    }

    /// Whole elements that fit in the reserved bytes.
    pub closed spec fn spec_capacity(self) -> nat {
        self.capacity as nat
    }

    /// Bytes left after the whole elements.
    pub closed spec fn spec_remainder(self) -> nat {
        self.remainder as nat
    }

    /// Whether a region for `capacity_request` elements can be described:
    /// `T` has a non-zero size, the page-aligned byte size is not zero, and
    /// the sizes fit in a `usize`.
    pub open spec fn admits(capacity_request: nat) -> bool {
        &&& size_of::<T>() > 0
        &&& size_of::<T>() * capacity_request <= usize::MAX
        &&& page_aligned_spec(size_of::<T>() * capacity_request) <= usize::MAX
        &&& page_aligned_spec(size_of::<T>() * capacity_request) != 0
    }

    #[verifier::type_invariant]
    closed spec fn inv(self) -> bool {
        &&& size_of::<T>() > 0
        &&& self.byte_size != 0
        &&& self.byte_size as nat % (PAGE_SIZE as nat) == 0
        &&& self.remainder < size_of::<T>()
        &&& size_of::<T>() * self.capacity + self.remainder == self.byte_size
    }

    /// A zero-sized element type admits no request.
    pub proof fn lemma_zero_sized_rejected(capacity_request: nat)
        requires
            size_of::<T>() == 0,
        ensures
            !Self::admits(capacity_request),
    {
    }

    /// A request for zero elements is not admitted: its byte size stays zero.
    pub proof fn lemma_zero_request_rejected()
        ensures
            page_aligned_spec(size_of::<T>() * 0nat) == 0,
            !Self::admits(0),
    {
        lemma_round_up_zero(PAGE_SIZE as nat);
    }

    /// Size of one element in bytes.
    pub fn element_size() -> (r: usize)
        ensures
            r as nat == size_of::<T>(),
    {
        core::mem::size_of::<T>()
    }

    /// Bytes reserved: a non-zero multiple of the page size.
    pub fn byte_size(&self) -> (r: usize)
        ensures
            r as nat == self.spec_byte_size(),
            r > 0,
            r % PAGE_SIZE == 0,
    {
        proof {
            use_type_invariant(self);
        }
        self.byte_size
    }

    /// Capacity in elements.
    pub fn capacity(&self) -> (r: usize)
        ensures
            r as nat == self.spec_capacity(),
    {
        self.capacity
    }

    /// Remainder in bytes.
    pub fn remainder(&self) -> (r: usize)
        ensures
            r as nat == self.spec_remainder(),
            r < size_of::<T>(),
    {
        proof {
            use_type_invariant(self);
        }
        self.remainder
    }

    /// Whether the element size times the capacity, plus the remainder, is
    /// the byte size. It holds of every descriptor.
    pub fn is_valid(&self) -> (r: bool)
        ensures
            r == (size_of::<T>() * self.spec_capacity() + self.spec_remainder()
                == self.spec_byte_size()),
            r,
    {
        proof {
            use_type_invariant(self);
        }
        (Self::element_size() * self.capacity) + self.remainder == self.byte_size
    }

    /// Describes the page-aligned region for `capacity` elements: the byte
    /// size is `element_size() * capacity` rounded up to a page, and it
    /// splits into as many whole elements as fit and the bytes left over.
    /// A zero-sized `T`, and a request whose byte size is zero (a request
    /// for zero elements), are not admitted.
    pub fn new(capacity: usize) -> (r: Self)
        requires
            Self::admits(capacity as nat),
        ensures
            r.spec_byte_size() == page_aligned_spec(size_of::<T>() * capacity as nat),
            r.spec_remainder() == r.spec_byte_size() % size_of::<T>(),
            r.spec_capacity() == r.spec_byte_size() / size_of::<T>(),
            size_of::<T>() * r.spec_capacity() + r.spec_remainder() == r.spec_byte_size(),
    {
        let element_size = Self::element_size();
        let size = element_size * capacity;
        let byte_size = page_aligned(size);
        let remainder = byte_size % element_size;
        proof {
            lemma_fundamental_div_mod(byte_size as int, element_size as int);
            lemma_round_up_bounds(size as nat, PAGE_SIZE as nat);
        }
        let capacity = (byte_size - remainder) / element_size;
        proof {
            let q = byte_size as int / element_size as int;
            assert((element_size * q) / element_size as int == q) by (nonlinear_arith)
                requires
                    element_size > 0,
            ;
            assert(byte_size - remainder == element_size * q);
        }
        MemAlign { byte_size, capacity, remainder, phantom: core::marker::PhantomData }
    }
}

} // verus!
