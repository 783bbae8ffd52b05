//! The resource-identifier allocator.
//!
//! The server grants the client an identifier space described by a base
//! value and a mask of grantable bits.  Successive allocations return
//! the base combined with increasing counter values that touch only
//! bits of the mask, so no handle is ever handed out twice for the life
//! of the connection.  When the masked counter space is used up the
//! allocator is exhausted and every further call fails.

use vstd::prelude::*;

verus! {

/// Produces unique 32-bit handles for server-side objects from the
/// server-provided base/mask pair.
pub struct ResourceAllocator {
    base: u32,
    mask: u32,
    cur: u32,
    exhausted: bool,
    issued: Ghost<Seq<u32>>,
}

impl ResourceAllocator {
    /// The base value every handle carries outside the mask.
    pub closed spec fn base_val(self) -> u32 {
        self.base
    }

    /// The mask of grantable bits.
    pub closed spec fn mask_val(self) -> u32 {
        self.mask
    }

    /// Every handle handed out so far, oldest first.
    pub closed spec fn issued(self) -> Seq<u32> {
        self.issued@
    }

    /// Whether the masked counter space is used up.
    pub closed spec fn spec_exhausted(self) -> bool {
        self.exhausted
    }

    /// The allocator's invariant: the base carries no grantable bits,
    /// the pending counter touches only grantable bits, and the handles
    /// issued so far carry the base outside the mask and strictly
    /// increasing counter values inside it, all below the pending one.
    pub closed spec fn wf(self) -> bool {
        &&& self.base & self.mask == 0
        &&& (!self.exhausted ==> self.cur & !self.mask == 0)
        &&& (forall|i: int|
            0 <= i < self.issued@.len() ==> (#[trigger] self.issued@[i]) & !self.mask
                == self.base)
        &&& (forall|i: int|
            0 <= i < self.issued@.len() ==> (#[trigger] self.issued@[i]) & self.mask
                <= self.cur)
        &&& (!self.exhausted ==> forall|i: int|
            0 <= i < self.issued@.len() ==> (#[trigger] self.issued@[i]) & self.mask
                < self.cur)
        &&& (forall|i: int, j: int|
            0 <= i < j < self.issued@.len() ==> (#[trigger] self.issued@[i]) & self.mask < (
            #[trigger] self.issued@[j]) & self.mask)
    }

    /// Builds an allocator over the granted identifier space.  Any
    /// grantable bits the server left set in the base are ignored, so
    /// that every handle is the base outside the mask plus a counter
    /// inside it.
    pub fn new(base: u32, mask: u32) -> (r: ResourceAllocator)
        ensures
            r.wf(),
            r.base_val() == base & !mask,
            r.mask_val() == mask,
            r.issued() == Seq::<u32>::empty(),
            !r.spec_exhausted(),
    {
        let b = base & !mask;
        proof {
            assert((base & !mask) & mask == 0) by (bit_vector);
            assert(0u32 & !mask == 0) by (bit_vector);
        }
        ResourceAllocator { base: b, mask, cur: 0, exhausted: false, issued: Ghost(Seq::empty()) }
    }

    /// Returns whether the allocator has run out of handles.
    pub fn is_exhausted(&self) -> (r: bool)
        ensures
            r == self.spec_exhausted(),
    {
        self.exhausted
    }

    /// Hands out the next unique handle, or nothing when the space is
    /// exhausted.  Succeeds exactly when the allocator is not yet
    /// exhausted.
    pub fn allocate(&mut self) -> (r: Option<u32>)
        requires
            old(self).wf(),
        ensures
            final(self).wf(),
            final(self).base_val() == old(self).base_val(),
            final(self).mask_val() == old(self).mask_val(),
            r is Some == !old(self).spec_exhausted(),
            (match r {
                Some(id) => {
                    &&& final(self).issued() == old(self).issued().push(id)
                    &&& id & !old(self).mask_val() == old(self).base_val()
                },
                None => *final(self) == *old(self),
            }),
    {
        if self.exhausted {
            return None;
        }
        let id = self.base | self.cur;
        proof {
            let b = self.base;
            let m = self.mask;
            let c = self.cur;
            assert((b & m == 0 && c & !m == 0) ==> ((b | c) & !m == b && (b | c) & m == c))
                by (bit_vector);
            self.issued@ = self.issued@.push(id);
        }
        self.advance();
        Some(id)
    }

    /// Moves the counter to the next value that touches only mask
    /// bits, or marks the allocator exhausted when none is left.
    fn advance(&mut self)
        requires
            !old(self).exhausted,
        ensures
            final(self).base == old(self).base,
            final(self).mask == old(self).mask,
            final(self).issued@ == old(self).issued@,
            !final(self).exhausted ==> final(self).cur & !final(self).mask == 0 && final(self).cur
                > old(self).cur,
            final(self).exhausted ==> final(self).cur >= old(self).cur,
    {
        if self.mask == 0 {
            self.exhausted = true;
            return ;
        }
        proof {
            let m = self.mask;
            assert(m != 0 ==> !m < 0xFFFFFFFFu32) by (bit_vector);
            assert(m != 0 ==> (m & ((!m + 1) as u32)) >= 1) by (bit_vector);
        }
        let inc = self.mask & (!self.mask + 1);
        let mut c = self.cur;
        let mut ex = false;
        loop
            invariant_except_break
                inc >= 1,
                c >= self.cur,
                self == old(self),
            ensures
                self == old(self),
                !ex ==> c & !self.mask == 0 && c > self.cur,
            decreases 0x1_0000_0000int - c,
        {
            match c.checked_add(inc) {
                None => {
                    ex = true;
                    break ;
                },
                Some(c2) => {
                    c = c2;
                    if c > self.mask {
                        ex = true;
                        break ;
                    }
                    if c & !self.mask == 0 {
                        break ;
                    }
                },
            }
        }
        if ex {
            self.exhausted = true;
        } else {
            self.cur = c;
        }
    }
}

/// Every handle this allocator has issued differs from every other,
/// and each agrees with the base on all bits outside the mask.
pub proof fn lemma_issued_distinct(a: ResourceAllocator)
    requires
        a.wf(),
    ensures
        forall|i: int, j: int|
            0 <= i < j < a.issued().len() ==> a.issued()[i] != a.issued()[j],
        forall|i: int|
            0 <= i < a.issued().len() ==> a.issued()[i] & !a.mask_val() == a.base_val()
                & !a.mask_val(),
{
    assert forall|i: int, j: int|
        0 <= i < j < a.issued().len() implies a.issued()[i] != a.issued()[j] by {
        assert(a.issued()[i] & a.mask_val() < a.issued()[j] & a.mask_val());
    }
    let b = a.base_val();
    let m = a.mask_val();
    assert(b & m == 0 ==> b & !m == b) by (bit_vector);
}

} // verus!
