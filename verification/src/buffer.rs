use vstd::prelude::*;

use std::rc::Rc;

verus! {

/// A copy-on-write payload container.
///
/// A buffer is either exclusively owned, and may be mutated in place,
/// or a shared handle onto a reference-counted allocation that was
/// published into a wire record. Reclaiming exclusive ownership from a
/// shared handle succeeds only when no other holder aliases the same
/// allocation; otherwise the first mutation pays for one copy.
#[derive(Debug)]
pub enum Buffer<T> {
    Owned(Vec<T>),
    Shared(Rc<Vec<T>>),
}

impl<T> View for Buffer<T> {
    type V = Seq<T>;

    open spec fn view(&self) -> Seq<T> {
        match self {
            Buffer::Owned(v) => v@,
            Buffer::Shared(rc) => rc@,
        }
    }
}

impl<T> Buffer<T> {
    /// True when this buffer holds its allocation exclusively.
    pub open spec fn is_owned(&self) -> bool {
        self is Owned
    }

    /// Wraps an owned vector without copying it.
    pub fn from_vec(v: Vec<T>) -> (r: Buffer<T>)
        ensures
            r@ == v@,
            r.is_owned(),
    {
        Buffer::Owned(v)
    }

    /// Wraps a shared handle without copying the allocation.
    pub fn from_rc(rc: Rc<Vec<T>>) -> (r: Buffer<T>)
        ensures
            r@ == rc@,
            !r.is_owned(),
    {
        Buffer::Shared(rc)
    }

    /// The number of elements.
    pub fn len(&self) -> (n: usize)
        ensures
            n == self@.len(),
    {
        match self {
            Buffer::Owned(v) => v.len(),
            Buffer::Shared(rc) => rc.len(),
        }
    }

    /// Read-only access to the elements, without copying.
    pub fn as_vec(&self) -> (r: &Vec<T>)
        ensures
            r@ == self@,
    {
        match self {
            Buffer::Owned(v) => v,
            Buffer::Shared(rc) => &**rc,
        }
    }

    /// Attempts to reclaim the allocation as an exclusively owned
    /// vector, without copying. Fails exactly when the buffer is a
    /// shared handle whose allocation another holder still aliases;
    /// the handle comes back unchanged in that case.
    pub fn try_into_vec(self) -> (r: Result<Vec<T>, Buffer<T>>)
        ensures
            match r {
                Ok(v) => v@ == self@,
                Err(b) => b@ == self@ && !self.is_owned() && !b.is_owned(),
            },
    {
        match self {
            Buffer::Owned(v) => Ok(v),
            Buffer::Shared(rc) => match Rc::try_unwrap(rc) {
                Ok(v) => Ok(v),
                Err(rc) => Err(Buffer::Shared(rc)),
            },
        }
    }
}

impl<T: Copy> Buffer<T> {
    /// Reclaims the elements as an exclusively owned vector. An owned
    /// buffer and an unaliased shared handle give up their allocation
    /// as it stands; an aliased handle is copied once.
    pub fn into_owned_vec(self) -> (r: Vec<T>)
        ensures
            r@ == self@,
    {
        match self {
            Buffer::Owned(v) => v,
            Buffer::Shared(rc) => match Rc::try_unwrap(rc) {
                Ok(v) => v,
                Err(rc) => copy_vec(&rc),
            },
        }
    }

    /// Turns the buffer into its exclusively owned form in place,
    /// keeping the elements. This is the copy-on-write step: it copies
    /// only when the allocation is still aliased by another holder.
    pub fn make_owned(&mut self)
        ensures
            final(self)@ == old(self)@,
            final(self).is_owned(),
    {
        let mut taken = Buffer::Owned(Vec::new());
        core::mem::swap(self, &mut taken);
        *self = Buffer::Owned(taken.into_owned_vec());
    }
}

/// Relies on `Rc::clone`: hands out a second handle onto the same
/// allocation, without reading or copying the elements.
#[verifier::external_body]
pub(crate) fn rc_clone<T>(rc: &Rc<Vec<T>>) -> (r: Rc<Vec<T>>)
    ensures
        r == *rc,
{
    Rc::clone(rc)
}

/// One element-by-element copy of a vector of plain values.
fn copy_vec<T: Copy>(src: &Vec<T>) -> (r: Vec<T>)
    ensures
        r@ == src@,
{
    let mut out: Vec<T> = Vec::new();
    let n = src.len();
    for i in 0..n
        invariant
            n == src@.len(),
            out@ == src@.subrange(0, i as int),
    {
        out.push(src[i]);
        proof {
            assert(out@ =~= src@.subrange(0, i + 1 as int));
        }
    }
    proof {
        assert(out@ =~= src@);
    }
    out
}

} // verus!
