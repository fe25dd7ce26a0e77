//! Owned I/O buffers that stay in place while an operation is in flight.
use vstd::prelude::*;

verus! {

/// Relies on `Vec::capacity`: the allocation never holds fewer elements than the length.
#[verifier::external_body]
fn vec_capacity(v: &Vec<u8>) -> (r: usize)
    ensures
        r >= v.len(),
{
    v.capacity()
}

/// A receive buffer: an initialized prefix followed by spare room that the
/// kernel fills while the operation is in flight.
#[derive(Debug)]
pub struct BufWrapperMut {
    buffer: Vec<u8>,
    init: usize,
}

impl BufWrapperMut {
    /// The whole storage, initialized prefix and spare room.
    pub closed spec fn storage(&self) -> Seq<u8> {
        self.buffer@
    }

    /// How many leading bytes are initialized.
    pub closed spec fn init_len(&self) -> nat {
        self.init as nat
    }

    /// The bytes the caller can see.
    pub open spec fn initialized(&self) -> Seq<u8> {
        self.storage().subrange(0, self.init_len() as int)
    }

    /// Total room, initialized or not.
    pub open spec fn capacity(&self) -> nat {
        self.storage().len()
    }

    /// Room left for the kernel to fill.
    pub open spec fn room(&self) -> nat {
        if self.init_len() <= self.capacity() {
            (self.capacity() - self.init_len()) as nat
        } else {
            0
        }
    }

    pub closed spec fn wf(&self) -> bool {
        self.init <= self.buffer.len()
    }

    /// Wrap `buffer`: its elements are the initialized prefix, the rest of its
    /// allocation is the room offered to the kernel.
    pub fn new(buffer: Vec<u8>) -> (r: Self)
        ensures
            r.wf(),
            r.initialized() == buffer@,
            r.capacity() >= buffer@.len(),
    {
        let ghost given = buffer@;
        let mut buffer = buffer;
        let init = buffer.len();
        let cap = vec_capacity(&buffer);
        buffer.resize(cap, 0u8);
        assert(buffer@.subrange(0, init as int) == given);
        BufWrapperMut { buffer, init }
    }

    /// Number of initialized bytes.
    pub fn buf_len(&self) -> (r: usize)
        ensures
            r == self.init_len(),
    {
        self.init
    }

    /// Number of bytes the kernel may still write.
    pub fn uninit_len(&self) -> (r: usize)
        ensures
            r == self.room(),
    {
        if self.init <= self.buffer.len() {
            self.buffer.len() - self.init
        } else {
            0
        }
    }

    /// The whole storage, for the kernel to write into the room past the
    /// initialized prefix. The caller must not change its length.
    pub fn as_mut_storage(&mut self) -> (r: &mut Vec<u8>)
        ensures
            r@ == old(self).storage(),
            final(self).storage() == final(r)@,
            final(self).init_len() == old(self).init_len(),
    {
        &mut self.buffer
    }

    /// Mark `n` more bytes as initialized after the kernel wrote them.
    pub fn set_init(&mut self, n: usize)
        requires
            old(self).wf(),
            n <= old(self).room(),
        ensures
            final(self).wf(),
            final(self).storage() == old(self).storage(),
            final(self).init_len() == old(self).init_len() + n,
    {
        self.init = self.init + n;
    }

    /// Give back the buffer, holding exactly the initialized bytes.
    pub fn into_inner(self) -> (r: Vec<u8>)
        requires
            self.wf(),
        ensures
            r@ == self.initialized(),
    {
        let mut buffer = self.buffer;
        buffer.truncate(self.init);
        buffer
    }
}

} // verus!
