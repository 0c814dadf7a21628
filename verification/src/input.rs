use std::rc::Rc;
use vstd::prelude::*;

verus! {

/// A reference-counted input buffer that parsers and contexts can share.
#[derive(Clone)]
pub struct Shared {
    src: Rc<Vec<u8>>,
}

impl View for Shared {
    type V = Seq<u8>;

    open spec fn view(&self) -> Seq<u8> {
        self.spec_bytes()
    }
}

impl Shared {
    /// The bytes that this buffer holds.
    pub closed spec fn spec_bytes(&self) -> Seq<u8> {
        self.src@
    }

    /// Wraps a buffer so that it can be shared.
    pub fn new(src: Rc<Vec<u8>>) -> (s: Self)
        ensures
            s@ == src@,
    {
        Shared { src }
    }

    /// The underlying reference-counted buffer.
    pub fn src(&self) -> (r: &Rc<Vec<u8>>)
        ensures
            r@ == self@,
    {
        &self.src
    }

    /// The bytes of the buffer, as a slice.
    pub fn bytes(&self) -> (r: &[u8])
        ensures
            r@ == self@,
    {
        self.src.as_slice()
    }
}

} // verus!
