use std::borrow::Cow;
use std::sync::Arc;
use vstd::prelude::*;

verus! {

/// The encoded bytes of one sound asset: immutable once made, and shared
/// rather than copied when duplicated.
#[derive(Debug, PartialEq, Eq)]
pub struct AudioBytes(Arc<Cow<'static, [u8]>>);

impl View for AudioBytes {
    type V = Seq<u8>;

    closed spec fn view(&self) -> Seq<u8> {
        (*self.0)@
    }
}

/// `Arc::clone`: the new handle points at the allocation of the old one, so
/// the value behind both is one and the same. Nothing is proved of this; it is
/// what the standard library documents.
#[verifier::external_body]
fn another_handle(handle: &Arc<Cow<'static, [u8]>>) -> (r: Arc<Cow<'static, [u8]>>)
    ensures
        r == *handle,
{
    Arc::clone(handle)
}

impl AudioBytes {
    /// Wraps `bytes` for sharing; the content is kept as given.
    pub fn new(bytes: Cow<'static, [u8]>) -> (r: AudioBytes)
        ensures
            r@ == bytes@,
    {
        AudioBytes(Arc::new(bytes))
    }

}

impl AsRef<[u8]> for AudioBytes {
    /// The content, borrowed.
    fn as_ref(&self) -> (r: &[u8])
        ensures
            r@ == self@,
    {
        let content: &Cow<'static, [u8]> = &*self.0;
        match content {
            Cow::Borrowed(slice) => slice,
            Cow::Owned(owned) => owned.as_slice(),
        }
    }
}

impl Clone for AudioBytes {
    /// A second handle on the same buffer; no byte is copied.
    fn clone(&self) -> (r: AudioBytes)
        ensures
            r == *self,
    {
        AudioBytes(another_handle(&self.0))
    }
}

} // verus!
