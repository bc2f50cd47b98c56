use std::rc::Rc;
use vstd::prelude::*;

verus! {

/// A reference-counted, read-only string buffer shared by any number of
/// holders.
///
/// The content never changes while shared: turning a handle back into an owned
/// `String` either moves the buffer out (when the handle is the last holder)
/// or clones the content, so no other holder ever observes a change.
#[derive(Debug, Clone, PartialEq, Eq)]
pub struct ImmutableString {
    rc: Rc<String>,
}

impl View for ImmutableString {
    type V = Seq<char>;

    closed spec fn view(&self) -> Seq<char> {
        self.rc@
    }
}

/// Relies on `Rc::clone`: the returned handle points at the same buffer as the
/// given one, so it reads as the same string.
#[verifier::external_body]
fn rc_share(rc: &Rc<String>) -> (r: Rc<String>)
    ensures
        r == *rc,
{
    Rc::clone(rc)
}

/// Relies on `Rc`'s `Deref`: a handle reads the single underlying buffer.
#[verifier::external_body]
fn rc_read<'a>(rc: &'a Rc<String>) -> (r: &'a String)
    ensures
        *r == **rc,
{
    &**rc
}

impl ImmutableString {
    /// Wraps an owned string into a shared handle; the buffer is taken over,
    /// not copied.
    pub fn new(s: String) -> (r: ImmutableString)
        ensures
            r@ == s@,
    {
        ImmutableString { rc: Rc::new(s) }
    }

    /// A new handle to the same buffer: a reference-count bump, no copy.
    pub fn share(&self) -> (r: ImmutableString)
        ensures
            r@ == self@,
    {
        ImmutableString { rc: rc_share(&self.rc) }
    }

    /// Read access to the shared content.
    pub fn as_str(&self) -> (r: &str)
        ensures
            r@ == self@,
    {
        rc_read(&self.rc).as_str()
    }

    /// Turns the handle back into an owned string. When this handle is the
    /// last holder, the buffer is moved out without a copy; otherwise the
    /// content is cloned and the other holders keep the buffer.
    pub fn into_owned(self) -> (r: String)
        ensures
            r@ == self@,
    {
        match Rc::try_unwrap(self.rc) {
            Ok(s) => s,
            Err(shared) => rc_read(&shared).clone(),
        }
    }
}

} // verus!
