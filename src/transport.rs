use vstd::prelude::*;

verus! {

/// Key of a stream adapter that leaves the stream as it is.
#[derive(Debug, Clone, Copy, PartialEq, Eq, Structural)]
pub struct IdentityStreamKey {}

impl IdentityStreamKey {
    pub fn gen_new() -> (r: IdentityStreamKey) {
        IdentityStreamKey {}
    }
}

/// A stream adapter that adds no encryption: the handshake hands the stream back.
#[derive(Debug, Clone, Copy, PartialEq, Eq, Structural)]
pub struct IdentityStreamAdapter {}

impl IdentityStreamAdapter {
    pub fn handshake<T>(_stream_key: &IdentityStreamKey, base: T) -> (r: T)
        ensures
            r == base,
    {
        base
    }
}

} // verus!
