//! The origin of a dispatched call: who made it.
use vstd::prelude::*;

verus! {

/// Who dispatched a call.
#[derive(Clone, Copy, Debug, PartialEq, Eq, Structural)]
pub enum Origin {
    /// The chain's governance.
    Root,
    /// A call signed by an account.
    Signed(u64),
    /// An unsigned call.
    Unsigned,
}

/// The origin is governance, or the account `protocol` when one is configured.
pub open spec fn is_protocol_origin(origin: Origin, protocol: Option<u64>) -> bool {
    match origin {
        Origin::Root => true,
        Origin::Signed(a) => protocol == Some(a),
        Origin::Unsigned => false,
    }
}

impl Origin {
    /// Whether the call comes from governance.
    pub fn is_root(&self) -> (r: bool)
        ensures
            r == (*self is Root),
    {
        match self {
            Origin::Root => true,
            _ => false,
        }
    }

    /// Whether the call comes from governance or from the protocol's account.
    pub fn is_protocol(&self, protocol: Option<u64>) -> (r: bool)
        ensures
            r == is_protocol_origin(*self, protocol),
    {
        match self {
            Origin::Root => true,
            Origin::Signed(a) => match protocol {
                Some(p) => *a == p,
                None => false,
            },
            Origin::Unsigned => false,
        }
    }
}

} // verus!
