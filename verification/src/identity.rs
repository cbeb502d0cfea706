//! Who acts, and what is traded.

use vstd::prelude::*;

verus! {

/// A participant: a seller, a buyer, an administrator, or a custody account.
///
/// Two identities are the same participant exactly when their handles are equal.
#[derive(Clone, Copy, Debug, PartialEq, Eq, Hash, Structural)]
pub struct Identity(pub u64);

/// A reference to a transferable asset, for sale or accepted as payment.
#[derive(Clone, Copy, Debug, PartialEq, Eq, Hash, Structural)]
pub struct AssetRef(pub u64);

} // verus!
