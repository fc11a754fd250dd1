use vstd::prelude::*;

verus! {

/// The handshake message of the mesh's control service: a peer's address.
#[derive(Debug)]
pub struct InitSystem {
    pub ip_address: String,
}

} // verus!
