use vstd::prelude::*;
use crate::msg::InitSystem;

verus! {

/// The control service's handler of handshakes.
#[derive(Clone, Copy, Debug)]
pub struct TalkerServer;

impl TalkerServer {
    /// The reply to a handshake: the control plane names itself `Netting`,
    /// whatever the request holds.
    pub fn talk(&mut self, req: &InitSystem) -> (resp: InitSystem)
        ensures
            resp.ip_address@ == "Netting"@,
    {
        InitSystem { ip_address: "Netting".to_owned() }
    }
}

} // verus!
