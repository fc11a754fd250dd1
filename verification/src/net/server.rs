use vstd::prelude::*;
use crate::msg::InitSystem;

verus! {

/// The control service's handler of handshakes, with its status.
#[derive(Clone, Copy, Debug)]
pub struct TalkerServer {
    status: i32,
}

impl TalkerServer {
    /// The handler's status.
    pub closed spec fn status_spec(&self) -> i32 {
        self.status
    }

    /// The handler that a new server registers: its status is 1.
    pub fn new() -> (t: TalkerServer)
        ensures
            t.status_spec() == 1,
    {
        TalkerServer { status: 1 }
    }

    /// The handler's status.
    pub fn status(&self) -> (s: i32)
        ensures
            s == self.status_spec(),
    {
        self.status
    }

    /// The reply to a handshake: the control plane names itself `Netting`,
    /// whatever the request holds; the status is left as it was.
    pub fn talk(&mut self, req: &InitSystem) -> (resp: InitSystem)
        ensures
            resp.ip_address@ == "Netting"@,
            final(self).status_spec() == old(self).status_spec(),
    {
        InitSystem { ip_address: "Netting".to_owned() }
    }
}

} // verus!
