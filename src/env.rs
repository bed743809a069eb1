use vstd::prelude::*;
use crate::types::{Error, Principal};

verus! {

/// What the host tells the engine about one call: the ledger time, and the
/// principals whose authorization the host has checked for this call.
pub struct Env {
    pub timestamp: u64,
    pub signers: Vec<Principal>,
}

impl Env {
    pub fn new(timestamp: u64, signers: Vec<Principal>) -> (r: Env)
        ensures
            r.timestamp == timestamp,
            r.signers == signers,
    {
        Env { timestamp, signers }
    }

    /// Whether the host has proved that the caller is `p`.
    pub open spec fn authorizes(self, p: Principal) -> bool {
        exists|i: int| 0 <= i < self.signers@.len() && (#[trigger] self.signers@[i]).key@ == p.key@
    }

    /// Fails with `Unauthenticated` unless the host has proved that the
    /// caller is `p`.
    pub fn authenticate(&self, p: &Principal) -> (r: Result<(), Error>)
        ensures
            r is Ok <==> self.authorizes(*p),
            r is Err ==> r == Err::<(), Error>(Error::Unauthenticated),
    {
        let mut i: usize = 0;
        while i < self.signers.len()
            invariant
                0 <= i <= self.signers@.len(),
                forall|j: int| 0 <= j < i ==> (#[trigger] self.signers@[j]).key@ != p.key@,
            decreases self.signers@.len() - i,
        {
            if self.signers[i].same_as(p) {
                return Ok(());
            }
            i = i + 1;
        }
        Err(Error::Unauthenticated)
    }
}

} // verus!
