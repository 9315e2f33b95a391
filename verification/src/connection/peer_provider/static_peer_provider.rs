//! A provider with a fixed list of peers, as configured.

use crate::connection::peer_provider::{InitError, Peer, PeerProvider};
use vstd::prelude::*;

verus! {

/// A fixed list of peers.
#[derive(Debug)]
pub struct Static {
    pub peers: Vec<Peer>,
}

impl PeerProvider for Static {
    open spec fn known(&self) -> Seq<Peer> {
        self.peers@
    }

    /// There is nothing to prepare.
    fn init(&self) -> (r: Result<(), InitError>)
        ensures
            r is Ok,
    {
        Ok(())
    }

    /// The configured list, as it is.
    fn get(&self) -> (peers: Vec<Peer>) {
        let mut peers: Vec<Peer> = Vec::new();
        let mut i: usize = 0;
        while i < self.peers.len()
            invariant
                i <= self.peers.len(),
                peers@ == self.peers@.take(i as int),
            decreases self.peers.len() - i,
        {
            peers.push(self.peers[i]);
            assert(self.peers@.take(i as int + 1) =~= self.peers@.take(i as int).push(
                self.peers@[i as int],
            ));
            i += 1;
        }
        assert(self.peers@.take(self.peers@.len() as int) =~= self.peers@);
        peers
    }
}

} // verus!
