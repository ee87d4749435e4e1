//! The envelopes in which MLS messages travel between members and the
//! delivery server. The MLS payloads are carried as their TLS encodings.

use vstd::prelude::*;

use crate::spki_hash::SpkiHash;

verus! {

/// What a member sends to the server.
#[derive(Debug)]
pub enum MessageToServerTransport {
    GroupMessage(Vec<u8>),
    NewDeviceGroup(NewGroupTransport),
    AddToGroup(AddToGroupTransport),
}

/// What the server forwards to members.
#[derive(Debug)]
pub enum MessageToMemberTransport {
    Welcome(Vec<u8>),
    GroupMessage(Vec<u8>),
    AddToGroup(Vec<u8>),
}

/// A new group: its group info and the welcome for the first members.
#[derive(Debug)]
pub struct NewGroupTransport {
    pub group_info: Vec<u8>,
    pub welcome: Option<Vec<u8>>,
}

/// A commit that adds members, and the welcome for them.
#[derive(Debug)]
pub struct AddToGroupTransport {
    pub commit: Vec<u8>,
    pub welcome: Vec<u8>,
}

/// A message that a device sends into its own group.
#[derive(Debug)]
pub enum DeviceMessage<Report> {
    Report(Report),
}

/// A message to forward and the members that should receive it.
#[derive(Debug)]
pub struct MessageToSend {
    pub receivers: Vec<SpkiHash>,
    pub message: MessageToMemberTransport,
}

/// The predicate "is not `x`".
pub open spec fn other_than(x: Seq<u8>) -> spec_fn(Seq<u8>) -> bool {
    |h: Seq<u8>| h != x
}

/// The views of a list of SPKI hashes.
pub open spec fn hash_views(v: Seq<SpkiHash>) -> Seq<Seq<u8>> {
    v.map_values(|h: SpkiHash| h@)
}

impl MessageToSend {
    /// Drops `receiver` from the receivers, keeping the others in order.
    pub fn remove_receiver(&mut self, receiver: &SpkiHash)
        ensures
            hash_views(final(self).receivers@) == hash_views(old(self).receivers@).filter(other_than(receiver@)),
            final(self).message == old(self).message,
    {
        let mut kept: Vec<SpkiHash> = Vec::new();
        let n = self.receivers.len();
        let mut i: usize = 0;
        while i < n
            invariant
                n == self.receivers@.len(),
                self.receivers@ == old(self).receivers@,
                i <= n,
                hash_views(kept@) == hash_views(self.receivers@.subrange(0, i as int)).filter(other_than(receiver@)),
            decreases n - i,
        {
            let r = self.receivers[i];
            proof {
                let s = hash_views(self.receivers@.subrange(0, i as int));
                assert(hash_views(self.receivers@.subrange(0, i + 1)) =~= s.push(r@));
                s.lemma_filter_push(r@, other_than(receiver@));
            }
            if r != *receiver {
                kept.push(r);
                assert(hash_views(kept@) =~= hash_views(kept@.drop_last()).push(r@));
            }
            i = i + 1;
        }
        assert(self.receivers@.subrange(0, n as int) =~= self.receivers@);
        self.receivers = kept;
    }
}

} // verus!
