//! A provider fed by a watch on the pods of a Kubernetes cluster. The watch
//! itself runs elsewhere; here stand the label selector that it asks for, the
//! scope that it covers, and the table of peers that its events maintain.

use crate::connection::peer_provider::{address_of, parse_address, InitError, Peer, PeerProvider};
use vstd::prelude::*;
use vstd::string::StringExecFns;

verus! {

/// What a watch reports of a pod.
#[derive(Debug)]
pub enum PodEvent {
    /// A pod appeared.
    Added { uid: String, pod_ip: Option<String> },
    /// A pod changed.
    Modified { uid: String, pod_ip: Option<String> },
    /// A pod went away.
    Deleted { uid: String },
    /// A bookmark, an error, or anything else.
    Other,
}

/// Which pods a watch covers.
#[derive(Debug)]
pub enum Scope {
    /// The pods of every namespace.
    All,
    /// The pods of one namespace.
    Namespaced(String),
}

/// The Kubernetes provider. Its labels and its table are vectors, the table
/// kept free of repeated uids: vstd states what std's hash map does for
/// integer keys only, and these are keyed by text.
#[derive(Debug)]
pub struct K8s {
    /// The labels that a pod must carry, as pairs of key and value; none means
    /// every pod.
    selector: Vec<(String, String)>,
    /// The namespace to watch; `:all` means all of them.
    namespace: String,
    /// The peers learned so far, by the uid of their pod.
    peers: Vec<(String, Peer)>,
}

/// The label selector in the form that the cluster API takes:
/// `k1=v1,k2=v2`, the empty text for no pairs.
pub open spec fn selector_text(pairs: Seq<(String, String)>) -> Seq<char>
    decreases pairs.len(),
{
    if pairs.len() == 0 {
        Seq::empty()
    } else if pairs.len() == 1 {
        pairs[0].0@ + seq!['='] + pairs[0].1@
    } else {
        selector_text(pairs.drop_last()) + seq![','] + pairs.last().0@ + seq!['='] + pairs.last().1@
    }
}

/// The place of `uid` in the table, or the table's length where it has none.
pub open spec fn place_of(table: Seq<(String, Peer)>, uid: Seq<char>) -> int
    decreases table.len(),
{
    if table.len() == 0 {
        0
    } else if table[0].0@ == uid {
        0
    } else {
        1 + place_of(table.drop_first(), uid)
    }
}

/// The table after `peer` was entered under `uid`: in the place that `uid`
/// had, or at the end.
pub open spec fn upserted(table: Seq<(String, Peer)>, uid: String, peer: Peer) -> Seq<
    (String, Peer),
> {
    let at = place_of(table, uid@);
    if at < table.len() {
        table.update(at, (uid, peer))
    } else {
        table.push((uid, peer))
    }
}

/// The table without `uid`.
pub open spec fn removed(table: Seq<(String, Peer)>, uid: Seq<char>) -> Seq<(String, Peer)> {
    let at = place_of(table, uid);
    if at < table.len() {
        table.remove(at)
    } else {
        table
    }
}

/// No uid stands twice in the table.
pub open spec fn distinct_uids(table: Seq<(String, Peer)>) -> bool {
    forall|i: int, j: int|
        0 <= i < j < table.len() ==> (#[trigger] table[i]).0@ != (#[trigger] table[j]).0@
}

/// The peer that a pod's address stands for, if it is an IPv4 address.
pub open spec fn peer_of_pod(pod_ip: Option<String>) -> Option<Peer> {
    match pod_ip {
        Some(text) => match address_of(vstd::utf8::encode_utf8(text@)) {
            Some(ip) => Some(Peer::Address(ip)),
            None => None,
        },
        None => None,
    }
}

/// The table after an event.
pub open spec fn applied(table: Seq<(String, Peer)>, event: PodEvent) -> Seq<(String, Peer)> {
    match event {
        PodEvent::Added { uid, pod_ip } => match peer_of_pod(pod_ip) {
            Some(peer) => upserted(table, uid, peer),
            None => table,
        },
        PodEvent::Modified { uid, pod_ip } => match peer_of_pod(pod_ip) {
            Some(peer) => upserted(table, uid, peer),
            None => table,
        },
        PodEvent::Deleted { uid } => removed(table, uid@),
        PodEvent::Other => table,
    }
}

proof fn lemma_place_of(table: Seq<(String, Peer)>, uid: Seq<char>)
    ensures
        0 <= place_of(table, uid) <= table.len(),
        place_of(table, uid) < table.len() ==> table[place_of(table, uid)].0@ == uid,
        forall|i: int| 0 <= i < place_of(table, uid) ==> (#[trigger] table[i]).0@ != uid,
    decreases table.len(),
{
    if table.len() > 0 && table[0].0@ != uid {
        let rest = table.drop_first();
        lemma_place_of(rest, uid);
        assert forall|i: int| 0 <= i < place_of(table, uid) implies (#[trigger] table[i]).0@
            != uid by {
            if i > 0 {
                assert(rest[i - 1] == table[i]);
            }
        }
    }
}

proof fn lemma_found_place(table: Seq<(String, Peer)>, uid: Seq<char>, at: int)
    requires
        0 <= at <= table.len(),
        at < table.len() ==> table[at].0@ == uid,
        forall|i: int| 0 <= i < at ==> (#[trigger] table[i]).0@ != uid,
    ensures
        place_of(table, uid) == at,
{
    lemma_place_of(table, uid);
    let p = place_of(table, uid);
    if p < at {
        assert(table[p].0@ != uid);
    }
}

/// The peers of a table by the uid of their pod.
pub open spec fn by_uid(table: Seq<(String, Peer)>) -> Map<Seq<char>, Peer> {
    Map::new(
        |uid: Seq<char>| place_of(table, uid) < table.len(),
        |uid: Seq<char>| table[place_of(table, uid)].1,
    )
}

/// Entering a peer under a uid maps the uid to the peer and leaves every
/// other uid as it was.
pub proof fn lemma_upserted_by_uid(table: Seq<(String, Peer)>, uid: String, peer: Peer)
    requires
        distinct_uids(table),
    ensures
        by_uid(upserted(table, uid, peer)) == by_uid(table).insert(uid@, peer),
        distinct_uids(upserted(table, uid, peer)),
{
    let after = upserted(table, uid, peer);
    let at = place_of(table, uid@);
    lemma_place_of(table, uid@);
    let got = by_uid(after);
    let want = by_uid(table).insert(uid@, peer);
    assert forall|k: Seq<char>|
        #![trigger got.dom().contains(k)]
        #![trigger want.dom().contains(k)]
        got.dom().contains(k) == want.dom().contains(k) && (got.dom().contains(k) ==> got[k]
            == want[k]) by {
        let p = place_of(table, k);
        lemma_place_of(table, k);
        if at < table.len() {
            assert forall|i: int| 0 <= i < p implies (#[trigger] after[i]).0@ != k by {
                assert(table[i].0@ != k);
            }
            lemma_found_place(after, k, p);
        } else if p < table.len() {
            assert forall|i: int| 0 <= i < p implies (#[trigger] after[i]).0@ != k by {
                assert(table[i].0@ != k);
            }
            lemma_found_place(after, k, p);
        } else if k == uid@ {
            assert forall|i: int| 0 <= i < table.len() implies (#[trigger] after[i]).0@ != k by {
                assert(table[i].0@ != k);
            }
            lemma_found_place(after, k, table.len() as int);
        } else {
            assert forall|i: int| 0 <= i < after.len() implies (#[trigger] after[i]).0@ != k by {
                if i < table.len() {
                    assert(table[i].0@ != k);
                }
            }
            lemma_found_place(after, k, after.len() as int);
        }
    }
    assert(got =~= want);
    assert forall|i: int, j: int| 0 <= i < j < after.len() implies (#[trigger] after[i]).0@ != (
    #[trigger] after[j]).0@ by {
        if at < table.len() {
            assert(table[i].0@ != table[j].0@);
        } else if j < table.len() {
            assert(table[i].0@ != table[j].0@);
        } else {
            assert(table[i].0@ != uid@);
        }
    }
}

/// Taking a uid out leaves no peer under it and every other uid as it was.
pub proof fn lemma_removed_by_uid(table: Seq<(String, Peer)>, uid: Seq<char>)
    requires
        distinct_uids(table),
    ensures
        by_uid(removed(table, uid)) == by_uid(table).remove(uid),
        distinct_uids(removed(table, uid)),
{
    let after = removed(table, uid);
    let at = place_of(table, uid);
    lemma_place_of(table, uid);
    let got = by_uid(after);
    let want = by_uid(table).remove(uid);
    assert forall|k: Seq<char>|
        #![trigger got.dom().contains(k)]
        #![trigger want.dom().contains(k)]
        got.dom().contains(k) == want.dom().contains(k) && (got.dom().contains(k) ==> got[k]
            == want[k]) by {
        let p = place_of(table, k);
        lemma_place_of(table, k);
        if at < table.len() {
            if k == uid {
                assert forall|i: int| 0 <= i < after.len() implies (#[trigger] after[i]).0@
                    != k by {
                    if i < at {
                        assert(table[i].0@ != table[at].0@);
                    } else {
                        assert(after[i] == table[i + 1]);
                        assert(table[at].0@ != table[i + 1].0@);
                    }
                }
                lemma_found_place(after, k, after.len() as int);
            } else {
                let q = if p < at {
                    p
                } else {
                    p - 1
                };
                assert forall|i: int| 0 <= i < q implies (#[trigger] after[i]).0@ != k by {
                    if i < at {
                        assert(table[i].0@ != k);
                    } else {
                        assert(after[i] == table[i + 1]);
                        assert(table[i + 1].0@ != k);
                    }
                }
                if p < table.len() {
                    assert(after[q] == table[p]);
                }
                lemma_found_place(after, k, q);
            }
        }
    }
    assert(got =~= want);
    assert forall|i: int, j: int| 0 <= i < j < after.len() implies (#[trigger] after[i]).0@ != (
    #[trigger] after[j]).0@ by {
        if at < table.len() {
            let ii = if i < at {
                i
            } else {
                i + 1
            };
            let jj = if j < at {
                j
            } else {
                j + 1
            };
            assert(after[i] == table[ii]);
            assert(after[j] == table[jj]);
            assert(table[ii].0@ != table[jj].0@);
        }
    }
}

impl K8s {
    /// The peers known, by the uid of their pod.
    pub open spec fn peers_by_uid(&self) -> Map<Seq<char>, Peer> {
        by_uid(self.table())
    }

    /// The table of peers, by the uid of their pod.
    pub closed spec fn table(&self) -> Seq<(String, Peer)> {
        self.peers@
    }

    /// The label pairs.
    pub closed spec fn labels(&self) -> Seq<(String, String)> {
        self.selector@
    }

    /// The configured namespace.
    pub closed spec fn namespace_text(&self) -> Seq<char> {
        self.namespace@
    }

    /// No uid stands twice in the table.
    pub open spec fn wf(&self) -> bool {
        distinct_uids(self.table())
    }

    /// A provider with the given labels and namespace, and no peers yet.
    pub fn new(selector: Vec<(String, String)>, namespace: String) -> (k: Self)
        ensures
            k.wf(),
            k.table() =~= Seq::empty(),
            k.labels() == selector@,
            k.namespace_text() == namespace@,
    {
        K8s { selector, namespace, peers: Vec::new() }
    }

    /// The label selector as the cluster API takes it.
    pub fn selector(&self) -> (text: String)
        ensures
            text@ == selector_text(self.labels()),
    {
        let mut text = String::new();
        let mut i: usize = 0;
        proof {
            reveal_strlit(",");
            reveal_strlit("=");
            assert(self.selector@.take(0) =~= Seq::empty());
        }
        while i < self.selector.len()
            invariant
                i <= self.selector.len(),
                text@ == selector_text(self.selector@.take(i as int)),
                ","@ == seq![','],
                "="@ == seq!['='],
            decreases self.selector.len() - i,
        {
            let ghost before = self.selector@.take(i as int);
            let ghost after = self.selector@.take(i as int + 1);
            proof {
                assert(after.drop_last() =~= before);
                assert(after.last() == self.selector@[i as int]);
                if i == 0 {
                    assert(after[0] == self.selector@[0]);
                }
            }
            if i > 0 {
                text.append(",");
            }
            text.append(self.selector[i].0.as_str());
            text.append("=");
            text.append(self.selector[i].1.as_str());
            assert(text@ =~= selector_text(after));
            i += 1;
        }
        assert(self.selector@.take(self.selector@.len() as int) =~= self.selector@);
        text
    }

    /// Which pods the watch is to cover: all of them for the namespace `:all`,
    /// else those of the namespace named.
    pub fn scope(&self) -> (scope: Scope)
        ensures
            match scope {
                Scope::All => self.namespace_text() == ":all"@,
                Scope::Namespaced(name) => self.namespace_text() != ":all"@ && name@
                    == self.namespace_text(),
            },
    {
        let all = ":all".to_owned();
        if self.namespace == all {
            Scope::All
        } else {
            Scope::Namespaced(self.namespace.clone())
        }
    }

    /// The peer that a pod's address stands for: `None` where the pod has no
    /// address yet, or one that is not IPv4.
    pub fn ip(pod_ip: &Option<String>) -> (peer: Option<Peer>)
        ensures
            peer == peer_of_pod(*pod_ip),
    {
        match pod_ip {
            Some(text) => match parse_address(text.as_str().as_bytes()) {
                Some(ip) => Some(Peer::Address(ip)),
                None => None,
            },
            None => None,
        }
    }

    /// The place of `uid` in the table, or the table's length.
    fn find(&self, uid: &String) -> (at: usize)
        ensures
            at == place_of(self.table(), uid@),
            at <= self.table().len(),
    {
        let mut at: usize = 0;
        while at < self.peers.len() && !(self.peers[at].0 == *uid)
            invariant
                at <= self.peers.len(),
                forall|i: int| 0 <= i < at ==> (#[trigger] self.peers@[i]).0@ != uid@,
            decreases self.peers.len() - at,
        {
            at += 1;
        }
        proof {
            lemma_found_place(self.peers@, uid@, at as int);
        }
        at
    }

    /// Enters `peer` under `uid`, in place of what stood there.
    pub fn upsert(&mut self, uid: String, peer: Peer)
        requires
            old(self).wf(),
        ensures
            final(self).wf(),
            final(self).peers_by_uid() == old(self).peers_by_uid().insert(uid@, peer),
            final(self).table() == upserted(old(self).table(), uid, peer),
            final(self).labels() == old(self).labels(),
            final(self).namespace_text() == old(self).namespace_text(),
    {
        let at = self.find(&uid);
        proof {
            lemma_upserted_by_uid(self.peers@, uid, peer);
        }
        if at < self.peers.len() {
            self.peers.set(at, (uid, peer));
        } else {
            self.peers.push((uid, peer));
        }
    }

    /// Takes `uid` out of the table, if it is there.
    pub fn remove(&mut self, uid: &String)
        requires
            old(self).wf(),
        ensures
            final(self).wf(),
            final(self).peers_by_uid() == old(self).peers_by_uid().remove(uid@),
            final(self).table() == removed(old(self).table(), uid@),
            final(self).labels() == old(self).labels(),
            final(self).namespace_text() == old(self).namespace_text(),
    {
        let at = self.find(uid);
        proof {
            lemma_removed_by_uid(self.peers@, uid@);
        }
        if at < self.peers.len() {
            let _ = self.peers.remove(at);
        }
    }

    /// Brings the table up to date with an event, and tells whether the event
    /// was one about a pod. A pod that appeared or changed is entered under
    /// its uid if its address is IPv4; a pod that went away is taken out.
    pub fn apply(&mut self, event: PodEvent) -> (understood: bool)
        requires
            old(self).wf(),
        ensures
            final(self).wf(),
            final(self).peers_by_uid() == match event {
                PodEvent::Added { uid, pod_ip } => match peer_of_pod(pod_ip) {
                    Some(peer) => old(self).peers_by_uid().insert(uid@, peer),
                    None => old(self).peers_by_uid(),
                },
                PodEvent::Modified { uid, pod_ip } => match peer_of_pod(pod_ip) {
                    Some(peer) => old(self).peers_by_uid().insert(uid@, peer),
                    None => old(self).peers_by_uid(),
                },
                PodEvent::Deleted { uid } => old(self).peers_by_uid().remove(uid@),
                PodEvent::Other => old(self).peers_by_uid(),
            },
            final(self).table() == applied(old(self).table(), event),
            understood == !(event is Other),
            final(self).labels() == old(self).labels(),
            final(self).namespace_text() == old(self).namespace_text(),
    {
        match event {
            PodEvent::Added { uid, pod_ip } => {
                if let Some(peer) = K8s::ip(&pod_ip) {
                    self.upsert(uid, peer);
                }
                true
            },
            PodEvent::Modified { uid, pod_ip } => {
                if let Some(peer) = K8s::ip(&pod_ip) {
                    self.upsert(uid, peer);
                }
                true
            },
            PodEvent::Deleted { uid } => {
                self.remove(&uid);
                true
            },
            PodEvent::Other => false,
        }
    }
}

impl std::default::Default for K8s {
    /// No labels, the namespace `default`, no peers.
    fn default() -> (k: Self)
        ensures
            k.wf(),
            k.table() =~= Seq::empty(),
            k.labels() =~= Seq::empty(),
            k.namespace_text() == "default"@,
    {
        K8s::new(Vec::new(), "default".to_owned())
    }
}

impl PeerProvider for K8s {
    open spec fn known(&self) -> Seq<Peer> {
        Seq::new(self.table().len(), |i: int| self.table()[i].1)
    }

    /// The table is fed through `apply` by whoever runs the watch; there is
    /// nothing to prepare here.
    fn init(&self) -> (r: Result<(), InitError>)
        ensures
            r is Ok,
    {
        Ok(())
    }

    /// The peers of the table, in a fresh vector.
    fn get(&self) -> (peers: Vec<Peer>) {
        let mut peers: Vec<Peer> = Vec::new();
        let mut i: usize = 0;
        while i < self.peers.len()
            invariant
                i <= self.peers.len(),
                peers@.len() == i,
                forall|j: int| 0 <= j < i ==> peers@[j] == (#[trigger] self.peers@[j]).1,
            decreases self.peers.len() - i,
        {
            peers.push(self.peers[i].1);
            i += 1;
        }
        assert(peers@ =~= self.known());
        peers
    }
}

} // verus!
