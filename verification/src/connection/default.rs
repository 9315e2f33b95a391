//! The default connection: it pushes what changed to a few peers picked at
//! random, pulls from a few peers what they hold, and answers the peers that
//! do the same. The sockets and the timers run elsewhere; here stand the
//! decisions of the two loops and of the server.

use crate::connection::peer_provider::{Ipv4, Peer};
use crate::helpers::http::responses::{
    body_or, last_segment, last_segment_of, same_bytes, Commit, Method, Response, Responses,
};
use crate::helpers::text::{decimal, push_decimal};
use crate::helpers::utils::{is_sample, Sample};
use crate::state::StateValue;
use vstd::prelude::*;
use vstd::slice::slice_to_vec;
use vstd::string::{StringExecFns, StringSliceAdditionalSpecFns};

verus! {

/// At most this many requests to peers are under way at a time.
pub const MAX_IN_FLIGHT: usize = 4;

/// The default connection's settings.
#[derive(Debug)]
pub struct Default {
    /// The port on which peers are served.
    pub port: u16,
    /// The port on which peers are dialled, where they name none; `None`
    /// means `port`.
    pub target_port: Option<u16>,
    /// Milliseconds to rest after a round of pushing.
    pub push_interval: u64,
    /// Milliseconds to rest after a round of pulling.
    pub pull_interval: u64,
    /// How many peers a round reaches out to.
    pub r0: usize,
    /// Milliseconds to wait for a peer to take the call.
    pub timeout: u64,
}

impl std::default::Default for Default {
    /// Port 4097, peers dialled on the same port, a push every second, a pull
    /// every minute, three peers a round, one second to connect.
    fn default() -> (connection: Self)
        ensures
            connection.port == 4097,
            connection.target_port is None,
            connection.push_interval == 1000,
            connection.pull_interval == 60000,
            connection.r0 == 3,
            connection.timeout == 1000,
    {
        Default {
            port: 4097,
            target_port: None,
            push_interval: 1000,
            pull_interval: 60000,
            r0: 3,
            timeout: 1000,
        }
    }
}

/// An address in dotted decimal.
pub open spec fn ip_text(ip: Ipv4) -> Seq<char> {
    decimal(ip.a as nat) + seq!['.'] + decimal(ip.b as nat) + seq!['.'] + decimal(ip.c as nat)
        + seq!['.'] + decimal(ip.d as nat)
}

/// The URL of a peer's server: `http://<ip>:<port>/<tail>`.
pub open spec fn url_text(ip: Ipv4, port: u16, tail: Seq<char>) -> Seq<char> {
    "http://"@ + ip_text(ip) + seq![':'] + decimal(port as nat) + seq!['/'] + tail
}

/// Writes the URL of a peer's server.
pub fn url(ip: &Ipv4, port: u16, tail: &str) -> (text: String)
    ensures
        text@ == url_text(*ip, port, tail@),
{
    proof {
        reveal_strlit(".");
        reveal_strlit(":");
        reveal_strlit("/");
    }
    let mut text = "http://".to_owned();
    push_decimal(&mut text, ip.a as u64);
    text.append(".");
    push_decimal(&mut text, ip.b as u64);
    text.append(".");
    push_decimal(&mut text, ip.c as u64);
    text.append(".");
    push_decimal(&mut text, ip.d as u64);
    text.append(":");
    push_decimal(&mut text, port as u64);
    text.append("/");
    text.append(tail);
    assert(text@ =~= url_text(*ip, port, tail@));
    text
}

impl Default {
    /// The port on which a peer is dialled: its own where it names one, else
    /// the target port where one is set, else the port served.
    pub open spec fn port_for(&self, peer: Peer) -> u16 {
        match peer.named_port() {
            Some(port) => port,
            None => match self.target_port {
                Some(port) => port,
                None => self.port,
            },
        }
    }

    /// The port on which a peer is dialled.
    pub fn dial_port(&self, peer: &Peer) -> (port: u16)
        ensures
            port == self.port_for(*peer),
    {
        match peer.port() {
            Some(port) => port,
            None => match self.target_port {
                Some(port) => port,
                None => self.port,
            },
        }
    }

    /// Where a peer is asked for its state: the URL of its server with the
    /// local version as the path.
    pub fn pull_url(&self, peer: &Peer, version: &str) -> (text: String)
        ensures
            text@ == url_text(peer.address(), self.port_for(*peer), version@),
    {
        url(peer.ip(), self.dial_port(peer), version)
    }

    /// Where a payload is put to a peer: the root of its server.
    pub fn push_url(&self, peer: &Peer) -> (text: String)
        ensures
            text@ == url_text(peer.address(), self.port_for(*peer), Seq::empty()),
    {
        proof {
            reveal_strlit("");
        }
        let text = url(peer.ip(), self.dial_port(peer), "");
        assert(text@ =~= url_text(peer.address(), self.port_for(*peer), Seq::empty()));
        text
    }

    /// The peers of a round: `r0` of those known, picked at random, or all of
    /// them where there are no more.
    pub fn pick(&self, peers: Vec<Peer>) -> (picked: Vec<Peer>)
        ensures
            is_sample(picked@, peers@, self.r0),
    {
        peers.sample(self.r0)
    }
}

/// Whether what a peer answered to a pull is to be handed to the state: the
/// answer of a success, 200 to 299, with a body that is not empty.
pub fn should_merge(status: u16, body: &[u8]) -> (r: bool)
    ensures
        r == (200 <= status <= 299 && body@.len() > 0),
{
    200 <= status && status <= 299 && body.len() > 0
}

/// What the publisher keeps between two rounds.
#[derive(Debug)]
pub struct Publisher {
    /// The root as last published, in bytes.
    last_published: Vec<u8>,
    /// The version of the state when that was published.
    last_published_version: String,
}

impl Publisher {
    /// The root as last published.
    pub closed spec fn last(&self) -> Seq<u8> {
        self.last_published@
    }

    /// The version seen when the root was last published.
    pub closed spec fn last_version(&self) -> Seq<char> {
        self.last_published_version@
    }

    /// A publisher that has published nothing yet.
    pub fn new() -> (p: Self)
        ensures
            p.last() == Seq::<u8>::empty(),
            p.last_version() == Seq::<char>::empty(),
    {
        Publisher { last_published: Vec::new(), last_published_version: String::new() }
    }

    /// The root as last published, to take the difference against.
    pub fn last_published(&self) -> (bytes: &Vec<u8>)
        ensures
            bytes@ == self.last(),
    {
        &self.last_published
    }

    /// Whether a round has anything to look at: the version of the state is
    /// no longer the one last published.
    pub fn version_moved(&self, version: &String) -> (moved: bool)
        ensures
            moved == (version@ != self.last_version()),
    {
        !(self.last_published_version == *version)
    }

    /// Whether the root differs, byte for byte, from the one last published.
    pub fn root_moved(&self, root: &Vec<u8>) -> (moved: bool)
        ensures
            moved == (root@ != self.last()),
    {
        !same_bytes(root.as_slice(), self.last_published.as_slice())
    }

    /// Settles a round. Where the root is the one last published there is
    /// nothing to send and nothing changes. Else the payload is the
    /// difference against the root last published, or the whole root where
    /// the difference could not be had; the root and the version are kept
    /// for the next round.
    pub fn publish(&mut self, root: Vec<u8>, difference: Option<Vec<u8>>, version: String) -> (payload:
        Option<Vec<u8>>)
        ensures
            root@ == old(self).last() ==> payload is None && final(self).last() == old(self).last()
                && final(self).last_version() == old(self).last_version(),
            root@ != old(self).last() ==> payload is Some && payload->0@ == (match difference {
                Some(bytes) => bytes@,
                None => root@,
            }) && final(self).last() == root@ && final(self).last_version() == version@,
    {
        if !self.root_moved(&root) {
            return None;
        }
        let payload = match difference {
            Some(bytes) => bytes,
            None => slice_to_vec(root.as_slice()),
        };
        self.last_published = root;
        self.last_published_version = version;
        Some(payload)
    }
}

/// What a request asks of the connection's server.
#[derive(Debug)]
pub enum Step {
    /// Take the root of the state, then answer with `get_handler`.
    Root,
    /// Hand the body to the state, then answer with `set_handler`.
    Store,
    /// Answer at once.
    Reply(Response),
}

/// Whether a peer that asks under `path` is owed the root: its version, the
/// last segment of the path, is missing or is not the local one.
pub open spec fn owes_root(path: Seq<u8>, version: Seq<u8>) -> bool {
    last_segment_of(path).len() == 0 || last_segment_of(path) != version
}

/// Whether a peer that asks under `path` is owed the root.
pub fn versions_differ(path: &[u8], version: &[u8]) -> (r: bool)
    ensures
        r == owes_root(path@, version@),
{
    let theirs = last_segment(path);
    theirs.len() == 0 || !same_bytes(theirs, version)
}

/// The body that carries a root: its bytes; `{}` where it cannot be put into
/// bytes; nothing where the state has no root.
pub open spec fn root_body(root: Option<Option<Vec<u8>>>) -> Seq<u8> {
    match root {
        Some(Some(bytes)) => bytes@,
        Some(None) => "{}".spec_bytes(),
        None => Seq::empty(),
    }
}

/// The answer to a peer that was owed the root, given the bytes of the root:
/// 200 with the root.
pub fn answer_root(root: Option<Option<Vec<u8>>>) -> (r: Response)
    ensures
        r.status == 200,
        r.body@ == root_body(root),
        r.content_type is None,
{
    match root {
        Some(Some(bytes)) => Responses::ok(bytes),
        Some(None) => Responses::ok(slice_to_vec("{}".as_bytes())),
        None => Responses::ok(Vec::new()),
    }
}

/// The answer to a peer that was owed the root: the root is asked for its
/// bytes, and `answer_root` makes the answer of them.
pub fn get_handler<V: StateValue>(root: Option<V>) -> (r: Response)
    ensures
        r.status == 200,
        r.content_type is None,
        match root {
            Some(value) => exists|bytes: Option<Vec<u8>>|
                #[trigger] call_ensures(V::as_bytes, (&value,), bytes) && r.body@ == root_body(
                    Some(bytes),
                ),
            None => r.body@ == root_body(None),
        },
{
    match root {
        Some(value) => answer_root(Some(value.as_bytes())),
        None => answer_root(None),
    }
}

/// The answer to a payload: 204 where the state took it, 422 where it refused
/// it, 500 where the hand-over failed.
pub fn set_handler(commit: Commit) -> (r: Response)
    ensures
        r.content_type is None,
        match commit {
            Commit::Accepted => r.status == 204 && r.body@ == Seq::<u8>::empty(),
            Commit::Rejected => r.status == 422 && r.body@ == body_or(None, "malformed input"),
            Commit::Failed => r.status == 500 && r.body@ == body_or(
                None,
                "Failed to commit state sent by remote peer.",
            ),
        },
{
    match commit {
        Commit::Accepted => Responses::no_content(),
        Commit::Rejected => Responses::unprocessable(None),
        Commit::Failed => Responses::internal_error(
            Some(slice_to_vec("Failed to commit state sent by remote peer.".as_bytes())),
        ),
    }
}

/// Sorts a request by its method. A GET under the local version is answered
/// with 204, any other GET is owed the root; a PUT stores; anything else is
/// answered with 404.
pub fn handler(method: Method, path: &[u8], version: &[u8]) -> (step: Step)
    ensures
        match step {
            Step::Root => method == Method::Get && owes_root(path@, version@),
            Step::Store => method == Method::Put,
            Step::Reply(r) => r.content_type is None && match method {
                Method::Get => !owes_root(path@, version@) && r.status == 204 && r.body@
                    == Seq::<u8>::empty(),
                Method::Put => false,
                Method::Other => r.status == 404 && r.body@ == body_or(None, "not found"),
            },
        },
{
    match method {
        Method::Get => if versions_differ(path, version) {
            Step::Root
        } else {
            Step::Reply(Responses::no_content())
        },
        Method::Put => Step::Store,
        Method::Other => Step::Reply(Responses::not_found(None)),
    }
}

} // verus!
