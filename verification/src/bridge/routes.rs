//! Peers beyond the two legs, and the routes between them.
use vstd::prelude::*;

use crate::text::same_text;
use crate::voice::VoiceCodec;

verus! {

/// How a peer is reached.
#[derive(Debug, Clone, Copy, PartialEq, Eq, Structural)]
pub enum TransportMode {
    WebRtc,
    Srtp,
    Rtp,
}

/// What the bridge knows of a peer.
#[derive(Debug, Clone, Copy, PartialEq, Eq, Structural)]
pub struct PeerEntry {
    pub transport: TransportMode,
    /// Whether audio can be sent to the peer.
    pub has_audio_sender: bool,
    pub codec: VoiceCodec,
    pub dtmf_payload_type: Option<u8>,
}

/// A peer and what is known of it.
#[derive(Debug)]
pub struct NamedPeer {
    pub id: String,
    pub entry: PeerEntry,
}

/// Where a peer's audio goes.
#[derive(Debug)]
pub struct Route {
    pub from: String,
    pub to: Vec<String>,
}

/// Why a change was refused.
#[derive(Debug)]
pub enum RouteError {
    /// A peer of this name is there already.
    PeerExists(String),
    /// No peer of this name is there.
    PeerNotFound(String),
}

/// The peers of a bridge and the routes between them.
#[derive(Debug)]
pub struct PeerRoutes {
    peers: Vec<NamedPeer>,
    routes: Vec<Route>,
}

/// The texts in a list.
pub open spec fn names(v: Seq<String>) -> Set<Seq<char>> {
    Set::new(|t: Seq<char>| exists|i: int| 0 <= i < v.len() && #[trigger] v[i]@ == t)
}

/// Whether no text stands twice in a list.
pub open spec fn once_each(v: Seq<String>) -> bool {
    forall|i: int, j: int|
        0 <= i < j < v.len() ==> (#[trigger] v[i])@ != (#[trigger] v[j])@
}

spec fn peer_at(v: Seq<NamedPeer>, id: Seq<char>, i: int) -> bool {
    0 <= i < v.len() && v[i].id@ == id
}

spec fn route_at(v: Seq<Route>, id: Seq<char>, i: int) -> bool {
    0 <= i < v.len() && v[i].from@ == id
}

/// A list without a name.
fn list_without(v: &Vec<String>, id: &str) -> (r: Vec<String>)
    ensures
        names(r@) == names(v@).remove(id@),
        once_each(v@) ==> once_each(r@),
{
    let mut rest: Vec<String> = Vec::new();
    let mut i: usize = 0;
    while i < v.len()
        invariant
            i <= v.len(),
            forall|k: int| 0 <= k < rest.len() ==> (#[trigger] rest@[k])@ != id@,
            forall|k: int|
                0 <= k < rest.len() ==> exists|j: int|
                    0 <= j < i && #[trigger] v@[j]@ == (#[trigger] rest@[k])@,
            forall|j: int|
                0 <= j < i && (#[trigger] v@[j])@ != id@ ==> exists|k: int|
                    0 <= k < rest.len() && #[trigger] rest@[k]@ == v@[j]@,
            once_each(v@) ==> once_each(rest@),
        decreases v.len() - i,
    {
        if !same_text(v[i].as_str(), id) {
            let ghost before = rest@;
            rest.push(v[i].clone());
            proof {
                assert(rest@[before.len() as int]@ == v@[i as int]@);
                if once_each(v@) {
                    assert forall|a: int, b: int| 0 <= a < b < rest.len() implies (
                    #[trigger] rest@[a])@ != (#[trigger] rest@[b])@ by {
                        assert(rest@[a] == before[a]);
                        if b < before.len() {
                            assert(rest@[b] == before[b]);
                        } else {
                            let j = choose|j: int| 0 <= j < i && #[trigger] v@[j]@ == before[a]@;
                            assert(v@[j]@ != v@[i as int]@);
                        }
                    }
                }
                assert forall|j: int| 0 <= j < i + 1 && (#[trigger] v@[j])@ != id@ implies exists|
                    k: int,
                |
                    0 <= k < rest.len() && #[trigger] rest@[k]@ == v@[j]@ by {
                    if j < i {
                        let k = choose|k: int|
                            0 <= k < before.len() && #[trigger] before[k]@ == v@[j]@;
                        assert(rest@[k]@ == v@[j]@);
                    } else {
                        assert(rest@[before.len() as int]@ == v@[j]@);
                    }
                }
                assert forall|k: int| 0 <= k < rest.len() implies exists|j: int|
                    0 <= j < i + 1 && #[trigger] v@[j]@ == (#[trigger] rest@[k])@ by {
                    if k < before.len() {
                        assert(rest@[k] == before[k]);
                        let j = choose|j: int| 0 <= j < i && #[trigger] v@[j]@ == before[k]@;
                        assert(v@[j]@ == rest@[k]@);
                    } else {
                        assert(v@[i as int]@ == rest@[k]@);
                    }
                }
            }
        }
        i = i + 1;
    }
    proof {
        let want = names(v@).remove(id@);
        assert forall|t: Seq<char>| names(rest@).contains(t) == want.contains(t) by {
            if names(rest@).contains(t) {
                let k = choose|k: int| 0 <= k < rest.len() && #[trigger] rest@[k]@ == t;
                assert(rest@[k]@ != id@);
                let j = choose|j: int| 0 <= j < i && #[trigger] v@[j]@ == rest@[k]@;
                assert(v@[j]@ == t);
            }
            if want.contains(t) {
                let j = choose|j: int| 0 <= j < v.len() && #[trigger] v@[j]@ == t;
                let k = choose|k: int| 0 <= k < rest.len() && #[trigger] rest@[k]@ == v@[j]@;
                assert(rest@[k]@ == t);
            }
        }
        assert(names(rest@) =~= want);
    }
    rest
}

/// Whether a name stands in a list.
fn is_listed(v: &Vec<String>, id: &str) -> (r: bool)
    ensures
        r == names(v@).contains(id@),
{
    let mut i: usize = 0;
    while i < v.len()
        invariant
            i <= v.len(),
            forall|k: int| 0 <= k < i ==> (#[trigger] v@[k])@ != id@,
        decreases v.len() - i,
    {
        if same_text(v[i].as_str(), id) {
            assert(v@[i as int]@ == id@);
            return true;
        }
        i = i + 1;
    }
    false
}

/// A list with each name at its first place only.
fn without_repeats(v: &Vec<String>) -> (r: Vec<String>)
    ensures
        names(r@) == names(v@),
        once_each(r@),
{
    let mut out: Vec<String> = Vec::new();
    let mut i: usize = 0;
    assert(names(out@) =~= names(v@.take(0)));
    while i < v.len()
        invariant
            i <= v.len(),
            names(out@) == names(v@.take(i as int)),
            once_each(out@),
        decreases v.len() - i,
    {
        let ghost before = out@;
        let seen = is_listed(&out, v[i].as_str());
        if !seen {
            out.push(v[i].clone());
        }
        proof {
            let t = v@[i as int]@;
            let next = v@.take(i + 1);
            let here = v@.take(i as int);
            if !seen {
                assert forall|a: int, b: int| 0 <= a < b < out.len() implies (
                #[trigger] out@[a])@ != (#[trigger] out@[b])@ by {
                    assert(out@[a] == before[a]);
                    assert(names(before).contains(before[a]@));
                }
            }
            assert forall|u: Seq<char>| names(out@).contains(u) == names(next).contains(u) by {
                if names(out@).contains(u) {
                    let k = choose|k: int| 0 <= k < out.len() && #[trigger] out@[k]@ == u;
                    if k < before.len() {
                        assert(before[k]@ == u);
                        assert(names(here).contains(u));
                        let j = choose|j: int| 0 <= j < here.len() && #[trigger] here[j]@ == u;
                        assert(next[j]@ == u);
                    } else {
                        assert(next[i as int]@ == u);
                    }
                }
                if names(next).contains(u) {
                    let j = choose|j: int| 0 <= j < next.len() && #[trigger] next[j]@ == u;
                    if j < i {
                        assert(here[j]@ == u);
                        assert(names(before).contains(u));
                        let k = choose|k: int| 0 <= k < before.len() && #[trigger] before[k]@ == u;
                        assert(out@[k]@ == u);
                    } else if seen {
                        assert(names(before).contains(u));
                    } else {
                        assert(out@[before.len() as int]@ == u);
                    }
                }
            }
            assert(names(out@) =~= names(next));
        }
        i = i + 1;
    }
    assert(v@.take(v@.len() as int) =~= v@);
    out
}

impl PeerRoutes {
    /// The peers by name.
    pub closed spec fn peers(&self) -> Map<Seq<char>, PeerEntry> {
        Map::new(
            |t: Seq<char>| exists|i: int| peer_at(self.peers@, t, i),
            |t: Seq<char>| self.peers@[choose|i: int| peer_at(self.peers@, t, i)].entry,
        )
    }

    /// The destinations of each peer that has a route.
    pub closed spec fn routes(&self) -> Map<Seq<char>, Set<Seq<char>>> {
        Map::new(
            |t: Seq<char>| exists|i: int| route_at(self.routes@, t, i),
            |t: Seq<char>| names(self.routes@[choose|i: int| route_at(self.routes@, t, i)].to@),
        )
    }

    spec fn distinct(&self) -> bool {
        &&& forall|i: int, j: int|
            0 <= i < j < self.peers@.len() ==> (#[trigger] self.peers@[i]).id@ != (
            #[trigger] self.peers@[j]).id@
        &&& forall|i: int, j: int|
            0 <= i < j < self.routes@.len() ==> (#[trigger] self.routes@[i]).from@ != (
            #[trigger] self.routes@[j]).from@
        &&& forall|i: int| 0 <= i < self.routes@.len() ==> once_each((#[trigger] self.routes@[i]).to@)
    }

    /// No name stands twice, and every route leads to peers that are there.
    pub closed spec fn wf(&self) -> bool {
        &&& self.distinct()
        &&& forall|t: Seq<char>, u: Seq<char>|
            self.routes().contains_key(t) && #[trigger] self.routes()[t].contains(u)
                ==> #[trigger] self.peers().contains_key(u)
    }

    pub fn new() -> (r: Self)
        ensures
            r.wf(),
            r.peers() == Map::<Seq<char>, PeerEntry>::empty(),
            r.routes() == Map::<Seq<char>, Set<Seq<char>>>::empty(),
    {
        let r = PeerRoutes { peers: Vec::new(), routes: Vec::new() };
        assert(r.peers() =~= Map::<Seq<char>, PeerEntry>::empty());
        assert(r.routes() =~= Map::<Seq<char>, Set<Seq<char>>>::empty());
        r
    }

    proof fn lemma_peer(&self, i: int)
        requires
            self.distinct(),
            0 <= i < self.peers@.len(),
        ensures
            self.peers().contains_key(self.peers@[i].id@),
            self.peers()[self.peers@[i].id@] == self.peers@[i].entry,
    {
        let t = self.peers@[i].id@;
        assert(peer_at(self.peers@, t, i));
        let k = choose|k: int| peer_at(self.peers@, t, k);
        assert(k == i);
    }

    proof fn lemma_route(&self, i: int)
        requires
            self.distinct(),
            0 <= i < self.routes@.len(),
        ensures
            self.routes().contains_key(self.routes@[i].from@),
            self.routes()[self.routes@[i].from@] == names(self.routes@[i].to@),
    {
        let t = self.routes@[i].from@;
        assert(route_at(self.routes@, t, i));
        let k = choose|k: int| route_at(self.routes@, t, k);
        assert(k == i);
    }

    fn find_peer(&self, id: &str) -> (r: Option<usize>)
        requires
            self.distinct(),
        ensures
            r matches Some(i) ==> i < self.peers@.len() && self.peers@[i as int].id@ == id@,
            r is Some == self.peers().contains_key(id@),
            r is None ==> forall|i: int| 0 <= i < self.peers@.len() ==> (#[trigger] self.peers@[i]).id@
                != id@,
    {
        let mut i: usize = 0;
        while i < self.peers.len()
            invariant
                i <= self.peers.len(),
                self.distinct(),
                forall|k: int| 0 <= k < i ==> (#[trigger] self.peers@[k]).id@ != id@,
            decreases self.peers.len() - i,
        {
            if same_text(self.peers[i].id.as_str(), id) {
                proof {
                    self.lemma_peer(i as int);
                }
                return Some(i);
            }
            i = i + 1;
        }
        None
    }

    fn find_route(&self, id: &str) -> (r: Option<usize>)
        requires
            self.distinct(),
        ensures
            r matches Some(i) ==> i < self.routes@.len() && self.routes@[i as int].from@ == id@,
            r is Some == self.routes().contains_key(id@),
            r is None ==> forall|i: int|
                0 <= i < self.routes@.len() ==> (#[trigger] self.routes@[i]).from@ != id@,
    {
        let mut i: usize = 0;
        while i < self.routes.len()
            invariant
                i <= self.routes.len(),
                self.distinct(),
                forall|k: int| 0 <= k < i ==> (#[trigger] self.routes@[k]).from@ != id@,
            decreases self.routes.len() - i,
        {
            if same_text(self.routes[i].from.as_str(), id) {
                proof {
                    self.lemma_route(i as int);
                }
                return Some(i);
            }
            i = i + 1;
        }
        None
    }

    /// Adds a peer; a name that is taken is refused.
    pub fn add_peer(&mut self, id: String, entry: PeerEntry) -> (r: Result<(), RouteError>)
        requires
            old(self).wf(),
        ensures
            final(self).wf(),
            final(self).routes() == old(self).routes(),
            old(self).peers().contains_key(id@) ==> final(self).peers() == old(self).peers() && (
            r matches Err(RouteError::PeerExists(t)) && t@ == id@),
            !old(self).peers().contains_key(id@) ==> r is Ok && final(self).peers() == old(
                self,
            ).peers().insert(id@, entry),
    {
        if let Some(_) = self.find_peer(id.as_str()) {
            return Err(RouteError::PeerExists(id));
        }
        let ghost t = id@;
        self.peers.push(NamedPeer { id, entry });
        proof {
            let n = old(self).peers@.len() as int;
            assert(self.routes() =~= old(self).routes());
            assert(self.distinct());
            self.lemma_peer(n);
            assert forall|u: Seq<char>| #[trigger] self.peers().contains_key(u) == old(
                self,
            ).peers().insert(t, entry).contains_key(u) by {
                if self.peers().contains_key(u) {
                    let i = choose|i: int| peer_at(self.peers@, u, i);
                    if i < n {
                        assert(peer_at(old(self).peers@, u, i));
                    }
                }
                if old(self).peers().contains_key(u) {
                    let i = choose|i: int| peer_at(old(self).peers@, u, i);
                    assert(peer_at(self.peers@, u, i));
                }
            }
            assert forall|u: Seq<char>| old(self).peers().contains_key(u) implies self.peers()[u]
                == old(self).peers()[u] by {
                let i = choose|i: int| peer_at(old(self).peers@, u, i);
                old(self).lemma_peer(i);
                self.lemma_peer(i);
            }
            assert(self.peers() =~= old(self).peers().insert(t, entry));
            assert forall|a: Seq<char>, u: Seq<char>|
                self.routes().contains_key(a) && #[trigger] self.routes()[a].contains(
                    u,
                ) implies #[trigger] self.peers().contains_key(u) by {
                assert(old(self).routes()[a].contains(u));
                assert(old(self).peers().contains_key(u));
            }
        }
        Ok(())
    }

    /// Sends a peer's audio to all of `to`; a destination that is not there is refused.
    pub fn set_route(&mut self, from: String, to: Vec<String>) -> (r: Result<(), RouteError>)
        requires
            old(self).wf(),
        ensures
            final(self).wf(),
            final(self).peers() == old(self).peers(),
            names(to@).subset_of(old(self).peers().dom()) ==> r is Ok && final(self).routes()
                == old(self).routes().insert(from@, names(to@)),
            !names(to@).subset_of(old(self).peers().dom()) ==> final(self).routes() == old(
                self,
            ).routes() && (r matches Err(RouteError::PeerNotFound(t)) && names(to@).contains(t@)
                && !old(self).peers().contains_key(t@)),
    {
        let mut i: usize = 0;
        while i < to.len()
            invariant
                i <= to.len(),
                self.wf(),
                *self == *old(self),
                forall|k: int|
                    0 <= k < i ==> self.peers().contains_key((#[trigger] to@[k])@),
            decreases to.len() - i,
        {
            if self.find_peer(to[i].as_str()).is_none() {
                proof {
                    assert(names(to@).contains(to@[i as int]@));
                    assert(!self.peers().dom().contains(to@[i as int]@));
                }
                return Err(RouteError::PeerNotFound(to[i].clone()));
            }
            i = i + 1;
        }
        proof {
            assert forall|t: Seq<char>| names(to@).contains(t) implies self.peers().dom().contains(
                t,
            ) by {
                let k = choose|k: int| 0 <= k < to.len() && #[trigger] to@[k]@ == t;
                assert(self.peers().contains_key(to@[k]@));
            }
        }
        let ghost t = from@;
        let ghost dests = names(to@);
        let to = without_repeats(&to);
        let at = self.find_route(from.as_str());
        let ghost place: int = match at {
            Some(k) => k as int,
            None => self.routes@.len() as int,
        };
        match at {
            Some(k) => {
                self.routes.set(k, Route { from, to });
            },
            None => {
                self.routes.push(Route { from, to });
            },
        }
        proof {
            assert(self.peers() =~= old(self).peers());
            assert(self.distinct());
            self.lemma_route(place);
            let want = old(self).routes().insert(t, dests);
            assert forall|u: Seq<char>| #[trigger] self.routes().contains_key(u)
                == want.contains_key(u) by {
                if self.routes().contains_key(u) {
                    let i = choose|i: int| route_at(self.routes@, u, i);
                    if i != place {
                        assert(route_at(old(self).routes@, u, i));
                    }
                }
                if old(self).routes().contains_key(u) && u != t {
                    let i = choose|i: int| route_at(old(self).routes@, u, i);
                    assert(route_at(self.routes@, u, i));
                }
            }
            assert forall|u: Seq<char>| #[trigger] want.contains_key(u) implies self.routes()[u]
                == want[u] by {
                if u != t {
                    let i = choose|i: int| route_at(old(self).routes@, u, i);
                    old(self).lemma_route(i);
                    self.lemma_route(i);
                }
            }
            assert(self.routes() =~= want);
            assert forall|a: Seq<char>, u: Seq<char>|
                self.routes().contains_key(a) && #[trigger] self.routes()[a].contains(
                    u,
                ) implies #[trigger] self.peers().contains_key(u) by {
                if a != t {
                    assert(old(self).routes()[a].contains(u));
                } else {
                    assert(dests.contains(u));
                    assert(old(self).peers().dom().contains(u));
                }
                assert(old(self).peers().contains_key(u));
            }
        }
        Ok(())
    }

    /// Drops the route of a peer.
    fn drop_route(&mut self, id: &str)
        requires
            old(self).distinct(),
        ensures
            final(self).distinct(),
            final(self).peers@ == old(self).peers@,
            final(self).routes() == old(self).routes().remove(id@),
    {
        let at = self.find_route(id);
        if let Some(k) = at {
            let _ = self.routes.remove(k);
            proof {
                let before = old(self).routes@;
                assert(self.routes@ =~= before.remove(k as int));
                assert forall|i: int| 0 <= i < self.routes@.len() implies #[trigger] self.routes@[i]
                    == before[if i < k {
                    i
                } else {
                    i + 1
                }] by {}
                assert(self.distinct()) by {
                    assert forall|i: int, j: int| 0 <= i < j < self.routes@.len() implies (
                    #[trigger] self.routes@[i]).from@ != (#[trigger] self.routes@[j]).from@ by {
                        let a = if i < k {
                            i
                        } else {
                            i + 1
                        };
                        let b = if j < k {
                            j
                        } else {
                            j + 1
                        };
                        assert(before[a].from@ != before[b].from@);
                    }
                }
                let want = old(self).routes().remove(id@);
                assert forall|u: Seq<char>| #[trigger] self.routes().contains_key(u)
                    == want.contains_key(u) by {
                    if self.routes().contains_key(u) {
                        let i = choose|i: int| route_at(self.routes@, u, i);
                        let a = if i < k {
                            i
                        } else {
                            i + 1
                        };
                        assert(route_at(before, u, a));
                        assert(before[a].from@ != before[k as int].from@);
                    }
                    if want.contains_key(u) {
                        let a = choose|a: int| route_at(before, u, a);
                        let i = if a < k {
                            a
                        } else {
                            a - 1
                        };
                        assert(route_at(self.routes@, u, i));
                    }
                }
                assert forall|u: Seq<char>| #[trigger] want.contains_key(u) implies self.routes()[u]
                    == want[u] by {
                    let a = choose|a: int| route_at(before, u, a);
                    let i = if a < k {
                        a
                    } else {
                        a - 1
                    };
                    old(self).lemma_route(a);
                    self.lemma_route(i);
                }
                assert(self.routes() =~= want);
            }
        } else {
            assert(self.routes() =~= old(self).routes().remove(id@));
        }
    }

    /// Takes a name out of every list of destinations.
    fn drop_destination(&mut self, id: &str)
        requires
            old(self).distinct(),
        ensures
            final(self).distinct(),
            final(self).peers@ == old(self).peers@,
            final(self).routes().dom() == old(self).routes().dom(),
            forall|u: Seq<char>| #[trigger]
                final(self).routes().contains_key(u) ==> final(self).routes()[u] == old(
                    self,
                ).routes()[u].remove(id@),
    {
        let ghost before = self.routes@;
        let mut i: usize = 0;
        while i < self.routes.len()
            invariant
                i <= self.routes.len(),
                self.routes@.len() == before.len(),
                self.peers@ == old(self).peers@,
                before == old(self).routes@,
                forall|k: int|
                    0 <= k < before.len() ==> (#[trigger] self.routes@[k]).from@ == before[k].from@,
                forall|k: int|
                    0 <= k < i ==> names((#[trigger] self.routes@[k]).to@) == names(
                        before[k].to@,
                    ).remove(id@),
                old(self).distinct(),
                forall|k: int| 0 <= k < i ==> once_each((#[trigger] self.routes@[k]).to@),
                forall|k: int| i <= k < before.len() ==> #[trigger] self.routes@[k] == before[k],
            decreases self.routes.len() - i,
        {
            assert(once_each(before[i as int].to@));
            let to = list_without(&self.routes[i].to, id);
            let from = self.routes[i].from.clone();
            self.routes.set(i, Route { from, to });
            i = i + 1;
        }
        proof {
            assert(self.distinct()) by {
                assert forall|a: int, b: int| 0 <= a < b < self.routes@.len() implies (
                #[trigger] self.routes@[a]).from@ != (#[trigger] self.routes@[b]).from@ by {
                    assert(before[a].from@ != before[b].from@);
                }
            }
            assert forall|u: Seq<char>| #[trigger] self.routes().contains_key(u) == old(
                self,
            ).routes().contains_key(u) by {
                if self.routes().contains_key(u) {
                    let k = choose|k: int| route_at(self.routes@, u, k);
                    assert(route_at(before, u, k));
                }
                if old(self).routes().contains_key(u) {
                    let k = choose|k: int| route_at(before, u, k);
                    assert(route_at(self.routes@, u, k));
                }
            }
            assert(self.routes().dom() =~= old(self).routes().dom());
            assert forall|u: Seq<char>| #[trigger]
                self.routes().contains_key(u) implies self.routes()[u] == old(
                self,
            ).routes()[u].remove(id@) by {
                let k = choose|k: int| route_at(self.routes@, u, k);
                self.lemma_route(k);
                old(self).lemma_route(k);
            }
        }
    }

    /// Takes a peer out, and with it its route and every route that leads to it.
    pub fn remove_peer(&mut self, id: &str) -> (r: Option<PeerEntry>)
        requires
            old(self).wf(),
        ensures
            final(self).wf(),
            r == (if old(self).peers().contains_key(id@) {
                Some(old(self).peers()[id@])
            } else {
                None
            }),
            final(self).peers() == old(self).peers().remove(id@),
            final(self).routes().dom() == old(self).routes().dom().remove(id@),
            forall|u: Seq<char>| #[trigger]
                final(self).routes().contains_key(u) ==> final(self).routes()[u] == old(
                    self,
                ).routes()[u].remove(id@),
    {
        self.drop_route(id);
        let ghost middle = *self;
        self.drop_destination(id);
        let ghost before = self.peers@;
        let ghost routed = *self;
        assert(self.peers() =~= old(self).peers());
        let r: Option<PeerEntry> = match self.find_peer(id) {
            Some(k) => {
                proof {
                    self.lemma_peer(k as int);
                }
                let peer = self.peers.remove(k);
                proof {
                    assert(self.peers@ =~= before.remove(k as int));
                    assert forall|i: int| 0 <= i < self.peers@.len() implies #[trigger] self.peers@[i]
                        == before[if i < k {
                        i
                    } else {
                        i + 1
                    }] by {}
                    assert(self.distinct()) by {
                        assert forall|i: int, j: int| 0 <= i < j < self.peers@.len() implies (
                        #[trigger] self.peers@[i]).id@ != (#[trigger] self.peers@[j]).id@ by {
                            let a = if i < k {
                                i
                            } else {
                                i + 1
                            };
                            let b = if j < k {
                                j
                            } else {
                                j + 1
                            };
                            assert(before[a].id@ != before[b].id@);
                        }
                    }
                    let want = routed.peers().remove(id@);
                    assert forall|u: Seq<char>| #[trigger] self.peers().contains_key(u)
                        == want.contains_key(u) by {
                        if self.peers().contains_key(u) {
                            let i = choose|i: int| peer_at(self.peers@, u, i);
                            let a = if i < k {
                                i
                            } else {
                                i + 1
                            };
                            assert(peer_at(before, u, a));
                            assert(before[a].id@ != before[k as int].id@);
                        }
                        if want.contains_key(u) {
                            let a = choose|a: int| peer_at(before, u, a);
                            let i = if a < k {
                                a
                            } else {
                                a - 1
                            };
                            assert(peer_at(self.peers@, u, i));
                        }
                    }
                    assert forall|u: Seq<char>| #[trigger]
                        want.contains_key(u) implies self.peers()[u] == want[u] by {
                        let a = choose|a: int| peer_at(before, u, a);
                        let i = if a < k {
                            a
                        } else {
                            a - 1
                        };
                        routed.lemma_peer(a);
                        self.lemma_peer(i);
                    }
                    assert(self.peers() =~= want);
                }
                Some(peer.entry)
            },
            None => {
                assert(self.peers() =~= old(self).peers().remove(id@));
                None
            },
        };
        proof {
            assert(self.routes() =~= routed.routes());
            assert forall|a: Seq<char>, u: Seq<char>|
                self.routes().contains_key(a) && #[trigger] self.routes()[a].contains(
                    u,
                ) implies #[trigger] self.peers().contains_key(u) by {
                assert(routed.routes().contains_key(a));
                assert(middle.routes().contains_key(a));
                assert(old(self).routes()[a].contains(u));
                assert(old(self).peers().contains_key(u));
                assert(u != id@);
            }
        }
        r
    }

    /// Where a peer's audio goes, each place once.
    pub fn destinations(&self, id: &str) -> (r: Vec<String>)
        requires
            self.wf(),
        ensures
            once_each(r@),
            names(r@) == (if self.routes().contains_key(id@) {
                self.routes()[id@]
            } else {
                Set::empty()
            }),
    {
        match self.find_route(id) {
            Some(k) => {
                proof {
                    self.lemma_route(k as int);
                }
                let r = self.routes[k].to.clone();
                assert(r@ =~= self.routes@[k as int].to@);
                r
            },
            None => {
                let r: Vec<String> = Vec::new();
                assert(names(r@) =~= Set::empty());
                r
            },
        }
    }

    /// What is known of a peer.
    pub fn peer(&self, id: &str) -> (r: Option<PeerEntry>)
        requires
            self.wf(),
        ensures
            r == (if self.peers().contains_key(id@) {
                Some(self.peers()[id@])
            } else {
                None
            }),
    {
        match self.find_peer(id) {
            Some(k) => {
                proof {
                    self.lemma_peer(k as int);
                }
                Some(self.peers[k].entry)
            },
            None => None,
        }
    }

    /// Whether a name is that of one of the two legs.
    pub open spec fn is_leg(id: Seq<char>) -> bool {
        id == "webrtc"@ || id == "rtp"@
    }

    /// The peers beyond the two legs, each once.
    pub fn extra_peers(&self) -> (r: Vec<String>)
        requires
            self.wf(),
        ensures
            once_each(r@),
            names(r@) == self.peers().dom().filter(|t: Seq<char>| !Self::is_leg(t)),
    {
        let mut out: Vec<String> = Vec::new();
        let mut i: usize = 0;
        while i < self.peers.len()
            invariant
                i <= self.peers.len(),
                self.wf(),
                forall|k: int|
                    0 <= k < out.len() ==> !Self::is_leg((#[trigger] out@[k])@)
                        && self.peers().contains_key(out@[k]@),
                once_each(out@),
                forall|k: int|
                    0 <= k < out.len() ==> exists|j: int|
                        0 <= j < i && (#[trigger] self.peers@[j]).id@ == (#[trigger] out@[k])@,
                forall|j: int|
                    0 <= j < i && !Self::is_leg((#[trigger] self.peers@[j]).id@) ==> names(
                        out@,
                    ).contains(self.peers@[j].id@),
            decreases self.peers.len() - i,
        {
            proof {
                self.lemma_peer(i as int);
            }
            let id = self.peers[i].id.as_str();
            if !same_text(id, "webrtc") && !same_text(id, "rtp") {
                let ghost before = out@;
                out.push(self.peers[i].id.clone());
                proof {
                    let n = before.len() as int;
                    assert(out@[n]@ == self.peers@[i as int].id@);
                    assert forall|k: int| 0 <= k < out.len() implies exists|j: int|
                        0 <= j < i + 1 && (#[trigger] self.peers@[j]).id@ == (#[trigger] out@[k])@ by {
                        if k < n {
                            let j = choose|j: int|
                                0 <= j < i && (#[trigger] self.peers@[j]).id@ == before[k]@;
                            assert(self.peers@[j].id@ == out@[k]@);
                        } else {
                            assert(self.peers@[i as int].id@ == out@[k]@);
                        }
                    }
                    assert forall|a: int, b: int| 0 <= a < b < out.len() implies (
                    #[trigger] out@[a])@ != (#[trigger] out@[b])@ by {
                        assert(out@[a] == before[a]);
                        if b < n {
                            assert(out@[b] == before[b]);
                        } else {
                            let j = choose|j: int|
                                0 <= j < i && (#[trigger] self.peers@[j]).id@ == before[a]@;
                            assert(self.peers@[j].id@ != self.peers@[i as int].id@);
                        }
                    }
                    assert forall|j: int|
                        0 <= j < i + 1 && !Self::is_leg(
                            (#[trigger] self.peers@[j]).id@,
                        ) implies names(out@).contains(self.peers@[j].id@) by {
                        if j < i {
                            assert(names(before).contains(self.peers@[j].id@));
                            let k = choose|k: int|
                                0 <= k < before.len() && #[trigger] before[k]@
                                    == self.peers@[j].id@;
                            assert(out@[k]@ == self.peers@[j].id@);
                        }
                    }
                }
            }
            i = i + 1;
        }
        proof {
            let want = self.peers().dom().filter(|t: Seq<char>| !Self::is_leg(t));
            assert forall|t: Seq<char>| names(out@).contains(t) == want.contains(t) by {
                if names(out@).contains(t) {
                    let k = choose|k: int| 0 <= k < out.len() && #[trigger] out@[k]@ == t;
                    assert(self.peers().contains_key(out@[k]@));
                }
                if want.contains(t) {
                    let j = choose|j: int| peer_at(self.peers@, t, j);
                    assert(names(out@).contains(self.peers@[j].id@));
                }
            }
            assert(names(out@) =~= want);
        }
        out
    }
}

/// Every route leads to peers that are there.
pub proof fn law_routes_lead_to_peers(r: PeerRoutes, from: Seq<char>, to: Seq<char>)
    requires
        r.wf(),
        r.routes().contains_key(from),
        r.routes()[from].contains(to),
    ensures
        r.peers().contains_key(to),
{
}

/// The two legs of a bridge, and nothing else, have names of their own.
pub proof fn law_legs_have_reserved_names(id: Seq<char>)
    ensures
        PeerRoutes::is_leg("webrtc"@),
        PeerRoutes::is_leg("rtp"@),
        id.len() != 6 && id.len() != 3 ==> !PeerRoutes::is_leg(id),
        id.len() > 0 && id[0] != 'w' && id[0] != 'r' ==> !PeerRoutes::is_leg(id),
{
    reveal_strlit("webrtc");
    reveal_strlit("rtp");
    assert("webrtc"@[0] == 'w');
    assert("rtp"@[0] == 'r');
}

} // verus!
