//! The server's table of clients, by connection ID.
use vstd::prelude::*;

use crate::address::SocketAddress;
use crate::buf::matches_at;
use crate::conn_id::MAX_CONN_ID_LEN;
use crate::packet::{
    classify_packet, spec_classify_packet, spec_reads_token, spec_token,
    spec_version_is_supported, PacketAction, PacketDecision, PacketHeader,
};
use crate::server::{Client, PartialResponse};
use crate::token::spec_validate_token;

verus! {

/// The server's clients, each stored under the connection ID it was
/// accepted with. Every operation keeps the IDs distinct (`wf`).
pub struct ClientTable<C> {
    entries: Vec<(Vec<u8>, Client<C>)>,
}

impl<C> ClientTable<C> {
    /// The connection IDs of the clients, in the table's order.
    pub closed spec fn ids(&self) -> Seq<Seq<u8>> {
        self.entries@.map_values(|e: (Vec<u8>, Client<C>)| e.0@)
    }

    /// The client at position `i`.
    pub closed spec fn client(&self, i: int) -> Client<C> {
        self.entries@[i].1
    }

    /// No two clients of the table share a connection ID.
    pub open spec fn wf(&self) -> bool {
        self.ids().no_duplicates()
    }

    /// An empty table.
    pub fn new() -> (table: Self)
        ensures
            table.ids() == Seq::<Seq<u8>>::empty(),
            table.wf(),
    {
        let t = ClientTable { entries: Vec::new() };
        assert(t.ids() =~= Seq::<Seq<u8>>::empty());
        t
    }

    /// The number of clients.
    pub fn len(&self) -> (n: usize)
        ensures
            n == self.ids().len(),
    {
        self.entries.len()
    }

    /// The position of the client stored under `id`, if there is one.
    pub fn position(&self, id: &[u8]) -> (res: Option<usize>)
        ensures
            match res {
                Some(i) => i < self.ids().len() && self.ids()[i as int] == id@,
                None => !self.ids().contains(id@),
            },
    {
        let mut i: usize = 0;
        while i < self.entries.len()
            invariant
                i <= self.entries@.len(),
                forall|j: int| 0 <= j < i ==> self.ids()[j] != id@,
            decreases self.entries@.len() - i,
        {
            let e = &self.entries[i];
            if e.0.len() == id.len() && matches_at(e.0.as_slice(), 0, id) {
                assert(e.0@.subrange(0, id@.len() as int) =~= e.0@);
                assert(self.ids()[i as int] == e.0@);
                return Some(i);
            }
            proof {
                assert(self.ids()[i as int] == e.0@);
                if e.0@ == id@ {
                    assert(e.0@.subrange(0, id@.len() as int) =~= e.0@);
                }
            }
            i = i + 1;
        }
        proof {
            if self.ids().contains(id@) {
                let j = choose|j: int| 0 <= j < self.ids().len() && self.ids()[j] == id@;
                assert(self.ids()[j] == id@);
            }
        }
        None
    }

    /// Whether a client is stored under `id`.
    pub fn contains(&self, id: &[u8]) -> (res: bool)
        ensures
            res == self.ids().contains(id@),
    {
        self.position(id).is_some()
    }

    /// The client at position `i`.
    pub fn at(&self, i: usize) -> (c: &Client<C>)
        requires
            i < self.ids().len(),
        ensures
            *c == self.client(i as int),
    {
        &self.entries[i].1
    }

    /// The client at position `i`, to be changed in place; the table keeps
    /// its IDs and its other clients.
    pub fn at_mut(&mut self, i: usize) -> (c: &mut Client<C>)
        requires
            i < old(self).ids().len(),
        ensures
            *c == old(self).client(i as int),
            final(self).ids() == old(self).ids(),
            final(self).client(i as int) == *final(c),
            forall|j: int| 0 <= j < old(self).ids().len() && j != i ==> final(self).client(j) == old(
                self,
            ).client(j),
    {
        &mut self.entries[i].1
    }

    /// Stores a newly accepted client under `id`, on the connection `conn`,
    /// with nothing waiting to be sent. No client may be stored under `id` yet.
    pub fn insert(&mut self, id: Vec<u8>, conn: C)
        requires
            !old(self).ids().contains(id@),
        ensures
            final(self).ids() == old(self).ids().push(id@),
            forall|j: int| 0 <= j < old(self).ids().len() ==> final(self).client(j) == old(
                self,
            ).client(j),
            final(self).client(old(self).ids().len() as int).conn == conn,
            final(self).client(old(self).ids().len() as int).partial_responses@ == Map::<
                u64,
                PartialResponse,
            >::empty(),
            old(self).wf() ==> final(self).wf(),
    {
        let ghost id_view = id@;
        self.entries.push((id, Client::new(conn)));
        proof {
            assert(self.ids() =~= old(self).ids().push(id_view));
            if old(self).wf() {
                assert forall|a: int, b: int|
                    0 <= a < self.ids().len() && 0 <= b < self.ids().len() && a != b implies
                    self.ids()[a] != self.ids()[b] by {
                    if a == old(self).ids().len() {
                        assert(old(self).ids().contains(self.ids()[b]) || b == a);
                    } else if b == old(self).ids().len() {
                        assert(old(self).ids()[a] == self.ids()[a]);
                    }
                }
            }
        }
    }

    /// Removes the client at position `i`; the others keep their order.
    pub fn remove_at(&mut self, i: usize)
        requires
            i < old(self).ids().len(),
        ensures
            final(self).ids() == old(self).ids().remove(i as int),
            forall|j: int| 0 <= j < i ==> final(self).client(j) == old(self).client(j),
            forall|j: int|
                i <= j < final(self).ids().len() ==> final(self).client(j) == old(self).client(
                    j + 1,
                ),
            old(self).wf() ==> final(self).wf(),
    {
        self.entries.remove(i);
        proof {
            assert(self.ids() =~= old(self).ids().remove(i as int));
            if old(self).wf() {
                let o = old(self).ids();
                assert forall|a: int, b: int|
                    0 <= a < self.ids().len() && 0 <= b < self.ids().len() && a != b implies
                    self.ids()[a] != self.ids()[b] by {
                    let oa = if a < i { a } else { a + 1 };
                    let ob = if b < i { b } else { b + 1 };
                    assert(self.ids()[a] == o[oa]);
                    assert(self.ids()[b] == o[ob]);
                }
            }
        }
    }

    /// Decides what to do with a packet whose header is `hdr`, from the client
    /// at `peer`, by looking up the packet's destination ID and the ID
    /// `conn_id` derived from it. Where the client is new and speaks a
    /// supported version, the packet must carry a token and `conn_id` must
    /// be a full-length ID.
    pub fn route_packet(&self, hdr: &PacketHeader, conn_id: &[u8], peer: &SocketAddress) -> (action:
        PacketAction)
        requires
            spec_reads_token(*hdr, self.ids().contains(hdr.dcid@), self.ids().contains(conn_id@))
                ==> {
                &&& hdr.token is Some
                &&& conn_id@.len() == MAX_CONN_ID_LEN
            },
        ensures
            action@ == spec_classify_packet(
                *hdr,
                conn_id@,
                self.ids().contains(hdr.dcid@),
                self.ids().contains(conn_id@),
                peer.ip,
            ),
    {
        let known_dcid = self.contains(hdr.dcid.as_slice());
        let known_conn_id = self.contains(conn_id);
        classify_packet(hdr, conn_id, known_dcid, known_conn_id, peer)
    }
}

/// The IDs of the table after the server handled a packet: the accepted ID
/// joins when the packet is accepted, and nothing changes otherwise.
pub open spec fn spec_ids_after_packet(
    ids: Seq<Seq<u8>>,
    hdr: PacketHeader,
    conn_id: Seq<u8>,
    peer: crate::address::IpAddress,
) -> Seq<Seq<u8>> {
    match spec_classify_packet(hdr, conn_id, ids.contains(hdr.dcid@), ids.contains(conn_id), peer) {
        PacketDecision::Accept { scid, .. } => ids.push(scid),
        _ => ids,
    }
}

/// Handling a packet never removes a client, and adds at most one: the
/// packet's own destination ID, and only when that ID is new and full-length,
/// the version is supported, and the packet carries a non-empty token that
/// was minted for the sender's address.
pub proof fn lemma_clients_join_only_when_accepted(
    ids: Seq<Seq<u8>>,
    hdr: PacketHeader,
    conn_id: Seq<u8>,
    peer: crate::address::IpAddress,
)
    ensures
        ({
            let after = spec_ids_after_packet(ids, hdr, conn_id, peer);
            &&& forall|k: Seq<u8>| ids.contains(k) ==> after.contains(k)
            &&& forall|k: Seq<u8>| after.contains(k) ==> ids.contains(k) || k == hdr.dcid@
            &&& after != ids ==> {
                &&& after == ids.push(hdr.dcid@)
                &&& !ids.contains(hdr.dcid@)
                &&& spec_version_is_supported(hdr.version)
                &&& spec_token(hdr).len() > 0
                &&& spec_validate_token(peer, spec_token(hdr)) is Some
                &&& hdr.dcid@.len() == MAX_CONN_ID_LEN
            }
        }),
{
    let after = spec_ids_after_packet(ids, hdr, conn_id, peer);
    assert forall|k: Seq<u8>| ids.contains(k) implies after.contains(k) by {
        if after != ids {
            let j = choose|j: int| 0 <= j < ids.len() && ids[j] == k;
            assert(after[j] == k);
        }
    }
    assert forall|k: Seq<u8>| after.contains(k) implies ids.contains(k) || k == hdr.dcid@ by {
        if after != ids {
            let j = choose|j: int| 0 <= j < after.len() && after[j] == k;
            if j < ids.len() {
                assert(ids[j] == k);
            }
        }
    }
}

} // verus!
